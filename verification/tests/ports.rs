use em6809_core::bus::{Bus, Memory};
use em6809_core::io::{
    peek_gpio_broadcast, publish_gpio_broadcast, set_gpio_log, take_gpio_broadcast, Device,
    GpioBroadcast, GpioDev, IoBus,
};
use em6809_core::timer::TimerDev;

#[test]
fn the_latch_stays_within_the_width() {
    let mut g = GpioDev::new(0xFF30, 12);
    g.write8(0xFF30, 0xFF);
    g.write8(0xFF34, 0xFF);
    assert_eq!(g.get_state(), (0x0FFF, 0xFFFF_FFFF, 12));
    assert_eq!(g.read8(0xFF35), 0x0F);
    assert!(g.contains(0xFF37));
    assert!(!g.contains(0xFF38));
}

#[test]
fn inputs_show_what_was_set_and_outputs_the_latch() {
    let mut g = GpioDev::new(0xFF30, 8);
    g.write8(0xFF30, 0xA5);
    assert_eq!(g.read8(0xFF31), 0xA5);
    g.write8(0xFF32, 0x0F);
    g.set_inputs(0xC0);
    assert_eq!(g.read8(0xFF31), 0xC5);
    assert_eq!(g.read8(0xFF30), 0xA5);
    assert_eq!(g.read8(0xFF32), 0x0F);
    assert_eq!(g.read8(0xFF33), 0x00);
    g.write8(0xFF33, 0x01);
    assert_eq!(g.read8(0xFF31), 0x05);
    g.set_dir(0xFF);
    g.set_out(0x1FF);
    assert_eq!(g.get_state(), (0xFF, 0xFF, 8));
}

#[test]
fn writes_are_broadcast_and_logged() {
    let mut g = GpioDev::new(0xFF30, 16);
    set_gpio_log(&mut g, true);
    g.write8(0xFF34, 0x81);
    assert_eq!(g.take_lines(), vec!["[gpio] OUT @$FF30+4 <= $81".to_string()]);
    assert_eq!(
        peek_gpio_broadcast(&g.broadcast),
        Some((true, 16, 0x8100, 0xFFFF_FFFF))
    );
    assert_eq!(
        take_gpio_broadcast(&mut g.broadcast),
        Some((true, 16, 0x8100, 0xFFFF_FFFF))
    );
    assert_eq!(take_gpio_broadcast(&mut g.broadcast), None);
}

#[test]
fn a_broadcast_holds_the_last_state() {
    let mut b = GpioBroadcast::new();
    publish_gpio_broadcast(&mut b, true, 8, 1, 2);
    publish_gpio_broadcast(&mut b, false, 0, 3, 4);
    assert_eq!(peek_gpio_broadcast(&b), Some((false, 0, 3, 4)));
    assert_eq!(take_gpio_broadcast(&mut b), Some((false, 0, 3, 4)));
    assert_eq!(peek_gpio_broadcast(&b), None);
}

#[test]
fn a_port_is_moved_and_cut_down() {
    let mut bus = IoBus::new(Memory::new());
    bus.ensure_gpio(true, 0xFF30, 16);
    bus.write8(0xFF30, 0xFF);
    bus.write8(0xFF34, 0xFF);
    assert!(bus.take_gpio_dirty());
    assert!(!bus.take_gpio_dirty());
    bus.ensure_gpio(true, 0xFF40, 4);
    assert_eq!(bus.read8(0xFF40), 0x0F);
    assert_eq!(bus.read8(0xFF30), 0x00);
    bus.ensure_gpio(false, 0xFF40, 4);
    assert_eq!(bus.read8(0xFF40), 0x00);
}

#[test]
fn a_timer_is_pending_behind_its_period_and_again() {
    let mut t = TimerDev::new(0xFF10);
    t.set_reload(5);
    t.set_irq_enable(true);
    t.start();
    for _ in 0..2 {
        for _ in 0..4 {
            assert_eq!(t.irq_lines(), (false, false, false));
        }
        assert_eq!(t.irq_lines(), (false, false, true));
        assert_eq!(t.get_state(), (true, true, false, true));
        assert_eq!(t.get_info(), (5, 5));
        t.write8(0xFF10, 0x13);
    }
    t.stop();
    assert_eq!(t.get_info(), (5, 5));
    t.irq_lines();
    assert_eq!(t.get_info(), (5, 5));
}

#[test]
fn timer_registers_read_back() {
    let mut t = TimerDev::new(0xFF10);
    t.write8(0xFF11, 0x12);
    t.write8(0xFF12, 0x34);
    t.write8(0xFF13, 0x56);
    t.write8(0xFF14, 0x78);
    assert_eq!(t.get_info(), (0x1234, 0x5678));
    assert_eq!(t.read8(0xFF11), 0x12);
    assert_eq!(t.read8(0xFF12), 0x34);
    assert_eq!(t.read8(0xFF13), 0x56);
    assert_eq!(t.read8(0xFF14), 0x78);
    t.set_firq(true);
    t.set_irq_enable(true);
    assert_eq!(t.get_state(), (false, true, true, false));
    assert_eq!(t.read8(0xFF10), 0x06);
}

#[test]
fn the_first_device_at_an_address_answers() {
    let mut bus = IoBus::new(Memory::new());
    bus.add_device(GpioDev::new(0xFF30, 8));
    bus.add_device(TimerDev::new(0xFF30));
    bus.write8(0xFF30, 0x5A);
    assert_eq!(bus.read8(0xFF30), 0x5A);
    // The port takes four addresses; the fifth goes to the timer.
    bus.write8(0xFF34, 0x77);
    assert_eq!(bus.read8(0xFF34), 0x77);
    // Memory behind the devices was not touched.
    assert_eq!(bus.inner_any_mut().read8(0xFF30), 0x00);
    bus.write8(0xFF35, 0x11);
    assert_eq!(bus.inner_any_mut().read8(0xFF35), 0x11);
}

#[test]
fn watched_bytes_are_told_once() {
    let mut bus = IoBus::new(Memory::new());
    bus.set_mem_watch(0x0200, 4);
    bus.write8(0x01FF, 1);
    assert!(!bus.take_mem_dirty());
    bus.write8(0x0203, 1);
    assert!(bus.take_mem_dirty());
    assert!(!bus.take_mem_dirty());
    bus.write8(0x0204, 1);
    assert!(!bus.take_mem_dirty());
    bus.set_mem_watch(0x0200, 0);
    bus.write8(0x0200, 1);
    assert!(!bus.take_mem_dirty());
}
