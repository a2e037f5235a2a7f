use em6809_core::bus::{Bus, Memory};
use em6809_core::io::{
    console_gui_pending_len, set_console_gui_active, set_console_gui_enabled, set_console_log,
    set_console_repaint_callback, set_console_stdout_enabled, take_console_gui_bytes, Device,
    HostOut, IoBus, Mc6850Dev,
};

fn shown(out: Vec<HostOut<Vec<u8>, String>>) -> Vec<String> {
    let mut v = Vec::new();
    for o in out {
        v.push(match o {
            HostOut::File(b) => format!("file {:02X}", b),
            HostOut::Repaint => "repaint".to_string(),
            HostOut::Stdout(s) => format!("out {:02X?}", s),
            HostOut::Stderr(b) => format!("err {:02X}", b),
            HostOut::Note(s) => format!("note {}", s),
            HostOut::FlushStdout => "flush".to_string(),
            HostOut::FlushFile => "flush file".to_string(),
        });
    }
    v
}

#[test]
fn sixteen_bytes_are_queued_in_order_and_the_next_overruns() {
    let mut c = Mc6850Dev::new(0xFF00);
    let sent: Vec<u8> = (1..=17).collect();
    c.feed_bytes(&sent);
    assert_eq!(c.read8(0xFF00), 0x01 | 0x02 | 0x20);
    for i in 1..=16 {
        assert_eq!(c.read8(0xFF01), i);
    }
    assert_eq!(c.read8(0xFF00), 0x02);
    assert_eq!(c.read8(0xFF01), 0);
}

#[test]
fn a_master_reset_drops_the_queue_until_it_is_released() {
    let mut c = Mc6850Dev::new(0xFF00);
    c.feed_bytes(b"ab");
    c.write8(0xFF00, 0x03);
    assert_eq!(c.read8(0xFF00), 0x00);
    c.feed_bytes(b"c");
    c.write8(0xFF01, b'x');
    assert!(c.take_output().is_empty());
    c.write8(0xFF00, 0x15);
    assert_eq!(c.read8(0xFF00), 0x02);
    c.feed_bytes(b"d");
    assert_eq!(c.read8(0xFF01), b'd');
}

#[test]
fn received_bytes_interrupt_from_the_watermark_on() {
    let mut c = Mc6850Dev::new(0xFF00);
    c.set_ctrl(0x95);
    c.set_rx_watermark(3);
    c.feed_bytes(b"ab");
    assert_eq!(c.irq_lines(), (false, false, false));
    c.feed_bytes(b"c");
    assert_eq!(c.irq_lines(), (false, false, true));
    assert_eq!(c.read8(0xFF00) & 0x80, 0x80);
    c.set_rx_watermark(0);
    c.read8(0xFF01);
    c.read8(0xFF01);
    assert_eq!(c.irq_lines(), (false, false, true));
}

#[test]
fn an_interrupt_is_held_behind_its_cause() {
    let mut c = Mc6850Dev::new(0xFF00);
    c.set_ctrl(0x95);
    c.set_irq_hold_cycles(2);
    c.feed_bytes(b"a");
    assert!(c.irq_lines().2);
    c.read8(0xFF01);
    assert!(c.irq_lines().2);
    assert!(c.irq_lines().2);
    assert!(!c.irq_lines().2);
}

#[test]
fn a_free_transmitter_interrupts_where_enabled() {
    let mut c = Mc6850Dev::new(0xFF00);
    c.set_ctrl(0x20 | 0x15);
    assert_eq!(c.irq_lines(), (false, false, true));
    c.set_ctrl(0x15);
    assert_eq!(c.irq_lines(), (false, false, false));
}

#[test]
fn characters_of_several_bytes_go_out_together() {
    let mut c = Mc6850Dev::new(0xFF00);
    c.set_flush_every(0);
    for b in "a\u{e9}\u{20ac}".as_bytes() {
        c.write8(0xFF01, *b);
    }
    assert_eq!(shown(c.take_output()), vec!["out [61]", "out [C3, A9]", "out [E2, 82, AC]"]);
    assert!(c.take_output().is_empty());
}

#[test]
fn flushes_come_at_counts_and_newlines() {
    let mut c = Mc6850Dev::new(0xFF00);
    c.write8(0xFF01, b'a');
    assert_eq!(shown(c.take_output()), vec!["out [61]", "flush"]);
    c.set_flush_every(2);
    c.write8(0xFF01, b'b');
    c.write8(0xFF01, b'c');
    assert_eq!(shown(c.take_output()), vec!["out [62]", "flush", "out [63]"]);
    c.set_flush_every(0);
    c.set_flush_on_newline(true);
    c.set_out_file(true);
    c.write8(0xFF01, b'\n');
    assert_eq!(
        shown(c.take_output()),
        vec!["file 0A", "out [0A]", "flush", "flush file"]
    );
    c.set_out_file(false);
    c.write8(0xFF01, b'x');
    assert_eq!(shown(c.take_output()), vec!["file 78", "out [78]"]);
}

#[test]
fn a_window_takes_the_output() {
    let mut c = Mc6850Dev::new(0xFF00);
    c.set_flush_every(0);
    set_console_gui_enabled(&mut c.port.host, true);
    set_console_gui_active(&mut c.port.host, true);
    set_console_repaint_callback(&mut c.port.host, true);
    set_console_stdout_enabled(&mut c.port.host, false);
    c.write8(0xFF01, b'h');
    c.write8(0xFF01, b'i');
    assert_eq!(shown(c.take_output()), vec!["repaint", "repaint"]);
    assert_eq!(console_gui_pending_len(&c.port.host), 2);
    assert_eq!(take_console_gui_bytes(&mut c.port.host), b"hi".to_vec());
    assert_eq!(console_gui_pending_len(&c.port.host), 0);
    // Without the window the standard output is always on.
    set_console_gui_active(&mut c.port.host, false);
    c.write8(0xFF01, b'!');
    assert_eq!(shown(c.take_output()), vec!["out [21]"]);
}

#[test]
fn the_log_the_tee_and_the_echo() {
    let mut c = Mc6850Dev::new(0xFF00);
    c.set_flush_every(0);
    set_console_log(&mut c.port.host, true);
    c.feed_bytes(&[0x41]);
    c.set_tee_stderr(true);
    c.write8(0xFF01, 0x0A);
    set_console_log(&mut c.port.host, false);
    c.set_local_echo(true);
    c.read8(0xFF01);
    c.set_firq(true);
    c.set_firq(false);
    assert_eq!(
        shown(c.take_output()),
        vec![
            "note [console-rx] queued $41",
            "note [console-tx] addr=FF01 data=0A",
            "err 0A",
            "out [0A]",
            "out [41]",
            "note [console] FIRQ requested but MC6850 only routes to IRQ; ignoring",
        ]
    );
}

#[test]
fn the_bus_keeps_exactly_one_console() {
    let mut bus = IoBus::new(Memory::new());
    bus.add_device(Mc6850Dev::new(0xFF00));
    bus.add_device(Mc6850Dev::new(0xFF10));
    bus.feed_console_input(b"z");
    bus.ensure_console(true, 0xFF10);
    // The one at $FF00 is gone, and with it what it had received.
    assert_eq!(bus.read8(0xFF00), 0x00);
    assert_eq!(bus.read8(0xFF10), 0x02);
    bus.feed_console_input(b"y");
    bus.ensure_console(true, 0xFF10);
    assert_eq!(bus.read8(0xFF11), b'y');
    bus.ensure_console(true, 0xFF20);
    assert_eq!(bus.read8(0xFF10), 0x00);
    assert_eq!(bus.read8(0xFF20), 0x02);
    bus.ensure_console(false, 0xFF20);
    assert_eq!(bus.read8(0xFF20), 0x00);
    assert!(!bus.with_console_mut(|_c: &mut Mc6850Dev| {}));
}
