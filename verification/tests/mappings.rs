use em6809_core::bus::{Bus, Memory};
use em6809_core::config::{apply_mmu_config_from_str, apply_preset, list_presets};
use em6809_core::cpu::Cpu;
use em6809_core::io::IoBus;
use em6809_core::mmu::Mc6829;

fn mmu() -> Mc6829 {
    Mc6829::new(0x10_0000, 0xFFA0)
}

#[test]
fn pages_lead_to_their_frames() {
    let mut m = mmu();
    m.set_map_entry(0x2, 0x30);
    m.write8(0x2345, 0x99);
    m.set_map_entry(0x5, 0x30);
    assert_eq!(m.read8(0x5345), 0x99);
    m.set_map_entry(0x2, 0x02);
    assert_eq!(m.read8(0x2345), 0x00);
    // A frame past the memory reads as $FF and takes no writes.
    m.set_map_entry(0x7, 0x200);
    m.write8(0x7000, 0x12);
    assert_eq!(m.read8(0x7000), 0xFF);
}

#[test]
fn tasks_and_modes_have_maps_of_their_own() {
    let mut m = mmu();
    m.set_map_entry(0x1, 0x40);
    m.set_task(3);
    m.set_map_entry(0x1, 0x41);
    m.write8(0x1000, 0x03);
    m.set_task(0);
    m.write8(0x1000, 0x01);
    m.set_task(3);
    assert_eq!(m.read8(0x1000), 0x03);
    m.set_task(8);
    assert_eq!(m.task, 0);
    assert_eq!(m.read8(0x1000), 0x01);
    let (map, sys, task) = m.snapshot_current_map();
    assert_eq!((map[1], sys, task), (0x40, false, 0));
    assert_eq!(m.snapshot_map_for(true)[1], 0x01);
    let (system, user, _, _) = m.snapshot_maps();
    assert_eq!((user[1], system[1]), (0x40, 0x01));
}

#[test]
fn registers_read_back_through_the_window() {
    let mut m = mmu();
    m.write8(0xFFA3, 0x55);
    m.write8(0xFFB0, 0x0A);
    assert_eq!(m.read8(0xFFB0), 0x02);
    m.write8(0xFFB0, 0x00);
    m.write8(0xFFB1, 0x00);
    m.write8(0xFFB2, 0x0F);
    m.write8(0xFFB8 + 4, 0x03);
    assert_eq!(m.read8(0xFFA3), 0x55);
    assert_eq!(m.read8(0xFFB1), 0x00);
    assert_eq!(m.read8(0xFFB2), 0x0F);
    assert_eq!(m.read8(0xFFBC), 0x03);
    assert_eq!(m.read8(0xFFB4), 0xFF);
}

#[test]
fn faults_are_told_until_they_are_read() {
    let mut m = mmu();
    m.store_logical_slice(0x3000, &[0x11]);
    m.write8(0xFFB2, 0x01 | 0x02 | 0x04 | 0x08);
    m.write8(0xFFB8 + 3, 0x07);
    assert_eq!(m.read8(0x3000), 0xFF);
    m.write8(0x3000, 0x22);
    assert_eq!(m.read8_fetch(0x3000), 0x00);
    assert_eq!(m.irq_lines(), (false, false, true));
    m.write8(0xFFB2, 0x1F);
    assert_eq!(m.irq_lines(), (false, true, false));
    assert_eq!(m.read8(0xFFB3), 0x07);
    assert_eq!(m.irq_lines(), (false, false, false));
    m.write8(0xFFB2, 0x00);
    assert_eq!(m.read8(0x3000), 0x11);
}

#[test]
fn physical_memory_is_filled() {
    let mut m = mmu();
    m.clear_physical(0x5A);
    assert_eq!(m.read8(0x0123), 0x5A);
    m.store_physical_slice(0x4_0000, &[1, 2, 3]);
    m.set_map_entry(0, 0x40);
    assert_eq!((m.read8(0x0000), m.read8(0x0002), m.read8(0x0003)), (1, 3, 0x5A));
    // Bytes that do not fit are not stored at all.
    m.store_physical_slice(0xF_FFFF, &[9, 9]);
    m.set_map_entry(0, 0xFF);
    assert_eq!(m.read8(0x0FFF), 0x5A);
    m.store_physical_slice(0xF_FFFF, &[9]);
    assert_eq!(m.read8(0x0FFF), 9);
}

#[test]
fn mappings_are_logged() {
    let mut m = mmu();
    m.set_log_maps(true);
    m.set_map_entry(0xA, 0x1F);
    m.write8(0xFFA1, 0x07);
    assert_eq!(
        m.take_log(),
        vec!["[mmu] user task0: PA -> F1F".to_string(), "[mmu] user task0: P1 -> F7".to_string()]
    );
}

#[test]
fn a_configuration_is_applied_line_by_line() {
    let mut m = Mc6829::new(0x10000, 0xFFE0);
    apply_preset(&mut m, "identity").unwrap();
    let cfg = "
    task 0
    map 0x0=0x0000  // logical $0xxx to physical frame 0
    map 0x1=0x0001
    attr 0xF=0x01   // WPROT on $Fxxx
    # a comment
    MODE System
    prot $0F
    task 9
    regs 0xFF00
";
    apply_mmu_config_from_str(&mut m, cfg).unwrap();
    assert_eq!(m.task, 1);
    assert_eq!(m.regs_base, 0xFF00);
    assert_eq!(m.read8(0xFF11), 1);
    assert_eq!(m.read8(0xFF12), 0x0F);
    apply_mmu_config_from_str(&mut m, "regs off").unwrap();
    m.write8(0xFF12, 0x00);
    apply_mmu_config_from_str(&mut m, "regs $FF00\nmode user\ntask 0").unwrap();
    assert_eq!(m.read8(0xFF12), 0x0F);
    assert_eq!(m.read8(0xFF27), 0x01);
}

#[test]
fn a_refused_line_is_named_and_what_stands_before_it_is_in_force() {
    let mut m = mmu();
    let r = apply_mmu_config_from_str(&mut m, "task 2\nbogus 1\ntask 3");
    assert_eq!(r, Err("Line 2: unknown directive: bogus".to_string()));
    assert_eq!(m.task, 2);
    for bad in ["task", "task x", "task 256", "mode other", "map 1", "map 16=0", "map 1=x",
        "attr 1=0x10000", "prot", "regs", "regs nowhere"]
    {
        let word = bad.split(' ').next().unwrap();
        assert_eq!(
            apply_mmu_config_from_str(&mut m, bad),
            Err(format!("Line 1: bad operand: {}", word))
        );
    }
}

#[test]
fn every_listed_preset_is_accepted() {
    assert_eq!(list_presets().len(), 7);
    for name in list_presets() {
        let mut m = mmu();
        assert_eq!(apply_preset(&mut m, name), Ok(()));
        let upper = name.to_uppercase();
        assert_eq!(apply_preset(&mut m, &upper), Ok(()));
        if *name != "identity" {
            // The vectors are write-protected.
            m.write8(0xF000, 0x77);
            assert_eq!(m.read8(0xF000), 0x00);
            assert_eq!(m.read8(0xFFB3), 0x01);
        }
    }
    let mut m = mmu();
    assert_eq!(apply_preset(&mut m, "NoSuch\u{c9}"), Err("Unknown preset: nosuch\u{e9}".to_string()));
}

#[test]
fn presets_set_modes_and_maps() {
    let mut m = mmu();
    apply_preset(&mut m, "os9l2-io").unwrap();
    let (map, sys, task) = m.snapshot_current_map();
    assert_eq!((sys, task), (true, 0));
    assert_eq!(map[0x0E], 0x04FE);
    assert_eq!(map[0x00], 0x0400);
    assert_eq!(map[0x0F], 0x010F);
    apply_preset(&mut m, "os9l2-ramdisk").unwrap();
    let (map, sys, _) = m.snapshot_current_map();
    assert!(!sys);
    assert_eq!((map[8], map[9], map[10], map[11]), (0xC0, 0xC1, 0xC2, 0xC3));
}

#[test]
fn a_program_runs_behind_the_mmu() {
    let mut m = Mc6829::new(0x10000, 0xFFE0);
    m.identity_map_current();
    m.store_logical_slice(0x0100, &[0x12, 0x12, 0x39]);
    let mut cpu = Cpu::new();
    cpu.set_pc(0x0100);
    cpu.step(&mut m, false);
    assert_eq!(cpu.r.pc, 0x0101);
}

#[test]
fn a_window_at_the_top_wraps() {
    let mut m = Mc6829::new(0x10000, 0xFFE0);
    assert_eq!(m.read8(0xFFE5), 0x05);
    // $18 to $27 stand behind the top of the address space.
    m.write8(0x0007, 0x01);
    assert_eq!(m.read8(0x0007), 0x01);
}

#[test]
fn devices_stand_in_front_of_the_mmu() {
    let mut bus = IoBus::new(mmu());
    bus.ensure_console(true, 0xFF00);
    bus.write8(0x1000, 0x42);
    assert_eq!(bus.inner_any_mut().read8(0x1000), 0x42);
    assert_eq!(bus.read8(0xFF00), 0x02);
    let mut plain = Memory::new();
    plain.write8(0xFF00, 9);
    assert_eq!(plain.read8(0xFF00), 9);
}
