use em6809_core::bootscript::{
    emit_boot_template, parse_boot_script, Action, BootSequencer, Trigger,
};
use em6809_core::bus::{Bus, Memory, WriteTrack};
use em6809_core::config::apply_mmu_config_from_str;
use em6809_core::cpu::Cpu;
use em6809_core::io::{BlockDev, IoBus};
use em6809_core::mmu::Mc6829;

#[test]
fn both_spellings_of_a_script_are_read() {
    let script = "
    at_pc $0100: mode sys
    at_pc $0100: map 0=0
    at_step 1000: con_ctrl 0x55
    at_step $10: prot 0x0B
    # a comment
    // another
    on_pc 0xE000 attr 0xF=0x01   # behind it
    on_step 3 irq_mask off
";
    assert_eq!(
        parse_boot_script(script).unwrap(),
        vec![
            Trigger::OnPc(0x0100, Action::Mode(true)),
            Trigger::OnPc(0x0100, Action::MapPage(0, 0)),
            Trigger::OnStep(1000, Action::ConCtrl(0x55)),
            Trigger::OnStep(16, Action::Prot(0x0B)),
            Trigger::OnPc(0xE000, Action::Attr(0x0F, 0x01)),
            Trigger::OnStep(3, Action::IrqMask(false)),
        ]
    );
}

#[test]
fn every_action_is_read() {
    let read = |a: &str| parse_boot_script(&format!("on_pc 0 {}", a)).unwrap()[0];
    let at = |a: Action| Trigger::OnPc(0, a);
    assert_eq!(read("mode user"), at(Action::Mode(false)));
    assert_eq!(read("mode SYSTEM"), at(Action::Mode(true)));
    assert_eq!(read("prot 0x0B"), at(Action::Prot(0x0B)));
    assert_eq!(read("con_rx_wm 4"), at(Action::ConRxWm(4)));
    assert_eq!(read("con_irq_hold 8"), at(Action::ConIrqHold(8)));
    assert_eq!(read("con_irq_hold 0x100000001"), at(Action::ConIrqHold(1)));
    assert_eq!(read("con_firq ON"), at(Action::ConFirq(true)));
    assert_eq!(read("con_firq yes"), at(Action::ConFirq(true)));
    assert_eq!(read("blk_irq true"), at(Action::BlkIrq(true)));
    assert_eq!(read("blk_irq 0"), at(Action::BlkIrq(false)));
    assert_eq!(read("blk_firq 1"), at(Action::BlkFirq(true)));
    assert_eq!(read("blk_irq_hold 7"), at(Action::BlkIrqHold(7)));
    assert_eq!(read("firq_mask on"), at(Action::FirqMask(true)));
}

#[test]
fn mistakes_name_their_line() {
    let err = |t: &str| parse_boot_script(t).unwrap_err();
    assert_eq!(err("\nwhen 1 mode sys"), "Line 2: unknown directive when");
    assert_eq!(err("on_pc"), "Line 1: missing address");
    assert_eq!(err("on_step"), "Line 1: missing step");
    assert_eq!(err("on_pc 0x10000 mode sys"), "Line 1: bad addr");
    assert_eq!(err("on_step x mode sys"), "Line 1: bad step");
    // The colon belongs to the spelling with `at`.
    assert_eq!(err("on_pc 256: mode sys"), "Line 1: bad addr");
    assert_eq!(err("on_step 3: mode sys"), "Line 1: bad step");
    assert_eq!(err("at_pc 256 mode sys"), "Line 1: bad addr");
    assert_eq!(err("at_step 3 mode sys"), "Line 1: bad step");
    assert_eq!(err("at_pc : mode sys"), "Line 1: bad addr");
    // So does `$`, and only in the place of the trigger.
    assert_eq!(err("on_pc $0100 mode sys"), "Line 1: bad addr");
    assert_eq!(err("on_step $3 mode sys"), "Line 1: bad step");
    assert_eq!(err("on_pc 0 prot $0B"), "Line 1: bad prot");
    assert_eq!(err("at_pc $0100: prot $0B"), "Line 1: bad prot");
    assert_eq!(err("on_pc 0 map $1=2"), "Line 1: bad page");
    assert_eq!(err("on_pc 0 map 1=$2"), "Line 1: bad frame");
    assert_eq!(err("on_pc 0 con_irq_hold $8"), "Line 1: bad con_irq_hold");
    assert_eq!(err("on_pc 0"), "Line 1: missing command");
    assert_eq!(err("on_pc 0 jump 1"), "Line 1: unknown action jump");
    assert_eq!(err("on_pc 0 mode"), "Line 1: missing mode");
    assert_eq!(err("on_pc 0 prot 256"), "Line 1: bad prot");
    assert_eq!(err("on_pc 0 map 3"), "Line 1: map expects P=F");
    assert_eq!(err("on_pc 0 map x=3"), "Line 1: bad page");
    assert_eq!(err("on_pc 0 map 3=x"), "Line 1: bad frame");
    assert_eq!(err("on_pc 0 attr 3"), "Line 1: attr expects P=V");
    assert_eq!(err("on_pc 0 attr 3=256"), "Line 1: bad value");
    assert_eq!(err("on_pc 0 con_ctrl x"), "Line 1: bad con_ctrl");
    assert_eq!(err("on_pc 0 con_rx_wm x"), "Line 1: bad con_rx_wm");
    assert_eq!(err("on_pc 0 con_irq_hold x"), "Line 1: bad con_irq_hold");
    assert_eq!(err("on_pc 0 blk_irq_hold x"), "Line 1: bad blk_irq_hold");
}

#[test]
fn the_templates_are_scripts() {
    assert_eq!(parse_boot_script(&emit_boot_template("OS9L2-boot")).unwrap().len(), 2);
    assert_eq!(parse_boot_script(&emit_boot_template("os9l2-io")).unwrap().len(), 5);
    assert_eq!(parse_boot_script(&emit_boot_template("os9l2-sequence")).unwrap().len(), 11);
    assert_eq!(
        emit_boot_template("os9l2-full"),
        emit_boot_template("os9l2-sequence")
    );
    let other = emit_boot_template("something else");
    assert!(other.starts_with("# Boot script template\n"));
    assert!(parse_boot_script(&other).unwrap().is_empty());
}

#[test]
fn a_script_does_what_the_configuration_does() {
    let script = "on_pc 0x100 mode sys\non_pc 0x100 prot 0x03\non_pc 0x100 map 2=0x21\non_pc 0x100 attr 2=0x01\n";
    let mut a = Mc6829::new(0x10_0000, 0xFFA0);
    let mut seq = BootSequencer::new(parse_boot_script(script).unwrap());
    let mut cpu = Cpu::new();
    seq.on_pre_step(&mut a, 0xFFA0, 0x0100, &mut cpu);
    let mut b = Mc6829::new(0x10_0000, 0xFFA0);
    apply_mmu_config_from_str(&mut b, "mode sys\nprot 0x03\nmap 2=0x21\nattr 2=0x01\n").unwrap();
    assert_eq!(a.snapshot_maps(), b.snapshot_maps());
    assert_eq!(a.read8(0xFFB2), b.read8(0xFFB2));
    assert_eq!(seq.mmu_missing_count(), 0);
}

#[test]
fn actions_without_a_target_leave_the_bus_alone_and_warn_once() {
    let mut bus = Memory::new();
    let mut seq = BootSequencer::new(vec![
        Trigger::OnPc(0x0100, Action::MapPage(1, 0x55)),
        Trigger::OnPc(0x0100, Action::Prot(1)),
        Trigger::OnPc(0x0100, Action::BlkIrq(true)),
        Trigger::OnPc(0x0100, Action::ConFirq(true)),
    ]);
    let mut cpu = Cpu::new();
    seq.on_pre_step(&mut bus, 0xFFA0, 0x0100, &mut cpu);
    assert_eq!(bus.read8(0xFFA1), 0x00);
    assert_eq!(
        (seq.mmu_missing_count(), seq.block_missing_count(), seq.console_missing_count()),
        (2, 1, 1)
    );
    let lines = seq.take_warnings();
    assert_eq!(lines.len(), 3);
    assert!(lines[0].starts_with("[bootscript] warning: map action requires an MMU"));
    assert!(lines[0].contains("$FFA0+offset"));
    assert!(lines[1].starts_with("[bootscript] warning: blk_irq action targets the block device"));
    assert!(lines[2].starts_with("[bootscript] warning: con_firq action targets the console"));
    seq.on_pre_step(&mut bus, 0xFFA0, 0x0100, &mut cpu);
    assert!(seq.take_warnings().is_empty());
    assert_eq!(seq.mmu_missing_count(), 4);
}

#[test]
fn steps_are_counted_behind_each_instruction() {
    let mut bus = IoBus::new(Memory::new());
    bus.ensure_block(true, 0xFF10);
    let mut seq = BootSequencer::new(vec![
        Trigger::OnStep(2, Action::BlkIrq(true)),
        Trigger::OnStep(2, Action::BlkFirq(true)),
    ]);
    bus.write8(0xFF12, 0x77);
    seq.on_post_step(&mut bus, 0);
    assert_eq!(bus.irq_lines(), (false, false, false));
    seq.on_post_step(&mut bus, 0);
    assert_eq!(bus.irq_lines(), (false, true, false));
    assert!(bus.with_block_mut(|b: &mut BlockDev| b.set_firq(false)));
    seq.on_post_step(&mut bus, 0);
    assert_eq!(bus.irq_lines(), (false, false, true));
}

#[test]
fn each_step_trigger_is_carried_out_once() {
    let mut seq = BootSequencer::new(vec![
        Trigger::OnStep(0, Action::Mode(true)),
        Trigger::OnStep(2, Action::Prot(1)),
        Trigger::OnPc(2, Action::Prot(1)),
        Trigger::OnStep(2, Action::Attr(0, 1)),
        Trigger::OnStep(3, Action::ConCtrl(1)),
        Trigger::OnStep(4, Action::MapPage(1, 2)),
    ]);
    let mut mem = Memory::new();
    let mut counts = vec![];
    for _ in 0..6 {
        seq.on_post_step(&mut mem, 0xFFA0);
        counts.push((seq.mmu_missing_count(), seq.console_missing_count()));
    }
    assert_eq!(counts, vec![(0, 0), (2, 0), (2, 1), (3, 1), (3, 1), (3, 1)]);
    assert_eq!(
        seq.take_warnings()[0],
        "[bootscript] warning: prot action requires an MMU on the bus, but none is attached.  \
         The write to $FFA0+offset would have hit plain RAM; skipping to avoid memory corruption.  \
         Enable the MMU in your settings or pass --mmu (and --mmu-reg-base if not the default). \
         (Further occurrences silenced; see docs/en/config_and_boot_script.md.)"
    );
}

#[test]
fn masks_are_set_before_an_instruction_only() {
    let mut bus = Memory::new();
    let mut cpu = Cpu::new();
    let mut seq = BootSequencer::new(vec![
        Trigger::OnPc(0x0100, Action::IrqMask(true)),
        Trigger::OnPc(0x0100, Action::FirqMask(true)),
        Trigger::OnPc(0x0200, Action::IrqMask(false)),
        Trigger::OnStep(1, Action::FirqMask(false)),
    ]);
    seq.on_pre_step(&mut bus, 0, 0x0100, &mut cpu);
    assert_eq!(cpu.r.cc, 0x50);
    seq.on_post_step(&mut bus, 0);
    assert_eq!(cpu.r.cc, 0x50);
    seq.on_pre_step(&mut bus, 0, 0x0200, &mut cpu);
    assert_eq!(cpu.r.cc, 0x40);
    seq.on_pre_step(&mut bus, 0, 0x0300, &mut cpu);
    assert_eq!(cpu.r.cc, 0x40);
}

#[test]
fn devices_behind_a_tracked_bus_are_out_of_reach() {
    let mut bus = IoBus::new(WriteTrack::new(Memory::new(), None));
    bus.ensure_console(true, 0xFF00);
    let mut seq = BootSequencer::new(vec![Trigger::OnPc(0x0100, Action::ConRxWm(4))]);
    let mut cpu = Cpu::new();
    seq.on_pre_step(&mut bus, 0, 0x0100, &mut cpu);
    assert_eq!(seq.console_missing_count(), 1);
}
