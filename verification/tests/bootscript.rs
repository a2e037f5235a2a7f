use em6809_core::bootscript::{Action, BootSequencer, BootTarget, Trigger};
use em6809_core::bus::{Bus, Memory};
use em6809_core::cpu::Cpu;
use em6809_core::io::IoBus;
use em6809_core::mmu::Mc6829;

/// Build an IoBus<Memory> with no devices attached.  Console- and
/// block-targeting Actions must trigger the silent-no-op guard
/// against this bus.
fn empty_iobus() -> IoBus<Memory> {
    IoBus::new(Memory::new())
}

fn fire_on_pc(seq: &mut BootSequencer, bus: &mut IoBus<Memory>, pc: u16) {
    let mut cpu = Cpu::new();
    seq.on_pre_step(bus, 0, pc, &mut cpu);
}

#[test]
fn con_ctrl_against_no_console_increments_counter_and_skips() {
    let mut bus = empty_iobus();
    let mut seq = BootSequencer::new(vec![Trigger::OnPc(0xE000, Action::ConCtrl(0x11))]);

    // Fire once: counter goes 0 -> 1, and there is a warning.
    fire_on_pc(&mut seq, &mut bus, 0xE000);
    assert_eq!(seq.console_missing_count(), 1);

    // Fire again: the counter keeps climbing, without a second warning.
    fire_on_pc(&mut seq, &mut bus, 0xE000);
    assert_eq!(seq.console_missing_count(), 2);
}

#[test]
fn all_console_actions_are_guarded() {
    let mut bus = empty_iobus();
    let mut seq = BootSequencer::new(vec![
        Trigger::OnPc(0xE000, Action::ConCtrl(0x11)),
        Trigger::OnPc(0xE001, Action::ConRxWm(4)),
        Trigger::OnPc(0xE002, Action::ConIrqHold(8)),
        Trigger::OnPc(0xE003, Action::ConFirq(true)),
    ]);

    for pc in [0xE000_u16, 0xE001, 0xE002, 0xE003] {
        fire_on_pc(&mut seq, &mut bus, pc);
    }

    // Every console-class Action should have hit the guard.
    assert_eq!(seq.console_missing_count(), 4);
    // Block guard untouched.
    assert_eq!(seq.block_missing_count(), 0);
}

#[test]
fn blk_irq_against_no_block_increments_counter_and_skips() {
    let mut bus = empty_iobus();
    let mut seq = BootSequencer::new(vec![Trigger::OnPc(0xE000, Action::BlkIrq(true))]);

    fire_on_pc(&mut seq, &mut bus, 0xE000);
    assert_eq!(seq.block_missing_count(), 1);
    assert_eq!(seq.console_missing_count(), 0);

    fire_on_pc(&mut seq, &mut bus, 0xE000);
    assert_eq!(seq.block_missing_count(), 2);
}

#[test]
fn all_block_actions_are_guarded() {
    let mut bus = empty_iobus();
    let mut seq = BootSequencer::new(vec![
        Trigger::OnPc(0xE000, Action::BlkIrq(true)),
        Trigger::OnPc(0xE001, Action::BlkFirq(true)),
        Trigger::OnPc(0xE002, Action::BlkIrqHold(8)),
    ]);

    for pc in [0xE000_u16, 0xE001, 0xE002] {
        fire_on_pc(&mut seq, &mut bus, pc);
    }

    assert_eq!(seq.block_missing_count(), 3);
    assert_eq!(seq.console_missing_count(), 0);
}

#[test]
fn mmu_actions_do_not_trigger_console_or_block_guards() {
    // Missing consoles, block devices and MMUs are counted apart.
    let mut bus = empty_iobus();
    let mut seq = BootSequencer::new(vec![
        Trigger::OnPc(0xE000, Action::Mode(true)),
        Trigger::OnPc(0xE001, Action::Prot(0x0B)),
        Trigger::OnPc(0xE002, Action::MapPage(0x0C, 0xD0)),
        Trigger::OnPc(0xE003, Action::Attr(0x00, 0x04)),
    ]);

    for pc in [0xE000_u16, 0xE001, 0xE002, 0xE003] {
        fire_on_pc(&mut seq, &mut bus, pc);
    }

    assert_eq!(seq.console_missing_count(), 0);
    assert_eq!(seq.block_missing_count(), 0);
    // The MMU guard fires once per Action.
    assert_eq!(seq.mmu_missing_count(), 4);
}

#[test]
fn console_action_with_attached_console_does_not_warn() {
    let mut bus = empty_iobus();
    // Attach a console at base 0xFF00 so the with_console_mut
    // closure runs and the guard stays quiet.
    bus.ensure_console(true, 0xFF00);

    let mut seq = BootSequencer::new(vec![Trigger::OnPc(0xE000, Action::ConCtrl(0x11))]);

    fire_on_pc(&mut seq, &mut bus, 0xE000);
    fire_on_pc(&mut seq, &mut bus, 0xE000);

    assert_eq!(seq.console_missing_count(), 0);
}

#[test]
fn block_action_with_attached_block_does_not_warn() {
    let mut bus = empty_iobus();
    bus.ensure_block(true, 0xFF20);

    let mut seq = BootSequencer::new(vec![Trigger::OnPc(0xE000, Action::BlkIrq(true))]);

    fire_on_pc(&mut seq, &mut bus, 0xE000);

    assert_eq!(seq.block_missing_count(), 0);
}

// -------------------------------------------------------------------
// MMU actions.
// -------------------------------------------------------------------

/// Build an `IoBus<Mc6829>` with a real MMU on the bus, so
/// `bus_has_mmu` returns true and MMU-class Actions write
/// through legitimately.
fn mmu_iobus(regs_base: u16) -> IoBus<Mc6829> {
    IoBus::new(Mc6829::new(64 * 1024, regs_base))
}

/// Standard test base for the MMU register page.  Matches the
/// CLI default (`--mmu-reg-base 0xFFA0`).
const TEST_REGS_BASE: u16 = 0xFFA0;

fn fire_on_pc_with_base<B: BootTarget>(
    seq: &mut BootSequencer,
    bus: &mut B,
    regs_base: u16,
    pc: u16,
) {
    let mut cpu = Cpu::new();
    seq.on_pre_step(bus, regs_base, pc, &mut cpu);
}

#[test]
fn prot_against_no_mmu_increments_counter_and_skips_write() {
    // With the registers at 0xFFA0, `prot 0xFF` on a bus without MMU would
    // write 0xFF into RAM at 0xFFB2: the byte stays, and the action is counted.
    let mut bus = empty_iobus();
    let target = TEST_REGS_BASE.wrapping_add(0x12);
    let before = bus.read8(target);
    let mut seq = BootSequencer::new(vec![Trigger::OnPc(0xE000, Action::Prot(0xFF))]);

    fire_on_pc_with_base(&mut seq, &mut bus, TEST_REGS_BASE, 0xE000);

    assert_eq!(seq.mmu_missing_count(), 1);
    assert_eq!(
        bus.read8(target),
        before,
        "RAM at ${target:04X} must be unchanged when MMU is missing"
    );
}

#[test]
fn all_mmu_actions_are_guarded_against_no_mmu() {
    let mut bus = empty_iobus();
    let mut seq = BootSequencer::new(vec![
        Trigger::OnPc(0xE000, Action::Mode(true)),
        Trigger::OnPc(0xE001, Action::Prot(0x0B)),
        Trigger::OnPc(0xE002, Action::MapPage(0x0C, 0xD0)),
        Trigger::OnPc(0xE003, Action::Attr(0x00, 0x04)),
    ]);

    for pc in [0xE000_u16, 0xE001, 0xE002, 0xE003] {
        fire_on_pc_with_base(&mut seq, &mut bus, TEST_REGS_BASE, pc);
    }

    assert_eq!(seq.mmu_missing_count(), 4);
    assert_eq!(seq.console_missing_count(), 0);
    assert_eq!(seq.block_missing_count(), 0);
}

#[test]
fn mmu_action_with_mmu_present_does_not_warn() {
    let mut bus = mmu_iobus(TEST_REGS_BASE);
    let mut seq = BootSequencer::new(vec![Trigger::OnPc(0xE000, Action::Prot(0x0B))]);

    fire_on_pc_with_base(&mut seq, &mut bus, TEST_REGS_BASE, 0xE000);
    fire_on_pc_with_base(&mut seq, &mut bus, TEST_REGS_BASE, 0xE000);

    // Both writes routed through the real MMU.  No warning.
    assert_eq!(seq.mmu_missing_count(), 0);
}

#[test]
fn mmu_actions_with_bare_mc6829_bus_do_not_warn() {
    // The other Bus variant `build_bus` can return when MMU is
    // enabled but no I/O devices are requested: a bare
    // `Mc6829` without an `IoBus` wrapper.  Confirm
    // `bus_has_mmu` recognises it too.
    let mut mmu = Mc6829::new(64 * 1024, TEST_REGS_BASE);
    let mut seq = BootSequencer::new(vec![Trigger::OnPc(0xE000, Action::Mode(true))]);

    fire_on_pc_with_base(&mut seq, &mut mmu, TEST_REGS_BASE, 0xE000);

    assert_eq!(seq.mmu_missing_count(), 0);
}

#[test]
fn mmu_guard_fires_once_per_warning_class_then_silently_counts() {
    // Sanity check: counter keeps climbing even after the
    // initial stderr warning is suppressed.
    let mut bus = empty_iobus();
    let mut seq = BootSequencer::new(vec![Trigger::OnPc(0xE000, Action::Mode(true))]);

    for _ in 0..10 {
        fire_on_pc_with_base(&mut seq, &mut bus, TEST_REGS_BASE, 0xE000);
    }

    assert_eq!(seq.mmu_missing_count(), 10);
}
