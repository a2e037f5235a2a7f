use em6809_core::bus::{Bus, Memory};
use em6809_core::cpu::Cpu;
use em6809_core::debug::CallKind;

fn machine(at: u16, bytes: &[u8]) -> (Cpu, Memory) {
    let mut mem = Memory::new();
    mem.load_slice(at, bytes);
    let mut cpu = Cpu::new();
    cpu.r.s = 0x8000;
    cpu.r.u = 0x7000;
    cpu.set_pc(at);
    (cpu, mem)
}

#[test]
fn pushed_registers_come_back() {
    // PSHS CC,A,B,DP,X,Y,U ; PULS the same
    let (mut cpu, mut mem) = machine(0x0100, &[0x34, 0x7F, 0x35, 0x7F]);
    cpu.r.a = 1;
    cpu.r.b = 2;
    cpu.r.dp = 3;
    cpu.r.x = 0x0405;
    cpu.r.y = 0x0607;
    cpu.r.cc = 0x55;
    let before = cpu.r;
    assert_eq!(cpu.step(&mut mem, false), 5 + 10);
    assert_eq!(cpu.r.s, 0x8000 - 10);
    assert_eq!(mem.read_slice(0x7FF6, 10), &[0x55, 1, 2, 3, 4, 5, 6, 7, 0x70, 0x00]);
    cpu.r.a = 0;
    cpu.r.x = 0;
    cpu.r.cc = 0;
    cpu.step(&mut mem, false);
    assert_eq!(cpu.r.s, 0x8000);
    assert_eq!((cpu.r.a, cpu.r.b, cpu.r.dp, cpu.r.cc), (1, 2, 3, 0x55));
    assert_eq!((cpu.r.x, cpu.r.y, cpu.r.u), (before.x, before.y, before.u));
}

#[test]
fn pushed_registers_come_back_from_the_user_stack() {
    // PSHU A,X,S ; PULU the same
    let (mut cpu, mut mem) = machine(0x0100, &[0x36, 0x52, 0x37, 0x52]);
    cpu.r.a = 9;
    cpu.r.x = 0x1122;
    cpu.step(&mut mem, false);
    assert_eq!(cpu.r.u, 0x7000 - 5);
    assert_eq!(mem.read_slice(0x6FFB, 5), &[9, 0x11, 0x22, 0x80, 0x00]);
    cpu.r.a = 0;
    cpu.r.x = 0;
    cpu.step(&mut mem, false);
    assert_eq!((cpu.r.a, cpu.r.x, cpu.r.s, cpu.r.u), (9, 0x1122, 0x8000, 0x7000));
}

#[test]
fn an_interrupt_and_its_return_restore_everything() {
    let (mut cpu, mut mem) = machine(0x0100, &[0x12, 0x12]);
    mem.load_slice(0xFFFC, &[0x30, 0x00]);
    mem.write8(0x3000, 0x3B);
    cpu.r.a = 0x11;
    cpu.r.y = 0x2233;
    cpu.request_nmi();
    cpu.step(&mut mem, false);
    assert_eq!(cpu.r.pc, 0x3000);
    assert_eq!(cpu.r.s, 0x8000 - 12);
    assert_eq!(cpu.shadow_stack.top().unwrap().kind, CallKind::Nmi);
    assert_eq!(cpu.r.cc & 0x50, 0x50);
    cpu.step(&mut mem, false);
    assert_eq!(cpu.r.pc, 0x0101);
    assert_eq!((cpu.r.a, cpu.r.y, cpu.r.s), (0x11, 0x2233, 0x8000));
    assert_eq!(cpu.r.cc, 0x80);
    assert!(cpu.shadow_stack.is_empty());
}

#[test]
fn a_fast_interrupt_stacks_three_bytes() {
    let (mut cpu, mut mem) = machine(0x0100, &[0x12, 0x12]);
    mem.load_slice(0xFFF6, &[0x30, 0x00]);
    mem.write8(0x3000, 0x3B);
    cpu.r.a = 0x77;
    cpu.request_firq();
    cpu.step(&mut mem, false);
    assert_eq!(cpu.r.s, 0x8000 - 3);
    cpu.step(&mut mem, false);
    assert_eq!((cpu.r.pc, cpu.r.s, cpu.r.a), (0x0101, 0x8000, 0x77));
}

#[test]
fn non_maskable_comes_before_fast_before_plain() {
    let (mut cpu, mut mem) = machine(0x0100, &[0x12]);
    mem.load_slice(0xFFF6, &[0x31, 0x00, 0x32, 0x00]);
    mem.load_slice(0xFFFC, &[0x33, 0x00]);
    cpu.request_irq();
    cpu.request_firq();
    cpu.request_nmi();
    cpu.step(&mut mem, false);
    assert_eq!(cpu.r.pc, 0x3300);
    assert!(cpu.firq_pending);
    assert!(cpu.irq_pending);
    // Both are masked now.
    mem.write8(0x3300, 0x12);
    cpu.step(&mut mem, false);
    assert_eq!(cpu.r.pc, 0x3301);
}

#[test]
fn calls_return_behind_themselves() {
    // BSR +2, NOP, NOP, RTS
    let (mut cpu, mut mem) = machine(0x0100, &[0x8D, 0x01, 0x12, 0x39]);
    cpu.step(&mut mem, false);
    assert_eq!(cpu.r.pc, 0x0103);
    let f = *cpu.shadow_stack.peek().unwrap();
    assert_eq!((f.return_addr, f.call_site, f.target, f.sp_at_call), (0x0102, 0x0100, 0x0103, 0x7FFE));
    cpu.step(&mut mem, false);
    assert_eq!((cpu.r.pc, cpu.r.s), (0x0102, 0x8000));
    assert!(cpu.shadow_stack.is_empty());
}

#[test]
fn steps_that_are_indirect_go_through_the_pointer() {
    // LDA [,X++] ; LDA [,--Y] ; LDA [,X]
    let (mut cpu, mut mem) = machine(0x0100, &[0xA6, 0x91, 0xA6, 0xB3, 0xA6, 0x94]);
    mem.load_slice(0x2000, &[0x12, 0x34, 0x12, 0x35]);
    mem.load_slice(0x1234, &[0x77, 0x88]);
    cpu.r.x = 0x2000;
    cpu.r.y = 0x2004;
    assert_eq!(cpu.step(&mut mem, false), 4 + 1 + 3);
    assert_eq!((cpu.r.a, cpu.r.x, cpu.r.pc), (0x77, 0x2002, 0x0102));
    assert_eq!(cpu.step(&mut mem, true), 4 + 1 + 3);
    assert_eq!((cpu.r.a, cpu.r.y), (0x88, 0x2002));
    assert!(cpu.take_log()[0].contains("[,--Y]"));
    assert_eq!(cpu.step(&mut mem, false), 4 + 3);
    assert_eq!(cpu.r.a, 0x88);
}

#[test]
fn steps_of_one_byte_are_never_indirect() {
    // LDA ,X+ and LDA ,-Y, both with the bit of an indirection
    let (mut cpu, mut mem) = machine(0x0100, &[0xA6, 0x90, 0xA6, 0xB2]);
    mem.load_slice(0x2000, &[0x12, 0x34]);
    cpu.r.x = 0x2000;
    cpu.r.y = 0x2002;
    assert_eq!(cpu.step(&mut mem, true), 4);
    assert_eq!((cpu.r.a, cpu.r.x, cpu.r.pc), (0x12, 0x2001, 0x0102));
    assert!(cpu.take_log()[0].contains(",X+"));
    assert_eq!(cpu.step(&mut mem, false), 4);
    assert_eq!((cpu.r.a, cpu.r.y, cpu.r.pc), (0x34, 0x2001, 0x0104));
}

#[test]
fn exchanges_twice_change_nothing() {
    // EXG A,B twice; EXG X,Y twice
    let (mut cpu, mut mem) = machine(0x0100, &[0x1E, 0x89, 0x1E, 0x89, 0x1E, 0x12, 0x1E, 0x12]);
    cpu.r.a = 1;
    cpu.r.b = 2;
    cpu.r.x = 3;
    cpu.r.y = 4;
    cpu.step(&mut mem, false);
    assert_eq!((cpu.r.a, cpu.r.b), (2, 1));
    cpu.step(&mut mem, false);
    cpu.step(&mut mem, false);
    assert_eq!((cpu.r.x, cpu.r.y), (4, 3));
    cpu.step(&mut mem, false);
    assert_eq!((cpu.r.a, cpu.r.b, cpu.r.x, cpu.r.y), (1, 2, 3, 4));
}

#[test]
fn cycles_are_counted() {
    let (mut cpu, mut mem) = machine(0x0100, &[0x86, 0x01, 0x8E, 0x00, 0x00, 0x12]);
    let mut total: u64 = 0;
    for _ in 0..3 {
        total += cpu.step(&mut mem, false) as u64;
    }
    assert_eq!(total, 2 + 3 + 2);
    assert_eq!(cpu.cycles, total);
}

#[test]
fn a_reset_loads_the_vector_and_masks_interrupts() {
    let (mut cpu, mut mem) = machine(0x0100, &[0x8D, 0x00]);
    mem.load_slice(0xFFFE, &[0xE0, 0x12]);
    cpu.step(&mut mem, false);
    cpu.r.dp = 7;
    let id = cpu.breakpoints.add(0xE012);
    cpu.reset(&mut mem);
    assert_eq!((cpu.r.pc, cpu.r.cc, cpu.r.dp), (0xE012, 0x50, 0));
    assert!(cpu.shadow_stack.is_empty());
    assert_eq!(cpu.check_breakpoint(0xE012), Some(id));
}
