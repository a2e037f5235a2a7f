use em6809_core::bus::Memory;
use em6809_core::cpu::{regs_snapshot, set_irq_log, Cpu, Registers, StepStop};
use em6809_core::debug::{
    dump_memory, dump_memory_ascii, dump_memory_bus, dump_registers, linear_sweep, BreakpointId,
    BreakpointSet, CallFrame, CallKind, InstructionBoundaries, ShadowCallStack,
};
use em6809_core::disasm::{disasm_one, disasm_one_hex, disasm_window};

#[test]
fn ids_are_not_given_out_again() {
    let mut bps = BreakpointSet::new();
    let a = bps.add(0x1000);
    let b = bps.add(0x1000);
    assert_ne!(a, b);
    assert!(bps.remove(a));
    assert!(!bps.remove(a));
    let c = bps.add(0x2000);
    assert_ne!(c, a);
    assert_ne!(c, b);
    bps.clear();
    assert_ne!(bps.add(0x1000), a);
    assert_eq!(bps.len(), 1);
}

#[test]
fn each_breakpoint_is_found_under_its_id() {
    let mut bps = BreakpointSet::default();
    let a = bps.add(0x1000);
    let b = bps.add(0x2000);
    assert_eq!(bps.get(a).unwrap().addr, 0x1000);
    assert_eq!(bps.get(b).unwrap().addr, 0x2000);
    assert!(bps.get(BreakpointId(77)).is_none());
    assert_eq!(bps.iter().len(), 2);
    assert!(!bps.is_empty());
}

#[test]
fn switched_off_or_false_ones_are_not_touched() {
    let mut bps = BreakpointSet::new();
    let a = bps.add(0x1000);
    let b = bps.add(0x1000);
    bps.set_enabled(a, false);
    bps.set_condition(b, Some("a == 1".to_string()));
    let r = Registers::default();
    assert_eq!(bps.check(0x1000, &r), None);
    assert_eq!(bps.get(a).unwrap().hit_count, 0);
    assert_eq!(bps.get(b).unwrap().hit_count, 0);
    // A condition without a value stops, so that the mistake is noticed.
    bps.set_condition(b, Some("a ==".to_string()));
    assert_eq!(bps.check(0x1000, &r), Some(b));
    bps.set_condition(b, Some("   ".to_string()));
    assert_eq!(bps.check(0x1000, &r), Some(b));
    bps.set_condition(b, None);
    assert_eq!(bps.check(0x1000, &r), Some(b));
    assert_eq!(bps.get(b).unwrap().hit_count, 3);
}

#[test]
fn an_ignore_count_passes_over_that_many_matches() {
    let mut bps = BreakpointSet::new();
    let a = bps.add(0x1000);
    bps.set_ignore_count(a, 2);
    assert_eq!(bps.should_break(0x1000), None);
    assert_eq!(bps.should_break(0x2000), None);
    assert_eq!(bps.should_break(0x1000), None);
    assert_eq!(bps.should_break(0x1000), Some(a));
    assert_eq!(bps.get(a).unwrap().hit_count, 1);
    assert_eq!(bps.get(a).unwrap().ignore_count, 0);
}

fn frame(ret: u16, sp: u16, kind: CallKind) -> CallFrame {
    CallFrame { return_addr: ret, call_site: ret - 3, target: 0x9000, sp_at_call: sp, kind }
}

#[test]
fn returns_unwind_to_the_frame_that_lines_up() {
    let mut s = ShadowCallStack::new();
    s.push(frame(0x1003, 0x7FFE, CallKind::Jsr));
    s.push(frame(0x2003, 0x7FF0, CallKind::Irq));
    s.push(frame(0x3003, 0x7FEE, CallKind::Bsr));
    assert_eq!(s.depth(), 3);
    assert_eq!(s.top().unwrap().return_addr, 0x3003);
    assert_eq!(s.pop_for_rti().unwrap().return_addr, 0x2003);
    assert_eq!(s.frames().len(), 1);
    assert_eq!(s.pop_for_return(0x8000).unwrap().return_addr, 0x1003);
    assert!(s.is_empty());
    s.push(frame(0x1003, 0x7FFE, CallKind::Jsr));
    assert!(s.pop_for_return(0x1234).is_none());
    assert!(s.is_empty());
    assert!(s.peek().is_none());
}

#[test]
fn a_sweep_records_each_instruction() {
    let mut mem = Memory::new();
    // LDA #$01, LDX #$1234, NOP, RTS
    mem.load_slice(0x0100, &[0x86, 0x01, 0x8E, 0x12, 0x34, 0x12, 0x39]);
    let mut b = InstructionBoundaries::new();
    linear_sweep(&mut mem, 0x0100, 0x0107, &mut b);
    assert_eq!(b.iter_range(0x0000, 0xFFFF), vec![0x0100, 0x0102, 0x0105, 0x0106]);
    assert_eq!(b.floor(0x0104), Some(0x0102));
    assert_eq!(b.ceil(0x0103), Some(0x0105));
    assert_eq!(b.floor(0x00FF), None);
    assert_eq!(b.ceil(0x0107), None);
    assert!(b.contains(0x0105));
    assert!(!b.contains(0x0103));
    b.insert(0x0050);
    b.extend(vec![0x0060, 0x0050]);
    assert_eq!(b.len(), 6);
    b.clear();
    assert!(b.is_empty());
}

#[test]
fn stepping_over_and_out() {
    let mut mem = Memory::new();
    // $0100 JSR $0200, $0103 NOP; $0200 NOP, RTS
    mem.load_slice(0x0100, &[0xBD, 0x02, 0x00, 0x12]);
    mem.load_slice(0x0200, &[0x12, 0x39]);
    let mut cpu = Cpu::new();
    cpu.r.s = 0x8000;
    cpu.set_pc(0x0100);
    assert_eq!(cpu.step_over(&mut mem, 100), StepStop::ReturnTarget);
    assert_eq!(cpu.r.pc, 0x0103);
    assert_eq!(cpu.step_over(&mut mem, 100), StepStop::NotACall);
    assert_eq!(cpu.r.pc, 0x0104);
    assert_eq!(cpu.step_out(&mut mem, 100), StepStop::EmptyStack);
    cpu.set_pc(0x0100);
    cpu.step(&mut mem, false);
    assert_eq!(cpu.step_out(&mut mem, 1), StepStop::Limit);
    assert_eq!(cpu.step_out(&mut mem, 100), StepStop::ReturnTarget);
    assert_eq!(cpu.r.pc, 0x0103);
    let id = cpu.breakpoints.add(0x0201);
    cpu.set_pc(0x0100);
    assert_eq!(cpu.step_over(&mut mem, 100), StepStop::Breakpoint(id));
    assert_eq!(cpu.r.pc, 0x0201);
}

#[test]
fn the_target_counts_though_the_limit_is_used_up() {
    let mut mem = Memory::new();
    // BSR $1004 ; RTS
    mem.load_slice(0x1000, &[0x8D, 0x02, 0x12, 0x39, 0x39]);
    let mut cpu = Cpu::new();
    cpu.r.pc = 0x1000;
    cpu.r.s = 0x2000;
    assert_eq!(cpu.step_over(&mut mem, 2), StepStop::ReturnTarget);
    assert_eq!(cpu.r.pc, 0x1002);
    cpu.r.pc = 0x1000;
    assert_eq!(cpu.step_over(&mut mem, 1), StepStop::Limit);
    assert_eq!(cpu.r.pc, 0x1004);
    assert_eq!(cpu.step_out(&mut mem, 1), StepStop::ReturnTarget);
    assert_eq!(cpu.r.pc, 0x1002);
}

#[test]
fn every_instruction_is_listed_in_full() {
    let line = |bytes: &[u8]| {
        let mut mem = Memory::new();
        mem.load_slice(0x0100, bytes);
        disasm_one(&mut mem, 0x0100)
    };
    let is = |len: u16, text: &str| (len, text.to_string());
    assert_eq!(line(&[0x36, 0x52]), is(2, "PSHU #$52"));
    assert_eq!(line(&[0x37, 0x52]), is(2, "PULU #$52"));
    assert_eq!(line(&[0x34, 0x06]), is(2, "PSHS #$06"));
    assert_eq!(line(&[0x8C, 0x12, 0x34]), is(3, "CMPX #$1234"));
    assert_eq!(line(&[0x9C, 0x12]), is(2, "CMPX <$12"));
    assert_eq!(line(&[0xE3, 0xE4]), is(2, "ADDD ,S"));
    assert_eq!(line(&[0xB3, 0x20, 0x00]), is(3, "SUBD $2000"));
    assert_eq!(line(&[0xDE, 0x10]), is(2, "LDU <$10"));
    assert_eq!(line(&[0xFF, 0x20, 0x00]), is(3, "STU $2000"));
    assert_eq!(line(&[0xA8, 0x84]), is(2, "EORA ,X"));
    assert_eq!(line(&[0xAB, 0x88, 0xFC]), is(3, "ADDA -4,X"));
    assert_eq!(line(&[0xA6, 0x91]), is(2, "LDA [,X++]"));
    assert_eq!(line(&[0xA6, 0xB3]), is(2, "LDA [,--Y]"));
    assert_eq!(line(&[0xA6, 0x81]), is(2, "LDA ,X++"));
    assert_eq!(line(&[0xA6, 0x80]), is(2, "LDA ,X+"));
    assert_eq!(line(&[0xA6, 0xA2]), is(2, "LDA ,-Y"));
    assert_eq!(line(&[0xA6, 0x90]), is(2, "LDA ,X(?)"));
    assert_eq!(line(&[0xA6, 0xB2]), is(2, "LDA ,Y(?)"));
    assert_eq!(line(&[0xA6, 0x94]), is(2, "LDA [,X]"));
    assert_eq!(line(&[0x87]), is(1, "FCB $87"));
    assert_eq!(line(&[0x11, 0x00]), is(2, "FCB $11, $00"));
}

#[test]
fn a_listing_and_the_cpu_agree_on_lengths() {
    for op in 0..=255u8 {
        // Branches, jumps, calls, returns and software interrupts aside.
        if (0x20..=0x2F).contains(&op)
            || [0x0E, 0x16, 0x17, 0x39, 0x3B, 0x3F, 0x6E, 0x7E, 0x8D, 0x9D, 0xAD, 0xBD].contains(&op)
        {
            continue;
        }
        let mut mem = Memory::new();
        mem.load_slice(0x0100, &[op, 0x12, 0x34, 0x00, 0x00]);
        let mut cpu = Cpu::new();
        cpu.r.pc = 0x0100;
        cpu.r.s = 0x8000;
        cpu.r.u = 0x7000;
        let (len, _) = disasm_one(&mut mem, 0x0100);
        cpu.step(&mut mem, false);
        assert_eq!(cpu.r.pc, 0x0100 + len, "opcode ${:02X}", op);
    }
}

#[test]
fn registers_are_dumped_on_a_line() {
    let mut cpu = Cpu::new();
    cpu.r.a = 0x0A;
    cpu.r.x = 0x1234;
    cpu.r.cc = 0x81;
    assert_eq!(
        dump_registers(&cpu),
        "A:0A B:00 X:1234 Y:0000 U:0000 S:0000 PC:0000 DP:00 CC:81 (E F H I N Z V C) = E------C"
    );
    assert_eq!(regs_snapshot(&cpu).x, 0x1234);
}

#[test]
fn memory_is_dumped_in_rows() {
    let mut mem = Memory::new();
    mem.load_slice(0x0100, b"Hello, world! 0123\x01");
    assert_eq!(
        dump_memory(&mem, 0x0100, 18),
        vec![
            "0100: 48 65 6C 6C 6F 2C 20 77 6F 72 6C 64 21 20 30 31".to_string(),
            "0110: 32 33".to_string(),
        ]
    );
    assert_eq!(dump_memory_bus(&mut mem, 0x0110, 3), vec!["0110: 32 33 01".to_string()]);
    assert_eq!(
        dump_memory_ascii(&mut mem, 0x0111, 2),
        vec![format!("0111: 33 01{}  |3.|", " ".repeat(42))]
    );
    // A memory ends at its last address, a bus wraps.
    assert_eq!(dump_memory(&mem, 0xFFFF, 4), vec!["FFFF: 00".to_string()]);
    assert_eq!(dump_memory_bus(&mut mem, 0xFFFF, 2), vec!["FFFF: 00 00".to_string()]);
}

#[test]
fn instructions_are_listed() {
    let cases: [(&[u8], u16, &str); 8] = [
        (&[0x12], 1, "NOP"),
        (&[0x86, 0x7F], 2, "LDA #$7F"),
        (&[0x8E, 0x12, 0x34], 3, "LDX #$1234"),
        (&[0xBD, 0x12, 0x34], 3, "JSR $1234"),
        (&[0x39], 1, "RTS"),
        (&[0x10, 0x3F], 2, "SWI2"),
        (&[0x20, 0xFE], 2, "BRA -2 -> $0100"),
        (&[0x1F, 0x89], 2, "TFR A,B"),
    ];
    for (bytes, len, text) in cases {
        let mut mem = Memory::new();
        mem.load_slice(0x0100, bytes);
        assert_eq!(disasm_one(&mut mem, 0x0100), (len, text.to_string()));
    }
    let mut mem = Memory::new();
    mem.load_slice(0x0100, &[0x1F, 0x89]);
    let (len, text) = disasm_one_hex(&mut mem, 0x0100);
    assert_eq!(len, 2);
    assert!(text.starts_with("$1F $89 "));
    assert!(text.ends_with("TFR A,B"));
}

#[test]
fn steps_and_interrupts_are_logged() {
    let mut mem = Memory::new();
    mem.load_slice(0xFFF8, &[0x30, 0x00]);
    mem.load_slice(0x0100, &[0x12, 0x12]);
    let mut cpu = Cpu::new();
    cpu.r.s = 0x8000;
    cpu.set_pc(0x0100);
    cpu.step(&mut mem, true);
    let lines = cpu.take_log();
    assert_eq!(lines.len(), 1);
    assert!(lines[0].contains("NOP"));
    set_irq_log(&mut cpu, true);
    cpu.request_irq();
    cpu.step(&mut mem, false);
    assert_eq!(cpu.r.pc, 0x3000);
    assert_eq!(cpu.take_log().len(), 1);
    assert!(cpu.take_log().is_empty());
}

#[test]
fn a_window_holds_the_line_asked_for() {
    let mut mem = Memory::new();
    mem.load_slice(0x0100, &[0x86, 0x01, 0x8E, 0x12, 0x34, 0x12, 0x39]);
    let mut b = InstructionBoundaries::new();
    linear_sweep(&mut mem, 0x0100, 0x0107, &mut b);
    let w = disasm_window(&mut mem, 0x0105, &b, 1, 1);
    let addrs: Vec<u16> = w.iter().map(|l| l.0).collect();
    assert_eq!(addrs, vec![0x0102, 0x0105, 0x0106]);
    assert_eq!(w[0].1, "LDX #$1234");
    // In the middle of an instruction the line stands alone.
    let w = disasm_window(&mut mem, 0x0103, &b, 0, 1);
    assert_eq!(w.len(), 1);
    assert_eq!(w[0].0, 0x0103);
}

#[test]
fn tracing_changes_nothing_but_the_log() {
    let program = [0x86, 0x7F, 0x8B, 0x01, 0x34, 0x06, 0x12];
    let mut a = Memory::new();
    let mut b = Memory::new();
    a.load_slice(0x0100, &program);
    b.load_slice(0x0100, &program);
    let mut p = Cpu::new();
    let mut q = Cpu::new();
    p.r.s = 0x8000;
    q.r.s = 0x8000;
    p.set_pc(0x0100);
    q.set_pc(0x0100);
    for _ in 0..4 {
        assert_eq!(p.step(&mut a, true), q.step(&mut b, false));
        assert_eq!(dump_registers(&p), dump_registers(&q));
    }
    assert_eq!(a.read_slice(0, 0x10000), b.read_slice(0, 0x10000));
    assert_eq!(p.take_log().len(), 4);
    assert!(q.take_log().is_empty());
}
