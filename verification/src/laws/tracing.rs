//! The lines of a trace.

use crate::alu::{condition, offset, signed16, signed8};
use crate::bus::Memory;
use crate::cpu::isa::{Instr, Mode};
use crate::cpu::machine::{irq_line, signed5, IndexDesc, Mach, Opnd};
use crate::cpu::trace::{
    branch_name, index_name, index_text, instr_text, operand_text, postbyte_text, taken_text,
    trace_text,
};
use crate::debug::CallKind;
use crate::disasm::{byte_column, mnemonic, padded};
use crate::laws::addressing::{byte_of, is_signed16, is_signed5, is_signed8, word_of};
use crate::text::{decimal, digits, hex2, hex4};
use vstd::prelude::*;

verus! {

/// Whether `part` stands somewhere in a text.
pub open spec fn shows(text: Seq<char>, part: Seq<char>) -> bool {
    exists|i: int|
        0 <= i && i + part.len() <= text.len() && #[trigger] text.subrange(i, i + part.len())
            == part
}

/// Whether a text begins with `part`.
pub open spec fn begins(text: Seq<char>, part: Seq<char>) -> bool {
    part.len() <= text.len() && text.subrange(0, part.len() as int) == part
}

/// Whether a text ends with `part`.
pub open spec fn ends(text: Seq<char>, part: Seq<char>) -> bool {
    part.len() <= text.len() && text.subrange(text.len() - part.len(), text.len() as int) == part
}

pub proof fn lemma_parts(a: Seq<char>, b: Seq<char>, c: Seq<char>)
    ensures
        shows(a + b + c, b),
        shows(a + b, b),
        begins(a + b + c, a),
        begins(a + b, a),
        ends(a + b + c, c),
        ends(a + b, b),
{
    let t = a + b + c;
    let n = a.len() as int;
    assert(t.subrange(n, n + b.len()) =~= b);
    assert((a + b).subrange(n, n + b.len()) =~= b);
    assert(t.subrange(0, n) =~= a);
    assert((a + b).subrange(0, n) =~= a);
    assert(t.subrange(t.len() - c.len(), t.len() as int) =~= c);
    assert((a + b).subrange((a + b).len() - b.len(), (a + b).len() as int) =~= b);
}

/// A line of a trace begins with the address, a colon, and the opcode, with the
/// prefix before it where there is one.
pub proof fn law_trace_head(pc: u16, prefix: u8, op: u8, instr: Instr, o: Opnd)
    ensures
        ({
            let t = trace_text(pc, prefix, op, instr, o);
            &&& prefix == 0 ==> begins(t, hex4(pc) + seq![':', ' '] + hex2(op))
            &&& prefix != 0 ==> begins(
                t,
                hex4(pc) + seq![':', ' '] + hex2(prefix) + seq![' '] + hex2(op),
            )
            &&& ends(t, instr_text(op, instr, o))
        }),
{
    reveal_strlit(": ");
    reveal_strlit(" ");
    let t = trace_text(pc, prefix, op, instr, o);
    let rest = instr_text(op, instr, o);
    let head = if prefix == 0 {
        hex4(pc) + seq![':', ' '] + hex2(op)
    } else {
        hex4(pc) + seq![':', ' '] + hex2(prefix) + seq![' '] + hex2(op)
    };
    assert(t =~= head + rest);
    lemma_parts(head, rest, Seq::empty());
}

proof fn lemma_operand(
    name: Seq<char>,
    o: Opnd,
    imm: bool,
    gap: Seq<char>,
    dir: Seq<char>,
    arrow: bool,
)
    requires
        o is Byte || o is Word || o is Index,
    ensures
        ({
            let t = operand_text(name, o, imm, gap, dir, arrow);
            &&& shows(t, name)
            &&& o matches Opnd::Byte(b) ==> begins(t, seq![' '] + hex2(b)) && ends(t, hex2(b))
            &&& o matches Opnd::Word(w) ==> begins(t, seq![' '] + hex4(w)) && ends(t, hex4(w))
            &&& o matches Opnd::Byte(b) ==> (imm ==> ends(t, seq![' ', '#', '$'] + hex2(b))) && (!imm
                ==> ends(t, dir + hex2(b)))
            &&& o matches Opnd::Word(w) ==> (imm ==> ends(t, seq![' ', '#', '$'] + hex4(w))) && (!imm
                ==> ends(t, seq![' ', '$'] + hex4(w)))
            &&& o matches Opnd::Index(d, ea) ==> shows(t, index_text(d)) && (arrow ==> ends(
                t,
                hex4(ea),
            )) && (!arrow ==> ends(t, index_text(d)))
        }),
{
    reveal_strlit(" ");
    reveal_strlit(" #$");
    reveal_strlit(" $");
    reveal_strlit(" ..    ");
    reveal_strlit(" -> ");
    assert(" "@ =~= seq![' ']);
    assert(" #$"@ =~= seq![' ', '#', '$']);
    assert(" $"@ =~= seq![' ', '$']);
    let t = operand_text(name, o, imm, gap, dir, arrow);
    match o {
        Opnd::Byte(b) => {
            let sign = if imm {
                " #$"@
            } else {
                dir
            };
            let h = hex2(b);
            let front = seq![' '] + h;
            assert(t =~= (front + gap) + name + (sign + h));
            lemma_parts(front + gap, name, sign + h);
            assert(t =~= front + (gap + name + sign) + h);
            lemma_parts(front, gap + name + sign, h);
        },
        Opnd::Word(w) => {
            let sign = if imm {
                " #$"@
            } else {
                " $"@
            };
            let h = hex4(w);
            let front = seq![' '] + h;
            assert(t =~= (front + " "@) + name + (sign + h));
            lemma_parts(front + " "@, name, sign + h);
            assert(t =~= front + (" "@ + name + sign) + h);
            lemma_parts(front, " "@ + name + sign, h);
        },
        Opnd::Index(d, ea) => {
            let x = index_text(d);
            let tail = if arrow {
                " -> "@ + hex4(ea)
            } else {
                Seq::<char>::empty()
            };
            assert(t =~= " ..    "@ + name + (" "@ + x + tail));
            lemma_parts(" ..    "@, name, " "@ + x + tail);
            assert(t =~= (" ..    "@ + name + " "@) + x + tail);
            lemma_parts(" ..    "@ + name + " "@, x, tail);
            if arrow {
                assert(t =~= (" ..    "@ + name + " "@ + x + " -> "@) + hex4(ea));
                lemma_parts(" ..    "@ + name + " "@ + x + " -> "@, hex4(ea), Seq::empty());
            } else {
                assert(t =~= (" ..    "@ + name + " "@) + x);
                lemma_parts(" ..    "@ + name + " "@, x, Seq::empty());
            }
        },
        _ => {},
    }
}

/// Whether an instruction has an operand by mode.
pub open spec fn by_mode(instr: Instr) -> bool {
    match instr {
        Instr::Alu { .. } | Instr::StoreAcc { .. } | Instr::Mem { .. } | Instr::Load16 { .. }
        | Instr::Store16 { .. } | Instr::Compare16 { .. } | Instr::AddD { .. } | Instr::SubD { .. }
        | Instr::Jmp { .. } | Instr::Jsr { .. } | Instr::OrCc | Instr::AndCc | Instr::Cwai => true,
        _ => false,
    }
}

/// Whether the operand is a constant.
pub open spec fn constant(instr: Instr) -> bool {
    match instr {
        Instr::Alu { mode, .. } => mode == Mode::Imm,
        Instr::Load16 { mode, .. } => mode == Mode::Imm,
        Instr::Compare16 { mode, .. } => mode == Mode::Imm,
        Instr::AddD { mode, .. } => mode == Mode::Imm,
        Instr::SubD { mode, .. } => mode == Mode::Imm,
        Instr::OrCc | Instr::AndCc | Instr::Cwai => true,
        _ => false,
    }
}

/// An instruction with an operand shows the bytes of the operand, the name that
/// a listing gives it, and the operand: a constant behind `#$`, an address
/// behind `$`, an indexed operand in its own form.
pub proof fn law_trace_operands(op: u8, instr: Instr, o: Opnd)
    requires
        by_mode(instr),
        o is Byte || o is Word || o is Index,
    ensures
        ({
            let t = instr_text(op, instr, o);
            &&& shows(t, mnemonic(instr))
            &&& o matches Opnd::Byte(b) ==> begins(t, seq![' '] + hex2(b)) && ends(t, hex2(b)) && (
            constant(instr) <==> ends(t, seq![' ', '#', '$'] + hex2(b)))
            &&& o matches Opnd::Word(w) ==> begins(t, seq![' '] + hex4(w)) && ends(t, hex4(w)) && (
            constant(instr) <==> ends(t, seq![' ', '#', '$'] + hex4(w)))
            &&& o matches Opnd::Index(d, ea) ==> shows(t, index_text(d))
        }),
{
    lemma_operand_of(op, instr, o);
    let t = instr_text(op, instr, o);
    if !constant(instr) {
        match o {
            Opnd::Byte(b) => {
                lemma_signs_apart(t, hex2(b));
            },
            Opnd::Word(w) => {
                lemma_signs_apart(t, hex4(w));
            },
            _ => {},
        }
    }
}

proof fn lemma_signs_apart(t: Seq<char>, h: Seq<char>)
    requires
        ends(t, seq![' ', '$'] + h) || ends(t, seq![' ', '<', '$'] + h),
    ensures
        !ends(t, seq![' ', '#', '$'] + h),
{
    let n = t.len() - h.len();
    let (p, q, r) = (seq![' ', '$'] + h, seq![' ', '<', '$'] + h, seq![' ', '#', '$'] + h);
    if ends(t, r) {
        let s = t.subrange(t.len() - r.len(), t.len() as int);
        assert(s[1] == '#' && s[1] == t[n - 2]);
        if ends(t, p) {
            let u = t.subrange(t.len() - p.len(), t.len() as int);
            assert(u[0] == ' ' && u[0] == t[n - 2]);
        } else {
            let u = t.subrange(t.len() - q.len(), t.len() as int);
            assert(u[1] == '<' && u[1] == t[n - 2]);
        }
    }
}

proof fn lemma_operand_of(op: u8, instr: Instr, o: Opnd)
    requires
        by_mode(instr),
        o is Byte || o is Word || o is Index,
    ensures
        ({
            let t = instr_text(op, instr, o);
            &&& shows(t, mnemonic(instr))
            &&& o matches Opnd::Byte(b) ==> begins(t, seq![' '] + hex2(b)) && ends(t, hex2(b)) && if constant(
                instr,
            ) {
                ends(t, seq![' ', '#', '$'] + hex2(b))
            } else {
                ends(t, seq![' ', '$'] + hex2(b)) || ends(t, seq![' ', '<', '$'] + hex2(b))
            }
            &&& o matches Opnd::Word(w) ==> begins(t, seq![' '] + hex4(w)) && ends(t, hex4(w)) && if constant(
                instr,
            ) {
                ends(t, seq![' ', '#', '$'] + hex4(w))
            } else {
                ends(t, seq![' ', '$'] + hex4(w))
            }
            &&& o matches Opnd::Index(d, ea) ==> shows(t, index_text(d))
        }),
{
    reveal_strlit(" $");
    reveal_strlit(" <$");
    assert(" $"@ =~= seq![' ', '$']);
    assert(" <$"@ =~= seq![' ', '<', '$']);
    let name = mnemonic(instr);
    let imm = constant(instr);
    let (g1, g3, g4) = (" "@, "   "@, "    "@);
    lemma_operand(name, o, imm, g1, " <$"@, true);
    lemma_operand(name, o, imm, g1, " <$"@, false);
    lemma_operand(name, o, imm, g3, " $"@, true);
    lemma_operand(name, o, imm, g3, " $"@, false);
    lemma_operand(name, o, imm, g3, " <$"@, true);
    lemma_operand(name, o, imm, g3, " <$"@, false);
    lemma_operand(name, o, imm, g4, " $"@, false);
    lemma_operand(name, o, imm, g4, " <$"@, false);
}

/// A branch shows the byte of its distance, its name, and whether it was taken;
/// BRA, which always is, shows where it leads.
pub proof fn law_trace_branch(op: u8, code: u8, raw: u16, target: u16, taken: bool)
    ensures
        ({
            let o = Opnd::Relative { raw, target, taken };
            let t = instr_text(op, Instr::Branch { code }, o);
            let l = instr_text(op, Instr::LongBranch { code }, o);
            &&& begins(t, seq![' '] + hex2((raw % 256) as u8))
            &&& shows(t, branch_name(code))
            &&& code == 0 ==> ends(t, seq![' ', '$'] + hex4(target))
            &&& code != 0 && taken ==> ends(t, seq![' ', 't', 'a', 'k', 'e', 'n'])
            &&& code != 0 && !taken ==> ends(t, seq![' ', 'n', 'o', 't'])
            &&& begins(l, seq![' '] + hex4(raw))
            &&& shows(l, hex2(op))
            &&& taken ==> ends(l, seq![' ', 't', 'a', 'k', 'e', 'n'])
            &&& !taken ==> ends(l, seq![' ', 'n', 'o', 't'])
        }),
{
    lemma_short_branch(op, code, raw, target, taken);
    lemma_long_branch(op, code, raw, target, taken);
}

spec fn outcome(taken: bool) -> Seq<char> {
    if taken {
        seq![' ', 't', 'a', 'k', 'e', 'n']
    } else {
        seq![' ', 'n', 'o', 't']
    }
}

proof fn lemma_outcome(taken: bool)
    ensures
        " "@ + taken_text(taken) == outcome(taken),
        " "@ == seq![' '],
{
    reveal_strlit(" ");
    reveal_strlit("taken");
    reveal_strlit("not");
    assert(" "@ =~= seq![' ']);
    assert(" "@ + taken_text(taken) =~= outcome(taken));
}

proof fn lemma_four(a: Seq<char>, b: Seq<char>, c: Seq<char>, d: Seq<char>, e: Seq<char>)
    ensures
        a + b + c + d + e == (a + b) + c + (d + e),
        a + b + c + d + e == a + (b + c + d) + e,
{
    assert(a + b + c + d + e =~= (a + b) + c + (d + e));
    assert(a + b + c + d + e =~= a + (b + c + d) + e);
}

proof fn lemma_short_branch(op: u8, code: u8, raw: u16, target: u16, taken: bool)
    ensures
        ({
            let t = instr_text(op, Instr::Branch { code }, Opnd::Relative { raw, target, taken });
            &&& begins(t, seq![' '] + hex2((raw % 256) as u8))
            &&& shows(t, branch_name(code))
            &&& code == 0 ==> ends(t, seq![' ', '$'] + hex4(target))
            &&& code != 0 ==> ends(t, outcome(taken))
        }),
{
    let t = instr_text(op, Instr::Branch { code }, Opnd::Relative { raw, target, taken });
    lemma_outcome(taken);
    let last = if code == 0 {
        "$"@ + hex4(target)
    } else {
        taken_text(taken)
    };
    let front = seq![' '] + hex2((raw % 256) as u8);
    assert(t == front + "   "@ + branch_name(code) + " "@ + last);
    lemma_four(front, "   "@, branch_name(code), " "@, last);
    lemma_parts(front + "   "@, branch_name(code), " "@ + last);
    lemma_parts(front, "   "@ + branch_name(code) + " "@, last);
    if code == 0 {
        reveal_strlit("$");
        assert(" "@ + ("$"@ + hex4(target)) =~= seq![' ', '$'] + hex4(target));
    }
}

proof fn lemma_long_branch(op: u8, code: u8, raw: u16, target: u16, taken: bool)
    ensures
        ({
            let t = instr_text(op, Instr::LongBranch { code }, Opnd::Relative { raw, target, taken });
            &&& begins(t, seq![' '] + hex4(raw))
            &&& shows(t, hex2(op))
            &&& ends(t, outcome(taken))
        }),
{
    let t = instr_text(op, Instr::LongBranch { code }, Opnd::Relative { raw, target, taken });
    lemma_outcome(taken);
    let front = seq![' '] + hex4(raw);
    let last = taken_text(taken);
    assert(t == front + " LB"@ + hex2(op) + " "@ + last);
    lemma_four(front, " LB"@, hex2(op), " "@, last);
    lemma_parts(front + " LB"@, hex2(op), " "@ + last);
    lemma_parts(front, " LB"@ + hex2(op) + " "@, last);
}

/// Calls and jumps by distance show it, and LBRA where it leads.
pub proof fn law_trace_relative(op: u8, raw: u16, target: u16, taken: bool)
    ensures
        ({
            let o = Opnd::Relative { raw, target, taken };
            let (b, l, j) = (
                instr_text(op, Instr::Bsr, o),
                instr_text(op, Instr::Lbsr, o),
                instr_text(op, Instr::Lbra, o),
            );
            &&& begins(b, seq![' '] + hex2((raw % 256) as u8)) && ends(b, mnemonic(Instr::Bsr))
            &&& begins(l, seq![' '] + hex4(raw)) && ends(l, mnemonic(Instr::Lbsr))
            &&& begins(j, seq![' '] + hex4(raw)) && shows(j, mnemonic(Instr::Lbra)) && ends(
                j,
                seq![' ', '$'] + hex4(target),
            )
        }),
{
    lemma_call_text(op, raw, target, taken);
    lemma_long_call_text(op, raw, target, taken);
    lemma_long_jump_text(op, raw, target, taken);
}

proof fn lemma_call_text(op: u8, raw: u16, target: u16, taken: bool)
    ensures
        ({
            let t = instr_text(op, Instr::Bsr, Opnd::Relative { raw, target, taken });
            begins(t, seq![' '] + hex2((raw % 256) as u8)) && ends(t, "BSR"@)
        }),
{
    reveal_strlit(" ");
    reveal_strlit("   BSR");
    reveal_strlit("BSR");
    let t = instr_text(op, Instr::Bsr, Opnd::Relative { raw, target, taken });
    let near = seq![' '] + hex2((raw % 256) as u8);
    assert("   BSR"@ =~= seq![' ', ' ', ' '] + "BSR"@);
    assert(t =~= near + seq![' ', ' ', ' '] + "BSR"@);
    lemma_parts(near, seq![' ', ' ', ' '], "BSR"@);
}

proof fn lemma_long_call_text(op: u8, raw: u16, target: u16, taken: bool)
    ensures
        ({
            let t = instr_text(op, Instr::Lbsr, Opnd::Relative { raw, target, taken });
            begins(t, seq![' '] + hex4(raw)) && ends(t, "LBSR"@)
        }),
{
    reveal_strlit(" ");
    reveal_strlit(" LBSR");
    reveal_strlit("LBSR");
    let t = instr_text(op, Instr::Lbsr, Opnd::Relative { raw, target, taken });
    let far = seq![' '] + hex4(raw);
    assert(" LBSR"@ =~= seq![' '] + "LBSR"@);
    assert(t =~= far + seq![' '] + "LBSR"@);
    lemma_parts(far, seq![' '], "LBSR"@);
}

proof fn lemma_long_jump_text(op: u8, raw: u16, target: u16, taken: bool)
    ensures
        ({
            let t = instr_text(op, Instr::Lbra, Opnd::Relative { raw, target, taken });
            begins(t, seq![' '] + hex4(raw)) && shows(t, "LBRA"@) && ends(
                t,
                seq![' ', '$'] + hex4(target),
            )
        }),
{
    reveal_strlit(" ");
    reveal_strlit(" LBRA $");
    reveal_strlit("LBRA");
    let t = instr_text(op, Instr::Lbra, Opnd::Relative { raw, target, taken });
    let far = seq![' '] + hex4(raw);
    let h = hex4(target);
    assert(" "@ =~= seq![' ']);
    assert(" LBRA $"@ =~= seq![' '] + "LBRA"@ + seq![' ', '$']);
    assert(t == far + " LBRA $"@ + h);
    assert(t =~= far + seq![' '] + "LBRA"@ + seq![' ', '$'] + h);
    lemma_four(far, seq![' '], "LBRA"@, seq![' ', '$'], h);
    lemma_parts(far + seq![' '], "LBRA"@, seq![' ', '$'] + h);
    lemma_parts(far, seq![' '] + "LBRA"@ + seq![' ', '$'], h);
}

/// Instructions with a list or a pair of registers show the byte of it and end
/// with their name.
pub proof fn law_trace_lists(op: u8, b: u8, user: bool)
    ensures
        ({
            let o = Opnd::Byte(b);
            let good = |i: Instr|
                begins(instr_text(op, i, o), seq![' '] + hex2(b)) && ends(
                    instr_text(op, i, o),
                    mnemonic(i),
                );
            &&& good(Instr::Push { user })
            &&& good(Instr::Pull { user })
            &&& good(Instr::Exg)
            &&& good(Instr::Tfr)
        }),
{
    lemma_postbyte(mnemonic(Instr::Push { user }), b);
    lemma_postbyte(mnemonic(Instr::Pull { user }), b);
    lemma_postbyte(mnemonic(Instr::Exg), b);
    lemma_postbyte(mnemonic(Instr::Tfr), b);
}

proof fn lemma_postbyte(name: Seq<char>, b: u8)
    ensures
        begins(postbyte_text(name, Opnd::Byte(b)), seq![' '] + hex2(b)),
        ends(postbyte_text(name, Opnd::Byte(b)), name),
{
    reveal_strlit(" ");
    let front = seq![' '] + hex2(b);
    assert(postbyte_text(name, Opnd::Byte(b)) =~= front + "   "@ + name);
    lemma_parts(front, "   "@, name);
}

/// Instructions without an operand end with their name.
pub proof fn law_trace_inherent(op: u8, instr: Instr, o: Opnd)
    requires
        match instr {
            Instr::Rts | Instr::Rti | Instr::Sync | Instr::Nop | Instr::Abx | Instr::Mul | Instr::Daa
            | Instr::Sex | Instr::Accum { .. } | Instr::Swi { .. } | Instr::Lea { .. } => true,
            _ => false,
        },
    ensures
        ends(instr_text(op, instr, o), mnemonic(instr)),
{
    lemma_inherent_strings();
    let t = instr_text(op, instr, o);
    let name = mnemonic(instr);
    match instr {
        Instr::Accum { unary, acc } => {
            assert(t =~= "        "@ + name);
            lemma_parts("        "@, name, Seq::empty());
        },
        Instr::Lea { reg } => {
            assert(t =~= " ..    "@ + name);
            lemma_parts(" ..    "@, name, Seq::empty());
        },
        Instr::Swi { n } => {
            if n == 1 {
                lemma_parts("        "@, name, Seq::empty());
            } else {
                lemma_parts("   "@, name, Seq::empty());
            }
        },
        _ => {
            lemma_parts("        "@, name, Seq::empty());
        },
    }
}

proof fn lemma_inherent_strings()
    ensures
        "        RTS"@ == "        "@ + "RTS"@,
        "        RTI"@ == "        "@ + "RTI"@,
        "        SYNC"@ == "        "@ + "SYNC"@,
        "        NOP"@ == "        "@ + "NOP"@,
        "        ABX"@ == "        "@ + "ABX"@,
        "        MUL"@ == "        "@ + "MUL"@,
        "        DAA"@ == "        "@ + "DAA"@,
        "        SEX"@ == "        "@ + "SEX"@,
        "        SWI"@ == "        "@ + "SWI"@,
        "   SWI2"@ == "   "@ + "SWI2"@,
        "   SWI3"@ == "   "@ + "SWI3"@,
        " ..    LEA"@ == " ..    "@ + "LEA"@,
{
    reveal_strlit("        ");
    reveal_strlit("   ");
    reveal_strlit(" ..    ");
    reveal_strlit("        RTS");
    reveal_strlit("        RTI");
    reveal_strlit("        SYNC");
    reveal_strlit("        NOP");
    reveal_strlit("        ABX");
    reveal_strlit("        MUL");
    reveal_strlit("        DAA");
    reveal_strlit("        SEX");
    reveal_strlit("        SWI");
    reveal_strlit("   SWI2");
    reveal_strlit("   SWI3");
    reveal_strlit(" ..    LEA");
    reveal_strlit("RTS");
    reveal_strlit("RTI");
    reveal_strlit("SYNC");
    reveal_strlit("NOP");
    reveal_strlit("ABX");
    reveal_strlit("MUL");
    reveal_strlit("DAA");
    reveal_strlit("SEX");
    reveal_strlit("SWI");
    reveal_strlit("SWI2");
    reveal_strlit("SWI3");
    reveal_strlit("LEA");
    assert("        RTS"@ =~= "        "@ + "RTS"@);
    assert("        RTI"@ =~= "        "@ + "RTI"@);
    assert("        SYNC"@ =~= "        "@ + "SYNC"@);
    assert("        NOP"@ =~= "        "@ + "NOP"@);
    assert("        ABX"@ =~= "        "@ + "ABX"@);
    assert("        MUL"@ =~= "        "@ + "MUL"@);
    assert("        DAA"@ =~= "        "@ + "DAA"@);
    assert("        SEX"@ =~= "        "@ + "SEX"@);
    assert("        SWI"@ =~= "        "@ + "SWI"@);
    assert("   SWI2"@ =~= "   "@ + "SWI2"@);
    assert("   SWI3"@ =~= "   "@ + "SWI3"@);
    assert(" ..    LEA"@ =~= " ..    "@ + "LEA"@);
}

/// The letter of an index register.
pub open spec fn letter(reg: u8) -> char {
    if reg == 0 {
        'X'
    } else if reg == 1 {
        'Y'
    } else if reg == 2 {
        'U'
    } else {
        'S'
    }
}

/// A text, in brackets where an operand is indirect.
pub open spec fn inside(indirect: bool, t: Seq<char>) -> Seq<char> {
    if indirect {
        seq!['['] + t + seq![']']
    } else {
        t
    }
}

/// A number, with a minus sign where it is negative.
pub open spec fn in_decimal(n: int) -> Seq<char> {
    if n < 0 {
        seq!['-'] + digits((-n) as nat)
    } else {
        digits(n as nat)
    }
}

/// How indexed operands are written in a trace.
pub proof fn law_trace_index(reg: u8, off: i32, indirect: bool, acc: char, addr: u16)
    ensures
        ({
            let (r, n) = (letter(reg), in_decimal(off as int));
            &&& index_text(IndexDesc::Offset5 { reg, off }) == seq![r, '+'] + n
            &&& index_text(IndexDesc::Offset { reg, off, indirect }) == inside(
                indirect,
                seq![r, '+'] + n,
            )
            &&& index_text(IndexDesc::Program { off, indirect }) == inside(
                indirect,
                seq!['P', 'C', '+'] + n,
            )
            &&& index_text(IndexDesc::Zero { reg, indirect: true }) == seq!['[', r, ']']
            &&& index_text(IndexDesc::Zero { reg, indirect: false }) == seq![',', r]
            &&& index_text(IndexDesc::Accumulator { acc, reg, indirect }) == inside(
                indirect,
                seq![acc, ',', r],
            )
            &&& index_text(IndexDesc::Increment { reg, by: 1, indirect }) == inside(
                indirect,
                seq![',', r, '+'],
            )
            &&& index_text(IndexDesc::Increment { reg, by: 2, indirect }) == inside(
                indirect,
                seq![',', r, '+', '+'],
            )
            &&& index_text(IndexDesc::Decrement { reg, by: 1, indirect }) == inside(
                indirect,
                seq![',', '-', r],
            )
            &&& index_text(IndexDesc::Decrement { reg, by: 2, indirect }) == inside(
                indirect,
                seq![',', '-', '-', r],
            )
            &&& index_text(IndexDesc::Absolute { addr }) == seq!['['] + hex4(addr) + seq![']']
        }),
{
    lemma_letter(reg);
    reveal_strlit("+");
    reveal_strlit("++");
    reveal_strlit(",");
    reveal_strlit(",-");
    reveal_strlit(",--");
    reveal_strlit("[");
    reveal_strlit("]");
    reveal_strlit("PC+");
    let (r, n) = (letter(reg), in_decimal(off as int));
    assert(decimal(off as int) == n);
    let name = index_name(reg);
    assert(name + "+"@ + n =~= seq![r, '+'] + n);
    assert("PC+"@ + n =~= seq!['P', 'C', '+'] + n);
    assert("["@ + name + "]"@ =~= seq!['[', r, ']']);
    assert(","@ + name =~= seq![',', r]);
    assert(seq![acc] + ","@ + name =~= seq![acc, ',', r]);
    assert(","@ + name + "+"@ =~= seq![',', r, '+']);
    assert(","@ + name + "++"@ =~= seq![',', r, '+', '+']);
    assert(",-"@ + name =~= seq![',', '-', r]);
    assert(",--"@ + name =~= seq![',', '-', '-', r]);
    assert("["@ =~= seq!['[']);
    assert("]"@ =~= seq![']']);
}

proof fn lemma_letter(reg: u8)
    ensures
        index_name(reg) == seq![letter(reg)],
{
    reveal_strlit("X");
    reveal_strlit("Y");
    reveal_strlit("U");
    reveal_strlit("S");
    assert("X"@ =~= seq!['X']);
    assert("Y"@ =~= seq!['Y']);
    assert("U"@ =~= seq!['U']);
    assert("S"@ =~= seq!['S']);
}

/// A line of the interrupt log says where the CPU was and where it goes.
pub proof fn law_interrupt_line(head: Seq<char>, pc: u16, target: u16)
    ensures
        begins(irq_line(head, pc, target), head + hex4(pc)),
        ends(irq_line(head, pc, target), seq!['$'] + hex4(target)),
{
    reveal_strlit(" -> vec=$");
    let t = irq_line(head, pc, target);
    let arrow = seq![' ', '-', '>', ' ', 'v', 'e', 'c', '='];
    assert(t =~= (head + hex4(pc)) + arrow + (seq!['$'] + hex4(target)));
    lemma_parts(head + hex4(pc), arrow, seq!['$'] + hex4(target));
}

/// A column is filled up with blanks, and a text that is too long for it stays
/// whole.
pub proof fn law_padded(s: Seq<char>, width: nat, i: int)
    ensures
        begins(padded(s, width), s),
        s.len() < width ==> padded(s, width).len() == width,
        s.len() >= width ==> padded(s, width) == s,
        s.len() <= i < width ==> padded(s, width)[i] == ' ',
{
    assert(padded(s, width).subrange(0, s.len() as int) =~= s);
}

/// The bytes in a listing: each behind a dollar sign, with blanks between them.
pub proof fn law_byte_column(m: Seq<u8>, pc: u16)
    requires
        m.len() == 65536,
    ensures
        ({
            let b = |k: int| seq!['$'] + hex2(m[(pc + k) % 65536]);
            let blank = seq![' '];
            let column = |n: int| byte_column::<Memory>(m, pc, 0, n, Seq::empty()).0;
            &&& column(1) == b(0)
            &&& column(2) == b(0) + blank + b(1)
            &&& column(3) == b(0) + blank + b(1) + blank + b(2)
            &&& column(4) == b(0) + blank + b(1) + blank + b(2) + blank + b(3)
            &&& column(5) == b(0) + blank + b(1) + blank + b(2) + blank + b(3) + blank + b(4)
        }),
{
    let b = |k: int| seq!['$'] + hex2(m[(pc + k) % 65536]);
    let c1 = b(0);
    let c2 = c1 + seq![' '] + b(1);
    let c3 = c2 + seq![' '] + b(2);
    let c4 = c3 + seq![' '] + b(3);
    let c5 = c4 + seq![' '] + b(4);
    lemma_column(m, pc, 1, c1, c2, c3, c4, c5);
    lemma_column(m, pc, 2, c1, c2, c3, c4, c5);
    lemma_column(m, pc, 3, c1, c2, c3, c4, c5);
    lemma_column(m, pc, 4, c1, c2, c3, c4, c5);
    lemma_column(m, pc, 5, c1, c2, c3, c4, c5);
}

proof fn lemma_one_more(m: Seq<u8>, pc: u16, from: int, len: int, acc: Seq<char>)
    requires
        m.len() == 65536,
        0 <= from < len,
    ensures
        byte_column::<Memory>(m, pc, from, len, acc) == byte_column::<Memory>(
            m,
            pc,
            from + 1,
            len,
            (if from == 0 {
                acc
            } else {
                acc + seq![' ']
            }) + (seq!['$'] + hex2(m[(pc + from) % 65536])),
        ),
{
    reveal_strlit(" ");
    reveal_strlit("$");
    assert(" "@ =~= seq![' ']);
    assert("$"@ =~= seq!['$']);
    let h = hex2(m[(pc + from) % 65536]);
    let a = if from == 0 {
        acc
    } else {
        acc + seq![' ']
    };
    assert(a + "$"@ + h =~= a + (seq!['$'] + h));
}

proof fn lemma_column(
    m: Seq<u8>,
    pc: u16,
    n: int,
    c1: Seq<char>,
    c2: Seq<char>,
    c3: Seq<char>,
    c4: Seq<char>,
    c5: Seq<char>,
)
    requires
        m.len() == 65536,
        1 <= n <= 5,
        c1 == seq!['$'] + hex2(m[(pc + 0) % 65536]),
        c2 == c1 + seq![' '] + (seq!['$'] + hex2(m[(pc + 1) % 65536])),
        c3 == c2 + seq![' '] + (seq!['$'] + hex2(m[(pc + 2) % 65536])),
        c4 == c3 + seq![' '] + (seq!['$'] + hex2(m[(pc + 3) % 65536])),
        c5 == c4 + seq![' '] + (seq!['$'] + hex2(m[(pc + 4) % 65536])),
    ensures
        byte_column::<Memory>(m, pc, 0, n, Seq::empty()).0 == if n == 1 {
            c1
        } else if n == 2 {
            c2
        } else if n == 3 {
            c3
        } else if n == 4 {
            c4
        } else {
            c5
        },
{
    lemma_one_more(m, pc, 0, n, Seq::empty());
    assert(Seq::<char>::empty() + c1 =~= c1);
    if n > 1 {
        lemma_one_more(m, pc, 1, n, c1);
    }
    if n > 2 {
        lemma_one_more(m, pc, 2, n, c2);
    }
    if n > 3 {
        lemma_one_more(m, pc, 3, n, c3);
    }
    if n > 4 {
        lemma_one_more(m, pc, 4, n, c4);
    }
}

/// The operand that a trace shows, by mode: the byte or word behind the opcode,
/// or the indexed operand with its address.
pub open spec fn operand_read(s: Mach<Memory>, mode: Mode, wide: bool) -> Opnd {
    match mode {
        Mode::Imm => if wide {
            Opnd::Word(word_of(s.m, s.r.pc as int) as u16)
        } else {
            Opnd::Byte(byte_of(s.m, s.r.pc as int) as u8)
        },
        Mode::Direct => Opnd::Byte(byte_of(s.m, s.r.pc as int) as u8),
        Mode::Indexed => Opnd::Index(s.ea_indexed().2, s.ea_indexed().0),
        Mode::Extended => Opnd::Word(word_of(s.m, s.r.pc as int) as u16),
    }
}

proof fn lemma_fetches(s: Mach<Memory>)
    ensures
        s.fetch8().0 == byte_of(s.m, s.r.pc as int),
        s.fetch16().0 == word_of(s.m, s.r.pc as int),
{
    assert(offset(s.r.pc, 1) == (s.r.pc + 1) % 65536);
}

/// The operand of an instruction on bytes in a trace is the one that was used.
pub proof fn law_traced_bytes(s: Mach<Memory>, instr: Instr, site: u16)
    ensures
        ({
            let o = s.execute(instr, site).1;
            match instr {
                Instr::Alu { mode, .. } => o == operand_read(s, mode, false),
                Instr::StoreAcc { mode, .. } => mode != Mode::Imm ==> o == operand_read(
                    s,
                    mode,
                    false,
                ),
                Instr::Mem { mode, .. } => mode != Mode::Imm ==> o == operand_read(s, mode, false),
                _ => true,
            }
        }),
{
    lemma_fetches(s);
    reveal(Mach::execute);
    reveal(Mach::alu);
    reveal(Mach::store_acc);
    reveal(Mach::mem);
}

/// That of an instruction on words or addresses too.
pub proof fn law_traced_words(s: Mach<Memory>, instr: Instr, site: u16)
    ensures
        ({
            let o = s.execute(instr, site).1;
            match instr {
                Instr::Load16 { mode, .. } => o == operand_read(s, mode, true),
                Instr::Store16 { mode, .. } => mode != Mode::Imm ==> o == operand_read(s, mode, true),
                Instr::Compare16 { mode, .. } => o == operand_read(s, mode, true),
                Instr::AddD { mode, .. } => o == operand_read(s, mode, true),
                Instr::SubD { mode, .. } => o == operand_read(s, mode, true),
                Instr::Jmp { mode } => mode != Mode::Imm ==> o == operand_read(s, mode, true),
                Instr::Jsr { mode } => mode != Mode::Imm ==> o == operand_read(s, mode, true),
                Instr::Lea { reg } => o == operand_read(s, Mode::Indexed, true),
                _ => true,
            }
        }),
{
    lemma_fetches(s);
    reveal(Mach::execute);
    reveal(Mach::load16);
    reveal(Mach::store16);
    reveal(Mach::compare16);
    reveal(Mach::arith_d);
    reveal(Mach::jmp);
    reveal(Mach::jsr);
    reveal(Mach::lea);
}

/// Lists, pairs of registers and masks show their byte; a branch its distance,
/// where it leads, and whether it was taken: whether PC is then where it leads.
pub proof fn law_traced_flow(s: Mach<Memory>, instr: Instr, site: u16)
    ensures
        ({
            let (used, o, t) = s.execute(instr, site);
            let b = byte_of(s.m, s.r.pc as int);
            let w = word_of(s.m, s.r.pc as int);
            match instr {
                Instr::OrCc | Instr::AndCc | Instr::Exg | Instr::Tfr | Instr::Cwai | Instr::Push { .. }
                | Instr::Pull { .. } => o == Opnd::Byte(b as u8),
                Instr::Branch { code } => o matches Opnd::Relative { raw, target, taken } && raw == b
                    && taken == condition(code, s.r.cc) && (taken ==> t.r.pc == target),
                Instr::LongBranch { code } => o matches Opnd::Relative { raw, target, taken } && raw == w
                    && taken == condition(code, s.r.cc) && (taken ==> t.r.pc == target),
                Instr::Lbra => o matches Opnd::Relative { raw, target, taken } && raw == w && taken
                    && t.r.pc == target,
                Instr::Bsr => o matches Opnd::Relative { raw, target, taken } && raw == b && taken
                    && t.r.pc == target,
                Instr::Lbsr => o matches Opnd::Relative { raw, target, taken } && raw == w && taken
                    && t.r.pc == target,
                _ => true,
            }
        }),
{
    lemma_fetches(s);
    reveal(Mach::execute);
    reveal(Mach::with_postbyte);
    reveal(Mach::cwai);
    reveal(Mach::psh);
    reveal(Mach::pul);
    reveal(Mach::branch);
    reveal(Mach::long_branch);
    reveal(Mach::lbra);
    reveal(Mach::bsr);
    reveal(Mach::lbsr);
}

proof fn lemma_signed(n: int, b: u8, w: u16)
    ensures
        is_signed8(n, b as int) ==> n == signed8(b),
        is_signed16(n, w as int) ==> n == signed16(w),
        is_signed5(n, b as int) ==> n == signed5((b % 32) as u8),
{
}

/// An indexed operand is described as its postbyte says: the register, the
/// constant with its sign, the accumulator, or the step.
pub proof fn law_index_described(s: Mach<Memory>, n: int)
    ensures
        ({
            let pb = byte_of(s.m, s.r.pc as int);
            let d = s.ea_indexed().2;
            let reg = (pb / 32 % 4) as u8;
            let indirect = pb / 16 % 2 == 1;
            let form = pb % 16;
            let b = byte_of(s.m, s.r.pc + 1);
            let w = word_of(s.m, s.r.pc + 1);
            let off = n as i32;
            &&& pb < 128 && is_signed5(n, pb) ==> d == (IndexDesc::Offset5 { reg, off })
            &&& pb >= 128 ==> {
                &&& form == 0 ==> d == (IndexDesc::Increment { reg, by: 1, indirect: false })
                &&& form == 1 ==> d == (IndexDesc::Increment { reg, by: 2, indirect })
                &&& form == 2 ==> d == (IndexDesc::Decrement { reg, by: 1, indirect: false })
                &&& form == 3 ==> d == (IndexDesc::Decrement { reg, by: 2, indirect })
                &&& form == 4 ==> d == (IndexDesc::Zero { reg, indirect })
                &&& form == 5 ==> d == (IndexDesc::Accumulator { acc: 'B', reg, indirect })
                &&& form == 6 ==> d == (IndexDesc::Accumulator { acc: 'A', reg, indirect })
                &&& form == 11 ==> d == (IndexDesc::Accumulator { acc: 'D', reg, indirect })
                &&& form == 8 && is_signed8(n, b) ==> d == (IndexDesc::Offset { reg, off, indirect })
                &&& form == 9 && is_signed16(n, w) ==> d == (IndexDesc::Offset { reg, off, indirect })
                &&& form == 12 && is_signed8(n, b) ==> d == (IndexDesc::Program { off, indirect })
                &&& form == 13 && is_signed16(n, w) ==> d == (IndexDesc::Program { off, indirect })
                &&& form == 15 ==> d == (IndexDesc::Absolute { addr: w as u16 })
            }
        }),
{
    lemma_fetches(s);
    let (pb, t) = s.fetch8();
    lemma_fetches(t);
    assert(t.r.pc == (s.r.pc + 1) % 65536 && t.m == s.m);
    let (b, w) = (t.fetch8().0, t.fetch16().0);
    lemma_signed(n, pb, w);
    lemma_signed(n, b, w);
    lemma_next_bytes(s.m, s.r.pc);
    reveal(Mach::ea_indexed);
}

proof fn lemma_next_bytes(m: Seq<u8>, pc: u16)
    ensures
        byte_of(m, (pc + 1) % 65536) == byte_of(m, pc + 1),
        word_of(m, (pc + 1) % 65536) == word_of(m, pc + 1),
{
    assert(((pc + 1) % 65536 + 1) % 65536 == (pc + 1 + 1) % 65536);
}

/// Where interrupts are logged, one that is taken adds a line with its name, the
/// place where it came and the place where it goes.
pub proof fn law_interrupts_logged(s: Mach<Memory>)
    ensures
        ({
            let (n, f, i) = (s.service_nmi(), s.service_firq(), s.service_irq());
            let line = |name: Seq<char>, t: Mach<Memory>|
                irq_line("[irq] "@ + name + ": pc=$"@, s.r.pc, t.r.pc);
            &&& n.log == if s.irq_log {
                s.log.push(line(seq!['N', 'M', 'I'], n))
            } else {
                s.log
            }
            &&& f.log == if s.irq_log {
                s.log.push(line(seq!['F', 'I', 'R', 'Q'], f))
            } else {
                s.log
            }
            &&& i.log == if s.irq_log {
                s.log.push(line(seq!['I', 'R', 'Q'], i))
            } else {
                s.log
            }
        }),
{
    lemma_heads();
    lemma_entire_keeps_log(s.cc(s.r.cc | 0x80));
    lemma_vector_keeps_log(
        s.cc(s.r.cc | 0x80).push_entire(),
        0xFFFC,
        s.r.pc,
        s.r.pc,
        CallKind::Nmi,
    );
    lemma_vector_keeps_log(
        s.cc(s.r.cc | 0x80).push_entire(),
        0xFFF8,
        s.r.pc,
        s.r.pc,
        CallKind::Irq,
    );
    let p = s.push16(s.r.pc).push8(s.r.cc);
    lemma_push_keeps_log(s, s.r.cc, s.r.pc);
    lemma_push_keeps_log(s.push16(s.r.pc), s.r.cc, s.r.pc);
    lemma_vector_keeps_log(p.cc(p.r.cc & !0x80u8), 0xFFF6, s.r.pc, s.r.pc, CallKind::Firq);
    reveal(Mach::service_nmi);
    reveal(Mach::service_firq);
    reveal(Mach::service_irq);
}

proof fn lemma_heads()
    ensures
        "[irq] NMI: pc=$"@ == "[irq] "@ + seq!['N', 'M', 'I'] + ": pc=$"@,
        "[irq] FIRQ: pc=$"@ == "[irq] "@ + seq!['F', 'I', 'R', 'Q'] + ": pc=$"@,
        "[irq] IRQ: pc=$"@ == "[irq] "@ + seq!['I', 'R', 'Q'] + ": pc=$"@,
{
    reveal_strlit("[irq] NMI: pc=$");
    reveal_strlit("[irq] FIRQ: pc=$");
    reveal_strlit("[irq] IRQ: pc=$");
    reveal_strlit("[irq] ");
    reveal_strlit(": pc=$");
    assert("[irq] NMI: pc=$"@ =~= "[irq] "@ + seq!['N', 'M', 'I'] + ": pc=$"@);
    assert("[irq] FIRQ: pc=$"@ =~= "[irq] "@ + seq!['F', 'I', 'R', 'Q'] + ": pc=$"@);
    assert("[irq] IRQ: pc=$"@ =~= "[irq] "@ + seq!['I', 'R', 'Q'] + ": pc=$"@);
}

proof fn lemma_push_keeps_log(s: Mach<Memory>, b: u8, w: u16)
    ensures
        s.push8(b).log == s.log && s.push8(b).irq_log == s.irq_log,
        s.push16(w).log == s.log && s.push16(w).irq_log == s.irq_log,
{
}

proof fn lemma_entire_keeps_log(s: Mach<Memory>)
    ensures
        s.push_entire().log == s.log && s.push_entire().irq_log == s.irq_log,
{
    let r = s.r;
    let s1 = s.push16(r.pc);
    let s2 = s1.push16(r.u);
    let s3 = s2.push16(r.y);
    let s4 = s3.push16(r.x);
    let s5 = s4.push8(r.dp);
    let s6 = s5.push8(r.b);
    let s7 = s6.push8(r.a);
    lemma_push_keeps_log(s, 0, r.pc);
    lemma_push_keeps_log(s1, 0, r.u);
    lemma_push_keeps_log(s2, 0, r.y);
    lemma_push_keeps_log(s3, 0, r.x);
    lemma_push_keeps_log(s4, r.dp, 0);
    lemma_push_keeps_log(s5, r.b, 0);
    lemma_push_keeps_log(s6, r.a, 0);
    lemma_push_keeps_log(s7, r.cc, 0);
}

proof fn lemma_vector_keeps_log(
    s: Mach<Memory>,
    vector: u16,
    site: u16,
    ret: u16,
    kind: CallKind,
)
    ensures
        s.vectored(vector, site, ret, kind).log == s.log,
        s.vectored(vector, site, ret, kind).irq_log == s.irq_log,
{
}

} // verus!
