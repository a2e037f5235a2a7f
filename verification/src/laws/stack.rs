//! The stack: what was pushed comes back.

use crate::alu::{flag, high, low, offset, word, E};
use crate::bus::Memory;
use crate::cpu::machine::Mach;
use crate::cpu::Registers;
use crate::debug::{
    frames_after_return, frames_after_rti, is_interrupt, returns_through, CallFrame, CallKind,
};
use vstd::prelude::*;

verus! {

/// Whether `bytes` stand at the addresses from `at` on.
#[verifier::opaque]
pub open spec fn stands(m: Seq<u8>, at: u16, bytes: Seq<u8>) -> bool {
    forall|i: int| 0 <= i < bytes.len() ==> m[#[trigger] offset(at, i) as int] == bytes[i]
}

pub open spec fn bytes16(v: u16) -> Seq<u8> {
    seq![high(v), low(v)]
}

/// `bytes` where `on`, else nothing.
pub open spec fn part(on: bool, bytes: Seq<u8>) -> Seq<u8> {
    if on {
        bytes
    } else {
        Seq::empty()
    }
}

proof fn lemma_word(v: u16)
    ensures
        word(high(v), low(v)) == v,
{
}

proof fn lemma_push8(s: Mach<Memory>, v: u8, bytes: Seq<u8>)
    requires
        s.m.len() == 65536,
        bytes.len() < 32,
        stands(s.m, s.r.s, bytes),
    ensures
        s.push8(v).m.len() == 65536,
        s.push8(v).r.s == offset(s.r.s, -1),
        stands(s.push8(v).m, s.push8(v).r.s, seq![v] + bytes),
        forall|a: u16|
            a != s.push8(v).r.s ==> #[trigger] s.push8(v).m[a as int] == s.m[a as int],
{
    reveal(stands);
    let t = s.push8(v);
    let all = seq![v] + bytes;
    assert forall|i: int| 0 <= i < all.len() implies t.m[#[trigger] offset(t.r.s, i) as int]
        == all[i] by {
        if i > 0 {
            assert(offset(t.r.s, i) == offset(s.r.s, i - 1));
            assert(offset(s.r.s, i - 1) != offset(s.r.s, -1));
            assert(s.m[offset(s.r.s, i - 1) as int] == bytes[i - 1]);
        }
    }
}

proof fn lemma_push16(s: Mach<Memory>, v: u16, bytes: Seq<u8>)
    requires
        s.m.len() == 65536,
        bytes.len() < 31,
        stands(s.m, s.r.s, bytes),
    ensures
        s.push16(v).m.len() == 65536,
        s.push16(v).r.s == offset(s.r.s, -2),
        stands(s.push16(v).m, s.push16(v).r.s, bytes16(v) + bytes),
        forall|a: u16|
            a != s.push16(v).r.s && a != offset(s.push16(v).r.s, 1)
                ==> #[trigger] s.push16(v).m[a as int] == s.m[a as int],
{
    lemma_push8(s, low(v), bytes);
    let t = s.push8(low(v));
    lemma_push8(t, high(v), seq![low(v)] + bytes);
    assert(seq![high(v)] + (seq![low(v)] + bytes) =~= bytes16(v) + bytes);
}

proof fn lemma_rest(m: Seq<u8>, at: u16, front: Seq<u8>, rest: Seq<u8>)
    requires
        stands(m, at, front + rest),
        front.len() + rest.len() < 64,
    ensures
        stands(m, offset(at, front.len() as int), rest),
{
    reveal(stands);
    let all = front + rest;
    let b = offset(at, front.len() as int);
    assert forall|i: int| 0 <= i < rest.len() implies m[#[trigger] offset(b, i) as int]
        == rest[i] by {
        assert(offset(b, i) == offset(at, front.len() + i));
        assert(all[front.len() + i] == rest[i]);
    }
}

proof fn lemma_pull8(s: Mach<Memory>, v: u8, rest: Seq<u8>)
    requires
        stands(s.m, s.r.s, seq![v] + rest),
        rest.len() < 32,
    ensures
        s.pull8().0 == v,
        s.pull8().1 == s.regs(Registers { s: offset(s.r.s, 1), ..s.r }),
        stands(s.m, offset(s.r.s, 1), rest),
{
    let all = seq![v] + rest;
    assert(s.m[offset(s.r.s, 0) as int] == all[0]) by {
        reveal(stands);
    }
    assert(offset(s.r.s, 0) == s.r.s);
    lemma_rest(s.m, s.r.s, seq![v], rest);
}

proof fn lemma_pull16(s: Mach<Memory>, v: u16, rest: Seq<u8>)
    requires
        stands(s.m, s.r.s, bytes16(v) + rest),
        rest.len() < 31,
    ensures
        s.pull16().0 == v,
        s.pull16().1 == s.regs(Registers { s: offset(s.r.s, 2), ..s.r }),
        stands(s.m, offset(s.r.s, 2), rest),
{
    assert(bytes16(v) + rest =~= seq![high(v)] + (seq![low(v)] + rest));
    lemma_pull8(s, high(v), seq![low(v)] + rest);
    let t = s.pull8().1;
    lemma_pull8(t, low(v), rest);
    lemma_word(v);
    assert(offset(offset(s.r.s, 1), 1) == offset(s.r.s, 2));
}

/// The bytes of a register list as they stand on the stack, top first.
pub open spec fn list_image(pb: u8, r: Registers) -> Seq<u8> {
    part(flag(pb, 0x01), seq![r.cc]) + (part(flag(pb, 0x02), seq![r.a]) + (part(
        flag(pb, 0x04),
        seq![r.b],
    ) + (part(flag(pb, 0x08), seq![r.dp]) + (part(flag(pb, 0x10), bytes16(r.x)) + (part(
        flag(pb, 0x20),
        bytes16(r.y),
    ) + (part(flag(pb, 0x40), bytes16(r.u)) + part(flag(pb, 0x80), bytes16(r.pc))))))))
}

/// Whether `t` is `s` with `bytes` on S, top first.
#[verifier::opaque]
pub open spec fn stacked(s: Mach<Memory>, t: Mach<Memory>, bytes: Seq<u8>) -> bool {
    &&& t.m.len() == 65536
    &&& t == (Mach { r: Registers { s: t.r.s, ..s.r }, m: t.m, ..s })
    &&& bytes.len() < 20
    &&& stands(t.m, t.r.s, bytes)
    &&& s.r.s == offset(t.r.s, bytes.len() as int)
    &&& kept_above(s, t, bytes.len())
}

/// Whether every byte of memory is the same in `t`, but for the `n` bytes below
/// S.
pub open spec fn kept_above(s: Mach<Memory>, t: Mach<Memory>, n: nat) -> bool {
    forall|a: u16| offset(s.r.s, -1 - a) >= n ==> #[trigger] t.m[a as int] == s.m[a as int]
}

proof fn lemma_stack16(s: Mach<Memory>, t: Mach<Memory>, on: bool, v: u16, bytes: Seq<u8>)
    requires
        stacked(s, t, bytes),
        bytes.len() < 16,
    ensures
        stacked(s, t.push16_if(on, v), part(on, bytes16(v)) + bytes),
{
    reveal(stacked);
    if on {
        lemma_push16(t, v, bytes);
    } else {
        assert(part(on, bytes16(v)) + bytes =~= bytes);
    }
}

proof fn lemma_stack8(s: Mach<Memory>, t: Mach<Memory>, on: bool, v: u8, bytes: Seq<u8>)
    requires
        stacked(s, t, bytes),
        bytes.len() < 16,
    ensures
        stacked(s, t.push8_if(on, v), part(on, seq![v]) + bytes),
{
    reveal(stacked);
    if on {
        lemma_push8(t, v, bytes);
    } else {
        assert(part(on, seq![v]) + bytes =~= bytes);
    }
}

proof fn lemma_push_words(s: Mach<Memory>, pb: u8)
    requires
        s.m.len() == 65536,
    ensures
        stacked(
            s,
            s.push16_if(flag(pb, 0x80), s.r.pc).push16_if(flag(pb, 0x40), s.r.u).push16_if(
                flag(pb, 0x20),
                s.r.y,
            ).push16_if(flag(pb, 0x10), s.r.x),
            part(flag(pb, 0x10), bytes16(s.r.x)) + (part(flag(pb, 0x20), bytes16(s.r.y)) + (part(
                flag(pb, 0x40),
                bytes16(s.r.u),
            ) + part(flag(pb, 0x80), bytes16(s.r.pc)))),
        ),
{
    let r = s.r;
    let b0 = Seq::<u8>::empty();
    assert(stacked(s, s, b0)) by {
        reveal(stacked);
        reveal(stands);
    }
    let s1 = s.push16_if(flag(pb, 0x80), r.pc);
    lemma_stack16(s, s, flag(pb, 0x80), r.pc, b0);
    let b1 = part(flag(pb, 0x80), bytes16(r.pc));
    assert(b1 + b0 =~= b1);
    let s2 = s1.push16_if(flag(pb, 0x40), r.u);
    lemma_stack16(s, s1, flag(pb, 0x40), r.u, b1);
    let b2 = part(flag(pb, 0x40), bytes16(r.u)) + b1;
    let s3 = s2.push16_if(flag(pb, 0x20), r.y);
    lemma_stack16(s, s2, flag(pb, 0x20), r.y, b2);
    let b3 = part(flag(pb, 0x20), bytes16(r.y)) + b2;
    lemma_stack16(s, s3, flag(pb, 0x10), r.x, b3);
}

proof fn lemma_push_bytes(s: Mach<Memory>, t: Mach<Memory>, pb: u8, bytes: Seq<u8>)
    requires
        stacked(s, t, bytes),
        bytes.len() <= 8,
    ensures
        stacked(
            s,
            t.push8_if(flag(pb, 0x08), s.r.dp).push8_if(flag(pb, 0x04), s.r.b).push8_if(
                flag(pb, 0x02),
                s.r.a,
            ).push8_if(flag(pb, 0x01), s.r.cc),
            part(flag(pb, 0x01), seq![s.r.cc]) + (part(flag(pb, 0x02), seq![s.r.a]) + (part(
                flag(pb, 0x04),
                seq![s.r.b],
            ) + (part(flag(pb, 0x08), seq![s.r.dp]) + bytes))),
        ),
{
    let r = s.r;
    let s5 = t.push8_if(flag(pb, 0x08), r.dp);
    lemma_stack8(s, t, flag(pb, 0x08), r.dp, bytes);
    let b5 = part(flag(pb, 0x08), seq![r.dp]) + bytes;
    let s6 = s5.push8_if(flag(pb, 0x04), r.b);
    lemma_stack8(s, s5, flag(pb, 0x04), r.b, b5);
    let b6 = part(flag(pb, 0x04), seq![r.b]) + b5;
    let s7 = s6.push8_if(flag(pb, 0x02), r.a);
    lemma_stack8(s, s6, flag(pb, 0x02), r.a, b6);
    let b7 = part(flag(pb, 0x02), seq![r.a]) + b6;
    lemma_stack8(s, s7, flag(pb, 0x01), r.cc, b7);
}

/// PSHS puts the listed registers on S, CC on top, and changes nothing else.
pub proof fn law_push_list(s: Mach<Memory>, pb: u8)
    requires
        s.m.len() == 65536,
    ensures
        stacked(s, s.push_list(pb), list_image(pb, s.r)),
{
    lemma_push_words(s, pb);
    lemma_push_bytes(
        s,
        s.push16_if(flag(pb, 0x80), s.r.pc).push16_if(flag(pb, 0x40), s.r.u).push16_if(
            flag(pb, 0x20),
            s.r.y,
        ).push16_if(flag(pb, 0x10), s.r.x),
        pb,
        part(flag(pb, 0x10), bytes16(s.r.x)) + (part(flag(pb, 0x20), bytes16(s.r.y)) + (part(
            flag(pb, 0x40),
            bytes16(s.r.u),
        ) + part(flag(pb, 0x80), bytes16(s.r.pc)))),
    );
}

proof fn lemma_pull_cc(s: Mach<Memory>, on: bool, v: u8, rest: Seq<u8>)
    requires
        stands(s.m, s.r.s, part(on, seq![v]) + rest),
        rest.len() < 16,
    ensures
        s.pull_cc(on) == s.regs(
            Registers {
                cc: if on {
                    v
                } else {
                    s.r.cc
                },
                s: offset(s.r.s, part(on, seq![v]).len() as int),
                ..s.r
            },
        ),
        stands(s.m, s.pull_cc(on).r.s, rest),
{
    reveal(Mach::pull_cc);
    if on {
        lemma_pull8(s, v, rest);
    } else {
        assert(part(on, seq![v]) + rest =~= rest);
        assert(offset(s.r.s, 0) == s.r.s);
    }
}

proof fn lemma_pull_a(s: Mach<Memory>, on: bool, v: u8, rest: Seq<u8>)
    requires
        stands(s.m, s.r.s, part(on, seq![v]) + rest),
        rest.len() < 16,
    ensures
        s.pull_a(on) == s.regs(
            Registers {
                a: if on {
                    v
                } else {
                    s.r.a
                },
                s: offset(s.r.s, part(on, seq![v]).len() as int),
                ..s.r
            },
        ),
        stands(s.m, s.pull_a(on).r.s, rest),
{
    reveal(Mach::pull_a);
    if on {
        lemma_pull8(s, v, rest);
    } else {
        assert(part(on, seq![v]) + rest =~= rest);
        assert(offset(s.r.s, 0) == s.r.s);
    }
}

proof fn lemma_pull_b(s: Mach<Memory>, on: bool, v: u8, rest: Seq<u8>)
    requires
        stands(s.m, s.r.s, part(on, seq![v]) + rest),
        rest.len() < 16,
    ensures
        s.pull_b(on) == s.regs(
            Registers {
                b: if on {
                    v
                } else {
                    s.r.b
                },
                s: offset(s.r.s, part(on, seq![v]).len() as int),
                ..s.r
            },
        ),
        stands(s.m, s.pull_b(on).r.s, rest),
{
    reveal(Mach::pull_b);
    if on {
        lemma_pull8(s, v, rest);
    } else {
        assert(part(on, seq![v]) + rest =~= rest);
        assert(offset(s.r.s, 0) == s.r.s);
    }
}

proof fn lemma_pull_dp(s: Mach<Memory>, on: bool, v: u8, rest: Seq<u8>)
    requires
        stands(s.m, s.r.s, part(on, seq![v]) + rest),
        rest.len() < 16,
    ensures
        s.pull_dp(on) == s.regs(
            Registers {
                dp: if on {
                    v
                } else {
                    s.r.dp
                },
                s: offset(s.r.s, part(on, seq![v]).len() as int),
                ..s.r
            },
        ),
        stands(s.m, s.pull_dp(on).r.s, rest),
{
    reveal(Mach::pull_dp);
    if on {
        lemma_pull8(s, v, rest);
    } else {
        assert(part(on, seq![v]) + rest =~= rest);
        assert(offset(s.r.s, 0) == s.r.s);
    }
}

proof fn lemma_pull_x(s: Mach<Memory>, on: bool, v: u16, rest: Seq<u8>)
    requires
        stands(s.m, s.r.s, part(on, bytes16(v)) + rest),
        rest.len() < 16,
    ensures
        s.pull_x(on) == s.regs(
            Registers {
                x: if on {
                    v
                } else {
                    s.r.x
                },
                s: offset(s.r.s, part(on, bytes16(v)).len() as int),
                ..s.r
            },
        ),
        stands(s.m, s.pull_x(on).r.s, rest),
{
    reveal(Mach::pull_x);
    if on {
        lemma_pull16(s, v, rest);
    } else {
        assert(part(on, bytes16(v)) + rest =~= rest);
        assert(offset(s.r.s, 0) == s.r.s);
    }
}

proof fn lemma_pull_y(s: Mach<Memory>, on: bool, v: u16, rest: Seq<u8>)
    requires
        stands(s.m, s.r.s, part(on, bytes16(v)) + rest),
        rest.len() < 16,
    ensures
        s.pull_y(on) == s.regs(
            Registers {
                y: if on {
                    v
                } else {
                    s.r.y
                },
                s: offset(s.r.s, part(on, bytes16(v)).len() as int),
                ..s.r
            },
        ),
        stands(s.m, s.pull_y(on).r.s, rest),
{
    reveal(Mach::pull_y);
    if on {
        lemma_pull16(s, v, rest);
    } else {
        assert(part(on, bytes16(v)) + rest =~= rest);
        assert(offset(s.r.s, 0) == s.r.s);
    }
}

proof fn lemma_pull_u(s: Mach<Memory>, on: bool, v: u16, rest: Seq<u8>)
    requires
        stands(s.m, s.r.s, part(on, bytes16(v)) + rest),
        rest.len() < 16,
    ensures
        s.pull_u(on) == s.regs(
            Registers {
                u: if on {
                    v
                } else {
                    s.r.u
                },
                s: offset(s.r.s, part(on, bytes16(v)).len() as int),
                ..s.r
            },
        ),
        stands(s.m, s.pull_u(on).r.s, rest),
{
    reveal(Mach::pull_u);
    if on {
        lemma_pull16(s, v, rest);
    } else {
        assert(part(on, bytes16(v)) + rest =~= rest);
        assert(offset(s.r.s, 0) == s.r.s);
    }
}

proof fn lemma_pull_pc(s: Mach<Memory>, on: bool, v: u16, rest: Seq<u8>)
    requires
        stands(s.m, s.r.s, part(on, bytes16(v)) + rest),
        rest.len() < 16,
    ensures
        s.pull_pc(on) == s.regs(
            Registers {
                pc: if on {
                    v
                } else {
                    s.r.pc
                },
                s: offset(s.r.s, part(on, bytes16(v)).len() as int),
                ..s.r
            },
        ),
        stands(s.m, s.pull_pc(on).r.s, rest),
{
    reveal(Mach::pull_pc);
    if on {
        lemma_pull16(s, v, rest);
    } else {
        assert(part(on, bytes16(v)) + rest =~= rest);
        assert(offset(s.r.s, 0) == s.r.s);
    }
}

/// The registers of `r` with those of a list taken from `v`.
pub open spec fn merged(r: Registers, pb: u8, v: Registers) -> Registers {
    Registers {
        cc: if flag(pb, 0x01) {
            v.cc
        } else {
            r.cc
        },
        a: if flag(pb, 0x02) {
            v.a
        } else {
            r.a
        },
        b: if flag(pb, 0x04) {
            v.b
        } else {
            r.b
        },
        dp: if flag(pb, 0x08) {
            v.dp
        } else {
            r.dp
        },
        x: if flag(pb, 0x10) {
            v.x
        } else {
            r.x
        },
        y: if flag(pb, 0x20) {
            v.y
        } else {
            r.y
        },
        u: if flag(pb, 0x40) {
            v.u
        } else {
            r.u
        },
        pc: if flag(pb, 0x80) {
            v.pc
        } else {
            r.pc
        },
        s: r.s,
    }
}

proof fn lemma_offset_add(a: u16, i: int, j: int)
    requires
        0 <= i < 32,
        0 <= j < 32,
    ensures
        offset(offset(a, i), j) == offset(a, i + j),
{
}

proof fn lemma_pull_bytes(s: Mach<Memory>, pb: u8, v: Registers, rest: Seq<u8>)
    requires
        rest.len() <= 8,
        stands(
            s.m,
            s.r.s,
            part(flag(pb, 0x01), seq![v.cc]) + (part(flag(pb, 0x02), seq![v.a]) + (part(
                flag(pb, 0x04),
                seq![v.b],
            ) + (part(flag(pb, 0x08), seq![v.dp]) + rest))),
        ),
    ensures
        ({
            let n = part(flag(pb, 0x01), seq![v.cc]).len() + part(
                flag(pb, 0x02),
                seq![v.a],
            ).len() + part(flag(pb, 0x04), seq![v.b]).len() + part(
                flag(pb, 0x08),
                seq![v.dp],
            ).len();
            let t = s.pull_cc(flag(pb, 0x01)).pull_a(flag(pb, 0x02)).pull_b(
                flag(pb, 0x04),
            ).pull_dp(flag(pb, 0x08));
            &&& t == s.regs(
                Registers {
                    s: offset(s.r.s, n as int),
                    x: s.r.x,
                    y: s.r.y,
                    u: s.r.u,
                    pc: s.r.pc,
                    ..merged(s.r, pb, v)
                },
            )
            &&& stands(s.m, t.r.s, rest)
        }),
{
    let b4 = part(flag(pb, 0x08), seq![v.dp]) + rest;
    let b3 = part(flag(pb, 0x04), seq![v.b]) + b4;
    let b2 = part(flag(pb, 0x02), seq![v.a]) + b3;
    let n1 = part(flag(pb, 0x01), seq![v.cc]).len();
    let n2 = part(flag(pb, 0x02), seq![v.a]).len();
    let n3 = part(flag(pb, 0x04), seq![v.b]).len();
    let n4 = part(flag(pb, 0x08), seq![v.dp]).len();
    let s1 = s.pull_cc(flag(pb, 0x01));
    lemma_pull_cc(s, flag(pb, 0x01), v.cc, b2);
    let s2 = s1.pull_a(flag(pb, 0x02));
    lemma_pull_a(s1, flag(pb, 0x02), v.a, b3);
    lemma_offset_add(s.r.s, n1 as int, n2 as int);
    let s3 = s2.pull_b(flag(pb, 0x04));
    lemma_pull_b(s2, flag(pb, 0x04), v.b, b4);
    lemma_offset_add(s.r.s, (n1 + n2) as int, n3 as int);
    lemma_pull_dp(s3, flag(pb, 0x08), v.dp, rest);
    lemma_offset_add(s.r.s, (n1 + n2 + n3) as int, n4 as int);
}

proof fn lemma_pull_words(s: Mach<Memory>, pb: u8, v: Registers)
    requires
        stands(
            s.m,
            s.r.s,
            part(flag(pb, 0x10), bytes16(v.x)) + (part(flag(pb, 0x20), bytes16(v.y)) + (part(
                flag(pb, 0x40),
                bytes16(v.u),
            ) + part(flag(pb, 0x80), bytes16(v.pc)))),
        ),
    ensures
        ({
            let n = part(flag(pb, 0x10), bytes16(v.x)).len() + part(
                flag(pb, 0x20),
                bytes16(v.y),
            ).len() + part(flag(pb, 0x40), bytes16(v.u)).len() + part(
                flag(pb, 0x80),
                bytes16(v.pc),
            ).len();
            s.pull_x(flag(pb, 0x10)).pull_y(flag(pb, 0x20)).pull_u(flag(pb, 0x40)).pull_pc(
                flag(pb, 0x80),
            ) == s.regs(
                Registers {
                    cc: s.r.cc,
                    a: s.r.a,
                    b: s.r.b,
                    dp: s.r.dp,
                    s: offset(s.r.s, n as int),
                    ..merged(s.r, pb, v)
                },
            )
        }),
{
    let b8 = part(flag(pb, 0x80), bytes16(v.pc));
    let b7 = part(flag(pb, 0x40), bytes16(v.u)) + b8;
    let b6 = part(flag(pb, 0x20), bytes16(v.y)) + b7;
    let n1 = part(flag(pb, 0x10), bytes16(v.x)).len();
    let n2 = part(flag(pb, 0x20), bytes16(v.y)).len();
    let n3 = part(flag(pb, 0x40), bytes16(v.u)).len();
    let n4 = part(flag(pb, 0x80), bytes16(v.pc)).len();
    let s5 = s.pull_x(flag(pb, 0x10));
    lemma_pull_x(s, flag(pb, 0x10), v.x, b6);
    let s6 = s5.pull_y(flag(pb, 0x20));
    lemma_pull_y(s5, flag(pb, 0x20), v.y, b7);
    lemma_offset_add(s.r.s, n1 as int, n2 as int);
    let s7 = s6.pull_u(flag(pb, 0x40));
    lemma_pull_u(s6, flag(pb, 0x40), v.u, b8);
    lemma_offset_add(s.r.s, (n1 + n2) as int, n3 as int);
    assert(b8 + Seq::<u8>::empty() =~= b8);
    lemma_pull_pc(s7, flag(pb, 0x80), v.pc, Seq::empty());
    lemma_offset_add(s.r.s, (n1 + n2 + n3) as int, n4 as int);
}

/// The number of bytes that CC, A, B and DP take in a list.
pub open spec fn byte_part(pb: u8, v: Registers) -> nat {
    part(flag(pb, 0x01), seq![v.cc]).len() + part(flag(pb, 0x02), seq![v.a]).len() + part(
        flag(pb, 0x04),
        seq![v.b],
    ).len() + part(flag(pb, 0x08), seq![v.dp]).len()
}

/// The number of bytes that X, Y, U and PC take in a list.
pub open spec fn word_part(pb: u8, v: Registers) -> nat {
    part(flag(pb, 0x10), bytes16(v.x)).len() + part(flag(pb, 0x20), bytes16(v.y)).len() + part(
        flag(pb, 0x40),
        bytes16(v.u),
    ).len() + part(flag(pb, 0x80), bytes16(v.pc)).len()
}

proof fn lemma_pull_all(s: Mach<Memory>, pb: u8, v: Registers)
    requires
        stands(s.m, s.r.s, list_image(pb, v)),
    ensures
        s.pull_cc(flag(pb, 0x01)).pull_a(flag(pb, 0x02)).pull_b(flag(pb, 0x04)).pull_dp(
            flag(pb, 0x08),
        ).pull_x(flag(pb, 0x10)).pull_y(flag(pb, 0x20)).pull_u(flag(pb, 0x40)).pull_pc(
            flag(pb, 0x80),
        ) == s.regs(
            Registers {
                s: offset(offset(s.r.s, byte_part(pb, v) as int), word_part(pb, v) as int),
                ..merged(s.r, pb, v)
            },
        ),
{
    let words = part(flag(pb, 0x10), bytes16(v.x)) + (part(flag(pb, 0x20), bytes16(v.y)) + (part(
        flag(pb, 0x40),
        bytes16(v.u),
    ) + part(flag(pb, 0x80), bytes16(v.pc))));
    lemma_pull_bytes(s, pb, v, words);
    let t = s.pull_cc(flag(pb, 0x01)).pull_a(flag(pb, 0x02)).pull_b(flag(pb, 0x04)).pull_dp(
        flag(pb, 0x08),
    );
    lemma_pull_words(t, pb, v);
}

/// PULS takes the listed registers from S and leaves S behind them. A list with
/// PC goes back through the frames.
pub proof fn law_pull_list(s: Mach<Memory>, pb: u8, v: Registers)
    requires
        stands(s.m, s.r.s, list_image(pb, v)),
    ensures
        ({
            let sp = offset(s.r.s, list_image(pb, v).len() as int);
            s.pull_list(pb) == (Mach {
                r: Registers { s: sp, ..merged(s.r, pb, v) },
                frames: if flag(pb, 0x80) {
                    frames_after_return(s.frames, sp)
                } else {
                    s.frames
                },
                ..s
            })
        }),
{
    lemma_pull_all(s, pb, v);
    lemma_list_len(pb, v);
    lemma_offset_add(s.r.s, byte_part(pb, v) as int, word_part(pb, v) as int);
}

proof fn lemma_list_len(pb: u8, v: Registers)
    ensures
        list_image(pb, v).len() == byte_part(pb, v) + word_part(pb, v),
        byte_part(pb, v) <= 4,
        word_part(pb, v) <= 8,
{
}

/// PSHS followed by PULS of the same list restores every register.
pub proof fn law_push_then_pull(s: Mach<Memory>, pb: u8)
    requires
        s.m.len() == 65536,
    ensures
        s.push_list(pb).pull_list(pb).r == s.r,
        !flag(pb, 0x80) ==> s.push_list(pb).pull_list(pb).frames == s.frames,
{
    law_push_list(s, pb);
    reveal(stacked);
    law_pull_list(s.push_list(pb), pb, s.r);
}

proof fn lemma_full_list()
    ensures
        forall|bit: u8| bit != 0 ==> #[trigger] flag(0xFF, bit),
{
    assert forall|bit: u8| bit != 0 implies #[trigger] flag(0xFF, bit) by {
        assert(0xFFu8 & bit == bit) by (bit_vector);
    }
}

/// Stacking everything is a push of the full list.
pub proof fn lemma_entire_stacked(s: Mach<Memory>)
    requires
        s.m.len() == 65536,
    ensures
        stacked(s, s.push_entire(), list_image(0xFF, s.r)),
        list_image(0xFF, s.r).len() == 12,
{
    lemma_full_list();
    assert(s.push_entire() == s.push_list(0xFF));
    law_push_list(s, 0xFF);
}

/// What an interrupt that stacks everything leaves on the stack.
proof fn lemma_interrupt_stacked(s: Mach<Memory>, vector: u16, site: u16, kind: CallKind)
    requires
        s.m.len() == 65536,
    ensures
        ({
            let v = Registers { cc: s.r.cc | 0x80, ..s.r };
            let i = s.interrupted(vector, site, kind);
            &&& stands(i.m, i.r.s, list_image(0xFF, v))
            &&& offset(i.r.s, 12) == s.r.s
            &&& kept_above(s, i, 12)
        }),
{
    lemma_full_list();
    let e = s.cc(s.r.cc | 0x80);
    let t = e.push_entire();
    assert(t == e.push_list(0xFF));
    law_push_list(e, 0xFF);
    assert(list_image(0xFF, e.r).len() == 12);
    reveal(stacked);
}

/// An interrupt that stacks everything, then RTI: every register is back, with
/// E set in CC; the frame that was recorded is gone, and of memory only the
/// twelve bytes below S have changed.
pub proof fn law_interrupt_then_rti(s: Mach<Memory>, vector: u16, site: u16, kind: CallKind)
    requires
        s.m.len() == 65536,
        kind is Swi || kind is Irq || kind is Nmi,
    ensures
        ({
            let u = s.interrupted(vector, site, kind).rti().2;
            &&& u.r == (Registers { cc: s.r.cc | 0x80, ..s.r })
            &&& u.frames == s.frames
            &&& kept_above(s, u, 12)
        }),
{
    let v = Registers { cc: s.r.cc | 0x80, ..s.r };
    let i = s.interrupted(vector, site, kind);
    lemma_interrupt_stacked(s, vector, site, kind);
    let cc = s.r.cc;
    assert((cc | 0x80) & 0x80 != 0) by (bit_vector);
    lemma_rti_entire(i, v);
    lemma_offset_add(i.r.s, 4, 8);
    assert(frames_after_rti(i.frames) == s.frames) by {
        assert(i.frames.drop_last() =~= s.frames);
        assert(is_interrupt(i.frames.last()));
    }
}

proof fn lemma_rti_entire(s: Mach<Memory>, v: Registers)
    requires
        stands(s.m, s.r.s, list_image(0xFF, v)),
        flag(v.cc, E),
    ensures
        s.rti().2 == (Mach {
            r: Registers { s: offset(offset(s.r.s, 4), 8), ..v },
            frames: frames_after_rti(s.frames),
            ..s
        }),
{
    lemma_full_list();
    reveal(Mach::rti);
    lemma_pull_all(s, 0xFF, v);
    let words = bytes16(v.x) + (bytes16(v.y) + (bytes16(v.u) + bytes16(v.pc)));
    lemma_pull_cc(s, true, v.cc, seq![v.a] + (seq![v.b] + (seq![v.dp] + words)));
}

/// A call, then RTS: every register is back, PC behind the call, and the frame
/// is gone.
pub proof fn law_call_then_rts(s: Mach<Memory>, site: u16, target: u16, kind: CallKind)
    requires
        s.m.len() == 65536,
    ensures
        s.call(site, target, kind).rts().2.r == s.r,
        s.call(site, target, kind).rts().2.frames == s.frames,
        s.call(site, target, kind).frames.last().return_addr == s.r.pc,
{
    reveal(Mach::rts);
    let c = s.call(site, target, kind);
    assert(stands(s.m, s.r.s, Seq::empty())) by {
        reveal(stands);
    }
    lemma_push16(s, s.r.pc, Seq::empty());
    lemma_pull16(c, s.r.pc, Seq::empty());
    let f = c.frames.last();
    assert(c.frames.drop_last() =~= s.frames);
    assert(offset(offset(s.r.s, -2), 2) == s.r.s);
    assert(returns_through(f, s.r.s));
}

proof fn lemma_pull_none(s: Mach<Memory>)
    ensures
        s.pull_a(false) == s,
        s.pull_b(false) == s,
        s.pull_dp(false) == s,
        s.pull_x(false) == s,
        s.pull_y(false) == s,
        s.pull_u(false) == s,
{
    reveal(Mach::pull_a);
    reveal(Mach::pull_b);
    reveal(Mach::pull_dp);
    reveal(Mach::pull_x);
    reveal(Mach::pull_y);
    reveal(Mach::pull_u);
}

/// FIRQ with E clear, then RTI: every register is back, and the frame that was
/// recorded is gone. (With E set the short frame would be taken for a long
/// one.)
pub proof fn law_firq_then_rti(s: Mach<Memory>)
    requires
        s.m.len() == 65536,
        !flag(s.r.cc, E),
    ensures
        s.service_firq().rti().2.r == s.r,
        s.service_firq().rti().2.frames == s.frames,
{
    reveal(Mach::rti);
    reveal(Mach::service_firq);
    assert(stands(s.m, s.r.s, Seq::empty())) by {
        reveal(stands);
    }
    lemma_push16(s, s.r.pc, Seq::empty());
    let t = s.push16(s.r.pc);
    let b = bytes16(s.r.pc);
    assert(b + Seq::<u8>::empty() =~= b);
    lemma_push8(t, s.r.cc, b);
    let i = s.service_firq();
    assert(part(true, seq![s.r.cc]) + b =~= seq![s.r.cc] + b);
    lemma_pull_cc(i, true, s.r.cc, b);
    let c = i.pull_cc(true);
    lemma_pull_none(c);
    let e = Seq::<u8>::empty();
    assert(part(true, b) + e =~= b);
    lemma_pull_pc(c, true, s.r.pc, e);
    assert(offset(offset(offset(offset(s.r.s, -2), -1), 1), 2) == s.r.s);
    assert(i.frames.drop_last() =~= s.frames);
    assert(is_interrupt(i.frames.last()));
}

/// The machine with S and U exchanged.
pub open spec fn turned(s: Mach<Memory>) -> Mach<Memory> {
    s.regs(Registers { s: s.r.u, u: s.r.s, ..s.r })
}

proof fn lemma_turn8(s: Mach<Memory>, on: bool, v: u8)
    ensures
        s.upush8_if(on, v) == turned(turned(s).push8_if(on, v)),
{
}

proof fn lemma_turn16(s: Mach<Memory>, on: bool, v: u16)
    ensures
        s.upush16_if(on, v) == turned(turned(s).push16_if(on, v)),
{
}

proof fn lemma_turned_push(s: Mach<Memory>, pb: u8)
    ensures
        s.upush_list(pb) == turned(turned(s).push_list(pb)),
{
    let r = s.r;
    let t = turned(s);
    let s1 = s.upush16_if(flag(pb, 0x80), r.pc);
    lemma_turn16(s, flag(pb, 0x80), r.pc);
    let s2 = s1.upush16_if(flag(pb, 0x40), r.s);
    lemma_turn16(s1, flag(pb, 0x40), r.s);
    let s3 = s2.upush16_if(flag(pb, 0x20), r.y);
    lemma_turn16(s2, flag(pb, 0x20), r.y);
    let s4 = s3.upush16_if(flag(pb, 0x10), r.x);
    lemma_turn16(s3, flag(pb, 0x10), r.x);
    let s5 = s4.upush8_if(flag(pb, 0x08), r.dp);
    lemma_turn8(s4, flag(pb, 0x08), r.dp);
    let s6 = s5.upush8_if(flag(pb, 0x04), r.b);
    lemma_turn8(s5, flag(pb, 0x04), r.b);
    let s7 = s6.upush8_if(flag(pb, 0x02), r.a);
    lemma_turn8(s6, flag(pb, 0x02), r.a);
    lemma_turn8(s7, flag(pb, 0x01), r.cc);
}

proof fn lemma_turned_pulls(s: Mach<Memory>, on: bool)
    ensures
        s.upull_byte(on, 0xA) == turned(turned(s).pull_cc(on)),
        s.upull_byte(on, 0x8) == turned(turned(s).pull_a(on)),
        s.upull_byte(on, 0x9) == turned(turned(s).pull_b(on)),
        s.upull_byte(on, 0xB) == turned(turned(s).pull_dp(on)),
{
    reveal(Mach::pull_cc);
    reveal(Mach::pull_a);
    reveal(Mach::pull_b);
    reveal(Mach::pull_dp);
}

proof fn lemma_turned_word_pulls(s: Mach<Memory>, on: bool)
    ensures
        s.upull_word(on, 0x1) == turned(turned(s).pull_x(on)),
        s.upull_word(on, 0x2) == turned(turned(s).pull_y(on)),
        s.upull_word(on, 0x4) == turned(turned(s).pull_u(on)),
        s.upull_word(on, 0x5) == turned(turned(s).pull_pc(on)),
{
    reveal(Mach::pull_x);
    reveal(Mach::pull_y);
    reveal(Mach::pull_u);
    reveal(Mach::pull_pc);
}

proof fn lemma_turned_twice(s: Mach<Memory>)
    ensures
        turned(turned(s)) == s,
{
}

proof fn lemma_turned_pull(s: Mach<Memory>, pb: u8)
    ensures
        s.upull_list(pb) == turned(
            turned(s).pull_cc(flag(pb, 0x01)).pull_a(flag(pb, 0x02)).pull_b(
                flag(pb, 0x04),
            ).pull_dp(flag(pb, 0x08)).pull_x(flag(pb, 0x10)).pull_y(flag(pb, 0x20)).pull_u(
                flag(pb, 0x40),
            ).pull_pc(flag(pb, 0x80)),
        ),
{
    let s1 = s.upull_byte(flag(pb, 0x01), 0xA);
    lemma_turned_pulls(s, flag(pb, 0x01));
    lemma_turned_twice(turned(s).pull_cc(flag(pb, 0x01)));
    let s2 = s1.upull_byte(flag(pb, 0x02), 0x8);
    lemma_turned_pulls(s1, flag(pb, 0x02));
    lemma_turned_twice(turned(s1).pull_a(flag(pb, 0x02)));
    let s3 = s2.upull_byte(flag(pb, 0x04), 0x9);
    lemma_turned_pulls(s2, flag(pb, 0x04));
    lemma_turned_twice(turned(s2).pull_b(flag(pb, 0x04)));
    let s4 = s3.upull_byte(flag(pb, 0x08), 0xB);
    lemma_turned_pulls(s3, flag(pb, 0x08));
    lemma_turned_twice(turned(s3).pull_dp(flag(pb, 0x08)));
    let s5 = s4.upull_word(flag(pb, 0x10), 0x1);
    lemma_turned_word_pulls(s4, flag(pb, 0x10));
    lemma_turned_twice(turned(s4).pull_x(flag(pb, 0x10)));
    let s6 = s5.upull_word(flag(pb, 0x20), 0x2);
    lemma_turned_word_pulls(s5, flag(pb, 0x20));
    lemma_turned_twice(turned(s5).pull_y(flag(pb, 0x20)));
    let s7 = s6.upull_word(flag(pb, 0x40), 0x4);
    lemma_turned_word_pulls(s6, flag(pb, 0x40));
    lemma_turned_twice(turned(s6).pull_u(flag(pb, 0x40)));
    lemma_turned_word_pulls(s7, flag(pb, 0x80));
    lemma_turned_twice(turned(s7).pull_pc(flag(pb, 0x80)));
}

/// PSHU followed by PULU of the same list restores every register.
pub proof fn law_upush_then_upull(s: Mach<Memory>, pb: u8)
    requires
        s.m.len() == 65536,
    ensures
        s.upush_list(pb).upull_list(pb).r == s.r,
        s.upush_list(pb).upull_list(pb).frames == s.frames,
{
    let t = turned(s);
    let p = t.push_list(pb);
    lemma_turned_push(s, pb);
    lemma_turned_pull(s.upush_list(pb), pb);
    lemma_turned_twice(p);
    law_push_list(t, pb);
    reveal(stacked);
    lemma_pull_all(p, pb, t.r);
    lemma_list_len(pb, t.r);
    lemma_offset_add(p.r.s, byte_part(pb, t.r) as int, word_part(pb, t.r) as int);
}

/// Registers that differ from `r` in S and PC alone are `r` but for S once a
/// list with PC has been taken from `r`.
proof fn lemma_merged_with_pc(t: Registers, pb: u8, r: Registers)
    requires
        !flag(pb, 0x80),
        t == (Registers { s: t.s, pc: t.pc, ..r }),
    ensures
        merged(t, pb | 0x80, r) == (Registers { s: t.s, ..r }),
{
    lemma_list_flags(pb);
}

proof fn lemma_last_frame_left(frames: Seq<CallFrame>, sp: u16)
    requires
        frames.len() > 0,
        returns_through(frames.last(), sp),
    ensures
        frames_after_return(frames, sp) == frames.drop_last(),
{
}

/// A pull of a list with PC, on a stack that holds the saved list and the
/// return address behind it.
proof fn lemma_saved_return(s: Mach<Memory>, c: Mach<Memory>, t: Mach<Memory>, pb: u8)
    requires
        !flag(pb, 0x80),
        c.r == (Registers { s: offset(s.r.s, -2), pc: c.r.pc, ..s.r }),
        c.frames.len() > 0,
        c.frames.drop_last() == s.frames,
        returns_through(c.frames.last(), s.r.s),
        stacked(c, t, list_image(pb, c.r)),
        stands(c.m, c.r.s, bytes16(s.r.pc)),
    ensures
        t.pull_list(pb | 0x80).r == s.r,
        t.pull_list(pb | 0x80).frames == s.frames,
{
    let image = list_image(pb, c.r);
    lemma_stands_deeper(c, t, image, bytes16(s.r.pc));
    lemma_image_with_pc(pb, c.r, s.r);
    law_pull_list(t, pb | 0x80, s.r);
    lemma_list_flags(pb);
    lemma_list_len(pb, c.r);
    assert(offset(t.r.s, image.len() as int + 2) == s.r.s) by {
        reveal(stacked);
        lemma_offset_add(t.r.s, image.len() as int, 2);
        assert(offset(offset(s.r.s, -2), 2) == s.r.s);
    }
    assert(t.frames == c.frames && t.r == (Registers { s: t.r.s, ..c.r })) by {
        reveal(stacked);
    }
    lemma_merged_with_pc(t.r, pb, s.r);
    lemma_last_frame_left(c.frames, s.r.s);
}

/// A callee that saves registers by PSHS and returns by PULS of the same list
/// with PC: every register is back, PC behind the call, and the frame is gone.
pub proof fn law_puls_pc_returns(
    s: Mach<Memory>,
    site: u16,
    target: u16,
    kind: CallKind,
    pb: u8,
)
    requires
        s.m.len() == 65536,
        !flag(pb, 0x80),
    ensures
        ({
            let u = s.call(site, target, kind).push_list(pb).pull_list(pb | 0x80);
            u.r == s.r && u.frames == s.frames
        }),
{
    let c = s.call(site, target, kind);
    lemma_call_stack(s, site, target, kind);
    lemma_call_frame(s, site, target, kind);
    law_push_list(c, pb);
    lemma_saved_return(s, c, c.push_list(pb), pb);
}

proof fn lemma_call_frame(s: Mach<Memory>, site: u16, target: u16, kind: CallKind)
    ensures
        ({
            let c = s.call(site, target, kind);
            &&& c.frames.len() > 0
            &&& c.frames.drop_last() == s.frames
            &&& returns_through(c.frames.last(), s.r.s)
        }),
{
    let c = s.call(site, target, kind);
    assert(offset(offset(s.r.s, -2), 2) == s.r.s);
    assert(c.frames.drop_last() =~= s.frames);
}

proof fn lemma_call_stack(s: Mach<Memory>, site: u16, target: u16, kind: CallKind)
    requires
        s.m.len() == 65536,
    ensures
        ({
            let c = s.call(site, target, kind);
            &&& c.m.len() == 65536
            &&& c.r == (Registers { s: offset(s.r.s, -2), pc: target, ..s.r })
            &&& stands(c.m, c.r.s, bytes16(s.r.pc))
        }),
{
    assert(stands(s.m, s.r.s, Seq::empty())) by {
        reveal(stands);
    }
    lemma_push16(s, s.r.pc, Seq::empty());
    assert(bytes16(s.r.pc) + Seq::<u8>::empty() =~= bytes16(s.r.pc));
}

proof fn lemma_image_with_pc(pb: u8, c: Registers, r: Registers)
    requires
        !flag(pb, 0x80),
        c == (Registers { s: c.s, pc: c.pc, ..r }),
    ensures
        list_image(pb | 0x80, r) == list_image(pb, c) + bytes16(r.pc),
{
    lemma_list_flags(pb);
    let p = bytes16(r.pc);
    let e = part(flag(pb, 0x80), bytes16(c.pc));
    let u = part(flag(pb, 0x40), bytes16(r.u));
    let y = part(flag(pb, 0x20), bytes16(r.y));
    let x = part(flag(pb, 0x10), bytes16(r.x));
    let d = part(flag(pb, 0x08), seq![r.dp]);
    let b = part(flag(pb, 0x04), seq![r.b]);
    let a = part(flag(pb, 0x02), seq![r.a]);
    let k = part(flag(pb, 0x01), seq![r.cc]);
    assert(e + p =~= p);
    lemma_regroup(u, e, p);
    lemma_regroup(y, u + e, p);
    lemma_regroup(x, y + (u + e), p);
    lemma_regroup(d, x + (y + (u + e)), p);
    lemma_regroup(b, d + (x + (y + (u + e))), p);
    lemma_regroup(a, b + (d + (x + (y + (u + e)))), p);
    lemma_regroup(k, a + (b + (d + (x + (y + (u + e))))), p);
}

proof fn lemma_regroup(a: Seq<u8>, b: Seq<u8>, c: Seq<u8>)
    ensures
        a + (b + c) == (a + b) + c,
{
    assert(a + (b + c) =~= (a + b) + c);
}

proof fn lemma_list_flags(pb: u8)
    requires
        !flag(pb, 0x80),
    ensures
        flag(pb | 0x80, 0x80),
        flag(pb | 0x80, 0x01) == flag(pb, 0x01),
        flag(pb | 0x80, 0x02) == flag(pb, 0x02),
        flag(pb | 0x80, 0x04) == flag(pb, 0x04),
        flag(pb | 0x80, 0x08) == flag(pb, 0x08),
        flag(pb | 0x80, 0x10) == flag(pb, 0x10),
        flag(pb | 0x80, 0x20) == flag(pb, 0x20),
        flag(pb | 0x80, 0x40) == flag(pb, 0x40),
{
    assert((pb | 0x80) & 0x80 != 0 && (pb | 0x80) & 0x01 == pb & 0x01 && (pb | 0x80) & 0x02 == pb
        & 0x02 && (pb | 0x80) & 0x04 == pb & 0x04 && (pb | 0x80) & 0x08 == pb & 0x08 && (pb | 0x80)
        & 0x10 == pb & 0x10 && (pb | 0x80) & 0x20 == pb & 0x20 && (pb | 0x80) & 0x40 == pb & 0x40)
        by (bit_vector);
}

/// What stood on the stack before still stands behind what was put on it.
proof fn lemma_stands_deeper(s: Mach<Memory>, t: Mach<Memory>, bytes: Seq<u8>, deep: Seq<u8>)
    requires
        stacked(s, t, bytes),
        stands(s.m, s.r.s, deep),
        deep.len() < 16,
    ensures
        stands(t.m, t.r.s, bytes + deep),
{
    reveal(stacked);
    reveal(stands);
    let all = bytes + deep;
    assert forall|i: int| 0 <= i < all.len() implies t.m[#[trigger] offset(t.r.s, i) as int]
        == all[i] by {
        if i >= bytes.len() {
            let k = i - bytes.len();
            assert(offset(s.r.s, k) == offset(t.r.s, i));
            let a = offset(s.r.s, k);
            assert(offset(s.r.s, -1 - a) >= bytes.len());
            assert(t.m[a as int] == s.m[a as int]);
            assert(all[i] == deep[k]);
        }
    }
}

} // verus!
