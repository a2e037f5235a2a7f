//! Breakpoints, the shadow call stack and instruction starts.

use crate::bus::{Bus, Memory};
use crate::cpu::machine::Mach;
use crate::cpu::{
    calls_at, checked, run_until, stepped_out, stepped_over, Registers, StepStop,
};
use crate::debug::cond::{holds, CondErrorView};
use crate::debug::{
    condition_passes, count_below, find_id, listing_start, first_stop, frames_after_return, frames_after_rti, is_interrupt, passed,
    return_frame, returns_through, rti_frame, stops, swept, Breakpoint, BreakpointId, CallFrame,
};
use crate::disasm::{disassembled, walked, window};
use crate::sorted::ascending;
use crate::text::trimmed;
use vstd::prelude::*;

verus! {

/// Whether no two breakpoints share an id and every id was given out before
/// `next`.
pub open spec fn ids_apart(bps: Seq<Breakpoint>, next: u32) -> bool {
    &&& forall|i: int| 0 <= i < bps.len() ==> (#[trigger] bps[i]).id.0 < next
    &&& forall|i: int, j: int| 0 <= i < j < bps.len() ==> (#[trigger] bps[i]).id != (
    #[trigger] bps[j]).id
}

/// A breakpoint that is added gets an id that no other has, until the ids are
/// used up.
pub proof fn law_breakpoint_id_fresh(bps: Seq<Breakpoint>, next: u32, b: Breakpoint)
    requires
        ids_apart(bps, next),
        next < u32::MAX,
        b.id == BreakpointId(next),
    ensures
        ids_apart(bps.push(b), (next + 1) as u32),
        forall|i: int| 0 <= i < bps.len() ==> (#[trigger] bps[i]).id != b.id,
{
}

/// Removing a breakpoint keeps the others apart, and its id stays used: the
/// next breakpoint gets another one.
pub proof fn law_breakpoint_id_not_reused(bps: Seq<Breakpoint>, next: u32, i: int)
    requires
        ids_apart(bps, next),
        0 <= i < bps.len(),
    ensures
        ids_apart(bps.remove(i), next),
        bps[i].id != BreakpointId(next),
        find_id(bps.remove(i), bps[i].id, 0) == bps.len() - 1,
{
    let rest = bps.remove(i);
    assert forall|k: int| 0 <= k < rest.len() implies (#[trigger] rest[k]).id != bps[i].id by {
        if k < i {
            assert(rest[k] == bps[k]);
        } else {
            assert(rest[k] == bps[k + 1]);
        }
    }
    lemma_find_none(rest, bps[i].id, 0);
}

proof fn lemma_find_none(bps: Seq<Breakpoint>, id: BreakpointId, from: int)
    requires
        0 <= from <= bps.len(),
        forall|k: int| 0 <= k < bps.len() ==> (#[trigger] bps[k]).id != id,
    ensures
        find_id(bps, id, from) == bps.len(),
    decreases bps.len() - from,
{
    if from < bps.len() {
        lemma_find_none(bps, id, from + 1);
    }
}

proof fn lemma_find(bps: Seq<Breakpoint>, next: u32, i: int, from: int)
    requires
        ids_apart(bps, next),
        0 <= from <= i < bps.len(),
    ensures
        find_id(bps, bps[i].id, from) == i,
    decreases i - from,
{
    if from < i {
        lemma_find(bps, next, i, from + 1);
    }
}

/// While ids are apart, each breakpoint is found under its own.
pub proof fn law_breakpoint_found(bps: Seq<Breakpoint>, next: u32, i: int)
    requires
        ids_apart(bps, next),
        0 <= i < bps.len(),
    ensures
        find_id(bps, bps[i].id, 0) == i,
{
    lemma_find(bps, next, i, 0);
}

/// A passage changes no id, address, condition or switch of any breakpoint.
pub proof fn law_passage_keeps_settings(b: Breakpoint, pc: u16, pass: bool)
    ensures
        passed(b, pc, pass).id == b.id,
        passed(b, pc, pass).addr == b.addr,
        passed(b, pc, pass).enabled == b.enabled,
        passed(b, pc, pass).condition == b.condition,
{
}

/// A breakpoint that is switched off, stands elsewhere or has a false condition
/// neither stops the program nor counts.
pub proof fn law_breakpoint_untouched(b: Breakpoint, pc: u16, regs: Registers)
    requires
        !b.enabled || b.addr != pc || !condition_passes(b.condition, regs),
    ensures
        !stops(b, pc, condition_passes(b.condition, regs)),
        passed(b, pc, condition_passes(b.condition, regs)) == b,
{
}

/// A condition that has no value lets its breakpoint count, so that a mistake
/// in it is noticed.
pub proof fn law_broken_condition_passes(condition: String, regs: Registers)
    requires
        holds(trimmed(condition@), regs) is Err,
    ensures
        condition_passes(Some(condition), regs),
{
}

/// The program stops exactly where some breakpoint stops it.
pub proof fn law_stop_somewhere(
    bps: Seq<Breakpoint>,
    pc: u16,
    pass: spec_fn(Breakpoint) -> bool,
    from: int,
)
    requires
        0 <= from <= bps.len(),
    ensures
        first_stop(bps, pc, pass, from) is Some <==> exists|i: int|
            from <= i < bps.len() && #[trigger] stops(bps[i], pc, pass(bps[i])),
    decreases bps.len() - from,
{
    if from < bps.len() {
        if !stops(bps[from], pc, pass(bps[from])) {
            law_stop_somewhere(bps, pc, pass, from + 1);
        }
    }
}

/// A breakpoint behind `n` passages of its address on which its condition
/// passes.
pub open spec fn passages(b: Breakpoint, n: nat) -> Breakpoint
    decreases n,
{
    if n == 0 {
        b
    } else {
        let c = passages(b, (n - 1) as nat);
        passed(c, c.addr, true)
    }
}

/// An ignore count is the number of passages before the first stop, and none
/// of them counts as a hit.
pub proof fn law_ignore_count(b: Breakpoint, n: nat)
    requires
        b.enabled,
        n <= b.ignore_count,
    ensures
        passages(b, n) == (Breakpoint { ignore_count: (b.ignore_count - n) as u64, ..b }),
        stops(passages(b, n), b.addr, true) == (n == b.ignore_count),
    decreases n,
{
    if n > 0 {
        law_ignore_count(b, (n - 1) as nat);
    }
}

/// A return drops frames from the top only: the frames that stay are the
/// outermost ones, in place, and the one gone back through stood right on top
/// of them.
pub proof fn law_return_unwinds(frames: Seq<CallFrame>, sp: u16)
    ensures
        frames_after_return(frames, sp).is_prefix_of(frames),
        match return_frame(frames, sp) {
            Some(f) => {
                let kept = frames_after_return(frames, sp).len() as int;
                kept < frames.len() && f == frames[kept] && returns_through(f, sp)
            },
            None => frames_after_return(frames, sp).len() == 0,
        },
    decreases frames.len(),
{
    if frames.len() > 0 && !returns_through(frames.last(), sp) {
        law_return_unwinds(frames.drop_last(), sp);
    }
}

/// The same holds of the return from an interrupt.
pub proof fn law_rti_unwinds(frames: Seq<CallFrame>)
    ensures
        frames_after_rti(frames).is_prefix_of(frames),
        match rti_frame(frames) {
            Some(f) => {
                let kept = frames_after_rti(frames).len() as int;
                kept < frames.len() && f == frames[kept]
            },
            None => frames_after_rti(frames).len() == 0,
        },
    decreases frames.len(),
{
    if frames.len() > 0 && !crate::debug::is_interrupt(frames.last()) {
        law_rti_unwinds(frames.drop_last());
    }
}

/// The return that belongs to a call takes away exactly the frame of the call.
pub proof fn law_call_frame_returns(frames: Seq<CallFrame>, f: CallFrame, sp: u16)
    requires
        returns_through(f, sp),
    ensures
        return_frame(frames.push(f), sp) == Some(f),
        frames_after_return(frames.push(f), sp) == frames,
{
    assert(frames.push(f).drop_last() =~= frames);
}

/// A linear sweep begins at its first address, goes upwards, stays below its
/// end and goes on where each instruction ends.
pub proof fn law_sweep<B: Bus>(m: B::V, pc: u16, end: u16)
    ensures
        ({
            let s = swept::<B>(m, pc, end).0;
            &&& s.len() == 0 <==> pc >= end
            &&& s.len() > 0 ==> s[0] == pc
            &&& s.len() > 1 ==> s[1] == pc + disassembled::<B>(m, pc).0
            &&& ascending(s)
            &&& forall|i: int| 0 <= i < s.len() ==> pc <= #[trigger] s[i] < end
        }),
    decreases 0x10000 - pc,
{
    if pc < end {
        let (len, text, m1) = disassembled::<B>(m, pc);
        if len != 0 && pc + len <= 0xFFFF {
            law_sweep::<B>(m1, (pc + len) as u16, end);
            let rest = swept::<B>(m1, (pc + len) as u16, end).0;
            let s = swept::<B>(m, pc, end).0;
            assert(s =~= seq![pc] + rest);
            assert forall|i: int| 0 <= i < s.len() implies pc <= #[trigger] s[i] < end by {
                if i > 0 {
                    assert(s[i] == rest[i - 1]);
                }
            }
            assert forall|i: int, j: int| 0 <= i < j < s.len() implies #[trigger] s[i]
                < #[trigger] s[j] by {
                assert(s[j] == rest[j - 1]);
                if i > 0 {
                    assert(s[i] == rest[i - 1]);
                }
            }
        }
    }
}

/// Whether a run to `target` that began with `before` ended as it reports.
pub open spec fn ended_at<B: Bus>(
    run: (StepStop, Mach<B>, Seq<Breakpoint>),
    before: Seq<Breakpoint>,
    target: u16,
) -> bool {
    &&& run.2.len() == before.len()
    &&& match run.0 {
        StepStop::ReturnTarget => run.1.r.pc == target,
        StepStop::Breakpoint(id) => run.1.r.pc != target && stands_at(run.2, id, run.1.r.pc),
        StepStop::Limit => run.1.r.pc != target,
        _ => false,
    }
}

/// Whether the breakpoint `id` stands at `pc` and is switched on.
#[verifier::opaque]
pub open spec fn stands_at(bps: Seq<Breakpoint>, id: BreakpointId, pc: u16) -> bool {
    exists|i: int|
        0 <= i < bps.len() && (#[trigger] bps[i]).id == id && bps[i].addr == pc && bps[i].enabled
}

proof fn lemma_hit(bps: Seq<Breakpoint>, pc: u16, regs: Registers)
    ensures
        checked(bps, pc, regs).1.len() == bps.len(),
        checked(bps, pc, regs).0 matches Some(id) ==> stands_at(checked(bps, pc, regs).1, id, pc),
{
    reveal(stands_at);
    let (hit, bps1) = checked(bps, pc, regs);
    if let Some(id) = hit {
        let pass = |b: Breakpoint| condition_passes(b.condition, regs);
        lemma_stop_at(bps, pc, pass, 0);
        let i = choose|i: int|
            0 <= i < bps.len() && (#[trigger] bps[i]).id == id && bps[i].addr == pc
                && bps[i].enabled;
        assert(bps1[i].id == id && bps1[i].addr == pc && bps1[i].enabled);
    }
}

/// A run ends at its target, at a breakpoint that stands where it ended, or
/// where its limit is used up before it reached the target, and as it reports.
pub proof fn law_run_ends<B: Bus>(
    s: Mach<B>,
    bps: Seq<Breakpoint>,
    target: u16,
    count: u32,
    limit: u32,
)
    ensures
        ended_at(run_until(s, bps, target, count, limit), bps, target),
    decreases limit - count,
{
    if count < limit && s.r.pc != target {
        lemma_hit(bps, s.r.pc, s.r);
        let (hit, bps1) = checked(bps, s.r.pc, s.r);
        if hit is None {
            let next = s.step(false).1;
            law_run_ends(next, bps1, target, (count + 1) as u32, limit);
        }
    }
}

proof fn lemma_stop_at(
    bps: Seq<Breakpoint>,
    pc: u16,
    pass: spec_fn(Breakpoint) -> bool,
    from: int,
)
    requires
        0 <= from <= bps.len(),
    ensures
        first_stop(bps, pc, pass, from) matches Some(id) ==> exists|i: int|
            0 <= i < bps.len() && (#[trigger] bps[i]).id == id && bps[i].addr == pc
                && bps[i].enabled,
    decreases bps.len() - from,
{
    if from < bps.len() {
        if stops(bps[from], pc, pass(bps[from])) {
            assert(bps[from].id == bps[from].id);
        } else {
            lemma_stop_at(bps, pc, pass, from + 1);
        }
    }
}

/// Stepping over an instruction that is no call executes it, no more and no
/// less.
pub proof fn law_step_over_plain(s: Mach<Memory>, bps: Seq<Breakpoint>, limit: u32)
    requires
        !calls_at::<Memory>(s.m, s.r.pc).0,
    ensures
        stepped_over(s, bps, limit) == (StepStop::NotACall, s.step(false).1, bps),
{
}

/// Stepping over a call that ends at its target leaves PC at the instruction
/// behind the call.
pub proof fn law_step_over_call(s: Mach<Memory>, bps: Seq<Breakpoint>, limit: u32)
    requires
        calls_at::<Memory>(s.m, s.r.pc).0,
        stepped_over(s, bps, limit).0 is ReturnTarget,
    ensures
        stepped_over(s, bps, limit).1.r.pc == crate::alu::offset(
            s.r.pc,
            disassembled::<Memory>(s.m, s.r.pc).0 as int,
        ),
{
    let len = disassembled::<Memory>(s.m, s.r.pc).0;
    let s2 = Mach::<Memory> { m: disassembled::<Memory>(s.m, s.r.pc).2, ..s };
    law_run_ends(
        s2.step(false).1,
        bps,
        crate::alu::offset(s.r.pc, len as int),
        1,
        limit,
    );
}

/// Stepping out that ends at its target leaves PC at the return address of the
/// frame that was on top.
pub proof fn law_step_out<B: Bus>(s: Mach<B>, bps: Seq<Breakpoint>, limit: u32)
    requires
        s.frames.len() > 0,
        stepped_out(s, bps, limit).0 is ReturnTarget,
    ensures
        stepped_out(s, bps, limit).1.r.pc == s.frames.last().return_addr,
{
    law_run_ends(s, bps, s.frames.last().return_addr, 0, limit);
}

/// Whether the addresses of a listing go upwards.
pub open spec fn goes_up(lines: Seq<(u16, Seq<char>)>) -> bool {
    forall|i: int, j: int| 0 <= i < j < lines.len() ==> (#[trigger] lines[i]).0 < (#[trigger]
    lines[j]).0
}

/// Whether a place, where there is one, is that of the line of `pc`.
pub open spec fn marks(lines: Seq<(u16, Seq<char>)>, at: Option<int>, pc: u16) -> bool {
    at matches Some(i) ==> 0 <= i < lines.len() && lines[i].0 == pc
}

proof fn lemma_walked<B: Bus>(
    m: B::V,
    cur: u16,
    pc: u16,
    n_after: int,
    limit: int,
    lines: Seq<(u16, Seq<char>)>,
    at: Option<int>,
)
    requires
        goes_up(lines),
        forall|i: int| 0 <= i < lines.len() ==> (#[trigger] lines[i]).0 < cur,
        marks(lines, at, pc),
    ensures
        goes_up(walked::<B>(m, cur, pc, n_after, limit, lines, at).0),
        marks(
            walked::<B>(m, cur, pc, n_after, limit, lines, at).0,
            walked::<B>(m, cur, pc, n_after, limit, lines, at).1,
            pc,
        ),
    decreases limit - lines.len(),
{
    if lines.len() < limit {
        let (len, text, m1) = disassembled::<B>(m, cur);
        let at1 = if cur == pc {
            Some(lines.len() as int)
        } else {
            at
        };
        let lines1 = lines.push((cur, text));
        assert(goes_up(lines1));
        assert(marks(lines1, at1, pc));
        if len != 0 && cur + len <= 0xFFFF {
            if !(at1 is Some && lines1.len() >= at1->0 + 1 + n_after) {
                lemma_walked::<B>(m1, (cur + len) as u16, pc, n_after, limit, lines1, at1);
            }
        }
    }
}

/// A window of a listing holds the line of `pc`, at most as many lines around
/// it as were asked for, and its addresses go upwards.
pub proof fn law_window<B: Bus>(m: B::V, start: u16, pc: u16, n_before: int, n_after: int)
    requires
        0 <= n_before,
        0 <= n_after,
    ensures
        ({
            let w = window::<B>(m, start, pc, n_before, n_after).0;
            &&& goes_up(w)
            &&& exists|i: int|
                0 <= i < w.len() && i <= n_before && w.len() - i - 1 <= n_after && (#[trigger]
                w[i]).0 == pc
        }),
{
    let limit = n_before + n_after + 257;
    lemma_walked::<B>(m, start, pc, n_after, limit, Seq::empty(), None);
    let (lines, at, m1) = walked::<B>(m, start, pc, n_after, limit, Seq::empty(), None);
    let w = window::<B>(m, start, pc, n_before, n_after).0;
    match at {
        Some(idx) => {
            let from = if idx < n_before {
                0
            } else {
                idx - n_before
            };
            assert(w[idx - from] == lines[idx]);
            assert forall|i: int, j: int| 0 <= i < j < w.len() implies (#[trigger] w[i]).0 < (
            #[trigger] w[j]).0 by {
                assert(w[i] == lines[from + i]);
                assert(w[j] == lines[from + j]);
            }
        },
        None => {
            assert(w[0].0 == pc);
        },
    }
}

/// A passage that stops the program counts one hit, up to the highest number;
/// one that is ignored takes one off the ignore count; it cannot do both.
pub proof fn law_passage_counts(b: Breakpoint, pc: u16, pass: bool)
    ensures
        ({
            let c = passed(b, pc, pass);
            let here = b.enabled && b.addr == pc && pass;
            &&& stops(b, pc, pass) <==> here && b.ignore_count == 0
            &&& stops(b, pc, pass) && b.hit_count < u64::MAX ==> c.hit_count == b.hit_count + 1
            &&& b.hit_count == u64::MAX ==> c.hit_count == u64::MAX
            &&& !stops(b, pc, pass) ==> c.hit_count == b.hit_count
            &&& here && b.ignore_count > 0 ==> c.ignore_count == b.ignore_count - 1
            &&& !here || b.ignore_count == 0 ==> c.ignore_count == b.ignore_count
        }),
{
}

/// Without a condition, or with a blank one, a breakpoint counts always; else
/// where the condition holds, or has no value.
pub proof fn law_conditions_pass(condition: String, regs: Registers)
    ensures
        condition_passes(None, regs),
        trimmed(condition@).len() == 0 ==> condition_passes(Some(condition), regs),
        trimmed(condition@).len() > 0 ==> (condition_passes(Some(condition), regs) <==> holds(
            trimmed(condition@),
            regs,
        ) != Ok::<bool, CondErrorView>(false)),
{
}

/// Of several breakpoints that stop the program the first in the list is named.
pub proof fn law_first_stop_named(
    bps: Seq<Breakpoint>,
    pc: u16,
    pass: spec_fn(Breakpoint) -> bool,
    from: int,
    k: int,
)
    requires
        0 <= from <= k < bps.len(),
        stops(bps[k], pc, pass(bps[k])),
        forall|i: int| from <= i < k ==> !stops(#[trigger] bps[i], pc, pass(bps[i])),
    ensures
        first_stop(bps, pc, pass, from) == Some(bps[k].id),
    decreases k - from,
{
    if from < k {
        assert(!stops(bps[from], pc, pass(bps[from])));
        law_first_stop_named(bps, pc, pass, from + 1, k);
    }
}

proof fn lemma_below(s: Seq<u16>, addr: u16, k: int)
    requires
        ascending(s),
        0 <= k <= s.len(),
        forall|i: int| 0 <= i < k ==> s[i] < addr,
        forall|i: int| k <= i < s.len() ==> s[i] >= addr,
    ensures
        count_below(s, addr) == k,
    decreases s.len(),
{
    if s.len() > 0 {
        let t = s.drop_last();
        if k < s.len() {
            lemma_below(t, addr, k);
        } else {
            lemma_below(t, addr, k - 1);
        }
    }
}

/// A listing around an address begins at the `n`th instruction start before it,
/// or at the first there is; without any it begins at the address.
pub proof fn law_listing_start(s: Seq<u16>, anchor: u16, n: nat, k: int)
    requires
        ascending(s),
        0 <= k <= s.len(),
        forall|i: int| 0 <= i < k ==> s[i] < anchor,
        forall|i: int| k <= i < s.len() ==> s[i] >= anchor,
    ensures
        n == 0 || k == 0 ==> listing_start(s, anchor, n) == anchor,
        0 < n <= k ==> listing_start(s, anchor, n) == s[k - n],
        n > k > 0 ==> listing_start(s, anchor, n) == s[0],
{
    lemma_below(s, anchor, k);
}

/// The machine behind `n` steps.
pub open spec fn steps<B: Bus>(s: Mach<B>, n: nat) -> Mach<B>
    decreases n,
{
    if n == 0 {
        s
    } else {
        steps(s.step(false).1, (n - 1) as nat)
    }
}

/// Without breakpoints a run ends the first time PC is the target, and else
/// behind as many instructions as the limit leaves.
pub proof fn law_run_length<B: Bus>(s: Mach<B>, target: u16, count: u32, limit: u32, n: nat)
    requires
        count <= limit,
        n <= limit - count,
        forall|j: nat| j < n ==> #[trigger] steps(s, j).r.pc != target,
    ensures
        ({
            let none = Seq::<Breakpoint>::empty();
            let (why, t, bps) = run_until(s, none, target, count, limit);
            &&& steps(s, n).r.pc == target ==> why == StepStop::ReturnTarget && t == steps(s, n)
            &&& steps(s, n).r.pc != target && n == limit - count ==> why == StepStop::Limit && t
                == steps(s, n)
        }),
    decreases n,
{
    let none = Seq::<Breakpoint>::empty();
    if n > 0 {
        assert(steps(s, 0).r.pc != target);
        let next = s.step(false).1;
        assert forall|j: nat| j < (n - 1) as nat implies #[trigger] steps(next, j).r.pc != target by {
            assert(steps(s, (j + 1) as nat) == steps(next, j));
        }
        law_run_length(next, target, (count + 1) as u32, limit, (n - 1) as nat);
        let (hit, rest) = checked(none, s.r.pc, s.r);
        assert(rest =~= none);
        assert(hit is None);
        assert(run_until(s, none, target, count, limit) == run_until(
            next,
            none,
            target,
            (count + 1) as u32,
            limit,
        ));
    }
}

/// Interrupts, hardware and software, are told from calls.
pub proof fn law_interrupt_frames(f: CallFrame)
    ensures
        is_interrupt(f) <==> !(f.kind is Bsr || f.kind is Jsr),
{
}

} // verus!
