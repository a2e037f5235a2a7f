//! Debugger primitives: the shadow call stack, execution breakpoints with
//! conditions, known instruction starts, and register and memory dumps.

use vstd::prelude::*;

pub mod cond;

use crate::alu::{has_flag, offset, offset_by};
use crate::bus::{min_int, Bus, Memory};
use crate::cpu::{Cpu, Registers};
use crate::debug::cond::{evaluate_chars, holds};
use crate::disasm::{disasm_one, disassembled, rd8};
use crate::sorted::{addr_set, ascending, insert_sorted, lower_bound};
use crate::text::{
    chars_of, hex2, hex4, push_hex2, push_hex4, push_text, texts, trim, trimmed,
};

pub use crate::debug::cond::CondError;

verus! {

/// What kind of control transfer pushed a frame.
#[derive(Debug, Clone, Copy, PartialEq, Eq, Structural)]
pub enum CallKind {
    /// BSR or LBSR.
    Bsr,
    /// JSR.
    Jsr,
    /// SWI, SWI2 or SWI3; the number is 1, 2 or 3.
    Swi(u8),
    /// Maskable interrupt.
    Irq,
    /// Fast interrupt.
    Firq,
    /// Non-maskable interrupt.
    Nmi,
}

/// One entry of the shadow call stack.
#[derive(Debug, Clone, Copy)]
pub struct CallFrame {
    /// The address that the return goes back to.
    pub return_addr: u16,
    /// The address of the calling instruction.
    pub call_site: u16,
    /// The address of the callee's first instruction.
    pub target: u16,
    /// S right after the return address was pushed.
    pub sp_at_call: u16,
    /// Why the frame was pushed.
    pub kind: CallKind,
}

/// The frames of the calls in progress, outermost first.
#[derive(Debug, Clone)]
pub struct ShadowCallStack {
    frames: Vec<CallFrame>,
}

impl View for ShadowCallStack {
    type V = Seq<CallFrame>;

    closed spec fn view(&self) -> Seq<CallFrame> {
        self.frames@
    }
}

/// Whether a return that leaves S at `sp` goes back through `f`.
pub open spec fn returns_through(f: CallFrame, sp: u16) -> bool {
    (f.sp_at_call + 2) % 0x10000 == sp
}

/// Whether `f` was pushed by an interrupt, hardware or software.
pub open spec fn is_interrupt(f: CallFrame) -> bool {
    match f.kind {
        CallKind::Swi(_) | CallKind::Irq | CallKind::Firq | CallKind::Nmi => true,
        _ => false,
    }
}

/// The frame a return that leaves S at `sp` goes back through: the topmost one
/// that lines up with it.
pub open spec fn return_frame(frames: Seq<CallFrame>, sp: u16) -> Option<CallFrame>
    decreases frames.len(),
{
    if frames.len() == 0 {
        None
    } else if returns_through(frames.last(), sp) {
        Some(frames.last())
    } else {
        return_frame(frames.drop_last(), sp)
    }
}

/// The frames below that one; none where no frame lines up.
pub open spec fn frames_after_return(frames: Seq<CallFrame>, sp: u16) -> Seq<CallFrame>
    decreases frames.len(),
{
    if frames.len() == 0 {
        frames
    } else if returns_through(frames.last(), sp) {
        frames.drop_last()
    } else {
        frames_after_return(frames.drop_last(), sp)
    }
}

/// The frame an RTI goes back through: the topmost interrupt frame.
pub open spec fn rti_frame(frames: Seq<CallFrame>) -> Option<CallFrame>
    decreases frames.len(),
{
    if frames.len() == 0 {
        None
    } else if is_interrupt(frames.last()) {
        Some(frames.last())
    } else {
        rti_frame(frames.drop_last())
    }
}

/// The frames below that one; none where there is no interrupt frame.
pub open spec fn frames_after_rti(frames: Seq<CallFrame>) -> Seq<CallFrame>
    decreases frames.len(),
{
    if frames.len() == 0 {
        frames
    } else if is_interrupt(frames.last()) {
        frames.drop_last()
    } else {
        frames_after_rti(frames.drop_last())
    }
}

impl ShadowCallStack {
    pub fn new() -> (s: Self)
        ensures
            s@ == Seq::<CallFrame>::empty(),
    {
        ShadowCallStack { frames: Vec::new() }
    }

    /// Forgets every frame.
    pub fn clear(&mut self)
        ensures
            final(self)@ == Seq::<CallFrame>::empty(),
    {
        self.frames.clear();
    }

    pub fn push(&mut self, frame: CallFrame)
        ensures
            final(self)@ == old(self)@.push(frame),
    {
        self.frames.push(frame);
    }

    /// Pops the frame that a return leaving S at `current_sp` goes back
    /// through, with the frames above it. Where no frame lines up, all are
    /// dropped.
    pub fn pop_for_return(&mut self, current_sp: u16) -> (popped: Option<CallFrame>)
        ensures
            popped == return_frame(old(self)@, current_sp),
            final(self)@ == frames_after_return(old(self)@, current_sp),
    {
        while self.frames.len() > 0
            invariant
                return_frame(self@, current_sp) == return_frame(old(self)@, current_sp),
                frames_after_return(self@, current_sp) == frames_after_return(
                    old(self)@,
                    current_sp,
                ),
            decreases self@.len(),
        {
            let top: CallFrame = self.frames[self.frames.len() - 1];
            let ghost before = self@;
            self.frames.pop();
            assert(self@ =~= before.drop_last());
            if top.sp_at_call.wrapping_add(2) == current_sp {
                return Some(top);
            }
        }
        None
    }

    /// Pops the topmost interrupt frame with the frames above it. Where there
    /// is none, all frames are dropped.
    pub fn pop_for_rti(&mut self) -> (popped: Option<CallFrame>)
        ensures
            popped == rti_frame(old(self)@),
            final(self)@ == frames_after_rti(old(self)@),
    {
        while self.frames.len() > 0
            invariant
                rti_frame(self@) == rti_frame(old(self)@),
                frames_after_rti(self@) == frames_after_rti(old(self)@),
            decreases self@.len(),
        {
            let top: CallFrame = self.frames[self.frames.len() - 1];
            let ghost before = self@;
            self.frames.pop();
            assert(self@ =~= before.drop_last());
            let interrupt: bool = match top.kind {
                CallKind::Swi(_) | CallKind::Irq | CallKind::Firq | CallKind::Nmi => true,
                _ => false,
            };
            if interrupt {
                return Some(top);
            }
        }
        None
    }

    pub fn len(&self) -> (n: usize)
        ensures
            n == self@.len(),
    {
        self.frames.len()
    }

    pub fn is_empty(&self) -> (r: bool)
        ensures
            r == (self@.len() == 0),
    {
        self.frames.len() == 0
    }

    /// The frames in push order, outermost first.
    pub fn frames(&self) -> (frames: &[CallFrame])
        ensures
            frames@ == self@,
    {
        self.frames.as_slice()
    }

    /// The top frame.
    pub fn peek(&self) -> (top: Option<&CallFrame>)
        ensures
            top == if self@.len() == 0 {
                None
            } else {
                Some(&self@.last())
            },
    {
        if self.frames.len() == 0 {
            None
        } else {
            Some(&self.frames[self.frames.len() - 1])
        }
    }

    /// The top frame; the same as [`ShadowCallStack::peek`].
    pub fn top(&self) -> (top: Option<&CallFrame>)
        ensures
            top == if self@.len() == 0 {
                None
            } else {
                Some(&self@.last())
            },
    {
        self.peek()
    }

    /// The number of frames; the same as [`ShadowCallStack::len`].
    pub fn depth(&self) -> (n: usize)
        ensures
            n == self@.len(),
    {
        self.len()
    }
}

impl Default for ShadowCallStack {
    fn default() -> (s: Self)
        ensures
            s@ == Seq::<CallFrame>::empty(),
    {
        ShadowCallStack::new()
    }
}

/// Identifies a breakpoint.
#[derive(Debug, Clone, Copy, PartialEq, Eq, PartialOrd, Ord, Hash, Structural)]
pub struct BreakpointId(pub u32);

/// An execution breakpoint.
#[derive(Debug, Clone)]
pub struct Breakpoint {
    pub id: BreakpointId,
    pub addr: u16,
    pub enabled: bool,
    /// Condition under which the breakpoint counts; see [`BreakpointSet::check`].
    pub condition: Option<String>,
    /// Number of stops caused so far.
    pub hit_count: u64,
    /// Number of matches still to be passed over before the next stop.
    pub ignore_count: u64,
}

/// The breakpoints in the order in which they were added.
#[derive(Debug, Clone)]
pub struct BreakpointSet {
    bps: Vec<Breakpoint>,
    next_id: u32,
}

impl View for BreakpointSet {
    type V = Seq<Breakpoint>;

    closed spec fn view(&self) -> Seq<Breakpoint> {
        self.bps@
    }
}

/// The place of the first breakpoint with `id` from `from` on; the number of
/// breakpoints where there is none.
pub open spec fn find_id(bps: Seq<Breakpoint>, id: BreakpointId, from: int) -> int
    decreases bps.len() - from,
{
    if from >= bps.len() {
        bps.len() as int
    } else if bps[from].id == id {
        from
    } else {
        find_id(bps, id, from + 1)
    }
}

/// A breakpoint after a passage of its address on which its condition is
/// `pass`: one that is switched off or does not pass is not touched; one with
/// an ignore count loses one of it; any other counts a hit.
pub open spec fn passed(b: Breakpoint, pc: u16, pass: bool) -> Breakpoint {
    if !b.enabled || b.addr != pc || !pass {
        b
    } else if b.ignore_count > 0 {
        Breakpoint { ignore_count: (b.ignore_count - 1) as u64, ..b }
    } else {
        Breakpoint {
            hit_count: if b.hit_count == u64::MAX {
                u64::MAX
            } else {
                (b.hit_count + 1) as u64
            },
            ..b
        }
    }
}

/// Whether such a passage stops the program.
pub open spec fn stops(b: Breakpoint, pc: u16, pass: bool) -> bool {
    b.enabled && b.addr == pc && pass && b.ignore_count == 0
}

/// The first breakpoint from `from` on that stops the program at `pc`, where
/// `pass` says which conditions hold.
pub open spec fn first_stop(
    bps: Seq<Breakpoint>,
    pc: u16,
    pass: spec_fn(Breakpoint) -> bool,
    from: int,
) -> Option<BreakpointId>
    decreases bps.len() - from,
{
    if from >= bps.len() {
        None
    } else if stops(bps[from], pc, pass(bps[from])) {
        Some(bps[from].id)
    } else {
        first_stop(bps, pc, pass, from + 1)
    }
}

impl BreakpointSet {
    /// The id that the next breakpoint gets.
    pub closed spec fn next_id(&self) -> u32 {
        self.next_id
    }

    pub fn new() -> (s: Self)
        ensures
            s@ == Seq::<Breakpoint>::empty(),
            s.next_id() == 1,
    {
        BreakpointSet { bps: Vec::new(), next_id: 1 }
    }

    /// Adds a breakpoint at `addr`, enabled and without condition. Several may
    /// stand at one address.
    pub fn add(&mut self, addr: u16) -> (id: BreakpointId)
        ensures
            id == BreakpointId(old(self).next_id()),
            final(self).next_id() == if old(self).next_id() == u32::MAX {
                1u32
            } else {
                (old(self).next_id() + 1) as u32
            },
            final(self)@ == old(self)@.push(
                (Breakpoint {
                    id: id,
                    addr: addr,
                    enabled: true,
                    condition: None,
                    hit_count: 0,
                    ignore_count: 0,
                }),
            ),
    {
        let id = BreakpointId(self.next_id);
        self.next_id = if self.next_id == u32::MAX {
            1
        } else {
            self.next_id + 1
        };
        self.bps.push(
            Breakpoint { id, addr, enabled: true, condition: None, hit_count: 0, ignore_count: 0 },
        );
        id
    }

    fn position(&self, id: BreakpointId) -> (at: usize)
        ensures
            at == find_id(self@, id, 0),
            at <= self@.len(),
            at < self@.len() ==> self@[at as int].id == id,
    {
        let mut i: usize = 0;
        while i < self.bps.len()
            invariant
                i <= self@.len(),
                find_id(self@, id, 0) == find_id(self@, id, i as int),
            decreases self@.len() - i,
        {
            if self.bps[i].id == id {
                return i;
            }
            i = i + 1;
        }
        i
    }

    /// Removes a breakpoint; tells whether it was there.
    pub fn remove(&mut self, id: BreakpointId) -> (found: bool)
        ensures
            found == (find_id(old(self)@, id, 0) < old(self)@.len()),
            final(self).next_id() == old(self).next_id(),
            final(self)@ == if found {
                old(self)@.remove(find_id(old(self)@, id, 0))
            } else {
                old(self)@
            },
    {
        let at: usize = self.position(id);
        if at < self.bps.len() {
            self.bps.remove(at);
            true
        } else {
            false
        }
    }

    /// Switches a breakpoint on or off; tells whether it was there.
    pub fn set_enabled(&mut self, id: BreakpointId, enabled: bool) -> (found: bool)
        ensures
            found == (find_id(old(self)@, id, 0) < old(self)@.len()),
            final(self).next_id() == old(self).next_id(),
            final(self)@ == if found {
                let at = find_id(old(self)@, id, 0);
                old(self)@.update(at, (Breakpoint { enabled: enabled, ..old(self)@[at] }))
            } else {
                old(self)@
            },
    {
        let at: usize = self.position(id);
        if at < self.bps.len() {
            self.bps[at].enabled = enabled;
            true
        } else {
            false
        }
    }

    /// Gives a breakpoint a condition or takes it away; tells whether the
    /// breakpoint was there.
    pub fn set_condition(&mut self, id: BreakpointId, condition: Option<String>) -> (found: bool)
        ensures
            found == (find_id(old(self)@, id, 0) < old(self)@.len()),
            final(self).next_id() == old(self).next_id(),
            final(self)@ == if found {
                let at = find_id(old(self)@, id, 0);
                old(self)@.update(at, (Breakpoint { condition: condition, ..old(self)@[at] }))
            } else {
                old(self)@
            },
    {
        let at: usize = self.position(id);
        if at < self.bps.len() {
            self.bps[at].condition = condition;
            true
        } else {
            false
        }
    }

    /// Sets how many matches a breakpoint passes over; tells whether the
    /// breakpoint was there.
    pub fn set_ignore_count(&mut self, id: BreakpointId, n: u64) -> (found: bool)
        ensures
            found == (find_id(old(self)@, id, 0) < old(self)@.len()),
            final(self).next_id() == old(self).next_id(),
            final(self)@ == if found {
                let at = find_id(old(self)@, id, 0);
                old(self)@.update(at, (Breakpoint { ignore_count: n, ..old(self)@[at] }))
            } else {
                old(self)@
            },
    {
        let at: usize = self.position(id);
        if at < self.bps.len() {
            self.bps[at].ignore_count = n;
            true
        } else {
            false
        }
    }

    /// Removes every breakpoint. Ids given out before are not given out again.
    pub fn clear(&mut self)
        ensures
            final(self)@ == Seq::<Breakpoint>::empty(),
            final(self).next_id() == old(self).next_id(),
    {
        self.bps.clear();
    }

    pub fn len(&self) -> (n: usize)
        ensures
            n == self@.len(),
    {
        self.bps.len()
    }

    pub fn is_empty(&self) -> (r: bool)
        ensures
            r == (self@.len() == 0),
    {
        self.bps.len() == 0
    }

    /// The breakpoints in the order in which they were added.
    pub fn iter(&self) -> (bps: &[Breakpoint])
        ensures
            bps@ == self@,
    {
        self.bps.as_slice()
    }

    /// The breakpoint with `id`.
    pub fn get(&self, id: BreakpointId) -> (b: Option<&Breakpoint>)
        ensures
            b == if find_id(self@, id, 0) < self@.len() {
                Some(&self@[find_id(self@, id, 0)])
            } else {
                None
            },
    {
        let at: usize = self.position(id);
        if at < self.bps.len() {
            Some(&self.bps[at])
        } else {
            None
        }
    }

    /// Counts one passage on the breakpoint at place `at`; tells whether it
    /// stops the program.
    fn pass_one(&mut self, at: usize, pc: u16, pass: bool) -> (stop: bool)
        requires
            at < old(self)@.len(),
        ensures
            stop == stops(old(self)@[at as int], pc, pass),
            final(self).next_id() == old(self).next_id(),
            final(self)@ == old(self)@.update(at as int, passed(old(self)@[at as int], pc, pass)),
    {
        if !self.bps[at].enabled || self.bps[at].addr != pc || !pass {
            assert(self@ =~= self@.update(at as int, self@[at as int]));
            return false;
        }
        let left: u64 = self.bps[at].ignore_count;
        if left > 0 {
            self.bps[at].ignore_count = left - 1;
            return false;
        }
        let hits: u64 = self.bps[at].hit_count;
        self.bps[at].hit_count = hits.saturating_add(1);
        true
    }

    /// Decides whether a passage of `pc` stops the program, whatever the
    /// conditions say, and counts it on every breakpoint there. Returns the id
    /// of the first breakpoint that stops it.
    pub fn should_break(&mut self, pc: u16) -> (hit: Option<BreakpointId>)
        ensures
            hit == first_stop(old(self)@, pc, |b: Breakpoint| true, 0),
            final(self).next_id() == old(self).next_id(),
            final(self)@ == old(self)@.map_values(|b: Breakpoint| passed(b, pc, true)),
    {
        let ghost before = self@;
        let ghost pass = |b: Breakpoint| true;
        let mut hit: Option<BreakpointId> = None;
        let mut i: usize = 0;
        while i < self.bps.len()
            invariant
                i <= before.len(),
                self@.len() == before.len(),
                self.next_id == old(self).next_id(),
                pass == (|b: Breakpoint| true),
                first_stop(before, pc, pass, 0) == if hit is Some {
                    hit
                } else {
                    first_stop(before, pc, pass, i as int)
                },
                forall|j: int| 0 <= j < i ==> #[trigger] self@[j] == passed(before[j], pc, true),
                forall|j: int| i <= j < before.len() ==> #[trigger] self@[j] == before[j],
            decreases before.len() - i,
        {
            let id: BreakpointId = self.bps[i].id;
            if self.pass_one(i, pc, true) && hit.is_none() {
                hit = Some(id);
            }
            i = i + 1;
        }
        assert(self@ =~= before.map_values(|b: Breakpoint| passed(b, pc, true)));
        hit
    }
}

/// Whether a condition lets its breakpoint count: none, or a blank one, always
/// does, and so does one that has no value.
pub open spec fn condition_passes(condition: Option<String>, regs: Registers) -> bool {
    match condition {
        None => true,
        Some(s) => {
            let t = trimmed(s@);
            t.len() == 0 || match holds(t, regs) {
                Ok(v) => v,
                Err(e) => true,
            }
        },
    }
}

fn passes(condition: &Option<String>, regs: &Registers) -> (r: bool)
    ensures
        r == condition_passes(*condition, *regs),
{
    match condition {
        None => true,
        Some(s) => {
            let t: Vec<char> = trim(&chars_of(s.as_str()));
            if t.len() == 0 {
                return true;
            }
            match evaluate_chars(&t, regs) {
                Ok(v) => v,
                Err(_) => true,
            }
        },
    }
}

impl BreakpointSet {
    /// Decides whether a passage of `pc` with the registers `regs` stops the
    /// program, and counts it on every breakpoint there whose condition
    /// passes. Returns the id of the first breakpoint that stops it.
    ///
    /// A breakpoint whose condition is false is not touched. One whose
    /// condition has no value counts as if it were true, so that the mistake is
    /// noticed.
    pub fn check(&mut self, pc: u16, regs: &Registers) -> (hit: Option<BreakpointId>)
        ensures
            hit == first_stop(
                old(self)@,
                pc,
                |b: Breakpoint| condition_passes(b.condition, *regs),
                0,
            ),
            final(self).next_id() == old(self).next_id(),
            final(self)@ == old(self)@.map_values(
                |b: Breakpoint| passed(b, pc, condition_passes(b.condition, *regs)),
            ),
    {
        let ghost before = self@;
        let ghost pass = |b: Breakpoint| condition_passes(b.condition, *regs);
        let mut hit: Option<BreakpointId> = None;
        let mut i: usize = 0;
        while i < self.bps.len()
            invariant
                i <= before.len(),
                self@.len() == before.len(),
                self.next_id == old(self).next_id(),
                pass == (|b: Breakpoint| condition_passes(b.condition, *regs)),
                first_stop(before, pc, pass, 0) == if hit is Some {
                    hit
                } else {
                    first_stop(before, pc, pass, i as int)
                },
                forall|j: int|
                    0 <= j < i ==> #[trigger] self@[j] == passed(
                        before[j],
                        pc,
                        condition_passes(before[j].condition, *regs),
                    ),
                forall|j: int| i <= j < before.len() ==> #[trigger] self@[j] == before[j],
            decreases before.len() - i,
        {
            let id: BreakpointId = self.bps[i].id;
            if self.bps[i].enabled && self.bps[i].addr == pc {
                let ok: bool = passes(&self.bps[i].condition, regs);
                if self.pass_one(i, pc, ok) && hit.is_none() {
                    hit = Some(id);
                }
            }
            i = i + 1;
        }
        assert(self@ =~= before.map_values(
            |b: Breakpoint| passed(b, pc, condition_passes(b.condition, *regs)),
        ));
        hit
    }
}

impl Default for BreakpointSet {
    fn default() -> (s: Self)
        ensures
            s@ == Seq::<Breakpoint>::empty(),
            s.next_id() == 0,
    {
        BreakpointSet { bps: Vec::new(), next_id: 0 }
    }
}

/// Addresses that are known to start an instruction; its view lists them in
/// ascending order.
#[derive(Debug, Clone)]
pub struct InstructionBoundaries {
    list: Vec<u16>,
}

impl View for InstructionBoundaries {
    type V = Seq<u16>;

    closed spec fn view(&self) -> Seq<u16> {
        self.list@
    }
}

impl InstructionBoundaries {
    pub open spec fn wf(&self) -> bool {
        ascending(self@)
    }

    pub fn new() -> (b: Self)
        ensures
            b.wf(),
            b@ == Seq::<u16>::empty(),
    {
        InstructionBoundaries { list: Vec::new() }
    }

    /// Forgets every boundary.
    pub fn clear(&mut self)
        ensures
            final(self).wf(),
            final(self)@ == Seq::<u16>::empty(),
    {
        self.list.clear();
    }

    /// Records `addr` as an instruction start.
    pub fn insert(&mut self, addr: u16)
        requires
            old(self).wf(),
        ensures
            final(self).wf(),
            addr_set(final(self)@) == addr_set(old(self)@).insert(addr),
    {
        insert_sorted(&mut self.list, addr);
    }

    /// Records several instruction starts.
    pub fn extend(&mut self, addrs: Vec<u16>)
        requires
            old(self).wf(),
        ensures
            final(self).wf(),
            addr_set(final(self)@) == addr_set(old(self)@).union(addr_set(addrs@)),
    {
        let ghost before = addr_set(self@);
        let mut i: usize = 0;
        assert(before.union(addr_set(addrs@.take(0))) =~= before);
        while i < addrs.len()
            invariant
                i <= addrs@.len(),
                self.wf(),
                addr_set(self@) == before.union(addr_set(addrs@.take(i as int))),
            decreases addrs@.len() - i,
        {
            self.insert(addrs[i]);
            proof {
                lemma_take_set(addrs@, i as int);
                assert(before.union(addr_set(addrs@.take(i as int))).insert(addrs@[i as int])
                    =~= before.union(addr_set(addrs@.take(i + 1))));
            }
            i = i + 1;
        }
        assert(addrs@.take(i as int) =~= addrs@);
    }

    /// The largest boundary at or below `addr`.
    pub fn floor(&self, addr: u16) -> (r: Option<u16>)
        requires
            self.wf(),
        ensures
            match r {
                Some(b) => self@.contains(b) && b <= addr && (forall|x: u16|
                    self@.contains(x) && x <= addr ==> x <= b),
                None => forall|x: u16| self@.contains(x) ==> x > addr,
            },
    {
        let at: usize = lower_bound(&self.list, addr);
        if at < self.list.len() && self.list[at] == addr {
            return Some(addr);
        }
        if at > 0 {
            let b: u16 = self.list[at - 1];
            assert(self@[at - 1] == b);
            return Some(b);
        }
        None
    }

    /// The smallest boundary at or above `addr`.
    pub fn ceil(&self, addr: u16) -> (r: Option<u16>)
        requires
            self.wf(),
        ensures
            match r {
                Some(b) => self@.contains(b) && b >= addr && (forall|x: u16|
                    self@.contains(x) && x >= addr ==> x >= b),
                None => forall|x: u16| self@.contains(x) ==> x < addr,
            },
    {
        let at: usize = lower_bound(&self.list, addr);
        if at < self.list.len() {
            let b: u16 = self.list[at];
            assert(self@[at as int] == b);
            Some(b)
        } else {
            None
        }
    }

    /// The boundaries in `[from, to]`, ascending.
    pub fn iter_range(&self, from: u16, to: u16) -> (out: Vec<u16>)
        requires
            self.wf(),
            from <= to,
        ensures
            ascending(out@),
            forall|x: u16| out@.contains(x) == (self@.contains(x) && from <= x <= to),
    {
        let start: usize = lower_bound(&self.list, from);
        let mut out: Vec<u16> = Vec::new();
        let mut i: usize = start;
        while i < self.list.len() && self.list[i] <= to
            invariant
                start <= i <= self@.len(),
                self.wf(),
                forall|k: int| 0 <= k < start ==> self@[k] < from,
                forall|k: int| start <= k < self@.len() ==> self@[k] >= from,
                out@ == self@.subrange(start as int, i as int),
                forall|k: int| start <= k < i ==> self@[k] <= to,
            decreases self@.len() - i,
        {
            out.push(self.list[i]);
            i = i + 1;
            assert(out@ =~= self@.subrange(start as int, i as int));
        }
        assert forall|x: u16| out@.contains(x) == (self@.contains(x) && from <= x <= to) by {
            if out@.contains(x) {
                let k = choose|k: int| 0 <= k < out@.len() && out@[k] == x;
                assert(self@[start + k] == x);
            }
            if self@.contains(x) && from <= x <= to {
                let k = choose|k: int| 0 <= k < self@.len() && self@[k] == x;
                assert(start <= k < i);
                assert(out@[k - start] == x);
            }
        }
        out
    }

    pub fn contains(&self, addr: u16) -> (r: bool)
        requires
            self.wf(),
        ensures
            r == self@.contains(addr),
    {
        let at: usize = lower_bound(&self.list, addr);
        if at < self.list.len() && self.list[at] == addr {
            assert(self@[at as int] == addr);
            true
        } else {
            false
        }
    }

    pub fn len(&self) -> (n: usize)
        ensures
            n == self@.len(),
    {
        self.list.len()
    }

    pub fn is_empty(&self) -> (r: bool)
        ensures
            r == (self@.len() == 0),
    {
        self.list.len() == 0
    }

    /// Where the listing of `n` instructions before `anchor` begins: the `n`th
    /// boundary below it, or the first where there are fewer.
    pub fn start_before(&self, anchor: u16, n: usize) -> (start: u16)
        requires
            self.wf(),
        ensures
            start == listing_start(self@, anchor, n as nat),
    {
        let below: usize = lower_bound(&self.list, anchor);
        proof {
            lemma_count_below(self@, anchor, below as int);
        }
        let back: usize = if n < below {
            n
        } else {
            below
        };
        if back == 0 {
            anchor
        } else {
            self.list[below - back]
        }
    }
}

impl Default for InstructionBoundaries {
    fn default() -> (b: Self)
        ensures
            b.wf(),
            b@ == Seq::<u16>::empty(),
    {
        InstructionBoundaries::new()
    }
}

/// The number of entries of an ascending list that are below `addr`.
pub open spec fn count_below(s: Seq<u16>, addr: u16) -> nat
    decreases s.len(),
{
    if s.len() == 0 {
        0
    } else {
        count_below(s.drop_last(), addr) + if s.last() < addr {
            1nat
        } else {
            0
        }
    }
}

/// The `n`th boundary below `anchor`, the first where there are fewer, and
/// `anchor` itself where there is none.
pub open spec fn listing_start(s: Seq<u16>, anchor: u16, n: nat) -> u16 {
    let below = count_below(s, anchor);
    let back = min_int(n as int, below as int);
    if back == 0 {
        anchor
    } else {
        s[below - back]
    }
}

proof fn lemma_count_below(s: Seq<u16>, addr: u16, at: int)
    requires
        0 <= at <= s.len(),
        forall|i: int| 0 <= i < at ==> s[i] < addr,
        forall|i: int| at <= i < s.len() ==> s[i] >= addr,
    ensures
        count_below(s, addr) == at,
    decreases s.len(),
{
    if s.len() > 0 {
        let t = s.drop_last();
        if at == s.len() {
            lemma_count_below(t, addr, at - 1);
        } else {
            lemma_count_below(t, addr, at);
        }
    }
}

proof fn lemma_take_set(s: Seq<u16>, i: int)
    requires
        0 <= i < s.len(),
    ensures
        addr_set(s.take(i + 1)) == addr_set(s.take(i)).insert(s[i]),
{
    let t0 = s.take(i);
    let t1 = s.take(i + 1);
    assert forall|a: u16| t1.contains(a) == (t0.contains(a) || a == s[i]) by {
        if t0.contains(a) {
            let k = choose|k: int| 0 <= k < t0.len() && t0[k] == a;
            assert(t1[k] == a);
        }
        if a == s[i] {
            assert(t1[i] == a);
        }
        if t1.contains(a) {
            let k = choose|k: int| 0 <= k < t1.len() && t1[k] == a;
            if k < i {
                assert(t0[k] == a);
            }
        }
    }
    assert(addr_set(t1) =~= addr_set(t0).insert(s[i]));
}

/// The instruction starts that a linear disassembly from `pc` finds below
/// `end`, and the state of the bus behind it. It stops where an instruction
/// reaches past the last address.
pub open spec fn swept<B: Bus>(m: B::V, pc: u16, end: u16) -> (Seq<u16>, B::V)
    decreases 0x10000 - pc,
{
    if pc < end {
        let (len, text, m1) = disassembled::<B>(m, pc);
        if len == 0 || pc + len > 0xFFFF {
            (seq![pc], m1)
        } else {
            let (rest, m2) = swept::<B>(m1, (pc + len) as u16, end);
            (seq![pc] + rest, m2)
        }
    } else {
        (Seq::empty(), m)
    }
}

proof fn lemma_set_cons(a: u16, rest: Seq<u16>, s: Set<u16>)
    ensures
        s.union(addr_set(seq![a] + rest)) == s.insert(a).union(addr_set(rest)),
{
    let t = seq![a] + rest;
    assert forall|x: u16| t.contains(x) == (x == a || rest.contains(x)) by {
        if x == a {
            assert(t[0] == x);
        }
        if rest.contains(x) {
            let k = choose|k: int| 0 <= k < rest.len() && rest[k] == x;
            assert(t[k + 1] == x);
        }
        if t.contains(x) {
            let k = choose|k: int| 0 <= k < t.len() && t[k] == x;
            if k > 0 {
                assert(rest[k - 1] == x);
            }
        }
    }
    assert(s.union(addr_set(t)) =~= s.insert(a).union(addr_set(rest)));
}

/// Disassembles linearly from `start` up to `end` and records each instruction
/// start.
pub fn linear_sweep<B: Bus>(
    bus: &mut B,
    start: u16,
    end: u16,
    boundaries: &mut InstructionBoundaries,
)
    requires
        old(bus).wf(),
        old(boundaries).wf(),
    ensures
        final(bus).wf(),
        final(boundaries).wf(),
        final(bus)@ == swept::<B>(old(bus)@, start, end).1,
        addr_set(final(boundaries)@) == addr_set(old(boundaries)@).union(
            addr_set(swept::<B>(old(bus)@, start, end).0),
        ),
{
    let mut pc: u16 = start;
    let ghost all = addr_set(boundaries@).union(addr_set(swept::<B>(bus@, start, end).0));
    while pc < end
        invariant
            bus.wf(),
            boundaries.wf(),
            swept::<B>(bus@, pc, end).1 == swept::<B>(old(bus)@, start, end).1,
            addr_set(boundaries@).union(addr_set(swept::<B>(bus@, pc, end).0)) == all,
            all == addr_set(old(boundaries)@).union(
                addr_set(swept::<B>(old(bus)@, start, end).0),
            ),
        decreases 0x10000 - pc,
    {
        let ghost m = bus@;
        let ghost before = addr_set(boundaries@);
        boundaries.insert(pc);
        let (consumed, _) = disasm_one(bus, pc);
        if pc as u32 + consumed as u32 > 0xFFFF {
            proof {
                lemma_set_cons(pc, Seq::empty(), before);
                assert(seq![pc] + Seq::<u16>::empty() =~= seq![pc]);
                assert(before.insert(pc).union(addr_set(Seq::<u16>::empty())) =~= before.insert(
                    pc,
                ));
            }
            return;
        }
        proof {
            lemma_set_cons(pc, swept::<B>(bus@, (pc + consumed) as u16, end).0, before);
        }
        pc = pc + consumed;
    }
    proof {
        assert(addr_set(boundaries@).union(addr_set(Seq::<u16>::empty())) =~= addr_set(
            boundaries@,
        ));
    }
}

/// A letter where a flag is set, a dash where it is not.
pub open spec fn flag_letter(cc: u8, bit: u8, letter: Seq<char>) -> Seq<char> {
    if crate::alu::flag(cc, bit) {
        letter
    } else {
        "-"@
    }
}

/// The registers on one line.
pub open spec fn registers_text(r: Registers) -> Seq<char> {
    "A:"@ + hex2(r.a) + " B:"@ + hex2(r.b) + " X:"@ + hex4(r.x) + " Y:"@ + hex4(r.y) + " U:"@
        + hex4(r.u) + " S:"@ + hex4(r.s) + " PC:"@ + hex4(r.pc) + " DP:"@ + hex2(r.dp) + " CC:"@
        + hex2(r.cc) + " (E F H I N Z V C) = "@ + flags_text(r.cc)
}

pub open spec fn flags_text(cc: u8) -> Seq<char> {
    flag_letter(cc, 0x80, "E"@) + flag_letter(cc, 0x40, "F"@) + flag_letter(cc, 0x20, "H"@)
        + flag_letter(cc, 0x10, "I"@) + flag_letter(cc, 0x08, "N"@) + flag_letter(cc, 0x04, "Z"@)
        + flag_letter(cc, 0x02, "V"@) + flag_letter(cc, 0x01, "C"@)
}

fn push_flag(out: &mut String, cc: u8, bit: u8, letter: &str)
    ensures
        final(out)@ == old(out)@ + flag_letter(cc, bit, letter@),
{
    if has_flag(cc, bit) {
        push_text(out, letter);
    } else {
        push_text(out, "-");
    }
}

fn flags_line(cc: u8) -> (out: String)
    ensures
        out@ == flags_text(cc),
{
    let mut out: String = String::new();
    push_flag(&mut out, cc, 0x80, "E");
    assert(out@ =~= flag_letter(cc, 0x80, "E"@));
    push_flag(&mut out, cc, 0x40, "F");
    push_flag(&mut out, cc, 0x20, "H");
    push_flag(&mut out, cc, 0x10, "I");
    push_flag(&mut out, cc, 0x08, "N");
    push_flag(&mut out, cc, 0x04, "Z");
    push_flag(&mut out, cc, 0x02, "V");
    push_flag(&mut out, cc, 0x01, "C");
    out
}

/// The registers of a CPU on one line.
pub fn dump_registers(cpu: &Cpu) -> (line: String)
    ensures
        line@ == registers_text(cpu.r),
{
    let r: Registers = cpu.r;
    let mut out: String = String::new();
    push_text(&mut out, "A:");
    assert(out@ =~= "A:"@);
    push_hex2(&mut out, r.a);
    push_text(&mut out, " B:");
    push_hex2(&mut out, r.b);
    push_text(&mut out, " X:");
    push_hex4(&mut out, r.x);
    push_text(&mut out, " Y:");
    push_hex4(&mut out, r.y);
    push_text(&mut out, " U:");
    push_hex4(&mut out, r.u);
    push_text(&mut out, " S:");
    push_hex4(&mut out, r.s);
    push_text(&mut out, " PC:");
    push_hex4(&mut out, r.pc);
    push_text(&mut out, " DP:");
    push_hex2(&mut out, r.dp);
    push_text(&mut out, " CC:");
    push_hex2(&mut out, r.cc);
    push_text(&mut out, " (E F H I N Z V C) = ");
    let flags: String = flags_line(r.cc);
    push_text(&mut out, flags.as_str());
    out
}

/// Bytes as two-digit numbers, each with a blank before it.
pub open spec fn row_bytes(bytes: Seq<u8>) -> Seq<char>
    decreases bytes.len(),
{
    if bytes.len() == 0 {
        Seq::empty()
    } else {
        row_bytes(bytes.drop_last()) + " "@ + hex2(bytes.last())
    }
}

/// A byte as a printable ASCII character, a dot where it is none.
pub open spec fn printable(b: u8) -> char {
    if 0x20 <= b <= 0x7E {
        b as char
    } else {
        '.'
    }
}

/// One line of a dump. With `ascii` the line is filled up to 16 bytes and the
/// characters follow between bars.
pub open spec fn row_text(addr: u16, bytes: Seq<u8>, ascii: bool) -> Seq<char> {
    let hex = hex4(addr) + ":"@ + row_bytes(bytes);
    if ascii {
        hex + Seq::new((3 * (16 - bytes.len())) as nat, |i: int| ' ') + "  |"@ + bytes.map_values(
            |b: u8| printable(b),
        ) + "|"@
    } else {
        hex
    }
}

/// Reads `n` bytes from `addr` on, behind those of `acc`.
pub open spec fn read_row<B: Bus>(m: B::V, addr: u16, n: int, acc: Seq<u8>) -> (Seq<u8>, B::V)
    decreases n - acc.len(),
{
    if acc.len() < n {
        let (b, m1) = rd8::<B>(m, offset(addr, acc.len() as int));
        read_row::<B>(m1, addr, n, acc.push(b))
    } else {
        (acc, m)
    }
}

/// The lines of a dump of `left` bytes from `addr` on, 16 to a line, and the
/// state of the bus behind it.
pub open spec fn dumped<B: Bus>(m: B::V, addr: u16, left: int, ascii: bool) -> (
    Seq<Seq<char>>,
    B::V,
)
    decreases left,
{
    if left > 0 {
        let n = min_int(left, 16);
        let (bytes, m1) = read_row::<B>(m, addr, n, Seq::empty());
        let (rest, m2) = dumped::<B>(m1, offset(addr, n), left - n, ascii);
        (seq![row_text(addr, bytes, ascii)] + rest, m2)
    } else {
        (Seq::empty(), m)
    }
}

/// The lines of a dump of `bytes`, which stand from `addr` on.
pub open spec fn dumped_bytes(addr: int, bytes: Seq<u8>) -> Seq<Seq<char>>
    decreases bytes.len(),
{
    if bytes.len() == 0 {
        Seq::empty()
    } else {
        let n = min_int(bytes.len() as int, 16);
        seq![row_text(addr as u16, bytes.take(n), false)] + dumped_bytes(addr + n, bytes.skip(n))
    }
}

fn row(addr: u16, bytes: &Vec<u8>, ascii: bool) -> (line: String)
    requires
        bytes@.len() <= 16,
    ensures
        line@ == row_text(addr, bytes@, ascii),
{
    let mut out: String = String::new();
    push_hex4(&mut out, addr);
    push_text(&mut out, ":");
    let ghost head = hex4(addr) + ":"@;
    let mut i: usize = 0;
    assert(out@ =~= head + row_bytes(bytes@.take(0)));
    while i < bytes.len()
        invariant
            i <= bytes@.len(),
            out@ == head + row_bytes(bytes@.take(i as int)),
        decreases bytes@.len() - i,
    {
        push_text(&mut out, " ");
        push_hex2(&mut out, bytes[i]);
        proof {
            let t = bytes@.take(i + 1);
            assert(t.drop_last() =~= bytes@.take(i as int));
            assert(out@ =~= head + row_bytes(t));
        }
        i = i + 1;
    }
    assert(bytes@.take(i as int) =~= bytes@);
    if !ascii {
        return out;
    }
    let ghost hex = out@;
    let pad: usize = 3 * (16 - bytes.len());
    let mut k: usize = 0;
    assert(out@ =~= hex + Seq::new(0, |i: int| ' '));
    while k < pad
        invariant
            k <= pad,
            out@ == hex + Seq::new(k as nat, |i: int| ' '),
        decreases pad - k,
    {
        out.push(' ');
        k = k + 1;
        assert(out@ =~= hex + Seq::new(k as nat, |i: int| ' '));
    }
    push_text(&mut out, "  |");
    let ghost filled = out@;
    let mut j: usize = 0;
    assert(out@ =~= filled + bytes@.take(0).map_values(|b: u8| printable(b)));
    while j < bytes.len()
        invariant
            j <= bytes@.len(),
            out@ == filled + bytes@.take(j as int).map_values(|b: u8| printable(b)),
        decreases bytes@.len() - j,
    {
        let b: u8 = bytes[j];
        if 0x20 <= b && b <= 0x7E {
            out.push(b as char);
        } else {
            out.push('.');
        }
        j = j + 1;
        assert(out@ =~= filled + bytes@.take(j as int).map_values(|b: u8| printable(b)));
    }
    assert(bytes@.take(j as int) =~= bytes@);
    push_text(&mut out, "|");
    assert(out@ =~= row_text(addr, bytes@, ascii));
    out
}

fn dump_bus<B: Bus>(bus: &mut B, start: u16, len: usize, ascii: bool) -> (lines: Vec<String>)
    requires
        old(bus).wf(),
    ensures
        final(bus).wf(),
        (texts(lines@), final(bus)@) == dumped::<B>(old(bus)@, start, len as int, ascii),
{
    let mut lines: Vec<String> = Vec::new();
    let mut addr: u16 = start;
    let mut left: usize = len;
    assert(texts(lines@) + dumped::<B>(bus@, addr, left as int, ascii).0 =~= dumped::<B>(
        old(bus)@,
        start,
        len as int,
        ascii,
    ).0);
    while left > 0
        invariant
            bus.wf(),
            texts(lines@) + dumped::<B>(bus@, addr, left as int, ascii).0 == dumped::<B>(
                old(bus)@,
                start,
                len as int,
                ascii,
            ).0,
            dumped::<B>(bus@, addr, left as int, ascii).1 == dumped::<B>(
                old(bus)@,
                start,
                len as int,
                ascii,
            ).1,
        decreases left,
    {
        let n: usize = if left < 16 {
            left
        } else {
            16
        };
        let ghost m = bus@;
        let ghost before = lines@;
        let mut bytes: Vec<u8> = Vec::new();
        while bytes.len() < n
            invariant
                bus.wf(),
                bytes@.len() <= n <= 16,
                read_row::<B>(m, addr, n as int, Seq::empty()) == read_row::<B>(
                    bus@,
                    addr,
                    n as int,
                    bytes@,
                ),
            decreases n - bytes@.len(),
        {
            let b: u8 = bus.read8(offset_by(addr, bytes.len() as i32));
            bytes.push(b);
        }
        let line: String = row(addr, &bytes, ascii);
        lines.push(line);
        proof {
            assert(texts(lines@) =~= texts(before).push(line@));
            let rest = dumped::<B>(bus@, offset(addr, n as int), left - n, ascii).0;
            assert(texts(before).push(line@) + rest =~= texts(before) + (seq![line@] + rest));
        }
        addr = offset_by(addr, n as i32);
        left = left - n;
    }
    assert(texts(lines@) + Seq::<Seq<char>>::empty() =~= texts(lines@));
    lines
}

/// The lines of a hexadecimal dump of memory, up to the last address.
pub fn dump_memory(mem: &Memory, start: u16, len: usize) -> (lines: Vec<String>)
    requires
        mem.wf(),
        start + len <= usize::MAX,
    ensures
        texts(lines@) == dumped_bytes(
            start as int,
            mem@.subrange(start as int, min_int(start + len, 65536)),
        ),
{
    let bytes: &[u8] = mem.read_slice(start, len);
    let ghost all = bytes@;
    let mut lines: Vec<String> = Vec::new();
    let mut at: usize = 0;
    assert(all.skip(0) =~= all);
    assert(texts(lines@) + dumped_bytes(start as int, all) =~= dumped_bytes(start as int, all));
    while at < bytes.len()
        invariant
            at <= all.len(),
            bytes@ == all,
            start + all.len() <= 65536,
            texts(lines@) + dumped_bytes(start + at, all.skip(at as int)) == dumped_bytes(
                start as int,
                all,
            ),
        decreases all.len() - at,
    {
        let ghost before = lines@;
        let left: usize = bytes.len() - at;
        let n: usize = if left < 16 {
            left
        } else {
            16
        };
        let mut chunk: Vec<u8> = Vec::new();
        while chunk.len() < n
            invariant
                chunk@.len() <= n <= 16,
                at + n <= all.len() <= 65536,
                bytes@ == all,
                chunk@ == all.subrange(at as int, at + chunk@.len()),
            decreases n - chunk@.len(),
        {
            chunk.push(bytes[at + chunk.len()]);
            assert(chunk@ =~= all.subrange(at as int, at + chunk@.len()));
        }
        let line: String = row((start as usize + at) as u16, &chunk, false);
        lines.push(line);
        proof {
            assert(chunk@ =~= all.skip(at as int).take(n as int));
            assert(all.skip(at as int).skip(n as int) =~= all.skip(at + n));
            assert(texts(lines@) =~= texts(before).push(line@));
            let rest = dumped_bytes(start + at + n, all.skip(at + n));
            assert(texts(before).push(line@) + rest =~= texts(before) + (seq![line@] + rest));
        }
        at = at + n;
    }
    assert(all.skip(at as int) =~= Seq::<u8>::empty());
    assert(texts(lines@) + Seq::<Seq<char>>::empty() =~= texts(lines@));
    lines
}

/// The lines of a hexadecimal dump through a bus.
pub fn dump_memory_bus<B: Bus>(bus: &mut B, start: u16, len: usize) -> (lines: Vec<String>)
    requires
        old(bus).wf(),
    ensures
        final(bus).wf(),
        (texts(lines@), final(bus)@) == dumped::<B>(old(bus)@, start, len as int, false),
{
    dump_bus(bus, start, len, false)
}

/// The lines of a hexadecimal and ASCII dump through a bus.
pub fn dump_memory_ascii<B: Bus>(bus: &mut B, start: u16, len: usize) -> (lines: Vec<String>)
    requires
        old(bus).wf(),
    ensures
        final(bus).wf(),
        (texts(lines@), final(bus)@) == dumped::<B>(old(bus)@, start, len as int, true),
{
    dump_bus(bus, start, len, true)
}

} // verus!
