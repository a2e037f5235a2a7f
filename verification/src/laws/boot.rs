//! Boot scripts and MMU configurations.

use crate::alu::{flag, offset, with_flag};
use crate::bootscript::{
    acted, action_name, block_after, block_in, block_warning, console_after, console_in,
    console_warning, counted_up, due, fired, is_block_action, is_console_action, mmu_warning,
    mmu_write, post_stepped, Action, BootState, BootTarget, Moment, SequencerState, Trigger,
};
use crate::bus::Bus;
use crate::config::{
    configured, preset_names, preset_settings, preset_state, set_all, set_by, Setting,
};
use crate::io::block::BlockState;
use crate::io::console::ConsoleState;
use crate::io::{first_of, kind_of, BlockDev, Device, DeviceKind, Mc6850Dev, SlotState};
use crate::laws::addressing::law_flag_bits;
use crate::laws::devices::law_console_control;
use crate::laws::tracing::{begins, shows};
use crate::mmu::{Mc6829, MmuState};
use crate::text::hex4;
use vstd::prelude::*;

verus! {

/// Whether a bus has nothing for an action to act on.
pub open spec fn targetless<B: BootTarget>(m: B::V, act: Action) -> bool {
    ||| mmu_write(act) is Some && !B::with_mmu()
    ||| is_console_action(act) && !console_in(B::reach(m))
    ||| is_block_action(act) && !block_in(B::reach(m))
}

/// An action without a target leaves the bus and the CPU alone and counts once
/// under its own kind only.
pub proof fn law_action_without_target<B: BootTarget>(
    b: BootState<B::V>,
    regs_base: u16,
    act: Action,
    cpu: bool,
)
    requires
        targetless::<B>(b.m, act),
    ensures
        ({
            let after = acted::<B>(b, regs_base, act, cpu);
            &&& after.m == b.m
            &&& after.cc == b.cc
            &&& after.seq.triggers == b.seq.triggers
            &&& after.seq.step == b.seq.step
            &&& after.seq.mmu_missing == if mmu_write(act) is Some {
                counted_up(b.seq.mmu_missing)
            } else {
                b.seq.mmu_missing
            }
            &&& after.seq.console_missing == if is_console_action(act) {
                counted_up(b.seq.console_missing)
            } else {
                b.seq.console_missing
            }
            &&& after.seq.block_missing == if is_block_action(act) {
                counted_up(b.seq.block_missing)
            } else {
                b.seq.block_missing
            }
        }),
{
}

/// An action that has a target counts as missing nothing and warns of nothing.
pub proof fn law_action_with_target<B: BootTarget>(
    b: BootState<B::V>,
    regs_base: u16,
    act: Action,
    cpu: bool,
)
    requires
        !targetless::<B>(b.m, act),
    ensures
        acted::<B>(b, regs_base, act, cpu).seq == b.seq,
{
}

/// A missing device is warned of once only.
pub proof fn law_one_warning<B: BootTarget>(
    b: BootState<B::V>,
    regs_base: u16,
    act: Action,
    cpu: bool,
)
    requires
        targetless::<B>(b.m, act),
    ensures
        ({
            let once = acted::<B>(b, regs_base, act, cpu);
            acted::<B>(once, regs_base, act, cpu).seq.warnings == once.seq.warnings
        }),
{
}

/// The masks are set in the condition codes and nowhere else.
pub proof fn law_mask_actions<B: BootTarget>(b: BootState<B::V>, regs_base: u16, on: bool)
    ensures
        acted::<B>(b, regs_base, Action::IrqMask(on), true) == (BootState::<B::V> {
            cc: with_flag(b.cc, 0x10, on),
            ..b
        }),
        acted::<B>(b, regs_base, Action::FirqMask(on), true) == (BootState::<B::V> {
            cc: with_flag(b.cc, 0x40, on),
            ..b
        }),
{
}

proof fn lemma_fired_from<B: BootTarget>(
    b: BootState<B::V>,
    first: Seq<Trigger>,
    then: Seq<Trigger>,
    i: int,
    regs_base: u16,
    when: Moment,
)
    requires
        0 <= i <= first.len(),
    ensures
        fired::<B>(b, first + then, i, regs_base, when) == fired::<B>(
            fired::<B>(b, first, i, regs_base, when),
            first + then,
            first.len() as int,
            regs_base,
            when,
        ),
    decreases first.len() - i,
{
    if i < first.len() {
        assert((first + then)[i] == first[i]);
        let c = match due(first[i], when) {
            Some(act) => acted::<B>(b, regs_base, act, when is Pc),
            None => b,
        };
        lemma_fired_from::<B>(c, first, then, i + 1, regs_base, when);
    }
}

proof fn lemma_fired_shift<B: BootTarget>(
    b: BootState<B::V>,
    first: Seq<Trigger>,
    then: Seq<Trigger>,
    i: int,
    regs_base: u16,
    when: Moment,
)
    requires
        0 <= i <= then.len(),
    ensures
        fired::<B>(b, first + then, first.len() + i, regs_base, when) == fired::<B>(
            b,
            then,
            i,
            regs_base,
            when,
        ),
    decreases then.len() - i,
{
    if i < then.len() {
        assert((first + then)[first.len() + i] == then[i]);
        let c = match due(then[i], when) {
            Some(act) => acted::<B>(b, regs_base, act, when is Pc),
            None => b,
        };
        lemma_fired_shift::<B>(c, first, then, i + 1, regs_base, when);
    }
}

/// A script does what its parts do, one behind the other.
pub proof fn law_script_in_order<B: BootTarget>(
    b: BootState<B::V>,
    first: Seq<Trigger>,
    then: Seq<Trigger>,
    regs_base: u16,
    when: Moment,
)
    ensures
        fired::<B>(b, first + then, 0, regs_base, when) == fired::<B>(
            fired::<B>(b, first, 0, regs_base, when),
            then,
            0,
            regs_base,
            when,
        ),
{
    lemma_fired_from::<B>(b, first, then, 0, regs_base, when);
    lemma_fired_shift::<B>(
        fired::<B>(b, first, 0, regs_base, when),
        first,
        then,
        0,
        regs_base,
        when,
    );
}

proof fn lemma_none_due<B: BootTarget>(
    b: BootState<B::V>,
    triggers: Seq<Trigger>,
    i: int,
    regs_base: u16,
    when: Moment,
)
    requires
        0 <= i <= triggers.len(),
        forall|k: int| 0 <= k < triggers.len() ==> due(#[trigger] triggers[k], when) is None,
    ensures
        fired::<B>(b, triggers, i, regs_base, when) == b,
    decreases triggers.len() - i,
{
    if i < triggers.len() {
        lemma_none_due::<B>(b, triggers, i + 1, regs_base, when);
    }
}

/// Where no trigger is due nothing happens.
pub proof fn law_nothing_due<B: BootTarget>(
    b: BootState<B::V>,
    triggers: Seq<Trigger>,
    regs_base: u16,
    when: Moment,
)
    requires
        forall|k: int| 0 <= k < triggers.len() ==> due(#[trigger] triggers[k], when) is None,
    ensures
        fired::<B>(b, triggers, 0, regs_base, when) == b,
{
    lemma_none_due::<B>(b, triggers, 0, regs_base, when);
}

/// The actions of the triggers on step `n`, in order.
pub open spec fn actions_at(triggers: Seq<Trigger>, n: u64) -> Seq<Action>
    decreases triggers.len(),
{
    if triggers.len() == 0 {
        Seq::empty()
    } else {
        let front = actions_at(triggers.drop_last(), n);
        match triggers.last() {
            Trigger::OnStep(k, act) => if k == n {
                front.push(act)
            } else {
                front
            },
            _ => front,
        }
    }
}

/// The state behind a run of actions without a CPU at hand.
pub open spec fn acted_all<B: BootTarget>(
    b: BootState<B::V>,
    regs_base: u16,
    acts: Seq<Action>,
) -> BootState<B::V>
    decreases acts.len(),
{
    if acts.len() == 0 {
        b
    } else {
        acted::<B>(acted_all::<B>(b, regs_base, acts.drop_last()), regs_base, acts.last(), false)
    }
}

/// A sequencer behind calls after a step, each with the bus as it stands then
/// and the place of the MMU registers.
pub open spec fn post_steps<B: BootTarget>(
    seq: SequencerState,
    calls: Seq<(B::V, u16)>,
) -> SequencerState
    decreases calls.len(),
{
    if calls.len() == 0 {
        seq
    } else {
        let (m, regs_base) = calls.last();
        post_stepped::<B>(post_steps::<B>(seq, calls.drop_last()), m, regs_base).0
    }
}

proof fn lemma_fired_at<B: BootTarget>(
    b: BootState<B::V>,
    triggers: Seq<Trigger>,
    regs_base: u16,
    n: u64,
)
    ensures
        fired::<B>(b, triggers, 0, regs_base, Moment::Step(n)) == acted_all::<B>(
            b,
            regs_base,
            actions_at(triggers, n),
        ),
    decreases triggers.len(),
{
    if triggers.len() > 0 {
        let front = triggers.drop_last();
        let last = seq![triggers.last()];
        let when = Moment::Step(n);
        assert(front + last =~= triggers);
        lemma_fired_at::<B>(b, front, regs_base, n);
        law_script_in_order::<B>(b, front, last, regs_base, when);
        let c = fired::<B>(b, front, 0, regs_base, when);
        reveal_with_fuel(fired, 2);
        if let Some(act) = due(triggers.last(), when) {
            let acts = actions_at(triggers, n);
            assert(acts.drop_last() =~= actions_at(front, n));
            assert(fired::<B>(c, last, 0, regs_base, when) == acted::<B>(c, regs_base, act, false));
        }
    }
}

proof fn lemma_acted_all_keeps<B: BootTarget>(
    b: BootState<B::V>,
    regs_base: u16,
    acts: Seq<Action>,
)
    ensures
        acted_all::<B>(b, regs_base, acts).seq.triggers == b.seq.triggers,
        acted_all::<B>(b, regs_base, acts).seq.step == b.seq.step,
    decreases acts.len(),
{
    if acts.len() > 0 {
        lemma_acted_all_keeps::<B>(b, regs_base, acts.drop_last());
    }
}

proof fn lemma_post_steps<B: BootTarget>(seq: SequencerState, calls: Seq<(B::V, u16)>)
    requires
        seq.step == 0,
        calls.len() < u64::MAX,
    ensures
        post_steps::<B>(seq, calls).triggers == seq.triggers,
        post_steps::<B>(seq, calls).step == calls.len(),
    decreases calls.len(),
{
    if calls.len() > 0 {
        let (m, regs_base) = calls.last();
        lemma_post_steps::<B>(seq, calls.drop_last());
        let s = post_steps::<B>(seq, calls.drop_last());
        let n = calls.len() as u64;
        let b = BootState::<B::V> { seq: SequencerState { step: n, ..s }, m, cc: 0 };
        lemma_fired_at::<B>(b, s.triggers, regs_base, n);
        lemma_acted_all_keeps::<B>(b, regs_base, actions_at(s.triggers, n));
    }
}

/// Behind `calls`, each made after one step of a new sequence, the next call
/// carries out the actions of the triggers on that step, in order, and no
/// others.
pub proof fn law_post_step_actions<B: BootTarget>(
    seq: SequencerState,
    calls: Seq<(B::V, u16)>,
    m: B::V,
    regs_base: u16,
)
    requires
        seq.step == 0,
        calls.len() + 1 < u64::MAX,
    ensures
        ({
            let n = (calls.len() + 1) as u64;
            let s = post_steps::<B>(seq, calls);
            let b = BootState::<B::V> { seq: SequencerState { step: n, ..s }, m, cc: 0 };
            let after = acted_all::<B>(b, regs_base, actions_at(seq.triggers, n));
            post_stepped::<B>(s, m, regs_base) == (after.seq, after.m)
        }),
{
    lemma_post_steps::<B>(seq, calls);
    let n = (calls.len() + 1) as u64;
    let s = post_steps::<B>(seq, calls);
    let b = BootState::<B::V> { seq: SequencerState { step: n, ..s }, m, cc: 0 };
    lemma_fired_at::<B>(b, s.triggers, regs_base, n);
}

/// A trigger on a step is due behind that step alone, behind no step where the
/// step is 0; a trigger on a program counter is due behind none.
pub proof fn law_step_trigger_once(t: Trigger, i: u64, j: u64)
    requires
        due(t, Moment::Step(i)) is Some,
        due(t, Moment::Step(j)) is Some,
    ensures
        i == j,
        t matches Trigger::OnStep(n, act) && n == i && due(t, Moment::Step(i)) == Some(act),
{
}

/// The number of MMU actions among the triggers on the steps 1 to `k`.
pub open spec fn mmu_actions_to(triggers: Seq<Trigger>, k: int) -> nat
    decreases triggers.len(),
{
    if triggers.len() == 0 {
        0
    } else {
        mmu_actions_to(triggers.drop_last(), k) + match triggers.last() {
            Trigger::OnStep(n, act) => if 1 <= n <= k && mmu_write(act) is Some {
                1nat
            } else {
                0
            },
            _ => 0,
        }
    }
}

/// The number of MMU actions in a list.
pub open spec fn mmu_actions(acts: Seq<Action>) -> nat
    decreases acts.len(),
{
    if acts.len() == 0 {
        0
    } else {
        mmu_actions(acts.drop_last()) + if mmu_write(acts.last()) is Some {
            1nat
        } else {
            0
        }
    }
}

proof fn lemma_mmu_actions_at(triggers: Seq<Trigger>, n: u64)
    requires
        n >= 1,
    ensures
        mmu_actions_to(triggers, n as int) == mmu_actions_to(triggers, n - 1) + mmu_actions(
            actions_at(triggers, n),
        ),
    decreases triggers.len(),
{
    if triggers.len() > 0 {
        let front = triggers.drop_last();
        lemma_mmu_actions_at(front, n);
        let acts = actions_at(triggers, n);
        if let Trigger::OnStep(k, act) = triggers.last() {
            if k == n {
                assert(acts.drop_last() =~= actions_at(front, n));
            }
        }
    }
}

/// A count `by` up; the highest stays.
pub open spec fn raised(count: u64, by: nat) -> u64 {
    if count + by > u64::MAX {
        u64::MAX
    } else {
        (count + by) as u64
    }
}

proof fn lemma_mmu_missed<B: BootTarget>(b: BootState<B::V>, regs_base: u16, acts: Seq<Action>)
    requires
        !B::with_mmu(),
    ensures
        acted_all::<B>(b, regs_base, acts).seq.mmu_missing == raised(
            b.seq.mmu_missing,
            mmu_actions(acts),
        ),
    decreases acts.len(),
{
    if acts.len() > 0 {
        lemma_mmu_missed::<B>(b, regs_base, acts.drop_last());
    }
}

/// On buses without an MMU, `k` calls after a step count the MMU actions among
/// the triggers on the steps 1 to `k`.
pub proof fn law_post_step_missing_mmu<B: BootTarget>(
    seq: SequencerState,
    calls: Seq<(B::V, u16)>,
)
    requires
        !B::with_mmu(),
        seq.step == 0,
        calls.len() < u64::MAX,
    ensures
        post_steps::<B>(seq, calls).mmu_missing == raised(
            seq.mmu_missing,
            mmu_actions_to(seq.triggers, calls.len() as int),
        ),
    decreases calls.len(),
{
    if calls.len() > 0 {
        let (m, regs_base) = calls.last();
        let before = calls.drop_last();
        law_post_step_missing_mmu::<B>(seq, before);
        lemma_post_steps::<B>(seq, before);
        let s = post_steps::<B>(seq, before);
        let n = calls.len() as u64;
        let b = BootState::<B::V> { seq: SequencerState { step: n, ..s }, m, cc: 0 };
        lemma_fired_at::<B>(b, s.triggers, regs_base, n);
        lemma_mmu_missed::<B>(b, regs_base, actions_at(s.triggers, n));
        lemma_mmu_actions_at(seq.triggers, n);
    } else {
        lemma_no_actions_to_zero(seq.triggers);
    }
}

proof fn lemma_no_actions_to_zero(triggers: Seq<Trigger>)
    ensures
        mmu_actions_to(triggers, 0) == 0,
    decreases triggers.len(),
{
    if triggers.len() > 0 {
        lemma_no_actions_to_zero(triggers.drop_last());
    }
}

/// The setting that an action of a script stands for.
pub open spec fn setting_behind(act: Action) -> Option<Setting> {
    match act {
        Action::Mode(sys) => Some(Setting::Mode(sys)),
        Action::Prot(v) => Some(Setting::Prot(v)),
        Action::MapPage(p, f) => Some(Setting::MapPage(p, f)),
        Action::Attr(p, v) => Some(Setting::Attr(p, v)),
        _ => None,
    }
}

/// A write to the register window reaches the register.
proof fn lemma_register(m: MmuState, reg: u16, v: u8)
    requires
        m.regs_enable,
        reg < 0x28,
    ensures
        Mc6829::write_next(m, offset(m.regs_base, reg as int), v) == m.reg_write(reg, v),
{
    let addr = offset(m.regs_base, reg as int);
    assert(m.window(addr) == reg);
}

/// An MMU action at the register window of an MMU does what the same statement
/// of a configuration does, for frames that fit a register.
pub proof fn law_script_as_configuration(b: BootState<MmuState>, act: Action, cpu: bool)
    requires
        b.m.valid(),
        b.m.regs_enable,
        setting_behind(act) is Some,
        act matches Action::MapPage(p, f) ==> p < 16 && f < 256,
        act matches Action::Attr(p, v) ==> p < 16,
    ensures
        acted::<Mc6829>(b, b.m.regs_base, act, cpu) == (BootState::<MmuState> {
            m: set_by(b.m, setting_behind(act)->0),
            ..b
        }),
{
    let (reg, v) = mmu_write(act)->0;
    lemma_register(b.m, reg as u16, v);
}

proof fn lemma_configured_from(
    m: MmuState,
    first: Seq<Seq<char>>,
    then: Seq<Seq<char>>,
    i: int,
)
    requires
        0 <= i <= first.len(),
        configured(m, first, i).1 is None,
    ensures
        configured(m, first + then, i) == configured(
            configured(m, first, i).0,
            first + then,
            first.len() as int,
        ),
    decreases first.len() - i,
{
    if i < first.len() {
        assert((first + then)[i] == first[i]);
        let words = crate::text::words_of(first[i]);
        if crate::config::is_comment(words) {
            lemma_configured_from(m, first, then, i + 1);
        } else {
            match crate::config::line_setting(words) {
                Ok(s) => {
                    lemma_configured_from(set_by(m, s), first, then, i + 1);
                },
                Err(r) => {},
            }
        }
    }
}

/// The lines of a configuration act one behind the other: what a part without
/// mistakes sets is in force when the rest begins.
pub proof fn law_configuration_in_order(m: MmuState, first: Seq<Seq<char>>, then: Seq<Seq<char>>)
    requires
        configured(m, first, 0).1 is None,
    ensures
        configured(m, first + then, 0) == configured(
            configured(m, first, 0).0,
            first + then,
            first.len() as int,
        ),
{
    lemma_configured_from(m, first, then, 0);
}

/// A setting made twice is the same as made once, but for the log of mappings.
pub proof fn law_setting_twice(m: MmuState, s: Setting)
    requires
        m.valid(),
        crate::config::in_range(s),
    ensures
        (MmuState { log: m.log, ..set_by(set_by(m, s), s) }) == (MmuState {
            log: m.log,
            ..set_by(m, s)
        }),
{
    let once = set_by(m, s);
    let twice = set_by(once, s);
    assert(once.map_user =~= twice.map_user);
    assert(once.map_sys =~= twice.map_sys);
    assert(once.attr_user =~= twice.attr_user);
    assert(once.attr_sys =~= twice.attr_sys);
}

/// The presets that are listed are those that are accepted.
pub proof fn law_presets_listed(name: Seq<char>)
    ensures
        preset_settings(name) is Some <==> preset_names().contains(name),
{
    let names = preset_names();
    if preset_settings(name) is Some {
        assert(names[0] == "identity"@);
        assert(names[1] == "os9l2"@);
        assert(names[2] == "os9l2-basic"@);
        assert(names[3] == "os9l2-sysmap"@);
        assert(names[4] == "os9l2-boot"@);
        assert(names[5] == "os9l2-io"@);
        assert(names[6] == "os9l2-ramdisk"@);
    }
}

/// Whether the vectors are write-protected.
#[verifier::opaque]
pub open spec fn vectors_guarded(m: MmuState) -> bool {
    m.valid() && m.guarded(0xF000, 0x01, 0x01)
}

proof fn lemma_settings(m: MmuState, s: Seq<Setting>, x: Setting)
    ensures
        set_all(m, s.push(x)) == set_by(set_all(m, s), x),
        set_all(m, Seq::empty()) == m,
{
    assert(s.push(x).drop_last() =~= s);
}

proof fn lemma_guard_set(m: MmuState)
    requires
        m.valid(),
        flag(m.prot_ctrl, 0x01),
    ensures
        vectors_guarded(set_by(m, Setting::Attr(0x0F, 0x01))),
{
    reveal(vectors_guarded);
    assert(0x01u8 & 0x01 != 0) by (bit_vector);
}

proof fn lemma_guard_kept(m: MmuState, s: Setting)
    requires
        vectors_guarded(m),
        (s matches Setting::MapPage(p, f) && p < 16) || (s matches Setting::Attr(p, v) && p < 15),
    ensures
        vectors_guarded(set_by(m, s)),
{
    reveal(vectors_guarded);
}

/// A mode, a protection and attributes of page 0 leave an MMU valid and the
/// protection as it was set.
proof fn lemma_protection(m: MmuState, sys: bool, v: u8)
    requires
        m.valid(),
        v == 0x03 || v == 0x0B,
    ensures
        ({
            let a = set_by(set_by(m, Setting::Mode(sys)), Setting::Prot(v));
            let b = set_by(a, Setting::Attr(0x00, 0x04));
            &&& a.valid()
            &&& flag(a.prot_ctrl, 0x01)
            &&& b.valid()
            &&& flag(b.prot_ctrl, 0x01)
        }),
{
    assert(0x03u8 & 0x01 != 0 && 0x0Bu8 & 0x01 != 0) by (bit_vector);
}

proof fn lemma_user_preset(m: MmuState)
    requires
        m.valid(),
    ensures
        vectors_guarded(
            set_all(
                m,
                seq![Setting::Mode(false), Setting::Prot(0x03), Setting::Attr(0x0F, 0x01)],
            ),
        ),
{
    let s0 = Seq::<Setting>::empty();
    let s1 = s0.push(Setting::Mode(false));
    let s2 = s1.push(Setting::Prot(0x03));
    lemma_settings(m, s0, Setting::Mode(false));
    lemma_settings(m, s1, Setting::Prot(0x03));
    lemma_settings(m, s2, Setting::Attr(0x0F, 0x01));
    lemma_protection(m, false, 0x03);
    lemma_guard_set(set_all(m, s2));
    assert(s2.push(Setting::Attr(0x0F, 0x01)) =~= seq![
        Setting::Mode(false),
        Setting::Prot(0x03),
        Setting::Attr(0x0F, 0x01),
    ]);
}

proof fn lemma_system_preset(m: MmuState)
    requires
        m.valid(),
    ensures
        vectors_guarded(
            set_all(
                m,
                seq![
                    Setting::Mode(true),
                    Setting::Prot(0x0B),
                    Setting::Attr(0x00, 0x04),
                    Setting::Attr(0x0F, 0x01),
                ],
            ),
        ),
{
    let s0 = Seq::<Setting>::empty();
    let s1 = s0.push(Setting::Mode(true));
    let s2 = s1.push(Setting::Prot(0x0B));
    let s3 = s2.push(Setting::Attr(0x00, 0x04));
    lemma_settings(m, s0, Setting::Mode(true));
    lemma_settings(m, s1, Setting::Prot(0x0B));
    lemma_settings(m, s2, Setting::Attr(0x00, 0x04));
    lemma_settings(m, s3, Setting::Attr(0x0F, 0x01));
    lemma_protection(m, true, 0x0B);
    lemma_guard_set(set_all(m, s3));
    assert(s3.push(Setting::Attr(0x0F, 0x01)) =~= seq![
        Setting::Mode(true),
        Setting::Prot(0x0B),
        Setting::Attr(0x00, 0x04),
        Setting::Attr(0x0F, 0x01),
    ]);
}

proof fn lemma_guard_kept_behind(m: MmuState, s: Seq<Setting>, x: Setting)
    requires
        vectors_guarded(set_all(m, s)),
        (x matches Setting::MapPage(p, f) && p < 16) || (x matches Setting::Attr(p, v) && p < 15),
    ensures
        vectors_guarded(set_all(m, s.push(x))),
{
    lemma_settings(m, s, x);
    lemma_guard_kept(set_all(m, s), x);
}

proof fn lemma_preset_guards(m: MmuState, settings: Seq<Setting>, name: Seq<char>)
    requires
        m.valid(),
        preset_settings(name) == Some(settings),
        name != "identity"@,
    ensures
        vectors_guarded(set_all(m, settings)),
{
    lemma_user_preset(m);
    lemma_system_preset(m);
    if name == "os9l2"@ || name == "os9l2-basic"@ {
    } else if name == "os9l2-sysmap"@ || name == "os9l2-boot"@ {
    } else if name == "os9l2-io"@ {
        let s4 = seq![
            Setting::Mode(true),
            Setting::Prot(0x0B),
            Setting::Attr(0x00, 0x04),
            Setting::Attr(0x0F, 0x01),
        ];
        let s5 = s4.push(Setting::Attr(0x0E, 0x04));
        lemma_guard_kept_behind(m, s4, Setting::Attr(0x0E, 0x04));
        lemma_guard_kept_behind(m, s5, Setting::MapPage(0x0E, 0xFE));
        assert(s5.push(Setting::MapPage(0x0E, 0xFE)) =~= settings);
    } else if name == "os9l2-ramdisk"@ {
        let s3 = seq![Setting::Mode(false), Setting::Prot(0x03), Setting::Attr(0x0F, 0x01)];
        let s4 = s3.push(Setting::MapPage(0x08, 0xC0));
        let s5 = s4.push(Setting::MapPage(0x09, 0xC1));
        let s6 = s5.push(Setting::MapPage(0x0A, 0xC2));
        lemma_guard_kept_behind(m, s3, Setting::MapPage(0x08, 0xC0));
        lemma_guard_kept_behind(m, s4, Setting::MapPage(0x09, 0xC1));
        lemma_guard_kept_behind(m, s5, Setting::MapPage(0x0A, 0xC2));
        lemma_guard_kept_behind(m, s6, Setting::MapPage(0x0B, 0xC3));
        assert(s6.push(Setting::MapPage(0x0B, 0xC3)) =~= settings);
    }
}

/// Every preset but `identity` write-protects the vectors.
pub proof fn law_presets_protect_vectors(m: MmuState, name: Seq<char>, addr: u16)
    requires
        m.valid(),
        preset_settings(name) is Some,
        name != "identity"@,
        addr >= 0xF000,
    ensures
        preset_state(m, preset_settings(name)->0).guarded(addr, 0x01, 0x01),
{
    let settings = preset_settings(name)->0;
    let start = (MmuState { task: 0, ..m }).with_identity();
    lemma_preset_guards(start, settings, name);
    reveal(vectors_guarded);
    assert(addr as int / 4096 == 15);
}

/// The first console of a device list stands at place `k`.
pub open spec fn first_console<W>(devices: Seq<SlotState<W>>, k: int) -> bool {
    &&& 0 <= k < devices.len()
    &&& devices[k] is Console
    &&& forall|j: int| 0 <= j < k ==> !(#[trigger] devices[j] is Console)
}

/// The first block device of a device list stands at place `k`.
pub open spec fn first_block<W>(devices: Seq<SlotState<W>>, k: int) -> bool {
    &&& 0 <= k < devices.len()
    &&& devices[k] is Block
    &&& forall|j: int| 0 <= j < k ==> !(#[trigger] devices[j] is Block)
}

proof fn lemma_first<W>(devices: Seq<SlotState<W>>, kind: DeviceKind, i: int, k: int)
    requires
        0 <= i <= k < devices.len(),
        kind_of(devices[k]) == kind,
        forall|j: int| i <= j < k ==> kind_of(#[trigger] devices[j]) != kind,
    ensures
        first_of(devices, kind, i) == k,
    decreases k - i,
{
    if i < k {
        lemma_first(devices, kind, i + 1, k);
    }
}

/// The state with the device at place `k` that the bus reaches replaced.
pub open spec fn with_device<B: BootTarget>(
    b: BootState<B::V>,
    k: int,
    d: SlotState<B::Other>,
) -> BootState<B::V> {
    BootState { m: B::reached(b.m, B::reach(b.m)->0.update(k, d)), ..b }
}

proof fn lemma_console_action<B: BootTarget>(
    b: BootState<B::V>,
    regs_base: u16,
    act: Action,
    cpu: bool,
    k: int,
)
    requires
        B::reach(b.m) is Some,
        first_console(B::reach(b.m)->0, k),
        is_console_action(act),
    ensures
        acted::<B>(b, regs_base, act, cpu) == with_device::<B>(
            b,
            k,
            SlotState::Console(console_after(B::reach(b.m)->0[k]->Console_0, act)),
        ),
{
    let devices = B::reach(b.m)->0;
    assert forall|j: int| 0 <= j < k implies kind_of(#[trigger] devices[j])
        != DeviceKind::Console by {
        assert(!(devices[j] is Console));
    }
    lemma_first(devices, DeviceKind::Console, 0, k);
    assert(mmu_write(act) is None);
}

/// The control action of a script acts on the first console that the bus
/// reaches and on nothing else: it leaves that console as a write of its control
/// register does, with the receive interrupt on exactly where bit 7 is set, and
/// in master reset exactly where both low bits are.
#[verifier::spinoff_prover]
pub proof fn law_console_control_action<B: BootTarget>(
    b: BootState<B::V>,
    regs_base: u16,
    cpu: bool,
    k: int,
    v: u8,
)
    requires
        B::reach(b.m) is Some,
        first_console(B::reach(b.m)->0, k),
    ensures
        ({
            let c = B::reach(b.m)->0[k]->Console_0;
            let ctrl = Mc6850Dev::write_next(c, c.base, v);
            &&& acted::<B>(b, regs_base, Action::ConCtrl(v), cpu) == with_device::<B>(
                b,
                k,
                SlotState::Console(ctrl),
            )
            &&& ctrl.rie == (v >= 128)
            &&& ctrl.in_master_reset == (v % 4 == 3)
            &&& ctrl.tx_irq_enable == (v / 32 % 4 == 1)
        }),
{
    let c = B::reach(b.m)->0[k]->Console_0;
    lemma_console_action::<B>(b, regs_base, Action::ConCtrl(v), cpu, k);
    lemma_console_settings(c, v, 0, 0, false);
    law_console_control(c, v);
}

/// The action for the watermark sets it on the first console that the bus
/// reaches, to 1 at least.
#[verifier::spinoff_prover]
pub proof fn law_console_watermark_action<B: BootTarget>(
    b: BootState<B::V>,
    regs_base: u16,
    cpu: bool,
    k: int,
    n: usize,
)
    requires
        B::reach(b.m) is Some,
        first_console(B::reach(b.m)->0, k),
    ensures
        ({
            let c = B::reach(b.m)->0[k]->Console_0;
            let d = ConsoleState {
                rx_wm: if n < 1 {
                    1
                } else {
                    n
                },
                ..c
            };
            acted::<B>(b, regs_base, Action::ConRxWm(n), cpu) == with_device::<B>(
                b,
                k,
                SlotState::Console(d),
            )
        }),
{
    lemma_console_action::<B>(b, regs_base, Action::ConRxWm(n), cpu, k);
    lemma_console_settings(B::reach(b.m)->0[k]->Console_0, 0, n, 0, false);
}

/// The action for the hold sets it on the first console that the bus reaches.
#[verifier::spinoff_prover]
pub proof fn law_console_hold_action<B: BootTarget>(
    b: BootState<B::V>,
    regs_base: u16,
    cpu: bool,
    k: int,
    hold: u32,
)
    requires
        B::reach(b.m) is Some,
        first_console(B::reach(b.m)->0, k),
    ensures
        ({
            let c = B::reach(b.m)->0[k]->Console_0;
            acted::<B>(b, regs_base, Action::ConIrqHold(hold), cpu) == with_device::<B>(
                b,
                k,
                SlotState::Console(ConsoleState { irq_hold_cycles: hold, ..c }),
            )
        }),
{
    lemma_console_action::<B>(b, regs_base, Action::ConIrqHold(hold), cpu, k);
    lemma_console_settings(B::reach(b.m)->0[k]->Console_0, 0, 0, hold, false);
}

/// A console has no FIRQ: the action that asks for it changes nothing but the
/// output for the host, and not even that where it is switched off.
#[verifier::spinoff_prover]
pub proof fn law_console_firq_action<B: BootTarget>(
    b: BootState<B::V>,
    regs_base: u16,
    cpu: bool,
    k: int,
    on: bool,
)
    requires
        B::reach(b.m) is Some,
        first_console(B::reach(b.m)->0, k),
    ensures
        ({
            let c = B::reach(b.m)->0[k]->Console_0;
            &&& acted::<B>(b, regs_base, Action::ConFirq(on), cpu) == with_device::<B>(
                b,
                k,
                SlotState::Console(ConsoleState { port: c.firq_asked(on).port, ..c }),
            )
            &&& !on ==> c.firq_asked(on).port == c.port
        }),
{
    lemma_console_action::<B>(b, regs_base, Action::ConFirq(on), cpu, k);
    lemma_console_settings(B::reach(b.m)->0[k]->Console_0, 0, 0, 0, on);
}

proof fn lemma_console_settings(c: ConsoleState, v: u8, n: usize, hold: u32, on: bool)
    ensures
        console_after(c, Action::ConCtrl(v)) == Mc6850Dev::write_next(c, c.base, v),
        console_after(c, Action::ConRxWm(n)) == (ConsoleState {
            rx_wm: if n < 1 {
                1
            } else {
                n
            },
            ..c
        }),
        console_after(c, Action::ConIrqHold(hold)) == (ConsoleState { irq_hold_cycles: hold, ..c }),
        console_after(c, Action::ConFirq(on)) == (ConsoleState {
            port: c.firq_asked(on).port,
            ..c
        }),
        !on ==> c.firq_asked(on).port == c.port,
{
}

proof fn lemma_block_action<B: BootTarget>(
    b: BootState<B::V>,
    regs_base: u16,
    act: Action,
    cpu: bool,
    k: int,
)
    requires
        B::reach(b.m) is Some,
        first_block(B::reach(b.m)->0, k),
        is_block_action(act),
    ensures
        acted::<B>(b, regs_base, act, cpu) == with_device::<B>(
            b,
            k,
            SlotState::Block(block_after(B::reach(b.m)->0[k]->Block_0, act)),
        ),
{
    let devices = B::reach(b.m)->0;
    assert forall|j: int| 0 <= j < k implies kind_of(#[trigger] devices[j])
        != DeviceKind::Block by {
        assert(!(devices[j] is Block));
    }
    lemma_first(devices, DeviceKind::Block, 0, k);
    assert(mmu_write(act) is None && !is_console_action(act));
}

/// A block action acts on the first block device that the bus reaches and on
/// nothing else: it enables its interrupt, routes it to FIRQ, or sets the hold.
#[verifier::spinoff_prover]
#[verifier::rlimit(40)]
pub proof fn law_block_actions<B: BootTarget>(
    b: BootState<B::V>,
    regs_base: u16,
    cpu: bool,
    k: int,
    hold: u32,
    on: bool,
)
    requires
        B::reach(b.m) is Some,
        first_block(B::reach(b.m)->0, k),
    ensures
        ({
            let d = B::reach(b.m)->0[k]->Block_0;
            &&& acted::<B>(b, regs_base, Action::BlkIrq(on), cpu) == with_device::<B>(
                b,
                k,
                SlotState::Block(BlockState { irq_enable: on, ..d }),
            )
            &&& acted::<B>(b, regs_base, Action::BlkFirq(on), cpu) == with_device::<B>(
                b,
                k,
                SlotState::Block(BlockState { use_firq: on, ..d }),
            )
            &&& acted::<B>(b, regs_base, Action::BlkIrqHold(hold), cpu) == with_device::<B>(
                b,
                k,
                SlotState::Block(BlockState { irq_hold_cycles: hold, ..d }),
            )
        }),
{
    lemma_block_action::<B>(b, regs_base, Action::BlkIrq(on), cpu, k);
    lemma_block_action::<B>(b, regs_base, Action::BlkFirq(on), cpu, k);
    lemma_block_action::<B>(b, regs_base, Action::BlkIrqHold(hold), cpu, k);
}

/// The actions that enable the interrupt of a disk and route it are together a
/// write of its interrupt register.
pub proof fn law_block_actions_as_write(d: BlockState, on: bool, firq: bool)
    ensures
        ({
            let data = ((if on {
                1int
            } else {
                0
            }) + (if firq {
                2int
            } else {
                0
            })) as u8;
            BlockDev::write_next(d, ((d.base + 8) % 65536) as u16, data) == block_after(
                block_after(d, Action::BlkIrq(on)),
                Action::BlkFirq(firq),
            )
        }),
{
    law_flag_bits(0);
    law_flag_bits(1);
    law_flag_bits(2);
    law_flag_bits(3);
    assert(d.off(((d.base + 8) % 65536) as u16) == 8);
}

/// A warning names the action that found nothing to act on and, for the MMU,
/// the place where its registers would have been.
pub proof fn law_warnings_name_action(act: Action, regs_base: u16, seq: SequencerState)
    ensures
        ({
            let head = "[bootscript] warning: "@ + action_name(act) + " action "@;
            &&& begins(console_warning(action_name(act)), head)
            &&& begins(block_warning(action_name(act)), head)
            &&& begins(mmu_warning(action_name(act), regs_base), head)
            &&& shows(mmu_warning(action_name(act), regs_base), seq!['$'] + hex4(regs_base))
            &&& seq.console_missing == 0 ==> seq.without_console(act).warnings == seq.warnings.push(
                console_warning(action_name(act)),
            )
            &&& seq.block_missing == 0 ==> seq.without_block(act).warnings == seq.warnings.push(
                block_warning(action_name(act)),
            )
            &&& seq.mmu_missing == 0 ==> seq.without_mmu(act, regs_base).warnings == seq.warnings.push(
                mmu_warning(action_name(act), regs_base),
            )
        }),
{
    lemma_console_warning(action_name(act));
    lemma_block_warning(action_name(act));
    lemma_mmu_warning(action_name(act), regs_base);
}

proof fn lemma_console_warning(name: Seq<char>)
    ensures
        begins(console_warning(name), "[bootscript] warning: "@ + name + " action "@),
{
    reveal_strlit(" action targets the console, but no console device is attached on this bus; the action is a no-op. Enable the console in your settings or pass --console <ADDR>. (Further occurrences silenced; see docs/en/config_and_boot_script.md.)");
    reveal_strlit(" action ");
    let t = console_warning(name);
    let h = "[bootscript] warning: "@ + name + " action "@;
    assert(t.subrange(0, h.len() as int) =~= h);
}

proof fn lemma_block_warning(name: Seq<char>)
    ensures
        begins(block_warning(name), "[bootscript] warning: "@ + name + " action "@),
{
    reveal_strlit(" action targets the block device, but no block device is attached on this bus; the action is a no-op. Enable the block device in your settings or pass --block <ADDR>. (Further occurrences silenced; see docs/en/config_and_boot_script.md.)");
    reveal_strlit(" action ");
    let t = block_warning(name);
    let h = "[bootscript] warning: "@ + name + " action "@;
    assert(t.subrange(0, h.len() as int) =~= h);
}

proof fn lemma_mmu_warning(name: Seq<char>, regs_base: u16)
    ensures
        begins(mmu_warning(name, regs_base), "[bootscript] warning: "@ + name + " action "@),
        shows(mmu_warning(name, regs_base), seq!['$'] + hex4(regs_base)),
{
    let mid = " action requires an MMU on the bus, but none is attached.  The write to $"@;
    reveal_strlit(" action requires an MMU on the bus, but none is attached.  The write to $");
    reveal_strlit(" action ");
    let t = mmu_warning(name, regs_base);
    let h = "[bootscript] warning: "@ + name + " action "@;
    assert(t.subrange(0, h.len() as int) =~= h);
    let front = "[bootscript] warning: "@ + name + mid;
    let i = front.len() - 1;
    let sign = seq!['$'] + hex4(regs_base);
    assert(mid[mid.len() - 1] == '$');
    assert(t.subrange(i, i + sign.len()) =~= sign);
}

/// An MMU action is one write of a register of the MMU: the mode at `+$11`, the
/// protection at `+$12`, the frame of page `p` at `+p`, its attributes at
/// `+$18` and `p` more.
pub proof fn law_mmu_actions<B: BootTarget>(
    b: BootState<B::V>,
    regs_base: u16,
    cpu: bool,
    page: usize,
    frame: u16,
    v: u8,
    sys: bool,
)
    requires
        B::with_mmu(),
        page < 16,
    ensures
        ({
            let put = |reg: int, data: u8|
                BootState {
                    m: B::write_next(b.m, ((regs_base + reg) % 65536) as u16, data),
                    ..b
                };
            &&& acted::<B>(b, regs_base, Action::Mode(true), cpu) == put(17, 1)
            &&& acted::<B>(b, regs_base, Action::Mode(false), cpu) == put(17, 0)
            &&& acted::<B>(b, regs_base, Action::Prot(v), cpu) == put(18, v)
            &&& acted::<B>(b, regs_base, Action::MapPage(page, frame), cpu) == put(
                page as int,
                (frame % 256) as u8,
            )
            &&& acted::<B>(b, regs_base, Action::Attr(page, v), cpu) == put(24 + page, v)
        }),
{
}

} // verus!
