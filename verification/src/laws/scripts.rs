//! The statements of boot scripts and MMU configurations.

use crate::bootscript::{
    action_name, action_of, is_action, scripted, switched_on, trigger_of, Action, Trigger,
};
use crate::config::{configured, is_comment, line_setting, set_by, setting_of, Refusal, Setting};
use crate::laws::mmu::{attributes_of, frame_of};
use crate::laws::tracing::{begins, ends, lemma_parts, shows};
use crate::mmu::MmuState;
use crate::text::{digits, find_from, hex_or_dec, lowered, number_of, unsigned, words_of};
use vstd::prelude::*;

verus! {

/// The names of the actions differ from each other.
proof fn lemma_names()
    ensures
        "mode"@.len() == 4 && "mode"@[0] == 'm',
        "prot"@.len() == 4 && "prot"@[0] == 'p',
        "attr"@.len() == 4 && "attr"@[0] == 'a',
        "task"@.len() == 4 && "task"@[0] == 't',
        "regs"@.len() == 4 && "regs"@[0] == 'r',
        "map"@.len() == 3,
        "con_ctrl"@.len() == 8 && "con_ctrl"@[0] == 'c' && "con_ctrl"@[4] == 'c',
        "con_firq"@.len() == 8 && "con_firq"@[0] == 'c' && "con_firq"@[4] == 'f',
        "blk_firq"@.len() == 8 && "blk_firq"@[0] == 'b',
        "irq_mask"@.len() == 8 && "irq_mask"@[0] == 'i',
        "con_rx_wm"@.len() == 9 && "con_rx_wm"@[0] == 'c',
        "firq_mask"@.len() == 9 && "firq_mask"@[0] == 'f',
        "con_irq_hold"@.len() == 12 && "con_irq_hold"@[0] == 'c',
        "blk_irq_hold"@.len() == 12 && "blk_irq_hold"@[0] == 'b',
        "blk_irq"@.len() == 7,
{
    reveal_strlit("mode");
    reveal_strlit("prot");
    reveal_strlit("attr");
    reveal_strlit("task");
    reveal_strlit("regs");
    reveal_strlit("map");
    reveal_strlit("con_ctrl");
    reveal_strlit("con_firq");
    reveal_strlit("blk_firq");
    reveal_strlit("irq_mask");
    reveal_strlit("con_rx_wm");
    reveal_strlit("firq_mask");
    reveal_strlit("con_irq_hold");
    reveal_strlit("blk_irq_hold");
    reveal_strlit("blk_irq");
}

/// An action that is read from a script bears the name that it was read under;
/// without an operand, or under another name, there is none.
pub proof fn law_action_named(cmd: Seq<char>, arg: Option<Seq<char>>, low: Seq<char>)
    ensures
        action_of(cmd, arg, low) matches Ok(act) ==> action_name(act) == cmd && arg is Some,
        is_action(cmd) && arg is None ==> action_of(cmd, arg, low) is Err,
        !is_action(cmd) ==> action_of(cmd, arg, low) is Err,
{
    lemma_names();
}

/// Actions with a number for their operand.
pub proof fn law_numbers_in_actions(a: Seq<char>, low: Seq<char>)
    ensures
        hex_or_dec(a, 255) matches Some(n) ==> {
            &&& action_of("prot"@, Some(a), low) == Ok::<Action, Seq<char>>(Action::Prot(n as u8))
            &&& action_of("con_ctrl"@, Some(a), low) == Ok::<Action, Seq<char>>(
                Action::ConCtrl(n as u8),
            )
        },
        hex_or_dec(a, 255) is None ==> action_of("prot"@, Some(a), low) is Err && action_of(
            "con_ctrl"@,
            Some(a),
            low,
        ) is Err,
        hex_or_dec(a, usize::MAX as int) matches Some(n) ==> action_of("con_rx_wm"@, Some(a), low)
            == Ok::<Action, Seq<char>>(Action::ConRxWm(n as usize)),
        hex_or_dec(a, u64::MAX as int) matches Some(n) ==> {
            let hold = (n % 0x1_0000_0000) as u32;
            &&& action_of("con_irq_hold"@, Some(a), low) == Ok::<Action, Seq<char>>(
                Action::ConIrqHold(hold),
            )
            &&& action_of("blk_irq_hold"@, Some(a), low) == Ok::<Action, Seq<char>>(
                Action::BlkIrqHold(hold),
            )
        },
{
    lemma_names();
}

/// The words that switch something on; any other word switches it off.
pub open spec fn says_on(low: Seq<char>) -> bool {
    ||| low == seq!['1']
    ||| low == seq!['o', 'n']
    ||| low == seq!['t', 'r', 'u', 'e']
    ||| low == seq!['y', 'e', 's']
}

/// Actions that switch something on or off.
pub proof fn law_switches_in_actions(a: Seq<char>, low: Seq<char>)
    ensures
        switched_on(low) == says_on(low),
        action_of("con_firq"@, Some(a), low) == Ok::<Action, Seq<char>>(
            Action::ConFirq(says_on(low)),
        ),
        action_of("blk_irq"@, Some(a), low) == Ok::<Action, Seq<char>>(
            Action::BlkIrq(says_on(low)),
        ),
        action_of("blk_firq"@, Some(a), low) == Ok::<Action, Seq<char>>(
            Action::BlkFirq(says_on(low)),
        ),
        action_of("irq_mask"@, Some(a), low) == Ok::<Action, Seq<char>>(
            Action::IrqMask(says_on(low)),
        ),
        action_of("firq_mask"@, Some(a), low) == Ok::<Action, Seq<char>>(
            Action::FirqMask(says_on(low)),
        ),
{
    lemma_names();
    reveal_strlit("1");
    reveal_strlit("on");
    reveal_strlit("true");
    reveal_strlit("yes");
    assert("1"@ =~= seq!['1']);
    assert("on"@ =~= seq!['o', 'n']);
    assert("true"@ =~= seq!['t', 'r', 'u', 'e']);
    assert("yes"@ =~= seq!['y', 'e', 's']);
}

/// The mode is system mode behind `sys` and `system`; in a script any other
/// word is user mode, in a configuration only `user` is.
pub proof fn law_modes(a: Seq<char>, low: Seq<char>)
    ensures
        ({
            let sys = low == seq!['s', 'y', 's'] || low == seq!['s', 'y', 's', 't', 'e', 'm'];
            let user = low == seq!['u', 's', 'e', 'r'];
            &&& action_of("mode"@, Some(a), low) == Ok::<Action, Seq<char>>(Action::Mode(sys))
            &&& setting_of("mode"@, Some(a), low) == if sys || user {
                Ok::<Setting, Refusal>(Setting::Mode(sys))
            } else {
                Err(Refusal::Operand)
            }
        }),
{
    lemma_names();
    reveal_strlit("sys");
    reveal_strlit("system");
    reveal_strlit("user");
    assert("sys"@ =~= seq!['s', 'y', 's']);
    assert("system"@ =~= seq!['s', 'y', 's', 't', 'e', 'm']);
    assert("user"@ =~= seq!['u', 's', 'e', 'r']);
}

proof fn lemma_find(s: Seq<char>, c: char, i: int, e: int)
    requires
        0 <= i <= e < s.len(),
        s[e] == c,
        forall|k: int| i <= k < e ==> s[k] != c,
    ensures
        find_from(s, c, i) == e,
    decreases e - i,
{
    if i < e {
        lemma_find(s, c, i + 1, e);
    }
}

/// A page and a value stand on the two sides of an equals sign.
pub proof fn law_pairs(p: Seq<char>, v: Seq<char>, low: Seq<char>)
    requires
        forall|k: int| 0 <= k < p.len() ==> p[k] != '=',
    ensures
        ({
            let a = p + seq!['='] + v;
            &&& (hex_or_dec(p, usize::MAX as int), hex_or_dec(v, 0xFFFF)) matches (
                Some(page),
                Some(frame),
            ) ==> action_of("map"@, Some(a), low) == Ok::<Action, Seq<char>>(
                Action::MapPage(page as usize, frame as u16),
            )
            &&& (hex_or_dec(p, usize::MAX as int), hex_or_dec(v, 255)) matches (
                Some(page),
                Some(attr),
            ) ==> action_of("attr"@, Some(a), low) == Ok::<Action, Seq<char>>(
                Action::Attr(page as usize, attr as u8),
            )
            &&& hex_or_dec(p, usize::MAX as int) is None ==> action_of("map"@, Some(a), low) is Err
                && action_of("attr"@, Some(a), low) is Err
            &&& hex_or_dec(v, 0xFFFF) is None ==> action_of("map"@, Some(a), low) is Err
            &&& hex_or_dec(v, 255) is None ==> action_of("attr"@, Some(a), low) is Err
            &&& (number_of(p, 15), number_of(v, 0xFFFF)) matches (Some(page), Some(n)) ==> {
                &&& setting_of("map"@, Some(a), low) == Ok::<Setting, Refusal>(
                    Setting::MapPage(page as usize, n as u16),
                )
                &&& setting_of("attr"@, Some(a), low) == Ok::<Setting, Refusal>(
                    Setting::Attr(page as usize, (n % 256) as u8),
                )
            }
            &&& number_of(p, 15) is None || number_of(v, 0xFFFF) is None ==> setting_of(
                "map"@,
                Some(a),
                low,
            ) == Err::<Setting, Refusal>(Refusal::Operand) && setting_of("attr"@, Some(a), low)
                == Err::<Setting, Refusal>(Refusal::Operand)
        }),
{
    lemma_names();
    let a = p + seq!['='] + v;
    let e = p.len() as int;
    assert forall|k: int| 0 <= k < e implies a[k] != '=' by {
        assert(a[k] == p[k]);
    }
    assert(a[e] == '=');
    lemma_find(a, '=', 0, e);
    assert(a.take(e) =~= p);
    assert(a.skip(e + 1) =~= v);
}

/// The statements of a configuration with a number for their operand.
pub proof fn law_numbers_in_settings(a: Seq<char>, low: Seq<char>)
    requires
        low != seq!['o', 'f', 'f'],
    ensures
        number_of(a, 255) matches Some(n) ==> setting_of("task"@, Some(a), low) == Ok::<
            Setting,
            Refusal,
        >(Setting::Task(n as u8)),
        number_of(a, 255) is None ==> setting_of("task"@, Some(a), low) == Err::<Setting, Refusal>(
            Refusal::Operand,
        ),
        number_of(a, 0xFFFF) matches Some(n) ==> {
            &&& setting_of("prot"@, Some(a), low) == Ok::<Setting, Refusal>(
                Setting::Prot((n % 256) as u8),
            )
            &&& setting_of("regs"@, Some(a), low) == Ok::<Setting, Refusal>(
                Setting::Window(n as u16),
            )
        },
        number_of(a, 0xFFFF) is None ==> setting_of("prot"@, Some(a), low) == Err::<
            Setting,
            Refusal,
        >(Refusal::Operand) && setting_of("regs"@, Some(a), low) == Err::<Setting, Refusal>(
            Refusal::Operand,
        ),
        setting_of("regs"@, Some(a), seq!['o', 'f', 'f']) == Ok::<Setting, Refusal>(
            Setting::NoWindow,
        ),
{
    lemma_names();
    reveal_strlit("off");
    assert("off"@ =~= seq!['o', 'f', 'f']);
}

/// A statement that a configuration does not have is refused as unknown, one
/// without an operand for its operand.
pub proof fn law_refusals(cmd: Seq<char>, arg: Option<Seq<char>>, low: Seq<char>)
    ensures
        ({
            let known = cmd == "task"@ || cmd == "mode"@ || cmd == "prot"@ || cmd == "map"@ || cmd
                == "attr"@ || cmd == "regs"@;
            &&& setting_of(cmd, arg, low) == Err::<Setting, Refusal>(Refusal::Unknown) <==> !known
            &&& known && arg is None ==> setting_of(cmd, arg, low) == Err::<Setting, Refusal>(
                Refusal::Operand,
            )
        }),
{
    lemma_names();
}

/// What a setting does: it selects a task, a mode or a protection, maps a page
/// of the current task and mode or gives it attributes, or moves or hides the
/// registers. It does nothing else.
pub proof fn law_settings(m: MmuState, t: u8, sys: bool, v: u8, page: usize, frame: u16, base: u16)
    requires
        m.valid(),
        page < 16,
    ensures
        ({
            let f = set_by(m, Setting::MapPage(page, frame));
            let a = set_by(m, Setting::Attr(page, v));
            let w = set_by(m, Setting::Window(base));
            let n = set_by(m, Setting::NoWindow);
            &&& set_by(m, Setting::Task(t)) == (MmuState { task: t % 8, ..m })
            &&& set_by(m, Setting::Mode(sys)) == (MmuState { sys_mode: sys, ..m })
            &&& set_by(m, Setting::Prot(v)) == (MmuState { prot_ctrl: v, ..m })
            &&& frame_of(f, page as int) == frame
            &&& forall|p: int|
                0 <= p < 16 && p != page ==> #[trigger] frame_of(f, p) == frame_of(m, p)
            &&& forall|p: int| 0 <= p < 16 ==> #[trigger] attributes_of(f, p) == attributes_of(m, p)
            &&& f.phys == m.phys && f.task == m.task && f.sys_mode == m.sys_mode
            &&& f.prot_ctrl == m.prot_ctrl
            &&& attributes_of(a, page as int) == v
            &&& forall|p: int|
                0 <= p < 16 && p != page ==> #[trigger] attributes_of(a, p) == attributes_of(m, p)
            &&& forall|p: int| 0 <= p < 16 ==> #[trigger] frame_of(a, p) == frame_of(m, p)
            &&& a.phys == m.phys && a.task == m.task && a.sys_mode == m.sys_mode
            &&& w == (MmuState { regs_base: base, regs_enable: true, ..m })
            &&& n == (MmuState { regs_enable: false, ..m })
        }),
{
}

/// A trigger names when it is due, by an address or by a number of steps, and
/// what it then does.
pub proof fn law_triggers(place: Seq<char>, cmd: Seq<char>, arg: Seq<char>)
    ensures
        ({
            let line = |kind: Seq<char>| seq![kind, place, cmd, arg];
            let act = action_of(cmd, Some(arg), lowered(arg));
            &&& (hex_or_dec(place, 0xFFFF), act) matches (Some(n), Ok(a)) ==> trigger_of(
                line("on_pc"@),
            ) == Ok::<Trigger, Seq<char>>(Trigger::OnPc(n as u16, a))
            &&& (hex_or_dec(place, u64::MAX as int), act) matches (Some(n), Ok(a)) ==> trigger_of(
                line("on_step"@),
            ) == Ok::<Trigger, Seq<char>>(Trigger::OnStep(n as u64, a))
            &&& hex_or_dec(place, 0xFFFF) is None || act is Err ==> trigger_of(line("on_pc"@)) is Err
            &&& hex_or_dec(place, u64::MAX as int) is None || act is Err ==> trigger_of(
                line("on_step"@),
            ) is Err
        }),
{
    lemma_kinds();
    let p = seq!["on_pc"@, place, cmd, arg];
    let s = seq!["on_step"@, place, cmd, arg];
    assert(p[0] == "on_pc"@ && p[1] == place && p[2] == cmd && p[3] == arg && p.len() == 4);
    assert(s[0] == "on_step"@ && s[1] == place && s[2] == cmd && s[3] == arg && s.len() == 4);
}

proof fn lemma_kinds()
    ensures
        "on_pc"@.len() == 5 && "on_pc"@[0] == 'o',
        "at_pc"@.len() == 5 && "at_pc"@[0] == 'a',
        "on_step"@.len() == 7 && "on_step"@[0] == 'o',
        "at_step"@.len() == 7 && "at_step"@[0] == 'a',
{
    reveal_strlit("on_pc");
    reveal_strlit("at_pc");
    reveal_strlit("on_step");
    reveal_strlit("at_step");
}

/// `at_pc` and `at_step` say the same as `on_pc` and `on_step` with a colon
/// behind the number, which may be hexadecimal behind `$` too; without the
/// colon they are wrong.
pub proof fn law_triggers_with_colon(place: Seq<char>, cmd: Seq<char>, arg: Seq<char>)
    ensures
        ({
            let with = |kind: Seq<char>| seq![kind, place.push(':'), cmd, arg];
            let act = action_of(cmd, Some(arg), lowered(arg));
            &&& (number_of(place, 0xFFFF), act) matches (Some(n), Ok(a)) ==> trigger_of(
                with("at_pc"@),
            ) == Ok::<Trigger, Seq<char>>(Trigger::OnPc(n as u16, a))
            &&& (number_of(place, u64::MAX as int), act) matches (Some(n), Ok(a)) ==> trigger_of(
                with("at_step"@),
            ) == Ok::<Trigger, Seq<char>>(Trigger::OnStep(n as u64, a))
            &&& place.len() > 0 && place.last() != ':' ==> trigger_of(
                seq!["at_pc"@, place, cmd, arg],
            ) is Err && trigger_of(seq!["at_step"@, place, cmd, arg]) is Err
        }),
{
    lemma_kinds();
    let q = place.push(':');
    assert(q.drop_last() =~= place);
    let p = seq!["at_pc"@, q, cmd, arg];
    let s = seq!["at_step"@, q, cmd, arg];
    assert(p[0] == "at_pc"@ && p[1] == q && p[2] == cmd && p[3] == arg && p.len() == 4);
    assert(s[0] == "at_step"@ && s[1] == q && s[2] == cmd && s[3] == arg && s.len() == 4);
    let u = seq!["at_pc"@, place, cmd, arg];
    let v = seq!["at_step"@, place, cmd, arg];
    assert(u[0] == "at_pc"@ && u[1] == place && u.len() == 4);
    assert(v[0] == "at_step"@ && v[1] == place && v.len() == 4);
}

/// A line that begins with neither of the four words is no trigger, nor is one
/// that stops short.
pub proof fn law_no_trigger(words: Seq<Seq<char>>)
    requires
        words.len() > 0,
    ensures
        words[0] != "on_pc"@ && words[0] != "at_pc"@ && words[0] != "on_step"@ && words[0]
            != "at_step"@ ==> trigger_of(words) is Err,
        words.len() < 4 ==> trigger_of(words) is Err,
{
    if words.len() < 4 {
        lemma_short_line(words);
    }
}

proof fn lemma_short_line(words: Seq<Seq<char>>)
    requires
        0 < words.len() < 4,
    ensures
        trigger_of(words) is Err,
{
    if words.len() == 3 {
        law_action_named(words[2], None, lowered(words[3]));
    }
}

/// Numbers: hexadecimal behind `0x`, `0X` and, where that is allowed, `$`;
/// decimal otherwise. A number above the limit is none.
pub proof fn law_number_forms(ds: Seq<char>, max: int)
    ensures
        hex_or_dec(seq!['0', 'x'] + ds, max) == unsigned(ds, 16, max),
        hex_or_dec(seq!['0', 'X'] + ds, max) == unsigned(ds, 16, max),
        number_of(seq!['$'] + ds, max) == unsigned(ds, 16, max),
        number_of(seq!['0', 'x'] + ds, max) == unsigned(ds, 16, max),
        ds.len() > 0 && !(ds.len() > 1 && ds[0] == '0' && (ds[1] == 'x' || ds[1] == 'X')) ==> hex_or_dec(
            ds,
            max,
        ) == unsigned(ds, 10, max),
        ds.len() > 0 && ds[0] != '$' ==> number_of(ds, max) == hex_or_dec(ds, max),
        unsigned(ds, 16, max) matches Some(n) ==> n <= max,
        unsigned(ds, 10, max) matches Some(n) ==> n <= max,
        ds.len() == 0 ==> unsigned(ds, 10, max) is None && unsigned(ds, 16, max) is None,
{
    assert((seq!['0', 'x'] + ds).skip(2) =~= ds);
    assert((seq!['0', 'X'] + ds).skip(2) =~= ds);
    assert((seq!['$'] + ds).skip(1) =~= ds);
}

/// A line is a comment where its first word begins with `#` or `//`.
pub proof fn law_comments(words: Seq<Seq<char>>, rest: Seq<char>)
    requires
        words.len() > 0,
    ensures
        words[0] == seq!['#'] + rest ==> is_comment(words),
        words[0] == seq!['/', '/'] + rest ==> is_comment(words),
        words[0].len() > 0 && words[0][0] != '#' && words[0][0] != '/' ==> !is_comment(words),
        words[0].len() > 1 && words[0][0] == '/' && words[0][1] != '/' ==> !is_comment(words),
        is_comment(Seq::empty()),
{
}

/// The message for a line that is refused begins with the number of the line,
/// counted from 1, and ends with what is wrong.
pub open spec fn about_line(message: Seq<char>, line: nat, what: Seq<char>) -> bool {
    begins(message, "Line "@ + digits(line) + ": "@) && ends(message, what)
}

pub proof fn lemma_about_line(line: nat, kind: Seq<char>, what: Seq<char>)
    ensures
        about_line("Line "@ + digits(line) + ": "@ + what, line, what),
        about_line("Line "@ + digits(line) + (": "@ + kind) + what, line, what),
        shows("Line "@ + digits(line) + (": "@ + kind) + what, kind),
{
    let head = "Line "@ + digits(line) + ": "@;
    lemma_parts(head, what, Seq::empty());
    let t = "Line "@ + digits(line) + (": "@ + kind) + what;
    assert(t =~= head + kind + what);
    lemma_parts(head, kind, what);
}

/// The first line of a configuration that is refused ends it; the message says
/// which line it is, why it is refused, and the word it begins with.
pub proof fn law_refused_line(m: MmuState, lines: Seq<Seq<char>>, i: int, k: int)
    requires
        0 <= i <= k < lines.len(),
        !is_comment(words_of(lines[k])),
        line_setting(words_of(lines[k])) is Err,
        forall|j: int|
            i <= j < k ==> is_comment(words_of(#[trigger] lines[j])) || line_setting(
                words_of(lines[j]),
            ) is Ok,
    ensures
        ({
            let t = configured(m, lines, i).1;
            &&& t is Some
            &&& about_line(t->0, (k + 1) as nat, words_of(lines[k])[0])
            &&& line_setting(words_of(lines[k])) == Err::<Setting, Refusal>(Refusal::Unknown)
                ==> shows(t->0, "unknown directive: "@)
            &&& line_setting(words_of(lines[k])) == Err::<Setting, Refusal>(Refusal::Operand)
                ==> shows(t->0, "bad operand: "@)
        }),
    decreases k - i,
{
    if i < k {
        let words = words_of(lines[i]);
        if is_comment(words) {
            law_refused_line(m, lines, i + 1, k);
        } else {
            law_refused_line(set_by(m, line_setting(words)->Ok_0), lines, i + 1, k);
        }
    } else {
        let cmd = words_of(lines[k])[0];
        reveal_strlit(": unknown directive: ");
        reveal_strlit(": bad operand: ");
        reveal_strlit("unknown directive: ");
        reveal_strlit("bad operand: ");
        reveal_strlit(": ");
        assert(": unknown directive: "@ =~= ": "@ + "unknown directive: "@);
        assert(": bad operand: "@ =~= ": "@ + "bad operand: "@);
        lemma_about_line((k + 1) as nat, "unknown directive: "@, cmd);
        lemma_about_line((k + 1) as nat, "bad operand: "@, cmd);
    }
}

/// The first line of a script that is wrong ends it; the message says which line
/// it is and what is wrong with it.
pub proof fn law_wrong_line(lines: Seq<Seq<char>>, i: int, k: int, found: Seq<Trigger>)
    requires
        0 <= i <= k < lines.len(),
        !is_comment(words_of(lines[k])),
        trigger_of(words_of(lines[k])) is Err,
        forall|j: int|
            i <= j < k ==> is_comment(words_of(#[trigger] lines[j])) || trigger_of(
                words_of(lines[j]),
            ) is Ok,
    ensures
        ({
            let r = scripted(lines, i, found);
            r is Err && about_line(
                r->Err_0,
                (k + 1) as nat,
                trigger_of(words_of(lines[k]))->Err_0,
            )
        }),
    decreases k - i,
{
    if i < k {
        let words = words_of(lines[i]);
        if is_comment(words) {
            law_wrong_line(lines, i + 1, k, found);
        } else {
            law_wrong_line(lines, i + 1, k, found.push(trigger_of(words)->Ok_0));
        }
    } else {
        lemma_about_line((k + 1) as nat, Seq::empty(), trigger_of(words_of(lines[k]))->Err_0);
    }
}

/// A script without a wrong line has a trigger for each line that is no
/// comment, in order: a line at the end adds its own.
pub proof fn law_last_trigger(
    lines: Seq<Seq<char>>,
    last: Seq<char>,
    i: int,
    found: Seq<Trigger>,
)
    requires
        0 <= i <= lines.len(),
        scripted(lines, i, found) is Ok,
    ensures
        ({
            let before = scripted(lines, i, found)->Ok_0;
            let after = scripted(lines.push(last), i, found);
            let words = words_of(last);
            &&& is_comment(words) ==> after == Ok::<Seq<Trigger>, Seq<char>>(before)
            &&& !is_comment(words) && trigger_of(words) is Ok ==> after == Ok::<
                Seq<Trigger>,
                Seq<char>,
            >(before.push(trigger_of(words)->Ok_0))
            &&& !is_comment(words) && trigger_of(words) is Err ==> after is Err
        }),
    decreases lines.len() - i,
{
    let all = lines.push(last);
    if i < lines.len() {
        assert(all[i] == lines[i]);
        let words = words_of(lines[i]);
        if is_comment(words) {
            law_last_trigger(lines, last, i + 1, found);
        } else {
            law_last_trigger(lines, last, i + 1, found.push(trigger_of(words)->Ok_0));
        }
    } else {
        assert(all[i] == last);
        reveal_with_fuel(scripted, 2);
    }
}

} // verus!
