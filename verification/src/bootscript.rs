//! Boot scripts: what to do at a program counter or after a number of steps.
//!
//! Each line holds a trigger and an action. The trigger is `on_pc ADDR` or
//! `on_step N`, also written `at_pc ADDR:` and `at_step N:`, with the colon.
//! Numbers are decimal, or hexadecimal behind `0x`; behind `at_pc` and `at_step`
//! also behind `$`. Comments stand behind `#` or `//`.
//!
//! | Action | Effect |
//! |---|---|
//! | `mode sys`, `mode user` | MMU mode |
//! | `prot V` | MMU protection control |
//! | `map P=F`, `attr P=V` | frame and attributes of a page |
//! | `con_ctrl V`, `con_rx_wm N`, `con_irq_hold N`, `con_firq on` | console |
//! | `blk_irq on`, `blk_firq on`, `blk_irq_hold N` | block device |
//! | `irq_mask on`, `firq_mask on` | interrupt masks of the CPU |

use crate::alu::{low, low_byte, offset, offset_by, put_flag, with_flag};
use crate::bus::{Bus, Memory, WriteTrack};
use crate::config::{comment, is_comment};
use crate::cpu::{Cpu, Registers};
use crate::io::{
    first_of, has_kind, BlockDev, BlockState, ConsoleState, Device, DeviceKind, IoBus, Mc6850Dev,
    SlotState,
};
use crate::mmu::Mc6829;
use crate::text::{
    digits, find_char, find_from, hex4, hex_or_dec, lines_of, lower_chars, lower_text, lowered,
    number_of, parse_hex_or_dec, parse_number, parts, push_chars, push_digits, push_hex4,
    push_text, slice_of, spells, split_lines, split_words, texts, words_of,
};
use vstd::prelude::*;

verus! {

/// What a trigger does.
#[derive(Clone, Copy, PartialEq, Eq, Structural, Debug)]
pub enum Action {
    /// System mode, or user mode.
    Mode(bool),
    Prot(u8),
    /// Map a page onto a frame.
    MapPage(usize, u16),
    Attr(usize, u8),
    ConCtrl(u8),
    ConRxWm(usize),
    ConIrqHold(u32),
    ConFirq(bool),
    /// Set or clear the mask of IRQ.
    IrqMask(bool),
    /// Set or clear the mask of FIRQ.
    FirqMask(bool),
    BlkIrq(bool),
    BlkFirq(bool),
    BlkIrqHold(u32),
}

/// When an action is due.
#[derive(Clone, Copy, PartialEq, Eq, Structural, Debug)]
pub enum Trigger {
    OnPc(u16, Action),
    OnStep(u64, Action),
}

/// Whether a word, in lower case, switches something on.
pub open spec fn switched_on(low: Seq<char>) -> bool {
    low == "1"@ || low == "on"@ || low == "true"@ || low == "yes"@
}

fn is_on(low: &Vec<char>) -> (r: bool)
    ensures
        r == switched_on(low@),
{
    spells(low, "1") || spells(low, "on") || spells(low, "true") || spells(low, "yes")
}

pub open spec fn is_action(cmd: Seq<char>) -> bool {
    cmd == "mode"@ || cmd == "prot"@ || cmd == "map"@ || cmd == "attr"@ || cmd == "con_ctrl"@
        || cmd == "con_rx_wm"@ || cmd == "con_irq_hold"@ || cmd == "con_firq"@ || cmd
        == "blk_irq"@ || cmd == "blk_firq"@ || cmd == "blk_irq_hold"@ || cmd == "irq_mask"@ || cmd
        == "firq_mask"@
}

/// A page and a value up to `max` with `=` between them, or what is wrong.
pub open spec fn pair_of(
    s: Seq<char>,
    max: int,
    shape: Seq<char>,
    what: Seq<char>,
) -> Result<(usize, int), Seq<char>> {
    let e = find_from(s, '=', 0);
    if e >= s.len() {
        Err(shape)
    } else {
        match hex_or_dec(s.take(e), usize::MAX as int) {
            None => Err("bad page"@),
            Some(p) => match hex_or_dec(s.skip(e + 1), max) {
                None => Err(what),
                Some(v) => Ok((p as usize, v)),
            },
        }
    }
}

/// The action of `cmd` with operand `arg`, or what is wrong with it; `low` is
/// the operand in lower case.
pub open spec fn action_of(cmd: Seq<char>, arg: Option<Seq<char>>, low: Seq<char>) -> Result<
    Action,
    Seq<char>,
> {
    if !is_action(cmd) {
        Err("unknown action "@ + cmd)
    } else if arg is None {
        Err("missing "@ + cmd)
    } else {
        let a = arg->0;
        if cmd == "mode"@ {
            Ok(Action::Mode(low == "sys"@ || low == "system"@))
        } else if cmd == "prot"@ {
            match hex_or_dec(a, 255) {
                Some(n) => Ok(Action::Prot(n as u8)),
                None => Err("bad "@ + cmd),
            }
        } else if cmd == "map"@ {
            match pair_of(a, 0xFFFF, "map expects P=F"@, "bad frame"@) {
                Ok((p, f)) => Ok(Action::MapPage(p, f as u16)),
                Err(e) => Err(e),
            }
        } else if cmd == "attr"@ {
            match pair_of(a, 255, "attr expects P=V"@, "bad value"@) {
                Ok((p, v)) => Ok(Action::Attr(p, v as u8)),
                Err(e) => Err(e),
            }
        } else if cmd == "con_ctrl"@ {
            match hex_or_dec(a, 255) {
                Some(n) => Ok(Action::ConCtrl(n as u8)),
                None => Err("bad "@ + cmd),
            }
        } else if cmd == "con_rx_wm"@ {
            match hex_or_dec(a, usize::MAX as int) {
                Some(n) => Ok(Action::ConRxWm(n as usize)),
                None => Err("bad "@ + cmd),
            }
        } else if cmd == "con_irq_hold"@ {
            match hex_or_dec(a, u64::MAX as int) {
                Some(n) => Ok(Action::ConIrqHold((n % 0x1_0000_0000) as u32)),
                None => Err("bad "@ + cmd),
            }
        } else if cmd == "con_firq"@ {
            Ok(Action::ConFirq(switched_on(low)))
        } else if cmd == "blk_irq"@ {
            Ok(Action::BlkIrq(switched_on(low)))
        } else if cmd == "blk_firq"@ {
            Ok(Action::BlkFirq(switched_on(low)))
        } else if cmd == "blk_irq_hold"@ {
            match hex_or_dec(a, u64::MAX as int) {
                Some(n) => Ok(Action::BlkIrqHold((n % 0x1_0000_0000) as u32)),
                None => Err("bad "@ + cmd),
            }
        } else if cmd == "irq_mask"@ {
            Ok(Action::IrqMask(switched_on(low)))
        } else {
            Ok(Action::FirqMask(switched_on(low)))
        }
    }
}

/// The contents of a result with a text for its error.
pub open spec fn outcome<T>(r: Result<T, String>) -> Result<T, Seq<char>> {
    match r {
        Ok(t) => Ok(t),
        Err(e) => Err(e@),
    }
}

fn message(text: &str) -> (s: String)
    ensures
        s@ == text@,
{
    let mut s: String = String::new();
    push_text(&mut s, text);
    assert(s@ =~= text@);
    s
}

fn message_with(text: &str, word: &Vec<char>) -> (s: String)
    ensures
        s@ == text@ + word@,
{
    let mut s: String = String::new();
    push_text(&mut s, text);
    push_chars(&mut s, word);
    assert(s@ =~= text@ + word@);
    s
}

fn read_pair(v: &Vec<char>, max: u64, shape: &str, what: &str) -> (r: Result<(usize, u64), String>)
    ensures
        match (outcome(r), pair_of(v@, max as int, shape@, what@)) {
            (Ok((p, n)), Ok((q, m))) => p == q && n == m && n <= max,
            (Err(e), Err(f)) => e == f,
            _ => false,
        },
{
    let e: usize = find_char(v, '=', 0);
    if e >= v.len() {
        return Err(message(shape));
    }
    let page: Vec<char> = slice_of(v, 0, e);
    let value: Vec<char> = slice_of(v, e + 1, v.len());
    assert(page@ =~= v@.take(e as int));
    assert(value@ =~= v@.skip(e + 1));
    match parse_hex_or_dec(&page, usize::MAX as u64) {
        None => Err(message("bad page")),
        Some(p) => match parse_hex_or_dec(&value, max) {
            None => Err(message(what)),
            Some(n) => Ok((p as usize, n)),
        },
    }
}

fn known_action(cmd: &Vec<char>) -> (r: bool)
    ensures
        r == is_action(cmd@),
{
    spells(cmd, "mode") || spells(cmd, "prot") || spells(cmd, "map") || spells(cmd, "attr")
        || spells(cmd, "con_ctrl") || spells(cmd, "con_rx_wm") || spells(cmd, "con_irq_hold")
        || spells(cmd, "con_firq") || spells(cmd, "blk_irq") || spells(cmd, "blk_firq") || spells(
        cmd,
        "blk_irq_hold",
    ) || spells(cmd, "irq_mask") || spells(cmd, "firq_mask")
}

/// Reads the action `cmd` with operand `arg`; `low` is the operand in lower
/// case.
pub fn read_action(cmd: &Vec<char>, arg: Option<&Vec<char>>, low: &Vec<char>) -> (r: Result<
    Action,
    String,
>)
    ensures
        outcome(r) == action_of(
            cmd@,
            match arg {
                Some(a) => Some(a@),
                None => None,
            },
            low@,
        ),
{
    if !known_action(cmd) {
        return Err(message_with("unknown action ", cmd));
    }
    match arg {
        None => Err(message_with("missing ", cmd)),
        Some(a) => {
            if spells(cmd, "mode") {
                Ok(Action::Mode(spells(low, "sys") || spells(low, "system")))
            } else if spells(cmd, "prot") {
                match parse_hex_or_dec(a, 255) {
                    Some(n) => Ok(Action::Prot(n as u8)),
                    None => Err(message_with("bad ", cmd)),
                }
            } else if spells(cmd, "map") {
                match read_pair(a, 0xFFFF, "map expects P=F", "bad frame") {
                    Ok((p, f)) => Ok(Action::MapPage(p, f as u16)),
                    Err(e) => Err(e),
                }
            } else if spells(cmd, "attr") {
                match read_pair(a, 255, "attr expects P=V", "bad value") {
                    Ok((p, v)) => Ok(Action::Attr(p, v as u8)),
                    Err(e) => Err(e),
                }
            } else if spells(cmd, "con_ctrl") {
                match parse_hex_or_dec(a, 255) {
                    Some(n) => Ok(Action::ConCtrl(n as u8)),
                    None => Err(message_with("bad ", cmd)),
                }
            } else if spells(cmd, "con_rx_wm") {
                match parse_hex_or_dec(a, usize::MAX as u64) {
                    Some(n) => Ok(Action::ConRxWm(n as usize)),
                    None => Err(message_with("bad ", cmd)),
                }
            } else if spells(cmd, "con_irq_hold") {
                match parse_hex_or_dec(a, u64::MAX) {
                    Some(n) => Ok(Action::ConIrqHold((n % 0x1_0000_0000) as u32)),
                    None => Err(message_with("bad ", cmd)),
                }
            } else if spells(cmd, "con_firq") {
                Ok(Action::ConFirq(is_on(low)))
            } else if spells(cmd, "blk_irq") {
                Ok(Action::BlkIrq(is_on(low)))
            } else if spells(cmd, "blk_firq") {
                Ok(Action::BlkFirq(is_on(low)))
            } else if spells(cmd, "blk_irq_hold") {
                match parse_hex_or_dec(a, u64::MAX) {
                    Some(n) => Ok(Action::BlkIrqHold((n % 0x1_0000_0000) as u32)),
                    None => Err(message_with("bad ", cmd)),
                }
            } else if spells(cmd, "irq_mask") {
                Ok(Action::IrqMask(is_on(low)))
            } else {
                Ok(Action::FirqMask(is_on(low)))
            }
        },
    }
}

/// The number up to `max` that a word of a trigger holds; where `colon` is set
/// a colon stands behind it, and `$` may stand in front.
pub open spec fn place_of(w: Seq<char>, colon: bool, max: int) -> Option<int> {
    if !colon {
        hex_or_dec(w, max)
    } else if w.len() > 0 && w.last() == ':' {
        number_of(w.drop_last(), max)
    } else {
        None
    }
}

fn read_place(w: &Vec<char>, colon: bool, max: u64) -> (r: Option<u64>)
    ensures
        match (r, place_of(w@, colon, max as int)) {
            (Some(n), Some(m)) => n == m && n <= max,
            (None, None) => true,
            _ => false,
        },
{
    if !colon {
        return parse_hex_or_dec(w, max);
    }
    let n: usize = w.len();
    if n == 0 || w[n - 1] != ':' {
        return None;
    }
    let front: Vec<char> = slice_of(w, 0, n - 1);
    assert(front@ =~= w@.drop_last());
    parse_number(&front, max)
}

/// The action that the third word of a line and what follows it stand for.
pub open spec fn action_behind(words: Seq<Seq<char>>) -> Result<Action, Seq<char>> {
    if words.len() < 3 {
        Err("missing command"@)
    } else {
        action_of(
            words[2],
            if words.len() > 3 {
                Some(words[3])
            } else {
                None
            },
            lowered(words[3]),
        )
    }
}

/// The trigger on a line that is no comment, or what is wrong with it.
pub open spec fn trigger_of(words: Seq<Seq<char>>) -> Result<Trigger, Seq<char>> {
    let kind = words[0];
    if kind == "on_pc"@ || kind == "at_pc"@ {
        if words.len() < 2 {
            Err("missing address"@)
        } else {
            match place_of(words[1], kind == "at_pc"@, 0xFFFF) {
                None => Err("bad addr"@),
                Some(n) => match action_behind(words) {
                    Ok(a) => Ok(Trigger::OnPc(n as u16, a)),
                    Err(e) => Err(e),
                },
            }
        }
    } else if kind == "on_step"@ || kind == "at_step"@ {
        if words.len() < 2 {
            Err("missing step"@)
        } else {
            match place_of(words[1], kind == "at_step"@, u64::MAX as int) {
                None => Err("bad step"@),
                Some(n) => match action_behind(words) {
                    Ok(a) => Ok(Trigger::OnStep(n as u64, a)),
                    Err(e) => Err(e),
                },
            }
        }
    } else {
        Err("unknown directive "@ + kind)
    }
}

fn parse_action(words: &Vec<Vec<char>>) -> (r: Result<Action, String>)
    ensures
        outcome(r) == action_behind(parts(words@)),
{
    if words.len() < 3 {
        return Err(message("missing command"));
    }
    assert(parts(words@)[2] == words@[2]@);
    if words.len() > 3 {
        assert(parts(words@)[3] == words@[3]@);
        let low: Vec<char> = lower_chars(&words[3]);
        read_action(&words[2], Some(&words[3]), &low)
    } else {
        read_action(&words[2], None, &words[2])
    }
}

fn parse_trigger(words: &Vec<Vec<char>>) -> (r: Result<Trigger, String>)
    requires
        words@.len() > 0,
    ensures
        outcome(r) == trigger_of(parts(words@)),
{
    assert(parts(words@)[0] == words@[0]@);
    if spells(&words[0], "on_pc") || spells(&words[0], "at_pc") {
        if words.len() < 2 {
            return Err(message("missing address"));
        }
        assert(parts(words@)[1] == words@[1]@);
        match read_place(&words[1], spells(&words[0], "at_pc"), 0xFFFF) {
            None => Err(message("bad addr")),
            Some(n) => match parse_action(words) {
                Ok(a) => Ok(Trigger::OnPc(n as u16, a)),
                Err(e) => Err(e),
            },
        }
    } else if spells(&words[0], "on_step") || spells(&words[0], "at_step") {
        if words.len() < 2 {
            return Err(message("missing step"));
        }
        assert(parts(words@)[1] == words@[1]@);
        match read_place(&words[1], spells(&words[0], "at_step"), u64::MAX) {
            None => Err(message("bad step")),
            Some(n) => match parse_action(words) {
                Ok(a) => Ok(Trigger::OnStep(n, a)),
                Err(e) => Err(e),
            },
        }
    } else {
        Err(message_with("unknown directive ", &words[0]))
    }
}

/// The triggers of the lines from `i` on behind those found before, or the
/// message for the first line that is wrong.
pub open spec fn scripted(lines: Seq<Seq<char>>, i: int, found: Seq<Trigger>) -> Result<
    Seq<Trigger>,
    Seq<char>,
>
    decreases lines.len() - i,
{
    if i >= lines.len() {
        Ok(found)
    } else {
        let words = words_of(lines[i]);
        if is_comment(words) {
            scripted(lines, i + 1, found)
        } else {
            match trigger_of(words) {
                Ok(t) => scripted(lines, i + 1, found.push(t)),
                Err(e) => Err("Line "@ + digits((i + 1) as nat) + ": "@ + e),
            }
        }
    }
}

/// Reads a script.
pub fn parse_boot_script(s: &str) -> (r: Result<Vec<Trigger>, String>)
    ensures
        match r {
            Ok(v) => scripted(lines_of(s@), 0, Seq::empty()) == Ok::<Seq<Trigger>, Seq<char>>(v@),
            Err(e) => scripted(lines_of(s@), 0, Seq::empty()) == Err::<Seq<Trigger>, Seq<char>>(
                e@,
            ),
        },
{
    let lines: Vec<Vec<char>> = split_lines(s);
    let ghost all = lines_of(s@);
    let mut out: Vec<Trigger> = Vec::new();
    let mut i: usize = 0;
    assert(out@ =~= Seq::<Trigger>::empty());
    while i < lines.len()
        invariant
            i <= lines@.len(),
            parts(lines@) == all,
            all == lines_of(s@),
            scripted(all, 0, Seq::empty()) == scripted(all, i as int, out@),
        decreases lines@.len() - i,
    {
        assert(parts(lines@)[i as int] == lines@[i as int]@);
        let words: Vec<Vec<char>> = split_words(&lines[i]);
        if !comment(&words) {
            match parse_trigger(&words) {
                Ok(t) => {
                    out.push(t);
                },
                Err(t) => {
                    let mut e: String = String::new();
                    push_text(&mut e, "Line ");
                    push_digits(&mut e, i as u64 + 1);
                    push_text(&mut e, ": ");
                    push_text(&mut e, t.as_str());
                    assert(e@ =~= "Line "@ + digits((i + 1) as nat) + ": "@ + t@);
                    return Err(e);
                },
            }
        }
        i = i + 1;
    }
    Ok(out)
}

/// What a boot sequence finds at the bottom of a bus.
#[derive(Clone, Copy, PartialEq, Eq, Structural, Debug)]
pub enum BusCore {
    Memory,
    Mmu,
    Other,
}

/// A bus that a boot sequence can act on: it tells whether there is an MMU,
/// and hands out the devices where they stand right in front of a memory or an
/// MMU.
pub trait BootTarget: Bus {
    /// The state of devices that the library does not know.
    type Other;

    spec fn base() -> BusCore;

    spec fn with_mmu() -> bool;

    /// The devices that can be reached.
    spec fn reach(m: Self::V) -> Option<Seq<SlotState<Self::Other>>>;

    /// The state with those devices replaced.
    spec fn reached(m: Self::V, devices: Seq<SlotState<Self::Other>>) -> Self::V;

    fn base_of() -> (c: BusCore)
        ensures
            c == Self::base(),
    ;

    fn has_mmu() -> (r: bool)
        ensures
            r == Self::with_mmu(),
    ;

    /// Carries out a console action on the first console; tells whether there
    /// is one.
    fn on_console(&mut self, act: Action) -> (ran: bool)
        requires
            old(self).wf(),
        ensures
            final(self).wf(),
            ran == console_in(Self::reach(old(self)@)),
            final(self)@ == if ran {
                Self::reached(old(self)@, console_set(Self::reach(old(self)@)->0, act))
            } else {
                old(self)@
            },
    ;

    /// Carries out a block device action on the first block device; tells
    /// whether there is one.
    fn on_block(&mut self, act: Action) -> (ran: bool)
        requires
            old(self).wf(),
        ensures
            final(self).wf(),
            ran == block_in(Self::reach(old(self)@)),
            final(self)@ == if ran {
                Self::reached(old(self)@, block_set(Self::reach(old(self)@)->0, act))
            } else {
                old(self)@
            },
    ;
}

/// A console behind a console action.
pub open spec fn console_after(c: ConsoleState, act: Action) -> ConsoleState {
    match act {
        Action::ConCtrl(v) => c.controlled(v),
        Action::ConRxWm(n) => ConsoleState {
            rx_wm: if n == 0 {
                1
            } else {
                n
            },
            ..c
        },
        Action::ConIrqHold(n) => ConsoleState { irq_hold_cycles: n, ..c },
        Action::ConFirq(on) => c.firq_asked(on),
        _ => c,
    }
}

/// A block device behind a block device action.
pub open spec fn block_after(b: BlockState, act: Action) -> BlockState {
    match act {
        Action::BlkIrq(on) => BlockState { irq_enable: on, ..b },
        Action::BlkFirq(on) => BlockState { use_firq: on, ..b },
        Action::BlkIrqHold(n) => BlockState { irq_hold_cycles: n, ..b },
        _ => b,
    }
}

pub open spec fn console_in<W>(devices: Option<Seq<SlotState<W>>>) -> bool {
    devices is Some && has_kind(devices->0, DeviceKind::Console)
}

pub open spec fn block_in<W>(devices: Option<Seq<SlotState<W>>>) -> bool {
    devices is Some && has_kind(devices->0, DeviceKind::Block)
}

/// A device list behind a console action on its first console.
pub open spec fn console_set<W>(devices: Seq<SlotState<W>>, act: Action) -> Seq<SlotState<W>> {
    let k = first_of(devices, DeviceKind::Console, 0);
    devices.update(k, SlotState::Console(console_after(devices[k]->Console_0, act)))
}

/// A device list behind a block device action on its first block device.
pub open spec fn block_set<W>(devices: Seq<SlotState<W>>, act: Action) -> Seq<SlotState<W>> {
    let k = first_of(devices, DeviceKind::Block, 0);
    devices.update(k, SlotState::Block(block_after(devices[k]->Block_0, act)))
}

fn set_console(c: &mut Mc6850Dev, act: Action)
    ensures
        final(c)@ == console_after(old(c)@, act),
{
    match act {
        Action::ConCtrl(v) => c.set_ctrl(v),
        Action::ConRxWm(n) => c.set_rx_watermark(n),
        Action::ConIrqHold(n) => c.set_irq_hold_cycles(n),
        Action::ConFirq(on) => c.set_firq(on),
        _ => {},
    }
}

fn set_block(b: &mut BlockDev, act: Action)
    ensures
        final(b)@ == block_after(old(b)@, act),
{
    match act {
        Action::BlkIrq(on) => b.set_irq_enable(on),
        Action::BlkFirq(on) => b.set_firq(on),
        Action::BlkIrqHold(n) => b.set_irq_hold_cycles(n),
        _ => {},
    }
}

impl BootTarget for Memory {
    type Other = ();

    open spec fn base() -> BusCore {
        BusCore::Memory
    }

    open spec fn with_mmu() -> bool {
        false
    }

    open spec fn reach(m: Seq<u8>) -> Option<Seq<SlotState<Self::Other>>> {
        None
    }

    open spec fn reached(m: Seq<u8>, devices: Seq<SlotState<Self::Other>>) -> Seq<u8> {
        m
    }

    fn base_of() -> (c: BusCore) {
        BusCore::Memory
    }

    fn has_mmu() -> (r: bool) {
        false
    }

    fn on_console(&mut self, act: Action) -> (ran: bool) {
        false
    }

    fn on_block(&mut self, act: Action) -> (ran: bool) {
        false
    }
}

impl BootTarget for Mc6829 {
    type Other = ();

    open spec fn base() -> BusCore {
        BusCore::Mmu
    }

    open spec fn with_mmu() -> bool {
        true
    }

    open spec fn reach(m: crate::mmu::MmuState) -> Option<Seq<SlotState<Self::Other>>> {
        None
    }

    open spec fn reached(
        m: crate::mmu::MmuState,
        devices: Seq<SlotState<Self::Other>>,
    ) -> crate::mmu::MmuState {
        m
    }

    fn base_of() -> (c: BusCore) {
        BusCore::Mmu
    }

    fn has_mmu() -> (r: bool) {
        true
    }

    fn on_console(&mut self, act: Action) -> (ran: bool) {
        false
    }

    fn on_block(&mut self, act: Action) -> (ran: bool) {
        false
    }
}

impl<B: Bus> BootTarget for WriteTrack<B> {
    type Other = ();

    open spec fn base() -> BusCore {
        BusCore::Other
    }

    open spec fn with_mmu() -> bool {
        false
    }

    open spec fn reach(m: crate::bus::TrackState<B::V>) -> Option<Seq<SlotState<Self::Other>>> {
        None
    }

    open spec fn reached(
        m: crate::bus::TrackState<B::V>,
        devices: Seq<SlotState<Self::Other>>,
    ) -> crate::bus::TrackState<B::V> {
        m
    }

    fn base_of() -> (c: BusCore) {
        BusCore::Other
    }

    fn has_mmu() -> (r: bool) {
        false
    }

    fn on_console(&mut self, act: Action) -> (ran: bool) {
        false
    }

    fn on_block(&mut self, act: Action) -> (ran: bool) {
        false
    }
}

impl<B: BootTarget, X: Device> BootTarget for IoBus<B, X> {
    type Other = X::V;

    open spec fn base() -> BusCore {
        BusCore::Other
    }

    open spec fn with_mmu() -> bool {
        B::base() == BusCore::Mmu
    }

    open spec fn reach(m: crate::io::IoState<B::V, X::V>) -> Option<Seq<SlotState<Self::Other>>> {
        if B::base() == BusCore::Other {
            None
        } else {
            Some(m.devices)
        }
    }

    open spec fn reached(
        m: crate::io::IoState<B::V, X::V>,
        devices: Seq<SlotState<Self::Other>>,
    ) -> crate::io::IoState<B::V, X::V> {
        m.with_devices(devices)
    }

    fn base_of() -> (c: BusCore) {
        BusCore::Other
    }

    fn has_mmu() -> (r: bool) {
        B::base_of() == BusCore::Mmu
    }

    fn on_console(&mut self, act: Action) -> (ran: bool) {
        if B::base_of() == BusCore::Other {
            return false;
        }
        let set = |c: &mut Mc6850Dev|
            ensures
                (*final(c))@ == console_after((*old(c))@, act),
            {
                set_console(c, act);
            };
        self.with_console_mut(set)
    }

    fn on_block(&mut self, act: Action) -> (ran: bool) {
        if B::base_of() == BusCore::Other {
            return false;
        }
        let set = |b: &mut BlockDev|
            ensures
                (*final(b))@ == block_after((*old(b))@, act),
            {
                set_block(b, act);
            };
        self.with_block_mut(set)
    }
}

/// The name of an action in a script.
pub open spec fn action_name(act: Action) -> Seq<char> {
    match act {
        Action::Mode(_) => "mode"@,
        Action::Prot(_) => "prot"@,
        Action::MapPage(_, _) => "map"@,
        Action::Attr(_, _) => "attr"@,
        Action::ConCtrl(_) => "con_ctrl"@,
        Action::ConRxWm(_) => "con_rx_wm"@,
        Action::ConIrqHold(_) => "con_irq_hold"@,
        Action::ConFirq(_) => "con_firq"@,
        Action::IrqMask(_) => "irq_mask"@,
        Action::FirqMask(_) => "firq_mask"@,
        Action::BlkIrq(_) => "blk_irq"@,
        Action::BlkFirq(_) => "blk_firq"@,
        Action::BlkIrqHold(_) => "blk_irq_hold"@,
    }
}

fn name_of(act: Action) -> (name: &'static str)
    ensures
        name@ == action_name(act),
{
    match act {
        Action::Mode(_) => "mode",
        Action::Prot(_) => "prot",
        Action::MapPage(_, _) => "map",
        Action::Attr(_, _) => "attr",
        Action::ConCtrl(_) => "con_ctrl",
        Action::ConRxWm(_) => "con_rx_wm",
        Action::ConIrqHold(_) => "con_irq_hold",
        Action::ConFirq(_) => "con_firq",
        Action::IrqMask(_) => "irq_mask",
        Action::FirqMask(_) => "firq_mask",
        Action::BlkIrq(_) => "blk_irq",
        Action::BlkFirq(_) => "blk_firq",
        Action::BlkIrqHold(_) => "blk_irq_hold",
    }
}

/// Carries out the actions of a script as the CPU runs, and counts those that
/// found nothing to act on.
pub struct BootSequencer {
    triggers: Vec<Trigger>,
    step: u64,
    console_missing_count: u64,
    block_missing_count: u64,
    mmu_missing_count: u64,
    warnings: Vec<String>,
}

/// The state of a [`BootSequencer`].
pub struct SequencerState {
    pub triggers: Seq<Trigger>,
    /// Steps seen so far, modulo 2 to the 64th.
    pub step: u64,
    pub console_missing: u64,
    pub block_missing: u64,
    pub mmu_missing: u64,
    /// Warnings that were not taken yet.
    pub warnings: Seq<Seq<char>>,
}

impl View for BootSequencer {
    type V = SequencerState;

    closed spec fn view(&self) -> SequencerState {
        SequencerState {
            triggers: self.triggers@,
            step: self.step,
            console_missing: self.console_missing_count,
            block_missing: self.block_missing_count,
            mmu_missing: self.mmu_missing_count,
            warnings: texts(self.warnings@),
        }
    }
}

/// A count one up; the highest stays.
pub open spec fn counted_up(n: u64) -> u64 {
    if n == u64::MAX {
        n
    } else {
        (n + 1) as u64
    }
}

/// The warning about an action without a console.
pub open spec fn console_warning(name: Seq<char>) -> Seq<char> {
    "[bootscript] warning: "@ + name
        + " action targets the console, but no console device is attached on this bus; the action is a no-op. Enable the console in your settings or pass --console <ADDR>. (Further occurrences silenced; see docs/en/config_and_boot_script.md.)"@
}

/// The warning about an action without a block device.
pub open spec fn block_warning(name: Seq<char>) -> Seq<char> {
    "[bootscript] warning: "@ + name
        + " action targets the block device, but no block device is attached on this bus; the action is a no-op. Enable the block device in your settings or pass --block <ADDR>. (Further occurrences silenced; see docs/en/config_and_boot_script.md.)"@
}

/// The warning about an action without an MMU.
pub open spec fn mmu_warning(name: Seq<char>, regs_base: u16) -> Seq<char> {
    "[bootscript] warning: "@ + name
        + " action requires an MMU on the bus, but none is attached.  The write to $"@ + hex4(
        regs_base,
    )
        + "+offset would have hit plain RAM; skipping to avoid memory corruption.  Enable the MMU in your settings or pass --mmu (and --mmu-reg-base if not the default). (Further occurrences silenced; see docs/en/config_and_boot_script.md.)"@
}

impl SequencerState {
    pub open spec fn warned(self, first: bool, text: Seq<char>) -> Seq<Seq<char>> {
        if first {
            self.warnings.push(text)
        } else {
            self.warnings
        }
    }

    /// An action found no console; the first time there is a warning.
    pub open spec fn without_console(self, act: Action) -> SequencerState {
        SequencerState {
            console_missing: counted_up(self.console_missing),
            warnings: self.warned(self.console_missing == 0, console_warning(action_name(act))),
            ..self
        }
    }

    pub open spec fn without_block(self, act: Action) -> SequencerState {
        SequencerState {
            block_missing: counted_up(self.block_missing),
            warnings: self.warned(self.block_missing == 0, block_warning(action_name(act))),
            ..self
        }
    }

    pub open spec fn without_mmu(self, act: Action, regs_base: u16) -> SequencerState {
        SequencerState {
            mmu_missing: counted_up(self.mmu_missing),
            warnings: self.warned(
                self.mmu_missing == 0,
                mmu_warning(action_name(act), regs_base),
            ),
            ..self
        }
    }
}

/// A sequencer, the bus with state `m`, and the condition codes of the CPU.
pub struct BootState<M> {
    pub seq: SequencerState,
    pub m: M,
    pub cc: u8,
}

/// The register of the MMU that an action writes, and the value.
pub open spec fn mmu_write(act: Action) -> Option<(int, u8)> {
    match act {
        Action::Mode(sys) => Some(
            (
                0x11int,
                if sys {
                    1
                } else {
                    0
                },
            ),
        ),
        Action::Prot(v) => Some((0x12int, v)),
        Action::MapPage(p, f) => Some((p as int % 16, low(f))),
        Action::Attr(p, v) => Some((0x18 + p as int % 16, v)),
        _ => None,
    }
}

pub open spec fn is_console_action(act: Action) -> bool {
    act is ConCtrl || act is ConRxWm || act is ConIrqHold || act is ConFirq
}

pub open spec fn is_block_action(act: Action) -> bool {
    act is BlkIrq || act is BlkFirq || act is BlkIrqHold
}

/// The state behind an action, with the registers of the MMU at `regs_base`.
/// The masks of the CPU can only be set where there is a CPU at hand.
pub open spec fn acted<B: BootTarget>(
    b: BootState<B::V>,
    regs_base: u16,
    act: Action,
    cpu: bool,
) -> BootState<B::V> {
    if let Some((reg, v)) = mmu_write(act) {
        if B::with_mmu() {
            BootState { m: B::write_next(b.m, offset(regs_base, reg), v), ..b }
        } else {
            BootState { seq: b.seq.without_mmu(act, regs_base), ..b }
        }
    } else if is_console_action(act) {
        if console_in(B::reach(b.m)) {
            BootState { m: B::reached(b.m, console_set(B::reach(b.m)->0, act)), ..b }
        } else {
            BootState { seq: b.seq.without_console(act), ..b }
        }
    } else if is_block_action(act) {
        if block_in(B::reach(b.m)) {
            BootState { m: B::reached(b.m, block_set(B::reach(b.m)->0, act)), ..b }
        } else {
            BootState { seq: b.seq.without_block(act), ..b }
        }
    } else {
        match act {
            Action::IrqMask(on) => if cpu {
                BootState { cc: with_flag(b.cc, 0x10, on), ..b }
            } else {
                b
            },
            Action::FirqMask(on) => if cpu {
                BootState { cc: with_flag(b.cc, 0x40, on), ..b }
            } else {
                b
            },
            _ => b,
        }
    }
}

/// The moment at which triggers are looked at.
#[derive(Clone, Copy, PartialEq, Eq, Structural, Debug)]
pub enum Moment {
    /// Before an instruction at this program counter.
    Pc(u16),
    /// Behind this many steps.
    Step(u64),
}

/// The action of a trigger that is due.
pub open spec fn due(t: Trigger, when: Moment) -> Option<Action> {
    match (t, when) {
        (Trigger::OnPc(a, act), Moment::Pc(pc)) => if a == pc {
            Some(act)
        } else {
            None
        },
        (Trigger::OnStep(n, act), Moment::Step(step)) => if n == step {
            Some(act)
        } else {
            None
        },
        _ => None,
    }
}

fn due_action(t: Trigger, when: Moment) -> (r: Option<Action>)
    ensures
        r == due(t, when),
{
    match (t, when) {
        (Trigger::OnPc(a, act), Moment::Pc(pc)) => if a == pc {
            Some(act)
        } else {
            None
        },
        (Trigger::OnStep(n, act), Moment::Step(step)) => if n == step {
            Some(act)
        } else {
            None
        },
        _ => None,
    }
}

/// The state behind the triggers from `i` on, in order.
pub open spec fn fired<B: BootTarget>(
    b: BootState<B::V>,
    triggers: Seq<Trigger>,
    i: int,
    regs_base: u16,
    when: Moment,
) -> BootState<B::V>
    decreases triggers.len() - i,
{
    if i >= triggers.len() {
        b
    } else {
        match due(triggers[i], when) {
            Some(act) => fired::<B>(
                acted::<B>(b, regs_base, act, when is Pc),
                triggers,
                i + 1,
                regs_base,
                when,
            ),
            None => fired::<B>(b, triggers, i + 1, regs_base, when),
        }
    }
}

/// A sequencer and the bus behind a step: the step is counted and what is due
/// behind it carried out. There is no CPU at hand.
pub open spec fn post_stepped<B: BootTarget>(seq: SequencerState, m: B::V, regs_base: u16) -> (
    SequencerState,
    B::V,
) {
    let step = if seq.step == u64::MAX {
        0
    } else {
        (seq.step + 1) as u64
    };
    let b = BootState { seq: SequencerState { step: step, ..seq }, m, cc: 0 };
    let after = fired::<B>(b, seq.triggers, 0, regs_base, Moment::Step(step));
    (after.seq, after.m)
}

impl BootSequencer {
    pub fn new(triggers: Vec<Trigger>) -> (s: Self)
        ensures
            s@ == (SequencerState {
                triggers: triggers@,
                step: 0,
                console_missing: 0,
                block_missing: 0,
                mmu_missing: 0,
                warnings: Seq::empty(),
            }),
    {
        let s = BootSequencer {
            triggers,
            step: 0,
            console_missing_count: 0,
            block_missing_count: 0,
            mmu_missing_count: 0,
            warnings: Vec::new(),
        };
        assert(texts(s.warnings@) =~= Seq::<Seq<char>>::empty());
        s
    }

    /// Carries out what is due before the instruction at `pc`.
    pub fn on_pre_step<B: BootTarget>(
        &mut self,
        bus: &mut B,
        regs_base: u16,
        pc: u16,
        cpu: &mut Cpu,
    )
        requires
            old(bus).wf(),
        ensures
            final(bus).wf(),
            ({
                let b = BootState { seq: old(self)@, m: old(bus)@, cc: old(cpu).r.cc };
                let after = fired::<B>(b, old(self)@.triggers, 0, regs_base, Moment::Pc(pc));
                &&& final(self)@ == after.seq
                &&& final(bus)@ == after.m
                &&& *final(cpu) == (Cpu { r: Registers { cc: after.cc, ..old(cpu).r }, ..*old(cpu) })
            }),
    {
        let mut cc: u8 = cpu.r.cc;
        self.fire(bus, regs_base, Moment::Pc(pc), &mut cc);
        cpu.r.cc = cc;
    }

    /// Counts a step and carries out what is due behind it.
    pub fn on_post_step<B: BootTarget>(&mut self, bus: &mut B, regs_base: u16)
        requires
            old(bus).wf(),
        ensures
            final(bus).wf(),
            (final(self)@, final(bus)@) == post_stepped::<B>(old(self)@, old(bus)@, regs_base),
    {
        self.step = self.step.wrapping_add(1);
        let step: u64 = self.step;
        let mut cc: u8 = 0;
        self.fire(bus, regs_base, Moment::Step(step), &mut cc);
    }

    fn fire<B: BootTarget>(&mut self, bus: &mut B, regs_base: u16, when: Moment, cc: &mut u8)
        requires
            old(bus).wf(),
        ensures
            final(bus).wf(),
            (BootState { seq: final(self)@, m: final(bus)@, cc: *final(cc) }) == fired::<B>(
                BootState { seq: old(self)@, m: old(bus)@, cc: *old(cc) },
                old(self)@.triggers,
                0,
                regs_base,
                when,
            ),
    {
        let ghost b = BootState { seq: self@, m: bus@, cc: *cc };
        let ghost ts = self@.triggers;
        let mut i: usize = 0;
        while i < self.triggers.len()
            invariant
                i <= ts.len(),
                self@.triggers == ts,
                bus.wf(),
                fired::<B>(b, ts, 0, regs_base, when) == fired::<B>(
                    BootState { seq: self@, m: bus@, cc: *cc },
                    ts,
                    i as int,
                    regs_base,
                    when,
                ),
            decreases ts.len() - i,
        {
            let t: Trigger = self.triggers[i];
            assert(t == ts[i as int]);
            match due_action(t, when) {
                Some(act) => {
                    let cpu: bool = matches!(when, Moment::Pc(_));
                    self.apply_action(bus, regs_base, act, cpu, cc);
                },
                None => {},
            }
            i = i + 1;
        }
    }

    /// The number of console actions that found no console.
    pub fn console_missing_count(&self) -> (n: u64)
        ensures
            n == self@.console_missing,
    {
        self.console_missing_count
    }

    /// The number of block device actions that found no block device.
    pub fn block_missing_count(&self) -> (n: u64)
        ensures
            n == self@.block_missing,
    {
        self.block_missing_count
    }

    /// The number of MMU actions that found no MMU.
    pub fn mmu_missing_count(&self) -> (n: u64)
        ensures
            n == self@.mmu_missing,
    {
        self.mmu_missing_count
    }

    /// The warnings since the last call.
    pub fn take_warnings(&mut self) -> (lines: Vec<String>)
        ensures
            texts(lines@) == old(self)@.warnings,
            final(self)@ == (SequencerState { warnings: Seq::empty(), ..old(self)@ }),
    {
        let mut lines: Vec<String> = Vec::new();
        std::mem::swap(&mut lines, &mut self.warnings);
        assert(texts(self.warnings@) =~= Seq::<Seq<char>>::empty());
        lines
    }

    fn warn(&mut self, text: String)
        ensures
            final(self)@ == (SequencerState {
                warnings: old(self)@.warnings.push(text@),
                ..old(self)@
            }),
    {
        let ghost before = self.warnings@;
        self.warnings.push(text);
        assert(texts(self.warnings@) =~= texts(before).push(text@));
    }

    fn note_console_missing(&mut self, act: Action)
        ensures
            final(self)@ == old(self)@.without_console(act),
    {
        if self.console_missing_count == 0 {
            let mut s: String = String::new();
            push_text(&mut s, "[bootscript] warning: ");
            push_text(&mut s, name_of(act));
            push_text(
                &mut s,
                " action targets the console, but no console device is attached on this bus; the action is a no-op. Enable the console in your settings or pass --console <ADDR>. (Further occurrences silenced; see docs/en/config_and_boot_script.md.)",
            );
            assert(s@ =~= console_warning(action_name(act)));
            self.warn(s);
        }
        self.console_missing_count = self.console_missing_count.saturating_add(1);
    }

    fn note_block_missing(&mut self, act: Action)
        ensures
            final(self)@ == old(self)@.without_block(act),
    {
        if self.block_missing_count == 0 {
            let mut s: String = String::new();
            push_text(&mut s, "[bootscript] warning: ");
            push_text(&mut s, name_of(act));
            push_text(
                &mut s,
                " action targets the block device, but no block device is attached on this bus; the action is a no-op. Enable the block device in your settings or pass --block <ADDR>. (Further occurrences silenced; see docs/en/config_and_boot_script.md.)",
            );
            assert(s@ =~= block_warning(action_name(act)));
            self.warn(s);
        }
        self.block_missing_count = self.block_missing_count.saturating_add(1);
    }

    fn note_mmu_missing(&mut self, act: Action, regs_base: u16)
        ensures
            final(self)@ == old(self)@.without_mmu(act, regs_base),
    {
        if self.mmu_missing_count == 0 {
            let mut s: String = String::new();
            push_text(&mut s, "[bootscript] warning: ");
            push_text(&mut s, name_of(act));
            push_text(
                &mut s,
                " action requires an MMU on the bus, but none is attached.  The write to $",
            );
            push_hex4(&mut s, regs_base);
            push_text(
                &mut s,
                "+offset would have hit plain RAM; skipping to avoid memory corruption.  Enable the MMU in your settings or pass --mmu (and --mmu-reg-base if not the default). (Further occurrences silenced; see docs/en/config_and_boot_script.md.)",
            );
            assert(s@ =~= mmu_warning(action_name(act), regs_base));
            self.warn(s);
        }
        self.mmu_missing_count = self.mmu_missing_count.saturating_add(1);
    }

    fn write_mmu<B: BootTarget>(
        &mut self,
        bus: &mut B,
        regs_base: u16,
        act: Action,
        reg: u16,
        v: u8,
    )
        requires
            old(bus).wf(),
            reg < 0x28,
        ensures
            final(bus).wf(),
            if B::with_mmu() {
                final(self)@ == old(self)@ && final(bus)@ == B::write_next(
                    old(bus)@,
                    offset(regs_base, reg as int),
                    v,
                )
            } else {
                final(self)@ == old(self)@.without_mmu(act, regs_base) && final(bus)@ == old(bus)@
            },
    {
        if B::has_mmu() {
            bus.write8(offset_by(regs_base, reg as i32), v);
        } else {
            self.note_mmu_missing(act, regs_base);
        }
    }

    fn apply_action<B: BootTarget>(
        &mut self,
        bus: &mut B,
        regs_base: u16,
        act: Action,
        cpu: bool,
        cc: &mut u8,
    )
        requires
            old(bus).wf(),
        ensures
            final(bus).wf(),
            final(self)@.triggers == old(self)@.triggers,
            (BootState { seq: final(self)@, m: final(bus)@, cc: *final(cc) }) == acted::<B>(
                BootState { seq: old(self)@, m: old(bus)@, cc: *old(cc) },
                regs_base,
                act,
                cpu,
            ),
    {
        match act {
            Action::Mode(sys) => self.write_mmu(
                bus,
                regs_base,
                act,
                0x11,
                if sys {
                    1
                } else {
                    0
                },
            ),
            Action::Prot(v) => self.write_mmu(bus, regs_base, act, 0x12, v),
            Action::MapPage(p, f) => self.write_mmu(
                bus,
                regs_base,
                act,
                (p % 16) as u16,
                low_byte(f),
            ),
            Action::Attr(p, v) => self.write_mmu(
                bus,
                regs_base,
                act,
                0x18 + (p % 16) as u16,
                v,
            ),
            Action::ConCtrl(_) | Action::ConRxWm(_) | Action::ConIrqHold(_) | Action::ConFirq(
                _,
            ) => {
                if !bus.on_console(act) {
                    self.note_console_missing(act);
                }
            },
            Action::BlkIrq(_) | Action::BlkFirq(_) | Action::BlkIrqHold(_) => {
                if !bus.on_block(act) {
                    self.note_block_missing(act);
                }
            },
            Action::IrqMask(on) => {
                if cpu {
                    *cc = put_flag(*cc, 0x10, on);
                }
            },
            Action::FirqMask(on) => {
                if cpu {
                    *cc = put_flag(*cc, 0x40, on);
                }
            },
        }
    }
}

/// A sample script for a scenario, named in lower case.
pub open spec fn boot_template(name: Seq<char>) -> Seq<char> {
    if name == "os9l2-boot"@ {
        "# OS-9 L2 boot sequence\n# Switch to system mode at reset PC\non_pc 0xE000 mode sys\n# After 256 steps, switch to user mode\non_step 256 mode user\n"@
    } else if name == "os9l2-io"@ {
        "# OS-9 L2 IO boot sequence\n# Enter system mode at RESET, enable RX IRQ with FIRQ on console, then later switch user\non_pc 0xE000 mode sys\non_pc 0xE000 con_ctrl 0x11\non_pc 0xE000 con_rx_wm 4\non_pc 0xE000 con_irq_hold 8\non_step 512 mode user\n"@
    } else if name == "os9l2-sequence"@ || name == "os9l2-full"@ {
        "# OS-9 L2 boot sequence (init -> kernel map -> user transfer -> I/O init)\n# 1) Initialization at RESET: enter system mode, protect vectors, NX null\non_pc 0xE000 mode sys\non_pc 0xE000 prot 0x0B    # WPROT_EN | NX_EN | IRQ on fault\non_pc 0xE000 attr 0x00=0x04  # NX null page\non_pc 0xE000 attr 0x0F=0x01  # WPROT vectors\n# 2) Kernel placement: remap pages 0x0C..0x0E to high frames where kernel resides\non_pc 0xE000 map 0x0C=0xD0\non_pc 0xE000 map 0x0D=0xD1\non_pc 0xE000 map 0x0E=0xD2\n# 3) Transfer to user mode after some initialization steps\non_step 512 mode user\n# 4) I/O init: enable console RX IRQ with FIRQ, set watermark/hold\non_step 520 con_ctrl 0x11   # RX IRQ + FIRQ\non_step 520 con_rx_wm 4\non_step 520 con_irq_hold 8\n# Optional: mask/unmask IRQ/FIRQ during stages\n# on_pc 0xE000 irq_mask on\n# on_step 300 irq_mask off\n"@
    } else {
        "# Boot script template\n# on_pc 0xADDR mode user|sys\n# on_pc 0xADDR prot 0xVAL\n# on_pc 0xADDR map P=F\n# on_pc 0xADDR attr P=VAL\n# on_step N mode user|sys\n"@
    }
}

/// A sample script for a scenario; its name is taken in any case, and an
/// unknown one gives a template of comments.
pub fn emit_boot_template(name: &str) -> (text: String)
    ensures
        text@ == boot_template(lowered(name@)),
{
    let low: Vec<char> = lower_text(name);
    if spells(&low, "os9l2-boot") {
        message("# OS-9 L2 boot sequence\n# Switch to system mode at reset PC\non_pc 0xE000 mode sys\n# After 256 steps, switch to user mode\non_step 256 mode user\n")
    } else if spells(&low, "os9l2-io") {
        message("# OS-9 L2 IO boot sequence\n# Enter system mode at RESET, enable RX IRQ with FIRQ on console, then later switch user\non_pc 0xE000 mode sys\non_pc 0xE000 con_ctrl 0x11\non_pc 0xE000 con_rx_wm 4\non_pc 0xE000 con_irq_hold 8\non_step 512 mode user\n")
    } else if spells(&low, "os9l2-sequence") || spells(&low, "os9l2-full") {
        message("# OS-9 L2 boot sequence (init -> kernel map -> user transfer -> I/O init)\n# 1) Initialization at RESET: enter system mode, protect vectors, NX null\non_pc 0xE000 mode sys\non_pc 0xE000 prot 0x0B    # WPROT_EN | NX_EN | IRQ on fault\non_pc 0xE000 attr 0x00=0x04  # NX null page\non_pc 0xE000 attr 0x0F=0x01  # WPROT vectors\n# 2) Kernel placement: remap pages 0x0C..0x0E to high frames where kernel resides\non_pc 0xE000 map 0x0C=0xD0\non_pc 0xE000 map 0x0D=0xD1\non_pc 0xE000 map 0x0E=0xD2\n# 3) Transfer to user mode after some initialization steps\non_step 512 mode user\n# 4) I/O init: enable console RX IRQ with FIRQ, set watermark/hold\non_step 520 con_ctrl 0x11   # RX IRQ + FIRQ\non_step 520 con_rx_wm 4\non_step 520 con_irq_hold 8\n# Optional: mask/unmask IRQ/FIRQ during stages\n# on_pc 0xE000 irq_mask on\n# on_step 300 irq_mask off\n")
    } else {
        message("# Boot script template\n# on_pc 0xADDR mode user|sys\n# on_pc 0xADDR prot 0xVAL\n# on_pc 0xADDR map P=F\n# on_pc 0xADDR attr P=VAL\n# on_step N mode user|sys\n")
    }
}

} // verus!
