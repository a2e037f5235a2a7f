//! The configuration language of the MMU: one statement on each line, words
//! between white space, comments behind `#` or `//`.
//!
//! | Statement | Effect |
//! |---|---|
//! | `task N` | select task `N` |
//! | `mode sys`, `mode user` | select the mode |
//! | `map P=F` | map page `P` onto frame `F` |
//! | `attr P=B` | set the attributes of page `P` |
//! | `prot N` | write the protection control |
//! | `regs ADDR`, `regs off` | move or hide the register window |

use crate::bus::Bus;
use crate::mmu::{Mc6829, MmuState};
use crate::text::{
    digits, find_char, find_from, lines_of, lower_chars, lower_text, lowered, number_of,
    parse_number, parts, push_chars, push_digits, push_text, slice_of, spells, split_lines,
    split_words, words_of,
};
use vstd::prelude::*;

verus! {

/// What a statement sets.
#[derive(Clone, Copy, PartialEq, Eq, Structural, Debug)]
pub enum Setting {
    Task(u8),
    /// System mode, or user mode.
    Mode(bool),
    Prot(u8),
    MapPage(usize, u16),
    Attr(usize, u8),
    Window(u16),
    NoWindow,
}

/// Why a statement is refused.
#[derive(Clone, Copy, PartialEq, Eq, Structural, Debug)]
pub enum Refusal {
    /// Its first word is none of the statements.
    Unknown,
    /// Its operand is missing or malformed.
    Operand,
}

/// A page below 16 and a value up to `max`, with `=` between them.
pub open spec fn page_pair(s: Seq<char>, max: int) -> Option<(int, int)> {
    let e = find_from(s, '=', 0);
    if e >= s.len() {
        None
    } else {
        match (number_of(s.take(e), 15), number_of(s.skip(e + 1), max)) {
            (Some(p), Some(v)) => Some((p, v)),
            _ => None,
        }
    }
}

fn read_page_pair(v: &Vec<char>, max: u64) -> (r: Option<(usize, u64)>)
    ensures
        r is Some == page_pair(v@, max as int) is Some,
        r matches Some((p, n)) ==> p < 16 && n <= max && (p as int, n as int) == page_pair(
            v@,
            max as int,
        )->0,
{
    let e: usize = find_char(v, '=', 0);
    if e >= v.len() {
        return None;
    }
    let page: Vec<char> = slice_of(v, 0, e);
    let value: Vec<char> = slice_of(v, e + 1, v.len());
    assert(page@ =~= v@.take(e as int));
    assert(value@ =~= v@.skip(e + 1));
    match (parse_number(&page, 15), parse_number(&value, max)) {
        (Some(p), Some(n)) => Some((p as usize, n)),
        _ => None,
    }
}

/// The setting of statement `cmd` with operand `arg`; `low` is the operand in
/// lower case.
pub open spec fn setting_of(cmd: Seq<char>, arg: Option<Seq<char>>, low: Seq<char>) -> Result<
    Setting,
    Refusal,
> {
    if cmd == "task"@ {
        match arg {
            Some(a) => match number_of(a, 255) {
                Some(n) => Ok(Setting::Task(n as u8)),
                None => Err(Refusal::Operand),
            },
            None => Err(Refusal::Operand),
        }
    } else if cmd == "mode"@ {
        if arg is None {
            Err(Refusal::Operand)
        } else if low == "system"@ || low == "sys"@ {
            Ok(Setting::Mode(true))
        } else if low == "user"@ {
            Ok(Setting::Mode(false))
        } else {
            Err(Refusal::Operand)
        }
    } else if cmd == "prot"@ {
        match arg {
            Some(a) => match number_of(a, 0xFFFF) {
                Some(n) => Ok(Setting::Prot((n % 256) as u8)),
                None => Err(Refusal::Operand),
            },
            None => Err(Refusal::Operand),
        }
    } else if cmd == "map"@ {
        match arg {
            Some(a) => match page_pair(a, 0xFFFF) {
                Some((p, f)) => Ok(Setting::MapPage(p as usize, f as u16)),
                None => Err(Refusal::Operand),
            },
            None => Err(Refusal::Operand),
        }
    } else if cmd == "attr"@ {
        match arg {
            Some(a) => match page_pair(a, 0xFFFF) {
                Some((p, v)) => Ok(Setting::Attr(p as usize, (v % 256) as u8)),
                None => Err(Refusal::Operand),
            },
            None => Err(Refusal::Operand),
        }
    } else if cmd == "regs"@ {
        match arg {
            Some(a) => if low == "off"@ {
                Ok(Setting::NoWindow)
            } else {
                match number_of(a, 0xFFFF) {
                    Some(n) => Ok(Setting::Window(n as u16)),
                    None => Err(Refusal::Operand),
                }
            },
            None => Err(Refusal::Operand),
        }
    } else {
        Err(Refusal::Unknown)
    }
}

/// Reads statement `cmd`, in lower case, with operand `arg`; `low` is the
/// operand in lower case.
pub fn read_setting(cmd: &Vec<char>, arg: Option<&Vec<char>>, low: &Vec<char>) -> (r: Result<
    Setting,
    Refusal,
>)
    ensures
        r == setting_of(
            cmd@,
            match arg {
                Some(a) => Some(a@),
                None => None,
            },
            low@,
        ),
        r matches Ok(Setting::MapPage(p, _)) ==> p < 16,
        r matches Ok(Setting::Attr(p, _)) ==> p < 16,
{
    let known: bool = spells(cmd, "task") || spells(cmd, "mode") || spells(cmd, "prot") || spells(
        cmd,
        "map",
    ) || spells(cmd, "attr") || spells(cmd, "regs");
    if !known {
        return Err(Refusal::Unknown);
    }
    match arg {
        None => Err(Refusal::Operand),
        Some(a) => {
            if spells(cmd, "task") {
                match parse_number(a, 255) {
                    Some(n) => Ok(Setting::Task(n as u8)),
                    None => Err(Refusal::Operand),
                }
            } else if spells(cmd, "mode") {
                if spells(low, "system") || spells(low, "sys") {
                    Ok(Setting::Mode(true))
                } else if spells(low, "user") {
                    Ok(Setting::Mode(false))
                } else {
                    Err(Refusal::Operand)
                }
            } else if spells(cmd, "prot") {
                match parse_number(a, 0xFFFF) {
                    Some(n) => Ok(Setting::Prot((n % 256) as u8)),
                    None => Err(Refusal::Operand),
                }
            } else if spells(cmd, "map") {
                match read_page_pair(a, 0xFFFF) {
                    Some((p, f)) => Ok(Setting::MapPage(p, f as u16)),
                    None => Err(Refusal::Operand),
                }
            } else if spells(cmd, "attr") {
                match read_page_pair(a, 0xFFFF) {
                    Some((p, v)) => Ok(Setting::Attr(p, (v % 256) as u8)),
                    None => Err(Refusal::Operand),
                }
            } else if spells(low, "off") {
                Ok(Setting::NoWindow)
            } else {
                match parse_number(a, 0xFFFF) {
                    Some(n) => Ok(Setting::Window(n as u16)),
                    None => Err(Refusal::Operand),
                }
            }
        },
    }
}

/// The state of an MMU behind a setting.
pub open spec fn set_by(m: MmuState, s: Setting) -> MmuState {
    match s {
        Setting::Task(t) => MmuState { task: t % 8, ..m },
        Setting::Mode(sys) => MmuState { sys_mode: sys, ..m },
        Setting::Prot(v) => MmuState { prot_ctrl: v, ..m },
        Setting::MapPage(p, f) => m.with_frame(p as int, f),
        Setting::Attr(p, v) => m.with_attr(p as int, v),
        Setting::Window(base) => MmuState { regs_base: base, regs_enable: true, ..m },
        Setting::NoWindow => MmuState { regs_enable: false, ..m },
    }
}

/// Applies a setting.
pub fn apply_setting(mmu: &mut Mc6829, s: Setting)
    requires
        old(mmu).wf(),
        s matches Setting::MapPage(p, _) ==> p < 16,
        s matches Setting::Attr(p, _) ==> p < 16,
    ensures
        final(mmu).wf(),
        final(mmu)@ == set_by(old(mmu)@, s),
{
    match s {
        Setting::Task(t) => mmu.set_task(t),
        Setting::Mode(sys) => mmu.set_register(
            0x11,
            if sys {
                1
            } else {
                0
            },
        ),
        Setting::Prot(v) => mmu.set_register(0x12, v),
        Setting::MapPage(p, f) => mmu.set_map_entry(p, f),
        Setting::Attr(p, v) => mmu.set_register(0x18 + p as u16, v),
        Setting::Window(base) => mmu.move_window(base),
        Setting::NoWindow => mmu.hide_window(),
    }
}

/// Whether a line holds no statement: it is blank or a comment.
pub open spec fn is_comment(words: Seq<Seq<char>>) -> bool {
    words.len() == 0 || (words[0].len() >= 1 && words[0][0] == '#') || (words[0].len() >= 2
        && words[0][0] == '/' && words[0][1] == '/')
}

pub fn comment(words: &Vec<Vec<char>>) -> (r: bool)
    ensures
        r == is_comment(parts(words@)),
{
    if words.len() == 0 {
        return true;
    }
    let w: &Vec<char> = &words[0];
    assert(parts(words@)[0] == w@);
    (w.len() >= 1 && w[0] == '#') || (w.len() >= 2 && w[0] == '/' && w[1] == '/')
}

/// What a line that is no comment sets.
pub open spec fn line_setting(words: Seq<Seq<char>>) -> Result<Setting, Refusal> {
    setting_of(
        lowered(words[0]),
        if words.len() > 1 {
            Some(words[1])
        } else {
            None
        },
        lowered(words[1]),
    )
}

/// The message for a refused line.
pub open spec fn refusal_text(line: int, r: Refusal, cmd: Seq<char>) -> Seq<char> {
    "Line "@ + digits(line as nat) + (match r {
        Refusal::Unknown => ": unknown directive: "@,
        Refusal::Operand => ": bad operand: "@,
    }) + cmd
}

/// The state behind the lines from `i` on, and the message for the first that
/// is refused; what stands before it is in force.
pub open spec fn configured(m: MmuState, lines: Seq<Seq<char>>, i: int) -> (
    MmuState,
    Option<Seq<char>>,
)
    decreases lines.len() - i,
{
    if i >= lines.len() {
        (m, None)
    } else {
        let words = words_of(lines[i]);
        if is_comment(words) {
            configured(m, lines, i + 1)
        } else {
            match line_setting(words) {
                Ok(s) => configured(set_by(m, s), lines, i + 1),
                Err(r) => (m, Some(refusal_text(i + 1, r, words[0]))),
            }
        }
    }
}

/// Applies a configuration line by line, up to the first that is refused.
pub fn apply_mmu_config_from_str(mmu: &mut Mc6829, text: &str) -> (r: Result<(), String>)
    requires
        old(mmu).wf(),
    ensures
        final(mmu).wf(),
        final(mmu)@ == configured(old(mmu)@, lines_of(text@), 0).0,
        match r {
            Ok(_) => configured(old(mmu)@, lines_of(text@), 0).1 is None,
            Err(e) => configured(old(mmu)@, lines_of(text@), 0).1 == Some(e@),
        },
{
    let lines: Vec<Vec<char>> = split_lines(text);
    let ghost all = lines_of(text@);
    let mut i: usize = 0;
    while i < lines.len()
        invariant
            i <= lines@.len(),
            parts(lines@) == all,
            all == lines_of(text@),
            mmu.wf(),
            configured(old(mmu)@, all, 0) == configured(mmu@, all, i as int),
        decreases lines@.len() - i,
    {
        assert(parts(lines@)[i as int] == lines@[i as int]@);
        let words: Vec<Vec<char>> = split_words(&lines[i]);
        if !comment(&words) {
            assert(parts(words@)[0] == words@[0]@);
            let cmd: Vec<char> = lower_chars(&words[0]);
            let setting: Result<Setting, Refusal> = if words.len() > 1 {
                assert(parts(words@)[1] == words@[1]@);
                let low: Vec<char> = lower_chars(&words[1]);
                read_setting(&cmd, Some(&words[1]), &low)
            } else {
                read_setting(&cmd, None, &cmd)
            };
            match setting {
                Ok(s) => {
                    apply_setting(mmu, s);
                },
                Err(r) => {
                    let mut e: String = String::new();
                    push_text(&mut e, "Line ");
                    push_digits(&mut e, i as u64 + 1);
                    match r {
                        Refusal::Unknown => push_text(&mut e, ": unknown directive: "),
                        Refusal::Operand => push_text(&mut e, ": bad operand: "),
                    }
                    push_chars(&mut e, &words[0]);
                    assert(e@ =~= refusal_text(i + 1, r, words@[0]@));
                    return Err(e);
                },
            }
        }
        i = i + 1;
    }
    Ok(())
}

/// A sequence of settings.
pub open spec fn set_all(m: MmuState, settings: Seq<Setting>) -> MmuState
    decreases settings.len(),
{
    if settings.len() == 0 {
        m
    } else {
        set_by(set_all(m, settings.drop_last()), settings.last())
    }
}

/// Whether the pages of a setting are below 16.
pub open spec fn in_range(s: Setting) -> bool {
    &&& s matches Setting::MapPage(p, _) ==> p < 16
    &&& s matches Setting::Attr(p, _) ==> p < 16
}

/// What a preset sets on top of an identity map of task 0; `None` where there
/// is no such preset.
pub open spec fn preset_settings(name: Seq<char>) -> Option<Seq<Setting>> {
    if name == "identity"@ {
        Some(Seq::empty())
    } else if name == "os9l2"@ || name == "os9l2-basic"@ {
        // Vectors write-protected.
        Some(seq![Setting::Mode(false), Setting::Prot(0x03), Setting::Attr(0x0F, 0x01)])
    } else if name == "os9l2-sysmap"@ || name == "os9l2-boot"@ {
        // Page 0 not executable, vectors write-protected.
        Some(
            seq![
                Setting::Mode(true),
                Setting::Prot(0x0B),
                Setting::Attr(0x00, 0x04),
                Setting::Attr(0x0F, 0x01),
            ],
        )
    } else if name == "os9l2-io"@ {
        // Besides, the I/O page not executable and on a frame of its own.
        Some(
            seq![
                Setting::Mode(true),
                Setting::Prot(0x0B),
                Setting::Attr(0x00, 0x04),
                Setting::Attr(0x0F, 0x01),
                Setting::Attr(0x0E, 0x04),
                Setting::MapPage(0x0E, 0xFE),
            ],
        )
    } else if name == "os9l2-ramdisk"@ {
        // Vectors write-protected, four pages on high frames.
        Some(
            seq![
                Setting::Mode(false),
                Setting::Prot(0x03),
                Setting::Attr(0x0F, 0x01),
                Setting::MapPage(0x08, 0xC0),
                Setting::MapPage(0x09, 0xC1),
                Setting::MapPage(0x0A, 0xC2),
                Setting::MapPage(0x0B, 0xC3),
            ],
        )
    } else {
        None
    }
}

/// The state behind a preset.
pub open spec fn preset_state(m: MmuState, settings: Seq<Setting>) -> MmuState {
    if settings.len() == 0 {
        m.with_identity()
    } else {
        set_all((MmuState { task: 0, ..m }).with_identity(), settings)
    }
}

/// The settings of the preset with this name, in lower case.
pub fn find_preset(name: &Vec<char>) -> (r: Option<Vec<Setting>>)
    ensures
        r is Some == preset_settings(name@) is Some,
        r matches Some(v) ==> Some(v@) == preset_settings(name@) && forall|i: int|
            0 <= i < v@.len() ==> in_range(#[trigger] v@[i]),
{
    let mut v: Vec<Setting> = Vec::new();
    if spells(name, "identity") {
    } else if spells(name, "os9l2") || spells(name, "os9l2-basic") {
        v.push(Setting::Mode(false));
        v.push(Setting::Prot(0x03));
        v.push(Setting::Attr(0x0F, 0x01));
    } else if spells(name, "os9l2-sysmap") || spells(name, "os9l2-boot") {
        v.push(Setting::Mode(true));
        v.push(Setting::Prot(0x0B));
        v.push(Setting::Attr(0x00, 0x04));
        v.push(Setting::Attr(0x0F, 0x01));
    } else if spells(name, "os9l2-io") {
        v.push(Setting::Mode(true));
        v.push(Setting::Prot(0x0B));
        v.push(Setting::Attr(0x00, 0x04));
        v.push(Setting::Attr(0x0F, 0x01));
        v.push(Setting::Attr(0x0E, 0x04));
        v.push(Setting::MapPage(0x0E, 0xFE));
    } else if spells(name, "os9l2-ramdisk") {
        v.push(Setting::Mode(false));
        v.push(Setting::Prot(0x03));
        v.push(Setting::Attr(0x0F, 0x01));
        v.push(Setting::MapPage(0x08, 0xC0));
        v.push(Setting::MapPage(0x09, 0xC1));
        v.push(Setting::MapPage(0x0A, 0xC2));
        v.push(Setting::MapPage(0x0B, 0xC3));
    } else {
        return None;
    }
    assert(v@ =~= preset_settings(name@)->0);
    Some(v)
}

/// Applies a built-in configuration; its name is taken in any case.
pub fn apply_preset(mmu: &mut Mc6829, name: &str) -> (r: Result<(), String>)
    requires
        old(mmu).wf(),
    ensures
        final(mmu).wf(),
        match preset_settings(lowered(name@)) {
            Some(settings) => r is Ok && final(mmu)@ == preset_state(old(mmu)@, settings),
            None => final(mmu)@ == old(mmu)@ && (r matches Err(e) && e@ == "Unknown preset: "@
                + lowered(name@)),
        },
{
    let low: Vec<char> = lower_text(name);
    match find_preset(&low) {
        Some(settings) => {
            if settings.len() == 0 {
                mmu.identity_map_current();
                return Ok(());
            }
            mmu.set_task(0);
            mmu.identity_map_current();
            let ghost start = mmu@;
            let mut i: usize = 0;
            while i < settings.len()
                invariant
                    i <= settings@.len(),
                    mmu.wf(),
                    forall|k: int| 0 <= k < settings@.len() ==> in_range(#[trigger] settings@[k]),
                    mmu@ == set_all(start, settings@.take(i as int)),
                decreases settings@.len() - i,
            {
                assert(settings@.take(i + 1).drop_last() =~= settings@.take(i as int));
                assert(in_range(settings@[i as int]));
                apply_setting(mmu, settings[i]);
                i = i + 1;
            }
            assert(settings@.take(i as int) =~= settings@);
            Ok(())
        },
        None => {
            let mut e: String = String::new();
            push_text(&mut e, "Unknown preset: ");
            push_chars(&mut e, &low);
            assert(e@ =~= "Unknown preset: "@ + lowered(name@));
            Err(e)
        },
    }
}

/// The names of the presets.
pub open spec fn preset_names() -> Seq<Seq<char>> {
    seq![
        "identity"@,
        "os9l2"@,
        "os9l2-basic"@,
        "os9l2-sysmap"@,
        "os9l2-boot"@,
        "os9l2-io"@,
        "os9l2-ramdisk"@,
    ]
}

pub fn list_presets() -> (names: &'static [&'static str])
    ensures
        names@.map_values(|n: &'static str| n@) == preset_names(),
{
    let names: &'static [&'static str] = &[
        "identity",
        "os9l2",
        "os9l2-basic",
        "os9l2-sysmap",
        "os9l2-boot",
        "os9l2-io",
        "os9l2-ramdisk",
    ];
    assert(names@.map_values(|n: &'static str| n@) =~= preset_names());
    names
}

} // verus!
