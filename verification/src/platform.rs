// SPDX-License-Identifier: GPL-2.0-or-later
//! What differs between systems: finding a symbol among the loaded modules,
//! reading a text from the Windows registry, and from it where FrameSW is
//! installed.

use vstd::prelude::*;

use crate::plan::{Op, Plan, When};
use crate::text::trim_backslashes;

verus! {

/// The most modules that are looked through for a symbol.
pub const MAX_MODULES: usize = 1024;

/// How many modules there are to look through, where the system says that
/// their handles take `needed` bytes, `size` each.
pub fn module_count(needed: usize, size: usize) -> (count: usize)
    requires
        size > 0,
    ensures
        count == (if needed as int / size as int > MAX_MODULES {
            MAX_MODULES as int
        } else {
            needed as int / size as int
        }),
        count <= 1024,
        count < 1024 ==> count * size <= needed < (count + 1) * size,
{
    proof {
        let all = needed as int / size as int;
        assert(all * size <= needed < (all + 1) * size) by (nonlinear_arith)
            requires
                all == needed as int / size as int,
                size > 0,
                needed >= 0,
        ;
    }

    let all: usize = needed / size;
    if all > MAX_MODULES {
        MAX_MODULES
    } else {
        all
    }
}

/// The key FrameSW's installer writes, and the value in it.
pub const INSTALL_KEY: &'static str = "Software\\Microsoft\\Windows\\CurrentVersion\\Uninstall\\FrameSW";

pub const INSTALL_VALUE: &'static str = "InstallLocation";

/// `REG_SZ`, the type of a text.
pub const REG_SZ: u32 = 1;

/// Turns a number into the character of that code, as `char::from_u32`
/// documents: none for a surrogate, or above the last code.
pub assume_specification[ char::from_u32 ](i: u32) -> (c: Option<char>)
    ensures
        match c {
            Some(found) => found as int == i,
            None => 0xd800 <= i <= 0xdfff || i > 0x10ffff,
        },
;

/// A call that reads a value.
#[derive(Clone, Copy, PartialEq, Eq, Debug)]
pub enum RegCall<'a> {
    /// `RegOpenKeyExW` of this key under `HKEY_LOCAL_MACHINE`, to read; yes:
    /// the key.
    OpenKey(&'a str),
    /// `RegQueryValueExW` of this value, without a buffer; yes: `is_text`
    /// holds of what it said.
    QuerySize(&'a str),
    /// `RegQueryValueExW` of this value, with a buffer of `buffer_units`;
    /// yes: read.
    ReadValue(&'a str),
    /// `RegCloseKey`.
    CloseKey,
}

/// Why there is no value.
#[derive(Clone, Copy, PartialEq, Eq, Structural, Debug)]
pub enum RegFault {
    NoKey,
    NoValue,
    NotRead,
}

/// Whether a value is a text that holds something: its size could be asked
/// for, it is of type `REG_SZ`, and it has bytes.
pub fn is_text(status: u32, kind: u32, bytes: u32) -> (yes: bool)
    ensures
        yes == (status == 0 && kind == REG_SZ && bytes != 0),
        yes ==> kind == 1,
{
    status == 0 && kind == REG_SZ && bytes != 0
}

/// The UTF-16 units that hold a number of bytes.
pub fn buffer_units(bytes: u32) -> (units: usize)
    ensures
        2 * units - 1 <= bytes <= 2 * units,
{
    if bytes % 2 == 0 {
        (bytes / 2) as usize
    } else {
        (bytes / 2) as usize + 1
    }
}

pub open spec fn read_hklm_sz_ops<'a>(subkey: &'a str, value: &'a str) -> Seq<Op<RegCall<'a>, RegFault>> {
    seq![
        Op::Do { call: RegCall::OpenKey(subkey), when: When::Always },
        Op::Require { answer: 0, fault: RegFault::NoKey },
        Op::Do { call: RegCall::QuerySize(value), when: When::Always },
        Op::Do { call: RegCall::CloseKey, when: When::Unless(2) },
        Op::Require { answer: 2, fault: RegFault::NoValue },
        Op::Do { call: RegCall::ReadValue(value), when: When::Always },
        Op::Do { call: RegCall::CloseKey, when: When::Always },
        Op::Require { answer: 5, fault: RegFault::NotRead },
    ]
}

/// Reads one text from under `HKEY_LOCAL_MACHINE`: its size first, for
/// nothing bounds it, then the text. The key is closed on every way.
pub fn read_hklm_sz<'a>(subkey: &'a str, value: &'a str) -> (plan: Plan<RegCall<'a>, RegFault>)
    ensures
        plan.fresh(read_hklm_sz_ops(subkey, value)),
{
    let ops: Vec<Op<RegCall<'a>, RegFault>> = vec![
        Op::Do { call: RegCall::OpenKey(subkey), when: When::Always },
        Op::Require { answer: 0, fault: RegFault::NoKey },
        Op::Do { call: RegCall::QuerySize(value), when: When::Always },
        Op::Do { call: RegCall::CloseKey, when: When::Unless(2) },
        Op::Require { answer: 2, fault: RegFault::NoValue },
        Op::Do { call: RegCall::ReadValue(value), when: When::Always },
        Op::Do { call: RegCall::CloseKey, when: When::Always },
        Op::Require { answer: 5, fault: RegFault::NotRead },
    ];
    assert(ops@ =~= read_hklm_sz_ops(subkey, value));
    Plan::new(ops)
}

/// Reads where FrameSW's installer has put it.
pub fn read_install_dir() -> (plan: Plan<RegCall<'static>, RegFault>)
    ensures
        plan.fresh(read_hklm_sz_ops(INSTALL_KEY, INSTALL_VALUE)),
{
    read_hklm_sz(INSTALL_KEY, INSTALL_VALUE)
}

/// How a text is read.
pub open spec fn read_course<'a>(
    subkey: &'a str,
    value: &'a str,
    host: spec_fn(int) -> bool,
) -> crate::plan::Course<RegCall<'a>, RegFault> {
    if !host(0) {
        crate::plan::Course {
            calls: seq![
                (RegCall::OpenKey(subkey), false),
            ],
            fault: Some(RegFault::NoKey),
        }
    } else if !host(2) {
        crate::plan::Course {
            calls: seq![
                (RegCall::OpenKey(subkey), true),
                (RegCall::QuerySize(value), false),
                (RegCall::CloseKey, host(3)),
            ],
            fault: Some(RegFault::NoValue),
        }
    } else {
        crate::plan::Course {
            calls: seq![
                (RegCall::OpenKey(subkey), true),
                (RegCall::QuerySize(value), true),
                (RegCall::ReadValue(value), host(5)),
                (RegCall::CloseKey, host(6)),
            ],
            fault: if host(5) {
                None
            } else {
                Some(RegFault::NotRead)
            },
        }
    }
}

/// A key that was opened is closed, once.
pub proof fn how_a_text_is_read<'a>(subkey: &'a str, value: &'a str, host: spec_fn(int) -> bool)
    ensures
        crate::plan::whole_course(read_hklm_sz_ops(subkey, value), host) == read_course(subkey, value, host),
        crate::plan::whole_course(read_hklm_sz_ops(subkey, value), host) == (if !host(0) {
            crate::plan::Course {
                calls: seq![
                    (RegCall::OpenKey(subkey), false),
                ],
                fault: Some(RegFault::NoKey),
            }
        } else if !host(2) {
            crate::plan::Course {
                calls: seq![
                    (RegCall::OpenKey(subkey), true),
                    (RegCall::QuerySize(value), false),
                    (RegCall::CloseKey, host(3)),
                ],
                fault: Some(RegFault::NoValue),
            }
        } else {
            crate::plan::Course {
                calls: seq![
                    (RegCall::OpenKey(subkey), true),
                    (RegCall::QuerySize(value), true),
                    (RegCall::ReadValue(value), host(5)),
                    (RegCall::CloseKey, host(6)),
                ],
                fault: if host(5) {
                    None
                } else {
                    Some(RegFault::NotRead)
                },
            }
        }),
{
    let ops = read_hklm_sz_ops(subkey, value);
    crate::plan::every_step(ops, host);
    assert(crate::plan::whole_course(ops, host) =~= read_course(subkey, value, host));
}

// ---------------------------------------------------------------------
// UTF-16
// ---------------------------------------------------------------------

/// The first unit of a pair.
pub open spec fn leads(unit: u16) -> bool {
    0xd800 <= unit <= 0xdbff
}

/// The second unit of a pair.
pub open spec fn trails(unit: u16) -> bool {
    0xdc00 <= unit <= 0xdfff
}

/// The code that a pair stands for.
pub open spec fn paired(lead: u16, trail: u16) -> int {
    0x10000 + (lead - 0xd800) * 0x400 + (trail - 0xdc00)
}

/// The character in place of half a pair.
pub const REPLACEMENT: char = '\u{fffd}';

/// The text that UTF-16 units stand for. A unit that is half a pair without
/// its other half stands for the replacement character.
pub open spec fn decoded(units: Seq<u16>) -> Seq<char>
    decreases units.len(),
{
    if units.len() == 0 {
        Seq::empty()
    } else if !leads(units[0]) && !trails(units[0]) {
        seq![units[0] as char] + decoded(units.skip(1))
    } else if leads(units[0]) && units.len() >= 2 && trails(units[1]) {
        seq![paired(units[0], units[1]) as char] + decoded(units.skip(2))
    } else {
        seq![REPLACEMENT] + decoded(units.skip(1))
    }
}

/// How UTF-16 is read, from the front: a unit outside the surrogates is the
/// character of its own number; two that make a pair are one character above
/// them; any other surrogate is replaced, and nothing is left out.
pub proof fn how_utf16_is_read(units: Seq<u16>)
    ensures
        units.len() == 0 ==> decoded(units).len() == 0,
        units.len() > 0 && (units[0] < 0xd800 || units[0] > 0xdfff) ==> decoded(units) == seq![units[0] as char]
            + decoded(units.skip(1)),
        units.len() > 1 && 0xd800 <= units[0] <= 0xdbff && 0xdc00 <= units[1] <= 0xdfff ==> decoded(units) == seq![
            (0x10000 + (units[0] - 0xd800) * 0x400 + (units[1] - 0xdc00)) as char,
        ] + decoded(units.skip(2)),
        units.len() > 0 && 0xdc00 <= units[0] <= 0xdfff ==> decoded(units) == seq!['\u{fffd}'] + decoded(units.skip(1)),
        units.len() > 0 && 0xd800 <= units[0] <= 0xdbff && (units.len() == 1 || units[1] < 0xdc00 || units[1] > 0xdfff)
            ==> decoded(units) == seq!['\u{fffd}'] + decoded(units.skip(1)),
{
}

fn char_of(code: u32) -> (c: char)
    requires
        code < 0xd800 || 0xdfff < code <= 0x10ffff,
    ensures
        c == code as char,
{
    match char::from_u32(code) {
        Some(c) => c,
        None => REPLACEMENT,
    }
}

/// The text that the first `end` units stand for.
fn decode_utf16(units: &Vec<u16>, end: usize) -> (text: String)
    requires
        end <= units@.len(),
    ensures
        text@ == decoded(units@.take(end as int)),
{
    let ghost all = units@.take(end as int);
    let mut text = String::new();
    let mut i: usize = 0;
    assert(all.skip(0) =~= all);
    assert(text@ + decoded(all.skip(0)) =~= decoded(all));
    while i < end
        invariant
            i <= end <= units@.len(),
            all == units@.take(end as int),
            text@ + decoded(all.skip(i as int)) == decoded(all),
        decreases end - i,
    {
        let ghost rest = all.skip(i as int);
        let ghost before = text@;
        let unit: u16 = units[i];
        assert(rest[0] == unit);
        assert(rest.skip(1) =~= all.skip(i + 1));
        if unit < 0xd800 || unit > 0xdfff {
            let c = char_of(unit as u32);
            text.push(c);
            assert(text@ + decoded(all.skip(i + 1)) =~= before + (seq![c] + decoded(all.skip(i + 1))));
            i = i + 1;
        } else if unit <= 0xdbff && i + 1 < end && 0xdc00 <= units[i + 1] && units[i + 1] <= 0xdfff {
            let trail: u16 = units[i + 1];
            assert(rest[1] == trail);
            assert(rest.skip(2) =~= all.skip(i + 2));
            let code: u32 = 0x10000 + (unit as u32 - 0xd800) * 0x400 + (trail as u32 - 0xdc00);
            let c = char_of(code);
            text.push(c);
            assert(text@ + decoded(all.skip(i + 2)) =~= before + (seq![c] + decoded(all.skip(i + 2))));
            i = i + 2;
        } else {
            text.push(REPLACEMENT);
            assert(text@ + decoded(all.skip(i + 1)) =~= before + (seq![REPLACEMENT] + decoded(all.skip(i + 1))));
            i = i + 1;
        }
    }
    assert(all.skip(end as int) =~= Seq::<u16>::empty());
    assert(text@ =~= decoded(all));
    text
}

/// A path without the backslashes at its end; none where nothing is left.
pub open spec fn path_of(text: Seq<char>) -> Option<Seq<char>> {
    let path = crate::text::without_trailing(text, '\\');
    if path.len() == 0 {
        None
    } else {
        Some(path)
    }
}

fn path_from(text: &str) -> (path: Option<String>)
    ensures
        crate::text::name_of(path) == path_of(text@),
        path matches Some(dir) ==> {
            &&& 0 < dir@.len() <= text@.len()
            &&& dir@ == text@.take(dir@.len() as int)
            &&& dir@.last() != '\\'
            &&& forall|i: int| dir@.len() <= i < text@.len() ==> #[trigger] text@[i] == '\\'
        },
        path is None <==> forall|i: int| 0 <= i < text@.len() ==> #[trigger] text@[i] == '\\',
{
    let path = trim_backslashes(text);
    proof {
        if path@.len() > 0 {
            assert(text@[path@.len() - 1] == path@.last());
        }
    }
    if path.as_str().is_empty() {
        None
    } else {
        Some(path)
    }
}

/// The path a value holds. A text need not end in a NUL; where it has one, it
/// ends there.
pub fn value_text(units: &Vec<u16>) -> (path: Option<String>)
    ensures
        crate::text::name_of(path) == path_of(decoded(units@.take(crate::text::first_at(units@, 0u16)))),
        exists|end: int| {
            let text = #[trigger] decoded(units@.take(end));
            &&& 0 <= end <= units@.len()
            &&& forall|i: int| 0 <= i < end ==> #[trigger] units@[i] != 0
            &&& end < units@.len() ==> units@[end] == 0
            &&& path is None <==> forall|i: int| 0 <= i < text.len() ==> #[trigger] text[i] == '\\'
            &&& path matches Some(dir) ==> {
                &&& 0 < dir@.len() <= text.len()
                &&& dir@ == text.take(dir@.len() as int)
                &&& dir@.last() != '\\'
                &&& forall|i: int| dir@.len() <= i < text.len() ==> #[trigger] text[i] == '\\'
            }
        },
{
    let mut end: usize = 0;
    while end < units.len() && units[end] != 0
        invariant
            end <= units@.len(),
            forall|i: int| 0 <= i < end ==> units@[i] != 0,
        decreases units@.len() - end,
    {
        end = end + 1;
    }
    proof {
        crate::text::first_at_finds(units@, 0u16);
    }
    let text = decode_utf16(units, end);
    assert(text@ == decoded(units@.take(end as int)));
    path_from(text.as_str())
}

/// Where FrameSW is installed, from the value its installer has written, if
/// any.
pub fn framesw_install_dir(value: Option<String>) -> (dir: Option<String>)
    ensures
        crate::text::name_of(dir) == (match value {
            Some(text) => path_of(text@),
            None => None,
        }),
        value is None ==> dir is None,
        value matches Some(text) ==> (dir is None <==> forall|i: int|
            0 <= i < text@.len() ==> #[trigger] text@[i] == '\\'),
        value is Some && dir is Some ==> {
            let (text, path) = (value->0@, dir->0@);
            &&& 0 < path.len() <= text.len()
            &&& path == text.take(path.len() as int)
            &&& path.last() != '\\'
            &&& forall|i: int| path.len() <= i < text.len() ==> #[trigger] text[i] == '\\'
        },
{
    match value {
        Some(text) => path_from(text.as_str()),
        None => None,
    }
}

} // verus!
