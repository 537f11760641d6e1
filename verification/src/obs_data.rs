// SPDX-License-Identifier: GPL-2.0-or-later
//! The `audio_levels` event: how its data is built out of libobs's
//! reference-counted objects and arrays.

use vstd::prelude::*;

verus! {

/// One source's level.
pub struct SourceLevel {
    pub name: String,
    /// The bits of the peak in decibels, a 32-bit float.
    pub peak_db: u32,
    /// Whether the source is on Program.
    pub active: bool,
}

/// A call that builds the event's data.
#[derive(Clone, Copy, PartialEq, Eq, Structural, Debug)]
pub enum PayloadCall {
    /// `obs_data_create` for the event itself.
    CreateRoot,
    /// `obs_data_array_create`.
    CreateArray,
    /// `obs_data_create` for one level.
    CreateEntry,
    /// `obs_data_set_string` of `name`, to the name of this level up to its
    /// first NUL.
    SetName(usize),
    /// `obs_data_set_double` of `peak_db`.
    SetPeak(u32),
    /// `obs_data_set_bool` of `active`.
    SetActive(bool),
    /// `obs_data_array_push_back` of the entry; the array takes a reference
    /// of its own.
    PushEntry,
    /// `obs_data_release` of the entry.
    ReleaseEntry,
    /// `obs_data_set_array` of `levels`; the event takes a reference of its
    /// own.
    SetArray,
    /// `obs_data_array_release`.
    ReleaseArray,
}

/// The calls that add one level.
pub open spec fn entry_calls(levels: Seq<SourceLevel>, i: int) -> Seq<PayloadCall> {
    seq![
        PayloadCall::CreateEntry,
        PayloadCall::SetName(i as usize),
        PayloadCall::SetPeak(levels[i].peak_db),
        PayloadCall::SetActive(levels[i].active),
        PayloadCall::PushEntry,
        PayloadCall::ReleaseEntry,
    ]
}

/// The calls that add the first `n` levels.
pub open spec fn entries_calls(levels: Seq<SourceLevel>, n: int) -> Seq<PayloadCall>
    decreases n,
{
    if n <= 0 {
        Seq::empty()
    } else {
        entries_calls(levels, n - 1) + entry_calls(levels, n - 1)
    }
}

pub open spec fn payload_calls(levels: Seq<SourceLevel>) -> Seq<PayloadCall> {
    seq![PayloadCall::CreateRoot, PayloadCall::CreateArray] + entries_calls(levels, levels.len() as int)
        + seq![PayloadCall::SetArray, PayloadCall::ReleaseArray]
}

/// The calls that build `{"levels": [{"name", "peak_db", "active"}, ...]}`.
/// None where libobs lacks any of the functions: no event is better than
/// half a one.
pub fn build_levels_payload(symbols: bool, levels: &Vec<SourceLevel>) -> (calls: Option<Vec<PayloadCall>>)
    ensures
        match calls {
            Some(list) => symbols && list@ == payload_calls(levels@),
            None => !symbols,
        },
{
    if !symbols {
        return None;
    }
    let mut calls: Vec<PayloadCall> = vec![PayloadCall::CreateRoot, PayloadCall::CreateArray];
    let ghost head = seq![PayloadCall::CreateRoot, PayloadCall::CreateArray];
    let mut i: usize = 0;
    assert(calls@ =~= head + entries_calls(levels@, 0));
    while i < levels.len()
        invariant
            i <= levels@.len(),
            calls@ == head + entries_calls(levels@, i as int),
        decreases levels@.len() - i,
    {
        let ghost before = calls@;
        calls.push(PayloadCall::CreateEntry);
        calls.push(PayloadCall::SetName(i));
        calls.push(PayloadCall::SetPeak(levels[i].peak_db));
        calls.push(PayloadCall::SetActive(levels[i].active));
        calls.push(PayloadCall::PushEntry);
        calls.push(PayloadCall::ReleaseEntry);
        assert(calls@ =~= before + entry_calls(levels@, i as int));
        i = i + 1;
        assert(calls@ =~= head + entries_calls(levels@, i as int));
    }
    calls.push(PayloadCall::SetArray);
    calls.push(PayloadCall::ReleaseArray);
    assert(calls@ =~= payload_calls(levels@));
    Some(calls)
}

proof fn each_level_has_its_calls(levels: Seq<SourceLevel>, n: int, i: int)
    requires
        0 <= i <= n,
    ensures
        entries_calls(levels, n).len() == 6 * n,
        i < n ==> entries_calls(levels, n)[6 * i] == PayloadCall::CreateEntry,
        i < n ==> entries_calls(levels, n)[6 * i + 1] == PayloadCall::SetName(i as usize),
        i < n ==> entries_calls(levels, n)[6 * i + 2] == PayloadCall::SetPeak(levels[i].peak_db),
        i < n ==> entries_calls(levels, n)[6 * i + 3] == PayloadCall::SetActive(levels[i].active),
        i < n ==> entries_calls(levels, n)[6 * i + 4] == PayloadCall::PushEntry,
        i < n ==> entries_calls(levels, n)[6 * i + 5] == PayloadCall::ReleaseEntry,
    decreases n,
{
    if n > 0 {
        each_level_has_its_calls(
            levels,
            n - 1,
            if i < n - 1 {
                i
            } else {
                n - 1
            },
        );
    }
}

/// How the event is built, call by call: every level gets an entry of its own,
/// with its own name, peak and bus, in order, before the array is set.
pub proof fn how_the_levels_are_told(levels: Seq<SourceLevel>, i: int)
    requires
        0 <= i <= levels.len(),
    ensures
        ({
            let calls = payload_calls(levels);
            let n = levels.len() as int;
            &&& calls.len() == 6 * n + 4
            &&& calls[0] == PayloadCall::CreateRoot
            &&& calls[1] == PayloadCall::CreateArray
            &&& i < n ==> calls[6 * i + 2] == PayloadCall::CreateEntry
            &&& i < n ==> calls[6 * i + 3] == PayloadCall::SetName(i as usize)
            &&& i < n ==> calls[6 * i + 4] == PayloadCall::SetPeak(levels[i].peak_db)
            &&& i < n ==> calls[6 * i + 5] == PayloadCall::SetActive(levels[i].active)
            &&& i < n ==> calls[6 * i + 6] == PayloadCall::PushEntry
            &&& i < n ==> calls[6 * i + 7] == PayloadCall::ReleaseEntry
            &&& calls[6 * n + 2] == PayloadCall::SetArray
            &&& calls[6 * n + 3] == PayloadCall::ReleaseArray
        }),
{
    each_level_has_its_calls(levels, levels.len() as int, i);
    let calls = payload_calls(levels);
    let body = entries_calls(levels, levels.len() as int);
    if i < levels.len() {
        assert(calls[6 * i + 2] == body[6 * i]);
        assert(calls[6 * i + 3] == body[6 * i + 1]);
        assert(calls[6 * i + 4] == body[6 * i + 2]);
        assert(calls[6 * i + 5] == body[6 * i + 3]);
        assert(calls[6 * i + 6] == body[6 * i + 4]);
        assert(calls[6 * i + 7] == body[6 * i + 5]);
    }
}

/// What the builder holds: the event, the array, and entries.
pub ghost struct References {
    pub root: int,
    pub array: int,
    pub entry: int,
}

pub open spec fn references_with(held: References, call: PayloadCall) -> References {
    match call {
        PayloadCall::CreateRoot => References { root: held.root + 1, ..held },
        PayloadCall::CreateArray => References { array: held.array + 1, ..held },
        PayloadCall::CreateEntry => References { entry: held.entry + 1, ..held },
        PayloadCall::ReleaseEntry => References { entry: held.entry - 1, ..held },
        PayloadCall::ReleaseArray => References { array: held.array - 1, ..held },
        _ => held,
    }
}

pub open spec fn references_after(held: References, calls: Seq<PayloadCall>) -> References
    decreases calls.len(),
{
    if calls.len() == 0 {
        held
    } else {
        references_with(references_after(held, calls.drop_last()), calls.last())
    }
}

proof fn references_after_both(held: References, a: Seq<PayloadCall>, b: Seq<PayloadCall>)
    ensures
        references_after(held, a + b) == references_after(references_after(held, a), b),
    decreases b.len(),
{
    if b.len() == 0 {
        assert(a + b =~= a);
    } else {
        references_after_both(held, a, b.drop_last());
        assert((a + b).drop_last() =~= a + b.drop_last());
        assert((a + b).last() == b.last());
    }
}

proof fn an_entry_holds_nothing(held: References, levels: Seq<SourceLevel>, i: int)
    ensures
        references_after(held, entry_calls(levels, i)) == held,
{
    let calls = entry_calls(levels, i);
    reveal_with_fuel(references_after, 7);
    assert(calls.drop_last() =~= calls.take(5));
    assert(calls.take(5).drop_last() =~= calls.take(4));
    assert(calls.take(4).drop_last() =~= calls.take(3));
    assert(calls.take(3).drop_last() =~= calls.take(2));
    assert(calls.take(2).drop_last() =~= calls.take(1));
    assert(calls.take(1).drop_last() =~= Seq::<PayloadCall>::empty());
}

proof fn entries_hold_nothing(held: References, levels: Seq<SourceLevel>, n: int)
    requires
        0 <= n,
    ensures
        references_after(held, entries_calls(levels, n)) == held,
    decreases n,
{
    if n > 0 {
        entries_hold_nothing(held, levels, n - 1);
        an_entry_holds_nothing(held, levels, n - 1);
        references_after_both(held, entries_calls(levels, n - 1), entry_calls(levels, n - 1));
    }
}

/// However many levels there are, the builder is left with one reference to
/// the event, and with nothing else.
pub proof fn the_builder_keeps_only_the_event(levels: Seq<SourceLevel>)
    ensures
        references_after((References { root: 0, array: 0, entry: 0 }), payload_calls(levels)) == (References {
            root: 1,
            array: 0,
            entry: 0,
        }),
{
    let none = References { root: 0, array: 0, entry: 0 };
    let head = seq![PayloadCall::CreateRoot, PayloadCall::CreateArray];
    let body = entries_calls(levels, levels.len() as int);
    let tail = seq![PayloadCall::SetArray, PayloadCall::ReleaseArray];
    reveal_with_fuel(references_after, 3);
    assert(head.drop_last() =~= seq![PayloadCall::CreateRoot]);
    assert(head.drop_last().drop_last() =~= Seq::<PayloadCall>::empty());
    let begun = references_after(none, head);
    references_after_both(none, head, body);
    entries_hold_nothing(begun, levels, levels.len() as int);
    references_after_both(none, head + body, tail);
    assert(tail.drop_last() =~= seq![PayloadCall::SetArray]);
    assert(tail.drop_last().drop_last() =~= Seq::<PayloadCall>::empty());
}

/// Whether to release the event's data: where there is any, and libobs can.
pub fn release(present: bool, symbol: bool) -> (due: bool)
    ensures
        due == (present && symbol),
{
    present && symbol
}

} // verus!
