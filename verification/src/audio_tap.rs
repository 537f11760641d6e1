// SPDX-License-Identifier: GPL-2.0-or-later
//! Monitor taps: which source, or which set of sources, each monitor bus
//! forwards.
//!
//! A bus has at most one of two things. An exclusive tap forwards one source
//! on every callback. A mix bus collects the latest buffer of each source in
//! a set, and a flush adds them up. A tap only reads samples; nothing here
//! routes audio inside OBS.
//!
//! The NDI sender behind a tap (`S`), the sender and flush thread behind a
//! mix (`M`) and a sample (`T`) are the caller's own. A sender ends when the
//! registry drops it.

use vstd::prelude::*;

use crate::audio_mix::{build_scaled_planar_buffer, sum_contributions};
use crate::named::NameMap;
use crate::text::{same_text, text3};

verus! {

broadcast use vstd::string::group_string_axioms;

/// One exclusive tap.
pub struct Tap<S> {
    source_name: String,
    sender: S,
}

/// One mix bus.
pub struct MixBus<M, T> {
    handle: M,
    latest: NameMap<Vec<T>>,
    sources: NameMap<()>,
    meta: (i32, i32),
}

/// What a mix bus holds: the sources that belong to it, the latest buffer of
/// each that has delivered one since the last flush, and the sample rate and
/// channel count last seen.
#[verifier::ext_equal]
pub struct MixView<M, T> {
    pub handle: M,
    pub sources: Set<Seq<char>>,
    pub latest: Map<Seq<char>, Seq<T>>,
    pub meta: (i32, i32),
}

impl<M, T> View for MixBus<M, T> {
    type V = MixView<M, T>;

    closed spec fn view(&self) -> MixView<M, T> {
        MixView {
            handle: self.handle,
            sources: self.sources@.dom(),
            latest: self.latest@.map_values(|buffer: Vec<T>| buffer@),
            meta: self.meta,
        }
    }
}

impl<M, T> MixBus<M, T> {
    spec fn tables_ok(&self) -> bool {
        self.latest.well_formed() && self.sources.well_formed()
    }
}

/// Every monitor bus of the plugin.
pub struct AudioTaps<S, M, T> {
    taps: NameMap<Tap<S>>,
    buses: NameMap<MixBus<M, T>>,
}

impl<S, M, T> AudioTaps<S, M, T> {
    /// The exclusive taps: the source and the sender of each bus.
    pub closed spec fn tapped(&self) -> Map<Seq<char>, (Seq<char>, S)> {
        self.taps@.map_values(|tap: Tap<S>| (tap.source_name@, tap.sender))
    }

    /// The mix buses.
    pub closed spec fn mixes(&self) -> Map<Seq<char>, MixView<M, T>> {
        self.buses@.map_values(|bus: MixBus<M, T>| bus@)
    }

    /// The buses with an exclusive tap, in the order in which they are walked.
    pub closed spec fn tap_order(&self) -> Seq<Seq<char>> {
        self.taps.order()
    }

    /// No table holds a name twice.
    pub closed spec fn tables_ok(&self) -> bool {
        &&& self.taps.well_formed()
        &&& self.buses.well_formed()
        &&& forall|bus: Seq<char>| self.buses@.contains_key(bus) ==> (#[trigger] self.buses@[bus]).tables_ok()
    }

    /// No bus has both a tap and a mix, and a mix holds buffers only of the
    /// sources that belong to it.
    pub open spec fn well_formed(&self) -> bool {
        &&& self.tables_ok()
        &&& forall|bus: Seq<char>| #[trigger] self.mixes().contains_key(bus) ==> !self.tapped().contains_key(bus)
        &&& forall|bus: Seq<char>| #[trigger]
            self.mixes().contains_key(bus) ==> self.mixes()[bus].latest.dom().subset_of(self.mixes()[bus].sources)
    }

    /// A registry without any bus.
    pub fn new() -> (registry: Self)
        ensures
            registry.well_formed(),
            registry.tapped() == Map::<Seq<char>, (Seq<char>, S)>::empty(),
            registry.mixes() == Map::<Seq<char>, MixView<M, T>>::empty(),
    {
        let registry = AudioTaps { taps: NameMap::new(), buses: NameMap::new() };
        assert(registry.tapped() =~= Map::<Seq<char>, (Seq<char>, S)>::empty());
        assert(registry.mixes() =~= Map::<Seq<char>, MixView<M, T>>::empty());
        registry
    }
}

/// What starting a tap takes, given the source the bus taps already.
#[derive(Clone, Copy, PartialEq, Eq, Structural, Debug)]
pub enum StartDecision {
    /// The bus taps this source already.
    AlreadyCorrect,
    /// The bus taps another source: point it at this one, sender and all.
    Repoint,
    /// The bus has no tap: it needs a new sender.
    NeedsNewSender,
}

pub open spec fn start_decision(existing: Option<Seq<char>>, requested: Seq<char>) -> StartDecision {
    match existing {
        Some(name) => if name == requested {
            StartDecision::AlreadyCorrect
        } else {
            StartDecision::Repoint
        },
        None => StartDecision::NeedsNewSender,
    }
}

/// Decides what starting a tap on `requested_source_name` takes.
pub fn decide_start(existing_source_name: Option<&str>, requested_source_name: &str) -> (decision: StartDecision)
    ensures
        decision == start_decision(
            match existing_source_name {
                Some(name) => Some(name@),
                None => None,
            },
            requested_source_name@,
        ),
        decision == StartDecision::NeedsNewSender <==> existing_source_name is None,
        existing_source_name matches Some(name) ==> (decision == StartDecision::AlreadyCorrect <==> name@
            == requested_source_name@),
{
    match existing_source_name {
        Some(name) => {
            if same_text(name, requested_source_name) {
                StartDecision::AlreadyCorrect
            } else {
                StartDecision::Repoint
            }
        },
        None => StartDecision::NeedsNewSender,
    }
}

/// The NDI name under which a bus sends.
pub open spec fn monitor_name(bus: Seq<char>) -> Seq<char> {
    "FrameSW-Monitor-"@ + bus
}

fn name_sender(bus_id: &str) -> (name: String)
    ensures
        name@ == monitor_name(bus_id@),
        name@ == "FrameSW-Monitor-"@ + bus_id@,
{
    let name = text3("FrameSW-Monitor-", bus_id, "");
    proof {
        reveal_strlit("");
        assert(name@ =~= monitor_name(bus_id@));
    }
    name
}

/// What is reported when the sender that a bus needs could not be made.
pub open spec fn no_sender_error(bus: Seq<char>) -> Seq<char> {
    "NDI runtime unavailable — could not create sender '"@ + monitor_name(bus) + "'"@
}

fn describe_no_sender(bus_id: &str) -> (error: String)
    ensures
        error@ == no_sender_error(bus_id@),
        error@ == "NDI runtime unavailable — could not create sender '"@ + ("FrameSW-Monitor-"@ + bus_id@) + "'"@,
{
    let name = name_sender(bus_id);
    text3("NDI runtime unavailable — could not create sender '", name.as_str(), "'")
}

impl<S, M, T> AudioTaps<S, M, T> {
    proof fn tap_at(&self, bus: Seq<char>)
        ensures
            self.tapped().contains_key(bus) == self.taps@.contains_key(bus),
            self.taps@.contains_key(bus) ==> self.tapped()[bus] == (
                self.taps@[bus].source_name@,
                self.taps@[bus].sender,
            ),
    {
    }

    proof fn mix_at(&self, bus: Seq<char>)
        ensures
            self.mixes().contains_key(bus) == self.buses@.contains_key(bus),
            self.buses@.contains_key(bus) ==> self.mixes()[bus] == self.buses@[bus]@,
    {
    }

    /// Ends the exclusive tap of `bus_id`.
    fn drop_tap(&mut self, bus_id: &str)
        requires
            old(self).well_formed(),
        ensures
            final(self).well_formed(),
            final(self).tapped() == old(self).tapped().remove(bus_id@),
            final(self).mixes() == old(self).mixes(),
    {
        let ghost before = *self;
        let _ended = self.taps.take(bus_id);
        assert(self.tapped() =~= before.tapped().remove(bus_id@));
        assert(self.mixes() =~= before.mixes());
    }

    /// Ends the mix of `bus_id`.
    fn drop_mix(&mut self, bus_id: &str)
        requires
            old(self).well_formed(),
        ensures
            final(self).well_formed(),
            final(self).mixes() == old(self).mixes().remove(bus_id@),
            final(self).tapped() == old(self).tapped(),
    {
        let ghost before = *self;
        let _ended = self.buses.take(bus_id);
        assert(self.mixes() =~= before.mixes().remove(bus_id@));
        assert(self.tapped() =~= before.tapped());
        assert forall|bus: Seq<char>| self.buses@.contains_key(bus) implies (#[trigger] self.buses@[bus]).tables_ok() by {
            assert(before.buses@.contains_key(bus));
            assert(before.buses@[bus].tables_ok());
        }
        assert forall|bus: Seq<char>| #[trigger] self.mixes().contains_key(bus) implies !self.tapped().contains_key(bus)
            && self.mixes()[bus].latest.dom().subset_of(self.mixes()[bus].sources) by {
            assert(before.mixes().contains_key(bus));
        }
    }
}

/// Makes way for an exclusive tap on `bus_id`: ends the mix of the bus, and
/// says under which name a sender has to be made first, if any. The mix ends
/// before its NDI name is asked for again.
pub fn prepare_audio_tap<S, M, T>(registry: &mut AudioTaps<S, M, T>, bus_id: &str) -> (sender_name: Option<String>)
    requires
        old(registry).well_formed(),
    ensures
        final(registry).well_formed(),
        final(registry).tapped() == old(registry).tapped(),
        final(registry).mixes() == old(registry).mixes().remove(bus_id@),
        match sender_name {
            Some(name) => !old(registry).tapped().contains_key(bus_id@) && name@ == monitor_name(bus_id@),
            None => old(registry).tapped().contains_key(bus_id@),
        },
        sender_name matches Some(name) ==> name@ == "FrameSW-Monitor-"@ + bus_id@,
{
    registry.drop_mix(bus_id);
    if registry.taps.contains(bus_id) {
        None
    } else {
        Some(name_sender(bus_id))
    }
}

/// The taps after a start on `bus` was asked for `source`, given the sender
/// made for it; `None` where the bus needs a sender and there is none.
pub open spec fn tap_started<S>(
    taps: Map<Seq<char>, (Seq<char>, S)>,
    bus: Seq<char>,
    source: Seq<char>,
    sender: Option<S>,
) -> Option<Map<Seq<char>, (Seq<char>, S)>> {
    let existing = if taps.contains_key(bus) {
        Some(taps[bus].0)
    } else {
        None
    };
    match start_decision(existing, source) {
        StartDecision::AlreadyCorrect => Some(taps),
        StartDecision::Repoint => Some(taps.insert(bus, (source, taps[bus].1))),
        StartDecision::NeedsNewSender => match sender {
            Some(made) => Some(taps.insert(bus, (source, made))),
            None => None,
        },
    }
}

/// Asking again for the tap that is there changes nothing, whatever sender
/// comes along.
pub proof fn a_repeated_start_changes_nothing<S>(
    taps: Map<Seq<char>, (Seq<char>, S)>,
    bus: Seq<char>,
    source: Seq<char>,
    first: Option<S>,
    second: Option<S>,
)
    requires
        tap_started(taps, bus, source, first) is Some,
    ensures
        tap_started(tap_started(taps, bus, source, first)->0, bus, source, second) == tap_started(
            taps,
            bus,
            source,
            first,
        ),
{
}

/// Repointing a bus keeps the sender it has: receivers stay connected.
pub proof fn a_repointed_tap_keeps_its_sender<S>(
    taps: Map<Seq<char>, (Seq<char>, S)>,
    bus: Seq<char>,
    source: Seq<char>,
    sender: Option<S>,
)
    requires
        taps.contains_key(bus),
    ensures
        tap_started(taps, bus, source, sender) matches Some(after) && after.contains_key(bus) && after[bus] == (
            source,
            taps[bus].1,
        ),
{
}

/// Starts, or repoints, the exclusive tap of `bus_id`: from now on it
/// forwards `source_name` alone. A tap on that source stays as it is; a tap
/// on another source is repointed and keeps its sender. Any mix on the bus
/// ends. `sender` is the sender made for the bus, and is used only where the
/// bus had no tap; the start fails only where the bus needs one and there is
/// none.
pub fn start_audio_tap<S, M, T>(
    registry: &mut AudioTaps<S, M, T>,
    source_name: &str,
    bus_id: &str,
    sender: Option<S>,
) -> (started: Result<(), String>)
    requires
        old(registry).well_formed(),
    ensures
        final(registry).well_formed(),
        final(registry).mixes() == old(registry).mixes().remove(bus_id@),
        match tap_started(old(registry).tapped(), bus_id@, source_name@, sender) {
            Some(taps) => started is Ok && final(registry).tapped() == taps,
            None => started matches Err(e) && e@ == no_sender_error(bus_id@) && final(registry).tapped() == old(
                registry,
            ).tapped(),
        },
        started is Ok <==> final(registry).tapped().contains_key(bus_id@),
        started is Ok ==> final(registry).tapped()[bus_id@].0 == source_name@,
        old(registry).tapped().contains_key(bus_id@) ==> started is Ok && final(registry).tapped() == old(
            registry,
        ).tapped().insert(bus_id@, (source_name@, old(registry).tapped()[bus_id@].1)),
        !old(registry).tapped().contains_key(bus_id@) ==> match sender {
            Some(made) => started is Ok && final(registry).tapped() == old(registry).tapped().insert(
                bus_id@,
                (source_name@, made),
            ),
            None => started is Err && final(registry).tapped() == old(registry).tapped(),
        },
        started matches Err(e) ==> e@ == "NDI runtime unavailable — could not create sender '"@ + (
        "FrameSW-Monitor-"@ + bus_id@) + "'"@,
{
    registry.drop_mix(bus_id);
    let ghost before = *registry;
    proof {
        before.tap_at(bus_id@);
    }
    let decision = match registry.taps.get(bus_id) {
        Some(tap) => decide_start(Some(tap.source_name.as_str()), source_name),
        None => decide_start(None, source_name),
    };
    let sender = match decision {
        StartDecision::AlreadyCorrect => {
            assert(before.tapped() =~= before.tapped().insert(
                bus_id@,
                (source_name@, before.tapped()[bus_id@].1),
            ));
            return Ok(());
        },
        StartDecision::Repoint => match registry.taps.take(bus_id) {
            Some(tap) => Some(tap.sender),
            None => None,
        },
        StartDecision::NeedsNewSender => sender,
    };
    match sender {
        Some(sender) => {
            registry.taps.set(bus_id, Tap { source_name: source_name.to_owned(), sender });
            assert(registry.tapped() =~= before.tapped().insert(bus_id@, (source_name@, sender)));
            assert(registry.mixes() =~= before.mixes());
            Ok(())
        },
        None => {
            assert(registry.tapped() =~= before.tapped());
            assert(registry.mixes() =~= before.mixes());
            Err(describe_no_sender(bus_id))
        },
    }
}

/// Ends the exclusive tap of `bus_id`. Nothing happens where it has none.
pub fn stop_audio_tap<S, M, T>(registry: &mut AudioTaps<S, M, T>, bus_id: &str)
    requires
        old(registry).well_formed(),
    ensures
        final(registry).well_formed(),
        final(registry).tapped() == old(registry).tapped().remove(bus_id@),
        final(registry).mixes() == old(registry).mixes(),
{
    registry.drop_tap(bus_id);
}

/// The source that `bus_id` taps, if it has an exclusive tap.
pub fn tap_status<S, M, T>(registry: &AudioTaps<S, M, T>, bus_id: &str) -> (source: Option<String>)
    requires
        registry.well_formed(),
    ensures
        match source {
            Some(name) => registry.tapped().contains_key(bus_id@) && name@ == registry.tapped()[bus_id@].0,
            None => !registry.tapped().contains_key(bus_id@),
        },
{
    proof {
        registry.tap_at(bus_id@);
    }
    match registry.taps.get(bus_id) {
        Some(tap) => Some(tap.source_name.clone()),
        None => None,
    }
}

/// The sender of the exclusive tap of `bus_id`.
pub fn tap_sender<'a, S, M, T>(registry: &'a AudioTaps<S, M, T>, bus_id: &str) -> (sender: Option<&'a S>)
    requires
        registry.well_formed(),
    ensures
        match sender {
            Some(s) => registry.tapped().contains_key(bus_id@) && *s == registry.tapped()[bus_id@].1,
            None => !registry.tapped().contains_key(bus_id@),
        },
{
    proof {
        registry.tap_at(bus_id@);
    }
    match registry.taps.get(bus_id) {
        Some(tap) => Some(&tap.sender),
        None => None,
    }
}

/// Ends every tap and every mix.
pub fn stop_all<S, M, T>(registry: &mut AudioTaps<S, M, T>)
    requires
        old(registry).well_formed(),
    ensures
        final(registry).well_formed(),
        final(registry).tapped() == Map::<Seq<char>, (Seq<char>, S)>::empty(),
        final(registry).mixes() == Map::<Seq<char>, MixView<M, T>>::empty(),
{
    *registry = AudioTaps::new();
}

/// The names in a list, as a set.
pub open spec fn name_set(names: Seq<String>) -> Set<Seq<char>> {
    crate::text::views(names).to_set()
}

/// The set of a list's names holds each name of the list and no other.
pub proof fn a_set_of_names_holds_each_name(names: Seq<String>)
    ensures
        forall|name: Seq<char>| #[trigger]
            name_set(names).contains(name) <==> exists|i: int|
                0 <= i < names.len() && (#[trigger] names[i])@ == name,
{
    let all = crate::text::views(names);
    assert forall|name: Seq<char>| #[trigger] name_set(names).contains(name) <==> exists|i: int|
        0 <= i < names.len() && (#[trigger] names[i])@ == name by {
        if name_set(names).contains(name) {
            let i = choose|i: int| 0 <= i < all.len() && all[i] == name;
            assert(names[i]@ == name);
        }
        if exists|i: int| 0 <= i < names.len() && (#[trigger] names[i])@ == name {
            let i = choose|i: int| 0 <= i < names.len() && (#[trigger] names[i])@ == name;
            assert(all[i] == name);
            assert(all.contains(name));
        }
    }
}

/// A mix to which other sources now belong: the buffers of sources that left
/// are dropped with them.
pub open spec fn regrouped<M, T>(mix: MixView<M, T>, sources: Set<Seq<char>>) -> MixView<M, T> {
    MixView { sources, latest: mix.latest.restrict(sources), ..mix }
}

/// A mix that has just been made.
pub open spec fn new_mix<M, T>(handle: M) -> MixView<M, T> {
    MixView { handle, sources: Set::empty(), latest: Map::empty(), meta: (0i32, 0i32) }
}

/// The mixes after `bus` was given `sources`, given the handle made for it;
/// `None` where the bus needs one and there is none.
pub open spec fn mix_set<M, T>(
    mixes: Map<Seq<char>, MixView<M, T>>,
    bus: Seq<char>,
    sources: Set<Seq<char>>,
    handle: Option<M>,
) -> Option<Map<Seq<char>, MixView<M, T>>> {
    if mixes.contains_key(bus) {
        Some(mixes.insert(bus, regrouped(mixes[bus], sources)))
    } else {
        match handle {
            Some(made) => Some(mixes.insert(bus, regrouped(new_mix(made), sources))),
            None => None,
        }
    }
}

impl<M, T> MixBus<M, T> {
    fn regroup(&mut self, source_names: &Vec<String>)
        requires
            old(self).tables_ok(),
        ensures
            final(self).tables_ok(),
            final(self)@ == regrouped(old(self)@, name_set(source_names@)),
    {
        let ghost before = *self;
        let mut sources: NameMap<()> = NameMap::new();
        let mut i: usize = 0;
        while i < source_names.len()
            invariant
                i <= source_names@.len(),
                sources.well_formed(),
                sources@.dom() == crate::text::views(source_names@).take(i as int).to_set(),
            decreases source_names@.len() - i,
        {
            sources.set(source_names[i].as_str(), ());
            proof {
                let all = crate::text::views(source_names@);
                crate::named::prefix_grows(all, i as int);
                assert(sources@.dom() =~= all.take(i + 1).to_set());
            }
            i = i + 1;
        }
        proof {
            assert(crate::text::views(source_names@).take(i as int) == crate::text::views(source_names@));
            self.latest.order_is_the_domain();
        }
        let mut old_latest = self.latest.drain();
        let mut latest: NameMap<Vec<T>> = NameMap::new();
        let ghost order = before.latest.order();
        let ghost mut at: int = 0;
        let ghost all = name_set(source_names@);
        while old_latest.len() > 0
            invariant
                sources.well_formed(),
                sources@.dom() == all,
                latest.well_formed(),
                before.latest.well_formed(),
                order == before.latest.order(),
                0 <= at <= order.len(),
                old_latest@.len() == order.len() - at,
                forall|i: int|
                    0 <= i < old_latest@.len() ==> (#[trigger] old_latest@[i]).0@ == order[at + i] && old_latest@[i].1
                        == before.latest@[order[at + i]],
                forall|n: Seq<char>| #[trigger]
                    latest@.contains_key(n) <==> order.take(at).contains(n) && all.contains(n),
                forall|n: Seq<char>| #[trigger] latest@.contains_key(n) ==> latest@[n] == before.latest@[n],
            decreases old_latest@.len(),
        {
            let ghost taken = old_latest@;
            assert(taken[0].0@ == order[at]);
            let (name, buffer) = old_latest.remove(0);
            let ghost had = latest@;
            if sources.contains(name.as_str()) {
                latest.set(name.as_str(), buffer);
            }
            proof {
                assert forall|i: int| 0 <= i < old_latest@.len() implies (#[trigger] old_latest@[i]).0@ == order[at + 1
                    + i] && old_latest@[i].1 == before.latest@[order[at + 1 + i]] by {
                    assert(old_latest@[i] == taken[i + 1]);
                }
                assert forall|n: Seq<char>| #[trigger]
                    latest@.contains_key(n) <==> order.take(at + 1).contains(n) && all.contains(n) by {
                    crate::named::prefix_grows(order, at);
                    assert(had.contains_key(n) <==> order.take(at).contains(n) && all.contains(n));
                }
                at = at + 1;
            }
        }
        self.sources = sources;
        self.latest = latest;
        proof {
            assert(order.take(at) == order);
            assert(self@.latest =~= regrouped(before@, all).latest);
            assert(self@ =~= regrouped(before@, all));
        }
    }
}

/// Makes way for a mix on `bus_id`: ends the exclusive tap of the bus, and
/// says under which name a sender has to be made first, if any.
pub fn prepare_mix_bus<S, M, T>(registry: &mut AudioTaps<S, M, T>, bus_id: &str) -> (sender_name: Option<String>)
    requires
        old(registry).well_formed(),
    ensures
        final(registry).well_formed(),
        final(registry).tapped() == old(registry).tapped().remove(bus_id@),
        final(registry).mixes() == old(registry).mixes(),
        match sender_name {
            Some(name) => !old(registry).mixes().contains_key(bus_id@) && name@ == monitor_name(bus_id@),
            None => old(registry).mixes().contains_key(bus_id@),
        },
        sender_name matches Some(name) ==> name@ == "FrameSW-Monitor-"@ + bus_id@,
{
    registry.drop_tap(bus_id);
    if registry.buses.contains(bus_id) {
        None
    } else {
        Some(name_sender(bus_id))
    }
}

/// Replaces the sources that contribute to the mix of `bus_id`. A source no
/// longer listed stops contributing at once: its last buffer is dropped. Any
/// exclusive tap on the bus ends. `handle` is what was made for the bus, and
/// is used only where it had no mix; the call fails only where the bus needs
/// one and there is none.
pub fn set_mix_sources<S, M, T>(
    registry: &mut AudioTaps<S, M, T>,
    bus_id: &str,
    source_names: &Vec<String>,
    handle: Option<M>,
) -> (done: Result<(), String>)
    requires
        old(registry).well_formed(),
    ensures
        final(registry).well_formed(),
        final(registry).tapped() == old(registry).tapped().remove(bus_id@),
        match mix_set(old(registry).mixes(), bus_id@, name_set(source_names@), handle) {
            Some(mixes) => done is Ok && final(registry).mixes() == mixes,
            None => done matches Err(e) && e@ == no_sender_error(bus_id@) && final(registry).mixes() == old(
                registry,
            ).mixes(),
        },
        done is Ok <==> final(registry).mixes().contains_key(bus_id@),
        done is Ok ==> final(registry).mixes()[bus_id@].sources == name_set(source_names@),
        done is Ok <==> old(registry).mixes().contains_key(bus_id@) || handle is Some,
        done is Ok ==> {
            let mix = final(registry).mixes()[bus_id@];
            &&& final(registry).mixes().remove(bus_id@) == old(registry).mixes().remove(bus_id@)
            &&& forall|name: Seq<char>| #[trigger]
                mix.sources.contains(name) <==> exists|i: int|
                    0 <= i < source_names@.len() && (#[trigger] source_names@[i])@ == name
            &&& if old(registry).mixes().contains_key(bus_id@) {
                let was = old(registry).mixes()[bus_id@];
                &&& mix.handle == was.handle
                &&& mix.meta == was.meta
                &&& forall|name: Seq<char>| #[trigger]
                    mix.latest.contains_key(name) <==> was.latest.contains_key(name) && mix.sources.contains(name)
                &&& forall|name: Seq<char>| #[trigger]
                    mix.latest.contains_key(name) ==> mix.latest[name] == was.latest[name]
            } else {
                &&& Some(mix.handle) == handle
                &&& mix.meta == (0i32, 0i32)
                &&& forall|name: Seq<char>| !#[trigger] mix.latest.contains_key(name)
            }
        },
        done is Err ==> final(registry).mixes() == old(registry).mixes(),
        done matches Err(e) ==> e@ == "NDI runtime unavailable — could not create sender '"@ + (
        "FrameSW-Monitor-"@ + bus_id@) + "'"@,
{
    proof {
        a_set_of_names_holds_each_name(source_names@);
    }
    registry.drop_tap(bus_id);
    let ghost before = *registry;
    proof {
        before.mix_at(bus_id@);
    }
    let existing = registry.buses.take(bus_id);
    let ghost without = *registry;
    let made = match existing {
        Some(bus) => Some(bus),
        None => match handle {
            Some(handle) => Some(
                MixBus { handle, latest: NameMap::new(), sources: NameMap::new(), meta: (0i32, 0i32) },
            ),
            None => None,
        },
    };
    match made {
        Some(bus) => {
            let mut bus = bus;
            let ghost start = bus@;
            proof {
                if !before.mixes().contains_key(bus_id@) {
                    assert(start.latest =~= Map::<Seq<char>, Seq<T>>::empty());
                    assert(start.sources =~= Set::<Seq<char>>::empty());
                    assert(start =~= new_mix::<M, T>(handle->0));
                }
            }
            bus.regroup(source_names);
            registry.buses.set(bus_id, bus);
            proof {
                let after = mix_set(before.mixes(), bus_id@, name_set(source_names@), handle)->0;
                assert(registry.mixes() =~= after);
                assert(registry.mixes().remove(bus_id@) =~= before.mixes().remove(bus_id@));
                assert(registry.tapped() =~= before.tapped());
                assert forall|b: Seq<char>| registry.buses@.contains_key(b) implies (
                #[trigger] registry.buses@[b]).tables_ok() by {
                    if b != bus_id@ {
                        assert(before.buses@.contains_key(b));
                        assert(before.buses@[b].tables_ok());
                    }
                }
                assert forall|b: Seq<char>| #[trigger] registry.mixes().contains_key(b) implies !registry.tapped().contains_key(
                b) && registry.mixes()[b].latest.dom().subset_of(registry.mixes()[b].sources) by {
                    if b != bus_id@ {
                        assert(before.mixes().contains_key(b));
                    }
                }
            }
            Ok(())
        },
        None => {
            proof {
                assert(registry.mixes() =~= before.mixes());
                assert(registry.tapped() =~= before.tapped());
                assert(registry.buses@ =~= before.buses@);
            }
            Err(describe_no_sender(bus_id))
        },
    }
}

/// Ends the mix of `bus_id`. Nothing happens where it has none.
pub fn stop_mix_bus<S, M, T>(registry: &mut AudioTaps<S, M, T>, bus_id: &str)
    requires
        old(registry).well_formed(),
    ensures
        final(registry).well_formed(),
        final(registry).mixes() == old(registry).mixes().remove(bus_id@),
        final(registry).tapped() == old(registry).tapped(),
{
    registry.drop_mix(bus_id);
}

/// The sources that belong to the mix of `bus_id`, each once; `None` where
/// the bus has no mix.
pub fn mix_bus_sources<S, M, T>(registry: &AudioTaps<S, M, T>, bus_id: &str) -> (sources: Option<Vec<String>>)
    requires
        registry.well_formed(),
    ensures
        match sources {
            Some(names) => registry.mixes().contains_key(bus_id@) && name_set(names@) == registry.mixes()[bus_id@].sources
                && crate::text::views(names@).no_duplicates(),
            None => !registry.mixes().contains_key(bus_id@),
        },
        sources matches Some(names) ==> {
            &&& forall|name: Seq<char>| #[trigger]
                registry.mixes()[bus_id@].sources.contains(name) <==> exists|i: int|
                    0 <= i < names@.len() && (#[trigger] names@[i])@ == name
            &&& forall|i: int, j: int|
                0 <= i < j < names@.len() ==> (#[trigger] names@[i])@ != (#[trigger] names@[j])@
        },
{
    proof {
        registry.mix_at(bus_id@);
    }
    match registry.buses.get(bus_id) {
        Some(bus) => {
            let mut names: Vec<String> = Vec::new();
            let mut i: usize = 0;
            assert(registry.buses@[bus_id@].tables_ok());
            while i < bus.sources.len()
                invariant
                    i <= bus.sources.order().len(),
                    crate::text::views(names@) == bus.sources.order().take(i as int),
                decreases bus.sources.order().len() - i,
            {
                let ghost before = names@;
                names.push(bus.sources.name_at(i).clone());
                i = i + 1;
                assert(crate::text::views(names@) =~= crate::text::views(before).push(bus.sources.order()[i - 1]));
                assert(crate::text::views(names@) =~= bus.sources.order().take(i as int));
            }
            proof {
                assert(bus.sources.order().take(i as int) == bus.sources.order());
                bus.sources.order_is_the_domain();
                assert(name_set(names@) =~= bus.sources@.dom()) by {
                    assert forall|n: Seq<char>| name_set(names@).contains(n) <==> bus.sources@.dom().contains(n) by {
                        assert(bus.sources.order().contains(n) <==> bus.sources@.contains_key(n));
                    }
                }
            }
            proof {
                a_set_of_names_holds_each_name(names@);
                let all = crate::text::views(names@);
                assert forall|i: int, j: int| 0 <= i < j < names@.len() implies (#[trigger] names@[i])@ != (
                #[trigger] names@[j])@ by {
                    assert(all[i] != all[j]);
                }
            }
            Some(names)
        },
        None => None,
    }
}

/// The handle of the mix of `bus_id`.
pub fn mix_handle<'a, S, M, T>(registry: &'a AudioTaps<S, M, T>, bus_id: &str) -> (handle: Option<&'a M>)
    requires
        registry.well_formed(),
    ensures
        match handle {
            Some(h) => registry.mixes().contains_key(bus_id@) && *h == registry.mixes()[bus_id@].handle,
            None => !registry.mixes().contains_key(bus_id@),
        },
{
    proof {
        registry.mix_at(bus_id@);
    }
    match registry.buses.get(bus_id) {
        Some(bus) => Some(&bus.handle),
        None => None,
    }
}

/// The buses of `order` that tap `source`, in that order.
pub open spec fn tapping<S>(
    order: Seq<Seq<char>>,
    taps: Map<Seq<char>, (Seq<char>, S)>,
    source: Seq<char>,
) -> Seq<Seq<char>>
    decreases order.len(),
{
    if order.len() == 0 {
        Seq::empty()
    } else {
        let before = tapping(order.drop_last(), taps, source);
        if taps[order.last()].0 == source {
            before.push(order.last())
        } else {
            before
        }
    }
}

/// What a callback of `source` does to one mix: a mix it belongs to takes
/// its buffer in place of the last one and notes the format; any other mix
/// stays as it is.
pub open spec fn heard<M, T>(
    mix: MixView<M, T>,
    source: Seq<char>,
    buffer: Seq<T>,
    meta: (i32, i32),
) -> MixView<M, T> {
    if mix.sources.contains(source) {
        MixView { latest: mix.latest.insert(source, buffer), meta, ..mix }
    } else {
        mix
    }
}

/// How one mix comes out of a callback of `source`: a mix the source belongs
/// to takes a buffer of its scaled channels; any other mix stays as it is.
pub open spec fn hears<M, T, F: Fn(T) -> T>(
    before: MixView<M, T>,
    after: MixView<M, T>,
    source: Seq<char>,
    meta: (i32, i32),
    channels: int,
    frames: int,
    planes: Seq<Option<&[T]>>,
    silence: T,
    scale: F,
) -> bool {
    if before.sources.contains(source) {
        exists|buffer: Seq<T>|
            crate::audio_mix::scaled_planes(channels, frames, planes, silence, scale, buffer) && after
                == #[trigger] heard(before, source, buffer, meta)
    } else {
        after == before
    }
}

/// A callback changes only the mixes its source belongs to, and of those only
/// the source's own buffer and the format: the buffer is the source's block,
/// scaled, in place of its last one.
pub proof fn a_callback_reaches_the_mixes_of_its_source<M, T, F: Fn(T) -> T>(
    before: MixView<M, T>,
    after: MixView<M, T>,
    source: Seq<char>,
    meta: (i32, i32),
    channels: int,
    frames: int,
    planes: Seq<Option<&[T]>>,
    silence: T,
    scale: F,
)
    requires
        hears(before, after, source, meta, channels, frames, planes, silence, scale),
    ensures
        after.handle == before.handle,
        after.sources == before.sources,
        !before.sources.contains(source) ==> after == before,
        before.sources.contains(source) ==> {
            &&& after.meta == meta
            &&& after.latest.contains_key(source)
            &&& crate::audio_mix::scaled_planes(channels, frames, planes, silence, scale, after.latest[source])
            &&& after.latest.remove(source) == before.latest.remove(source)
        },
{
    if before.sources.contains(source) {
        assert(after.latest.remove(source) =~= before.latest.remove(source));
    }
}

proof fn tapping_lists_the_taps<S>(order: Seq<Seq<char>>, taps: Map<Seq<char>, (Seq<char>, S)>, source: Seq<char>)
    requires
        order.no_duplicates(),
    ensures
        tapping(order, taps, source).no_duplicates(),
        forall|bus: Seq<char>| #[trigger]
            tapping(order, taps, source).contains(bus) <==> order.contains(bus) && taps[bus].0 == source,
    decreases order.len(),
{
    let buses = tapping(order, taps, source);
    if order.len() > 0 {
        let rest = order.drop_last();
        let before = tapping(rest, taps, source);
        assert(rest =~= order.take(order.len() - 1));
        assert(order.take(order.len() as int) =~= order);
        crate::named::prefix_grows(order, order.len() - 1);
        tapping_lists_the_taps(rest, taps, source);
        assert forall|bus: Seq<char>| #[trigger] buses.contains(bus) <==> order.contains(bus) && taps[bus].0
            == source by {
            if taps[order.last()].0 == source {
                assert(buses[before.len() as int] == order.last());
                if buses.contains(bus) && bus != order.last() {
                    let k = buses.index_of(bus);
                    assert(before[k] == bus);
                }
                if before.contains(bus) {
                    let k = before.index_of(bus);
                    assert(buses[k] == bus);
                }
            }
        }
        assert(!rest.contains(order.last())) by {
            if rest.contains(order.last()) {
                let k = rest.index_of(order.last());
                assert(order[k] == order[order.len() - 1]);
            }
        }
        assert forall|i: int, j: int| 0 <= i < j < buses.len() implies buses[i] != buses[j] by {
            assert(before[i] == buses[i]);
            assert(before.contains(before[i]));
            if j < before.len() {
                assert(before[j] == buses[j]);
            }
        }
    }
}

impl<S, M, T> AudioTaps<S, M, T> {
    /// The walk over the taps meets every bus that has one, each once; so a
    /// source's callback reaches every bus that taps it, each once.
    pub proof fn every_tap_is_walked_once(&self, source: Seq<char>)
        requires
            self.well_formed(),
        ensures
            self.tap_order().no_duplicates(),
            forall|bus: Seq<char>| #[trigger] self.tap_order().contains(bus) <==> self.tapped().contains_key(bus),
            tapping(self.tap_order(), self.tapped(), source).no_duplicates(),
            forall|bus: Seq<char>| #[trigger]
                tapping(self.tap_order(), self.tapped(), source).contains(bus) <==> self.tapped().contains_key(bus)
                    && self.tapped()[bus].0 == source,
    {
        self.taps.order_is_the_domain();
        assert forall|bus: Seq<char>| #[trigger] self.tap_order().contains(bus) <==> self.tapped().contains_key(bus) by {
            self.tap_at(bus);
        }
        tapping_lists_the_taps(self.tap_order(), self.tapped(), source);
    }
}

impl<S, M, T: Copy> AudioTaps<S, M, T> {
    fn send_to_taps<F: Fn(T) -> T>(
        &self,
        source_name: &str,
        channels: usize,
        frames: usize,
        planes: &[Option<&[T]>],
        silence: T,
        scale: &F,
    ) -> (sent: Vec<(String, Vec<T>)>)
        requires
            self.well_formed(),
            channels * frames <= usize::MAX,
            crate::audio_mix::full_planes(frames as int, planes@),
            forall|sample: T| call_requires(*scale, (sample,)),
        ensures
            sent@.map_values(|entry: (String, Vec<T>)| entry.0@) == tapping(
                self.tap_order(),
                self.tapped(),
                source_name@,
            ),
            forall|i: int|
                0 <= i < sent@.len() ==> crate::audio_mix::scaled_planes(
                    channels as int,
                    frames as int,
                    planes@,
                    silence,
                    *scale,
                    (#[trigger] sent@[i]).1@,
                ),
    {
        let ghost name_of_entry = |entry: (String, Vec<T>)| entry.0@;
        let mut sent: Vec<(String, Vec<T>)> = Vec::new();
        let mut i: usize = 0;
        assert(self.tap_order().take(0) =~= Seq::<Seq<char>>::empty());
        assert(sent@.map_values(name_of_entry) =~= Seq::<Seq<char>>::empty());
        while i < self.taps.len()
            invariant
                self.well_formed(),
                channels * frames <= usize::MAX,
                crate::audio_mix::full_planes(frames as int, planes@),
                forall|sample: T| call_requires(*scale, (sample,)),
                i <= self.tap_order().len(),
                self.tap_order() == self.taps.order(),
                name_of_entry == (|entry: (String, Vec<T>)| entry.0@),
                sent@.map_values(name_of_entry) == tapping(
                    self.tap_order().take(i as int),
                    self.tapped(),
                    source_name@,
                ),
                forall|k: int|
                    0 <= k < sent@.len() ==> crate::audio_mix::scaled_planes(
                        channels as int,
                        frames as int,
                        planes@,
                        silence,
                        *scale,
                        (#[trigger] sent@[k]).1@,
                    ),
            decreases self.tap_order().len() - i,
        {
            let ghost bus = self.tap_order()[i as int];
            proof {
                self.taps.order_is_the_domain();
                assert(self.taps.order().contains(bus));
                self.tap_at(bus);
                assert(self.tap_order().take(i + 1).drop_last() =~= self.tap_order().take(i as int));
            }
            if same_text(self.taps.value_at(i).source_name.as_str(), source_name) {
                let buffer = build_scaled_planar_buffer(channels, frames, planes, silence, scale);
                let ghost before = sent@;
                sent.push((self.taps.name_at(i).clone(), buffer));
                assert(sent@.map_values(name_of_entry) =~= before.map_values(name_of_entry).push(bus));
            }
            i = i + 1;
        }
        assert(self.tap_order().take(i as int) =~= self.tap_order());
        sent
    }

    fn store_in_mixes<F: Fn(T) -> T>(
        &mut self,
        source_name: &str,
        meta: (i32, i32),
        channels: usize,
        frames: usize,
        planes: &[Option<&[T]>],
        silence: T,
        scale: &F,
    )
        requires
            old(self).well_formed(),
            channels * frames <= usize::MAX,
            crate::audio_mix::full_planes(frames as int, planes@),
            forall|sample: T| call_requires(*scale, (sample,)),
        ensures
            final(self).well_formed(),
            final(self).tapped() == old(self).tapped(),
            final(self).tap_order() == old(self).tap_order(),
            final(self).mixes().dom() == old(self).mixes().dom(),
            forall|bus: Seq<char>| #[trigger]
                old(self).mixes().contains_key(bus) ==> hears(
                    old(self).mixes()[bus],
                    final(self).mixes()[bus],
                    source_name@,
                    meta,
                    channels as int,
                    frames as int,
                    planes@,
                    silence,
                    *scale,
                ),
    {
        let ghost before = *self;
        let ghost order = before.buses.order();
        let ghost mut at: int = 0;
        proof {
            before.buses.order_is_the_domain();
        }
        let mut waiting = self.buses.drain();
        let mut buses: NameMap<MixBus<M, T>> = NameMap::new();
        while waiting.len() > 0
            invariant
                before.well_formed(),
                order == before.buses.order(),
                channels * frames <= usize::MAX,
                crate::audio_mix::full_planes(frames as int, planes@),
                forall|sample: T| call_requires(*scale, (sample,)),
                forall|n: Seq<char>| #[trigger] order.contains(n) <==> before.buses@.contains_key(n),
                0 <= at <= order.len(),
                waiting@.len() == order.len() - at,
                forall|i: int|
                    0 <= i < waiting@.len() ==> (#[trigger] waiting@[i]).0@ == order[at + i] && waiting@[i].1
                        == before.buses@[order[at + i]],
                buses.well_formed(),
                forall|n: Seq<char>| #[trigger] buses@.contains_key(n) <==> order.take(at).contains(n),
                forall|n: Seq<char>| #[trigger]
                    buses@.contains_key(n) ==> buses@[n].tables_ok() && hears(
                        before.buses@[n]@,
                        buses@[n]@,
                        source_name@,
                        meta,
                        channels as int,
                        frames as int,
                        planes@,
                        silence,
                        *scale,
                    ),
            decreases waiting@.len(),
        {
            let ghost taken = waiting@;
            assert(taken[0].0@ == order[at]);
            let (name, bus) = waiting.remove(0);
            let mut bus = bus;
            let ghost had = buses@;
            let ghost start = bus;
            proof {
                assert(order.contains(order[at]));
                assert(before.buses@[order[at]].tables_ok());
            }
            if bus.sources.contains(source_name) {
                let buffer = build_scaled_planar_buffer(channels, frames, planes, silence, scale);
                let ghost samples = buffer@;
                bus.latest.set(source_name, buffer);
                bus.meta = meta;
                assert(bus@.latest =~= start@.latest.insert(source_name@, samples));
                assert(bus@ =~= heard(start@, source_name@, samples, meta));
            }
            assert(hears(
                start@,
                bus@,
                source_name@,
                meta,
                channels as int,
                frames as int,
                planes@,
                silence,
                *scale,
            ));
            buses.set(name.as_str(), bus);
            proof {
                crate::named::prefix_grows(order, at);
                assert forall|i: int| 0 <= i < waiting@.len() implies (#[trigger] waiting@[i]).0@ == order[at + 1 + i]
                    && waiting@[i].1 == before.buses@[order[at + 1 + i]] by {
                    assert(waiting@[i] == taken[i + 1]);
                }
                assert forall|n: Seq<char>| #[trigger] buses@.contains_key(n) implies buses@[n].tables_ok() && hears(
                    before.buses@[n]@,
                    buses@[n]@,
                    source_name@,
                    meta,
                    channels as int,
                    frames as int,
                    planes@,
                    silence,
                    *scale,
                ) by {
                    if n != name@ {
                        assert(had.contains_key(n));
                    }
                }
                at = at + 1;
            }
        }
        self.buses = buses;
        proof {
            assert(order.take(at) =~= order);
            assert(self.tapped() =~= before.tapped());
            assert(self.mixes().dom() =~= before.mixes().dom());
            assert forall|bus: Seq<char>| self.buses@.contains_key(bus) implies (
            #[trigger] self.buses@[bus]).tables_ok() by {
                assert(self.buses@.contains_key(bus));
            }
            assert forall|bus: Seq<char>| #[trigger] before.mixes().contains_key(bus) implies hears(
                before.mixes()[bus],
                self.mixes()[bus],
                source_name@,
                meta,
                channels as int,
                frames as int,
                planes@,
                silence,
                *scale,
            ) by {
                assert(self.buses@.contains_key(bus));
                self.mix_at(bus);
                before.mix_at(bus);
            }
            assert forall|bus: Seq<char>| #[trigger] self.mixes().contains_key(bus) implies !self.tapped().contains_key(
            bus) && self.mixes()[bus].latest.dom().subset_of(self.mixes()[bus].sources) by {
                assert(before.mixes().contains_key(bus));
            }
        }
    }
}

/// Forwards one callback of `source_name`. Every bus that taps the source
/// gets a buffer of its own to send, returned here with the bus; a source can
/// be tapped by several buses at once, and `every_tap_is_walked_once` says
/// that each of them is among these. Every mix the source belongs to takes a
/// buffer in place of the last one. A callback without frames or without
/// channels does nothing.
pub fn forward_if_tapped<S, M, T: Copy, F: Fn(T) -> T>(
    registry: &mut AudioTaps<S, M, T>,
    source_name: &str,
    sample_rate: i32,
    channels: i32,
    frames: i32,
    planes: &[Option<&[T]>],
    silence: T,
    scale: &F,
) -> (sent: Vec<(String, Vec<T>)>)
    requires
        old(registry).well_formed(),
        frames > 0 && channels > 0 ==> channels * frames <= usize::MAX && crate::audio_mix::full_planes(
            frames as int,
            planes@,
        ),
        forall|sample: T| call_requires(*scale, (sample,)),
    ensures
        final(registry).well_formed(),
        final(registry).tapped() == old(registry).tapped(),
        final(registry).tap_order() == old(registry).tap_order(),
        final(registry).mixes().dom() == old(registry).mixes().dom(),
        sent@.map_values(|entry: (String, Vec<T>)| entry.0@) == (if frames > 0 && channels > 0 {
            tapping(old(registry).tap_order(), old(registry).tapped(), source_name@)
        } else {
            Seq::empty()
        }),
        forall|i: int|
            0 <= i < sent@.len() ==> crate::audio_mix::scaled_planes(
                channels as int,
                frames as int,
                planes@,
                silence,
                *scale,
                (#[trigger] sent@[i]).1@,
            ),
        frames <= 0 || channels <= 0 ==> sent@.len() == 0,
        forall|i: int|
            0 <= i < sent@.len() ==> old(registry).tapped().contains_key((#[trigger] sent@[i]).0@) && old(
                registry,
            ).tapped()[sent@[i].0@].0 == source_name@,
        frames > 0 && channels > 0 ==> forall|bus: Seq<char>| #[trigger]
            old(registry).tapped().contains_key(bus) && old(registry).tapped()[bus].0 == source_name@ ==> exists|i: int|
                0 <= i < sent@.len() && (#[trigger] sent@[i]).0@ == bus,
        forall|i: int, j: int| 0 <= i < j < sent@.len() ==> (#[trigger] sent@[i]).0@ != (#[trigger] sent@[j]).0@,
        frames <= 0 || channels <= 0 ==> final(registry).mixes() == old(registry).mixes(),
        frames > 0 && channels > 0 ==> forall|bus: Seq<char>| #[trigger]
            old(registry).mixes().contains_key(bus) ==> hears(
                old(registry).mixes()[bus],
                final(registry).mixes()[bus],
                source_name@,
                (sample_rate, channels),
                channels as int,
                frames as int,
                planes@,
                silence,
                *scale,
            ),
{
    if frames <= 0 || channels <= 0 {
        let nothing: Vec<(String, Vec<T>)> = Vec::new();
        assert(nothing@.map_values(|entry: (String, Vec<T>)| entry.0@) =~= Seq::<Seq<char>>::empty());
        return nothing;
    }
    let n_channels: usize = channels as usize;
    let n_frames: usize = frames as usize;
    let sent = registry.send_to_taps(source_name, n_channels, n_frames, planes, silence, scale);
    proof {
        registry.every_tap_is_walked_once(source_name@);
        let buses = sent@.map_values(|entry: (String, Vec<T>)| entry.0@);
        assert forall|i: int| 0 <= i < sent@.len() implies registry.tapped().contains_key((#[trigger] sent@[i]).0@)
            && registry.tapped()[sent@[i].0@].0 == source_name@ by {
            assert(buses[i] == sent@[i].0@);
            assert(buses.contains(buses[i]));
        }
        assert forall|bus: Seq<char>| #[trigger] registry.tapped().contains_key(bus) && registry.tapped()[bus].0
            == source_name@ implies exists|i: int| 0 <= i < sent@.len() && (#[trigger] sent@[i]).0@ == bus by {
            assert(buses.contains(bus));
            let i = buses.index_of(bus);
            assert(sent@[i].0@ == bus);
        }
        assert forall|i: int, j: int| 0 <= i < j < sent@.len() implies (#[trigger] sent@[i]).0@ != (
        #[trigger] sent@[j]).0@ by {
            assert(buses[i] != buses[j]);
        }
    }
    registry.store_in_mixes(source_name, (sample_rate, channels), n_channels, n_frames, planes, silence, scale);
    sent
}

/// What a flush of a mix bus does.
pub enum Flush<T> {
    /// The bus is gone: its flush thread ends.
    Stopped,
    /// Nothing to send this time.
    Idle,
    /// One combined frame to send.
    Send { sample_rate: i32, channels: i32, frames: i32, samples: Vec<T> },
}

/// `parts` are the buffers of `latest`, each once, in some order.
pub open spec fn listing<T>(latest: Map<Seq<char>, Seq<T>>, parts: Seq<Vec<T>>) -> bool {
    exists|order: Seq<Seq<char>>| #[trigger] lists_in(order, latest, parts)
}

pub open spec fn lists_in<T>(order: Seq<Seq<char>>, latest: Map<Seq<char>, Seq<T>>, parts: Seq<Vec<T>>) -> bool {
    &&& order.no_duplicates()
    &&& order.len() == parts.len()
    &&& forall|name: Seq<char>| #[trigger] order.contains(name) <==> latest.contains_key(name)
    &&& forall|i: int| 0 <= i < parts.len() ==> (#[trigger] parts[i])@ == latest[order[i]]
}

/// A flush adds up the buffer of every source that has delivered, each once,
/// and nothing else.
pub proof fn a_flush_takes_every_buffer_once<T>(latest: Map<Seq<char>, Seq<T>>, parts: Seq<Vec<T>>)
    requires
        listing(latest, parts),
    ensures
        exists|order: Seq<Seq<char>>|
            #![trigger order.no_duplicates()]
            order.no_duplicates() && order.len() == parts.len() && (forall|name: Seq<char>| #[trigger]
                order.contains(name) <==> latest.contains_key(name)) && (forall|i: int|
                0 <= i < parts.len() ==> (#[trigger] parts[i])@ == latest[order[i]]),
        forall|name: Seq<char>| #[trigger]
            latest.contains_key(name) ==> exists|i: int|
                0 <= i < parts.len() && (#[trigger] parts[i])@ == latest[name],
        parts.len() > 0 <==> exists|name: Seq<char>| #[trigger] latest.contains_key(name),
{
    let order = choose|order: Seq<Seq<char>>| #[trigger] lists_in(order, latest, parts);
    assert(order.no_duplicates());
    assert forall|name: Seq<char>| #[trigger] latest.contains_key(name) implies exists|i: int|
        0 <= i < parts.len() && (#[trigger] parts[i])@ == latest[name] by {
        assert(order.contains(name));
        let i = order.index_of(name);
        assert(parts[i]@ == latest[order[i]]);
    }
    if parts.len() > 0 {
        assert(order.contains(order[0]));
        assert(latest.contains_key(order[0]));
    }
}

/// Whether a mix has nothing it could send: no source has delivered since
/// the last flush, one has delivered an empty buffer, or no format is known.
pub open spec fn nothing_to_send<M, T>(mix: MixView<M, T>) -> bool {
    ||| mix.latest.dom() == Set::<Seq<char>>::empty()
    ||| exists|name: Seq<char>| #[trigger] mix.latest.contains_key(name) && mix.latest[name].len() == 0
    ||| mix.meta.0 <= 0
    ||| mix.meta.1 <= 0
}

/// The quotient of `a` and a positive `b`, rounded towards 0.
pub open spec fn quotient(a: i32, b: i32) -> int {
    if a >= 0 {
        a as int / b as int
    } else {
        -((-a) / b as int)
    }
}

fn divide(a: i32, b: i32) -> (q: i32)
    requires
        b > 0,
    ensures
        q == quotient(a, b),
        a >= 0 ==> q * b <= a < (q + 1) * b,
{
    proof {
        if a >= 0 {
            let q0 = a as int / b as int;
            assert(q0 * b <= a < (q0 + 1) * b) by (nonlinear_arith)
                requires
                    b > 0,
                    a >= 0,
                    q0 == a as int / b as int,
            ;
        }
    }
    if a >= 0 {
        return a / b;
    }
    let size: i64 = -(a as i64);
    let q: i64 = size / (b as i64);
    assert(q <= size) by (nonlinear_arith)
        requires
            q == size as int / b as int,
            b > 0,
            size > 0,
    ;
    assert(q >= 0) by (nonlinear_arith)
        requires
            q == size as int / b as int,
            b > 0,
            size > 0,
    ;
    (-q) as i32
}

/// Flushes the mix of `bus_id`: takes the buffers that have come in since
/// the last flush, so that a source that falls silent drops out of the next
/// one, and adds them up.
pub fn flush_mix<S, M, T: Copy, F: Fn(T, T) -> T>(
    registry: &mut AudioTaps<S, M, T>,
    bus_id: &str,
    zero: T,
    plus: &F,
) -> (flush: Flush<T>)
    requires
        old(registry).well_formed(),
        forall|a: T, b: T| call_requires(*plus, (a, b)),
    ensures
        final(registry).well_formed(),
        final(registry).tapped() == old(registry).tapped(),
        flush is Stopped <==> !old(registry).mixes().contains_key(bus_id@),
        flush is Stopped ==> final(registry).mixes() == old(registry).mixes(),
        flush !is Stopped ==> final(registry).mixes() == old(registry).mixes().insert(
            bus_id@,
            (MixView { latest: Map::empty(), ..old(registry).mixes()[bus_id@] }),
        ),
        flush !is Stopped ==> (flush is Idle <==> nothing_to_send(old(registry).mixes()[bus_id@])),
        flush matches Flush::Send { sample_rate, channels, frames, samples } ==> {
            let mix = old(registry).mixes()[bus_id@];
            &&& (sample_rate, channels) == mix.meta
            &&& exists|parts: Seq<Vec<T>>| #[trigger]
                listing(mix.latest, parts) && crate::audio_mix::mix_of(parts, zero, *plus, samples@)
            &&& frames == quotient(samples@.len() as i32, channels)
            &&& samples@.len() <= i32::MAX ==> frames * channels <= samples@.len() < (frames + 1) * channels
            &&& sample_rate > 0 && channels > 0
        },
        flush is Idle ==> {
            let mix = old(registry).mixes()[bus_id@];
            ||| forall|name: Seq<char>| !#[trigger] mix.latest.contains_key(name)
            ||| exists|name: Seq<char>| #[trigger] mix.latest.contains_key(name) && mix.latest[name].len() == 0
            ||| mix.meta.0 <= 0
            ||| mix.meta.1 <= 0
        },
        flush is Send ==> forall|name: Seq<char>| #[trigger]
            old(registry).mixes()[bus_id@].latest.contains_key(name) ==> old(registry).mixes()[bus_id@].latest[name].len()
                > 0,
{
    let ghost before = *registry;
    proof {
        before.mix_at(bus_id@);
    }
    let taken = registry.buses.take(bus_id);
    let bus = match taken {
        Some(bus) => bus,
        None => {
            assert(registry.buses@ =~= before.buses@);
            assert(registry.mixes() =~= before.mixes());
            assert(registry.tapped() =~= before.tapped());
            return Flush::Stopped;
        },
    };
    let mut bus = bus;
    let ghost mix = bus@;
    let ghost order = bus.latest.order();
    let ghost stored = bus.latest@;
    proof {
        assert(before.buses@[bus_id@].tables_ok());
        bus.latest.order_is_the_domain();
        assert(stored.dom() =~= mix.latest.dom());
    }
    let mut waiting = bus.latest.drain();
    let meta = bus.meta;
    assert(bus@.latest =~= Map::<Seq<char>, Seq<T>>::empty());
    registry.buses.set(bus_id, bus);
    proof {
        assert(registry.mixes() =~= before.mixes().insert(bus_id@, (MixView { latest: Map::empty(), ..mix })));
        assert(registry.tapped() =~= before.tapped());
        assert forall|b: Seq<char>| registry.buses@.contains_key(b) implies (#[trigger] registry.buses@[b]).tables_ok() by {
            if b != bus_id@ {
                assert(before.buses@.contains_key(b));
                assert(before.buses@[b].tables_ok());
            }
        }
        assert forall|b: Seq<char>| #[trigger] registry.mixes().contains_key(b) implies !registry.tapped().contains_key(b)
            && registry.mixes()[b].latest.dom().subset_of(registry.mixes()[b].sources) by {
            assert(before.mixes().contains_key(b));
        }
    }
    let mut parts: Vec<Vec<T>> = Vec::new();
    let ghost mut at: int = 0;
    while waiting.len() > 0
        invariant
            0 <= at <= order.len(),
            parts@.len() == at,
            waiting@.len() == order.len() - at,
            forall|i: int|
                0 <= i < waiting@.len() ==> (#[trigger] waiting@[i]).1 == stored[order[at + i]],
            forall|i: int| 0 <= i < at ==> (#[trigger] parts@[i]) == stored[order[i]],
        decreases waiting@.len(),
    {
        let ghost all = waiting@;
        assert(all[0].1 == stored[order[at]]);
        let (_name, buffer) = waiting.remove(0);
        parts.push(buffer);
        proof {
            assert forall|i: int| 0 <= i < waiting@.len() implies (#[trigger] waiting@[i]).1 == stored[order[at + 1
                + i]] by {
                assert(waiting@[i] == all[i + 1]);
            }
            at = at + 1;
        }
    }
    proof {
        assert forall|i: int| 0 <= i < parts@.len() implies (#[trigger] parts@[i])@ == mix.latest[order[i]] by {
            assert(order.contains(order[i]));
        }
        assert forall|name: Seq<char>| #[trigger] order.contains(name) <==> mix.latest.contains_key(name) by {
            assert(order.contains(name) <==> stored.contains_key(name));
        }
        assert(lists_in(order, mix.latest, parts@));
        assert(listing(mix.latest, parts@));
        if parts@.len() == 0 {
            assert(mix.latest.dom() =~= Set::<Seq<char>>::empty()) by {
                assert forall|n: Seq<char>| !mix.latest.dom().contains(n) by {
                    assert(!order.contains(n));
                }
            }
        } else {
            assert(order.contains(order[0]));
            assert(mix.latest.dom().contains(order[0]));
        }
        assert(crate::audio_mix::shortest(parts@, 0) ==> nothing_to_send(mix)) by {
            if crate::audio_mix::shortest(parts@, 0) {
                let j = choose|j: int| 0 <= j < parts@.len() && (#[trigger] parts@[j])@.len() == 0;
                assert(order.contains(order[j]));
                assert(mix.latest.contains_key(order[j]));
            }
        }
    }
    let mixed = sum_contributions(&parts, zero, plus);
    proof {
        if mixed is Some {
            assert forall|name: Seq<char>| #[trigger] mix.latest.contains_key(name) implies mix.latest[name].len() > 0 by {
                assert(order.contains(name));
                let j = order.index_of(name);
                assert(parts@[j]@ == mix.latest[order[j]]);
            }
        }
    }
    match mixed {
        None => Flush::Idle,
        Some(samples) => {
            let (sample_rate, channels) = meta;
            if sample_rate <= 0 || channels <= 0 {
                return Flush::Idle;
            }
            let frames: i32 = divide(samples.len() as i32, channels);
            Flush::Send { sample_rate, channels, frames, samples }
        },
    }
}

} // verus!
