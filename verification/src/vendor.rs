// SPDX-License-Identifier: GPL-2.0-or-later
//! The vendor's requests: their names, and the answers of those that deal
//! with audio taps and scans.

use vstd::prelude::*;

use crate::audio_tap::{
    mix_bus_sources, set_mix_sources, start_audio_tap, stop_audio_tap, stop_mix_bus, tap_status, AudioTaps,
};
use crate::metering::Lifecycle;
use crate::response::Response;
use crate::text::{join_names, or_empty, split_names};

verus! {

/// The vendor the plugin registers as.
pub const VENDOR: &'static str = "framesw";

/// What OBS shows as the plugin's name.
pub const MODULE_NAME: &'static str = "FrameSW Companion";

pub const MODULE_DESCRIPTION: &'static str =
    "Reports real audio levels for Preview-only sources, and provides monitor-speaker audio taps over NDI.";

/// The libobs version the plugin claims to be built for: 30.0.0. OBS refuses
/// a plugin that claims a newer one than its own.
pub fn obs_module_ver() -> (version: u32)
    ensures
        version == 30u32 << 24u32,
{
    30u32 << 24u32
}

/// The requests that are registered, in order.
pub open spec fn request_names() -> Seq<Seq<char>> {
    seq![
        "start_audio_tap"@,
        "stop_audio_tap"@,
        "create_scene"@,
        "get_current_scenes"@,
        "list_video_outputs"@,
        "projector_on_top"@,
        "ensure_profile"@,
        "ndi_outputs"@,
        "monitoring_device"@,
        "rescan_now"@,
        "pause_rescan"@,
        "resume_rescan"@,
        "set_source_showing"@,
        "warm_browser_engine"@,
        "renderer"@,
        "tap_status"@,
        "set_mix_sources"@,
        "stop_mix_bus"@,
        "mix_status"@,
    ]
}

/// The requests that are registered, in order.
pub fn requests() -> (names: Vec<&'static str>)
    ensures
        names@.map_values(|name: &'static str| name@) == request_names(),
        names@.map_values(|name: &'static str| name@) == (seq![
            "start_audio_tap"@,
            "stop_audio_tap"@,
            "create_scene"@,
            "get_current_scenes"@,
            "list_video_outputs"@,
            "projector_on_top"@,
            "ensure_profile"@,
            "ndi_outputs"@,
            "monitoring_device"@,
            "rescan_now"@,
            "pause_rescan"@,
            "resume_rescan"@,
            "set_source_showing"@,
            "warm_browser_engine"@,
            "renderer"@,
            "tap_status"@,
            "set_mix_sources"@,
            "stop_mix_bus"@,
            "mix_status"@,
        ]),
{
    let names: Vec<&'static str> = vec![
        "start_audio_tap",
        "stop_audio_tap",
        "create_scene",
        "get_current_scenes",
        "list_video_outputs",
        "projector_on_top",
        "ensure_profile",
        "ndi_outputs",
        "monitoring_device",
        "rescan_now",
        "pause_rescan",
        "resume_rescan",
        "set_source_showing",
        "warm_browser_engine",
        "renderer",
        "tap_status",
        "set_mix_sources",
        "stop_mix_bus",
        "mix_status",
    ];
    assert(names@.map_values(|name: &'static str| name@) =~= request_names());
    names
}

// ---------------------------------------------------------------------
// Taps
// ---------------------------------------------------------------------

/// Starts or repoints a tap, and answers how it went. `sender` is what was
/// made where `prepare_audio_tap` asked for a sender.
pub fn handle_start_audio_tap<S, M, T>(
    registry: &mut AudioTaps<S, M, T>,
    source_name: &str,
    bus_id: &str,
    sender: Option<S>,
) -> (response: Response)
    requires
        old(registry).well_formed(),
    ensures
        final(registry).well_formed(),
        final(registry).mixes() == old(registry).mixes().remove(bus_id@),
        match crate::audio_tap::tap_started(old(registry).tapped(), bus_id@, source_name@, sender) {
            Some(taps) => response@ == crate::response::accepted() && final(registry).tapped() == taps,
            None => response@ == crate::response::refused(
                crate::audio_tap::no_sender_error(bus_id@),
            ) && final(registry).tapped() == old(registry).tapped(),
        },
        old(registry).tapped().contains_key(bus_id@) ==> final(registry).tapped() == old(registry).tapped().insert(
            bus_id@,
            (source_name@, old(registry).tapped()[bus_id@].1),
        ),
        !old(registry).tapped().contains_key(bus_id@) ==> final(registry).tapped() == (match sender {
            Some(made) => old(registry).tapped().insert(bus_id@, (source_name@, made)),
            None => old(registry).tapped(),
        }),
        old(registry).tapped().contains_key(bus_id@) || sender is Some ==> response@ == seq![
            ("ok"@, crate::response::ValueView::Bool(true)),
        ],
        !old(registry).tapped().contains_key(bus_id@) && sender is None ==> response@ == seq![
            ("ok"@, crate::response::ValueView::Bool(false)),
            (
                "error"@,
                crate::response::ValueView::Text(
                    "NDI runtime unavailable — could not create sender '"@ + ("FrameSW-Monitor-"@ + bus_id@) + "'"@,
                ),
            ),
        ],
{
    let outcome = start_audio_tap(registry, source_name, bus_id, sender);
    Response::report(&outcome)
}

/// Stops a tap. To stop one that does not run is a success.
pub fn handle_stop_audio_tap<S, M, T>(registry: &mut AudioTaps<S, M, T>, bus_id: &str) -> (response: Response)
    requires
        old(registry).well_formed(),
    ensures
        final(registry).well_formed(),
        final(registry).tapped() == old(registry).tapped().remove(bus_id@),
        final(registry).mixes() == old(registry).mixes(),
        response@ == crate::response::accepted(),
{
    stop_audio_tap(registry, bus_id);
    Response::accept()
}

/// Says which source a bus taps; an empty name where it taps none.
pub fn handle_tap_status<S, M, T>(registry: &AudioTaps<S, M, T>, bus_id: &str) -> (response: Response)
    requires
        registry.well_formed(),
    ensures
        response@ == seq![
            ("ok"@, crate::response::ValueView::Bool(true)),
            ("active"@, crate::response::ValueView::Bool(registry.tapped().contains_key(bus_id@))),
            (
                "source_name"@,
                crate::response::ValueView::Text(
                    if registry.tapped().contains_key(bus_id@) {
                        registry.tapped()[bus_id@].0
                    } else {
                        Seq::empty()
                    },
                ),
            ),
        ],
{
    let status = tap_status(registry, bus_id);
    let mut response = Response::accept();
    response.set_bool("active", status.is_some());
    let name = or_empty(status);
    response.set_string("source_name", name.as_str());
    assert(response@ =~= seq![
        ("ok"@, crate::response::ValueView::Bool(true)),
        ("active"@, crate::response::ValueView::Bool(registry.tapped().contains_key(bus_id@))),
        (
            "source_name"@,
            crate::response::ValueView::Text(
                if registry.tapped().contains_key(bus_id@) {
                    registry.tapped()[bus_id@].0
                } else {
                    Seq::empty()
                },
            ),
        ),
    ]);
    response
}

// ---------------------------------------------------------------------
// Mixes
// ---------------------------------------------------------------------

/// Sets the sources of a mix from a comma list, and answers how it went.
/// `handle` is what was made where `prepare_mix_bus` asked for a sender.
pub fn handle_set_mix_sources<S, M, T>(
    registry: &mut AudioTaps<S, M, T>,
    bus_id: &str,
    source_names: &str,
    handle: Option<M>,
) -> (response: Response)
    requires
        old(registry).well_formed(),
    ensures
        final(registry).well_formed(),
        final(registry).tapped() == old(registry).tapped().remove(bus_id@),
        match crate::audio_tap::mix_set(
            old(registry).mixes(),
            bus_id@,
            crate::text::listed(source_names@).to_set(),
            handle,
        ) {
            Some(mixes) => response@ == crate::response::accepted() && final(registry).mixes() == mixes,
            None => response@ == crate::response::refused(
                crate::audio_tap::no_sender_error(bus_id@),
            ) && final(registry).mixes() == old(registry).mixes(),
        },
        old(registry).mixes().contains_key(bus_id@) || handle is Some ==> {
            let mix = final(registry).mixes()[bus_id@];
            &&& response@ == seq![("ok"@, crate::response::ValueView::Bool(true))]
            &&& final(registry).mixes().contains_key(bus_id@)
            &&& forall|name: Seq<char>| #[trigger]
                mix.sources.contains(name) <==> crate::text::listed(source_names@).contains(name)
            &&& old(registry).mixes().contains_key(bus_id@) ==> mix.handle == old(registry).mixes()[bus_id@].handle
            &&& forall|name: Seq<char>| #[trigger] mix.latest.contains_key(name) ==> mix.sources.contains(name)
            &&& final(registry).mixes().remove(bus_id@) == old(registry).mixes().remove(bus_id@)
        },
        !old(registry).mixes().contains_key(bus_id@) && handle is None ==> response@ == seq![
            ("ok"@, crate::response::ValueView::Bool(false)),
            (
                "error"@,
                crate::response::ValueView::Text(
                    "NDI runtime unavailable — could not create sender '"@ + ("FrameSW-Monitor-"@ + bus_id@) + "'"@,
                ),
            ),
        ],
{
    let names = split_names(source_names);
    proof {
        let all = crate::text::listed(source_names@);
        assert forall|name: Seq<char>| #[trigger] all.contains(name) <==> exists|i: int|
            0 <= i < names@.len() && (#[trigger] names@[i])@ == name by {
            if all.contains(name) {
                let i = choose|i: int| 0 <= i < all.len() && all[i] == name;
                assert(names@[i]@ == name);
            }
            if exists|i: int| 0 <= i < names@.len() && (#[trigger] names@[i])@ == name {
                let i = choose|i: int| 0 <= i < names@.len() && (#[trigger] names@[i])@ == name;
                assert(all[i] == name);
            }
        }
    }
    let outcome = set_mix_sources(registry, bus_id, &names, handle);
    Response::report(&outcome)
}

/// Ends a mix. To end one that does not run is a success.
pub fn handle_stop_mix_bus<S, M, T>(registry: &mut AudioTaps<S, M, T>, bus_id: &str) -> (response: Response)
    requires
        old(registry).well_formed(),
    ensures
        final(registry).well_formed(),
        final(registry).mixes() == old(registry).mixes().remove(bus_id@),
        final(registry).tapped() == old(registry).tapped(),
        response@ == crate::response::accepted(),
{
    stop_mix_bus(registry, bus_id);
    Response::accept()
}

/// A comma list of the names of a set, each once, in some order.
pub open spec fn lists(text: Seq<char>, names: Set<Seq<char>>) -> bool {
    exists|order: Seq<Seq<char>>| #[trigger] lists_as(text, names, order)
}

pub open spec fn lists_as(text: Seq<char>, names: Set<Seq<char>>, order: Seq<Seq<char>>) -> bool {
    &&& text == crate::text::comma_joined(order)
    &&& order.no_duplicates()
    &&& order.to_set() == names
}

/// The answer to a request for a mix.
pub open spec fn mix_status(active: bool, names: Seq<char>) -> Seq<(Seq<char>, crate::response::ValueView)> {
    seq![
        ("ok"@, crate::response::ValueView::Bool(true)),
        ("active"@, crate::response::ValueView::Bool(active)),
        ("source_names"@, crate::response::ValueView::Text(names)),
    ]
}

/// Says which sources a mix has, as a comma list; an empty one where there
/// is no mix.
pub fn handle_mix_status<S, M, T>(registry: &AudioTaps<S, M, T>, bus_id: &str) -> (response: Response)
    requires
        registry.well_formed(),
    ensures
        ({
            let active = registry.mixes().contains_key(bus_id@);
            &&& !active ==> response@ == mix_status(false, Seq::empty())
            &&& active ==> exists|names: Seq<char>|
                response@ == #[trigger] mix_status(true, names) && lists(
                    names,
                    registry.mixes()[bus_id@].sources,
                )
        }),
{
    let sources = mix_bus_sources(registry, bus_id);
    let mut response = Response::accept();
    response.set_bool("active", sources.is_some());
    match &sources {
        Some(names) => {
            let joined = join_names(names);
            response.set_string("source_names", joined.as_str());
            proof {
                assert(lists_as(joined@, registry.mixes()[bus_id@].sources, crate::text::views(names@)));
                assert(response@ =~= mix_status(true, joined@));
            }
        },
        None => {
            response.set_string("source_names", "");
            proof {
                reveal_strlit("");
                assert(""@ =~= Seq::<char>::empty());
                assert(response@ =~= mix_status(false, Seq::empty()));
            }
        },
    }
    response
}

/// A listing of names holds each of them once, with commas between.
pub proof fn a_listing_holds_each_name_once(text: Seq<char>, names: Set<Seq<char>>)
    requires
        lists(text, names),
    ensures
        exists|order: Seq<Seq<char>>|
            text == #[trigger] crate::text::comma_joined(order) && order.no_duplicates() && (forall|name: Seq<char>|
                #[trigger] names.contains(name) <==> order.contains(name)),
{
    let order = choose|order: Seq<Seq<char>>| #[trigger] lists_as(text, names, order);
    assert(text == crate::text::comma_joined(order));
    assert forall|name: Seq<char>| #[trigger] names.contains(name) <==> order.contains(name) by {
        assert(order.to_set().contains(name) <==> order.contains(name));
    }
}

/// What the answer to a request for a mix says.
pub proof fn what_a_mix_status_says(active: bool, names: Seq<char>)
    ensures
        mix_status(active, names) == seq![
            ("ok"@, crate::response::ValueView::Bool(true)),
            ("active"@, crate::response::ValueView::Bool(active)),
            ("source_names"@, crate::response::ValueView::Text(names)),
        ],
{
}

/// What a mix's status says, taken as a request, sets the same sources
/// again: for any sources that a request has set.
pub proof fn a_mix_status_can_be_set_again(request: Seq<char>, status: Seq<char>)
    requires
        lists(status, crate::text::listed(request).to_set()),
    ensures
        crate::text::listed(status).to_set() == crate::text::listed(request).to_set(),
{
    let names = crate::text::listed(request).to_set();
    let order = choose|order: Seq<Seq<char>>| #[trigger] lists_as(status, names, order);
    crate::text::listed_names_are_plain(request);
    assert forall|i: int| 0 <= i < order.len() implies crate::text::plain_name(#[trigger] order[i]) by {
        assert(order.to_set().contains(order[i]));
        assert(crate::text::listed(request).contains(order[i]));
        let k = choose|k: int|
            0 <= k < crate::text::listed(request).len() && crate::text::listed(request)[k] == order[i];
        assert(crate::text::plain_name(crate::text::listed(request)[k]));
    }
    crate::text::joined_names_read_back(order);
}

// ---------------------------------------------------------------------
// Scans
// ---------------------------------------------------------------------

/// The answer to a request to scan at once; yes in the first place where the
/// scan is to be made. A pause is honoured.
pub fn handle_rescan_now<T>(lifecycle: &Lifecycle<T>) -> (answer: (bool, Response))
    ensures
        answer.0 == (!lifecycle.shutting_down() && !lifecycle.paused()),
        answer.1@ == (if answer.0 {
            crate::response::accepted()
        } else {
            crate::response::refused("rescan paused or shutting down"@)
        }),
{
    if lifecycle.is_shutting_down() || lifecycle.is_paused() {
        return (false, Response::refuse("rescan paused or shutting down"));
    }
    (true, Response::accept())
}

/// Pauses the scans.
pub fn handle_pause_rescan<T>(lifecycle: &mut Lifecycle<T>) -> (response: Response)
    ensures
        final(lifecycle).paused(),
        final(lifecycle).shutting_down() == old(lifecycle).shutting_down(),
        final(lifecycle).threads() == old(lifecycle).threads(),
        response@ == crate::response::accepted(),
{
    lifecycle.set_paused(true);
    Response::accept()
}

/// Lets the scans go on.
pub fn handle_resume_rescan<T>(lifecycle: &mut Lifecycle<T>) -> (response: Response)
    ensures
        !final(lifecycle).paused(),
        final(lifecycle).shutting_down() == old(lifecycle).shutting_down(),
        final(lifecycle).threads() == old(lifecycle).threads(),
        response@ == crate::response::accepted(),
{
    lifecycle.set_paused(false);
    Response::accept()
}

} // verus!
