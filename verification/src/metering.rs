// SPDX-License-Identifier: GPL-2.0-or-later
//! Per-source audio metering that tells Program from Preview.
//!
//! A sample is given by the bits of its 32-bit float. The bits of two
//! non-negative floats are ordered as the floats are, so the loudest sample
//! is found among the bits.

use vstd::prelude::*;

use crate::named::NameMap;
use crate::obs_data::SourceLevel;
use crate::plan::{Op, Plan, When};
use crate::text::has_nul;

verus! {

/// `MAX_AV_PLANES` of libobs.
pub const MAX_AV_PLANES: usize = 8;

/// Milliseconds between two `audio_levels` events.
pub const EMIT_INTERVAL_MS: u64 = 100;

/// `struct obs_audio_info`.
#[derive(Clone, Copy, PartialEq, Eq, Structural, Debug)]
pub struct ObsAudioInfo {
    pub samples_per_sec: u32,
    pub speakers: u32,
}

/// How many channels a speaker layout has: the layout's own number for the
/// known ones, 0 for any other.
pub fn speaker_layout_to_channels(speakers: u32) -> (channels: u32)
    ensures
        channels == (if 1 <= speakers <= 6 || speakers == 8 {
            speakers
        } else {
            0
        }),
        channels <= MAX_AV_PLANES,
{
    match speakers {
        1 => 1,
        2 => 2,
        3 => 3,
        4 => 4,
        5 => 5,
        6 => 6,
        8 => 8,
        _ => 0,
    }
}

// ---------------------------------------------------------------------
// Peaks
// ---------------------------------------------------------------------

/// The bits of a sample without its sign.
pub open spec fn magnitude(sample: u32) -> u32 {
    sample & 0x7fff_ffff
}

/// Whether the bits are those of a number: all but the NaNs.
pub open spec fn is_number(sample: u32) -> bool {
    magnitude(sample) <= 0x7f80_0000
}

/// `peak` is the magnitude of the loudest of the samples; samples that are
/// no numbers do not count, and silence is 0.
pub open spec fn is_peak(samples: Seq<u32>, peak: u32) -> bool {
    &&& forall|i: int| 0 <= i < samples.len() && is_number(samples[i]) ==> magnitude(#[trigger] samples[i]) <= peak
    &&& peak == 0 || exists|i: int|
        0 <= i < samples.len() && is_number(#[trigger] samples[i]) && magnitude(samples[i]) == peak
}

/// The louder of a peak and one more sample.
pub open spec fn louder_of(peak: u32, sample: u32) -> u32 {
    if is_number(sample) && magnitude(sample) > peak {
        magnitude(sample)
    } else {
        peak
    }
}

/// The louder of a peak and one more sample.
pub fn louder(peak: u32, sample: u32) -> (louder: u32)
    ensures
        louder == louder_of(peak, sample),
        louder >= peak,
        sample & 0x7fff_ffff <= 0x7f80_0000 ==> louder >= sample & 0x7fff_ffff,
        louder == peak || (louder == sample & 0x7fff_ffff && louder <= 0x7f80_0000),
{
    let size: u32 = sample & 0x7fff_ffff;
    if size <= 0x7f80_0000 && size > peak {
        size
    } else {
        peak
    }
}

/// The peak is the largest magnitude of a number among the samples: none is
/// larger, one of them has it unless it is 0, and so there is only one.
pub proof fn a_peak_is_the_loudest_sample(samples: Seq<u32>, peak: u32, other: u32)
    requires
        is_peak(samples, peak),
        is_peak(samples, other),
    ensures
        forall|i: int|
            0 <= i < samples.len() && samples[i] & 0x7fff_ffff <= 0x7f80_0000 ==> (#[trigger] samples[i])
                & 0x7fff_ffff <= peak,
        peak == 0 || exists|i: int|
            0 <= i < samples.len() && (#[trigger] samples[i]) & 0x7fff_ffff == peak && peak <= 0x7f80_0000,
        other == peak,
{
}

/// One more sample makes the louder of the two the peak.
pub proof fn a_peak_grows(samples: Seq<u32>, peak: u32, sample: u32)
    requires
        is_peak(samples, peak),
    ensures
        is_peak(samples.push(sample), louder_of(peak, sample)),
{
    let more = samples.push(sample);
    let louder = louder_of(peak, sample);
    assert(more[samples.len() as int] == sample);
    if louder != 0 && louder == peak && !(is_number(sample) && magnitude(sample) > peak) {
        let i = choose|i: int|
            0 <= i < samples.len() && is_number(#[trigger] samples[i]) && magnitude(samples[i]) == peak;
        assert(more[i] == samples[i]);
    }
    assert forall|i: int| 0 <= i < more.len() && is_number(more[i]) implies magnitude(#[trigger] more[i]) <= louder by {
        if i < samples.len() {
            assert(more[i] == samples[i]);
        }
    }
}

/// The magnitude of the loudest sample.
pub fn peak_of(samples: &[u32]) -> (peak: u32)
    ensures
        is_peak(samples@, peak),
        forall|i: int|
            0 <= i < samples@.len() && samples@[i] & 0x7fff_ffff <= 0x7f80_0000 ==> (#[trigger] samples@[i])
                & 0x7fff_ffff <= peak,
        peak == 0 || exists|i: int|
            0 <= i < samples@.len() && (#[trigger] samples@[i]) & 0x7fff_ffff == peak && peak <= 0x7f80_0000,
{
    let mut peak: u32 = 0;
    let mut i: usize = 0;
    while i < samples.len()
        invariant
            i <= samples@.len(),
            is_peak(samples@.take(i as int), peak),
        decreases samples@.len() - i,
    {
        proof {
            a_peak_grows(samples@.take(i as int), peak, samples@[i as int]);
            assert(samples@.take(i + 1) =~= samples@.take(i as int).push(samples@[i as int]));
        }
        peak = louder(peak, samples[i]);
        i = i + 1;
    }
    assert(samples@.take(i as int) =~= samples@);
    peak
}

// ---------------------------------------------------------------------
// The bus of a source
// ---------------------------------------------------------------------

/// A call that rebuilds the map of sources.
#[derive(Clone, Copy, Debug)]
pub enum BusCall<'a> {
    /// `obs_get_source_by_name`; yes: the scene, with a reference.
    FindScene(&'a str),
    /// `obs_source_enum_active_sources` of the scene: `collect_bus_member`
    /// for each, with whether this is the Program scene.
    Walk(bool),
    /// `obs_source_release` of the scene.
    Release,
}

/// Why the map of sources was left as it is.
#[derive(Clone, Copy, PartialEq, Eq, Structural, Debug)]
pub enum BusFault {
    SymbolMissing,
}

/// Walks one scene, from the place `at` of the plan on.
pub open spec fn walk_ops<'a>(scene: Option<&'a str>, is_program: bool, at: int) -> Seq<
    Op<BusCall<'a>, BusFault>,
> {
    match scene {
        Some(name) if !name@.contains('\0') => seq![
            Op::Do { call: BusCall::FindScene(name), when: When::Always },
            Op::Do { call: BusCall::Walk(is_program), when: When::If(at as usize) },
            Op::Do { call: BusCall::Release, when: When::If(at as usize) },
        ],
        _ => Seq::empty(),
    }
}

pub open spec fn refresh_ops<'a>(symbols: bool, program: Option<&'a str>, preview: Option<&'a str>) -> Seq<
    Op<BusCall<'a>, BusFault>,
> {
    let head = seq![Op::Need { met: symbols, fault: BusFault::SymbolMissing }] + walk_ops(
        program,
        true,
        1,
    );
    head + walk_ops(preview, false, head.len() as int)
}

/// Source name to whether the source is on Program.
pub struct SourceBus {
    members: NameMap<bool>,
}

impl View for SourceBus {
    type V = Map<Seq<char>, bool>;

    closed spec fn view(&self) -> Map<Seq<char>, bool> {
        self.members@
    }
}

/// The map with one more member of a scene. Program wins over Preview.
pub open spec fn with_member(bus: Map<Seq<char>, bool>, name: Seq<char>, is_program: bool) -> Map<Seq<char>, bool> {
    bus.insert(name, is_program || (bus.contains_key(name) && bus[name]))
}

/// Whether the map says that a source is on Program.
pub open spec fn on_program(bus: Map<Seq<char>, bool>, name: Seq<char>) -> bool {
    bus.contains_key(name) && bus[name]
}

impl SourceBus {
    pub closed spec fn well_formed(&self) -> bool {
        self.members.well_formed()
    }

    pub fn new() -> (bus: Self)
        ensures
            bus.well_formed(),
            bus@ == Map::<Seq<char>, bool>::empty(),
    {
        SourceBus { members: NameMap::new() }
    }

    /// Notes a member of a scene; one without a name is not noted.
    pub fn collect_bus_member(&mut self, name: Option<&str>, is_program: bool)
        requires
            old(self).well_formed(),
        ensures
            final(self).well_formed(),
            final(self)@ == (match name {
                Some(text) => with_member(old(self)@, text@, is_program),
                None => old(self)@,
            }),
    {
        match name {
            Some(text) => {
                let before = match self.members.get(text) {
                    Some(on) => *on,
                    None => false,
                };
                self.members.set(text, is_program || before);
            },
            None => {},
        }
    }
}

/// Starts to rebuild the map from the current Program and Preview scenes.
/// Where libobs cannot walk a scene the map is left as it is.
pub fn refresh_source_bus<'a>(
    bus: &mut SourceBus,
    symbols: bool,
    program: Option<&'a str>,
    preview: Option<&'a str>,
) -> (plan: Plan<BusCall<'a>, BusFault>)
    requires
        old(bus).well_formed(),
    ensures
        final(bus).well_formed(),
        final(bus)@ == (if symbols {
            Map::<Seq<char>, bool>::empty()
        } else {
            old(bus)@
        }),
        plan.fresh(refresh_ops(symbols, program, preview)),
{
    if symbols {
        bus.members = NameMap::new();
    }
    let mut ops: Vec<Op<BusCall<'a>, BusFault>> = Vec::new();
    ops.push(Op::Need { met: symbols, fault: BusFault::SymbolMissing });
    push_walk(&mut ops, program, true);
    push_walk(&mut ops, preview, false);
    assert(ops@ =~= refresh_ops(symbols, program, preview));
    Plan::new(ops)
}

fn push_walk<'a>(ops: &mut Vec<Op<BusCall<'a>, BusFault>>, scene: Option<&'a str>, is_program: bool)
    requires
        old(ops)@.len() <= 4,
        crate::plan::ordered(old(ops)@),
    ensures
        final(ops)@ == old(ops)@ + walk_ops(scene, is_program, old(ops)@.len() as int),
        crate::plan::ordered(final(ops)@),
{
    let ghost before = ops@;
    let at: usize = ops.len();
    match scene {
        Some(name) => {
            if !has_nul(name) {
                ops.push(Op::Do { call: BusCall::FindScene(name), when: When::Always });
                ops.push(Op::Do { call: BusCall::Walk(is_program), when: When::If(at) });
                ops.push(Op::Do { call: BusCall::Release, when: When::If(at) });
            }
        },
        None => {},
    }
    assert(ops@ =~= before + walk_ops(scene, is_program, at as int));
    assert forall|i: int| 0 <= i < ops@.len() implies crate::plan::looks_back(#[trigger] ops@[i], i) by {
        if i < before.len() {
            assert(ops@[i] == before[i]);
        }
    }
}

/// Whether a source is on Program; not where it is on neither bus or
/// unknown.
pub fn source_is_on_program(bus: &SourceBus, name: &str) -> (on: bool)
    requires
        bus.well_formed(),
    ensures
        on == on_program(bus@, name@),
{
    match bus.members.get(name) {
        Some(on) => *on,
        None => false,
    }
}

/// The order in which the members of the scenes are met does not matter: a
/// source is on Program exactly if it was met there.
pub proof fn the_bus_does_not_depend_on_the_order(
    bus: Map<Seq<char>, bool>,
    a: Seq<char>,
    on_a: bool,
    b: Seq<char>,
    on_b: bool,
    name: Seq<char>,
)
    ensures
        with_member(with_member(bus, a, on_a), b, on_b) == with_member(with_member(bus, b, on_b), a, on_a),
        on_program(with_member(bus, a, on_a), name) == (on_program(bus, name) || (name == a && on_a)),
        !on_program(Map::<Seq<char>, bool>::empty(), name),
        with_member(bus, a, on_a).dom() == bus.dom().insert(a),
{
    assert(with_member(with_member(bus, a, on_a), b, on_b) =~= with_member(with_member(bus, b, on_b), a, on_a));
}

/// What a call does to the references held to scenes.
pub open spec fn scene_references(call: (BusCall<'_>, bool)) -> int {
    match call.0 {
        BusCall::FindScene(_) => if call.1 {
            1
        } else {
            0
        },
        BusCall::Release => -1,
        _ => 0,
    }
}

/// The map is rebuilt from the two scenes as they are named: each that is
/// found is walked, Program first and as Program, and given back at once.
pub proof fn how_a_bus_is_rebuilt<'a>(
    symbols: bool,
    program: Option<&'a str>,
    preview: Option<&'a str>,
    host: spec_fn(int) -> bool,
)
    ensures
        ({
            let course = crate::plan::whole_course(refresh_ops(symbols, program, preview), host);
            let walks = program matches Some(name) && !name@.contains('\0');
            let at: int = if walks {
                4
            } else {
                1
            };
            &&& course.fault == (if symbols {
                None
            } else {
                Some(BusFault::SymbolMissing)
            })
            &&& !symbols ==> course.calls.len() == 0
            &&& symbols ==> course.calls == (if !walks {
                Seq::empty()
            } else if host(1) {
                seq![
                    (BusCall::FindScene(program->0), true),
                    (BusCall::Walk(true), host(2)),
                    (BusCall::Release, host(3)),
                ]
            } else {
                seq![(BusCall::FindScene(program->0), false)]
            }) + (if !(preview matches Some(name) && !name@.contains('\0')) {
                Seq::empty()
            } else if host(at) {
                seq![
                    (BusCall::FindScene(preview->0), true),
                    (BusCall::Walk(false), host(at + 1)),
                    (BusCall::Release, host(at + 2)),
                ]
            } else {
                seq![(BusCall::FindScene(preview->0), false)]
            })
        }),
{
    let ops = refresh_ops(symbols, program, preview);
    let course = crate::plan::whole_course(ops, host);
    crate::plan::every_step(ops, host);
    let walks = program matches Some(name) && !name@.contains('\0');
    let at: int = if walks {
        4
    } else {
        1
    };
    if symbols {
        assert(course.calls =~= (if !walks {
            Seq::empty()
        } else if host(1) {
            seq![
                (BusCall::FindScene(program->0), true),
                (BusCall::Walk(true), host(2)),
                (BusCall::Release, host(3)),
            ]
        } else {
            seq![(BusCall::FindScene(program->0), false)]
        }) + (if !(preview matches Some(name) && !name@.contains('\0')) {
            Seq::empty()
        } else if host(at) {
            seq![
                (BusCall::FindScene(preview->0), true),
                (BusCall::Walk(false), host(at + 1)),
                (BusCall::Release, host(at + 2)),
            ]
        } else {
            seq![(BusCall::FindScene(preview->0), false)]
        }));
    }
}

/// Rebuilding the map gives back every reference it takes.
pub proof fn a_rebuilt_bus_holds_nothing<'a>(
    symbols: bool,
    program: Option<&'a str>,
    preview: Option<&'a str>,
    host: spec_fn(int) -> bool,
)
    ensures
        crate::plan::balance(
            crate::plan::whole_course(refresh_ops(symbols, program, preview), host).calls,
            |call: (BusCall<'_>, bool)| scene_references(call),
        ) == 0,
{
    crate::plan::every_step(refresh_ops(symbols, program, preview), host);
}

// ---------------------------------------------------------------------
// Levels
// ---------------------------------------------------------------------

/// The bits of the level of silence, -100 decibels.
pub const SILENCE_DB: u32 = 0xc2c8_0000;

/// Whether the bits are those of a number that is not above zero.
pub open spec fn not_above_zero(scaled: u32) -> bool {
    is_number(scaled) && (scaled == 0 || scaled >= 0x8000_0000)
}

/// The level of a block after the fader, as OBS's mixer shows it: the peak of
/// the samples at the source's volume, in decibels. `product` multiplies two
/// samples and `decibels` is the logarithm, both on the bits of floats.
pub open spec fn is_level<P: Fn(u32, u32) -> u32, D: Fn(u32) -> u32>(
    samples: Seq<u32>,
    muted: bool,
    volume: u32,
    product: P,
    decibels: D,
    level: u32,
) -> bool {
    if muted {
        level == SILENCE_DB
    } else {
        exists|peak: u32, scaled: u32|
            is_peak(samples, peak) && #[trigger] call_ensures(product, (peak, volume), scaled) && if not_above_zero(
                scaled,
            ) {
                level == SILENCE_DB
            } else {
                call_ensures(decibels, (scaled,), level)
            }
    }
}

/// A level follows the fader at every volume: it is the logarithm of the peak
/// multiplied by exactly that volume. A muted source, and one whose product
/// is a number that is not above zero, is at -100 decibels.
pub proof fn a_level_follows_the_fader<P: Fn(u32, u32) -> u32, D: Fn(u32) -> u32>(
    samples: Seq<u32>,
    muted: bool,
    volume: u32,
    product: P,
    decibels: D,
    level: u32,
)
    requires
        is_level(samples, muted, volume, product, decibels, level),
    ensures
        muted ==> level == 0xc2c8_0000u32,
        !muted ==> exists|peak: u32, scaled: u32|
            is_peak(samples, peak) && #[trigger] call_ensures(product, (peak, volume), scaled) && if scaled
                & 0x7fff_ffff <= 0x7f80_0000 && (scaled == 0 || scaled >= 0x8000_0000) {
                level == 0xc2c8_0000u32
            } else {
                call_ensures(decibels, (scaled,), level)
            },
{
}

/// Where the product and the logarithm are functions, so is the level: of the
/// samples' peak and the volume alone.
pub proof fn a_level_is_the_logarithm_of_the_product<P: Fn(u32, u32) -> u32, D: Fn(u32) -> u32>(
    samples: Seq<u32>,
    peak: u32,
    volume: u32,
    product: P,
    decibels: D,
    times: spec_fn(u32, u32) -> u32,
    log: spec_fn(u32) -> u32,
    level: u32,
)
    requires
        is_level(samples, false, volume, product, decibels, level),
        is_peak(samples, peak),
        forall|a: u32, b: u32, r: u32| #[trigger] call_ensures(product, (a, b), r) ==> r == times(a, b),
        forall|a: u32, r: u32| #[trigger] call_ensures(decibels, (a,), r) ==> r == log(a),
    ensures
        level == 0xc2c8_0000u32 || level == log(times(peak, volume)),
        0 < times(peak, volume) < 0x8000_0000 ==> level == log(times(peak, volume)),
{
    a_level_follows_the_fader(samples, false, volume, product, decibels, level);
    let (p, scaled) = choose|p: u32, scaled: u32|
        is_peak(samples, p) && #[trigger] call_ensures(product, (p, volume), scaled) && if scaled & 0x7fff_ffff
            <= 0x7f80_0000 && (scaled == 0 || scaled >= 0x8000_0000) {
            level == 0xc2c8_0000u32
        } else {
            call_ensures(decibels, (scaled,), level)
        };
    a_peak_is_the_loudest_sample(samples, peak, p);
}

/// The level of a block after the fader.
pub fn post_fader_level<P: Fn(u32, u32) -> u32, D: Fn(u32) -> u32>(
    samples: &[u32],
    muted: bool,
    volume: u32,
    product: &P,
    decibels: &D,
) -> (level: u32)
    requires
        forall|a: u32, b: u32| call_requires(*product, (a, b)),
        forall|scaled: u32| call_requires(*decibels, (scaled,)),
    ensures
        is_level(samples@, muted, volume, *product, *decibels, level),
        muted ==> level == 0xc2c8_0000u32,
        !muted ==> exists|peak: u32, scaled: u32|
            is_peak(samples@, peak) && #[trigger] call_ensures(*product, (peak, volume), scaled) && if scaled
                & 0x7fff_ffff <= 0x7f80_0000 && (scaled == 0 || scaled >= 0x8000_0000) {
                level == 0xc2c8_0000u32
            } else {
                call_ensures(*decibels, (scaled,), level)
            },
{
    if muted {
        return SILENCE_DB;
    }
    let peak: u32 = peak_of(samples);
    let scaled: u32 = product(peak, volume);
    if scaled & 0x7fff_ffff <= 0x7f80_0000 && (scaled == 0 || scaled >= 0x8000_0000) {
        SILENCE_DB
    } else {
        decibels(scaled)
    }
}

/// How a captured block of audio is forwarded.
#[derive(Clone, Copy, PartialEq, Eq, Structural, Debug)]
pub struct Forward {
    pub sample_rate: i32,
    pub channels: u32,
    /// The bits of the volume it is forwarded at.
    pub volume: u32,
}

/// How a block is forwarded: at OBS's own rate and channels, where OBS knows
/// them, and at the source's volume; a muted source is forwarded as silence.
pub open spec fn forward_of(info: Option<ObsAudioInfo>, muted: bool, volume: u32) -> Option<Forward> {
    match info {
        Some(audio) => if 1 <= audio.speakers <= 6 || audio.speakers == 8 {
            Some(
                Forward {
                    sample_rate: audio.samples_per_sec as i32,
                    channels: audio.speakers,
                    volume: if muted {
                        0
                    } else {
                        volume
                    },
                },
            )
        } else {
            None
        },
        None => None,
    }
}

/// The level of every source heard since the last event: the bits of its
/// peak in decibels, and whether the source is on Program.
pub struct LevelBoard {
    levels: NameMap<(u32, bool)>,
}

impl View for LevelBoard {
    type V = Map<Seq<char>, (u32, bool)>;

    closed spec fn view(&self) -> Map<Seq<char>, (u32, bool)> {
        self.levels@
    }
}

/// What the emitting thread does next.
pub enum Emit {
    /// The plugin is being unloaded.
    Stop,
    /// Nobody to tell, or nothing to say.
    Nothing,
    /// One `audio_levels` event.
    Send(Vec<SourceLevel>),
}

/// `sent` says what the board holds, each source once.
pub open spec fn says_all(board: Map<Seq<char>, (u32, bool)>, sent: Seq<SourceLevel>) -> bool {
    &&& forall|i: int, j: int| 0 <= i < j < sent.len() ==> (#[trigger] sent[i]).name@ != (#[trigger] sent[j]).name@
    &&& forall|i: int|
        0 <= i < sent.len() ==> board.contains_key((#[trigger] sent[i]).name@) && board[sent[i].name@] == (
            sent[i].peak_db,
            sent[i].active,
        )
    &&& forall|name: Seq<char>| #[trigger]
        board.contains_key(name) ==> exists|i: int| 0 <= i < sent.len() && (#[trigger] sent[i]).name@ == name
}

/// An event says of every source that was heard, and of no other, the level
/// it was last heard at and whether it is on Program, once.
pub proof fn an_event_says_what_was_heard(board: Map<Seq<char>, (u32, bool)>, sent: Seq<SourceLevel>, name: Seq<char>)
    requires
        says_all(board, sent),
    ensures
        board.contains_key(name) <==> exists|i: int| 0 <= i < sent.len() && (#[trigger] sent[i]).name@ == name,
        forall|i: int|
            0 <= i < sent.len() && (#[trigger] sent[i]).name@ == name ==> board[name].0 == sent[i].peak_db
                && board[name].1 == sent[i].active,
        forall|i: int, j: int|
            0 <= i < sent.len() && 0 <= j < sent.len() && (#[trigger] sent[i]).name@ == name && (
            #[trigger] sent[j]).name@ == name ==> i == j,
{
    if board.contains_key(name) {
        assert(exists|i: int| 0 <= i < sent.len() && (#[trigger] sent[i]).name@ == name);
    }
}

impl LevelBoard {
    pub closed spec fn well_formed(&self) -> bool {
        self.levels.well_formed()
    }

    pub fn new() -> (board: Self)
        ensures
            board.well_formed(),
            board@ == Map::<Seq<char>, (u32, bool)>::empty(),
    {
        LevelBoard { levels: NameMap::new() }
    }

    /// Takes note of one block that a source has captured: its first channel,
    /// where it has one, before the fader, and the source's volume. A block
    /// without frames or without a first channel, or of a source without a
    /// name, counts for nothing; any other replaces the source's level.
    pub fn audio_capture_callback<P: Fn(u32, u32) -> u32, D: Fn(u32) -> u32>(
        &mut self,
        bus: &SourceBus,
        name: Option<&str>,
        first_plane: Option<&[u32]>,
        muted: bool,
        volume: u32,
        info: Option<ObsAudioInfo>,
        product: &P,
        decibels: &D,
    ) -> (forward: Option<Forward>)
        requires
            old(self).well_formed(),
            bus.well_formed(),
            forall|a: u32, b: u32| call_requires(*product, (a, b)),
            forall|scaled: u32| call_requires(*decibels, (scaled,)),
        ensures
            final(self).well_formed(),
            ({
                let counts = first_plane is Some && first_plane->0@.len() > 0 && name is Some;
                &&& counts ==> forward == forward_of(info, muted, volume) && exists|level: u32|
                    #[trigger] is_level(first_plane->0@, muted, volume, *product, *decibels, level) && final(self)@
                        == old(self)@.insert(name->0@, (level, on_program(bus@, name->0@)))
                &&& !counts ==> final(self)@ == old(self)@ && forward is None
                &&& forward is Some ==> counts && info is Some
                &&& counts && info is Some ==> (forward is Some <==> 1 <= info->0.speakers <= 6 || info->0.speakers
                    == 8)
            }),
            forward matches Some(f) ==> {
                &&& f.channels == info->0.speakers
                &&& f.sample_rate == info->0.samples_per_sec as i32
                &&& info->0.samples_per_sec <= i32::MAX ==> f.sample_rate == info->0.samples_per_sec
                &&& muted ==> f.volume == 0
                &&& !muted ==> f.volume == volume
            },
    {
        let samples = match first_plane {
            Some(samples) => samples,
            None => {
                return None;
            },
        };
        if samples.len() == 0 {
            return None;
        }
        match name {
            Some(text) => {
                let level: u32 = post_fader_level(samples, muted, volume, product, decibels);
                let active = source_is_on_program(bus, text);
                self.levels.set(text, (level, active));
                match info {
                    Some(audio) => {
                        let channels: u32 = speaker_layout_to_channels(audio.speakers);
                        if channels > 0 {
                            let volume: u32 = if muted {
                                0
                            } else {
                                volume
                            };
                            Some(Forward { sample_rate: audio.samples_per_sec as i32, channels, volume })
                        } else {
                            None
                        }
                    },
                    None => None,
                }
            },
            None => None,
        }
    }

    /// What the emitting thread does after it has slept. The levels are kept
    /// while there is nobody to tell; once told they are forgotten.
    pub fn next_event(&mut self, shutting_down: bool, vendor: bool) -> (emit: Emit)
        requires
            old(self).well_formed(),
        ensures
            final(self).well_formed(),
            emit is Stop <==> shutting_down,
            emit is Send <==> !shutting_down && vendor && old(self)@.dom() != Set::<Seq<char>>::empty(),
            emit !is Send ==> final(self)@ == old(self)@,
            emit matches Emit::Send(sent) ==> final(self)@ == Map::<Seq<char>, (u32, bool)>::empty() && says_all(
                old(self)@,
                sent@,
            ),
    {
        if shutting_down {
            return Emit::Stop;
        }
        if !vendor {
            return Emit::Nothing;
        }
        let ghost board = self@;
        let ghost order = self.levels.order();
        proof {
            self.levels.order_is_the_domain();
        }
        if self.levels.len() == 0 {
            assert(board.dom() =~= Set::<Seq<char>>::empty());
            return Emit::Nothing;
        }
        assert(order.contains(order[0]));
        assert(board.dom().contains(order[0]));
        let mut waiting = self.levels.drain();
        let mut sent: Vec<SourceLevel> = Vec::new();
        while waiting.len() > 0
            invariant
                sent@.len() <= order.len(),
                waiting@.len() == order.len() - sent@.len(),
                forall|i: int|
                    0 <= i < waiting@.len() ==> (#[trigger] waiting@[i]).0@ == order[sent@.len() + i] && waiting@[i].1
                        == board[order[sent@.len() + i]],
                forall|i: int|
                    0 <= i < sent@.len() ==> (#[trigger] sent@[i]).name@ == order[i] && (
                        sent@[i].peak_db,
                        sent@[i].active,
                    ) == board[order[i]],
            decreases waiting@.len(),
        {
            let ghost before = waiting@;
            let ghost done = sent@.len() as int;
            assert(before[0].0@ == order[done + 0]);
            let (name, level) = waiting.remove(0);
            sent.push(SourceLevel { name, peak_db: level.0, active: level.1 });
            assert forall|i: int| 0 <= i < waiting@.len() implies (#[trigger] waiting@[i]).0@ == order[sent@.len() + i]
                && waiting@[i].1 == board[order[sent@.len() + i]] by {
                assert(waiting@[i] == before[i + 1]);
            }
        }
        proof {
            assert forall|i: int| 0 <= i < sent@.len() implies board.contains_key((#[trigger] sent@[i]).name@) by {
                assert(order.contains(order[i]));
            }
            assert forall|name: Seq<char>| #[trigger] board.contains_key(name) implies exists|i: int|
                0 <= i < sent@.len() && (#[trigger] sent@[i]).name@ == name by {
                assert(order.contains(name));
                let i = order.index_of(name);
                assert(sent@[i].name@ == order[i]);
            }
        }
        Emit::Send(sent)
    }
}

// ---------------------------------------------------------------------
// Capture callbacks
// ---------------------------------------------------------------------

/// A call that changes a source's list of capture callbacks.
#[derive(Clone, Copy, PartialEq, Eq, Structural, Debug)]
pub enum CaptureCall {
    /// `obs_source_remove_audio_capture_callback`: takes one entry of ours
    /// out of the list, if there is one.
    Remove,
    /// `obs_source_add_audio_capture_callback`: appends an entry, whether or
    /// not there is one already.
    Add,
}

/// How many entries of ours a list has after a call.
pub open spec fn entries_after(entries: nat, call: CaptureCall) -> nat {
    match call {
        CaptureCall::Remove => if entries == 0 {
            0
        } else {
            (entries - 1) as nat
        },
        CaptureCall::Add => entries + 1,
    }
}

pub open spec fn entries_after_all(entries: nat, calls: Seq<CaptureCall>) -> nat
    decreases calls.len(),
{
    if calls.len() == 0 {
        entries
    } else {
        entries_after(entries_after_all(entries, calls.drop_last()), calls.last())
    }
}

pub open spec fn reattached(remove: bool, append: bool) -> Seq<CaptureCall> {
    (if remove {
        seq![CaptureCall::Remove]
    } else {
        Seq::empty()
    }) + (if append {
        seq![CaptureCall::Add]
    } else {
        Seq::empty()
    })
}

/// Attaches the capture callback to a source that is met on a scan, or
/// renews it; as far as libobs can.
pub fn attach_callback_enum_proc(remove: bool, append: bool) -> (calls: Vec<CaptureCall>)
    ensures
        calls@ == reattached(remove, append),
        calls@.contains(CaptureCall::Remove) == remove,
        calls@.contains(CaptureCall::Add) == append,
        remove && append ==> calls@ == seq![CaptureCall::Remove, CaptureCall::Add],
        calls@.len() <= 2,
{
    let mut calls: Vec<CaptureCall> = Vec::new();
    if remove {
        calls.push(CaptureCall::Remove);
    }
    if append {
        calls.push(CaptureCall::Add);
    }
    assert(calls@ =~= reattached(remove, append));
    proof {
        if remove {
            assert(calls@[0] == CaptureCall::Remove);
        }
        if append {
            assert(calls@[calls@.len() - 1] == CaptureCall::Add);
        }
    }
    calls
}

/// However often a source is scanned, it has exactly one entry.
pub proof fn a_scanned_source_has_one_entry(entries: nat)
    requires
        entries <= 1,
    ensures
        entries_after_all(entries, reattached(true, true)) == 1,
{
    let calls = reattached(true, true);
    reveal_with_fuel(entries_after_all, 3);
    assert(calls.drop_last() =~= seq![CaptureCall::Remove]);
    assert(calls.drop_last().drop_last() =~= Seq::<CaptureCall>::empty());
}

// ---------------------------------------------------------------------
// The scanning thread
// ---------------------------------------------------------------------

/// Naps between two scans, and their length.
pub const RESCAN_NAPS: u32 = 50;

pub const RESCAN_NAP_MS: u64 = 100;

/// What the scanning thread does next.
#[derive(Clone, Copy, PartialEq, Eq, Structural, Debug)]
pub enum Rescan {
    /// The plugin is being unloaded.
    Stop,
    /// Attach to every source and to the two scenes.
    Scan,
    /// Sleep `RESCAN_NAP_MS`.
    Nap,
}

/// The scanning thread: a scan, then `RESCAN_NAPS` naps, and again.
pub struct RescanLoop {
    naps_left: u32,
}

impl RescanLoop {
    /// Naps left until the next scan is due.
    pub closed spec fn naps_left(&self) -> u32 {
        self.naps_left
    }

    pub fn new() -> (scan: Self)
        ensures
            scan.naps_left() == 0,
    {
        RescanLoop { naps_left: 0 }
    }

    /// What to do next. A shutdown is noticed before every scan and every
    /// nap; a scan that falls into a pause is left out.
    pub fn next(&mut self, shutting_down: bool, paused: bool) -> (action: Rescan)
        ensures
            shutting_down ==> action is Stop && final(self).naps_left() == old(self).naps_left(),
            !shutting_down && old(self).naps_left() > 0 ==> action is Nap && final(self).naps_left() == old(
                self,
            ).naps_left() - 1,
            !shutting_down && old(self).naps_left() == 0 && !paused ==> action is Scan && final(self).naps_left()
                == RESCAN_NAPS,
            !shutting_down && old(self).naps_left() == 0 && paused ==> action is Nap && final(self).naps_left()
                == RESCAN_NAPS - 1,
    {
        if shutting_down {
            return Rescan::Stop;
        }
        if self.naps_left > 0 {
            self.naps_left = self.naps_left - 1;
            return Rescan::Nap;
        }
        if paused {
            self.naps_left = RESCAN_NAPS - 1;
            Rescan::Nap
        } else {
            self.naps_left = RESCAN_NAPS;
            Rescan::Scan
        }
    }
}

/// A scan is due every five seconds, and the levels go out ten times a second.
pub proof fn how_often_things_are_due()
    ensures
        RESCAN_NAPS * RESCAN_NAP_MS == 5000,
        RESCAN_NAP_MS == 100,
        EMIT_INTERVAL_MS * 10 == 1000,
{
}

/// The plugin's threads, and whether they are to stop.
pub struct Lifecycle<T> {
    shutting_down: bool,
    paused: bool,
    threads: Vec<T>,
}

impl<T> Lifecycle<T> {
    pub closed spec fn shutting_down(&self) -> bool {
        self.shutting_down
    }

    pub closed spec fn paused(&self) -> bool {
        self.paused
    }

    pub closed spec fn threads(&self) -> Seq<T> {
        self.threads@
    }

    pub fn new() -> (lifecycle: Self)
        ensures
            !lifecycle.shutting_down(),
            !lifecycle.paused(),
            lifecycle.threads() == Seq::<T>::empty(),
    {
        Lifecycle { shutting_down: false, paused: false, threads: Vec::new() }
    }

    pub fn is_shutting_down(&self) -> (yes: bool)
        ensures
            yes == self.shutting_down(),
    {
        self.shutting_down
    }

    pub fn is_paused(&self) -> (yes: bool)
        ensures
            yes == self.paused(),
    {
        self.paused
    }

    /// Pauses the scans, or lets them go on.
    pub fn set_paused(&mut self, paused: bool)
        ensures
            final(self).paused() == paused,
            final(self).shutting_down() == old(self).shutting_down(),
            final(self).threads() == old(self).threads(),
    {
        self.paused = paused;
    }

    /// Keeps a thread to be waited for.
    pub fn keep_thread(&mut self, thread: T)
        ensures
            final(self).threads() == old(self).threads().push(thread),
            final(self).shutting_down() == old(self).shutting_down(),
            final(self).paused() == old(self).paused(),
    {
        self.threads.push(thread);
    }
}

/// Tells the threads to stop, and hands out all of them to be waited for.
pub fn shutdown<T>(lifecycle: &mut Lifecycle<T>) -> (threads: Vec<T>)
    ensures
        final(lifecycle).shutting_down(),
        final(lifecycle).paused() == old(lifecycle).paused(),
        final(lifecycle).threads() == Seq::<T>::empty(),
        threads@ == old(lifecycle).threads(),
{
    lifecycle.shutting_down = true;
    let mut threads: Vec<T> = Vec::new();
    std::mem::swap(&mut threads, &mut lifecycle.threads);
    threads
}

} // verus!
