// SPDX-License-Identifier: GPL-2.0-or-later
//! Video feeds: OBS's Preview and Program as small NV12 pictures.
//!
//! A feed follows the scene its picture shows. Facts about libobs that the
//! order of the calls rests on:
//! - A mix downloads raw frames only while something has started raw video
//!   on it: a raw callback on the main mix, or an output on a mix of one's
//!   own.
//! - Destroying a view does not take it out of the render loop; removing it
//!   does, and comes first.
//! - Releasing the last reference to an output waits until its capture has
//!   ended. After that no frame is on its way.

use vstd::prelude::*;

use crate::feed::{feed_key, ndi_name, Path, Transport, Which};
use crate::plan::{Op, Plan, When};
use crate::response::Response;
use crate::text::{same_text, text2, text5};
use crate::video_frames::Snapshot;

verus! {

pub const VIDEO_FORMAT_NV12: i32 = 2;

pub const VIDEO_CS_DEFAULT: i32 = 0;

pub const VIDEO_CS_709: i32 = 2;

pub const VIDEO_CS_2100_PQ: i32 = 4;

pub const VIDEO_CS_2100_HLG: i32 = 5;

pub const VIDEO_RANGE_DEFAULT: i32 = 0;

pub const OBS_SCALE_BICUBIC: i32 = 2;

/// OBS's video settings.
#[derive(Clone, Copy, PartialEq, Eq, Structural, Debug)]
pub struct ObsVideoInfo {
    pub fps_num: u32,
    pub fps_den: u32,
    pub base_width: u32,
    pub base_height: u32,
    pub output_width: u32,
    pub output_height: u32,
    pub output_format: i32,
    pub adapter: u32,
    pub gpu_conversion: bool,
    pub colorspace: i32,
    pub range: i32,
    pub scale_type: i32,
}

/// What a raw callback wants its frames converted to.
#[derive(Clone, Copy, PartialEq, Eq, Structural, Debug)]
pub struct VideoScaleInfo {
    pub format: i32,
    pub width: u32,
    pub height: u32,
    pub range: i32,
    pub colorspace: i32,
}

pub open spec fn small(main: ObsVideoInfo, width: u32, height: u32) -> ObsVideoInfo {
    ObsVideoInfo {
        output_width: width,
        output_height: height,
        output_format: VIDEO_FORMAT_NV12,
        gpu_conversion: true,
        colorspace: if main.colorspace == VIDEO_CS_2100_PQ || main.colorspace == VIDEO_CS_2100_HLG {
            VIDEO_CS_709
        } else {
            main.colorspace
        },
        scale_type: OBS_SCALE_BICUBIC,
        ..main
    }
}

/// The main mix's settings with a small NV12 output. The base size stays
/// the canvas, in whose coordinates scenes render.
pub fn small_ovi(main: ObsVideoInfo, width: u32, height: u32) -> (info: ObsVideoInfo)
    ensures
        info == small(main, width, height),
        info.output_width == width && info.output_height == height,
        info.output_format == 2 && info.gpu_conversion && info.scale_type == 2,
        info.colorspace == (if main.colorspace == 4 || main.colorspace == 5 {
            2
        } else {
            main.colorspace
        }),
        info.fps_num == main.fps_num && info.fps_den == main.fps_den,
        info.base_width == main.base_width && info.base_height == main.base_height,
        info.adapter == main.adapter && info.range == main.range,
{
    let colorspace: i32 = if main.colorspace == VIDEO_CS_2100_PQ || main.colorspace == VIDEO_CS_2100_HLG {
        VIDEO_CS_709
    } else {
        main.colorspace
    };
    ObsVideoInfo {
        output_width: width,
        output_height: height,
        output_format: VIDEO_FORMAT_NV12,
        gpu_conversion: true,
        colorspace,
        scale_type: OBS_SCALE_BICUBIC,
        ..main
    }
}

pub open spec fn nv12(width: u32, height: u32) -> VideoScaleInfo {
    VideoScaleInfo {
        format: VIDEO_FORMAT_NV12,
        width,
        height,
        range: VIDEO_RANGE_DEFAULT,
        colorspace: VIDEO_CS_DEFAULT,
    }
}

/// The conversion a raw callback asks for.
pub fn raw_conversion(width: u32, height: u32) -> (conversion: VideoScaleInfo)
    ensures
        conversion == nv12(width, height),
        conversion == (VideoScaleInfo { format: 2, width, height, range: 0, colorspace: 0 }),
{
    VideoScaleInfo {
        format: VIDEO_FORMAT_NV12,
        width,
        height,
        range: VIDEO_RANGE_DEFAULT,
        colorspace: VIDEO_CS_DEFAULT,
    }
}

// ---------------------------------------------------------------------
// Requests
// ---------------------------------------------------------------------

/// The state a request asks for.
#[derive(Clone, Copy, PartialEq, Eq, Structural, Debug)]
pub struct Request {
    pub preview: bool,
    pub program: bool,
    pub transport: Transport,
    pub width: u32,
    pub height: u32,
    pub program_path: Path,
}

/// What a request asks of one feed.
#[derive(Clone, Copy, PartialEq, Eq, Structural, Debug)]
pub struct Wanted {
    pub on: bool,
    pub path: Path,
    pub transport: Transport,
    pub width: u32,
    pub height: u32,
}

/// An even size in range: NV12 halves the chroma both ways.
pub open spec fn even(v: int) -> int {
    let clamped = if v < 16 {
        16
    } else if v > 3840 {
        3840
    } else {
        v
    };
    clamped - clamped % 2
}

/// A size that is asked for is kept, but for an odd one, which loses one, and
/// for one out of range, which becomes the nearest in range.
pub proof fn a_size_is_kept_where_it_can_be(v: int)
    ensures
        16 <= v <= 3840 && v % 2 == 0 ==> even(v) == v,
        16 <= v <= 3840 && v % 2 == 1 ==> even(v) == v - 1,
        v < 16 ==> even(v) == 16,
        v > 3840 ==> even(v) == 3840,
{
}

fn even_size(v: i64) -> (size: u32)
    ensures
        size == even(v as int),
        16 <= v <= 3840 ==> v - 1 <= size <= v,
        v < 16 ==> size == 16,
        v > 3840 ==> size == 3840,
        16 <= size <= 3840,
        size % 2 == 0,
{
    let clamped: i64 = if v < 16 {
        16
    } else if v > 3840 {
        3840
    } else {
        v
    };
    (clamped - clamped % 2) as u32
}

/// Whether an optional text is given and is this one.
pub open spec fn says(text: Option<&str>, word: Seq<char>) -> bool {
    text matches Some(t) && t@ == word
}

fn is_word(text: Option<&str>, word: &str) -> (yes: bool)
    ensures
        yes == says(text, word@),
        yes == (text matches Some(t) && t@ == word@),
{
    match text {
        Some(t) => same_text(t, word),
        None => false,
    }
}

/// Reads a request. What is left out: both feeds, 640x360, the raw path for
/// Program, shared memory.
pub fn read_request(
    preview: Option<bool>,
    program: Option<bool>,
    width: Option<i64>,
    height: Option<i64>,
    program_path: Option<&str>,
    transport: Option<&str>,
) -> (request: Request)
    ensures
        request.preview == (match preview {
            Some(on) => on,
            None => true,
        }),
        request.program == (match program {
            Some(on) => on,
            None => true,
        }),
        request.width == even(
            match width {
                Some(w) => w as int,
                None => 640,
            },
        ),
        request.height == even(
            match height {
                Some(h) => h as int,
                None => 360,
            },
        ),
        16 <= request.width <= 3840 && request.width % 2 == 0,
        16 <= request.height <= 3840 && request.height % 2 == 0,
        request.program_path == (if says(program_path, "view"@) {
            Path::View
        } else {
            Path::Raw
        }),
        request.transport == (if says(transport, "ndi"@) {
            Transport::Ndi
        } else {
            Transport::Shm
        }),
        width matches Some(w) ==> (16 <= w <= 3840 ==> w - 1 <= request.width <= w) && (w < 16 ==> request.width == 16)
            && (w > 3840 ==> request.width == 3840),
        height matches Some(h) ==> (16 <= h <= 3840 ==> h - 1 <= request.height <= h) && (h < 16 ==> request.height
            == 16) && (h > 3840 ==> request.height == 3840),
        width is None ==> request.width == 640,
        height is None ==> request.height == 360,
        request.program_path == Path::View <==> (program_path matches Some(t) && t@ == "view"@),
        request.transport == Transport::Ndi <==> (transport matches Some(t) && t@ == "ndi"@),
{
    let w: i64 = match width {
        Some(w) => w,
        None => 640,
    };
    let h: i64 = match height {
        Some(h) => h,
        None => 360,
    };
    Request {
        preview: match preview {
            Some(on) => on,
            None => true,
        },
        program: match program {
            Some(on) => on,
            None => true,
        },
        transport: if is_word(transport, "ndi") {
            Transport::Ndi
        } else {
            Transport::Shm
        },
        width: even_size(w),
        height: even_size(h),
        program_path: if is_word(program_path, "view") {
            Path::View
        } else {
            Path::Raw
        },
    }
}

/// What a request asks of a feed. Preview is never in the main mix, so it
/// always has a view of its own.
pub open spec fn wanted_of(request: Request, which: Which) -> Wanted {
    match which {
        Which::Preview => Wanted {
            on: request.preview,
            path: Path::View,
            transport: request.transport,
            width: request.width,
            height: request.height,
        },
        Which::Program => Wanted {
            on: request.program,
            path: request.program_path,
            transport: request.transport,
            width: request.width,
            height: request.height,
        },
    }
}

impl Request {
    pub fn wanted(&self, which: Which) -> (wanted: Wanted)
        ensures
            wanted == wanted_of(*self, which),
            wanted.on == (if which == Which::Preview {
                self.preview
            } else {
                self.program
            }),
            wanted.path == (if which == Which::Preview {
                Path::View
            } else {
                self.program_path
            }),
            wanted.transport == self.transport && wanted.width == self.width && wanted.height == self.height,
    {
        match which {
            Which::Preview => Wanted {
                on: self.preview,
                path: Path::View,
                transport: self.transport,
                width: self.width,
                height: self.height,
            },
            Which::Program => Wanted {
                on: self.program,
                path: self.program_path,
                transport: self.transport,
                width: self.width,
                height: self.height,
            },
        }
    }
}

// ---------------------------------------------------------------------
// Attaching a feed to OBS
// ---------------------------------------------------------------------

/// A call that attaches a feed.
#[derive(Clone, Copy, PartialEq, Eq, Structural, Debug)]
pub enum AttachCall {
    /// `obs_get_video_info`; yes: the main mix's settings.
    GetVideoInfo,
    /// Notes `main mix` as the feed's source.
    NameMainMix,
    /// `obs_add_raw_video_callback2` with the conversion of `raw_conversion`.
    AddRaw(u32, u32),
    /// `obs_view_create`; yes: the view.
    CreateView,
    /// The source to show, where there is one: for Preview
    /// `obs_frontend_get_current_preview_scene`, for Program
    /// `obs_get_output_source` of channel 0; yes: with a reference.
    WantedSource(Which),
    /// `obs_view_set_source` of channel 0, to that source or to none.
    SetSource,
    /// Notes the source's name as the feed's source; no source has no name.
    ReadSourceName,
    /// `obs_source_release` of that source.
    ReleaseSource,
    /// `obs_view_add2` with the settings of `small_ovi`; yes: the mix.
    AddMix(u32, u32),
    /// Offers the feed's state, then `obs_output_create`, whose callback
    /// takes the offer; yes: the output.
    CreateOutput(Which),
    /// Takes the offer back; yes: the callback has taken it before.
    TakeBackOffer,
    /// `obs_output_set_media` of the output, to the mix.
    SetMedia,
    /// `obs_output_start`; yes: it has started.
    StartOutput,
    /// `obs_output_get_last_error` of the output.
    ReadLastError,
}

/// What stopped a feed from being attached.
#[derive(Clone, Copy, PartialEq, Eq, Structural, Debug)]
pub enum AttachFault {
    RawMissing,
    NotRegistered,
    ViewMissing,
    OutputMissing,
    VideoInfoMissing,
    NoVideo,
    NoView,
    NoMix,
    NoOutput,
    NotTaken,
    NotStarted,
}

/// What libobs offers, and whether the feed's output type is registered.
#[derive(Clone, Copy, PartialEq, Eq, Structural, Debug)]
pub struct AttachSymbols {
    pub output_type: bool,
    pub raw_callback: bool,
    pub video_info: bool,
    /// `obs_view_create`, `obs_view_set_source` and `obs_view_add2`.
    pub view: bool,
    /// `obs_output_create`, `obs_output_set_media` and `obs_output_start`.
    pub output: bool,
}

pub open spec fn attach_error_text(fault: AttachFault, last_error: Seq<char>) -> Seq<char> {
    match fault {
        AttachFault::RawMissing => "obs_add_raw_video_callback2 unavailable"@,
        AttachFault::NotRegistered => "output type not registered"@,
        AttachFault::ViewMissing => "obs_view_* unavailable"@,
        AttachFault::OutputMissing => "obs_output_* unavailable"@,
        AttachFault::VideoInfoMissing => "obs_get_video_info unavailable"@,
        AttachFault::NoVideo => "obs_get_video_info returned false (video not initialised)"@,
        AttachFault::NoView => "obs_view_create returned null"@,
        AttachFault::NoMix => "obs_view_add2 returned null"@,
        AttachFault::NoOutput => "obs_output_create returned null"@,
        AttachFault::NotTaken => "output create callback never ran"@,
        AttachFault::NotStarted => "obs_output_start failed: "@ + last_error,
    }
}

/// Why a feed could not be attached.
pub fn attach_error(fault: AttachFault, last_error: &str) -> (message: String)
    ensures
        message@ == attach_error_text(fault, last_error@),
        ({
            let last_error = last_error@;
            message@ == (match fault {
                AttachFault::RawMissing => "obs_add_raw_video_callback2 unavailable"@,
                AttachFault::NotRegistered => "output type not registered"@,
                AttachFault::ViewMissing => "obs_view_* unavailable"@,
                AttachFault::OutputMissing => "obs_output_* unavailable"@,
                AttachFault::VideoInfoMissing => "obs_get_video_info unavailable"@,
                AttachFault::NoVideo => "obs_get_video_info returned false (video not initialised)"@,
                AttachFault::NoView => "obs_view_create returned null"@,
                AttachFault::NoMix => "obs_view_add2 returned null"@,
                AttachFault::NoOutput => "obs_output_create returned null"@,
                AttachFault::NotTaken => "output create callback never ran"@,
                AttachFault::NotStarted => "obs_output_start failed: "@ + last_error,
            })
        }),
{
    match fault {
        AttachFault::RawMissing => "obs_add_raw_video_callback2 unavailable".to_owned(),
        AttachFault::NotRegistered => "output type not registered".to_owned(),
        AttachFault::ViewMissing => "obs_view_* unavailable".to_owned(),
        AttachFault::OutputMissing => "obs_output_* unavailable".to_owned(),
        AttachFault::VideoInfoMissing => "obs_get_video_info unavailable".to_owned(),
        AttachFault::NoVideo => "obs_get_video_info returned false (video not initialised)".to_owned(),
        AttachFault::NoView => "obs_view_create returned null".to_owned(),
        AttachFault::NoMix => "obs_view_add2 returned null".to_owned(),
        AttachFault::NoOutput => "obs_output_create returned null".to_owned(),
        AttachFault::NotTaken => "output create callback never ran".to_owned(),
        AttachFault::NotStarted => text2("obs_output_start failed: ", last_error),
    }
}

/// The raw path: a callback on the main mix.
pub open spec fn raw_ops(symbols: AttachSymbols, width: u32, height: u32) -> Seq<Op<AttachCall, AttachFault>> {
    seq![
        Op::Need { met: symbols.raw_callback, fault: AttachFault::RawMissing },
        Op::Do { call: AttachCall::NameMainMix, when: When::Always },
        Op::Need { met: symbols.video_info, fault: AttachFault::VideoInfoMissing },
        Op::Do { call: AttachCall::GetVideoInfo, when: When::Always },
        Op::Require { answer: 3, fault: AttachFault::NoVideo },
        Op::Do { call: AttachCall::AddRaw(width, height), when: When::Always },
    ]
}

/// The view path: a view of its own shows the wanted source, its mix renders
/// and scales it, and an output on that mix hands the frames over.
pub open spec fn view_ops(
    symbols: AttachSymbols,
    which: Which,
    width: u32,
    height: u32,
) -> Seq<Op<AttachCall, AttachFault>> {
    seq![
        Op::Need { met: symbols.output_type, fault: AttachFault::NotRegistered },
        Op::Need { met: symbols.view, fault: AttachFault::ViewMissing },
        Op::Need { met: symbols.output, fault: AttachFault::OutputMissing },
        Op::Need { met: symbols.video_info, fault: AttachFault::VideoInfoMissing },
        Op::Do { call: AttachCall::GetVideoInfo, when: When::Always },
        Op::Require { answer: 4, fault: AttachFault::NoVideo },
        Op::Do { call: AttachCall::CreateView, when: When::Always },
        Op::Require { answer: 6, fault: AttachFault::NoView },
        Op::Do { call: AttachCall::WantedSource(which), when: When::Always },
        Op::Do { call: AttachCall::SetSource, when: When::Always },
        Op::Do { call: AttachCall::ReadSourceName, when: When::Always },
        Op::Do { call: AttachCall::ReleaseSource, when: When::If(8) },
        Op::Do { call: AttachCall::AddMix(width, height), when: When::Always },
        Op::Require { answer: 12, fault: AttachFault::NoMix },
        Op::Do { call: AttachCall::CreateOutput(which), when: When::Always },
        Op::Do { call: AttachCall::TakeBackOffer, when: When::Always },
        Op::Require { answer: 14, fault: AttachFault::NoOutput },
        Op::Require { answer: 15, fault: AttachFault::NotTaken },
        Op::Do { call: AttachCall::SetMedia, when: When::Always },
        Op::Do { call: AttachCall::StartOutput, when: When::Always },
        Op::Do { call: AttachCall::ReadLastError, when: When::Unless(19) },
        Op::Require { answer: 19, fault: AttachFault::NotStarted },
    ]
}

pub open spec fn attach_ops(symbols: AttachSymbols, which: Which, path: Path, width: u32, height: u32) -> Seq<
    Op<AttachCall, AttachFault>,
> {
    match path {
        Path::Raw => raw_ops(symbols, width, height),
        Path::View => view_ops(symbols, which, width, height),
    }
}

/// Hooks a feed into OBS.
pub fn attach(symbols: AttachSymbols, which: Which, path: Path, width: u32, height: u32) -> (plan: Plan<
    AttachCall,
    AttachFault,
>)
    ensures
        plan.fresh(attach_ops(symbols, which, path, width, height)),
{
    let ops: Vec<Op<AttachCall, AttachFault>> = match path {
        Path::Raw => vec![
            Op::Need { met: symbols.raw_callback, fault: AttachFault::RawMissing },
            Op::Do { call: AttachCall::NameMainMix, when: When::Always },
            Op::Need { met: symbols.video_info, fault: AttachFault::VideoInfoMissing },
            Op::Do { call: AttachCall::GetVideoInfo, when: When::Always },
            Op::Require { answer: 3, fault: AttachFault::NoVideo },
            Op::Do { call: AttachCall::AddRaw(width, height), when: When::Always },
        ],
        Path::View => vec![
            Op::Need { met: symbols.output_type, fault: AttachFault::NotRegistered },
            Op::Need { met: symbols.view, fault: AttachFault::ViewMissing },
            Op::Need { met: symbols.output, fault: AttachFault::OutputMissing },
            Op::Need { met: symbols.video_info, fault: AttachFault::VideoInfoMissing },
            Op::Do { call: AttachCall::GetVideoInfo, when: When::Always },
            Op::Require { answer: 4, fault: AttachFault::NoVideo },
            Op::Do { call: AttachCall::CreateView, when: When::Always },
            Op::Require { answer: 6, fault: AttachFault::NoView },
            Op::Do { call: AttachCall::WantedSource(which), when: When::Always },
            Op::Do { call: AttachCall::SetSource, when: When::Always },
            Op::Do { call: AttachCall::ReadSourceName, when: When::Always },
            Op::Do { call: AttachCall::ReleaseSource, when: When::If(8) },
            Op::Do { call: AttachCall::AddMix(width, height), when: When::Always },
            Op::Require { answer: 12, fault: AttachFault::NoMix },
            Op::Do { call: AttachCall::CreateOutput(which), when: When::Always },
            Op::Do { call: AttachCall::TakeBackOffer, when: When::Always },
            Op::Require { answer: 14, fault: AttachFault::NoOutput },
            Op::Require { answer: 15, fault: AttachFault::NotTaken },
            Op::Do { call: AttachCall::SetMedia, when: When::Always },
            Op::Do { call: AttachCall::StartOutput, when: When::Always },
            Op::Do { call: AttachCall::ReadLastError, when: When::Unless(19) },
            Op::Require { answer: 19, fault: AttachFault::NotStarted },
        ],
    };
    assert(ops@ =~= attach_ops(symbols, which, path, width, height));
    Plan::new(ops)
}

/// What stops a feed on the raw path.
pub open spec fn raw_fault(symbols: AttachSymbols, host: spec_fn(int) -> bool) -> Option<AttachFault> {
    if !symbols.raw_callback {
        Some(AttachFault::RawMissing)
    } else if !symbols.video_info {
        Some(AttachFault::VideoInfoMissing)
    } else if !host(3) {
        Some(AttachFault::NoVideo)
    } else {
        None
    }
}

/// What stops a feed on the view path.
pub open spec fn view_fault(symbols: AttachSymbols, host: spec_fn(int) -> bool) -> Option<AttachFault> {
    if !symbols.output_type {
        Some(AttachFault::NotRegistered)
    } else if !symbols.view {
        Some(AttachFault::ViewMissing)
    } else if !symbols.output {
        Some(AttachFault::OutputMissing)
    } else if !symbols.video_info {
        Some(AttachFault::VideoInfoMissing)
    } else if !host(4) {
        Some(AttachFault::NoVideo)
    } else if !host(6) {
        Some(AttachFault::NoView)
    } else if !host(12) {
        Some(AttachFault::NoMix)
    } else if !host(14) {
        Some(AttachFault::NoOutput)
    } else if !host(15) {
        Some(AttachFault::NotTaken)
    } else if !host(19) {
        Some(AttachFault::NotStarted)
    } else {
        None
    }
}

/// What a feed holds of OBS.
#[derive(Clone, Copy, PartialEq, Eq, Structural, Debug)]
pub struct Held {
    pub view: bool,
    pub output: bool,
    pub raw_connected: bool,
}

pub open spec fn nothing_held() -> Held {
    Held { view: false, output: false, raw_connected: false }
}

/// What a feed holds after one more call.
pub open spec fn held_with(held: Held, call: AttachCall, answer: bool) -> Held {
    match call {
        AttachCall::CreateView => Held { view: answer, ..held },
        AttachCall::CreateOutput(_) => Held { output: answer, ..held },
        AttachCall::AddRaw(_, _) => Held { raw_connected: true, ..held },
        _ => held,
    }
}

/// What a feed that held `held` holds after the calls.
pub open spec fn held_after(held: Held, calls: Seq<(AttachCall, bool)>) -> Held
    decreases calls.len(),
{
    if calls.len() == 0 {
        held
    } else {
        held_after(held_with(held, calls[0].0, calls[0].1), calls.drop_first())
    }
}

impl Held {
    pub fn new() -> (held: Self)
        ensures
            held == nothing_held(),
            !held.view && !held.output && !held.raw_connected,
    {
        Held { view: false, output: false, raw_connected: false }
    }

    /// Notes what a call has left the feed with.
    pub fn note(&mut self, call: AttachCall, answer: bool)
        ensures
            *final(self) == held_with(*old(self), call, answer),
            final(self).view == (if call == AttachCall::CreateView {
                answer
            } else {
                old(self).view
            }),
            final(self).output == (if call is CreateOutput {
                answer
            } else {
                old(self).output
            }),
            final(self).raw_connected == (call is AddRaw || old(self).raw_connected),
    {
        match call {
            AttachCall::CreateView => {
                self.view = answer;
            },
            AttachCall::CreateOutput(_) => {
                self.output = answer;
            },
            AttachCall::AddRaw(_, _) => {
                self.raw_connected = true;
            },
            _ => {},
        }
    }
}

/// One more call in front is noted first.
proof fn every_call_is_noted()
    ensures
        forall|held: Held, call: AttachCall, answer: bool, rest: crate::plan::Course<AttachCall, AttachFault>| #[trigger]
            held_after(held, crate::plan::after_call(call, answer, rest).calls) == held_after(
                held_with(held, call, answer),
                rest.calls,
            ),
{
    assert forall|held: Held, call: AttachCall, answer: bool, rest: crate::plan::Course<AttachCall, AttachFault>|
        #[trigger]
        held_after(held, crate::plan::after_call(call, answer, rest).calls) == held_after(
            held_with(held, call, answer),
            rest.calls,
        ) by {
        assert(crate::plan::after_call(call, answer, rest).calls.drop_first() =~= rest.calls);
    }
}

/// What a call does to the references held to sources.
pub open spec fn source_references(call: (AttachCall, bool)) -> int {
    match call.0 {
        AttachCall::WantedSource(_) => if call.1 {
            1
        } else {
            0
        },
        AttachCall::ReleaseSource => -1,
        _ => 0,
    }
}

/// How attaching goes on the raw path: it stops at the first thing that is
/// missing, and is connected exactly if nothing was.
pub proof fn how_a_feed_attaches_raw(symbols: AttachSymbols, width: u32, height: u32, host: spec_fn(int) -> bool)
    ensures
        crate::plan::whole_course(raw_ops(symbols, width, height), host).fault == raw_fault(symbols, host),
        held_after(nothing_held(), crate::plan::whole_course(raw_ops(symbols, width, height), host).calls) == (Held {
            raw_connected: raw_fault(symbols, host) is None,
            ..nothing_held()
        }),
{
    every_call_is_noted();
    crate::plan::every_step(raw_ops(symbols, width, height), host);
}

/// How attaching goes on the raw path, call by call.
pub proof fn the_calls_of_the_raw_path(symbols: AttachSymbols, width: u32, height: u32, host: spec_fn(int) -> bool)
    ensures
        ({
            let course = crate::plan::whole_course(raw_ops(symbols, width, height), host);
            if !symbols.raw_callback {
                course.calls.len() == 0 && course.fault == Some(AttachFault::RawMissing)
            } else if !symbols.video_info {
                &&& course.calls == seq![(AttachCall::NameMainMix, host(1))]
                &&& course.fault == Some(AttachFault::VideoInfoMissing)
            } else if !host(3) {
                &&& course.calls == seq![(AttachCall::NameMainMix, host(1)), (AttachCall::GetVideoInfo, false)]
                &&& course.fault == Some(AttachFault::NoVideo)
            } else {
                &&& course.calls == seq![
                    (AttachCall::NameMainMix, host(1)),
                    (AttachCall::GetVideoInfo, true),
                    (AttachCall::AddRaw(width, height), host(5)),
                ]
                &&& course.fault is None
            }
        }),
{
    let course = crate::plan::whole_course(raw_ops(symbols, width, height), host);
    crate::plan::every_step(raw_ops(symbols, width, height), host);
    if symbols.raw_callback && symbols.video_info && host(3) {
        assert(course.calls =~= seq![
            (AttachCall::NameMainMix, host(1)),
            (AttachCall::GetVideoInfo, true),
            (AttachCall::AddRaw(width, height), host(5)),
        ]);
    } else if symbols.raw_callback && symbols.video_info {
        assert(course.calls =~= seq![(AttachCall::NameMainMix, host(1)), (AttachCall::GetVideoInfo, false)]);
    } else if symbols.raw_callback {
        assert(course.calls =~= seq![(AttachCall::NameMainMix, host(1))]);
    }
}

/// How attaching goes on once the view shows its source.
proof fn the_calls_from_the_mix_on(
    symbols: AttachSymbols,
    which: Which,
    width: u32,
    height: u32,
    host: spec_fn(int) -> bool,
)
    ensures
        ({
            let rest = crate::plan::course(view_ops(symbols, which, width, height), host, 12).calls;
            let made = seq![
                (AttachCall::AddMix(width, height), true),
                (AttachCall::CreateOutput(which), host(14)),
                (AttachCall::TakeBackOffer, host(15)),
            ];
            if !host(12) {
                rest == seq![(AttachCall::AddMix(width, height), false)]
            } else if !host(14) || !host(15) {
                rest == made
            } else if host(19) {
                rest == made + seq![(AttachCall::SetMedia, host(18)), (AttachCall::StartOutput, true)]
            } else {
                rest == made + seq![
                    (AttachCall::SetMedia, host(18)),
                    (AttachCall::StartOutput, false),
                    (AttachCall::ReadLastError, host(20)),
                ]
            }
        }),
{
    let ops = view_ops(symbols, which, width, height);
    let rest = crate::plan::course(ops, host, 12).calls;
    crate::plan::every_step(ops, host);
    let made = seq![
        (AttachCall::AddMix(width, height), true),
        (AttachCall::CreateOutput(which), host(14)),
        (AttachCall::TakeBackOffer, host(15)),
    ];
    if !host(12) {
        assert(rest =~= seq![(AttachCall::AddMix(width, height), false)]);
    } else if !host(14) || !host(15) {
        assert(rest =~= made);
    } else if host(19) {
        assert(rest =~= made + seq![(AttachCall::SetMedia, host(18)), (AttachCall::StartOutput, true)]);
    } else {
        assert(rest =~= made + seq![
            (AttachCall::SetMedia, host(18)),
            (AttachCall::StartOutput, false),
            (AttachCall::ReadLastError, host(20)),
        ]);
    }
}

/// How attaching goes until the view shows its source.
proof fn the_calls_up_to_the_mix(
    symbols: AttachSymbols,
    which: Which,
    width: u32,
    height: u32,
    host: spec_fn(int) -> bool,
)
    ensures
        ({
            let course = crate::plan::whole_course(view_ops(symbols, which, width, height), host);
            let rest = crate::plan::course(view_ops(symbols, which, width, height), host, 12);
            if !symbols.output_type || !symbols.view || !symbols.output || !symbols.video_info {
                course.calls.len() == 0
            } else if !host(4) {
                course.calls == seq![(AttachCall::GetVideoInfo, false)]
            } else if !host(6) {
                course.calls == seq![(AttachCall::GetVideoInfo, true), (AttachCall::CreateView, false)]
            } else {
                course.calls == seq![
                    (AttachCall::GetVideoInfo, true),
                    (AttachCall::CreateView, true),
                    (AttachCall::WantedSource(which), host(8)),
                    (AttachCall::SetSource, host(9)),
                    (AttachCall::ReadSourceName, host(10)),
                ] + (if host(8) {
                    seq![(AttachCall::ReleaseSource, host(11))]
                } else {
                    Seq::empty()
                }) + rest.calls
            }
        }),
{
    let ops = view_ops(symbols, which, width, height);
    let course = crate::plan::whole_course(ops, host);
    let rest = crate::plan::course(ops, host, 12);
    crate::plan::step(ops, host, 0);
    crate::plan::step(ops, host, 1);
    crate::plan::step(ops, host, 2);
    crate::plan::step(ops, host, 3);
    crate::plan::step(ops, host, 4);
    crate::plan::step(ops, host, 5);
    crate::plan::step(ops, host, 6);
    crate::plan::step(ops, host, 7);
    crate::plan::step(ops, host, 8);
    crate::plan::step(ops, host, 9);
    crate::plan::step(ops, host, 10);
    crate::plan::step(ops, host, 11);
    if symbols.output_type && symbols.view && symbols.output && symbols.video_info {
        if !host(4) {
            assert(course.calls =~= seq![(AttachCall::GetVideoInfo, false)]);
        } else if !host(6) {
            assert(course.calls =~= seq![(AttachCall::GetVideoInfo, true), (AttachCall::CreateView, false)]);
        } else if host(8) {
            assert(course.calls =~= seq![
                (AttachCall::GetVideoInfo, true),
                (AttachCall::CreateView, true),
                (AttachCall::WantedSource(which), true),
                (AttachCall::SetSource, host(9)),
                (AttachCall::ReadSourceName, host(10)),
            ] + seq![(AttachCall::ReleaseSource, host(11))] + rest.calls);
        } else {
            assert(course.calls =~= seq![
                (AttachCall::GetVideoInfo, true),
                (AttachCall::CreateView, true),
                (AttachCall::WantedSource(which), false),
                (AttachCall::SetSource, host(9)),
                (AttachCall::ReadSourceName, host(10)),
            ] + Seq::empty() + rest.calls);
        }
    }
}

/// How attaching goes on the view path, call by call: the view shows the
/// wanted source, whose reference is given back, before its mix is added at
/// the size that is wanted; the output takes that mix before it starts.
pub proof fn the_calls_of_the_view_path(
    symbols: AttachSymbols,
    which: Which,
    width: u32,
    height: u32,
    host: spec_fn(int) -> bool,
)
    ensures
        ({
            let course = crate::plan::whole_course(view_ops(symbols, which, width, height), host);
            let shown = seq![
                (AttachCall::GetVideoInfo, true),
                (AttachCall::CreateView, true),
                (AttachCall::WantedSource(which), host(8)),
                (AttachCall::SetSource, host(9)),
                (AttachCall::ReadSourceName, host(10)),
            ] + (if host(8) {
                seq![(AttachCall::ReleaseSource, host(11))]
            } else {
                Seq::empty()
            }) + seq![(AttachCall::AddMix(width, height), host(12))];
            let made = shown + seq![(AttachCall::CreateOutput(which), host(14)), (AttachCall::TakeBackOffer, host(15))];
            if !symbols.output_type || !symbols.view || !symbols.output || !symbols.video_info {
                course.calls.len() == 0
            } else if !host(4) {
                course.calls == seq![(AttachCall::GetVideoInfo, false)]
            } else if !host(6) {
                course.calls == seq![(AttachCall::GetVideoInfo, true), (AttachCall::CreateView, false)]
            } else if !host(12) {
                course.calls == shown
            } else if !host(14) || !host(15) {
                course.calls == made
            } else if host(19) {
                course.calls == made + seq![(AttachCall::SetMedia, host(18)), (AttachCall::StartOutput, true)]
            } else {
                course.calls == made + seq![
                    (AttachCall::SetMedia, host(18)),
                    (AttachCall::StartOutput, false),
                    (AttachCall::ReadLastError, host(20)),
                ]
            }
        }),
        crate::plan::whole_course(view_ops(symbols, which, width, height), host).fault == (if !symbols.output_type {
            Some(AttachFault::NotRegistered)
        } else if !symbols.view {
            Some(AttachFault::ViewMissing)
        } else if !symbols.output {
            Some(AttachFault::OutputMissing)
        } else if !symbols.video_info {
            Some(AttachFault::VideoInfoMissing)
        } else if !host(4) {
            Some(AttachFault::NoVideo)
        } else if !host(6) {
            Some(AttachFault::NoView)
        } else if !host(12) {
            Some(AttachFault::NoMix)
        } else if !host(14) {
            Some(AttachFault::NoOutput)
        } else if !host(15) {
            Some(AttachFault::NotTaken)
        } else if !host(19) {
            Some(AttachFault::NotStarted)
        } else {
            None
        }),
{
    how_a_feed_attaches_a_view(symbols, which, width, height, host);
    the_calls_up_to_the_mix(symbols, which, width, height, host);
    the_calls_from_the_mix_on(symbols, which, width, height, host);
    let course = crate::plan::whole_course(view_ops(symbols, which, width, height), host);
    let shown = seq![
        (AttachCall::GetVideoInfo, true),
        (AttachCall::CreateView, true),
        (AttachCall::WantedSource(which), host(8)),
        (AttachCall::SetSource, host(9)),
        (AttachCall::ReadSourceName, host(10)),
    ] + (if host(8) {
        seq![(AttachCall::ReleaseSource, host(11))]
    } else {
        Seq::empty()
    }) + seq![(AttachCall::AddMix(width, height), host(12))];
    let made = shown + seq![(AttachCall::CreateOutput(which), host(14)), (AttachCall::TakeBackOffer, host(15))];
    if symbols.output_type && symbols.view && symbols.output && symbols.video_info && host(4) && host(6) {
        if !host(12) {
            assert(course.calls =~= shown);
        } else if !host(14) || !host(15) {
            assert(course.calls =~= made);
        } else if host(19) {
            assert(course.calls =~= made + seq![(AttachCall::SetMedia, host(18)), (AttachCall::StartOutput, true)]);
        } else {
            assert(course.calls =~= made + seq![
                (AttachCall::SetMedia, host(18)),
                (AttachCall::StartOutput, false),
                (AttachCall::ReadLastError, host(20)),
            ]);
        }
    }
}

/// A feed attaches on the path it is wanted on, at the size it is wanted.
pub proof fn a_feed_attaches_on_its_path(symbols: AttachSymbols, which: Which, width: u32, height: u32)
    ensures
        attach_ops(symbols, which, Path::Raw, width, height) == raw_ops(symbols, width, height),
        attach_ops(symbols, which, Path::View, width, height) == view_ops(symbols, which, width, height),
{
}

/// How attaching goes on the view path: it stops at the first thing that is
/// missing. Whatever was made by then is held, the wanted source's reference
/// has been given back, and the output runs exactly if nothing was missing.
pub proof fn how_a_feed_attaches_a_view(
    symbols: AttachSymbols,
    which: Which,
    width: u32,
    height: u32,
    host: spec_fn(int) -> bool,
)
    ensures
        ({
            let course = crate::plan::whole_course(view_ops(symbols, which, width, height), host);
            let ready = symbols.output_type && symbols.view && symbols.output && symbols.video_info && host(4);
            &&& course.fault == view_fault(symbols, host)
            &&& held_after(nothing_held(), course.calls) == (Held {
                view: ready && host(6),
                output: ready && host(6) && host(12) && host(14),
                raw_connected: false,
            })
            &&& crate::plan::balance(course.calls, |call: (AttachCall, bool)| source_references(call)) == 0
            &&& course.fault is None ==> held_after(nothing_held(), course.calls) == (Held {
                view: true,
                output: true,
                raw_connected: false,
            })
        }),
{
    every_call_is_noted();
    crate::plan::every_step(view_ops(symbols, which, width, height), host);
}

// ---------------------------------------------------------------------
// Taking a feed down
// ---------------------------------------------------------------------

/// A call that takes a feed down.
#[derive(Clone, Copy, PartialEq, Eq, Structural, Debug)]
pub enum TeardownCall {
    /// The feed takes no more frames.
    StopRunning,
    /// `obs_remove_raw_video_callback`.
    RemoveRaw,
    /// `obs_output_stop`.
    StopOutput,
    /// `obs_output_release`: the last reference.
    ReleaseOutput,
    /// `obs_view_remove`.
    RemoveView,
    /// `obs_view_destroy`.
    DestroyView,
    /// Wakes the sending thread.
    WakeWorker,
    /// Waits until the sending thread has ended.
    JoinWorker,
}

/// What libobs offers for taking a feed down.
#[derive(Clone, Copy, PartialEq, Eq, Structural, Debug)]
pub struct TeardownSymbols {
    pub remove_raw: bool,
    pub output_stop: bool,
    pub output_release: bool,
    pub view_remove: bool,
    pub view_destroy: bool,
}

/// Whether taking down a feed that holds `held` makes a call.
pub open spec fn takes_down(symbols: TeardownSymbols, held: Held, call: TeardownCall) -> bool {
    match call {
        TeardownCall::StopRunning | TeardownCall::WakeWorker | TeardownCall::JoinWorker => true,
        TeardownCall::RemoveRaw => held.raw_connected && symbols.remove_raw,
        TeardownCall::StopOutput => held.output && symbols.output_stop,
        TeardownCall::ReleaseOutput => held.output && symbols.output_release,
        TeardownCall::RemoveView => held.view && symbols.view_remove,
        TeardownCall::DestroyView => held.view && symbols.view_destroy,
    }
}

/// The place of a call in the order: frames are stopped at their source, the
/// view is taken out of the render loop and destroyed, then the sending
/// thread ends.
pub open spec fn teardown_rank(call: TeardownCall) -> int {
    match call {
        TeardownCall::StopRunning => 0,
        TeardownCall::RemoveRaw => 1,
        TeardownCall::StopOutput => 2,
        TeardownCall::ReleaseOutput => 3,
        TeardownCall::RemoveView => 4,
        TeardownCall::DestroyView => 5,
        TeardownCall::WakeWorker => 6,
        TeardownCall::JoinWorker => 7,
    }
}

/// The calls that take a feed down: exactly those that undo what it holds,
/// each once, in order.
pub fn teardown(symbols: TeardownSymbols, held: Held) -> (calls: Vec<TeardownCall>)
    ensures
        forall|call: TeardownCall| #[trigger] calls@.contains(call) <==> takes_down(symbols, held, call),
        forall|i: int, j: int|
            0 <= i < j < calls@.len() ==> teardown_rank(
                #[trigger] calls@[i],
            ) < teardown_rank(#[trigger] calls@[j]),
        calls@ == seq![TeardownCall::StopRunning] + (if held.raw_connected && symbols.remove_raw {
            seq![TeardownCall::RemoveRaw]
        } else {
            Seq::empty()
        }) + (if held.output && symbols.output_stop {
            seq![TeardownCall::StopOutput]
        } else {
            Seq::empty()
        }) + (if held.output && symbols.output_release {
            seq![TeardownCall::ReleaseOutput]
        } else {
            Seq::empty()
        }) + (if held.view && symbols.view_remove {
            seq![TeardownCall::RemoveView]
        } else {
            Seq::empty()
        }) + (if held.view && symbols.view_destroy {
            seq![TeardownCall::DestroyView]
        } else {
            Seq::empty()
        }) + seq![TeardownCall::WakeWorker, TeardownCall::JoinWorker],
{
    let mut calls: Vec<TeardownCall> = Vec::new();
    push_call(&mut calls, TeardownCall::StopRunning, true);
    push_call(&mut calls, TeardownCall::RemoveRaw, held.raw_connected && symbols.remove_raw);
    push_call(&mut calls, TeardownCall::StopOutput, held.output && symbols.output_stop);
    push_call(&mut calls, TeardownCall::ReleaseOutput, held.output && symbols.output_release);
    push_call(&mut calls, TeardownCall::RemoveView, held.view && symbols.view_remove);
    push_call(&mut calls, TeardownCall::DestroyView, held.view && symbols.view_destroy);
    push_call(&mut calls, TeardownCall::WakeWorker, true);
    push_call(&mut calls, TeardownCall::JoinWorker, true);
    assert(calls@ =~= seq![TeardownCall::StopRunning] + (if held.raw_connected && symbols.remove_raw {
        seq![TeardownCall::RemoveRaw]
    } else {
        Seq::empty()
    }) + (if held.output && symbols.output_stop {
        seq![TeardownCall::StopOutput]
    } else {
        Seq::empty()
    }) + (if held.output && symbols.output_release {
        seq![TeardownCall::ReleaseOutput]
    } else {
        Seq::empty()
    }) + (if held.view && symbols.view_remove {
        seq![TeardownCall::RemoveView]
    } else {
        Seq::empty()
    }) + (if held.view && symbols.view_destroy {
        seq![TeardownCall::DestroyView]
    } else {
        Seq::empty()
    }) + seq![TeardownCall::WakeWorker, TeardownCall::JoinWorker]);
    calls
}

/// The calls are in order, and all come before the place `rank`.
spec fn in_order(calls: Seq<TeardownCall>, rank: int) -> bool {
    &&& forall|i: int| 0 <= i < calls.len() ==> teardown_rank(#[trigger] calls[i]) < rank
    &&& forall|i: int, j: int|
        0 <= i < j < calls.len() ==> teardown_rank(#[trigger] calls[i]) < teardown_rank(#[trigger] calls[j])
}

fn push_call(calls: &mut Vec<TeardownCall>, call: TeardownCall, due: bool)
    requires
        in_order(old(calls)@, teardown_rank(call)),
    ensures
        in_order(final(calls)@, teardown_rank(call) + 1),
        forall|c: TeardownCall| #[trigger]
            final(calls)@.contains(c) <==> old(calls)@.contains(c) || (c == call && due),
        final(calls)@ == old(calls)@ + (if due {
            seq![call]
        } else {
            Seq::empty()
        }),
{
    if due {
        let ghost before = calls@;
        calls.push(call);
        assert forall|c: TeardownCall| #[trigger] calls@.contains(c) <==> before.contains(c) || c == call by {
            if before.contains(c) {
                let k = choose|k: int| 0 <= k < before.len() && before[k] == c;
                assert(calls@[k] == c);
            }
            assert(calls@[before.len() as int] == call);
            if calls@.contains(c) && c != call {
                let k = choose|k: int| 0 <= k < calls@.len() && calls@[k] == c;
                assert(before[k] == c);
            }
        }
    }
}

/// A call that starts the feed's output.
#[derive(Clone, Copy, PartialEq, Eq, Structural, Debug)]
pub enum OutputStartCall {
    /// `obs_output_can_begin_data_capture`; yes: it can.
    CanBegin,
    /// `obs_output_begin_data_capture`; yes: it has begun.
    Begin,
}

/// Why the output did not start.
#[derive(Clone, Copy, PartialEq, Eq, Structural, Debug)]
pub enum OutputStartFault {
    NoData,
    SymbolMissing,
    CannotBegin,
    NotBegun,
}

pub open spec fn output_start_ops(data: bool, symbols: bool) -> Seq<Op<OutputStartCall, OutputStartFault>> {
    seq![
        Op::Need { met: data, fault: OutputStartFault::NoData },
        Op::Need { met: symbols, fault: OutputStartFault::SymbolMissing },
        Op::Do { call: OutputStartCall::CanBegin, when: When::Always },
        Op::Require { answer: 2, fault: OutputStartFault::CannotBegin },
        Op::Do { call: OutputStartCall::Begin, when: When::Always },
        Op::Require { answer: 4, fault: OutputStartFault::NotBegun },
    ]
}

/// Starts the capture of the feed's output; the output has started where the
/// plan stops at nothing. `data`: it was created for a feed.
pub fn output_start(data: bool, symbols: bool) -> (plan: Plan<OutputStartCall, OutputStartFault>)
    ensures
        plan.fresh(output_start_ops(data, symbols)),
{
    let ops: Vec<Op<OutputStartCall, OutputStartFault>> = vec![
        Op::Need { met: data, fault: OutputStartFault::NoData },
        Op::Need { met: symbols, fault: OutputStartFault::SymbolMissing },
        Op::Do { call: OutputStartCall::CanBegin, when: When::Always },
        Op::Require { answer: 2, fault: OutputStartFault::CannotBegin },
        Op::Do { call: OutputStartCall::Begin, when: When::Always },
        Op::Require { answer: 4, fault: OutputStartFault::NotBegun },
    ];
    assert(ops@ =~= output_start_ops(data, symbols));
    Plan::new(ops)
}

/// How the output starts.
pub open spec fn output_start_course(data: bool, symbols: bool, host: spec_fn(int) -> bool) -> crate::plan::Course<
    OutputStartCall,
    OutputStartFault,
> {
    if !data {
        crate::plan::stopped(Some(OutputStartFault::NoData))
    } else if !symbols {
        crate::plan::stopped(Some(OutputStartFault::SymbolMissing))
    } else if !host(2) {
        crate::plan::Course {
            calls: seq![
                (OutputStartCall::CanBegin, false),
            ],
            fault: Some(OutputStartFault::CannotBegin),
        }
    } else if !host(4) {
        crate::plan::Course {
            calls: seq![
                (OutputStartCall::CanBegin, true),
                (OutputStartCall::Begin, false),
            ],
            fault: Some(OutputStartFault::NotBegun),
        }
    } else {
        crate::plan::Course {
            calls: seq![
                (OutputStartCall::CanBegin, true),
                (OutputStartCall::Begin, true),
            ],
            fault: None,
        }
    }
}

/// Capture is begun only where libobs says it can be.
pub proof fn how_the_output_starts(data: bool, symbols: bool, host: spec_fn(int) -> bool)
    ensures
        crate::plan::whole_course(
            output_start_ops(data, symbols),
            host,
        ) == output_start_course(data, symbols, host),
        crate::plan::whole_course(output_start_ops(data, symbols), host) == (if !data {
            crate::plan::stopped(Some(OutputStartFault::NoData))
        } else if !symbols {
            crate::plan::stopped(Some(OutputStartFault::SymbolMissing))
        } else if !host(2) {
            crate::plan::Course {
                calls: seq![
                    (OutputStartCall::CanBegin, false),
                ],
                fault: Some(OutputStartFault::CannotBegin),
            }
        } else if !host(4) {
            crate::plan::Course {
                calls: seq![
                    (OutputStartCall::CanBegin, true),
                    (OutputStartCall::Begin, false),
                ],
                fault: Some(OutputStartFault::NotBegun),
            }
        } else {
            crate::plan::Course {
                calls: seq![
                    (OutputStartCall::CanBegin, true),
                    (OutputStartCall::Begin, true),
                ],
                fault: None,
            }
        }),
{
    let ops = output_start_ops(data, symbols);
    crate::plan::every_step(ops, host);
    assert(crate::plan::whole_course(ops, host) =~= output_start_course(data, symbols, host));
}

// ---------------------------------------------------------------------
// Starting a feed
// ---------------------------------------------------------------------

/// What a feed is, once started.
#[derive(Clone, Copy, PartialEq, Eq, Structural, Debug)]
pub struct FeedSettings {
    pub which: Which,
    pub path: Path,
    pub transport: Transport,
    pub width: u32,
    pub height: u32,
    pub fps_num: u32,
    pub fps_den: u32,
}

pub open spec fn positive(n: u32) -> u32 {
    if n == 0 {
        1
    } else {
        n
    }
}

pub open spec fn settings_of(which: Which, wanted: Wanted, main: ObsVideoInfo) -> FeedSettings {
    FeedSettings {
        which,
        path: wanted.path,
        transport: wanted.transport,
        width: wanted.width,
        height: wanted.height,
        fps_num: positive(main.fps_num),
        fps_den: positive(main.fps_den),
    }
}

/// The settings of a feed that is wanted, at the main mix's frame rate.
pub fn feed_settings(which: Which, wanted: Wanted, main: ObsVideoInfo) -> (settings: FeedSettings)
    ensures
        settings == settings_of(which, wanted, main),
        settings.which == which && settings.path == wanted.path && settings.transport == wanted.transport,
        settings.width == wanted.width && settings.height == wanted.height,
        main.fps_num > 0 ==> settings.fps_num == main.fps_num,
        main.fps_den > 0 ==> settings.fps_den == main.fps_den,
        main.fps_num == 0 ==> settings.fps_num == 1,
        main.fps_den == 0 ==> settings.fps_den == 1,
{
    FeedSettings {
        which,
        path: wanted.path,
        transport: wanted.transport,
        width: wanted.width,
        height: wanted.height,
        fps_num: if main.fps_num == 0 {
            1
        } else {
            main.fps_num
        },
        fps_den: if main.fps_den == 0 {
            1
        } else {
            main.fps_den
        },
    }
}

/// A step of starting a feed.
#[derive(Clone, Copy, PartialEq, Eq, Structural, Debug)]
pub enum StartCall {
    /// `obs_get_video_info`; yes: the main mix's settings.
    GetVideoInfo,
    /// Makes the ring (`feed_key`) or the NDI sender (`ndi_name`); yes: it is
    /// there.
    MakeTransport(Which, Transport),
    /// Starts the sending thread (`worker_name`); yes: it runs.
    SpawnWorker(Path),
    /// Carries out the plan of `attach`; yes: the feed is attached.
    Attach,
    /// Makes the calls of `teardown`.
    Teardown,
}

/// What stopped a feed from starting.
#[derive(Clone, Copy, PartialEq, Eq, Structural, Debug)]
pub enum StartFault {
    VideoInfoMissing,
    NoVideo,
    NoTransport,
    NoWorker,
    NotAttached,
}

pub open spec fn start_error_text(fault: StartFault, detail: Seq<char>) -> Seq<char> {
    match fault {
        StartFault::VideoInfoMissing => "obs_get_video_info unavailable"@,
        StartFault::NoVideo => "obs_get_video_info returned false (video not initialised)"@,
        StartFault::NoTransport => detail,
        StartFault::NoWorker => "spawning send worker failed: "@ + detail,
        StartFault::NotAttached => detail,
    }
}

/// Why a feed did not start; `detail` is what the failed step said.
pub fn start_error(fault: StartFault, detail: &str) -> (message: String)
    ensures
        message@ == start_error_text(fault, detail@),
        ({
            let detail = detail@;
            message@ == (match fault {
                StartFault::VideoInfoMissing => "obs_get_video_info unavailable"@,
                StartFault::NoVideo => "obs_get_video_info returned false (video not initialised)"@,
                StartFault::NoTransport => detail,
                StartFault::NoWorker => "spawning send worker failed: "@ + detail,
                StartFault::NotAttached => detail,
            })
        }),
{
    match fault {
        StartFault::VideoInfoMissing => "obs_get_video_info unavailable".to_owned(),
        StartFault::NoVideo => "obs_get_video_info returned false (video not initialised)".to_owned(),
        StartFault::NoTransport => detail.to_owned(),
        StartFault::NoWorker => text2("spawning send worker failed: ", detail),
        StartFault::NotAttached => detail.to_owned(),
    }
}

/// The name of a feed's sending thread.
pub fn worker_name(path: Path) -> (name: String)
    ensures
        name@ == "framesw-video-"@ + crate::feed::path_label(path),
        name@ == "framesw-video-"@ + (match path {
            Path::View => "view"@,
            Path::Raw => "raw"@,
        }),
{
    text2("framesw-video-", path.label())
}

pub open spec fn start_feed_ops(
    video_info: bool,
    which: Which,
    path: Path,
    transport: Transport,
) -> Seq<Op<StartCall, StartFault>> {
    seq![
        Op::Need { met: video_info, fault: StartFault::VideoInfoMissing },
        Op::Do { call: StartCall::GetVideoInfo, when: When::Always },
        Op::Require { answer: 1, fault: StartFault::NoVideo },
        Op::Do { call: StartCall::MakeTransport(which, transport), when: When::Always },
        Op::Require { answer: 3, fault: StartFault::NoTransport },
        Op::Do { call: StartCall::SpawnWorker(path), when: When::Always },
        Op::Require { answer: 5, fault: StartFault::NoWorker },
        Op::Do { call: StartCall::Attach, when: When::Always },
        Op::Do { call: StartCall::Teardown, when: When::Unless(7) },
        Op::Require { answer: 7, fault: StartFault::NotAttached },
    ]
}

/// Starts a feed. Whatever can fail without OBS's render loop fails before it
/// is touched, and a feed that cannot be attached is taken down again.
pub fn start_feed(
    video_info: bool,
    which: Which,
    path: Path,
    transport: Transport,
) -> (plan: Plan<StartCall, StartFault>)
    ensures
        plan.fresh(start_feed_ops(video_info, which, path, transport)),
{
    let ops: Vec<Op<StartCall, StartFault>> = vec![
        Op::Need { met: video_info, fault: StartFault::VideoInfoMissing },
        Op::Do { call: StartCall::GetVideoInfo, when: When::Always },
        Op::Require { answer: 1, fault: StartFault::NoVideo },
        Op::Do { call: StartCall::MakeTransport(which, transport), when: When::Always },
        Op::Require { answer: 3, fault: StartFault::NoTransport },
        Op::Do { call: StartCall::SpawnWorker(path), when: When::Always },
        Op::Require { answer: 5, fault: StartFault::NoWorker },
        Op::Do { call: StartCall::Attach, when: When::Always },
        Op::Do { call: StartCall::Teardown, when: When::Unless(7) },
        Op::Require { answer: 7, fault: StartFault::NotAttached },
    ];
    assert(ops@ =~= start_feed_ops(video_info, which, path, transport));
    Plan::new(ops)
}

/// How starting a feed goes.
pub open spec fn start_course(
    video_info: bool,
    which: Which,
    path: Path,
    transport: Transport,
    host: spec_fn(int) -> bool,
) -> crate::plan::Course<StartCall, StartFault> {
    if !video_info {
        crate::plan::stopped(Some(StartFault::VideoInfoMissing))
    } else if !host(1) {
        crate::plan::Course {
            calls: seq![
                (StartCall::GetVideoInfo, false),
            ],
            fault: Some(StartFault::NoVideo),
        }
    } else if !host(3) {
        crate::plan::Course {
            calls: seq![
                (StartCall::GetVideoInfo, true),
                (StartCall::MakeTransport(which, transport), false),
            ],
            fault: Some(StartFault::NoTransport),
        }
    } else if !host(5) {
        crate::plan::Course {
            calls: seq![
                (StartCall::GetVideoInfo, true),
                (StartCall::MakeTransport(which, transport), true),
                (StartCall::SpawnWorker(path), false),
            ],
            fault: Some(StartFault::NoWorker),
        }
    } else if !host(7) {
        crate::plan::Course {
            calls: seq![
                (StartCall::GetVideoInfo, true),
                (StartCall::MakeTransport(which, transport), true),
                (StartCall::SpawnWorker(path), true),
                (StartCall::Attach, false),
                (StartCall::Teardown, host(8)),
            ],
            fault: Some(StartFault::NotAttached),
        }
    } else {
        crate::plan::Course {
            calls: seq![
                (StartCall::GetVideoInfo, true),
                (StartCall::MakeTransport(which, transport), true),
                (StartCall::SpawnWorker(path), true),
                (StartCall::Attach, true),
            ],
            fault: None,
        }
    }
}

/// A feed never stays half attached: it is attached only once its transport
/// and its thread are there, and where attaching fails it is taken down.
pub proof fn a_feed_never_stays_half_attached(
    video_info: bool,
    which: Which,
    path: Path,
    transport: Transport,
    host: spec_fn(int) -> bool,
)
    ensures
        crate::plan::whole_course(start_feed_ops(video_info, which, path, transport), host) == start_course(
            video_info,
            which,
            path,
            transport,
            host,
        ),
        crate::plan::whole_course(start_feed_ops(video_info, which, path, transport), host) == (if !video_info {
            crate::plan::stopped(Some(StartFault::VideoInfoMissing))
        } else if !host(1) {
            crate::plan::Course {
                calls: seq![
                    (StartCall::GetVideoInfo, false),
                ],
                fault: Some(StartFault::NoVideo),
            }
        } else if !host(3) {
            crate::plan::Course {
                calls: seq![
                    (StartCall::GetVideoInfo, true),
                    (StartCall::MakeTransport(which, transport), false),
                ],
                fault: Some(StartFault::NoTransport),
            }
        } else if !host(5) {
            crate::plan::Course {
                calls: seq![
                    (StartCall::GetVideoInfo, true),
                    (StartCall::MakeTransport(which, transport), true),
                    (StartCall::SpawnWorker(path), false),
                ],
                fault: Some(StartFault::NoWorker),
            }
        } else if !host(7) {
            crate::plan::Course {
                calls: seq![
                    (StartCall::GetVideoInfo, true),
                    (StartCall::MakeTransport(which, transport), true),
                    (StartCall::SpawnWorker(path), true),
                    (StartCall::Attach, false),
                    (StartCall::Teardown, host(8)),
                ],
                fault: Some(StartFault::NotAttached),
            }
        } else {
            crate::plan::Course {
                calls: seq![
                    (StartCall::GetVideoInfo, true),
                    (StartCall::MakeTransport(which, transport), true),
                    (StartCall::SpawnWorker(path), true),
                    (StartCall::Attach, true),
                ],
                fault: None,
            }
        }),
{
    let ops = start_feed_ops(video_info, which, path, transport);
    crate::plan::every_step(ops, host);
    assert(crate::plan::whole_course(ops, host) =~= start_course(video_info, which, path, transport, host));
}

// ---------------------------------------------------------------------
// The feeds
// ---------------------------------------------------------------------

/// A running feed; the handle is the host's.
pub struct Feed<H> {
    pub settings: FeedSettings,
    pub handle: H,
}

/// Whether a running feed is what a request asks for.
pub open spec fn serves(settings: FeedSettings, wanted: Wanted) -> bool {
    &&& settings.path == wanted.path
    &&& settings.transport == wanted.transport
    &&& settings.width == wanted.width
    &&& settings.height == wanted.height
}

/// What a request does to one feed.
pub struct Change<H> {
    /// The feed to take down.
    pub stop: Option<Feed<H>>,
    /// Whether to start one.
    pub start: bool,
}

/// The two feeds, and what is known of OBS besides.
pub struct Feeds<H> {
    preview: Option<Feed<H>>,
    program: Option<Feed<H>>,
    watching: bool,
    exiting: bool,
    output_type: bool,
}

impl<H> Feeds<H> {
    /// The running feed.
    pub closed spec fn running(&self, which: Which) -> Option<Feed<H>> {
        match which {
            Which::Preview => self.preview,
            Which::Program => self.program,
        }
    }

    /// Whether frontend events are listened to.
    pub closed spec fn watching(&self) -> bool {
        self.watching
    }

    /// Whether OBS is exiting.
    pub closed spec fn exiting(&self) -> bool {
        self.exiting
    }

    /// Whether the output type is registered.
    pub closed spec fn output_type(&self) -> bool {
        self.output_type
    }

    /// Each feed carries the picture it stands for.
    pub open spec fn well_formed(&self) -> bool {
        &&& self.running(Which::Preview) matches Some(feed) ==> feed.settings.which == Which::Preview
        &&& self.running(Which::Program) matches Some(feed) ==> feed.settings.which == Which::Program
    }

    pub fn new() -> (feeds: Self)
        ensures
            feeds.well_formed(),
            forall|which: Which| #[trigger] feeds.running(which) is None,
            !feeds.watching(),
            !feeds.exiting(),
            !feeds.output_type(),
    {
        Feeds { preview: None, program: None, watching: false, exiting: false, output_type: false }
    }

    /// The running feed.
    pub fn feed(&self, which: Which) -> (feed: Option<&Feed<H>>)
        ensures
            match feed {
                Some(f) => self.running(which) == Some(*f),
                None => self.running(which) is None,
            },
    {
        match which {
            Which::Preview => self.preview.as_ref(),
            Which::Program => self.program.as_ref(),
        }
    }

    /// Whether OBS is exiting.
    pub fn is_exiting(&self) -> (exiting: bool)
        ensures
            exiting == self.exiting(),
    {
        self.exiting
    }

    /// Whether the output type is registered.
    pub fn has_output_type(&self) -> (registered: bool)
        ensures
            registered == self.output_type(),
    {
        self.output_type
    }

    /// Brings one feed nearer to what is wanted. A running feed that serves
    /// is left alone; any other is to be taken down before a new one starts.
    pub fn reconcile(&mut self, which: Which, wanted: Wanted) -> (change: Change<H>)
        requires
            old(self).well_formed(),
        ensures
            final(self).well_formed(),
            final(self).watching() == old(self).watching(),
            final(self).exiting() == old(self).exiting(),
            final(self).output_type() == old(self).output_type(),
            forall|other: Which| other != which ==> #[trigger] final(self).running(other) == old(self).running(other),
            ({
                let keep = wanted.on && (
                    old(self).running(which) matches Some(feed) && serves(feed.settings, wanted)
                );
                &&& keep ==> final(self).running(which) == old(self).running(which) && change.stop is None
                    && !change.start
                &&& !keep ==> final(self).running(which) is None && change.stop == old(self).running(which)
                    && change.start == wanted.on
            }),
    {
        let keep = match self.feed(which) {
            Some(feed) => feed.settings.path == wanted.path && feed.settings.transport == wanted.transport
                && feed.settings.width == wanted.width && feed.settings.height == wanted.height,
            None => false,
        };
        if wanted.on && keep {
            return Change { stop: None, start: false };
        }
        let stop = match which {
            Which::Preview => self.preview.take(),
            Which::Program => self.program.take(),
        };
        Change { stop, start: wanted.on }
    }

    /// Keeps a feed that has started.
    pub fn keep(&mut self, feed: Feed<H>)
        requires
            old(self).well_formed(),
            old(self).running(feed.settings.which) is None,
        ensures
            final(self).well_formed(),
            final(self).watching() == old(self).watching(),
            final(self).exiting() == old(self).exiting(),
            final(self).output_type() == old(self).output_type(),
            final(self).running(feed.settings.which) == Some(feed),
            forall|other: Which|
                other != feed.settings.which ==> #[trigger] final(self).running(other) == old(self).running(other),
    {
        match feed.settings.which {
            Which::Preview => {
                self.preview = Some(feed);
            },
            Which::Program => {
                self.program = Some(feed);
            },
        }
    }

    /// Whether to start or to stop listening to frontend events: they are
    /// listened to exactly while a feed runs. Yes with the new state, or
    /// nothing to do.
    pub fn watch(&mut self) -> (change: Option<bool>)
        ensures
            final(self).watching() == (old(self).running(Which::Preview) is Some || old(self).running(
                Which::Program,
            ) is Some),
            change == (if final(self).watching() == old(self).watching() {
                None::<bool>
            } else {
                Some(final(self).watching())
            }),
            final(self).exiting() == old(self).exiting(),
            final(self).output_type() == old(self).output_type(),
            forall|which: Which| #[trigger] final(self).running(which) == old(self).running(which),
            old(self).well_formed() ==> final(self).well_formed(),
    {
        let any = self.preview.is_some() || self.program.is_some();
        if any == self.watching {
            return None;
        }
        self.watching = any;
        Some(any)
    }

    /// Stops listening to frontend events; says whether they were listened
    /// to.
    pub fn unwatch(&mut self) -> (was: bool)
        ensures
            !final(self).watching(),
            was == old(self).watching(),
            final(self).exiting() == old(self).exiting(),
            final(self).output_type() == old(self).output_type(),
            forall|which: Which| #[trigger] final(self).running(which) == old(self).running(which),
            old(self).well_formed() ==> final(self).well_formed(),
    {
        let was = self.watching;
        self.watching = false;
        was
    }

    /// Notes that OBS is exiting.
    pub fn exit(&mut self)
        ensures
            final(self).exiting(),
            final(self).watching() == old(self).watching(),
            final(self).output_type() == old(self).output_type(),
            forall|which: Which| #[trigger] final(self).running(which) == old(self).running(which),
            old(self).well_formed() ==> final(self).well_formed(),
    {
        self.exiting = true;
    }
}

/// Registers the output type, where libobs can; says whether to.
pub fn register_output_type<H>(feeds: &mut Feeds<H>, available: bool) -> (register: bool)
    ensures
        register == available,
        final(feeds).output_type() == (old(feeds).output_type() || available),
        final(feeds).watching() == old(feeds).watching(),
        final(feeds).exiting() == old(feeds).exiting(),
        forall|which: Which| #[trigger] final(feeds).running(which) == old(feeds).running(which),
        old(feeds).well_formed() ==> final(feeds).well_formed(),
{
    if available {
        feeds.output_type = true;
    }
    available
}

/// Stops every feed: hands them out to be taken down, Preview first.
pub fn stop_all<H>(feeds: &mut Feeds<H>) -> (stopped: Vec<Feed<H>>)
    ensures
        final(feeds).well_formed(),
        forall|which: Which| #[trigger] final(feeds).running(which) is None,
        final(feeds).watching() == old(feeds).watching(),
        final(feeds).exiting() == old(feeds).exiting(),
        final(feeds).output_type() == old(feeds).output_type(),
        stopped@ == (match (old(feeds).running(Which::Preview), old(feeds).running(Which::Program)) {
            (Some(a), Some(b)) => seq![a, b],
            (Some(a), None) => seq![a],
            (None, Some(b)) => seq![b],
            (None, None) => Seq::empty(),
        }),
{
    let mut stopped: Vec<Feed<H>> = Vec::new();
    match feeds.preview.take() {
        Some(feed) => {
            stopped.push(feed);
        },
        None => {},
    }
    match feeds.program.take() {
        Some(feed) => {
            stopped.push(feed);
        },
        None => {},
    }
    stopped
}

/// A running feed serves what is wanted exactly if it has the path, the
/// transport and the size that are wanted.
pub proof fn when_a_feed_serves(settings: FeedSettings, wanted: Wanted)
    ensures
        serves(settings, wanted) <==> settings.path == wanted.path && settings.transport == wanted.transport
            && settings.width == wanted.width && settings.height == wanted.height,
{
}

/// A feed that was started for a request serves it: asking again changes
/// nothing.
pub proof fn a_repeated_request_changes_nothing(request: Request, which: Which, main: ObsVideoInfo)
    ensures
        serves(settings_of(which, wanted_of(request, which), main), wanted_of(request, which)),
        settings_of(which, wanted_of(request, which), main).which == which,
{
}

pub open spec fn apply_error_text(preview: Option<Seq<char>>, program: Option<Seq<char>>) -> Option<Seq<char>> {
    match (preview, program) {
        (None, None) => None,
        (Some(e), None) => Some("preview: "@ + e),
        (None, Some(e)) => Some("program: "@ + e),
        (Some(a), Some(b)) => Some("preview: "@ + a + "; program: "@ + b),
    }
}

/// The outcome of a request from those of its two feeds. While OBS exits no
/// request is applied.
pub fn apply(exiting: bool, preview: Option<String>, program: Option<String>) -> (outcome: Result<(), String>)
    ensures
        match outcome {
            Ok(_) => !exiting && preview is None && program is None,
            Err(message) => Some(message@) == (if exiting {
                Some("OBS is exiting"@)
            } else {
                apply_error_text(crate::text::name_of(preview), crate::text::name_of(program))
            }),
        },
        outcome is Ok <==> !exiting && preview is None && program is None,
        outcome matches Err(message) ==> message@ == (if exiting {
            "OBS is exiting"@
        } else if program is None {
            "preview: "@ + preview->0@
        } else if preview is None {
            "program: "@ + program->0@
        } else {
            "preview: "@ + preview->0@ + "; program: "@ + program->0@
        }),
{
    if exiting {
        return Err("OBS is exiting".to_owned());
    }
    match (preview, program) {
        (None, None) => Ok(()),
        (Some(e), None) => Err(text2("preview: ", e.as_str())),
        (None, Some(e)) => Err(text2("program: ", e.as_str())),
        (Some(a), Some(b)) => {
            let message = text5("preview: ", a.as_str(), "; program: ", b.as_str(), "");
            proof {
                reveal_strlit("");
                assert(message@ =~= "preview: "@ + a@ + "; program: "@ + b@);
            }
            Err(message)
        },
    }
}

// ---------------------------------------------------------------------
// Following OBS
// ---------------------------------------------------------------------

pub const EVENT_SCENE_CHANGED: i32 = 8;

pub const EVENT_TRANSITION_CHANGED: i32 = 10;

pub const EVENT_SCENE_COLLECTION_CHANGED: i32 = 13;

pub const EVENT_EXIT: i32 = 17;

pub const EVENT_STUDIO_MODE_ENABLED: i32 = 22;

pub const EVENT_STUDIO_MODE_DISABLED: i32 = 23;

pub const EVENT_PREVIEW_SCENE_CHANGED: i32 = 24;

pub const EVENT_SCENE_COLLECTION_CLEANUP: i32 = 25;

/// What a frontend event asks for.
#[derive(Clone, Copy, PartialEq, Eq, Structural, Debug)]
pub enum EventAction {
    /// OBS exits: no more requests, stop every feed, stop listening.
    Exit,
    /// Show nothing: the scenes are about to go.
    Clear,
    /// Show what each feed should show now.
    Refresh,
    Ignore,
}

pub open spec fn event_action(event: i32) -> EventAction {
    if event == EVENT_EXIT {
        EventAction::Exit
    } else if event == EVENT_SCENE_COLLECTION_CLEANUP {
        EventAction::Clear
    } else if seq![
        EVENT_PREVIEW_SCENE_CHANGED,
        EVENT_SCENE_CHANGED,
        EVENT_TRANSITION_CHANGED,
        EVENT_STUDIO_MODE_ENABLED,
        EVENT_STUDIO_MODE_DISABLED,
        EVENT_SCENE_COLLECTION_CHANGED,
    ].contains(event) {
        EventAction::Refresh
    } else {
        EventAction::Ignore
    }
}

/// What a frontend event asks for.
pub fn on_frontend_event(event: i32) -> (action: EventAction)
    ensures
        action == event_action(event),
        action == EventAction::Exit <==> event == 17,
        action == EventAction::Clear <==> event == 25,
        action == EventAction::Refresh <==> event == 8 || event == 10 || event == 13 || event == 22 || event == 23
            || event == 24,
{
    let ghost refreshing = seq![
        EVENT_PREVIEW_SCENE_CHANGED,
        EVENT_SCENE_CHANGED,
        EVENT_TRANSITION_CHANGED,
        EVENT_STUDIO_MODE_ENABLED,
        EVENT_STUDIO_MODE_DISABLED,
        EVENT_SCENE_COLLECTION_CHANGED,
    ];
    assert(refreshing[0] == EVENT_PREVIEW_SCENE_CHANGED);
    assert(refreshing[1] == EVENT_SCENE_CHANGED);
    assert(refreshing[2] == EVENT_TRANSITION_CHANGED);
    assert(refreshing[3] == EVENT_STUDIO_MODE_ENABLED);
    assert(refreshing[4] == EVENT_STUDIO_MODE_DISABLED);
    assert(refreshing[5] == EVENT_SCENE_COLLECTION_CHANGED);
    if event == EVENT_EXIT {
        EventAction::Exit
    } else if event == EVENT_SCENE_COLLECTION_CLEANUP {
        EventAction::Clear
    } else if event == EVENT_PREVIEW_SCENE_CHANGED || event == EVENT_SCENE_CHANGED || event
        == EVENT_TRANSITION_CHANGED || event == EVENT_STUDIO_MODE_ENABLED || event == EVENT_STUDIO_MODE_DISABLED
        || event == EVENT_SCENE_COLLECTION_CHANGED {
        EventAction::Refresh
    } else {
        EventAction::Ignore
    }
}

/// A call that brings a view up to date.
#[derive(Clone, Copy, PartialEq, Eq, Structural, Debug)]
pub enum RefreshCall {
    /// The source to show, as for `AttachCall::WantedSource`; yes: with a
    /// reference.
    WantedSource(Which),
    /// `obs_view_get_source`; yes: the source shown, with a reference.
    CurrentSource,
    /// Whether the two differ.
    Compare,
    /// `obs_source_release` of the source shown.
    ReleaseCurrent,
    /// `obs_view_set_source` to the wanted source, or to none.
    SetSource,
    /// Notes the wanted source's name as the feed's source.
    ReadSourceName,
    /// `obs_source_release` of the wanted source.
    ReleaseWanted,
}

/// Why a view is left as it is.
#[derive(Clone, Copy, PartialEq, Eq, Structural, Debug)]
pub enum RefreshFault {
    NoView,
    SymbolMissing,
}

/// Shows what the feed should show now, where it shows something else.
pub open spec fn follow_ops(view: bool, symbols: bool, which: Which) -> Seq<Op<RefreshCall, RefreshFault>> {
    seq![
        Op::Need { met: view, fault: RefreshFault::NoView },
        Op::Need { met: symbols, fault: RefreshFault::SymbolMissing },
        Op::Do { call: RefreshCall::WantedSource(which), when: When::Always },
        Op::Do { call: RefreshCall::CurrentSource, when: When::Always },
        Op::Do { call: RefreshCall::Compare, when: When::Always },
        Op::Do { call: RefreshCall::ReleaseCurrent, when: When::If(3) },
        Op::Do { call: RefreshCall::SetSource, when: When::If(4) },
        Op::Do { call: RefreshCall::ReadSourceName, when: When::If(4) },
        Op::Do { call: RefreshCall::ReleaseWanted, when: When::If(2) },
    ]
}

/// Shows nothing, where it shows something.
pub open spec fn clear_ops(view: bool, symbols: bool) -> Seq<Op<RefreshCall, RefreshFault>> {
    seq![
        Op::Need { met: view, fault: RefreshFault::NoView },
        Op::Need { met: symbols, fault: RefreshFault::SymbolMissing },
        Op::Do { call: RefreshCall::CurrentSource, when: When::Always },
        Op::Do { call: RefreshCall::ReleaseCurrent, when: When::If(2) },
        Op::Do { call: RefreshCall::SetSource, when: When::If(2) },
        Op::Do { call: RefreshCall::ReadSourceName, when: When::If(2) },
    ]
}

/// Brings a feed's view up to date: `view` where it has one, `symbols` where
/// libobs can read and set its source.
pub fn refresh_view(
    view: bool,
    symbols: bool,
    which: Which,
    clear: bool,
) -> (plan: Plan<RefreshCall, RefreshFault>)
    ensures
        plan.fresh(
            (if clear {
                clear_ops(view, symbols)
            } else {
                follow_ops(view, symbols, which)
            }),
        ),
{
    if clear {
        let ops: Vec<Op<RefreshCall, RefreshFault>> = vec![
            Op::Need { met: view, fault: RefreshFault::NoView },
            Op::Need { met: symbols, fault: RefreshFault::SymbolMissing },
            Op::Do { call: RefreshCall::CurrentSource, when: When::Always },
            Op::Do { call: RefreshCall::ReleaseCurrent, when: When::If(2) },
            Op::Do { call: RefreshCall::SetSource, when: When::If(2) },
            Op::Do { call: RefreshCall::ReadSourceName, when: When::If(2) },
        ];
        assert(ops@ =~= clear_ops(view, symbols));
        Plan::new(ops)
    } else {
        let ops: Vec<Op<RefreshCall, RefreshFault>> = vec![
            Op::Need { met: view, fault: RefreshFault::NoView },
            Op::Need { met: symbols, fault: RefreshFault::SymbolMissing },
            Op::Do { call: RefreshCall::WantedSource(which), when: When::Always },
            Op::Do { call: RefreshCall::CurrentSource, when: When::Always },
            Op::Do { call: RefreshCall::Compare, when: When::Always },
            Op::Do { call: RefreshCall::ReleaseCurrent, when: When::If(3) },
            Op::Do { call: RefreshCall::SetSource, when: When::If(4) },
            Op::Do { call: RefreshCall::ReadSourceName, when: When::If(4) },
            Op::Do { call: RefreshCall::ReleaseWanted, when: When::If(2) },
        ];
        assert(ops@ =~= follow_ops(view, symbols, which));
        Plan::new(ops)
    }
}

/// What a call does to the references held to sources.
pub open spec fn refresh_references(call: (RefreshCall, bool)) -> int {
    match call.0 {
        RefreshCall::WantedSource(_) | RefreshCall::CurrentSource => if call.1 {
            1
        } else {
            0
        },
        RefreshCall::ReleaseCurrent | RefreshCall::ReleaseWanted => -1,
        _ => 0,
    }
}

/// How a view is brought up to date, call by call.
pub proof fn how_a_view_follows(view: bool, symbols: bool, which: Which, host: spec_fn(int) -> bool)
    ensures
        ({
            let course = crate::plan::whole_course(follow_ops(view, symbols, which), host);
            &&& course.fault == (if !view {
                Some(RefreshFault::NoView)
            } else if !symbols {
                Some(RefreshFault::SymbolMissing)
            } else {
                None
            })
            &&& !(view && symbols) ==> course.calls.len() == 0
            &&& view && symbols ==> course.calls == seq![
                (RefreshCall::WantedSource(which), host(2)),
                (RefreshCall::CurrentSource, host(3)),
                (RefreshCall::Compare, host(4)),
            ] + (if host(3) {
                seq![(RefreshCall::ReleaseCurrent, host(5))]
            } else {
                Seq::empty()
            }) + (if host(4) {
                seq![(RefreshCall::SetSource, host(6)), (RefreshCall::ReadSourceName, host(7))]
            } else {
                Seq::empty()
            }) + (if host(2) {
                seq![(RefreshCall::ReleaseWanted, host(8))]
            } else {
                Seq::empty()
            })
        }),
{
    let course = crate::plan::whole_course(follow_ops(view, symbols, which), host);
    crate::plan::every_step(follow_ops(view, symbols, which), host);
    if view && symbols {
        assert(course.calls =~= seq![
            (RefreshCall::WantedSource(which), host(2)),
            (RefreshCall::CurrentSource, host(3)),
            (RefreshCall::Compare, host(4)),
        ] + (if host(3) {
            seq![(RefreshCall::ReleaseCurrent, host(5))]
        } else {
            Seq::empty()
        }) + (if host(4) {
            seq![(RefreshCall::SetSource, host(6)), (RefreshCall::ReadSourceName, host(7))]
        } else {
            Seq::empty()
        }) + (if host(2) {
            seq![(RefreshCall::ReleaseWanted, host(8))]
        } else {
            Seq::empty()
        }));
    }
}

/// How a view is cleared, call by call.
pub proof fn how_a_view_is_cleared(view: bool, symbols: bool, host: spec_fn(int) -> bool)
    ensures
        ({
            let course = crate::plan::whole_course(clear_ops(view, symbols), host);
            &&& course.fault == (if !view {
                Some(RefreshFault::NoView)
            } else if !symbols {
                Some(RefreshFault::SymbolMissing)
            } else {
                None
            })
            &&& !(view && symbols) ==> course.calls.len() == 0
            &&& view && symbols ==> course.calls == (if host(2) {
                seq![
                    (RefreshCall::CurrentSource, true),
                    (RefreshCall::ReleaseCurrent, host(3)),
                    (RefreshCall::SetSource, host(4)),
                    (RefreshCall::ReadSourceName, host(5)),
                ]
            } else {
                seq![(RefreshCall::CurrentSource, false)]
            })
        }),
{
    let course = crate::plan::whole_course(clear_ops(view, symbols), host);
    crate::plan::every_step(clear_ops(view, symbols), host);
    if view && symbols {
        assert(course.calls =~= (if host(2) {
            seq![
                (RefreshCall::CurrentSource, true),
                (RefreshCall::ReleaseCurrent, host(3)),
                (RefreshCall::SetSource, host(4)),
                (RefreshCall::ReadSourceName, host(5)),
            ]
        } else {
            seq![(RefreshCall::CurrentSource, false)]
        }));
    }
}

/// Bringing a view up to date gives back every reference it takes, and sets
/// the view's source exactly if it shows another one.
pub proof fn a_refresh_holds_nothing(view: bool, symbols: bool, which: Which, host: spec_fn(int) -> bool)
    ensures
        ({
            let course = crate::plan::whole_course(follow_ops(view, symbols, which), host);
            &&& crate::plan::balance(course.calls, |call: (RefreshCall, bool)| refresh_references(call)) == 0
            &&& crate::plan::balance(
                course.calls,
                |call: (RefreshCall, bool)|
                    if call.0 == RefreshCall::SetSource {
                        1int
                    } else {
                        0
                    },
            ) == (if view && symbols && host(4) {
                1int
            } else {
                0
            })
        }),
{
    crate::plan::every_step(follow_ops(view, symbols, which), host);
}

/// Clearing a view gives back the reference it takes, and sets the view's
/// source exactly if it shows one.
pub proof fn a_clear_holds_nothing(view: bool, symbols: bool, host: spec_fn(int) -> bool)
    ensures
        ({
            let course = crate::plan::whole_course(clear_ops(view, symbols), host);
            &&& crate::plan::balance(course.calls, |call: (RefreshCall, bool)| refresh_references(call)) == 0
            &&& crate::plan::balance(
                course.calls,
                |call: (RefreshCall, bool)|
                    if call.0 == RefreshCall::SetSource {
                        1int
                    } else {
                        0
                    },
            ) == (if view && symbols && host(2) {
                1int
            } else {
                0
            })
        }),
{
    crate::plan::every_step(clear_ops(view, symbols), host);
}

// ---------------------------------------------------------------------
// Answers
// ---------------------------------------------------------------------

pub open spec fn ui_outcome(queue: bool, ran: bool, outcome: Result<(), String>) -> Option<Seq<char>> {
    if !queue {
        Some("obs_queue_task unavailable"@)
    } else if !ran {
        Some("UI task handler unavailable"@)
    } else {
        match outcome {
            Ok(_) => None,
            Err(message) => Some(message@),
        }
    }
}

/// The outcome of a request that ran on the UI thread, where it could.
pub fn run_on_ui(queue: bool, ran: bool, outcome: Result<(), String>) -> (result: Result<(), String>)
    ensures
        match result {
            Ok(_) => ui_outcome(queue, ran, outcome) is None,
            Err(message) => ui_outcome(queue, ran, outcome) == Some(message@),
        },
        result is Ok <==> queue && ran && outcome is Ok,
        result matches Err(message) ==> message@ == (if !queue {
            "obs_queue_task unavailable"@
        } else if !ran {
            "UI task handler unavailable"@
        } else {
            (outcome->Err_0)@
        }),
{
    if !queue {
        return Err("obs_queue_task unavailable".to_owned());
    }
    if !ran {
        return Err("UI task handler unavailable".to_owned());
    }
    outcome
}

/// What a status says of a running feed besides its settings.
pub struct FeedStatus {
    pub settings: FeedSettings,
    /// Where its ring lies; empty without one.
    pub ring: String,
    /// The name of the source it shows.
    pub source: String,
    pub counters: Snapshot,
}

/// The values a status gives for one feed.
pub open spec fn status_fields(which: Which, feed: Option<FeedStatus>) -> Seq<
    (Seq<char>, crate::response::ValueView),
> {
    let key = crate::feed::key_of(which);
    match feed {
        None => seq![(key + "_active"@, crate::response::ValueView::Bool(false))],
        Some(f) => seq![
            (key + "_active"@, crate::response::ValueView::Bool(true)),
            (key + "_ndi_name"@, crate::response::ValueView::Text(crate::feed::sender_name(which))),
            (key + "_path"@, crate::response::ValueView::Text(crate::feed::path_label(f.settings.path))),
            (key + "_transport"@, crate::response::ValueView::Text(crate::feed::transport_label(f.settings.transport))),
            (key + "_ring"@, crate::response::ValueView::Text(f.ring@)),
            (key + "_source"@, crate::response::ValueView::Text(f.source@)),
            (key + "_width"@, crate::response::ValueView::Int(f.settings.width as i64)),
            (key + "_height"@, crate::response::ValueView::Int(f.settings.height as i64)),
            (key + "_fps_num"@, crate::response::ValueView::Int(f.settings.fps_num as i64)),
            (key + "_fps_den"@, crate::response::ValueView::Int(f.settings.fps_den as i64)),
            (key + "_frames_in"@, crate::response::ValueView::Int(f.counters.frames_in as i64)),
            (key + "_frames_sent"@, crate::response::ValueView::Int(f.counters.frames_sent as i64)),
            (key + "_frames_dropped"@, crate::response::ValueView::Int(f.counters.frames_dropped as i64)),
            (key + "_copy_ns_total"@, crate::response::ValueView::Int(f.counters.copy_ns as i64)),
            (key + "_send_ns_total"@, crate::response::ValueView::Int(f.counters.send_ns as i64)),
        ],
    }
}

/// What a status says of a feed, value by value: each under the feed's own
/// key, and as it is.
pub proof fn what_a_status_says(which: Which, feed: Option<FeedStatus>)
    ensures
        ({
            let key = match which {
                Which::Preview => "preview"@,
                Which::Program => "program"@,
            };
            feed is None ==> status_fields(which, feed) == seq![
                (key + "_active"@, crate::response::ValueView::Bool(false)),
            ]
        }),
        ({
            let key = match which {
                Which::Preview => "preview"@,
                Which::Program => "program"@,
            };
            let f = feed->0;
            feed is Some ==> status_fields(which, feed) == seq![
                (key + "_active"@, crate::response::ValueView::Bool(true)),
                (
                    key + "_ndi_name"@,
                    crate::response::ValueView::Text(
                        match which {
                            Which::Preview => "FrameSW Preview"@,
                            Which::Program => "FrameSW Program"@,
                        },
                    ),
                ),
                (
                    key + "_path"@,
                    crate::response::ValueView::Text(
                        match f.settings.path {
                            Path::View => "view"@,
                            Path::Raw => "raw"@,
                        },
                    ),
                ),
                (
                    key + "_transport"@,
                    crate::response::ValueView::Text(
                        match f.settings.transport {
                            Transport::Shm => "shm"@,
                            Transport::Ndi => "ndi"@,
                        },
                    ),
                ),
                (key + "_ring"@, crate::response::ValueView::Text(f.ring@)),
                (key + "_source"@, crate::response::ValueView::Text(f.source@)),
                (key + "_width"@, crate::response::ValueView::Int(f.settings.width as i64)),
                (key + "_height"@, crate::response::ValueView::Int(f.settings.height as i64)),
                (key + "_fps_num"@, crate::response::ValueView::Int(f.settings.fps_num as i64)),
                (key + "_fps_den"@, crate::response::ValueView::Int(f.settings.fps_den as i64)),
                (key + "_frames_in"@, crate::response::ValueView::Int(f.counters.frames_in as i64)),
                (key + "_frames_sent"@, crate::response::ValueView::Int(f.counters.frames_sent as i64)),
                (key + "_frames_dropped"@, crate::response::ValueView::Int(f.counters.frames_dropped as i64)),
                (key + "_copy_ns_total"@, crate::response::ValueView::Int(f.counters.copy_ns as i64)),
                (key + "_send_ns_total"@, crate::response::ValueView::Int(f.counters.send_ns as i64)),
            ]
        }),
{
}

/// Writes the values of one feed. Counters are cumulative.
pub fn write_status(response: &mut Response, which: Which, feed: &Option<FeedStatus>)
    ensures
        final(response)@ == old(response)@ + status_fields(which, *feed),
{
    let ghost before = response@;
    let key = feed_key(which);
    match feed {
        None => {
            response.set_bool(text2(key, "_active").as_str(), false);
        },
        Some(f) => {
            response.set_bool(text2(key, "_active").as_str(), true);
            response.set_string(text2(key, "_ndi_name").as_str(), ndi_name(which));
            response.set_string(text2(key, "_path").as_str(), f.settings.path.label());
            response.set_string(text2(key, "_transport").as_str(), f.settings.transport.label());
            response.set_string(text2(key, "_ring").as_str(), f.ring.as_str());
            response.set_string(text2(key, "_source").as_str(), f.source.as_str());
            response.set_int(text2(key, "_width").as_str(), f.settings.width as i64);
            response.set_int(text2(key, "_height").as_str(), f.settings.height as i64);
            response.set_int(text2(key, "_fps_num").as_str(), f.settings.fps_num as i64);
            response.set_int(text2(key, "_fps_den").as_str(), f.settings.fps_den as i64);
            response.set_int(text2(key, "_frames_in").as_str(), f.counters.frames_in as i64);
            response.set_int(text2(key, "_frames_sent").as_str(), f.counters.frames_sent as i64);
            response.set_int(text2(key, "_frames_dropped").as_str(), f.counters.frames_dropped as i64);
            response.set_int(text2(key, "_copy_ns_total").as_str(), f.counters.copy_ns as i64);
            response.set_int(text2(key, "_send_ns_total").as_str(), f.counters.send_ns as i64);
        },
    }
    assert(response@ =~= before + status_fields(which, *feed));
}

/// The answer to a request for feeds: its outcome, then the status.
pub fn handle_start_video_feed(
    outcome: &Result<(), String>,
    preview: &Option<FeedStatus>,
    program: &Option<FeedStatus>,
) -> (response: Response)
    ensures
        response@ == crate::response::reported(*outcome) + status_fields(Which::Preview, *preview) + status_fields(
            Which::Program,
            *program,
        ),
{
    let mut response = Response::report(outcome);
    write_status(&mut response, Which::Preview, preview);
    write_status(&mut response, Which::Program, program);
    response
}

/// The answer to a request to stop the feeds.
pub fn handle_stop_video_feed(outcome: &Result<(), String>) -> (response: Response)
    ensures
        response@ == crate::response::reported(*outcome),
{
    Response::report(outcome)
}

/// The answer to a request for the status.
pub fn handle_video_feed_status(preview: &Option<FeedStatus>, program: &Option<FeedStatus>) -> (response: Response)
    ensures
        response@ == crate::response::accepted() + status_fields(Which::Preview, *preview) + status_fields(
            Which::Program,
            *program,
        ),
{
    let mut response = Response::accept();
    write_status(&mut response, Which::Preview, preview);
    write_status(&mut response, Which::Program, program);
    response
}

} // verus!
