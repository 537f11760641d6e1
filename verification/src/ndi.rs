// SPDX-License-Identifier: GPL-2.0-or-later
//! The NDI runtime: where it is looked for, when it counts as loaded, and
//! the senders made with it. A missing runtime means no monitor audio,
//! nothing worse.

use vstd::prelude::*;

use crate::plan::{Op, Plan, When};
use crate::text::{has_nul, text2, text3};

verus! {

/// The systems the runtime is looked for on.
#[derive(Clone, Copy, PartialEq, Eq, Structural, Debug)]
pub enum Platform {
    MacOs,
    Windows,
    Other,
}

/// Where the runtime is looked for, in order. `dir` is what
/// `NDI_RUNTIME_DIR_V6` says.
pub open spec fn candidates(platform: Platform, dir: Option<Seq<char>>) -> Seq<Seq<char>> {
    let named = match (platform, dir) {
        (Platform::MacOs, Some(d)) => seq![d + "/libndi.dylib"@],
        (Platform::Windows, Some(d)) => seq![d + "\\Processing.NDI.Lib.x64.dll"@],
        _ => Seq::empty(),
    };
    named + match platform {
        Platform::MacOs => seq!["/usr/local/lib/libndi.dylib"@, "libndi.dylib"@],
        Platform::Windows => seq![
            "C:\\Program Files\\NDI\\NDI 6 Runtime\\v6\\Processing.NDI.Lib.x64.dll"@,
            "Processing.NDI.Lib.x64.dll"@,
        ],
        Platform::Other => Seq::empty(),
    }
}

/// Where the runtime is looked for on each system: first in the directory
/// that is named, if any, then where it is installed, then by its bare name.
pub proof fn where_the_runtime_is_looked_for(dir: Seq<char>)
    ensures
        candidates(Platform::MacOs, None) == seq!["/usr/local/lib/libndi.dylib"@, "libndi.dylib"@],
        candidates(Platform::MacOs, Some(dir)) == seq![
            dir + "/libndi.dylib"@,
            "/usr/local/lib/libndi.dylib"@,
            "libndi.dylib"@,
        ],
        candidates(Platform::Windows, None) == seq![
            "C:\\Program Files\\NDI\\NDI 6 Runtime\\v6\\Processing.NDI.Lib.x64.dll"@,
            "Processing.NDI.Lib.x64.dll"@,
        ],
        candidates(Platform::Windows, Some(dir)) == seq![
            dir + "\\Processing.NDI.Lib.x64.dll"@,
            "C:\\Program Files\\NDI\\NDI 6 Runtime\\v6\\Processing.NDI.Lib.x64.dll"@,
            "Processing.NDI.Lib.x64.dll"@,
        ],
        candidates(Platform::Other, Some(dir)).len() == 0,
        candidates(Platform::Other, None).len() == 0,
{
    assert(candidates(Platform::MacOs, None) =~= seq!["/usr/local/lib/libndi.dylib"@, "libndi.dylib"@]);
    assert(candidates(Platform::MacOs, Some(dir)) =~= seq![
        dir + "/libndi.dylib"@,
        "/usr/local/lib/libndi.dylib"@,
        "libndi.dylib"@,
    ]);
    assert(candidates(Platform::Windows, None) =~= seq![
        "C:\\Program Files\\NDI\\NDI 6 Runtime\\v6\\Processing.NDI.Lib.x64.dll"@,
        "Processing.NDI.Lib.x64.dll"@,
    ]);
    assert(candidates(Platform::Windows, Some(dir)) =~= seq![
        dir + "\\Processing.NDI.Lib.x64.dll"@,
        "C:\\Program Files\\NDI\\NDI 6 Runtime\\v6\\Processing.NDI.Lib.x64.dll"@,
        "Processing.NDI.Lib.x64.dll"@,
    ]);
}

/// Where the runtime is looked for, in order: first in the directory the
/// runtime's own variable names, then where it is installed by default.
pub fn candidate_paths(platform: Platform, dir: Option<&str>) -> (paths: Vec<String>)
    ensures
        crate::text::views(paths@) == candidates(
            platform,
            (match dir {
                Some(d) => Some(d@),
                None => None,
            }),
        ),
{
    let mut paths: Vec<String> = Vec::new();
    match (platform, dir) {
        (Platform::MacOs, Some(d)) => {
            paths.push(text2(d, "/libndi.dylib"));
        },
        (Platform::Windows, Some(d)) => {
            paths.push(text2(d, "\\Processing.NDI.Lib.x64.dll"));
        },
        _ => {},
    }
    match platform {
        Platform::MacOs => {
            paths.push("/usr/local/lib/libndi.dylib".to_owned());
            paths.push("libndi.dylib".to_owned());
        },
        Platform::Windows => {
            paths.push("C:\\Program Files\\NDI\\NDI 6 Runtime\\v6\\Processing.NDI.Lib.x64.dll".to_owned());
            paths.push("Processing.NDI.Lib.x64.dll".to_owned());
        },
        Platform::Other => {},
    }
    assert(crate::text::views(paths@) =~= candidates(
        platform,
        (match dir {
            Some(d) => Some(d@),
            None => None,
        }),
    ));
    paths
}

/// What the plugin needs of the runtime.
#[derive(Clone, Copy, PartialEq, Eq, Structural, Debug)]
pub enum NdiSymbol {
    Initialize,
    SendCreate,
    SendDestroy,
    SendAudio,
}

pub open spec fn symbol_text(symbol: NdiSymbol) -> Seq<char> {
    match symbol {
        NdiSymbol::Initialize => "NDIlib_initialize"@,
        NdiSymbol::SendCreate => "NDIlib_send_create"@,
        NdiSymbol::SendDestroy => "NDIlib_send_destroy"@,
        NdiSymbol::SendAudio => "NDIlib_send_send_audio_v2"@,
    }
}

impl NdiSymbol {
    /// The symbol's name.
    pub fn name(self) -> (name: &'static str)
        ensures
            name@ == symbol_text(self),
            ({
                let symbol = self;
                name@ == (match symbol {
                    NdiSymbol::Initialize => "NDIlib_initialize"@,
                    NdiSymbol::SendCreate => "NDIlib_send_create"@,
                    NdiSymbol::SendDestroy => "NDIlib_send_destroy"@,
                    NdiSymbol::SendAudio => "NDIlib_send_send_audio_v2"@,
                })
            }),
    {
        match self {
            NdiSymbol::Initialize => "NDIlib_initialize",
            NdiSymbol::SendCreate => "NDIlib_send_create",
            NdiSymbol::SendDestroy => "NDIlib_send_destroy",
            NdiSymbol::SendAudio => "NDIlib_send_send_audio_v2",
        }
    }
}

/// A call that makes the runtime ready.
#[derive(Clone, Copy, PartialEq, Eq, Structural, Debug)]
pub enum NdiCall {
    /// Looks up a symbol in the library; yes: it is there.
    Resolve(NdiSymbol),
    /// `NDIlib_initialize`; yes: the machine can run NDI.
    Initialize,
}

/// Why there is no runtime.
#[derive(Clone, Copy, PartialEq, Eq, Structural, Debug)]
pub enum NdiFault {
    NotFound,
    SymbolMissing,
    NotInitialized,
}

pub open spec fn load_ndi_ops(loaded: bool) -> Seq<Op<NdiCall, NdiFault>> {
    seq![
        Op::Need { met: loaded, fault: NdiFault::NotFound },
        Op::Do { call: NdiCall::Resolve(NdiSymbol::Initialize), when: When::Always },
        Op::Require { answer: 1, fault: NdiFault::SymbolMissing },
        Op::Do { call: NdiCall::Resolve(NdiSymbol::SendCreate), when: When::Always },
        Op::Require { answer: 3, fault: NdiFault::SymbolMissing },
        Op::Do { call: NdiCall::Resolve(NdiSymbol::SendDestroy), when: When::Always },
        Op::Require { answer: 5, fault: NdiFault::SymbolMissing },
        Op::Do { call: NdiCall::Resolve(NdiSymbol::SendAudio), when: When::Always },
        Op::Require { answer: 7, fault: NdiFault::SymbolMissing },
        Op::Do { call: NdiCall::Initialize, when: When::Always },
        Op::Require { answer: 9, fault: NdiFault::NotInitialized },
    ]
}

/// Makes the runtime ready; `loaded` where one of the candidates is a library
/// that could be loaded. It is initialized only once all of it is there.
pub fn load_ndi(loaded: bool) -> (plan: Plan<NdiCall, NdiFault>)
    ensures
        plan.fresh(load_ndi_ops(loaded)),
{
    let ops: Vec<Op<NdiCall, NdiFault>> = vec![
        Op::Need { met: loaded, fault: NdiFault::NotFound },
        Op::Do { call: NdiCall::Resolve(NdiSymbol::Initialize), when: When::Always },
        Op::Require { answer: 1, fault: NdiFault::SymbolMissing },
        Op::Do { call: NdiCall::Resolve(NdiSymbol::SendCreate), when: When::Always },
        Op::Require { answer: 3, fault: NdiFault::SymbolMissing },
        Op::Do { call: NdiCall::Resolve(NdiSymbol::SendDestroy), when: When::Always },
        Op::Require { answer: 5, fault: NdiFault::SymbolMissing },
        Op::Do { call: NdiCall::Resolve(NdiSymbol::SendAudio), when: When::Always },
        Op::Require { answer: 7, fault: NdiFault::SymbolMissing },
        Op::Do { call: NdiCall::Initialize, when: When::Always },
        Op::Require { answer: 9, fault: NdiFault::NotInitialized },
    ];
    assert(ops@ =~= load_ndi_ops(loaded));
    Plan::new(ops)
}

/// What stops the runtime from being ready.
pub open spec fn load_fault(loaded: bool, host: spec_fn(int) -> bool) -> Option<NdiFault> {
    if !loaded {
        Some(NdiFault::NotFound)
    } else if !(host(1) && host(3) && host(5) && host(7)) {
        Some(NdiFault::SymbolMissing)
    } else if !host(9) {
        Some(NdiFault::NotInitialized)
    } else {
        None
    }
}

/// How the runtime is made ready, call by call: each symbol is looked up, in
/// order, until one is missing, and only then is it initialized.
pub proof fn how_the_runtime_is_made_ready(loaded: bool, host: spec_fn(int) -> bool)
    ensures
        ({
            let course = crate::plan::whole_course(load_ndi_ops(loaded), host);
            let all = seq![
                (NdiCall::Resolve(NdiSymbol::Initialize), host(1)),
                (NdiCall::Resolve(NdiSymbol::SendCreate), host(3)),
                (NdiCall::Resolve(NdiSymbol::SendDestroy), host(5)),
                (NdiCall::Resolve(NdiSymbol::SendAudio), host(7)),
                (NdiCall::Initialize, host(9)),
            ];
            if !loaded {
                course.calls.len() == 0 && course.fault == Some(NdiFault::NotFound)
            } else if !host(1) {
                course.calls == all.take(1) && course.fault == Some(NdiFault::SymbolMissing)
            } else if !host(3) {
                course.calls == all.take(2) && course.fault == Some(NdiFault::SymbolMissing)
            } else if !host(5) {
                course.calls == all.take(3) && course.fault == Some(NdiFault::SymbolMissing)
            } else if !host(7) {
                course.calls == all.take(4) && course.fault == Some(NdiFault::SymbolMissing)
            } else if !host(9) {
                course.calls == all && course.fault == Some(NdiFault::NotInitialized)
            } else {
                course.calls == all && course.fault is None
            }
        }),
{
    let course = crate::plan::whole_course(load_ndi_ops(loaded), host);
    crate::plan::every_step(load_ndi_ops(loaded), host);
    let all = seq![
        (NdiCall::Resolve(NdiSymbol::Initialize), host(1)),
        (NdiCall::Resolve(NdiSymbol::SendCreate), host(3)),
        (NdiCall::Resolve(NdiSymbol::SendDestroy), host(5)),
        (NdiCall::Resolve(NdiSymbol::SendAudio), host(7)),
        (NdiCall::Initialize, host(9)),
    ];
    if loaded {
        if !host(1) {
            assert(course.calls =~= all.take(1));
        } else if !host(3) {
            assert(course.calls =~= all.take(2));
        } else if !host(5) {
            assert(course.calls =~= all.take(3));
        } else if !host(7) {
            assert(course.calls =~= all.take(4));
        } else {
            assert(course.calls =~= all);
        }
    }
}

/// The runtime is ready exactly if it was found, has all that is needed, and
/// could be initialized; it is initialized at most once, and not where
/// something is missing.
pub proof fn when_the_runtime_is_ready(loaded: bool, host: spec_fn(int) -> bool)
    ensures
        ({
            let course = crate::plan::whole_course(load_ndi_ops(loaded), host);
            &&& course.fault == load_fault(loaded, host)
            &&& crate::plan::balance(
                course.calls,
                |call: (NdiCall, bool)|
                    if call.0 == NdiCall::Initialize {
                        1int
                    } else {
                        0
                    },
            ) == (if course.fault is None || course.fault == Some(NdiFault::NotInitialized) {
                1int
            } else {
                0
            })
        }),
{
    crate::plan::every_step(load_ndi_ops(loaded), host);
}

// ---------------------------------------------------------------------
// Senders
// ---------------------------------------------------------------------

/// A sender of monitor audio; the instance is the host's.
pub struct NdiSender<I> {
    instance: I,
}

/// One planar block of audio, as it is handed to the runtime.
#[derive(Clone, Copy, PartialEq, Eq, Structural, Debug)]
pub struct NdiAudioFrameV2 {
    pub sample_rate: i32,
    pub no_channels: i32,
    pub no_samples: i32,
    pub timecode: i64,
    pub channel_stride_in_bytes: i32,
    pub timestamp: i64,
}

pub open spec fn sender_error(loaded: bool, name: Seq<char>) -> Seq<char> {
    if !loaded {
        "NDI runtime not loaded/initialized"@
    } else if name.contains('\0') {
        "sender name '"@ + name + "' contains an embedded NUL"@
    } else {
        "NDIlib_send_create('"@ + name
            + "') returned null (runtime loaded fine — this is a real creation failure, e.g. a same-named sender not fully torn down yet)"@
    }
}

/// Whether the runtime is asked for a sender of this name.
pub fn asks_for_sender(loaded: bool, name: &str) -> (asks: bool)
    ensures
        asks == (loaded && !name@.contains('\0')),
{
    loaded && !has_nul(name)
}

impl<I> NdiSender<I> {
    /// The host's instance.
    pub closed spec fn inner(&self) -> I {
        self.instance
    }

    /// The host's instance.
    pub fn instance(&self) -> (instance: &I)
        ensures
            *instance == self.inner(),
    {
        &self.instance
    }

    /// A sender, from what the runtime gave where `asks_for_sender` said to
    /// ask it; else why there is none.
    pub fn new(loaded: bool, name: &str, created: Option<I>) -> (sender: Result<Self, String>)
        ensures
            match sender {
                Ok(s) => loaded && !name@.contains('\0') && created == Some(s.inner()),
                Err(message) => {
                    &&& !loaded || name@.contains('\0') || created is None
                    &&& message@ == sender_error(loaded, name@)
                },
            },
            sender is Ok <==> loaded && !name@.contains('\0') && created is Some,
            sender matches Err(message) ==> message@ == (if !loaded {
                "NDI runtime not loaded/initialized"@
            } else if name@.contains('\0') {
                "sender name '"@ + name@ + "' contains an embedded NUL"@
            } else {
                "NDIlib_send_create('"@ + name@
                    + "') returned null (runtime loaded fine — this is a real creation failure, e.g. a same-named sender not fully torn down yet)"@
            }),
    {
        if !loaded {
            return Err("NDI runtime not loaded/initialized".to_owned());
        }
        if has_nul(name) {
            return Err(text3("sender name '", name, "' contains an embedded NUL"));
        }
        match created {
            Some(instance) => Ok(NdiSender { instance }),
            None => Err(
                text3(
                    "NDIlib_send_create('",
                    name,
                    "') returned null (runtime loaded fine — this is a real creation failure, e.g. a same-named sender not fully torn down yet)",
                ),
            ),
        }
    }

    /// The block to hand to the runtime, where there is one. The channels
    /// lie one after the other, at equal distance.
    pub fn send_audio(&self, loaded: bool, sample_rate: i32, channels: i32, frames: i32) -> (frame: Option<
        NdiAudioFrameV2,
    >)
        requires
            0 <= frames,
        ensures
            frame == (if loaded {
                Some(
                    NdiAudioFrameV2 {
                        sample_rate,
                        no_channels: channels,
                        no_samples: frames,
                        timecode: 0,
                        channel_stride_in_bytes: (4 * frames) as i32,
                        timestamp: 0,
                    },
                )
            } else {
                None::<NdiAudioFrameV2>
            }),
    {
        if !loaded {
            return None;
        }
        Some(
            NdiAudioFrameV2 {
                sample_rate,
                no_channels: channels,
                no_samples: frames,
                timecode: 0,
                channel_stride_in_bytes: (frames as i64 * 4) as i32,
                timestamp: 0,
            },
        )
    }
}

} // verus!
