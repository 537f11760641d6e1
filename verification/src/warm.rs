// SPDX-License-Identifier: GPL-2.0-or-later
//! Waking OBS's browser engine.
//!
//! The engine starts only from OBS's UI thread, and only has to once. One
//! private browser source, made there and released at once, is enough; a
//! source that were kept would bring OBS down when it quits.

use vstd::prelude::*;

use crate::plan::{Op, Plan, When};
use crate::response::Response;

verus! {

/// The kind of the source that wakes the engine, and its name.
pub const WARM_KIND: &'static str = "browser_source";

pub const WARM_NAME: &'static str = "FrameSW browser engine warm-up";

/// A call that wakes the engine.
#[derive(Clone, Copy, PartialEq, Eq, Structural, Debug)]
pub enum WarmCall {
    /// `obs_data_create`; yes: the settings, with a reference.
    CreateSettings,
    /// Sets the values of `warm_settings`.
    FillSettings,
    /// `obs_source_create_private` of `WARM_KIND`, named `WARM_NAME`, with the
    /// settings; yes: the source, with a reference.
    CreateSource,
    /// `obs_data_release` of the settings.
    ReleaseSettings,
    /// `obs_source_release` of the source.
    ReleaseSource,
}

/// What stopped the engine from being woken.
#[derive(Clone, Copy, PartialEq, Eq, Structural, Debug)]
pub enum WarmFault {
    /// It has been woken before, which is what was asked for.
    AlreadyWarm,
    CreateMissing,
    DataMissing,
    NoSettings,
    NotCreated,
}

/// The settings of the source: a page that fetches nothing, and that OBS
/// never shuts down by itself.
pub open spec fn warm_fields() -> Seq<(Seq<char>, crate::response::ValueView)> {
    seq![
        ("url"@, crate::response::ValueView::Text("about:blank"@)),
        ("width"@, crate::response::ValueView::Int(16)),
        ("height"@, crate::response::ValueView::Int(16)),
        ("shutdown"@, crate::response::ValueView::Bool(false)),
        ("restart_when_active"@, crate::response::ValueView::Bool(false)),
        ("reroute_audio"@, crate::response::ValueView::Bool(false)),
    ]
}

/// The settings of the source.
pub fn warm_settings() -> (settings: Response)
    ensures
        settings@ == warm_fields(),
        settings@ == (seq![
            ("url"@, crate::response::ValueView::Text("about:blank"@)),
            ("width"@, crate::response::ValueView::Int(16)),
            ("height"@, crate::response::ValueView::Int(16)),
            ("shutdown"@, crate::response::ValueView::Bool(false)),
            ("restart_when_active"@, crate::response::ValueView::Bool(false)),
            ("reroute_audio"@, crate::response::ValueView::Bool(false)),
        ]),
{
    let mut settings = Response::new();
    settings.set_string("url", "about:blank");
    settings.set_int("width", 16);
    settings.set_int("height", 16);
    settings.set_bool("shutdown", false);
    settings.set_bool("restart_when_active", false);
    settings.set_bool("reroute_audio", false);
    assert(settings@ =~= warm_fields());
    settings
}

pub open spec fn warm_browser_engine_ops(
    warmed: bool,
    create_private: bool,
    data_create: bool,
) -> Seq<Op<WarmCall, WarmFault>> {
    seq![
        Op::Need { met: !warmed, fault: WarmFault::AlreadyWarm },
        Op::Need { met: create_private, fault: WarmFault::CreateMissing },
        Op::Need { met: data_create, fault: WarmFault::DataMissing },
        Op::Do { call: WarmCall::CreateSettings, when: When::Always },
        Op::Require { answer: 3, fault: WarmFault::NoSettings },
        Op::Do { call: WarmCall::FillSettings, when: When::Always },
        Op::Do { call: WarmCall::CreateSource, when: When::Always },
        Op::Do { call: WarmCall::ReleaseSettings, when: When::Always },
        Op::Require { answer: 6, fault: WarmFault::NotCreated },
        Op::Do { call: WarmCall::ReleaseSource, when: When::Always },
    ]
}

/// Wakes the engine, unless it has been woken.
pub fn warm_browser_engine(
    warmed: bool,
    create_private: bool,
    data_create: bool,
) -> (plan: Plan<WarmCall, WarmFault>)
    ensures
        plan.fresh(warm_browser_engine_ops(warmed, create_private, data_create)),
{
    let ops: Vec<Op<WarmCall, WarmFault>> = vec![
        Op::Need { met: !warmed, fault: WarmFault::AlreadyWarm },
        Op::Need { met: create_private, fault: WarmFault::CreateMissing },
        Op::Need { met: data_create, fault: WarmFault::DataMissing },
        Op::Do { call: WarmCall::CreateSettings, when: When::Always },
        Op::Require { answer: 3, fault: WarmFault::NoSettings },
        Op::Do { call: WarmCall::FillSettings, when: When::Always },
        Op::Do { call: WarmCall::CreateSource, when: When::Always },
        Op::Do { call: WarmCall::ReleaseSettings, when: When::Always },
        Op::Require { answer: 6, fault: WarmFault::NotCreated },
        Op::Do { call: WarmCall::ReleaseSource, when: When::Always },
    ];
    assert(ops@ =~= warm_browser_engine_ops(warmed, create_private, data_create));
    Plan::new(ops)
}

/// How the engine is woken.
pub open spec fn warm_course(
    warmed: bool,
    create_private: bool,
    data_create: bool,
    host: spec_fn(int) -> bool,
) -> crate::plan::Course<WarmCall, WarmFault> {
    if warmed {
        crate::plan::stopped(Some(WarmFault::AlreadyWarm))
    } else if !create_private {
        crate::plan::stopped(Some(WarmFault::CreateMissing))
    } else if !data_create {
        crate::plan::stopped(Some(WarmFault::DataMissing))
    } else if !host(3) {
        crate::plan::Course {
            calls: seq![
                (WarmCall::CreateSettings, false),
            ],
            fault: Some(WarmFault::NoSettings),
        }
    } else if !host(6) {
        crate::plan::Course {
            calls: seq![
                (WarmCall::CreateSettings, true),
                (WarmCall::FillSettings, host(5)),
                (WarmCall::CreateSource, false),
                (WarmCall::ReleaseSettings, host(7)),
            ],
            fault: Some(WarmFault::NotCreated),
        }
    } else {
        crate::plan::Course {
            calls: seq![
                (WarmCall::CreateSettings, true),
                (WarmCall::FillSettings, host(5)),
                (WarmCall::CreateSource, true),
                (WarmCall::ReleaseSettings, host(7)),
                (WarmCall::ReleaseSource, host(9)),
            ],
            fault: None,
        }
    }
}

/// Nothing is kept: the settings and the source are given back, whether or
/// not the source could be made.
pub proof fn how_the_engine_is_woken(
    warmed: bool,
    create_private: bool,
    data_create: bool,
    host: spec_fn(int) -> bool,
)
    ensures
        crate::plan::whole_course(warm_browser_engine_ops(warmed, create_private, data_create), host) == warm_course(
            warmed,
            create_private,
            data_create,
            host,
        ),
        crate::plan::whole_course(warm_browser_engine_ops(warmed, create_private, data_create), host) == (if warmed {
            crate::plan::stopped(Some(WarmFault::AlreadyWarm))
        } else if !create_private {
            crate::plan::stopped(Some(WarmFault::CreateMissing))
        } else if !data_create {
            crate::plan::stopped(Some(WarmFault::DataMissing))
        } else if !host(3) {
            crate::plan::Course {
                calls: seq![
                    (WarmCall::CreateSettings, false),
                ],
                fault: Some(WarmFault::NoSettings),
            }
        } else if !host(6) {
            crate::plan::Course {
                calls: seq![
                    (WarmCall::CreateSettings, true),
                    (WarmCall::FillSettings, host(5)),
                    (WarmCall::CreateSource, false),
                    (WarmCall::ReleaseSettings, host(7)),
                ],
                fault: Some(WarmFault::NotCreated),
            }
        } else {
            crate::plan::Course {
                calls: seq![
                    (WarmCall::CreateSettings, true),
                    (WarmCall::FillSettings, host(5)),
                    (WarmCall::CreateSource, true),
                    (WarmCall::ReleaseSettings, host(7)),
                    (WarmCall::ReleaseSource, host(9)),
                ],
                fault: None,
            }
        }),
{
    let ops = warm_browser_engine_ops(warmed, create_private, data_create);
    crate::plan::every_step(ops, host);
    assert(crate::plan::whole_course(ops, host) =~= warm_course(warmed, create_private, data_create, host));
}

/// Whether the engine has been woken, after a plan that stopped at `fault`.
pub fn is_warm(warmed: bool, fault: Option<WarmFault>) -> (warm: bool)
    ensures
        warm == (warmed || fault is None),
{
    warmed || fault.is_none()
}

/// The answer to a request to wake the engine.
pub fn handle_warm_browser_engine(queue: bool, ran: bool, fault: Option<WarmFault>) -> (response: Response)
    ensures
        response@ == (if !queue {
            crate::response::refused("obs_queue_task unavailable"@)
        } else if !ran {
            crate::response::refused("UI-thread task did not run"@)
        } else {
            match fault {
                Some(WarmFault::CreateMissing) => crate::response::refused("obs_source_create_private unavailable"@),
                Some(WarmFault::DataMissing) => crate::response::refused("obs_data_create unavailable"@),
                Some(WarmFault::NoSettings) => crate::response::refused("could not allocate settings"@),
                Some(WarmFault::NotCreated) => crate::response::refused("obs_source_create_private returned null"@),
                _ => seq![
                    ("ok"@, crate::response::ValueView::Bool(true)),
                    ("created"@, crate::response::ValueView::Bool(fault is None)),
                    ("already_warm"@, crate::response::ValueView::Bool(fault is Some)),
                ],
            }
        }),
{
    if !queue {
        return Response::refuse("obs_queue_task unavailable");
    }
    if !ran {
        return Response::refuse("UI-thread task did not run");
    }
    match fault {
        Some(WarmFault::CreateMissing) => Response::refuse("obs_source_create_private unavailable"),
        Some(WarmFault::DataMissing) => Response::refuse("obs_data_create unavailable"),
        Some(WarmFault::NoSettings) => Response::refuse("could not allocate settings"),
        Some(WarmFault::NotCreated) => Response::refuse("obs_source_create_private returned null"),
        _ => {
            let mut response = Response::accept();
            response.set_bool("created", fault.is_none());
            response.set_bool("already_warm", fault.is_some());
            assert(response@ =~= seq![
                ("ok"@, crate::response::ValueView::Bool(true)),
                ("created"@, crate::response::ValueView::Bool(fault is None)),
                ("already_warm"@, crate::response::ValueView::Bool(fault is Some)),
            ]);
            response
        },
    }
}

} // verus!
