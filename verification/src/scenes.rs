// SPDX-License-Identifier: GPL-2.0-or-later
//! Scenes and outputs: creating a scene, reading which scenes are current,
//! listing the active video outputs.

use vstd::prelude::*;

use crate::plan::{Op, Plan, When};
use crate::response::Response;
use crate::text::has_nul;

verus! {

/// `OBS_OUTPUT_VIDEO` of libobs.
pub const OBS_OUTPUT_VIDEO: u32 = 1;

/// A call that creates a scene.
#[derive(Clone, Copy, Debug)]
pub enum SceneCall<'a> {
    /// `obs_get_source_by_name`; yes: there is none. No: there is one, with a
    /// reference.
    LookFor(&'a str),
    /// `obs_source_release` of the one that is there.
    ReleaseExisting,
    /// `obs_scene_create`; yes: the scene, with a reference.
    CreateScene(&'a str),
    /// `obs_scene_release`: the scene itself stays in the collection.
    ReleaseScene,
}

/// What stopped a scene from being created.
#[derive(Clone, Copy, PartialEq, Eq, Structural, Debug)]
pub enum SceneFault {
    SymbolMissing,
    InvalidName,
    /// It exists, which is what was asked for.
    AlreadyThere,
    CreateMissing,
    NotCreated,
}

/// `named` where the scene's name holds no NUL.
pub open spec fn create_scene_ops<'a>(symbols: bool, create_symbols: bool, named: bool, name: &'a str) -> Seq<
    Op<SceneCall<'a>, SceneFault>,
> {
    seq![
        Op::Need { met: symbols, fault: SceneFault::SymbolMissing },
        Op::Need { met: named, fault: SceneFault::InvalidName },
        Op::Do { call: SceneCall::LookFor(name), when: When::Always },
        Op::Do { call: SceneCall::ReleaseExisting, when: When::Unless(2) },
        Op::Require { answer: 2, fault: SceneFault::AlreadyThere },
        Op::Need { met: create_symbols, fault: SceneFault::CreateMissing },
        Op::Do { call: SceneCall::CreateScene(name), when: When::Always },
        Op::Require { answer: 6, fault: SceneFault::NotCreated },
        Op::Do { call: SceneCall::ReleaseScene, when: When::Always },
    ]
}

/// Creates a scene, unless there is one of that name.
pub fn create_scene<'a>(
    symbols: bool,
    create_symbols: bool,
    name: &'a str,
) -> (plan: Plan<SceneCall<'a>, SceneFault>)
    ensures
        plan.fresh(create_scene_ops(symbols, create_symbols, !name@.contains('\0'), name)),
{
    let named = !has_nul(name);
    let ops: Vec<Op<SceneCall<'a>, SceneFault>> = vec![
        Op::Need { met: symbols, fault: SceneFault::SymbolMissing },
        Op::Need { met: named, fault: SceneFault::InvalidName },
        Op::Do { call: SceneCall::LookFor(name), when: When::Always },
        Op::Do { call: SceneCall::ReleaseExisting, when: When::Unless(2) },
        Op::Require { answer: 2, fault: SceneFault::AlreadyThere },
        Op::Need { met: create_symbols, fault: SceneFault::CreateMissing },
        Op::Do { call: SceneCall::CreateScene(name), when: When::Always },
        Op::Require { answer: 6, fault: SceneFault::NotCreated },
        Op::Do { call: SceneCall::ReleaseScene, when: When::Always },
    ];
    assert(ops@ =~= create_scene_ops(symbols, create_symbols, named, name));
    Plan::new(ops)
}

/// How a scene is created.
pub open spec fn create_scene_course<'a>(
    symbols: bool,
    create_symbols: bool,
    named: bool,
    name: &'a str,
    host: spec_fn(int) -> bool,
) -> crate::plan::Course<SceneCall<'a>, SceneFault> {
    if !symbols {
        crate::plan::stopped(Some(SceneFault::SymbolMissing))
    } else if !named {
        crate::plan::stopped(Some(SceneFault::InvalidName))
    } else if !host(2) {
        crate::plan::Course {
            calls: seq![
                (SceneCall::LookFor(name), false),
                (SceneCall::ReleaseExisting, host(3)),
            ],
            fault: Some(SceneFault::AlreadyThere),
        }
    } else if !create_symbols {
        crate::plan::Course {
            calls: seq![
                (SceneCall::LookFor(name), true),
            ],
            fault: Some(SceneFault::CreateMissing),
        }
    } else if !host(6) {
        crate::plan::Course {
            calls: seq![
                (SceneCall::LookFor(name), true),
                (SceneCall::CreateScene(name), false),
            ],
            fault: Some(SceneFault::NotCreated),
        }
    } else {
        crate::plan::Course {
            calls: seq![
                (SceneCall::LookFor(name), true),
                (SceneCall::CreateScene(name), true),
                (SceneCall::ReleaseScene, host(8)),
            ],
            fault: None,
        }
    }
}

/// A scene that exists is left alone and given back; one that is created is
/// given back to its collection.
pub proof fn how_a_scene_is_created<'a>(
    symbols: bool,
    create_symbols: bool,
    named: bool,
    name: &'a str,
    host: spec_fn(int) -> bool,
)
    ensures
        crate::plan::whole_course(create_scene_ops(symbols, create_symbols, named, name), host) == create_scene_course(
            symbols,
            create_symbols,
            named,
            name,
            host,
        ),
        crate::plan::whole_course(create_scene_ops(symbols, create_symbols, named, name), host) == (if !symbols {
            crate::plan::stopped(Some(SceneFault::SymbolMissing))
        } else if !named {
            crate::plan::stopped(Some(SceneFault::InvalidName))
        } else if !host(2) {
            crate::plan::Course {
                calls: seq![
                    (SceneCall::LookFor(name), false),
                    (SceneCall::ReleaseExisting, host(3)),
                ],
                fault: Some(SceneFault::AlreadyThere),
            }
        } else if !create_symbols {
            crate::plan::Course {
                calls: seq![
                    (SceneCall::LookFor(name), true),
                ],
                fault: Some(SceneFault::CreateMissing),
            }
        } else if !host(6) {
            crate::plan::Course {
                calls: seq![
                    (SceneCall::LookFor(name), true),
                    (SceneCall::CreateScene(name), false),
                ],
                fault: Some(SceneFault::NotCreated),
            }
        } else {
            crate::plan::Course {
                calls: seq![
                    (SceneCall::LookFor(name), true),
                    (SceneCall::CreateScene(name), true),
                    (SceneCall::ReleaseScene, host(8)),
                ],
                fault: None,
            }
        }),
{
    let ops = create_scene_ops(symbols, create_symbols, named, name);
    crate::plan::every_step(ops, host);
    assert(
        crate::plan::whole_course(ops, host) =~= create_scene_course(symbols, create_symbols, named, name, host)
    );
}

/// The answer to a request for a scene: that it exists is a success.
pub fn handle_create_scene(fault: Option<SceneFault>) -> (response: Response)
    ensures
        response@ == (match fault {
            None | Some(SceneFault::AlreadyThere) => crate::response::accepted(),
            Some(SceneFault::SymbolMissing) | Some(SceneFault::CreateMissing) => crate::response::refused(
                "required libobs symbols unavailable"@,
            ),
            Some(SceneFault::InvalidName) => crate::response::refused("invalid scene name"@),
            Some(SceneFault::NotCreated) => crate::response::refused("obs_scene_create returned null"@),
        }),
{
    match fault {
        None => Response::accept(),
        Some(SceneFault::AlreadyThere) => Response::accept(),
        Some(SceneFault::SymbolMissing) => Response::refuse("required libobs symbols unavailable"),
        Some(SceneFault::CreateMissing) => Response::refuse("required libobs symbols unavailable"),
        Some(SceneFault::InvalidName) => Response::refuse("invalid scene name"),
        Some(SceneFault::NotCreated) => Response::refuse("obs_scene_create returned null"),
    }
}

// ---------------------------------------------------------------------
// Current scenes
// ---------------------------------------------------------------------

/// What was read on the UI thread.
pub struct CurrentScenes {
    /// Whether the UI thread got to it: no scene is an answer, not having
    /// looked is an error.
    pub ran: bool,
    pub studio_mode: bool,
    pub program: Option<String>,
    pub preview: Option<String>,
}

/// One text under a key, where there is one.
pub open spec fn optional_field(
    key: Seq<char>,
    text: Option<String>,
) -> Seq<(Seq<char>, crate::response::ValueView)> {
    match text {
        Some(t) => seq![(key, crate::response::ValueView::Text(t@))],
        None => Seq::empty(),
    }
}

/// A text is given under its key as it is, and left out where there is none.
pub proof fn a_text_is_given_where_there_is_one(key: Seq<char>, text: Option<String>)
    ensures
        text is None ==> optional_field(key, text).len() == 0,
        text matches Some(t) ==> optional_field(key, text) == seq![(key, crate::response::ValueView::Text(t@))],
{
}

/// The answer to a request for the current scenes. A scene that OBS does not
/// have is left out.
pub fn handle_get_current_scenes(queue: bool, scenes: &CurrentScenes) -> (response: Response)
    ensures
        response@ == (if !queue {
            crate::response::refused("obs_queue_task unavailable"@)
        } else if !scenes.ran {
            crate::response::refused("UI task handler unavailable"@)
        } else {
            seq![
                ("ok"@, crate::response::ValueView::Bool(true)),
                ("studio_mode"@, crate::response::ValueView::Bool(scenes.studio_mode)),
            ] + optional_field("program"@, scenes.program) + optional_field("preview"@, scenes.preview)
        }),
{
    if !queue {
        return Response::refuse("obs_queue_task unavailable");
    }
    if !scenes.ran {
        return Response::refuse("UI task handler unavailable");
    }
    let mut response = Response::accept();
    response.set_bool("studio_mode", scenes.studio_mode);
    let ghost head = response@;
    assert(head =~= seq![
        ("ok"@, crate::response::ValueView::Bool(true)),
        ("studio_mode"@, crate::response::ValueView::Bool(scenes.studio_mode)),
    ]);
    match &scenes.program {
        Some(program) => {
            response.set_string("program", program.as_str());
        },
        None => {},
    }
    assert(response@ =~= head + optional_field("program"@, scenes.program));
    let ghost both = response@;
    match &scenes.preview {
        Some(preview) => {
            response.set_string("preview", preview.as_str());
        },
        None => {},
    }
    assert(response@ =~= both + optional_field("preview"@, scenes.preview));
    response
}

// ---------------------------------------------------------------------
// Video outputs
// ---------------------------------------------------------------------

/// What a listing says of an output: its name and kind, where it is active,
/// carries video and has a name.
pub open spec fn listed_output(
    active: bool,
    flags: u32,
    name: Option<Seq<char>>,
    kind: Option<Seq<char>>,
) -> Option<(Seq<char>, Seq<char>)> {
    match name {
        Some(text) => if active && flags & OBS_OUTPUT_VIDEO != 0 {
            Some((text, crate::text::text_or_empty(kind)))
        } else {
            None
        },
        None => None,
    }
}

/// Adds an output to a listing, where it belongs there.
pub fn collect_video_output(
    outputs: &mut Vec<(String, String)>,
    active: bool,
    flags: u32,
    name: Option<String>,
    kind: Option<String>,
)
    ensures
        crate::response::pair_views(final(outputs)@) == (match listed_output(
            active,
            flags,
            crate::text::name_of(name),
            crate::text::name_of(kind),
        ) {
            Some(output) => crate::response::pair_views(old(outputs)@).push(output),
            None => crate::response::pair_views(old(outputs)@),
        }),
        ({
            let belongs = active && flags & 1 != 0 && name is Some;
            &&& !belongs ==> final(outputs)@ == old(outputs)@
            &&& belongs ==> {
                &&& final(outputs)@.len() == old(outputs)@.len() + 1
                &&& forall|i: int| 0 <= i < old(outputs)@.len() ==> #[trigger] final(outputs)@[i] == old(outputs)@[i]
                &&& final(outputs)@.last().0@ == name->0@
                &&& final(outputs)@.last().1@ == (match kind {
                    Some(text) => text@,
                    None => Seq::empty(),
                })
            }
        }),
{
    let ghost before = outputs@;
    if active && flags & OBS_OUTPUT_VIDEO != 0 {
        match name {
            Some(text) => {
                outputs.push((text, crate::text::or_empty(kind)));
                assert(crate::response::pair_views(outputs@) =~= crate::response::pair_views(before).push(
                    (text@, crate::text::text_or_empty(crate::text::name_of(kind))),
                ));
            },
            None => {},
        }
    }
}

/// The answer to a request for the active video outputs.
pub fn handle_list_video_outputs(
    symbol: bool,
    arrays: bool,
    outputs: Vec<(String, String)>,
) -> (response: Response)
    ensures
        response@ == (if !symbol {
            crate::response::refused("obs_enum_outputs unavailable"@)
        } else if !arrays {
            crate::response::refused("obs_data array symbols unavailable"@)
        } else {
            seq![
                ("outputs"@, crate::response::ValueView::Pairs("kind"@, crate::response::pair_views(outputs@))),
                ("ok"@, crate::response::ValueView::Bool(true)),
            ]
        }),
{
    if !symbol {
        return Response::refuse("obs_enum_outputs unavailable");
    }
    if !arrays {
        return Response::refuse("obs_data array symbols unavailable");
    }
    let ghost listed = crate::response::pair_views(outputs@);
    let mut response = Response::new();
    response.set_pair_array("outputs", "kind", outputs);
    response.set_bool("ok", true);
    assert(response@ =~= seq![
        ("outputs"@, crate::response::ValueView::Pairs("kind"@, listed)),
        ("ok"@, crate::response::ValueView::Bool(true)),
    ]);
    response
}

} // verus!
