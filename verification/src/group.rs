// SPDX-License-Identifier: GPL-2.0-or-later
//! Creating and managing OBS groups.
//!
//! A group's contents live in a scene of their own: an item that has been
//! moved into a group is found there and no longer in the outer scene.

use vstd::prelude::*;

use crate::plan::{Op, Plan, When};
use crate::text::text5;

verus! {

/// A call into libobs. Texts are handed over up to their first NUL.
#[derive(Clone, Copy, Debug)]
pub enum GroupCall<'a> {
    /// `obs_get_source_by_name`; yes: the source, with a reference.
    FindSource(&'a str),
    /// `obs_scene_from_source` of that source.
    SceneOfSource,
    /// `obs_source_release` of that source.
    ReleaseSource,
    /// `obs_scene_add_group` to the scene.
    AddGroup(&'a str),
    /// `obs_scene_find_source` in the scene, for the group's item.
    FindGroup(&'a str),
    /// `obs_scene_find_source` in the scene, for a source's item.
    FindItem(&'a str),
    /// `obs_sceneitem_group_get_scene` of the group's item.
    SceneOfGroup,
    /// `obs_scene_find_source` in the group's own scene.
    FindItemInGroup(&'a str),
    /// `obs_sceneitem_group_add_item`.
    AddItem,
    /// `obs_sceneitem_group_remove_item`.
    RemoveItem,
    /// `obs_sceneitem_set_locked` of the group's item. What it returns is
    /// the earlier state, no sign of success.
    SetLocked(bool),
}

/// What stopped a request.
#[derive(Clone, Copy, PartialEq, Eq, Structural, Debug)]
pub enum GroupFault {
    SymbolMissing,
    AddGroupMissing,
    NoSource,
    NotAScene,
    NotCreated,
    NoGroup,
    NoItem,
    NoGroupScene,
    NotInGroup,
}

/// Which of the libobs functions could be found.
#[derive(Clone, Copy, PartialEq, Eq, Structural, Debug)]
pub struct GroupSymbols {
    /// `obs_get_source_by_name`, `obs_scene_from_source` and
    /// `obs_source_release`.
    pub scenes: bool,
    pub add_group: bool,
    pub find_source: bool,
    pub add_item: bool,
    pub remove_item: bool,
    pub group_scene: bool,
    pub set_locked: bool,
}

pub open spec fn group_error_text(
    fault: GroupFault,
    scene: Seq<char>,
    group: Seq<char>,
    source: Seq<char>,
) -> Seq<char> {
    match fault {
        GroupFault::SymbolMissing => "required libobs symbol not resolved"@,
        GroupFault::AddGroupMissing => "obs_scene_add_group not resolved"@,
        GroupFault::NoSource => "no source named '"@ + scene + "' (scene not created yet?)"@,
        GroupFault::NotAScene => "source '"@ + scene + "' exists but is not a scene"@,
        GroupFault::NotCreated => "obs_scene_add_group('"@ + group + "') returned null"@,
        GroupFault::NoGroup => "no group named '"@ + group + "' in scene '"@ + scene + "'"@,
        GroupFault::NoItem => "no top-level item for source '"@ + source + "' in scene '"@ + scene
            + "' (already in a group, or not in this scene at all?)"@,
        GroupFault::NoGroupScene => "'"@ + group + "' has no group sub-scene (is it really a group?)"@,
        GroupFault::NotInGroup => "'"@ + source + "' is not currently inside group '"@ + group + "'"@,
    }
}

/// The error a request answers with.
pub fn group_error(fault: GroupFault, scene_name: &str, group_name: &str, source_name: &str) -> (message: String)
    ensures
        message@ == group_error_text(fault, scene_name@, group_name@, source_name@),
        ({
            let scene = scene_name@;
            let group = group_name@;
            let source = source_name@;
            message@ == (match fault {
                GroupFault::SymbolMissing => "required libobs symbol not resolved"@,
                GroupFault::AddGroupMissing => "obs_scene_add_group not resolved"@,
                GroupFault::NoSource => "no source named '"@ + scene + "' (scene not created yet?)"@,
                GroupFault::NotAScene => "source '"@ + scene + "' exists but is not a scene"@,
                GroupFault::NotCreated => "obs_scene_add_group('"@ + group + "') returned null"@,
                GroupFault::NoGroup => "no group named '"@ + group + "' in scene '"@ + scene + "'"@,
                GroupFault::NoItem => "no top-level item for source '"@ + source + "' in scene '"@ + scene
                    + "' (already in a group, or not in this scene at all?)"@,
                GroupFault::NoGroupScene => "'"@ + group + "' has no group sub-scene (is it really a group?)"@,
                GroupFault::NotInGroup => "'"@ + source + "' is not currently inside group '"@ + group + "'"@,
            })
        }),
{
    let message = match fault {
        GroupFault::SymbolMissing => "required libobs symbol not resolved".to_owned(),
        GroupFault::AddGroupMissing => "obs_scene_add_group not resolved".to_owned(),
        GroupFault::NoSource => text5("no source named '", scene_name, "' (scene not created yet?)", "", ""),
        GroupFault::NotAScene => text5("source '", scene_name, "' exists but is not a scene", "", ""),
        GroupFault::NotCreated => text5("obs_scene_add_group('", group_name, "') returned null", "", ""),
        GroupFault::NoGroup => text5("no group named '", group_name, "' in scene '", scene_name, "'"),
        GroupFault::NoItem => text5(
            "no top-level item for source '",
            source_name,
            "' in scene '",
            scene_name,
            "' (already in a group, or not in this scene at all?)",
        ),
        GroupFault::NoGroupScene => text5(
            "'",
            group_name,
            "' has no group sub-scene (is it really a group?)",
            "",
            "",
        ),
        GroupFault::NotInGroup => text5("'", source_name, "' is not currently inside group '", group_name, "'"),
    };
    proof {
        reveal_strlit("");
        assert(message@ =~= group_error_text(fault, scene_name@, group_name@, source_name@));
    }
    message
}

/// Looks up the scene: its source, the scene behind it, and the source's
/// reference given back whether or not it is a scene.
pub open spec fn find_scene_ops<'a>(
    symbols: GroupSymbols,
    scene_name: &'a str,
) -> Seq<Op<GroupCall<'a>, GroupFault>> {
    seq![
        Op::Need { met: symbols.scenes, fault: GroupFault::SymbolMissing },
        Op::Do { call: GroupCall::FindSource(scene_name), when: When::Always },
        Op::Require { answer: 1, fault: GroupFault::NoSource },
        Op::Do { call: GroupCall::SceneOfSource, when: When::Always },
        Op::Do { call: GroupCall::ReleaseSource, when: When::Always },
        Op::Require { answer: 3, fault: GroupFault::NotAScene },
    ]
}

fn find_scene<'a>(symbols: GroupSymbols, scene_name: &'a str) -> (ops: Vec<Op<GroupCall<'a>, GroupFault>>)
    ensures
        ops@ == find_scene_ops(symbols, scene_name),
{
    let ops: Vec<Op<GroupCall<'a>, GroupFault>> = vec![
        Op::Need { met: symbols.scenes, fault: GroupFault::SymbolMissing },
        Op::Do { call: GroupCall::FindSource(scene_name), when: When::Always },
        Op::Require { answer: 1, fault: GroupFault::NoSource },
        Op::Do { call: GroupCall::SceneOfSource, when: When::Always },
        Op::Do { call: GroupCall::ReleaseSource, when: When::Always },
        Op::Require { answer: 3, fault: GroupFault::NotAScene },
    ];
    assert(ops@ =~= find_scene_ops(symbols, scene_name));
    ops
}

/// How looking up a scene goes; `rest` is what follows once it is found.
pub open spec fn find_scene_course<'a>(
    symbols: GroupSymbols,
    scene_name: &'a str,
    host: spec_fn(int) -> bool,
    rest: crate::plan::Course<GroupCall<'a>, GroupFault>,
) -> crate::plan::Course<GroupCall<'a>, GroupFault> {
    if !symbols.scenes {
        crate::plan::stopped(Some(GroupFault::SymbolMissing))
    } else if !host(1) {
        crate::plan::Course {
            calls: seq![(GroupCall::FindSource(scene_name), false)],
            fault: Some(GroupFault::NoSource),
        }
    } else if !host(3) {
        crate::plan::Course {
            calls: seq![
                (GroupCall::FindSource(scene_name), true),
                (GroupCall::SceneOfSource, false),
                (GroupCall::ReleaseSource, host(4)),
            ],
            fault: Some(GroupFault::NotAScene),
        }
    } else {
        crate::plan::Course {
            calls: seq![
                (GroupCall::FindSource(scene_name), true),
                (GroupCall::SceneOfSource, true),
                (GroupCall::ReleaseSource, host(4)),
            ] + rest.calls,
            fault: rest.fault,
        }
    }
}

/// What a call does to the references held to sources.
pub open spec fn source_references(call: (GroupCall<'_>, bool)) -> int {
    match call.0 {
        GroupCall::FindSource(_) => if call.1 {
            1
        } else {
            0
        },
        GroupCall::ReleaseSource => -1,
        _ => 0,
    }
}

/// Every reference to a source that was taken has been given back.
pub open spec fn given_back(calls: Seq<(GroupCall<'_>, bool)>) -> bool {
    crate::plan::balance(calls, |call: (GroupCall<'_>, bool)| source_references(call)) == 0
}

pub open spec fn create_group_ops<'a>(
    symbols: GroupSymbols,
    scene_name: &'a str,
    group_name: &'a str,
) -> Seq<Op<GroupCall<'a>, GroupFault>> {
    find_scene_ops(symbols, scene_name) + seq![
        Op::Need { met: symbols.add_group, fault: GroupFault::AddGroupMissing },
        Op::Do { call: GroupCall::AddGroup(group_name), when: When::Always },
        Op::Require { answer: 7, fault: GroupFault::NotCreated },
    ]
}

/// Creates a group in a scene. A second call with the same name makes a
/// second group of that name.
pub fn create_group<'a>(
    symbols: GroupSymbols,
    scene_name: &'a str,
    group_name: &'a str,
) -> (plan: Plan<GroupCall<'a>, GroupFault>)
    ensures
        plan.fresh(create_group_ops(symbols, scene_name, group_name)),
{
    let mut ops = find_scene(symbols, scene_name);
    ops.push(Op::Need { met: symbols.add_group, fault: GroupFault::AddGroupMissing });
    ops.push(Op::Do { call: GroupCall::AddGroup(group_name), when: When::Always });
    ops.push(Op::Require { answer: 7, fault: GroupFault::NotCreated });
    assert(ops@ =~= create_group_ops(symbols, scene_name, group_name));
    Plan::new(ops)
}

/// What follows once the scene is found.
pub open spec fn create_group_course<'a>(
    symbols: GroupSymbols,
    scene_name: &'a str,
    group_name: &'a str,
    host: spec_fn(int) -> bool,
) -> crate::plan::Course<GroupCall<'a>, GroupFault> {
    if !symbols.add_group {
        crate::plan::stopped(Some(GroupFault::AddGroupMissing))
    } else if !host(7) {
        crate::plan::Course {
            calls: seq![(GroupCall::AddGroup(group_name), false)],
            fault: Some(GroupFault::NotCreated),
        }
    } else {
        crate::plan::Course { calls: seq![(GroupCall::AddGroup(group_name), true)], fault: None }
    }
}

/// How creating a group goes: the scene is looked up and its reference
/// given back; then the group is added, if libobs can.
pub proof fn how_a_group_is_created<'a>(
    symbols: GroupSymbols,
    scene_name: &'a str,
    group_name: &'a str,
    host: spec_fn(int) -> bool,
)
    ensures
        crate::plan::whole_course(
            create_group_ops(symbols, scene_name, group_name),
            host,
        ) == find_scene_course(
            symbols,
            scene_name,
            host,
            create_group_course(symbols, scene_name, group_name, host),
        ),
        ({
            let rest = if !symbols.add_group {
                crate::plan::stopped(Some(GroupFault::AddGroupMissing))
            } else if !host(7) {
                crate::plan::Course {
                    calls: seq![(GroupCall::AddGroup(group_name), false)],
                    fault: Some(GroupFault::NotCreated),
                }
            } else {
                crate::plan::Course { calls: seq![(GroupCall::AddGroup(group_name), true)], fault: None }
            };
            let course = crate::plan::whole_course(create_group_ops(symbols, scene_name, group_name), host);
            course == if !symbols.scenes {
                crate::plan::stopped(Some(GroupFault::SymbolMissing))
            } else if !host(1) {
                crate::plan::Course {
                    calls: seq![(GroupCall::FindSource(scene_name), false)],
                    fault: Some(GroupFault::NoSource),
                }
            } else if !host(3) {
                crate::plan::Course {
                    calls: seq![
                        (GroupCall::FindSource(scene_name), true),
                        (GroupCall::SceneOfSource, false),
                        (GroupCall::ReleaseSource, host(4)),
                    ],
                    fault: Some(GroupFault::NotAScene),
                }
            } else {
                crate::plan::Course {
                    calls: seq![
                        (GroupCall::FindSource(scene_name), true),
                        (GroupCall::SceneOfSource, true),
                        (GroupCall::ReleaseSource, host(4)),
                    ] + rest.calls,
                    fault: rest.fault,
                }
            }
        }),
        given_back(crate::plan::whole_course(create_group_ops(symbols, scene_name, group_name), host).calls),
{
    let ops = create_group_ops(symbols, scene_name, group_name);
    crate::plan::every_step(ops, host);
    assert(
        crate::plan::whole_course(ops, host) =~= find_scene_course(
            symbols,
            scene_name,
            host,
            create_group_course(symbols, scene_name, group_name, host),
        )
    );
}

pub open spec fn add_item_to_group_ops<'a>(
    symbols: GroupSymbols,
    scene_name: &'a str,
    group_name: &'a str,
    source_name: &'a str,
) -> Seq<Op<GroupCall<'a>, GroupFault>> {
    find_scene_ops(symbols, scene_name) + seq![
        Op::Need { met: symbols.find_source && symbols.add_item, fault: GroupFault::SymbolMissing },
        Op::Do { call: GroupCall::FindGroup(group_name), when: When::Always },
        Op::Require { answer: 7, fault: GroupFault::NoGroup },
        Op::Do { call: GroupCall::FindItem(source_name), when: When::Always },
        Op::Require { answer: 9, fault: GroupFault::NoItem },
        Op::Do { call: GroupCall::AddItem, when: When::Always },
    ]
}

/// Moves a source's item of the scene into a group. libobs does nothing
/// where the item is not a direct item of the scene, so it is looked for
/// only there.
pub fn add_item_to_group<'a>(
    symbols: GroupSymbols,
    scene_name: &'a str,
    group_name: &'a str,
    source_name: &'a str,
) -> (plan: Plan<GroupCall<'a>, GroupFault>)
    ensures
        plan.fresh(add_item_to_group_ops(symbols, scene_name, group_name, source_name)),
{
    let mut ops = find_scene(symbols, scene_name);
    ops.push(Op::Need { met: symbols.find_source && symbols.add_item, fault: GroupFault::SymbolMissing });
    ops.push(Op::Do { call: GroupCall::FindGroup(group_name), when: When::Always });
    ops.push(Op::Require { answer: 7, fault: GroupFault::NoGroup });
    ops.push(Op::Do { call: GroupCall::FindItem(source_name), when: When::Always });
    ops.push(Op::Require { answer: 9, fault: GroupFault::NoItem });
    ops.push(Op::Do { call: GroupCall::AddItem, when: When::Always });
    assert(ops@ =~= add_item_to_group_ops(symbols, scene_name, group_name, source_name));
    Plan::new(ops)
}

/// What follows once the scene is found.
pub open spec fn add_item_to_group_course<'a>(
    symbols: GroupSymbols,
    scene_name: &'a str,
    group_name: &'a str,
    source_name: &'a str,
    host: spec_fn(int) -> bool,
) -> crate::plan::Course<GroupCall<'a>, GroupFault> {
    if !(symbols.find_source && symbols.add_item) {
        crate::plan::stopped(Some(GroupFault::SymbolMissing))
    } else if !host(7) {
        crate::plan::Course {
            calls: seq![(GroupCall::FindGroup(group_name), false)],
            fault: Some(GroupFault::NoGroup),
        }
    } else if !host(9) {
        crate::plan::Course {
            calls: seq![(GroupCall::FindGroup(group_name), true), (GroupCall::FindItem(source_name), false)],
            fault: Some(GroupFault::NoItem),
        }
    } else {
        crate::plan::Course {
            calls: seq![
                (GroupCall::FindGroup(group_name), true),
                (GroupCall::FindItem(source_name), true),
                (GroupCall::AddItem, host(11)),
            ],
            fault: None,
        }
    }
}

/// How an item joins a group: nothing is moved unless the group and the item
/// are both found in the scene.
pub proof fn how_an_item_joins_a_group<'a>(
    symbols: GroupSymbols,
    scene_name: &'a str,
    group_name: &'a str,
    source_name: &'a str,
    host: spec_fn(int) -> bool,
)
    ensures
        crate::plan::whole_course(
            add_item_to_group_ops(symbols, scene_name, group_name, source_name),
            host,
        ) == find_scene_course(
            symbols,
            scene_name,
            host,
            add_item_to_group_course(symbols, scene_name, group_name, source_name, host),
        ),
        ({
            let rest = if !(symbols.find_source && symbols.add_item) {
                crate::plan::stopped(Some(GroupFault::SymbolMissing))
            } else if !host(7) {
                crate::plan::Course {
                    calls: seq![(GroupCall::FindGroup(group_name), false)],
                    fault: Some(GroupFault::NoGroup),
                }
            } else if !host(9) {
                crate::plan::Course {
                    calls: seq![(GroupCall::FindGroup(group_name), true), (GroupCall::FindItem(source_name), false)],
                    fault: Some(GroupFault::NoItem),
                }
            } else {
                crate::plan::Course {
                    calls: seq![
                        (GroupCall::FindGroup(group_name), true),
                        (GroupCall::FindItem(source_name), true),
                        (GroupCall::AddItem, host(11)),
                    ],
                    fault: None,
                }
            };
            let course = crate::plan::whole_course(add_item_to_group_ops(symbols, scene_name, group_name, source_name), host);
            course == if !symbols.scenes {
                crate::plan::stopped(Some(GroupFault::SymbolMissing))
            } else if !host(1) {
                crate::plan::Course {
                    calls: seq![(GroupCall::FindSource(scene_name), false)],
                    fault: Some(GroupFault::NoSource),
                }
            } else if !host(3) {
                crate::plan::Course {
                    calls: seq![
                        (GroupCall::FindSource(scene_name), true),
                        (GroupCall::SceneOfSource, false),
                        (GroupCall::ReleaseSource, host(4)),
                    ],
                    fault: Some(GroupFault::NotAScene),
                }
            } else {
                crate::plan::Course {
                    calls: seq![
                        (GroupCall::FindSource(scene_name), true),
                        (GroupCall::SceneOfSource, true),
                        (GroupCall::ReleaseSource, host(4)),
                    ] + rest.calls,
                    fault: rest.fault,
                }
            }
        }),
        given_back(
            crate::plan::whole_course(
                add_item_to_group_ops(symbols, scene_name, group_name, source_name),
                host,
            ).calls,
        ),
{
    let ops = add_item_to_group_ops(symbols, scene_name, group_name, source_name);
    crate::plan::every_step(ops, host);
    assert(
        crate::plan::whole_course(ops, host) =~= find_scene_course(
            symbols,
            scene_name,
            host,
            add_item_to_group_course(symbols, scene_name, group_name, source_name, host),
        )
    );
}

pub open spec fn remove_item_from_group_ops<'a>(
    symbols: GroupSymbols,
    scene_name: &'a str,
    group_name: &'a str,
    source_name: &'a str,
) -> Seq<Op<GroupCall<'a>, GroupFault>> {
    find_scene_ops(symbols, scene_name) + seq![
        Op::Need {
            met: symbols.find_source && symbols.group_scene && symbols.remove_item,
            fault: GroupFault::SymbolMissing,
        },
        Op::Do { call: GroupCall::FindGroup(group_name), when: When::Always },
        Op::Require { answer: 7, fault: GroupFault::NoGroup },
        Op::Do { call: GroupCall::SceneOfGroup, when: When::Always },
        Op::Require { answer: 9, fault: GroupFault::NoGroupScene },
        Op::Do { call: GroupCall::FindItemInGroup(source_name), when: When::Always },
        Op::Require { answer: 11, fault: GroupFault::NotInGroup },
        Op::Do { call: GroupCall::RemoveItem, when: When::Always },
    ]
}

/// Moves a source's item back out of a group. It is looked for in the
/// group's own scene, where it went.
pub fn remove_item_from_group<'a>(
    symbols: GroupSymbols,
    scene_name: &'a str,
    group_name: &'a str,
    source_name: &'a str,
) -> (plan: Plan<GroupCall<'a>, GroupFault>)
    ensures
        plan.fresh(remove_item_from_group_ops(symbols, scene_name, group_name, source_name)),
{
    let mut ops = find_scene(symbols, scene_name);
    ops.push(
        Op::Need {
            met: symbols.find_source && symbols.group_scene && symbols.remove_item,
            fault: GroupFault::SymbolMissing,
        },
    );
    ops.push(Op::Do { call: GroupCall::FindGroup(group_name), when: When::Always });
    ops.push(Op::Require { answer: 7, fault: GroupFault::NoGroup });
    ops.push(Op::Do { call: GroupCall::SceneOfGroup, when: When::Always });
    ops.push(Op::Require { answer: 9, fault: GroupFault::NoGroupScene });
    ops.push(Op::Do { call: GroupCall::FindItemInGroup(source_name), when: When::Always });
    ops.push(Op::Require { answer: 11, fault: GroupFault::NotInGroup });
    ops.push(Op::Do { call: GroupCall::RemoveItem, when: When::Always });
    assert(ops@ =~= remove_item_from_group_ops(symbols, scene_name, group_name, source_name));
    Plan::new(ops)
}

/// What follows once the scene is found.
pub open spec fn remove_item_from_group_course<'a>(
    symbols: GroupSymbols,
    scene_name: &'a str,
    group_name: &'a str,
    source_name: &'a str,
    host: spec_fn(int) -> bool,
) -> crate::plan::Course<GroupCall<'a>, GroupFault> {
    if !(symbols.find_source && symbols.group_scene && symbols.remove_item) {
        crate::plan::stopped(Some(GroupFault::SymbolMissing))
    } else if !host(7) {
        crate::plan::Course {
            calls: seq![(GroupCall::FindGroup(group_name), false)],
            fault: Some(GroupFault::NoGroup),
        }
    } else if !host(9) {
        crate::plan::Course {
            calls: seq![(GroupCall::FindGroup(group_name), true), (GroupCall::SceneOfGroup, false)],
            fault: Some(GroupFault::NoGroupScene),
        }
    } else if !host(11) {
        crate::plan::Course {
            calls: seq![
                (GroupCall::FindGroup(group_name), true),
                (GroupCall::SceneOfGroup, true),
                (GroupCall::FindItemInGroup(source_name), false),
            ],
            fault: Some(GroupFault::NotInGroup),
        }
    } else {
        crate::plan::Course {
            calls: seq![
                (GroupCall::FindGroup(group_name), true),
                (GroupCall::SceneOfGroup, true),
                (GroupCall::FindItemInGroup(source_name), true),
                (GroupCall::RemoveItem, host(13)),
            ],
            fault: None,
        }
    }
}

/// How an item leaves a group: nothing is moved unless it is found in the
/// group's own scene.
pub proof fn how_an_item_leaves_a_group<'a>(
    symbols: GroupSymbols,
    scene_name: &'a str,
    group_name: &'a str,
    source_name: &'a str,
    host: spec_fn(int) -> bool,
)
    ensures
        crate::plan::whole_course(
            remove_item_from_group_ops(symbols, scene_name, group_name, source_name),
            host,
        ) == find_scene_course(
            symbols,
            scene_name,
            host,
            remove_item_from_group_course(symbols, scene_name, group_name, source_name, host),
        ),
        ({
            let rest = if !(symbols.find_source && symbols.group_scene && symbols.remove_item) {
                crate::plan::stopped(Some(GroupFault::SymbolMissing))
            } else if !host(7) {
                crate::plan::Course {
                    calls: seq![(GroupCall::FindGroup(group_name), false)],
                    fault: Some(GroupFault::NoGroup),
                }
            } else if !host(9) {
                crate::plan::Course {
                    calls: seq![(GroupCall::FindGroup(group_name), true), (GroupCall::SceneOfGroup, false)],
                    fault: Some(GroupFault::NoGroupScene),
                }
            } else if !host(11) {
                crate::plan::Course {
                    calls: seq![
                        (GroupCall::FindGroup(group_name), true),
                        (GroupCall::SceneOfGroup, true),
                        (GroupCall::FindItemInGroup(source_name), false),
                    ],
                    fault: Some(GroupFault::NotInGroup),
                }
            } else {
                crate::plan::Course {
                    calls: seq![
                        (GroupCall::FindGroup(group_name), true),
                        (GroupCall::SceneOfGroup, true),
                        (GroupCall::FindItemInGroup(source_name), true),
                        (GroupCall::RemoveItem, host(13)),
                    ],
                    fault: None,
                }
            };
            let course = crate::plan::whole_course(remove_item_from_group_ops(symbols, scene_name, group_name, source_name), host);
            course == if !symbols.scenes {
                crate::plan::stopped(Some(GroupFault::SymbolMissing))
            } else if !host(1) {
                crate::plan::Course {
                    calls: seq![(GroupCall::FindSource(scene_name), false)],
                    fault: Some(GroupFault::NoSource),
                }
            } else if !host(3) {
                crate::plan::Course {
                    calls: seq![
                        (GroupCall::FindSource(scene_name), true),
                        (GroupCall::SceneOfSource, false),
                        (GroupCall::ReleaseSource, host(4)),
                    ],
                    fault: Some(GroupFault::NotAScene),
                }
            } else {
                crate::plan::Course {
                    calls: seq![
                        (GroupCall::FindSource(scene_name), true),
                        (GroupCall::SceneOfSource, true),
                        (GroupCall::ReleaseSource, host(4)),
                    ] + rest.calls,
                    fault: rest.fault,
                }
            }
        }),
        given_back(
            crate::plan::whole_course(
                remove_item_from_group_ops(symbols, scene_name, group_name, source_name),
                host,
            ).calls,
        ),
{
    let ops = remove_item_from_group_ops(symbols, scene_name, group_name, source_name);
    crate::plan::every_step(ops, host);
    assert(
        crate::plan::whole_course(ops, host) =~= find_scene_course(
            symbols,
            scene_name,
            host,
            remove_item_from_group_course(symbols, scene_name, group_name, source_name, host),
        )
    );
}

pub open spec fn set_group_locked_ops<'a>(
    symbols: GroupSymbols,
    scene_name: &'a str,
    group_name: &'a str,
    locked: bool,
) -> Seq<Op<GroupCall<'a>, GroupFault>> {
    find_scene_ops(symbols, scene_name) + seq![
        Op::Need { met: symbols.find_source && symbols.set_locked, fault: GroupFault::SymbolMissing },
        Op::Do { call: GroupCall::FindGroup(group_name), when: When::Always },
        Op::Require { answer: 7, fault: GroupFault::NoGroup },
        Op::Do { call: GroupCall::SetLocked(locked), when: When::Always },
    ]
}

/// Locks or unlocks a group's own item.
pub fn set_group_locked<'a>(
    symbols: GroupSymbols,
    scene_name: &'a str,
    group_name: &'a str,
    locked: bool,
) -> (plan: Plan<GroupCall<'a>, GroupFault>)
    ensures
        plan.fresh(set_group_locked_ops(symbols, scene_name, group_name, locked)),
{
    let mut ops = find_scene(symbols, scene_name);
    ops.push(Op::Need { met: symbols.find_source && symbols.set_locked, fault: GroupFault::SymbolMissing });
    ops.push(Op::Do { call: GroupCall::FindGroup(group_name), when: When::Always });
    ops.push(Op::Require { answer: 7, fault: GroupFault::NoGroup });
    ops.push(Op::Do { call: GroupCall::SetLocked(locked), when: When::Always });
    assert(ops@ =~= set_group_locked_ops(symbols, scene_name, group_name, locked));
    Plan::new(ops)
}

/// What follows once the scene is found.
pub open spec fn set_group_locked_course<'a>(
    symbols: GroupSymbols,
    scene_name: &'a str,
    group_name: &'a str,
    locked: bool,
    host: spec_fn(int) -> bool,
) -> crate::plan::Course<GroupCall<'a>, GroupFault> {
    if !(symbols.find_source && symbols.set_locked) {
        crate::plan::stopped(Some(GroupFault::SymbolMissing))
    } else if !host(7) {
        crate::plan::Course {
            calls: seq![(GroupCall::FindGroup(group_name), false)],
            fault: Some(GroupFault::NoGroup),
        }
    } else {
        crate::plan::Course {
            calls: seq![(GroupCall::FindGroup(group_name), true), (GroupCall::SetLocked(locked), host(9))],
            fault: None,
        }
    }
}

/// How a group is locked: whatever libobs returns, the request has succeeded
/// once the group was found.
pub proof fn how_a_group_is_locked<'a>(
    symbols: GroupSymbols,
    scene_name: &'a str,
    group_name: &'a str,
    locked: bool,
    host: spec_fn(int) -> bool,
)
    ensures
        crate::plan::whole_course(
            set_group_locked_ops(symbols, scene_name, group_name, locked),
            host,
        ) == find_scene_course(
            symbols,
            scene_name,
            host,
            set_group_locked_course(symbols, scene_name, group_name, locked, host),
        ),
        ({
            let rest = if !(symbols.find_source && symbols.set_locked) {
                crate::plan::stopped(Some(GroupFault::SymbolMissing))
            } else if !host(7) {
                crate::plan::Course {
                    calls: seq![(GroupCall::FindGroup(group_name), false)],
                    fault: Some(GroupFault::NoGroup),
                }
            } else {
                crate::plan::Course {
                    calls: seq![(GroupCall::FindGroup(group_name), true), (GroupCall::SetLocked(locked), host(9))],
                    fault: None,
                }
            };
            let course = crate::plan::whole_course(set_group_locked_ops(symbols, scene_name, group_name, locked), host);
            course == if !symbols.scenes {
                crate::plan::stopped(Some(GroupFault::SymbolMissing))
            } else if !host(1) {
                crate::plan::Course {
                    calls: seq![(GroupCall::FindSource(scene_name), false)],
                    fault: Some(GroupFault::NoSource),
                }
            } else if !host(3) {
                crate::plan::Course {
                    calls: seq![
                        (GroupCall::FindSource(scene_name), true),
                        (GroupCall::SceneOfSource, false),
                        (GroupCall::ReleaseSource, host(4)),
                    ],
                    fault: Some(GroupFault::NotAScene),
                }
            } else {
                crate::plan::Course {
                    calls: seq![
                        (GroupCall::FindSource(scene_name), true),
                        (GroupCall::SceneOfSource, true),
                        (GroupCall::ReleaseSource, host(4)),
                    ] + rest.calls,
                    fault: rest.fault,
                }
            }
        }),
        given_back(
            crate::plan::whole_course(set_group_locked_ops(symbols, scene_name, group_name, locked), host).calls,
        ),
{
    let ops = set_group_locked_ops(symbols, scene_name, group_name, locked);
    crate::plan::every_step(ops, host);
    assert(
        crate::plan::whole_course(ops, host) =~= find_scene_course(
            symbols,
            scene_name,
            host,
            set_group_locked_course(symbols, scene_name, group_name, locked, host),
        )
    );
}

} // verus!
