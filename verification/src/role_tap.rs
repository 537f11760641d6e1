// SPDX-License-Identifier: GPL-2.0-or-later
//! Audio taps on the scenes that are Program and Preview, by role.
//!
//! A role moves from scene to scene. Its tap moves with it: it is taken off
//! the scene the role has left, so that no scene that was once on air keeps
//! one.

use vstd::prelude::*;

use crate::plan::{Op, Plan, When};
use crate::text::{copy_name, has_nul, same_text};

verus! {

/// A call that moves a role's tap.
#[derive(Clone, Copy, Debug)]
pub enum RoleCall<'a> {
    /// `obs_get_source_by_name` of the scene tapped so far; yes: with a
    /// reference.
    FindOld,
    /// `obs_source_remove_audio_capture_callback` of that scene.
    RemoveFromOld,
    /// `obs_source_release` of that scene.
    ReleaseOld,
    /// `obs_get_source_by_name` of the scene to tap; yes: with a reference.
    Find(&'a str),
    /// `obs_source_remove_audio_capture_callback` of the scene to tap.
    Remove,
    /// `obs_source_add_audio_capture_callback` of the scene to tap.
    Add,
    /// `obs_source_release` of the scene to tap.
    Release,
}

/// Why a role's scene was not tapped.
#[derive(Clone, Copy, PartialEq, Eq, Structural, Debug)]
pub enum RoleFault {
    SymbolMissing,
    /// OBS has no scene of that name yet.
    NotPresent,
}

/// What libobs offers.
#[derive(Clone, Copy, PartialEq, Eq, Structural, Debug)]
pub struct RoleSymbols {
    /// `obs_get_source_by_name`, `obs_source_add_audio_capture_callback` and
    /// `obs_source_release`.
    pub basic: bool,
    /// `obs_source_remove_audio_capture_callback`.
    pub remove: bool,
}

/// The text, where there is one.
pub open spec fn text_of(text: Option<&str>) -> Option<Seq<char>> {
    match text {
        Some(t) => Some(t@),
        None => None,
    }
}

/// Whether a name can be handed to libobs.
pub open spec fn nameable(name: Option<Seq<char>>) -> bool {
    name matches Some(text) && !text.contains('\0')
}

/// Whether the tap has to be taken off the scene it is on.
pub open spec fn leaves_old(symbols: RoleSymbols, attached: Option<Seq<char>>, scene: Option<Seq<char>>) -> bool {
    attached != scene && nameable(attached) && symbols.remove
}

/// Takes the tap off the old scene, from the place `at` of the plan on.
pub open spec fn leave_ops<'a>(at: int) -> Seq<Op<RoleCall<'a>, RoleFault>> {
    seq![
        Op::Do { call: RoleCall::FindOld, when: When::Always },
        Op::Do { call: RoleCall::RemoveFromOld, when: When::If(at as usize) },
        Op::Do { call: RoleCall::ReleaseOld, when: When::If(at as usize) },
    ]
}

/// Taps a scene, from the place `at` of the plan on.
pub open spec fn tap_ops<'a>(symbols: RoleSymbols, name: &'a str, at: int) -> Seq<Op<RoleCall<'a>, RoleFault>> {
    seq![
        Op::Do { call: RoleCall::Find(name), when: When::Always },
        Op::Require { answer: at as usize, fault: RoleFault::NotPresent },
    ] + (if symbols.remove {
        seq![Op::Do { call: RoleCall::Remove, when: When::Always }]
    } else {
        Seq::empty()
    }) + seq![
        Op::Do { call: RoleCall::Add, when: When::Always },
        Op::Do { call: RoleCall::Release, when: When::Always },
    ]
}

pub open spec fn role_ops<'a>(symbols: RoleSymbols, attached: Option<Seq<char>>, scene: Option<&'a str>) -> Seq<
    Op<RoleCall<'a>, RoleFault>,
> {
    let head = seq![Op::Need { met: symbols.basic, fault: RoleFault::SymbolMissing }] + (if leaves_old(
        symbols,
        attached,
        text_of(scene),
    ) {
        leave_ops(1)
    } else {
        Seq::empty()
    });
    head + (match scene {
        Some(name) if nameable(Some(name@)) => tap_ops(symbols, name, head.len() as int),
        _ => Seq::empty(),
    })
}

/// The tap of one role.
pub struct RoleTap {
    attached: Option<String>,
}

impl RoleTap {
    /// The scene the role is tapped on.
    pub closed spec fn attached(&self) -> Option<Seq<char>> {
        crate::text::name_of(self.attached)
    }

    pub fn new() -> (tap: Self)
        ensures
            tap.attached() is None,
    {
        RoleTap { attached: None }
    }

    /// The scene the role is tapped on.
    pub fn scene(&self) -> (scene: Option<String>)
        ensures
            crate::text::name_of(scene) == self.attached(),
    {
        copy_name(&self.attached)
    }

    fn is_on(&self, scene: Option<&str>) -> (same: bool)
        ensures
            same == (self.attached() == text_of(scene)),
    {
        match (&self.attached, scene) {
            (Some(a), Some(b)) => same_text(a.as_str(), b),
            (None, None) => true,
            _ => false,
        }
    }

    /// Moves the tap to `scene`. A tap that is already there is renewed all
    /// the same, for the scene may have been made anew under its name.
    pub fn attach_role_tap<'a>(&self, symbols: RoleSymbols, scene: Option<&'a str>) -> (plan: Plan<
        RoleCall<'a>,
        RoleFault,
    >)
        ensures
            plan.fresh(role_ops(symbols, self.attached(), scene)),
    {
        let mut ops: Vec<Op<RoleCall<'a>, RoleFault>> = Vec::new();
        ops.push(Op::Need { met: symbols.basic, fault: RoleFault::SymbolMissing });
        let old_named = match &self.attached {
            Some(old_name) => !has_nul(old_name.as_str()),
            None => false,
        };
        let ghost mut head = ops@;
        if !self.is_on(scene) && old_named && symbols.remove {
            ops.push(Op::Do { call: RoleCall::FindOld, when: When::Always });
            ops.push(Op::Do { call: RoleCall::RemoveFromOld, when: When::If(1) });
            ops.push(Op::Do { call: RoleCall::ReleaseOld, when: When::If(1) });
            proof {
                assert(ops@ =~= head + leave_ops(1));
                head = ops@;
            }
        }
        let at: usize = ops.len();
        match scene {
            Some(name) => {
                if !has_nul(name) {
                    ops.push(Op::Do { call: RoleCall::Find(name), when: When::Always });
                    ops.push(Op::Require { answer: at, fault: RoleFault::NotPresent });
                    if symbols.remove {
                        ops.push(Op::Do { call: RoleCall::Remove, when: When::Always });
                    }
                    ops.push(Op::Do { call: RoleCall::Add, when: When::Always });
                    ops.push(Op::Do { call: RoleCall::Release, when: When::Always });
                    assert(ops@ =~= head + tap_ops(symbols, name, at as int));
                }
            },
            None => {},
        }
        assert(ops@ =~= role_ops(symbols, self.attached(), scene));
        Plan::new(ops)
    }

    /// Notes how moving the tap went: `done` where the plan stopped at
    /// nothing.
    pub fn settle(&mut self, symbols: RoleSymbols, scene: Option<&str>, done: bool)
        ensures
            final(self).attached() == (if !symbols.basic {
                old(self).attached()
            } else if done && nameable(text_of(scene)) {
                text_of(scene)
            } else if old(self).attached() == text_of(scene) {
                old(self).attached()
            } else {
                None
            }),
            !symbols.basic ==> final(self).attached() == old(self).attached(),
            symbols.basic && scene is None ==> final(self).attached() is None,
            symbols.basic ==> (scene matches Some(name) ==> final(self).attached() == (if (done && !name@.contains(
                '\0',
            )) || old(self).attached() == Some(name@) {
                Some(name@)
            } else {
                None
            })),
    {
        if !symbols.basic {
            return;
        }
        if !self.is_on(scene) {
            self.attached = None;
        }
        if done {
            match scene {
                Some(name) => {
                    if !has_nul(name) {
                        self.attached = Some(name.to_owned());
                    }
                },
                None => {},
            }
        }
    }
}

/// What a call does to the references held to scenes.
pub open spec fn scene_references(call: (RoleCall<'_>, bool)) -> int {
    match call.0 {
        RoleCall::FindOld | RoleCall::Find(_) => if call.1 {
            1
        } else {
            0
        },
        RoleCall::ReleaseOld | RoleCall::Release => -1,
        _ => 0,
    }
}

/// What a call does to the taps on the scene the role has left.
pub open spec fn old_taps(call: (RoleCall<'_>, bool)) -> int {
    match call.0 {
        RoleCall::RemoveFromOld => -1,
        _ => 0,
    }
}

/// What a call does to the taps on the scene the role is on.
pub open spec fn new_taps(call: (RoleCall<'_>, bool)) -> int {
    match call.0 {
        RoleCall::Add => 1,
        _ => 0,
    }
}

/// Moving a tap gives back every reference it takes. It takes the tap off
/// the scene the role has left, where that scene still exists, and puts one
/// on the scene the role is on, where that scene exists.
pub proof fn a_tap_moves_with_its_role<'a>(
    symbols: RoleSymbols,
    attached: Option<Seq<char>>,
    scene: Option<&'a str>,
    host: spec_fn(int) -> bool,
)
    ensures
        ({
            let calls = crate::plan::whole_course(role_ops(symbols, attached, scene), host).calls;
            let leaves = leaves_old(symbols, attached, text_of(scene));
            let at: int = if leaves {
                4
            } else {
                1
            };
            &&& crate::plan::balance(calls, |call: (RoleCall<'_>, bool)| scene_references(call)) == 0
            &&& crate::plan::balance(calls, |call: (RoleCall<'_>, bool)| old_taps(call)) == (if symbols.basic && leaves
                && host(1) {
                -1int
            } else {
                0
            })
            &&& crate::plan::balance(calls, |call: (RoleCall<'_>, bool)| new_taps(call)) == (if symbols.basic
                && nameable(text_of(scene)) && host(at) {
                1int
            } else {
                0
            })
        }),
{
    crate::plan::every_step(role_ops(symbols, attached, scene), host);
}

/// How a tap moves, call by call: off the scene it was on, where that is
/// another one, and onto the role's scene, where it is renewed: an entry that
/// is there is taken out before one is added.
pub proof fn how_a_tap_moves<'a>(
    symbols: RoleSymbols,
    attached: Option<Seq<char>>,
    scene: Option<&'a str>,
    host: spec_fn(int) -> bool,
)
    ensures
        ({
            let course = crate::plan::whole_course(role_ops(symbols, attached, scene), host);
            let moves = match (attached, scene) {
                (Some(old_name), Some(name)) => old_name != name@,
                (Some(_), None) => true,
                (None, _) => false,
            };
            let leaves = moves && !attached->0.contains('\0') && symbols.remove;
            let taps = scene matches Some(name) && !name@.contains('\0');
            let at: int = if leaves {
                4
            } else {
                1
            };
            let after = if symbols.remove {
                at + 3
            } else {
                at + 2
            };
            &&& !symbols.basic ==> course.calls.len() == 0 && course.fault == Some(RoleFault::SymbolMissing)
            &&& symbols.basic ==> course.fault == (if taps && !host(at) {
                Some(RoleFault::NotPresent)
            } else {
                None
            })
            &&& symbols.basic ==> course.calls == (if !leaves {
                Seq::empty()
            } else if host(1) {
                seq![
                    (RoleCall::FindOld, true),
                    (RoleCall::RemoveFromOld, host(2)),
                    (RoleCall::ReleaseOld, host(3)),
                ]
            } else {
                seq![(RoleCall::FindOld, false)]
            }) + (if !taps {
                Seq::empty()
            } else if !host(at) {
                seq![(RoleCall::Find(scene->0), false)]
            } else {
                seq![(RoleCall::Find(scene->0), true)] + (if symbols.remove {
                    seq![(RoleCall::Remove, host(at + 2))]
                } else {
                    Seq::empty()
                }) + seq![(RoleCall::Add, host(after)), (RoleCall::Release, host(after + 1))]
            })
        }),
{
    let course = crate::plan::whole_course(role_ops(symbols, attached, scene), host);
    let moves = match (attached, scene) {
        (Some(old_name), Some(name)) => old_name != name@,
        (Some(_), None) => true,
        (None, _) => false,
    };
    let leaves = moves && !attached->0.contains('\0') && symbols.remove;
    let taps = scene matches Some(name) && !name@.contains('\0');
    let at: int = if leaves {
        4
    } else {
        1
    };
    let after = if symbols.remove {
        at + 3
    } else {
        at + 2
    };
    crate::plan::every_step(role_ops(symbols, attached, scene), host);
    if symbols.basic {
        assert(course.calls =~= (if !leaves {
            Seq::empty()
        } else if host(1) {
            seq![
                (RoleCall::FindOld, true),
                (RoleCall::RemoveFromOld, host(2)),
                (RoleCall::ReleaseOld, host(3)),
            ]
        } else {
            seq![(RoleCall::FindOld, false)]
        }) + (if !taps {
            Seq::empty()
        } else if !host(at) {
            seq![(RoleCall::Find(scene->0), false)]
        } else {
            seq![(RoleCall::Find(scene->0), true)] + (if symbols.remove {
                seq![(RoleCall::Remove, host(at + 2))]
            } else {
                Seq::empty()
            }) + seq![(RoleCall::Add, host(after)), (RoleCall::Release, host(after + 1))]
        }));
    }
}

// ---------------------------------------------------------------------
// The roles
// ---------------------------------------------------------------------

/// A call that reads the name of the scene that holds a role.
#[derive(Clone, Copy, PartialEq, Eq, Structural, Debug)]
pub enum NameCall {
    /// The frontend's getter; yes: the scene, with a reference.
    Get,
    /// `obs_source_get_name`; yes: its name.
    ReadName,
    /// `obs_source_release` of the scene.
    Release,
}

/// Why a role has no scene's name.
#[derive(Clone, Copy, PartialEq, Eq, Structural, Debug)]
pub enum NameFault {
    SymbolMissing,
    NoScene,
    NoName,
}

pub open spec fn frontend_scene_name_ops(symbols: bool) -> Seq<Op<NameCall, NameFault>> {
    seq![
        Op::Need { met: symbols, fault: NameFault::SymbolMissing },
        Op::Do { call: NameCall::Get, when: When::Always },
        Op::Require { answer: 1, fault: NameFault::NoScene },
        Op::Do { call: NameCall::ReadName, when: When::Always },
        Op::Do { call: NameCall::Release, when: When::Always },
        Op::Require { answer: 3, fault: NameFault::NoName },
    ]
}

/// Reads the name of the scene that holds a role. That there is none is a
/// normal state of OBS. `symbols`: the getter, `obs_source_get_name` and
/// `obs_source_release` are all there.
pub fn frontend_scene_name(symbols: bool) -> (plan: Plan<NameCall, NameFault>)
    ensures
        plan.fresh(frontend_scene_name_ops(symbols)),
{
    let ops: Vec<Op<NameCall, NameFault>> = vec![
        Op::Need { met: symbols, fault: NameFault::SymbolMissing },
        Op::Do { call: NameCall::Get, when: When::Always },
        Op::Require { answer: 1, fault: NameFault::NoScene },
        Op::Do { call: NameCall::ReadName, when: When::Always },
        Op::Do { call: NameCall::Release, when: When::Always },
        Op::Require { answer: 3, fault: NameFault::NoName },
    ];
    assert(ops@ =~= frontend_scene_name_ops(symbols));
    Plan::new(ops)
}

/// How the name is read.
pub open spec fn name_course(
    symbols: bool,
    host: spec_fn(int) -> bool,
) -> crate::plan::Course<NameCall, NameFault> {
    if !symbols {
        crate::plan::stopped(Some(NameFault::SymbolMissing))
    } else if !host(1) {
        crate::plan::Course {
            calls: seq![
                (NameCall::Get, false),
            ],
            fault: Some(NameFault::NoScene),
        }
    } else if !host(3) {
        crate::plan::Course {
            calls: seq![
                (NameCall::Get, true),
                (NameCall::ReadName, false),
                (NameCall::Release, host(4)),
            ],
            fault: Some(NameFault::NoName),
        }
    } else {
        crate::plan::Course {
            calls: seq![
                (NameCall::Get, true),
                (NameCall::ReadName, true),
                (NameCall::Release, host(4)),
            ],
            fault: None,
        }
    }
}

/// A scene that was handed out is given back, whether or not it has a name.
pub proof fn how_a_scene_name_is_read(symbols: bool, host: spec_fn(int) -> bool)
    ensures
        crate::plan::whole_course(frontend_scene_name_ops(symbols), host) == name_course(symbols, host),
        crate::plan::whole_course(frontend_scene_name_ops(symbols), host) == (if !symbols {
            crate::plan::stopped(Some(NameFault::SymbolMissing))
        } else if !host(1) {
            crate::plan::Course {
                calls: seq![
                    (NameCall::Get, false),
                ],
                fault: Some(NameFault::NoScene),
            }
        } else if !host(3) {
            crate::plan::Course {
                calls: seq![
                    (NameCall::Get, true),
                    (NameCall::ReadName, false),
                    (NameCall::Release, host(4)),
                ],
                fault: Some(NameFault::NoName),
            }
        } else {
            crate::plan::Course {
                calls: seq![
                    (NameCall::Get, true),
                    (NameCall::ReadName, true),
                    (NameCall::Release, host(4)),
                ],
                fault: None,
            }
        }),
{
    let ops = frontend_scene_name_ops(symbols);
    crate::plan::every_step(ops, host);
    assert(crate::plan::whole_course(ops, host) =~= name_course(symbols, host));
}

/// The scenes that were last read as Program and Preview.
pub struct SceneRoles {
    cached: Option<(Option<String>, Option<String>)>,
}

/// What one pass over the scenes does.
pub struct SceneTaps {
    /// Ask the UI thread for the roles, without waiting for it.
    pub queue_refresh: bool,
    /// The roles to attach to, as (Program, Preview), once any were read.
    pub roles: Option<(Option<String>, Option<String>)>,
}

/// The characters of the two names.
pub open spec fn role_names(roles: Option<(Option<String>, Option<String>)>) -> Option<
    (Option<Seq<char>>, Option<Seq<char>>),
> {
    match roles {
        Some((program, preview)) => Some((crate::text::name_of(program), crate::text::name_of(preview))),
        None => None,
    }
}

impl SceneRoles {
    /// What was last read.
    pub closed spec fn roles(&self) -> Option<(Option<Seq<char>>, Option<Seq<char>>)> {
        role_names(self.cached)
    }

    pub fn new() -> (roles: Self)
        ensures
            roles.roles() is None,
    {
        SceneRoles { cached: None }
    }

    /// Keeps the roles that were read on the UI thread.
    pub fn cache_scene_roles(&mut self, program: Option<String>, preview: Option<String>)
        ensures
            final(self).roles() == Some((crate::text::name_of(program), crate::text::name_of(preview))),
    {
        self.cached = Some((program, preview));
    }
}

/// One pass over the scenes: the UI thread is asked for the roles, and those
/// it gave last are attached to. The pass never waits for the UI thread,
/// which may itself be waiting for this thread to end.
pub fn attach_scene_audio_taps(roles: &SceneRoles, queue: bool) -> (taps: SceneTaps)
    ensures
        taps.queue_refresh == queue,
        role_names(taps.roles) == roles.roles(),
        taps.roles is None <==> roles.roles() is None,
        taps.roles matches Some((program, preview)) ==> roles.roles() == Some(
            (crate::text::name_of(program), crate::text::name_of(preview)),
        ),
{
    let copy = match &roles.cached {
        Some((program, preview)) => Some((copy_name(program), copy_name(preview))),
        None => None,
    };
    SceneTaps { queue_refresh: queue, roles: copy }
}

} // verus!
