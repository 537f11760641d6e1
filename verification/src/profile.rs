// SPDX-License-Identifier: GPL-2.0-or-later
//! Ending up on a profile, creating it as a duplicate where it is missing.
//!
//! To switch to a profile that does not exist does nothing, so trying to
//! switch and reading back also tells whether it exists.

use vstd::prelude::*;

use crate::plan::{Op, Plan, When};
use crate::response::Response;
use crate::text::{has_nul, same_text};

verus! {

/// A call that reads the current profile's name.
#[derive(Clone, Copy, PartialEq, Eq, Structural, Debug)]
pub enum ProfileCall {
    /// `obs_frontend_get_current_profile`; yes: a name, allocated by libobs.
    Get,
    /// Copies the name.
    ReadName,
    /// `bfree` of the name.
    Free,
}

/// Why there is no name.
#[derive(Clone, Copy, PartialEq, Eq, Structural, Debug)]
pub enum ProfileFault {
    SymbolMissing,
    NoProfile,
}

pub open spec fn current_profile_name_ops(symbols: bool) -> Seq<Op<ProfileCall, ProfileFault>> {
    seq![
        Op::Need { met: symbols, fault: ProfileFault::SymbolMissing },
        Op::Do { call: ProfileCall::Get, when: When::Always },
        Op::Require { answer: 1, fault: ProfileFault::NoProfile },
        Op::Do { call: ProfileCall::ReadName, when: When::Always },
        Op::Do { call: ProfileCall::Free, when: When::Always },
    ]
}

/// Reads the current profile's name. `symbols`: the getter and `bfree` are
/// both there, for what is got has to be freed.
pub fn current_profile_name(symbols: bool) -> (plan: Plan<ProfileCall, ProfileFault>)
    ensures
        plan.fresh(current_profile_name_ops(symbols)),
{
    let ops: Vec<Op<ProfileCall, ProfileFault>> = vec![
        Op::Need { met: symbols, fault: ProfileFault::SymbolMissing },
        Op::Do { call: ProfileCall::Get, when: When::Always },
        Op::Require { answer: 1, fault: ProfileFault::NoProfile },
        Op::Do { call: ProfileCall::ReadName, when: When::Always },
        Op::Do { call: ProfileCall::Free, when: When::Always },
    ];
    assert(ops@ =~= current_profile_name_ops(symbols));
    Plan::new(ops)
}

/// How the name is read.
pub open spec fn profile_course(symbols: bool, host: spec_fn(int) -> bool) -> crate::plan::Course<
    ProfileCall,
    ProfileFault,
> {
    if !symbols {
        crate::plan::stopped(Some(ProfileFault::SymbolMissing))
    } else if !host(1) {
        crate::plan::Course {
            calls: seq![
                (ProfileCall::Get, false),
            ],
            fault: Some(ProfileFault::NoProfile),
        }
    } else {
        crate::plan::Course {
            calls: seq![
                (ProfileCall::Get, true),
                (ProfileCall::ReadName, host(3)),
                (ProfileCall::Free, host(4)),
            ],
            fault: None,
        }
    }
}

/// A name that was allocated is freed.
pub proof fn how_the_profile_is_read(symbols: bool, host: spec_fn(int) -> bool)
    ensures
        crate::plan::whole_course(current_profile_name_ops(symbols), host) == profile_course(symbols, host),
        crate::plan::whole_course(current_profile_name_ops(symbols), host) == (if !symbols {
            crate::plan::stopped(Some(ProfileFault::SymbolMissing))
        } else if !host(1) {
            crate::plan::Course {
                calls: seq![
                    (ProfileCall::Get, false),
                ],
                fault: Some(ProfileFault::NoProfile),
            }
        } else {
            crate::plan::Course {
                calls: seq![
                    (ProfileCall::Get, true),
                    (ProfileCall::ReadName, host(3)),
                    (ProfileCall::Free, host(4)),
                ],
                fault: None,
            }
        }),
{
    let ops = current_profile_name_ops(symbols);
    crate::plan::every_step(ops, host);
    assert(crate::plan::whole_course(ops, host) =~= profile_course(symbols, host));
}

/// A request for a profile, as it goes along.
pub struct EnsureProfile {
    /// Whether the current profile could be read at all.
    pub ran: bool,
    /// The profile to end up on.
    pub wanted: String,
    /// The profile that was current before, where it was another one.
    pub previous: Option<String>,
    /// Whether the profile had to be created.
    pub created: bool,
    /// Whether the profile is current now.
    pub switched: bool,
}

/// What to do next.
#[derive(Clone, Copy, PartialEq, Eq, Structural, Debug)]
pub enum ProfileStep {
    Stop,
    /// `obs_frontend_set_current_profile`, where libobs has it; then
    /// `after_switch`.
    Switch,
    /// `obs_frontend_duplicate_profile`; then `after_duplicate`.
    Duplicate,
}

impl EnsureProfile {
    /// A request that has not begun.
    pub open spec fn fresh(&self, wanted: Seq<char>) -> bool {
        &&& !self.ran
        &&& self.wanted@ == wanted
        &&& self.previous is None
        &&& !self.created
        &&& !self.switched
    }

    /// The profile wanted is never noted as the one before it.
    pub open spec fn well_formed(&self) -> bool {
        self.previous matches Some(name) ==> name@ != self.wanted@
    }

    fn is_wanted(&self, name: &Option<String>) -> (yes: bool)
        ensures
            yes == (crate::text::name_of(*name) == Some(self.wanted@)),
    {
        match name {
            Some(text) => same_text(text.as_str(), self.wanted.as_str()),
            None => false,
        }
    }

    /// Takes in the current profile, where it could be read. A name that
    /// cannot be handed to libobs stops the request before it has run.
    pub fn ensure_profile(&mut self, current: Option<String>) -> (step: ProfileStep)
        requires
            old(self).fresh(old(self).wanted@),
        ensures
            final(self).well_formed(),
            final(self).wanted@ == old(self).wanted@,
            !final(self).created,
            ({
                let read = crate::text::name_of(current);
                let ran = !old(self).wanted@.contains('\0') && read is Some;
                let there = ran && read == Some(old(self).wanted@);
                &&& final(self).ran == ran
                &&& final(self).switched == there
                &&& crate::text::name_of(final(self).previous) == (if ran && !there {
                    read
                } else {
                    None
                })
                &&& step == (if ran && !there {
                    ProfileStep::Switch
                } else {
                    ProfileStep::Stop
                })
            }),
    {
        if has_nul(self.wanted.as_str()) || current.is_none() {
            return ProfileStep::Stop;
        }
        self.ran = true;
        if self.is_wanted(&current) {
            self.switched = true;
            return ProfileStep::Stop;
        }
        self.previous = current;
        ProfileStep::Switch
    }

    /// Takes in the current profile after a switch was tried.
    pub fn after_switch(&mut self, current: Option<String>, can_duplicate: bool) -> (step: ProfileStep)
        requires
            old(self).well_formed(),
        ensures
            final(self).well_formed(),
            final(self).ran == old(self).ran,
            final(self).wanted@ == old(self).wanted@,
            crate::text::name_of(final(self).previous) == crate::text::name_of(old(self).previous),
            final(self).created == old(self).created,
            ({
                let there = crate::text::name_of(current) == Some(old(self).wanted@);
                &&& final(self).switched == (there || old(self).switched)
                &&& step == (if !there && can_duplicate {
                    ProfileStep::Duplicate
                } else {
                    ProfileStep::Stop
                })
            }),
    {
        if self.is_wanted(&current) {
            self.switched = true;
            return ProfileStep::Stop;
        }
        if can_duplicate {
            ProfileStep::Duplicate
        } else {
            ProfileStep::Stop
        }
    }

    /// Takes in the current profile after the one before was duplicated,
    /// which switches to the duplicate.
    pub fn after_duplicate(&mut self, current: Option<String>)
        requires
            old(self).well_formed(),
        ensures
            final(self).well_formed(),
            final(self).ran == old(self).ran,
            final(self).wanted@ == old(self).wanted@,
            crate::text::name_of(final(self).previous) == crate::text::name_of(old(self).previous),
            final(self).created,
            final(self).switched == (crate::text::name_of(current) == Some(old(self).wanted@)),
    {
        self.created = true;
        self.switched = self.is_wanted(&current);
    }
}

/// Begins a request for a profile.
pub fn begin_profile(name: String, queue: bool) -> (begun: Result<EnsureProfile, Response>)
    ensures
        match begun {
            Ok(state) => name@.len() > 0 && queue && state.fresh(name@),
            Err(response) => {
                &&& name@.len() == 0 || !queue
                &&& response@ == crate::response::refused(
                    if name@.len() == 0 {
                        "missing profile name"@
                    } else {
                        "obs_queue_task unavailable"@
                    },
                )
            },
        },
{
    if name.as_str().is_empty() {
        return Err(Response::refuse("missing profile name"));
    }
    if !queue {
        return Err(Response::refuse("obs_queue_task unavailable"));
    }
    Ok(EnsureProfile { ran: false, wanted: name, previous: None, created: false, switched: false })
}

/// The answer to a request for a profile. It names the profile that was left
/// only where the request has switched to another.
pub fn handle_ensure_profile(state: &EnsureProfile) -> (response: Response)
    ensures
        response@ == (if !state.ran {
            crate::response::refused("profile frontend API unavailable"@)
        } else {
            seq![
                ("ok"@, crate::response::ValueView::Bool(true)),
                ("switched"@, crate::response::ValueView::Bool(state.switched)),
                ("created"@, crate::response::ValueView::Bool(state.created)),
            ] + (if state.switched {
                crate::scenes::optional_field("previous"@, state.previous)
            } else {
                Seq::empty()
            })
        }),
{
    if !state.ran {
        return Response::refuse("profile frontend API unavailable");
    }
    let mut response = Response::accept();
    response.set_bool("switched", state.switched);
    response.set_bool("created", state.created);
    if state.switched {
        match &state.previous {
            Some(previous) => {
                response.set_string("previous", previous.as_str());
            },
            None => {},
        }
    }
    assert(response@ =~= seq![
        ("ok"@, crate::response::ValueView::Bool(true)),
        ("switched"@, crate::response::ValueView::Bool(state.switched)),
        ("created"@, crate::response::ValueView::Bool(state.created)),
    ] + (if state.switched {
        crate::scenes::optional_field("previous"@, state.previous)
    } else {
        Seq::empty()
    }));
    response
}

} // verus!
