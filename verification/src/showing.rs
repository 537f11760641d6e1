// SPDX-License-Identifier: GPL-2.0-or-later
//! Forcing a source to render that no scene shows.
//!
//! libobs counts who shows a source. A caller that counts a source up and
//! never down again leaves it rendering until OBS restarts, so at most one
//! source is forced at a time: asking for another lets go of the first.

use vstd::prelude::*;

use crate::plan::{Op, Plan, When};
use crate::response::Response;
use crate::text::{has_nul, same_text, text3};

verus! {

/// A call that forces a source, or lets go of it.
#[derive(Clone, Copy, Debug)]
pub enum ShowCall<'a> {
    /// `obs_get_source_by_name` of the source forced so far; yes: with a
    /// reference. A source that is gone took its count with it.
    FindHeld,
    /// `obs_source_dec_showing` of that source.
    DecShowing,
    /// `obs_source_release` of that source.
    ReleaseHeld,
    /// `obs_get_source_by_name` of the source asked for; yes: with a
    /// reference.
    Find(&'a str),
    /// `obs_source_inc_showing` of the source asked for.
    IncShowing,
    /// `obs_source_release` of the source asked for.
    Release,
}

/// What stopped a request.
#[derive(Clone, Copy, PartialEq, Eq, Structural, Debug)]
pub enum ShowFault {
    SymbolMissing,
    InvalidName,
    NoSource,
}

pub open spec fn show_error_text(fault: ShowFault, name: Seq<char>) -> Seq<char> {
    match fault {
        ShowFault::SymbolMissing => "required libobs symbols unavailable"@,
        ShowFault::InvalidName => "invalid source name"@,
        ShowFault::NoSource => "no source named '"@ + name + "'"@,
    }
}

/// Why a source was not forced.
pub fn show_error(fault: ShowFault, name: &str) -> (message: String)
    ensures
        message@ == show_error_text(fault, name@),
        ({
            let name = name@;
            message@ == (match fault {
                ShowFault::SymbolMissing => "required libobs symbols unavailable"@,
                ShowFault::InvalidName => "invalid source name"@,
                ShowFault::NoSource => "no source named '"@ + name + "'"@,
            })
        }),
{
    match fault {
        ShowFault::SymbolMissing => "required libobs symbols unavailable".to_owned(),
        ShowFault::InvalidName => "invalid source name".to_owned(),
        ShowFault::NoSource => text3("no source named '", name, "'"),
    }
}

/// Lets go of the source that is forced; the first operation after the
/// symbols are checked.
pub open spec fn let_go_ops<'a>() -> Seq<Op<ShowCall<'a>, ShowFault>> {
    seq![
        Op::Do { call: ShowCall::FindHeld, when: When::Always },
        Op::Do { call: ShowCall::DecShowing, when: When::If(1) },
        Op::Do { call: ShowCall::ReleaseHeld, when: When::If(1) },
    ]
}

/// Forces a source, from the place `at` of the plan on; `named` where its
/// name holds no NUL.
pub open spec fn force_ops<'a>(named: bool, name: &'a str, at: int) -> Seq<Op<ShowCall<'a>, ShowFault>> {
    seq![
        Op::Need { met: named, fault: ShowFault::InvalidName },
        Op::Do { call: ShowCall::Find(name), when: When::Always },
        Op::Require { answer: (at + 1) as usize, fault: ShowFault::NoSource },
        Op::Do { call: ShowCall::IncShowing, when: When::Always },
        Op::Do { call: ShowCall::Release, when: When::Always },
    ]
}

/// Whether the source that is forced is let go of.
pub open spec fn lets_go(forced: Option<Seq<char>>, name: Seq<char>, want: bool) -> bool {
    forced is Some && (forced == Some(name)) != want
}

/// Whether a source is to be forced that is not.
pub open spec fn forces(forced: Option<Seq<char>>, name: Seq<char>, want: bool) -> bool {
    want && forced != Some(name)
}

/// The source that is forced after a request; `done` where its plan stopped
/// at nothing.
pub open spec fn forced_after(
    symbols: bool,
    forced: Option<Seq<char>>,
    name: Seq<char>,
    want: bool,
    done: bool,
) -> Option<Seq<char>> {
    if !symbols {
        forced
    } else if forces(forced, name, want) {
        if done {
            Some(name)
        } else {
            None
        }
    } else if lets_go(forced, name, want) {
        None
    } else {
        forced
    }
}

/// The plan of a request. `finds` where the forced source is let go of and
/// its name can be handed to libobs; `takes` where the source asked for is
/// to be forced.
pub open spec fn show_ops<'a>(symbols: bool, finds: bool, takes: bool, named: bool, name: &'a str) -> Seq<
    Op<ShowCall<'a>, ShowFault>,
> {
    let head = seq![Op::Need { met: symbols, fault: ShowFault::SymbolMissing }] + (if finds {
        let_go_ops()
    } else {
        Seq::empty()
    });
    head + (if takes {
        force_ops(named, name, head.len() as int)
    } else {
        Seq::empty()
    })
}

/// The source that is forced to render, if any.
pub struct Showing {
    forced: Option<String>,
}

impl Showing {
    /// The source that is forced.
    pub closed spec fn forced(&self) -> Option<Seq<char>> {
        crate::text::name_of(self.forced)
    }

    pub fn new() -> (showing: Self)
        ensures
            showing.forced() is None,
    {
        Showing { forced: None }
    }

    /// The source that is forced.
    pub fn held(&self) -> (held: Option<String>)
        ensures
            crate::text::name_of(held) == self.forced(),
    {
        crate::text::copy_name(&self.forced)
    }

    fn is_forced(&self, name: &str) -> (yes: bool)
        ensures
            yes == (self.forced() == Some(name@)),
    {
        match &self.forced {
            Some(held) => same_text(held.as_str(), name),
            None => false,
        }
    }

    /// Forces a source to render, or lets go of it. Whatever is forced is
    /// let go of first, so that there is never more than one. To let go of a
    /// source that is not forced, or to force one that is, does nothing.
    pub fn set_showing<'a>(
        &self,
        symbols: bool,
        name: &'a str,
        want: bool,
    ) -> (plan: Plan<ShowCall<'a>, ShowFault>)
        ensures
            plan.fresh(
                show_ops(
                    symbols,
                    lets_go(self.forced(), name@, want) && !self.forced()->0.contains('\0'),
                    forces(self.forced(), name@, want),
                    !name@.contains('\0'),
                    name,
                ),
            ),
    {
        let same = self.is_forced(name);
        let finds = match &self.forced {
            Some(held) => same != want && !has_nul(held.as_str()),
            None => false,
        };
        let takes = want && !same;
        let named = !has_nul(name);
        let mut ops: Vec<Op<ShowCall<'a>, ShowFault>> = Vec::new();
        ops.push(Op::Need { met: symbols, fault: ShowFault::SymbolMissing });
        let ghost mut head = ops@;
        if finds {
            ops.push(Op::Do { call: ShowCall::FindHeld, when: When::Always });
            ops.push(Op::Do { call: ShowCall::DecShowing, when: When::If(1) });
            ops.push(Op::Do { call: ShowCall::ReleaseHeld, when: When::If(1) });
            proof {
                assert(ops@ =~= head + let_go_ops());
                head = ops@;
            }
        }
        if takes {
            let at: usize = ops.len();
            ops.push(Op::Need { met: named, fault: ShowFault::InvalidName });
            ops.push(Op::Do { call: ShowCall::Find(name), when: When::Always });
            ops.push(Op::Require { answer: at + 1, fault: ShowFault::NoSource });
            ops.push(Op::Do { call: ShowCall::IncShowing, when: When::Always });
            ops.push(Op::Do { call: ShowCall::Release, when: When::Always });
            assert(ops@ =~= head + force_ops(named, name, at as int));
        }
        assert(ops@ =~= show_ops(symbols, finds, takes, named, name));
        Plan::new(ops)
    }

    /// Notes how a request went: `done` where the plan stopped at nothing.
    /// Gives the other source that had to be let go of.
    pub fn settle(&mut self, symbols: bool, name: &str, want: bool, done: bool) -> (released: Option<String>)
        ensures
            final(self).forced() == forced_after(symbols, old(self).forced(), name@, want, done),
            crate::text::name_of(released) == (if symbols && forces(old(self).forced(), name@, want) {
                old(self).forced()
            } else {
                None
            }),
            !symbols ==> final(self).forced() == old(self).forced() && released is None,
            symbols && want && old(self).forced() != Some(name@) ==> {
                &&& final(self).forced() == (if done {
                    Some(name@)
                } else {
                    None
                })
                &&& released is Some <==> old(self).forced() is Some
                &&& released matches Some(other) ==> old(self).forced() == Some(other@)
            },
            symbols && !want && old(self).forced() == Some(name@) ==> final(self).forced() is None && released is None,
            (want == (old(self).forced() == Some(name@))) ==> final(self).forced() == old(self).forced()
                && released is None,
            !want && old(self).forced() is None ==> final(self).forced() is None,
    {
        if !symbols {
            return None;
        }
        let same = self.is_forced(name);
        if want && !same {
            let released = self.forced.take();
            if done {
                self.forced = Some(name.to_owned());
            }
            return released;
        }
        if !want && same {
            self.forced = None;
        }
        None
    }
}

/// What a call does to the showing count that the plugin holds.
pub open spec fn showing_count(call: (ShowCall<'_>, bool)) -> int {
    match call.0 {
        ShowCall::IncShowing => 1,
        ShowCall::DecShowing => -1,
        _ => 0,
    }
}

/// What a call does to the references held to sources.
pub open spec fn source_references(call: (ShowCall<'_>, bool)) -> int {
    match call.0 {
        ShowCall::FindHeld | ShowCall::Find(_) => if call.1 {
            1
        } else {
            0
        },
        ShowCall::ReleaseHeld | ShowCall::Release => -1,
        _ => 0,
    }
}

/// A request gives back every reference it takes. It counts the forced
/// source down exactly if it lets go of it and finds it, and the source
/// asked for up exactly if it goes through: the plugin never holds more than
/// the one count its slot tells of.
pub proof fn at_most_one_source_is_forced<'a>(
    symbols: bool,
    finds: bool,
    takes: bool,
    named: bool,
    name: &'a str,
    host: spec_fn(int) -> bool,
)
    ensures
        ({
            let course = crate::plan::whole_course(show_ops(symbols, finds, takes, named, name), host);
            let down: int = if symbols && finds && host(1) {
                1
            } else {
                0
            };
            let up: int = if takes && course.fault is None {
                1
            } else {
                0
            };
            &&& crate::plan::balance(course.calls, |call: (ShowCall<'_>, bool)| source_references(call)) == 0
            &&& crate::plan::balance(course.calls, |call: (ShowCall<'_>, bool)| showing_count(call)) == up - down
            &&& course.fault == (if !symbols {
                Some(ShowFault::SymbolMissing)
            } else if takes && !named {
                Some(ShowFault::InvalidName)
            } else if takes && !host(
                if finds {
                    5
                } else {
                    2
                },
            ) {
                Some(ShowFault::NoSource)
            } else {
                None::<ShowFault>
            })
        }),
{
    crate::plan::every_step(show_ops(symbols, finds, takes, named, name), host);
}

/// How a plan of a request goes, call by call.
proof fn how_a_plan_goes<'a>(
    symbols: bool,
    finds: bool,
    takes: bool,
    named: bool,
    name: &'a str,
    host: spec_fn(int) -> bool,
)
    ensures
        ({
            let at: int = if finds {
                5
            } else {
                2
            };
            let course = crate::plan::whole_course(show_ops(symbols, finds, takes, named, name), host);
            &&& !symbols ==> course.calls.len() == 0 && course.fault == Some(ShowFault::SymbolMissing)
            &&& symbols ==> course.fault == (if takes && !named {
                Some(ShowFault::InvalidName)
            } else if takes && !host(at) {
                Some(ShowFault::NoSource)
            } else {
                None
            })
            &&& symbols ==> course.calls == (if !finds {
                Seq::empty()
            } else if host(1) {
                seq![
                    (ShowCall::FindHeld, true),
                    (ShowCall::DecShowing, host(2)),
                    (ShowCall::ReleaseHeld, host(3)),
                ]
            } else {
                seq![(ShowCall::FindHeld, false)]
            }) + (if !takes || !named {
                Seq::empty()
            } else if host(at) {
                seq![
                    (ShowCall::Find(name), true),
                    (ShowCall::IncShowing, host(at + 2)),
                    (ShowCall::Release, host(at + 3)),
                ]
            } else {
                seq![(ShowCall::Find(name), false)]
            })
        }),
{
    let course = crate::plan::whole_course(show_ops(symbols, finds, takes, named, name), host);
    crate::plan::every_step(show_ops(symbols, finds, takes, named, name), host);
    let down = if !finds {
        Seq::empty()
    } else if host(1) {
        seq![(ShowCall::FindHeld, true), (ShowCall::DecShowing, host(2)), (ShowCall::ReleaseHeld, host(3))]
    } else {
        seq![(ShowCall::FindHeld, false)]
    };
    if symbols {
        if !takes || !named {
            assert(course.calls =~= down + Seq::empty());
        } else if finds {
            if host(5) {
                assert(course.calls =~= down + seq![
                    (ShowCall::Find(name), true),
                    (ShowCall::IncShowing, host(7)),
                    (ShowCall::Release, host(8)),
                ]);
            } else {
                assert(course.calls =~= down + seq![(ShowCall::Find(name), false)]);
            }
        } else {
            if host(2) {
                assert(course.calls =~= down + seq![
                    (ShowCall::Find(name), true),
                    (ShowCall::IncShowing, host(4)),
                    (ShowCall::Release, host(5)),
                ]);
            } else {
                assert(course.calls =~= down + seq![(ShowCall::Find(name), false)]);
            }
        }
    }
}

/// How a request goes, call by call. The source that is forced is counted
/// down, and given back, exactly if it is another one than is asked for, or
/// is asked to be let go of; the source asked for is counted up after that,
/// exactly if it is not forced yet.
pub proof fn how_a_source_is_forced<'a>(
    symbols: bool,
    forced: Option<Seq<char>>,
    name: &'a str,
    want: bool,
    host: spec_fn(int) -> bool,
)
    ensures
        ({
            let same = forced == Some(name@);
            let finds = forced is Some && !forced->0.contains('\0') && same != want;
            let takes = want && !same;
            let at: int = if finds {
                5
            } else {
                2
            };
            let course = crate::plan::whole_course(
                show_ops(
                    symbols,
                    lets_go(forced, name@, want) && !forced->0.contains('\0'),
                    forces(forced, name@, want),
                    !name@.contains('\0'),
                    name,
                ),
                host,
            );
            &&& !symbols ==> course.calls.len() == 0 && course.fault == Some(ShowFault::SymbolMissing)
            &&& symbols ==> course.fault == (if takes && name@.contains('\0') {
                Some(ShowFault::InvalidName)
            } else if takes && !host(at) {
                Some(ShowFault::NoSource)
            } else {
                None
            })
            &&& symbols ==> course.calls == (if !finds {
                Seq::empty()
            } else if host(1) {
                seq![
                    (ShowCall::FindHeld, true),
                    (ShowCall::DecShowing, host(2)),
                    (ShowCall::ReleaseHeld, host(3)),
                ]
            } else {
                seq![(ShowCall::FindHeld, false)]
            }) + (if !takes || name@.contains('\0') {
                Seq::empty()
            } else if host(at) {
                seq![
                    (ShowCall::Find(name), true),
                    (ShowCall::IncShowing, host(at + 2)),
                    (ShowCall::Release, host(at + 3)),
                ]
            } else {
                seq![(ShowCall::Find(name), false)]
            })
        }),
{
    how_a_plan_goes(
        symbols,
        lets_go(forced, name@, want) && !forced->0.contains('\0'),
        forces(forced, name@, want),
        !name@.contains('\0'),
        name,
        host,
    );
}

/// The showing counts that go with a slot: one for a source, none for none.
pub open spec fn counts_of(forced: Option<Seq<char>>) -> int {
    if forced is Some {
        1
    } else {
        0
    }
}

/// From request to request the slot tells exactly what the plugin holds, as
/// long as the forced source exists: what a request counts up and down is
/// the difference between the slot before and after.
pub proof fn the_slot_tells_what_is_held<'a>(
    symbols: bool,
    forced: Option<Seq<char>>,
    name: &'a str,
    want: bool,
    host: spec_fn(int) -> bool,
)
    requires
        forced matches Some(held) ==> !held.contains('\0'),
        lets_go(forced, name@, want) ==> host(1),
    ensures
        ({
            let course = crate::plan::whole_course(
                show_ops(
                    symbols,
                    lets_go(forced, name@, want),
                    forces(forced, name@, want),
                    !name@.contains('\0'),
                    name,
                ),
                host,
            );
            let after = forced_after(symbols, forced, name@, want, course.fault is None);
            counts_of(forced) + crate::plan::balance(
                course.calls,
                |call: (ShowCall<'_>, bool)| showing_count(call),
            ) == counts_of(after)
        }),
{
    at_most_one_source_is_forced(
        symbols,
        lets_go(forced, name@, want),
        forces(forced, name@, want),
        !name@.contains('\0'),
        name,
        host,
    );
}

// ---------------------------------------------------------------------
// Requests and answers
// ---------------------------------------------------------------------

/// The answer to a request that cannot be carried out; none where it can.
pub fn refuse_unready(name: &str, queue: bool) -> (response: Option<Response>)
    ensures
        match response {
            Some(answer) => (name@.len() == 0 || !queue) && answer@ == crate::response::refused(
                if name@.len() == 0 {
                    "missing source name"@
                } else {
                    "obs_queue_task unavailable"@
                },
            ),
            None => name@.len() > 0 && queue,
        },
{
    if name.is_empty() {
        return Some(Response::refuse("missing source name"));
    }
    if !queue {
        return Some(Response::refuse("obs_queue_task unavailable"));
    }
    None
}

/// What a request wants. Nothing said means to let go: the safe direction.
pub fn wants_showing(showing: Option<bool>) -> (want: bool)
    ensures
        want == (showing == Some(true)),
{
    match showing {
        Some(want) => want,
        None => false,
    }
}

/// The answer to a request: why it failed, or which other source it had to
/// let go of.
pub fn handle_set_source_showing(
    ran: bool,
    error: &Option<String>,
    released: &Option<String>,
) -> (response: Response)
    ensures
        response@ == (if !ran {
            crate::response::refused("UI-thread task did not run"@)
        } else {
            match *error {
                Some(message) => crate::response::refused(message@),
                None => match *released {
                    Some(other) => seq![
                        ("released"@, crate::response::ValueView::Text(other@)),
                        ("ok"@, crate::response::ValueView::Bool(true)),
                    ],
                    None => crate::response::accepted(),
                },
            }
        }),
{
    if !ran {
        return Response::refuse("UI-thread task did not run");
    }
    match error {
        Some(message) => Response::refuse(message.as_str()),
        None => match released {
            Some(other) => {
                let mut response = Response::new();
                response.set_string("released", other.as_str());
                response.set_bool("ok", true);
                assert(response@ =~= seq![
                    ("released"@, crate::response::ValueView::Text(other@)),
                    ("ok"@, crate::response::ValueView::Bool(true)),
                ]);
                response
            },
            None => Response::accept(),
        },
    }
}

} // verus!
