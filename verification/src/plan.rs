// SPDX-License-Identifier: GPL-2.0-or-later
//! Plans: the short procedures the plugin carries out against OBS.
//!
//! Such a procedure checks what it needs, makes one call after the other,
//! gives back what it took, and stops at the first thing that is missing. A
//! plan says this as a list of operations; the host makes the calls and
//! answers each one with whether it found what it asked for.

use vstd::prelude::*;

verus! {

/// When a call is made. The number is the place, in the plan, of the
/// earlier operation whose answer decides.
#[derive(Clone, Copy, PartialEq, Eq, Structural, Debug)]
pub enum When {
    Always,
    If(usize),
    Unless(usize),
}

/// One operation of a plan.
pub enum Op<C, F> {
    /// Stops with `fault` unless the condition is met.
    Need { met: bool, fault: F },
    /// Makes a call. A call that is not made counts as answered with no.
    Do { call: C, when: When },
    /// Stops with `fault` unless the earlier operation was answered with yes.
    Require { answer: usize, fault: F },
}

/// What a plan asks for next.
pub enum Step<C, F> {
    /// Make this call, and answer it.
    Call(C),
    /// The plan has stopped, with what was missing.
    Failed(F),
    /// Everything is done.
    Done,
}

/// Whether a call is made, given the answers so far.
pub open spec fn holds(when: When, answers: Seq<bool>) -> bool {
    match when {
        When::Always => true,
        When::If(k) => answers[k as int],
        When::Unless(k) => !answers[k as int],
    }
}

/// An operation looks back only at earlier ones.
pub open spec fn looks_back<C, F>(op: Op<C, F>, at: int) -> bool {
    match op {
        Op::Need { .. } => true,
        Op::Do { when, .. } => match when {
            When::Always => true,
            When::If(k) | When::Unless(k) => k < at,
        },
        Op::Require { answer, .. } => answer < at,
    }
}

/// Every operation looks back only at earlier ones.
pub open spec fn ordered<C, F>(ops: Seq<Op<C, F>>) -> bool {
    forall|i: int| 0 <= i < ops.len() ==> looks_back(#[trigger] ops[i], i)
}

/// The answers once every operation that needs no call has been gone
/// through.
pub open spec fn settled<C, F>(ops: Seq<Op<C, F>>, answers: Seq<bool>) -> Seq<bool>
    decreases ops.len() - answers.len(),
{
    if answers.len() >= ops.len() {
        answers
    } else {
        match ops[answers.len() as int] {
            Op::Need { met, .. } => if met {
                settled(ops, answers.push(true))
            } else {
                answers
            },
            Op::Do { when, .. } => if holds(when, answers) {
                answers
            } else {
                settled(ops, answers.push(false))
            },
            Op::Require { answer, .. } => if answers[answer as int] {
                settled(ops, answers.push(true))
            } else {
                answers
            },
        }
    }
}

/// What a plan asks for once its answers are settled.
pub open spec fn asked<C, F>(ops: Seq<Op<C, F>>, answers: Seq<bool>) -> Step<C, F> {
    if answers.len() >= ops.len() {
        Step::Done
    } else {
        match ops[answers.len() as int] {
            Op::Need { fault, .. } => Step::Failed(fault),
            Op::Do { call, .. } => Step::Call(call),
            Op::Require { fault, .. } => Step::Failed(fault),
        }
    }
}

/// How a plan went: the calls that were made, each with its answer, and
/// what was missing in the end.
#[verifier::ext_equal]
pub ghost struct Course<C, F> {
    pub calls: Seq<(C, bool)>,
    pub fault: Option<F>,
}

pub open spec fn after_call<C, F>(call: C, answer: bool, rest: Course<C, F>) -> Course<C, F> {
    Course { calls: seq![(call, answer)] + rest.calls, fault: rest.fault }
}

pub open spec fn stopped<C, F>(fault: Option<F>) -> Course<C, F> {
    Course { calls: Seq::empty(), fault }
}

/// How the operation at place `at` comes to be answered, where the host
/// answers the call at place `i` with `host(i)`.
#[verifier::opaque]
pub open spec fn answer_at<C, F>(ops: Seq<Op<C, F>>, host: spec_fn(int) -> bool, at: int) -> bool
    decreases at,
{
    match ops[at] {
        Op::Do { when, .. } => host(at) && match when {
            When::Always => true,
            When::If(k) => k < at && answer_at(ops, host, k as int),
            When::Unless(k) => k < at && !answer_at(ops, host, k as int),
        },
        _ => true,
    }
}

/// Whether the host gets to a call at all, going by the operation it hangs
/// on.
pub open spec fn due<C, F>(ops: Seq<Op<C, F>>, host: spec_fn(int) -> bool, when: When) -> bool {
    match when {
        When::Always => true,
        When::If(k) => answer_at(ops, host, k as int),
        When::Unless(k) => !answer_at(ops, host, k as int),
    }
}

/// How a plan goes from the place `at` on, where the host answers the call
/// at place `i` with `host(i)`.
#[verifier::opaque]
pub open spec fn course<C, F>(ops: Seq<Op<C, F>>, host: spec_fn(int) -> bool, at: int) -> Course<C, F>
    decreases ops.len() - at,
{
    if at >= ops.len() {
        stopped(None)
    } else {
        match ops[at] {
            Op::Need { met, fault } => if met {
                course(ops, host, at + 1)
            } else {
                stopped(Some(fault))
            },
            Op::Do { call, when } => if due(ops, host, when) {
                after_call(call, host(at), course(ops, host, at + 1))
            } else {
                course(ops, host, at + 1)
            },
            Op::Require { answer, fault } => if answer_at(ops, host, answer as int) {
                course(ops, host, at + 1)
            } else {
                stopped(Some(fault))
            },
        }
    }
}

/// How a plan goes from its start.
pub open spec fn whole_course<C, F>(ops: Seq<Op<C, F>>, host: spec_fn(int) -> bool) -> Course<C, F> {
    course(ops, host, 0)
}

/// The weights of the calls added up: what a procedure holds after them,
/// where a call that takes something weighs one and a call that gives it
/// back weighs minus one.
#[verifier::opaque]
pub open spec fn balance<C>(calls: Seq<(C, bool)>, weight: spec_fn((C, bool)) -> int) -> int
    decreases calls.len(),
{
    if calls.len() == 0 {
        0
    } else {
        weight(calls[0]) + balance(calls.drop_first(), weight)
    }
}

/// What the calls from the place `at` on weigh, by the operation there.
pub open spec fn weighed<C, F>(
    ops: Seq<Op<C, F>>,
    host: spec_fn(int) -> bool,
    at: int,
    weight: spec_fn((C, bool)) -> int,
) -> int {
    let rest = balance(course(ops, host, at + 1).calls, weight);
    if at >= ops.len() {
        0
    } else {
        match ops[at] {
            Op::Need { met, .. } => if met {
                rest
            } else {
                0
            },
            Op::Do { call, when } => if due(ops, host, when) {
                weight((call, host(at))) + rest
            } else {
                rest
            },
            Op::Require { answer, .. } => if answer_at(ops, host, answer as int) {
                rest
            } else {
                0
            },
        }
    }
}

/// How a plan goes on from the place `at`, or ends there, how the operation
/// there is answered, and what the calls from there on weigh.
pub open spec fn goes_through<C, F>(ops: Seq<Op<C, F>>, host: spec_fn(int) -> bool, at: int) -> bool {
    let rest = course(ops, host, at + 1);
    &&& if at >= ops.len() {
        course(ops, host, at) == stopped::<C, F>(None)
    } else {
        match ops[at] {
            Op::Need { met, fault } => course(ops, host, at) == (if met {
                rest
            } else {
                stopped(Some(fault))
            }),
            Op::Do { call, when } => course(ops, host, at) == (if due(ops, host, when) {
                after_call(call, host(at), rest)
            } else {
                rest
            }) && answer_at(ops, host, at) == (due(ops, host, when) && host(at)),
            Op::Require { answer, fault } => course(ops, host, at) == (if answer_at(ops, host, answer as int) {
                rest
            } else {
                stopped(Some(fault))
            }),
        }
    }
    &&& forall|weight: spec_fn((C, bool)) -> int| #[trigger]
        balance(course(ops, host, at).calls, weight) == weighed(ops, host, at, weight)
}

/// How a plan goes on from one place.
pub proof fn step<C, F>(ops: Seq<Op<C, F>>, host: spec_fn(int) -> bool, at: int)
    requires
        0 <= at,
        at < ops.len() ==> looks_back(ops[at], at),
    ensures
        goes_through(ops, host, at),
{
    reveal_with_fuel(course, 1);
    reveal_with_fuel(answer_at, 1);
    assert forall|weight: spec_fn((C, bool)) -> int| #[trigger]
        balance(course(ops, host, at).calls, weight) == weighed(ops, host, at, weight) by {
        reveal_with_fuel(balance, 1);
        if at < ops.len() {
            match ops[at] {
                Op::Do { call, .. } => {
                    let rest = course(ops, host, at + 1);
                    assert(after_call(call, host(at), rest).calls.drop_first() =~= rest.calls);
                },
                _ => {},
            }
        }
    }
}

/// A plan goes through its operations one after the other.
pub proof fn every_step<C, F>(ops: Seq<Op<C, F>>, host: spec_fn(int) -> bool)
    requires
        ordered(ops),
    ensures
        forall|at: int| #![trigger course(ops, host, at)] 0 <= at <= ops.len() ==> goes_through(ops, host, at),
{
    assert forall|at: int| 0 <= at <= ops.len() implies #[trigger] goes_through(ops, host, at) by {
        step(ops, host, at);
    }
}

/// Calls that are made one after the other, whatever is answered.
pub open spec fn plain<C, F>(calls: Seq<C>) -> Seq<Op<C, F>> {
    calls.map_values(|call: C| Op::<C, F>::Do { call, when: When::Always })
}

/// From calls that are made whatever is answered on, a plan makes them all
/// and stops at nothing.
pub proof fn course_of_plain_calls<C, F>(ops: Seq<Op<C, F>>, host: spec_fn(int) -> bool, at: int, calls: Seq<C>)
    requires
        0 <= at,
        ops.len() == at + calls.len(),
        ops.skip(at) == plain::<C, F>(calls),
    ensures
        course(ops, host, at) == (Course::<C, F> {
            calls: Seq::new(calls.len(), |i: int| (calls[i], host(at + i))),
            fault: None,
        }),
    decreases calls.len(),
{
    if calls.len() == 0 {
        step(ops, host, at);
        assert(Seq::new(0, |i: int| (calls[i], host(at + i))) =~= Seq::<(C, bool)>::empty());
    } else {
        let rest = calls.drop_first();
        assert(ops.skip(at)[0] == plain::<C, F>(calls)[0]);
        step(ops, host, at);
        assert(ops.skip(at + 1) =~= plain::<C, F>(rest)) by {
            assert forall|i: int| 0 <= i < rest.len() implies #[trigger] ops.skip(at + 1)[i] == plain::<C, F>(
                rest,
            )[i] by {
                assert(ops.skip(at)[i + 1] == plain::<C, F>(calls)[i + 1]);
            }
        }
        course_of_plain_calls(ops, host, at + 1, rest);
        assert(Seq::new(calls.len(), |i: int| (calls[i], host(at + i))) =~= seq![(calls[0], host(at))] + Seq::new(
            rest.len(),
            |i: int| (rest[i], host(at + 1 + i)),
        ));
    }
}

/// A plan that is being carried out.
pub struct Plan<C, F> {
    ops: Vec<Op<C, F>>,
    answers: Vec<bool>,
}

impl<C: Copy, F: Copy> Plan<C, F> {
    /// The operations.
    pub closed spec fn ops(&self) -> Seq<Op<C, F>> {
        self.ops@
    }

    /// The answers so far.
    pub closed spec fn answers(&self) -> Seq<bool> {
        self.answers@
    }

    pub open spec fn well_formed(&self) -> bool {
        &&& ordered(self.ops())
        &&& self.answers().len() <= self.ops().len()
    }

    /// A plan that has not begun.
    pub open spec fn fresh(&self, ops: Seq<Op<C, F>>) -> bool {
        &&& self.well_formed()
        &&& self.ops() == ops
        &&& self.answers() == Seq::<bool>::empty()
    }

    pub fn new(ops: Vec<Op<C, F>>) -> (plan: Self)
        requires
            ordered(ops@),
        ensures
            plan.fresh(ops@),
    {
        Plan { ops, answers: Vec::new() }
    }

    /// What is to be done next.
    pub fn next(&mut self) -> (step: Step<C, F>)
        requires
            old(self).well_formed(),
        ensures
            final(self).well_formed(),
            final(self).ops() == old(self).ops(),
            final(self).answers() == settled(old(self).ops(), old(self).answers()),
            step == asked(final(self).ops(), final(self).answers()),
    {
        let ghost before = *self;
        while self.answers.len() < self.ops.len()
            invariant
                before == *old(self),
                self.well_formed(),
                self.ops() == before.ops(),
                settled(before.ops(), self.answers()) == settled(before.ops(), before.answers()),
            decreases self.ops@.len() - self.answers@.len(),
        {
            let at: usize = self.answers.len();
            assert(looks_back(self.ops@[at as int], at as int));
            match &self.ops[at] {
                Op::Need { met, fault } => {
                    if !*met {
                        return Step::Failed(*fault);
                    }
                    self.answers.push(true);
                },
                Op::Do { call, when } => {
                    let due = match when {
                        When::Always => true,
                        When::If(k) => self.answers[*k],
                        When::Unless(k) => !self.answers[*k],
                    };
                    if due {
                        return Step::Call(*call);
                    }
                    self.answers.push(false);
                },
                Op::Require { answer, fault } => {
                    if !self.answers[*answer] {
                        return Step::Failed(*fault);
                    }
                    self.answers.push(true);
                },
            }
        }
        Step::Done
    }

    /// Answers the call that `next` asked for.
    pub fn answer(&mut self, found: bool)
        requires
            old(self).well_formed(),
            old(self).answers().len() < old(self).ops().len(),
        ensures
            final(self).well_formed(),
            final(self).ops() == old(self).ops(),
            final(self).answers() == old(self).answers().push(found),
    {
        self.answers.push(found);
    }
}

/// The answers are those that the host gives.
pub open spec fn given_by<C, F>(ops: Seq<Op<C, F>>, host: spec_fn(int) -> bool, answers: Seq<bool>) -> bool {
    &&& answers.len() <= ops.len()
    &&& forall|i: int| 0 <= i < answers.len() ==> #[trigger] answers[i] == answer_at(ops, host, i)
}

proof fn one_more_answer<C, F>(ops: Seq<Op<C, F>>, host: spec_fn(int) -> bool, answers: Seq<bool>, answer: bool)
    requires
        given_by(ops, host, answers),
        answers.len() < ops.len(),
        answer == answer_at(ops, host, answers.len() as int),
    ensures
        given_by(ops, host, answers.push(answer)),
{
    let more = answers.push(answer);
    assert forall|i: int| 0 <= i < more.len() implies #[trigger] more[i] == answer_at(ops, host, i) by {
        if i < answers.len() {
            assert(more[i] == answers[i]);
        }
    }
}

/// A host that makes each call the plan asks for, and answers it, follows
/// the plan's course: what `next` asks for is the next call of the course,
/// and the course ends where `next` says so.
pub proof fn the_plan_follows_its_course<C, F>(ops: Seq<Op<C, F>>, host: spec_fn(int) -> bool, answers: Seq<bool>)
    requires
        ordered(ops),
        given_by(ops, host, answers),
    ensures
        ({
            let now = settled(ops, answers);
            let at = now.len() as int;
            &&& given_by(ops, host, now)
            &&& match asked(ops, now) {
                Step::Call(call) => course(ops, host, answers.len() as int) == after_call(
                    call,
                    host(at),
                    course(ops, host, at + 1),
                ) && given_by(ops, host, now.push(host(at))),
                Step::Failed(fault) => course(ops, host, answers.len() as int) == stopped::<C, F>(Some(fault)),
                Step::Done => course(ops, host, answers.len() as int) == stopped::<C, F>(None),
            }
        }),
    decreases ops.len() - answers.len(),
{
    let at = answers.len() as int;
    if at < ops.len() {
        assert(looks_back(ops[at], at));
    }
    step(ops, host, at);
    if at < ops.len() {
        match ops[at] {
            Op::Need { met, .. } => {
                if met {
                    assert(answer_at(ops, host, at)) by {
                        reveal_with_fuel(answer_at, 1);
                    }
                    one_more_answer(ops, host, answers, true);
                    the_plan_follows_its_course(ops, host, answers.push(true));
                }
            },
            Op::Do { when, .. } => {
                assert(holds(when, answers) == due(ops, host, when));
                if holds(when, answers) {
                    one_more_answer(ops, host, answers, host(at));
                } else {
                    one_more_answer(ops, host, answers, false);
                    the_plan_follows_its_course(ops, host, answers.push(false));
                }
            },
            Op::Require { answer, .. } => {
                assert(answers[answer as int] == answer_at(ops, host, answer as int));
                if answers[answer as int] {
                    assert(answer_at(ops, host, at)) by {
                        reveal_with_fuel(answer_at, 1);
                    }
                    one_more_answer(ops, host, answers, true);
                    the_plan_follows_its_course(ops, host, answers.push(true));
                }
            },
        }
    }
}

} // verus!
