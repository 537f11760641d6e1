// SPDX-License-Identifier: GPL-2.0-or-later
//! A request for video feeds, carried out step by step: what runs and is not
//! asked for is taken down, what is asked for and does not run is started,
//! and frontend events are listened to exactly while a feed runs.

use vstd::prelude::*;

use crate::feed::Which;
use crate::text::copy_name;
use crate::video_tap::{apply, feed_settings, stop_all, Feed, Feeds, ObsVideoInfo, Request, Wanted};

verus! {

/// What the host does next.
pub enum FeedStep<H> {
    /// Take this feed down.
    Teardown(Feed<H>),
    /// Start this feed, then `started`.
    Start(Which, Wanted),
    /// Start or stop listening to frontend events.
    Listen(bool),
    /// The request is through.
    Finished(Result<(), String>),
}

/// How far a request is.
#[derive(Clone, Copy, PartialEq, Eq, Structural, Debug)]
pub enum Stage {
    Reconcile(Which),
    Starting(Which),
    Listening,
    Finished,
}

/// A request for video feeds, as it goes along.
pub struct FeedRequest {
    request: Request,
    stage: Stage,
    /// OBS was exiting when the request came.
    refused: bool,
    preview_error: Option<String>,
    program_error: Option<String>,
}

/// A feed is as it is wanted.
pub open spec fn served<H>(feeds: Feeds<H>, which: Which, wanted: Wanted) -> bool {
    if wanted.on {
        feeds.running(which) matches Some(feed) && crate::video_tap::serves(feed.settings, wanted)
    } else {
        feeds.running(which) is None
    }
}

/// A running feed is left alone by a request.
pub open spec fn stays<H>(feed: Feed<H>, wanted: Wanted) -> bool {
    wanted.on && crate::video_tap::serves(feed.settings, wanted)
}

/// Where a request goes on once a feed has been dealt with: with Program
/// after Preview, then with the listening.
pub open spec fn after(which: Which) -> Stage {
    match which {
        Which::Preview => Stage::Reconcile(Which::Program),
        Which::Program => Stage::Listening,
    }
}

impl FeedRequest {
    /// What is asked of a feed.
    pub closed spec fn wanted(&self, which: Which) -> Wanted {
        crate::video_tap::wanted_of(self.request, which)
    }

    /// What went wrong with a feed.
    pub closed spec fn error(&self, which: Which) -> Option<Seq<char>> {
        match which {
            Which::Preview => crate::text::name_of(self.preview_error),
            Which::Program => crate::text::name_of(self.program_error),
        }
    }

    pub closed spec fn stage(&self) -> Stage {
        self.stage
    }

    pub closed spec fn refused(&self) -> bool {
        self.refused
    }

    /// A feed has been dealt with: it is as wanted, or it could not be
    /// started and does not run.
    pub open spec fn settled<H>(&self, feeds: Feeds<H>, which: Which) -> bool {
        if self.error(which) is Some {
            self.wanted(which).on && feeds.running(which) is None
        } else {
            served(feeds, which, self.wanted(which))
        }
    }

    /// A feed is about to be started.
    pub open spec fn awaits<H>(&self, feeds: Feeds<H>, which: Which) -> bool {
        self.wanted(which).on && feeds.running(which) is None && self.error(which) is None
    }

    /// A feed's turn has come: Preview's comes first, and Program's once
    /// Preview is as it is wanted.
    pub open spec fn turn<H>(&self, feeds: Feeds<H>, which: Which) -> bool {
        ||| self.stage() == Stage::Reconcile(which)
        ||| which == Which::Program && self.stage() == Stage::Reconcile(Which::Preview) && served(
            feeds,
            Which::Preview,
            self.wanted(Which::Preview),
        )
    }

    /// The request and the feeds belong together.
    pub open spec fn fits<H>(&self, feeds: Feeds<H>) -> bool {
        &&& feeds.well_formed()
        &&& match self.stage() {
            Stage::Reconcile(Which::Preview) => !self.refused() && self.error(Which::Preview) is None && self.error(
                Which::Program,
            ) is None,
            Stage::Starting(Which::Preview) => !self.refused() && self.awaits(feeds, Which::Preview) && self.error(
                Which::Program,
            ) is None,
            Stage::Reconcile(Which::Program) => !self.refused() && self.settled(feeds, Which::Preview)
                && self.error(Which::Program) is None,
            Stage::Starting(Which::Program) => !self.refused() && self.settled(feeds, Which::Preview)
                && self.awaits(feeds, Which::Program),
            Stage::Listening => !self.refused() && self.settled(feeds, Which::Preview) && self.settled(
                feeds,
                Which::Program,
            ),
            Stage::Finished => self.refused() || (self.settled(feeds, Which::Preview) && self.settled(
                feeds,
                Which::Program,
            ) && feeds.watching() == (feeds.running(Which::Preview) is Some || feeds.running(
                Which::Program,
            ) is Some)),
        }
    }

    /// A request that has not begun.
    pub fn begin(request: Request) -> (run: Self)
        ensures
            run.stage() == Stage::Reconcile(Which::Preview),
            !run.refused(),
            forall|which: Which| #[trigger] run.error(which) is None,
            forall|which: Which| #[trigger] run.wanted(which) == crate::video_tap::wanted_of(request, which),
    {
        FeedRequest {
            request,
            stage: Stage::Reconcile(Which::Preview),
            refused: false,
            preview_error: None,
            program_error: None,
        }
    }

    /// The outcome of a request that is through.
    pub open spec fn outcome(&self) -> Option<Seq<char>> {
        if self.refused() {
            Some("OBS is exiting"@)
        } else {
            crate::video_tap::apply_error_text(self.error(Which::Preview), self.error(Which::Program))
        }
    }

    /// What the host does next. A feed that is as it is wanted is left alone;
    /// any other that runs is handed out to be taken down before a new one
    /// starts, and no feed stops running in another way. A request that comes
    /// while OBS exits changes nothing.
    pub fn next<H>(&mut self, feeds: &mut Feeds<H>) -> (step: FeedStep<H>)
        requires
            old(self).fits(*old(feeds)),
        ensures
            final(self).fits(*final(feeds)),
            forall|which: Which| #[trigger] final(self).wanted(which) == old(self).wanted(which),
            forall|which: Which| #[trigger] final(self).error(which) == old(self).error(which),
            final(feeds).exiting() == old(feeds).exiting(),
            final(feeds).output_type() == old(feeds).output_type(),
            final(self).refused() == (old(self).refused() || (old(self).stage() == Stage::Reconcile(
                Which::Preview,
            ) && old(feeds).exiting())),
            final(self).refused() ==> step is Finished,
            step !is Teardown ==> forall|which: Which| #[trigger]
                final(feeds).running(which) == old(feeds).running(which),
            match step {
                FeedStep::Teardown(feed) => {
                    let which = feed.settings.which;
                    &&& old(self).turn(*old(feeds), which)
                    &&& final(self).stage() == (if old(self).wanted(which).on {
                        Stage::Starting(which)
                    } else {
                        after(which)
                    })
                    &&& old(feeds).running(which) == Some(feed)
                    &&& !stays(feed, old(self).wanted(which))
                    &&& !(old(self).wanted(which).on && feed.settings.path == old(self).wanted(which).path
                        && feed.settings.transport == old(self).wanted(which).transport && feed.settings.width == old(
                        self,
                    ).wanted(which).width && feed.settings.height == old(self).wanted(which).height)
                    &&& final(feeds).running(which) is None
                    &&& forall|other: Which|
                        other != which ==> #[trigger] final(feeds).running(other) == old(feeds).running(other)
                    &&& final(feeds).watching() == old(feeds).watching()
                },
                FeedStep::Start(which, wanted) => {
                    &&& old(self).stage() == Stage::Starting(which) || old(self).turn(*old(feeds), which)
                    &&& final(self).stage() == Stage::Starting(which)
                    &&& wanted == final(self).wanted(which)
                    &&& final(feeds).watching() == old(feeds).watching()
                },
                FeedStep::Listen(on) => {
                    &&& final(self).stage() == Stage::Finished
                    &&& on == final(feeds).watching()
                    &&& on != old(feeds).watching()
                },
                FeedStep::Finished(result) => {
                    &&& final(self).stage() == Stage::Finished
                    &&& final(feeds).watching() == old(feeds).watching()
                    &&& match result {
                        Ok(_) => final(self).outcome() is None,
                        Err(message) => final(self).outcome() == Some(message@),
                    }
                },
            },
    {
        if self.stage == Stage::Reconcile(Which::Preview) {
            if feeds.is_exiting() {
                self.refused = true;
                self.stage = Stage::Finished;
            } else {
                let change = feeds.reconcile(Which::Preview, self.request.wanted(Which::Preview));
                self.stage = if change.start {
                    Stage::Starting(Which::Preview)
                } else {
                    Stage::Reconcile(Which::Program)
                };
                match change.stop {
                    Some(feed) => {
                        return FeedStep::Teardown(feed);
                    },
                    None => {},
                }
            }
        }
        if self.stage == Stage::Starting(Which::Preview) {
            return FeedStep::Start(Which::Preview, self.request.wanted(Which::Preview));
        }
        if self.stage == Stage::Reconcile(Which::Program) {
            let change = feeds.reconcile(Which::Program, self.request.wanted(Which::Program));
            self.stage = if change.start {
                Stage::Starting(Which::Program)
            } else {
                Stage::Listening
            };
            match change.stop {
                Some(feed) => {
                    return FeedStep::Teardown(feed);
                },
                None => {},
            }
        }
        if self.stage == Stage::Starting(Which::Program) {
            return FeedStep::Start(Which::Program, self.request.wanted(Which::Program));
        }
        if self.stage == Stage::Listening {
            self.stage = Stage::Finished;
            match feeds.watch() {
                Some(on) => {
                    return FeedStep::Listen(on);
                },
                None => {},
            }
        }
        FeedStep::Finished(apply(self.refused, copy_name(&self.preview_error), copy_name(&self.program_error)))
    }

    /// Takes in how starting a feed went: its handle and the main mix's
    /// settings, or why it did not start.
    pub fn started<H>(&mut self, feeds: &mut Feeds<H>, outcome: Result<(ObsVideoInfo, H), String>)
        requires
            old(self).fits(*old(feeds)),
            old(self).stage() is Starting,
        ensures
            final(self).fits(*final(feeds)),
            final(feeds).exiting() == old(feeds).exiting(),
            final(feeds).output_type() == old(feeds).output_type(),
            final(feeds).watching() == old(feeds).watching(),
            final(self).refused() == old(self).refused(),
            forall|which: Which| #[trigger] final(self).wanted(which) == old(self).wanted(which),
            ({
                let which = old(self).stage()->Starting_0;
                &&& final(self).stage() == after(which)
                &&& forall|other: Which|
                    other != which ==> #[trigger] final(feeds).running(other) == old(feeds).running(other)
                        && final(self).error(other) == old(self).error(other)
                &&& match outcome {
                    Ok((main, handle)) => final(self).error(which) is None && final(feeds).running(which) == Some(
                        Feed {
                            settings: crate::video_tap::settings_of(which, old(self).wanted(which), main),
                            handle,
                        },
                    ),
                    Err(error) => final(self).error(which) == Some(error@) && final(feeds).running(which) is None,
                }
            }),
    {
        let which = match self.stage {
            Stage::Starting(which) => which,
            _ => Which::Preview,
        };
        match outcome {
            Ok((main, handle)) => {
                let settings = feed_settings(which, self.request.wanted(which), main);
                feeds.keep(Feed { settings, handle });
            },
            Err(error) => match which {
                Which::Preview => {
                    self.preview_error = Some(error);
                },
                Which::Program => {
                    self.program_error = Some(error);
                },
            },
        }
        self.stage = match which {
            Which::Preview => Stage::Reconcile(Which::Program),
            Which::Program => Stage::Listening,
        };
    }
}

/// Stops everything, on request or because OBS is `exiting`: the feeds to
/// take down, Preview first, and whether events were listened to.
pub fn stop<H>(feeds: &mut Feeds<H>, exiting: bool) -> (stopped: (Vec<Feed<H>>, bool))
    ensures
        final(feeds).well_formed(),
        forall|which: Which| #[trigger] final(feeds).running(which) is None,
        !final(feeds).watching(),
        final(feeds).exiting() == (old(feeds).exiting() || exiting),
        final(feeds).output_type() == old(feeds).output_type(),
        stopped.0@ == (match (old(feeds).running(Which::Preview), old(feeds).running(Which::Program)) {
            (Some(a), Some(b)) => seq![a, b],
            (Some(a), None) => seq![a],
            (None, Some(b)) => seq![b],
            (None, None) => Seq::empty(),
        }),
        stopped.1 == old(feeds).watching(),
{
    if exiting {
        feeds.exit();
    }
    let feeds_stopped = stop_all(feeds);
    let listening = feeds.unwatch();
    (feeds_stopped, listening)
}

/// Once OBS is exiting, no request starts a feed.
pub proof fn nothing_starts_while_obs_exits<H>(run: FeedRequest, feeds: Feeds<H>)
    requires
        run.fits(feeds),
        run.refused(),
    ensures
        run.stage() == Stage::Finished,
        run.outcome() == Some("OBS is exiting"@),
{
}

/// A request that went through has what it asked for: each feed that is
/// asked for runs as it was asked for, no other feed runs, and frontend
/// events are listened to exactly if a feed runs.
pub proof fn a_request_sets_what_runs<H>(run: FeedRequest, feeds: Feeds<H>)
    requires
        run.fits(feeds),
        run.stage() == Stage::Finished,
        run.outcome() is None,
    ensures
        forall|which: Which| served(feeds, which, #[trigger] run.wanted(which)),
        forall|which: Which| (#[trigger] run.wanted(which)).on <==> feeds.running(which) is Some,
        forall|which: Which|
            (#[trigger] run.wanted(which)).on ==> {
                let settings = feeds.running(which)->0.settings;
                &&& settings.path == run.wanted(which).path
                &&& settings.transport == run.wanted(which).transport
                &&& settings.width == run.wanted(which).width
                &&& settings.height == run.wanted(which).height
            },
        feeds.watching() == (run.wanted(Which::Preview).on || run.wanted(Which::Program).on),
{
    assert forall|which: Which| served(feeds, which, #[trigger] run.wanted(which)) by {
        assert(run.error(which) is None);
        match which {
            Which::Preview => {},
            Which::Program => {},
        }
    }
    assert(served(feeds, Which::Preview, run.wanted(Which::Preview)));
    assert(served(feeds, Which::Program, run.wanted(Which::Program)));
}

} // verus!
