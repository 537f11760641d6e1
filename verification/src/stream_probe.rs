// SPDX-License-Identifier: GPL-2.0-or-later
//! Sampling the stream output often enough to tell a steady stream from one
//! that bursts and stalls: both can have the same average.

use vstd::prelude::*;

use crate::plan::{Op, Plan, When};

verus! {

/// Milliseconds between two samples.
pub const TICK_MS: u64 = 100;

/// How far back the window reaches, in nanoseconds.
pub const WINDOW_NS: u64 = 2_000_000_000;

/// One sample of the stream output.
#[derive(Clone, Copy, PartialEq, Eq, Structural, Debug)]
pub struct Tick {
    /// When it was taken, in nanoseconds of a clock that does not go back.
    pub at: u64,
    pub bytes: u64,
    pub dropped: i32,
    pub total: i32,
    /// The bits of the congestion, a 32-bit float.
    pub congestion: u32,
}

/// The samples not older than the window at `now`, in order.
pub open spec fn recent(ticks: Seq<Tick>, now: u64) -> Seq<Tick>
    decreases ticks.len(),
{
    if ticks.len() == 0 {
        Seq::empty()
    } else {
        let before = recent(ticks.drop_last(), now);
        if ticks.last().at >= now - WINDOW_NS {
            before.push(ticks.last())
        } else {
            before
        }
    }
}

/// The window keeps every sample of the last two seconds and no older one, in
/// order.
pub proof fn a_window_reaches_back_two_seconds(ticks: Seq<Tick>, now: u64)
    ensures
        recent(ticks, now) == ticks.filter(|t: Tick| t.at + 2_000_000_000 >= now),
    decreases ticks.len(),
{
    reveal(Seq::filter);
    if ticks.len() > 0 {
        a_window_reaches_back_two_seconds(ticks.drop_last(), now);
    }
}

/// What the sampler holds: the number of its last run, and the samples in
/// the window; none where it does not run.
#[verifier::ext_equal]
pub ghost struct ProbeView {
    pub run: u64,
    pub window: Option<Seq<Tick>>,
}

/// A sampler that has been started: a new run with an empty window. One that
/// runs is left alone.
pub open spec fn started(probe: ProbeView) -> ProbeView {
    match probe.window {
        Some(_) => probe,
        None => ProbeView {
            run: if probe.run == u64::MAX {
                0
            } else {
                (probe.run + 1) as u64
            },
            window: Some(Seq::empty()),
        },
    }
}

/// A sampler that has been stopped.
pub open spec fn stopped(probe: ProbeView) -> ProbeView {
    ProbeView { run: probe.run, window: None }
}

/// One sample of a run; none where nothing is streaming.
pub ghost struct Sampled {
    pub run: u64,
    pub tick: Option<Tick>,
}

/// Whether a run is the one that goes on.
pub open spec fn goes_on(probe: ProbeView, run: u64) -> bool {
    probe.window is Some && run == probe.run
}

/// A sampler that has taken in one sample. A sample of a run that is over
/// changes nothing; the history of a stream that has ended is forgotten.
pub open spec fn after_sample(probe: ProbeView, sample: Sampled) -> ProbeView {
    if !goes_on(probe, sample.run) {
        probe
    } else {
        let window = match sample.tick {
            Some(t) => recent(probe.window->0.push(t), t.at),
            None => Seq::empty(),
        };
        ProbeView { run: probe.run, window: Some(window) }
    }
}

/// A sampler that has taken in samples one after the other.
pub open spec fn after_samples(probe: ProbeView, samples: Seq<Sampled>) -> ProbeView
    decreases samples.len(),
{
    if samples.len() == 0 {
        probe
    } else {
        after_sample(after_samples(probe, samples.drop_last()), samples.last())
    }
}

/// Samples that no longer count change nothing.
proof fn late_samples_change_nothing(probe: ProbeView, samples: Seq<Sampled>)
    requires
        forall|i: int| 0 <= i < samples.len() ==> !goes_on(probe, (#[trigger] samples[i]).run),
    ensures
        after_samples(probe, samples) == probe,
    decreases samples.len(),
{
    if samples.len() > 0 {
        let before = samples.drop_last();
        assert forall|i: int| 0 <= i < before.len() implies !goes_on(probe, (#[trigger] before[i]).run) by {
            assert(before[i] == samples[i]);
        }
        late_samples_change_nothing(probe, before);
        assert(samples.last() == samples[samples.len() - 1]);
    }
}

/// A sampler that was stopped records nothing, whatever samples still come.
pub proof fn a_stopped_sampler_records_nothing(probe: ProbeView, samples: Seq<Sampled>)
    ensures
        after_samples(stopped(probe), samples) == stopped(probe),
        after_samples(stopped(probe), samples).window is None,
{
    late_samples_change_nothing(stopped(probe), samples);
}

/// A sampler that is started again after it was stopped begins a run with an
/// empty window, and samples that still come of the run before do not get
/// into it.
pub proof fn a_new_run_begins_afresh(probe: ProbeView, samples: Seq<Sampled>)
    requires
        forall|i: int| 0 <= i < samples.len() ==> (#[trigger] samples[i]).run == probe.run,
    ensures
        started(stopped(probe)).run != probe.run,
        after_samples(started(stopped(probe)), samples).window == Some(Seq::<Tick>::empty()),
{
    late_samples_change_nothing(started(stopped(probe)), samples);
}

/// The sampler.
pub struct StreamProbe {
    run: u64,
    window: Option<Vec<Tick>>,
}

impl View for StreamProbe {
    type V = ProbeView;

    closed spec fn view(&self) -> ProbeView {
        ProbeView {
            run: self.run,
            window: match self.window {
                Some(ticks) => Some(ticks@),
                None => None,
            },
        }
    }
}

impl StreamProbe {
    /// A sampler that was never started.
    pub fn new() -> (probe: Self)
        ensures
            probe@ == (ProbeView { run: 0, window: None }),
    {
        StreamProbe { run: 0, window: None }
    }

    /// Starts the sampler: gives the number of the run, with which its thread
    /// is to take samples. None where the sampler runs already.
    pub fn start(&mut self) -> (run: Option<u64>)
        ensures
            final(self)@ == started(old(self)@),
            run == (match old(self)@.window {
                Some(_) => None,
                None => Some(final(self)@.run),
            }),
            old(self)@.window is Some ==> final(self)@ == old(self)@,
            old(self)@.window is None ==> {
                &&& final(self)@.window == Some(Seq::<Tick>::empty())
                &&& final(self)@.run != old(self)@.run
                &&& old(self)@.run < u64::MAX ==> final(self)@.run == old(self)@.run + 1
            },
    {
        if self.window.is_some() {
            return None;
        }
        self.run = if self.run == u64::MAX {
            0
        } else {
            self.run + 1
        };
        let window: Vec<Tick> = Vec::new();
        assert(window@ =~= Seq::<Tick>::empty());
        self.window = Some(window);
        Some(self.run)
    }

    /// Takes in one sample of a run; none where nothing is streaming: there is
    /// no stream output, or it is not active. Says whether the run goes on:
    /// its thread ends where it does not.
    pub fn sample(&mut self, run: u64, tick: Option<Tick>) -> (on: bool)
        ensures
            on == goes_on(old(self)@, run),
            final(self)@ == after_sample(old(self)@, Sampled { run, tick }),
            final(self)@.run == old(self)@.run,
            old(self)@.window is None || run != old(self)@.run ==> !on && final(self)@.window == old(self)@.window,
            old(self)@.window is Some && run == old(self)@.run ==> on && final(self)@.window == Some(
                match tick {
                    Some(t) => old(self)@.window->0.push(t).filter(|u: Tick| u.at + 2_000_000_000 >= t.at),
                    None => Seq::<Tick>::empty(),
                },
            ),
    {
        proof {
            if self@.window is Some && tick is Some {
                a_window_reaches_back_two_seconds(self@.window->0.push(tick->0), (tick->0).at);
            }
        }
        if run != self.run || self.window.is_none() {
            return false;
        }
        let window = self.window.take();
        match window {
            None => {},
            Some(ticks) => {
                let mut ticks = ticks;
                match tick {
                    Some(t) => {
                        ticks.push(t);
                        self.window = Some(keep_recent(&ticks, t.at));
                    },
                    None => {
                        let forgotten: Vec<Tick> = Vec::new();
                        assert(forgotten@ =~= Seq::<Tick>::empty());
                        self.window = Some(forgotten);
                    },
                }
            },
        }
        true
    }

    /// What the window says, without the arithmetic on rates. None where the
    /// sampler does not run, where nothing is streaming or too little was
    /// collected, or where no time has passed.
    pub fn quality(&self) -> (reduced: Option<Reduced>)
        ensures
            match reduced {
                None => !(self@.window matches Some(ticks) && ticks.len() >= 3 && intervals(
                    ticks,
                    ticks.len() as int,
                ).len() > 0),
                Some(r) => self@.window matches Some(ticks) && ticks.len() >= 3 && intervals(
                    ticks,
                    ticks.len() as int,
                ).len() > 0 && reduces(ticks, r),
            },
    {
        match &self.window {
            None => None,
            Some(ticks) => {
                if ticks.len() < 3 {
                    return None;
                }
                let found = collect_intervals(ticks);
                if found.len() == 0 {
                    return None;
                }
                let mut empty: Vec<bool> = Vec::new();
                let mut i: usize = 0;
                while i < found.len()
                    invariant
                        i <= found@.len(),
                        empty@.len() == i,
                        forall|k: int| 0 <= k < i ==> #[trigger] empty@[k] == (found@[k].bytes == 0),
                    decreases found@.len() - i,
                {
                    empty.push(found[i].bytes == 0);
                    i = i + 1;
                }
                assert(empty@ =~= found@.map_values(|interval: Interval| interval.bytes == 0));
                let stalls: usize = stall_buckets(empty.as_slice());
                let buckets: usize = found.len();
                let first = ticks[0];
                let last = ticks[ticks.len() - 1];
                let mut congestion: Vec<u32> = Vec::new();
                let mut j: usize = 0;
                while j < ticks.len()
                    invariant
                        j <= ticks@.len(),
                        congestion@.len() == j,
                        forall|k: int| 0 <= k < j ==> #[trigger] congestion@[k] == ticks@[k].congestion,
                    decreases ticks@.len() - j,
                {
                    congestion.push(ticks[j].congestion);
                    j = j + 1;
                }
                assert(congestion@ =~= ticks@.map_values(|t: Tick| t.congestion));
                Some(
                    Reduced {
                        intervals: found,
                        stalls,
                        buckets,
                        congestion,
                        dropped_delta: clamped_difference(last.dropped, first.dropped),
                        total_delta: clamped_difference(last.total, first.total),
                    },
                )
            },
        }
    }
}

/// Stops the sampler; says whether it ran.
pub fn shutdown(probe: &mut StreamProbe) -> (ran: bool)
    ensures
        ran == (old(probe)@.window is Some),
        final(probe)@ == stopped(old(probe)@),
        final(probe)@.window is None,
        final(probe)@.run == old(probe)@.run,
{
    let ran = probe.window.is_some();
    probe.window = None;
    ran
}

fn keep_recent(ticks: &Vec<Tick>, now: u64) -> (kept: Vec<Tick>)
    ensures
        kept@ == recent(ticks@, now),
{
    let mut kept: Vec<Tick> = Vec::new();
    let mut i: usize = 0;
    assert(ticks@.take(0) =~= Seq::<Tick>::empty());
    while i < ticks.len()
        invariant
            i <= ticks@.len(),
            kept@ == recent(ticks@.take(i as int), now),
        decreases ticks@.len() - i,
    {
        assert(ticks@.take(i + 1).drop_last() =~= ticks@.take(i as int));
        let t = ticks[i];
        if t.at >= now || now - t.at <= WINDOW_NS {
            kept.push(t);
        }
        i = i + 1;
    }
    assert(ticks@.take(i as int) =~= ticks@);
    kept
}

// ---------------------------------------------------------------------
// Reducing a window
// ---------------------------------------------------------------------

/// What was sent between two samples.
#[derive(Clone, Copy, PartialEq, Eq, Structural, Debug)]
pub struct Interval {
    pub bytes: u64,
    pub nanos: u64,
}

/// A window, reduced to what its rates are computed from.
pub struct Reduced {
    pub intervals: Vec<Interval>,
    /// Intervals that belong to a stall.
    pub stalls: usize,
    pub buckets: usize,
    /// The bits of the congestion of each sample.
    pub congestion: Vec<u32>,
    pub dropped_delta: i32,
    pub total_delta: i32,
}

/// The interval between two samples. A counter that went back counts as no
/// progress.
pub open spec fn interval_of(a: Tick, b: Tick) -> Interval {
    Interval {
        bytes: if b.bytes >= a.bytes {
            (b.bytes - a.bytes) as u64
        } else {
            0
        },
        nanos: (b.at - a.at) as u64,
    }
}

/// The intervals between the first `n` samples. Two samples between which no
/// time has passed make none.
pub open spec fn intervals(ticks: Seq<Tick>, n: int) -> Seq<Interval>
    decreases n,
{
    if n <= 1 {
        Seq::empty()
    } else {
        let before = intervals(ticks, n - 1);
        if ticks[n - 1].at > ticks[n - 2].at {
            before.push(interval_of(ticks[n - 2], ticks[n - 1]))
        } else {
            before
        }
    }
}

/// What was sent between two samples and how long it took: added to the
/// earlier sample they give the later one, wherever neither counter went
/// back.
pub proof fn an_interval_leads_from_one_sample_to_the_next(a: Tick, b: Tick)
    ensures
        a.bytes <= b.bytes ==> a.bytes + interval_of(a, b).bytes == b.bytes,
        a.bytes > b.bytes ==> interval_of(a, b).bytes == 0,
        a.at <= b.at ==> a.at + interval_of(a, b).nanos == b.at,
{
}

/// The bytes of intervals added up.
pub open spec fn bytes_sent(found: Seq<Interval>) -> int
    decreases found.len(),
{
    if found.len() == 0 {
        0
    } else {
        bytes_sent(found.drop_last()) + found.last().bytes
    }
}

/// The nanoseconds of intervals added up.
pub open spec fn nanos_taken(found: Seq<Interval>) -> int
    decreases found.len(),
{
    if found.len() == 0 {
        0
    } else {
        nanos_taken(found.drop_last()) + found.last().nanos
    }
}

/// Where time passes between all samples and the byte counter never goes
/// back, there is one interval from each sample to the next, and together
/// they account for every byte and every nanosecond between the first sample
/// and the last.
pub proof fn intervals_account_for_every_byte(ticks: Seq<Tick>, n: int)
    requires
        1 <= n <= ticks.len(),
        forall|i: int, j: int| 0 <= i && j == i + 1 && j < n ==> (#[trigger] ticks[i]).at < (#[trigger] ticks[j]).at,
        forall|i: int, j: int|
            0 <= i && j == i + 1 && j < n ==> (#[trigger] ticks[i]).bytes <= (#[trigger] ticks[j]).bytes,
    ensures
        intervals(ticks, n).len() == n - 1,
        forall|k: int|
            0 <= k < n - 1 ==> ticks[k].bytes + (#[trigger] intervals(ticks, n)[k]).bytes == ticks[k + 1].bytes
                && ticks[k].at + intervals(ticks, n)[k].nanos == ticks[k + 1].at,
        bytes_sent(intervals(ticks, n)) == ticks[n - 1].bytes - ticks[0].bytes,
        nanos_taken(intervals(ticks, n)) == ticks[n - 1].at - ticks[0].at,
    decreases n,
{
    if n > 1 {
        intervals_account_for_every_byte(ticks, n - 1);
        assert(ticks[n - 2].at < ticks[n - 1].at);
        let before = intervals(ticks, n - 1);
        let found = intervals(ticks, n);
        assert(found.drop_last() =~= before);
        assert forall|k: int| 0 <= k < n - 1 implies ticks[k].bytes + (#[trigger] found[k]).bytes == ticks[k + 1].bytes
            && ticks[k].at + found[k].nanos == ticks[k + 1].at by {
            if k < n - 2 {
                assert(found[k] == before[k]);
            }
        }
    }
}

/// In general there is an interval for each two samples in a row between
/// which time has passed, in order.
pub proof fn an_interval_for_each_pair_in_time(ticks: Seq<Tick>, n: int)
    requires
        0 <= n <= ticks.len(),
    ensures
        ({
            let pairs = Seq::new(
                (if n >= 1 {
                    n - 1
                } else {
                    0
                }) as nat,
                |i: int| (ticks[i], ticks[i + 1]),
            );
            intervals(ticks, n) == pairs.filter(|pair: (Tick, Tick)| pair.0.at < pair.1.at).map_values(
                |pair: (Tick, Tick)|
                    Interval {
                        bytes: if pair.1.bytes >= pair.0.bytes {
                            (pair.1.bytes - pair.0.bytes) as u64
                        } else {
                            0
                        },
                        nanos: (pair.1.at - pair.0.at) as u64,
                    },
            )
        }),
    decreases n,
{
    reveal(Seq::filter);
    let in_time = |pair: (Tick, Tick)| pair.0.at < pair.1.at;
    let between = |pair: (Tick, Tick)|
        Interval {
            bytes: if pair.1.bytes >= pair.0.bytes {
                (pair.1.bytes - pair.0.bytes) as u64
            } else {
                0
            },
            nanos: (pair.1.at - pair.0.at) as u64,
        };
    let pairs = Seq::new(
        (if n >= 1 {
            n - 1
        } else {
            0
        }) as nat,
        |i: int| (ticks[i], ticks[i + 1]),
    );
    if n > 1 {
        an_interval_for_each_pair_in_time(ticks, n - 1);
        let fewer = Seq::new((n - 2) as nat, |i: int| (ticks[i], ticks[i + 1]));
        assert(pairs.drop_last() =~= fewer);
        assert(intervals(ticks, n) =~= pairs.filter(in_time).map_values(between));
    } else {
        assert(pairs.filter(in_time).map_values(between) =~= Seq::<Interval>::empty());
    }
}

/// There is something to reduce exactly if time passes between some two
/// samples in a row.
pub proof fn when_there_are_intervals(ticks: Seq<Tick>, n: int)
    requires
        0 <= n <= ticks.len(),
    ensures
        intervals(ticks, n).len() > 0 <==> exists|i: int, j: int|
            0 <= i && j == i + 1 && j < n && (#[trigger] ticks[i]).at < (#[trigger] ticks[j]).at,
    decreases n,
{
    if n > 1 {
        when_there_are_intervals(ticks, n - 1);
        if ticks[n - 2].at < ticks[n - 1].at {
            assert(intervals(ticks, n).len() > 0);
        }
    }
}

/// What a window reduces to: an interval from sample to sample, each stalled
/// interval counted, every sample's congestion, and the frames dropped and
/// sent between the first sample and the last.
pub proof fn what_a_window_reduces_to(ticks: Seq<Tick>, r: Reduced)
    requires
        reduces(ticks, r),
        ticks.len() > 0,
    ensures
        r.intervals@ == intervals(ticks, ticks.len() as int),
        r.buckets == r.intervals@.len(),
        r.stalls == Seq::new(
            r.intervals@.len(),
            |i: int|
                r.intervals@[i].bytes == 0 && ((0 < i && r.intervals@[i - 1].bytes == 0) || (i + 1
                    < r.intervals@.len() && r.intervals@[i + 1].bytes == 0)),
        ).filter(|stalls: bool| stalls).len(),
        r.congestion@.len() == ticks.len(),
        forall|i: int| 0 <= i < ticks.len() ==> #[trigger] r.congestion@[i] == ticks[i].congestion,
        i32::MIN <= ticks.last().dropped - ticks[0].dropped <= i32::MAX ==> ticks[0].dropped + r.dropped_delta
            == ticks.last().dropped,
        i32::MIN <= ticks.last().total - ticks[0].total <= i32::MAX ==> ticks[0].total + r.total_delta
            == ticks.last().total,
        ticks.last().dropped - ticks[0].dropped > i32::MAX ==> r.dropped_delta == i32::MAX,
        ticks.last().dropped - ticks[0].dropped < i32::MIN ==> r.dropped_delta == i32::MIN,
        ticks.last().total - ticks[0].total > i32::MAX ==> r.total_delta == i32::MAX,
        ticks.last().total - ticks[0].total < i32::MIN ==> r.total_delta == i32::MIN,
{
    let found = r.intervals@;
    let empty = found.map_values(|interval: Interval| interval.bytes == 0);
    stalls_are_counted(empty, empty.len() as int);
    assert(Seq::new(
        empty.len(),
        |i: int| empty[i] && ((0 < i && empty[i - 1]) || (i + 1 < empty.len() && empty[i + 1])),
    ) =~= Seq::new(
        found.len(),
        |i: int|
            found[i].bytes == 0 && ((0 < i && found[i - 1].bytes == 0) || (i + 1 < found.len() && found[i + 1].bytes
                == 0)),
    ));
}

/// Stalled intervals are counted one by one: an empty one counts exactly if
/// the one before it or the one after it is empty too.
pub proof fn stalls_are_counted(empty: Seq<bool>, n: int)
    requires
        0 <= n <= empty.len(),
    ensures
        stalled(empty, n) == Seq::new(
            n as nat,
            |i: int| empty[i] && ((0 < i && empty[i - 1]) || (i + 1 < empty.len() && empty[i + 1])),
        ).filter(|stalls: bool| stalls).len(),
    decreases n,
{
    reveal(Seq::filter);
    let marks = Seq::new(
        n as nat,
        |i: int| empty[i] && ((0 < i && empty[i - 1]) || (i + 1 < empty.len() && empty[i + 1])),
    );
    if n > 0 {
        stalls_are_counted(empty, n - 1);
        assert(marks.drop_last() =~= Seq::new(
            (n - 1) as nat,
            |i: int| empty[i] && ((0 < i && empty[i - 1]) || (i + 1 < empty.len() && empty[i + 1])),
        ));
    }
}

/// `r` is what a window of samples reduces to.
pub open spec fn reduces(ticks: Seq<Tick>, r: Reduced) -> bool {
    let found = intervals(ticks, ticks.len() as int);
    &&& r.intervals@ == found
    &&& r.buckets == found.len()
    &&& r.stalls == stalled(
        found.map_values(|interval: Interval| interval.bytes == 0),
        found.len() as int,
    )
    &&& r.congestion@ == ticks.map_values(|t: Tick| t.congestion)
    &&& r.dropped_delta == clamped(ticks.last().dropped - ticks[0].dropped)
    &&& r.total_delta == clamped(ticks.last().total - ticks[0].total)
}

/// A number in the range of an `i32`, or the end of the range nearest to it.
pub open spec fn clamped(n: int) -> int {
    if n < i32::MIN {
        i32::MIN as int
    } else if n > i32::MAX {
        i32::MAX as int
    } else {
        n
    }
}

fn clamped_difference(a: i32, b: i32) -> (difference: i32)
    ensures
        difference == clamped(a - b),
{
    let wide: i64 = a as i64 - b as i64;
    if wide < i32::MIN as i64 {
        i32::MIN
    } else if wide > i32::MAX as i64 {
        i32::MAX
    } else {
        wide as i32
    }
}

fn collect_intervals(ticks: &Vec<Tick>) -> (found: Vec<Interval>)
    ensures
        found@ == intervals(ticks@, ticks@.len() as int),
{
    let mut found: Vec<Interval> = Vec::new();
    if ticks.len() == 0 {
        return found;
    }
    let mut n: usize = 1;
    while n < ticks.len()
        invariant
            1 <= n <= ticks@.len(),
            found@ == intervals(ticks@, n as int),
        decreases ticks@.len() - n,
    {
        let a = ticks[n - 1];
        let b = ticks[n];
        if b.at > a.at {
            let bytes: u64 = if b.bytes >= a.bytes {
                b.bytes - a.bytes
            } else {
                0
            };
            found.push(Interval { bytes, nanos: b.at - a.at });
        }
        n = n + 1;
    }
    found
}

/// Whether an interval belongs to a stall: it is empty, and so is one next to
/// it. A lone gap is ordinary, for encoders hand data over in bursts.
pub open spec fn in_a_stall(empty: Seq<bool>, i: int) -> bool {
    empty[i] && ((0 < i && empty[i - 1]) || (i + 1 < empty.len() && empty[i + 1]))
}

/// How many of the first `n` intervals belong to a stall.
pub open spec fn stalled(empty: Seq<bool>, n: int) -> int
    decreases n,
{
    if n <= 0 {
        0
    } else {
        stalled(empty, n - 1) + (if in_a_stall(empty, n - 1) {
            1int
        } else {
            0
        })
    }
}

proof fn a_run_is_stalled(empty: Seq<bool>, from: int, to: int)
    requires
        0 <= from <= to <= empty.len(),
        forall|i: int| from <= i < to ==> in_a_stall(empty, i),
    ensures
        stalled(empty, to) == stalled(empty, from) + (to - from),
    decreases to - from,
{
    if from < to {
        a_run_is_stalled(empty, from, to - 1);
        assert(in_a_stall(empty, to - 1));
    }
}

proof fn stalls_are_few(empty: Seq<bool>, n: int)
    requires
        0 <= n,
    ensures
        0 <= stalled(empty, n) <= n,
    decreases n,
{
    if n > 0 {
        stalls_are_few(empty, n - 1);
    }
}

/// A run of empty intervals that ends before `to` counts whole where it has
/// two or more, and not at all where it has one.
proof fn a_run_ends(empty: Seq<bool>, from: int, to: int)
    requires
        0 <= from <= to <= empty.len(),
        forall|i: int| from <= i < to ==> empty[i],
        from > 0 ==> !empty[from - 1],
        to < empty.len() ==> !empty[to],
    ensures
        stalled(empty, to) == stalled(empty, from) + (if to - from >= 2 {
            to - from
        } else {
            0
        }),
{
    if to - from >= 2 {
        assert forall|i: int| from <= i < to implies in_a_stall(empty, i) by {
            assert(empty[i]);
            if i > from {
                assert(empty[i - 1]);
            } else {
                assert(empty[i + 1]);
            }
        }
        a_run_is_stalled(empty, from, to);
    } else if to - from == 1 {
        assert(!in_a_stall(empty, from));
    }
}

/// How many intervals belong to a stall: a run of two or more empty ones.
pub fn stall_buckets(empty: &[bool]) -> (stalls: usize)
    ensures
        stalls == stalled(empty@, empty@.len() as int),
{
    let mut total: usize = 0;
    let mut run: usize = 0;
    let mut i: usize = 0;
    while i < empty.len()
        invariant
            i <= empty@.len(),
            run <= i,
            total == stalled(empty@, i - run),
            total <= i - run,
            forall|k: int| i - run <= k < i ==> empty@[k],
            i - run > 0 ==> !empty@[i - run - 1],
        decreases empty@.len() - i,
    {
        if empty[i] {
            run = run + 1;
        } else {
            proof {
                a_run_ends(empty@, i - run, i as int);
                stalls_are_few(empty@, i as int);
                assert(!in_a_stall(empty@, i as int));
            }
            if run >= 2 {
                total = total + run;
            }
            run = 0;
        }
        i = i + 1;
    }
    proof {
        a_run_ends(empty@, i - run, i as int);
        stalls_are_few(empty@, i as int);
    }
    if run >= 2 {
        total = total + run;
    }
    total
}

/// A stream whose gaps each last one interval has no stall, however many
/// there are.
pub proof fn lone_gaps_are_no_stall(empty: Seq<bool>, n: int)
    requires
        0 <= n <= empty.len(),
        forall|i: int, j: int| 0 <= i && j == i + 1 && j < empty.len() ==> !(
            #[trigger] empty[i] && #[trigger] empty[j]
        ),
    ensures
        stalled(empty, n) == 0,
    decreases n,
{
    if n > 0 {
        lone_gaps_are_no_stall(empty, n - 1);
        assert(!in_a_stall(empty, n - 1)) by {
            if in_a_stall(empty, n - 1) {
                if 0 < n - 1 && empty[n - 2] {
                    assert(!(empty[n - 2] && empty[n - 1]));
                } else {
                    assert(!(empty[n - 1] && empty[n]));
                }
            }
        }
    }
}

// ---------------------------------------------------------------------
// The stream output
// ---------------------------------------------------------------------

/// A call that finds the stream output, under the two names OBS gives it.
#[derive(Clone, Copy, PartialEq, Eq, Structural, Debug)]
pub enum OutputCall {
    /// `obs_get_output_by_name` of `simple_stream`; yes: with a reference.
    FindSimple,
    /// `obs_get_output_by_name` of `adv_stream`; yes: with a reference.
    FindAdvanced,
}

/// Why there is no output.
#[derive(Clone, Copy, PartialEq, Eq, Structural, Debug)]
pub enum OutputFault {
    SymbolMissing,
}

pub open spec fn stream_output_ops(symbol: bool) -> Seq<Op<OutputCall, OutputFault>> {
    seq![
        Op::Need { met: symbol, fault: OutputFault::SymbolMissing },
        Op::Do { call: OutputCall::FindSimple, when: When::Always },
        Op::Do { call: OutputCall::FindAdvanced, when: When::Unless(1) },
    ]
}

/// Finds the stream output: Simple mode's first, Advanced mode's where there
/// is none.
pub fn stream_output(symbol: bool) -> (plan: Plan<OutputCall, OutputFault>)
    ensures
        plan.fresh(stream_output_ops(symbol)),
{
    let ops: Vec<Op<OutputCall, OutputFault>> = vec![
        Op::Need { met: symbol, fault: OutputFault::SymbolMissing },
        Op::Do { call: OutputCall::FindSimple, when: When::Always },
        Op::Do { call: OutputCall::FindAdvanced, when: When::Unless(1) },
    ];
    assert(ops@ =~= stream_output_ops(symbol));
    Plan::new(ops)
}

/// How the stream output is found.
pub open spec fn output_course(
    symbol: bool,
    host: spec_fn(int) -> bool,
) -> crate::plan::Course<OutputCall, OutputFault> {
    if !symbol {
        crate::plan::stopped(Some(OutputFault::SymbolMissing))
    } else if host(1) {
        crate::plan::Course { calls: seq![(OutputCall::FindSimple, true)], fault: None }
    } else {
        crate::plan::Course {
            calls: seq![(OutputCall::FindSimple, false), (OutputCall::FindAdvanced, host(2))],
            fault: None,
        }
    }
}

/// Ten samples a second, over two seconds.
pub proof fn how_often_the_stream_is_sampled()
    ensures
        TICK_MS * 10 == 1000,
        WINDOW_NS == 2 * 1_000_000_000,
{
}

/// At most one output is taken.
pub proof fn how_the_stream_output_is_found(symbol: bool, host: spec_fn(int) -> bool)
    ensures
        crate::plan::whole_course(stream_output_ops(symbol), host) == output_course(symbol, host),
        crate::plan::whole_course(stream_output_ops(symbol), host) == (if !symbol {
            crate::plan::stopped(Some(OutputFault::SymbolMissing))
        } else if host(1) {
            crate::plan::Course { calls: seq![(OutputCall::FindSimple, true)], fault: None }
        } else {
            crate::plan::Course {
                calls: seq![(OutputCall::FindSimple, false), (OutputCall::FindAdvanced, host(2))],
                fault: None,
            }
        }),
{
    let ops = stream_output_ops(symbol);
    crate::plan::every_step(ops, host);
    assert(crate::plan::whole_course(ops, host) =~= output_course(symbol, host));
}

/// A call that reads an encoder's bitrate.
#[derive(Clone, Copy, PartialEq, Eq, Structural, Debug)]
pub enum BitrateCall {
    /// `obs_encoder_get_settings`; yes: with a reference.
    GetSettings,
    /// `obs_data_get_int` of `bitrate`.
    ReadBitrate,
    /// `obs_data_release` of the settings.
    ReleaseSettings,
}

/// Why there is no bitrate.
#[derive(Clone, Copy, PartialEq, Eq, Structural, Debug)]
pub enum BitrateFault {
    SymbolMissing,
    NoSettings,
}

pub open spec fn read_bitrate_ops(get_settings: bool, get_int: bool) -> Seq<Op<BitrateCall, BitrateFault>> {
    seq![
        Op::Need { met: get_settings, fault: BitrateFault::SymbolMissing },
        Op::Need { met: get_int, fault: BitrateFault::SymbolMissing },
        Op::Do { call: BitrateCall::GetSettings, when: When::Always },
        Op::Require { answer: 2, fault: BitrateFault::NoSettings },
        Op::Do { call: BitrateCall::ReadBitrate, when: When::Always },
        Op::Do { call: BitrateCall::ReleaseSettings, when: When::Always },
    ]
}

/// Reads the bitrate an encoder is set to. Nothing is taken where it could
/// not be read.
pub fn read_bitrate(get_settings: bool, get_int: bool) -> (plan: Plan<BitrateCall, BitrateFault>)
    ensures
        plan.fresh(read_bitrate_ops(get_settings, get_int)),
{
    let ops: Vec<Op<BitrateCall, BitrateFault>> = vec![
        Op::Need { met: get_settings, fault: BitrateFault::SymbolMissing },
        Op::Need { met: get_int, fault: BitrateFault::SymbolMissing },
        Op::Do { call: BitrateCall::GetSettings, when: When::Always },
        Op::Require { answer: 2, fault: BitrateFault::NoSettings },
        Op::Do { call: BitrateCall::ReadBitrate, when: When::Always },
        Op::Do { call: BitrateCall::ReleaseSettings, when: When::Always },
    ];
    assert(ops@ =~= read_bitrate_ops(get_settings, get_int));
    Plan::new(ops)
}

/// How a bitrate is read.
pub open spec fn bitrate_course(
    get_settings: bool,
    get_int: bool,
    host: spec_fn(int) -> bool,
) -> crate::plan::Course<BitrateCall, BitrateFault> {
    if !get_settings || !get_int {
        crate::plan::stopped(Some(BitrateFault::SymbolMissing))
    } else if !host(2) {
        crate::plan::Course {
            calls: seq![
                (BitrateCall::GetSettings, false),
            ],
            fault: Some(BitrateFault::NoSettings),
        }
    } else {
        crate::plan::Course {
            calls: seq![
                (BitrateCall::GetSettings, true),
                (BitrateCall::ReadBitrate, host(4)),
                (BitrateCall::ReleaseSettings, host(5)),
            ],
            fault: None,
        }
    }
}

/// Settings that were taken are given back, once their bitrate was read.
pub proof fn how_a_bitrate_is_read(get_settings: bool, get_int: bool, host: spec_fn(int) -> bool)
    ensures
        crate::plan::whole_course(read_bitrate_ops(get_settings, get_int), host) == bitrate_course(
            get_settings,
            get_int,
            host,
        ),
        crate::plan::whole_course(read_bitrate_ops(get_settings, get_int), host) == (if !get_settings || !get_int {
            crate::plan::stopped(Some(BitrateFault::SymbolMissing))
        } else if !host(2) {
            crate::plan::Course {
                calls: seq![
                    (BitrateCall::GetSettings, false),
                ],
                fault: Some(BitrateFault::NoSettings),
            }
        } else {
            crate::plan::Course {
                calls: seq![
                    (BitrateCall::GetSettings, true),
                    (BitrateCall::ReadBitrate, host(4)),
                    (BitrateCall::ReleaseSettings, host(5)),
                ],
                fault: None,
            }
        }),
{
    let ops = read_bitrate_ops(get_settings, get_int);
    crate::plan::every_step(ops, host);
    assert(crate::plan::whole_course(ops, host) =~= bitrate_course(get_settings, get_int, host));
}

/// A bitrate that says something: a positive one.
pub fn bitrate(value: i64) -> (bitrate: Option<i64>)
    ensures
        bitrate == (if value > 0 {
            Some(value)
        } else {
            None::<i64>
        }),
{
    if value > 0 {
        Some(value)
    } else {
        None
    }
}

/// A call that reads what the stream is set to send.
#[derive(Clone, Copy, PartialEq, Eq, Structural, Debug)]
pub enum ConfiguredCall {
    /// Carries out the plan of `stream_output`; yes: with a reference.
    FindOutput,
    /// `obs_output_get_video_encoder`; yes: the encoder.
    GetVideoEncoder,
    /// `obs_output_get_audio_encoder` of track 0; yes: the encoder.
    GetAudioEncoder,
    /// Carries out the plan of `read_bitrate` on the video encoder.
    ReadVideoBitrate,
    /// Carries out the plan of `read_bitrate` on the audio encoder.
    ReadAudioBitrate,
    /// `obs_encoder_get_id` of the video encoder.
    ReadEncoderId,
    /// `obs_output_release` of the output.
    ReleaseOutput,
}

/// Why nothing is known.
#[derive(Clone, Copy, PartialEq, Eq, Structural, Debug)]
pub enum ConfiguredFault {
    NoOutput,
}

pub open spec fn configured_ops() -> Seq<Op<ConfiguredCall, ConfiguredFault>> {
    seq![
        Op::Do { call: ConfiguredCall::FindOutput, when: When::Always },
        Op::Require { answer: 0, fault: ConfiguredFault::NoOutput },
        Op::Do { call: ConfiguredCall::GetVideoEncoder, when: When::Always },
        Op::Do { call: ConfiguredCall::GetAudioEncoder, when: When::Always },
        Op::Do { call: ConfiguredCall::ReadVideoBitrate, when: When::If(2) },
        Op::Do { call: ConfiguredCall::ReadAudioBitrate, when: When::If(3) },
        Op::Do { call: ConfiguredCall::ReadEncoderId, when: When::If(2) },
        Op::Do { call: ConfiguredCall::ReleaseOutput, when: When::Always },
    ]
}

/// Reads what the stream is set to send: the bitrates of video and audio, and
/// the video encoder.
pub fn configured() -> (plan: Plan<ConfiguredCall, ConfiguredFault>)
    ensures
        plan.fresh(configured_ops()),
{
    let ops: Vec<Op<ConfiguredCall, ConfiguredFault>> = vec![
        Op::Do { call: ConfiguredCall::FindOutput, when: When::Always },
        Op::Require { answer: 0, fault: ConfiguredFault::NoOutput },
        Op::Do { call: ConfiguredCall::GetVideoEncoder, when: When::Always },
        Op::Do { call: ConfiguredCall::GetAudioEncoder, when: When::Always },
        Op::Do { call: ConfiguredCall::ReadVideoBitrate, when: When::If(2) },
        Op::Do { call: ConfiguredCall::ReadAudioBitrate, when: When::If(3) },
        Op::Do { call: ConfiguredCall::ReadEncoderId, when: When::If(2) },
        Op::Do { call: ConfiguredCall::ReleaseOutput, when: When::Always },
    ];
    assert(ops@ =~= configured_ops());
    Plan::new(ops)
}

/// What a call does to the references held to outputs.
pub open spec fn output_references(call: (ConfiguredCall, bool)) -> int {
    match call.0 {
        ConfiguredCall::FindOutput => if call.1 {
            1
        } else {
            0
        },
        ConfiguredCall::ReleaseOutput => -1,
        _ => 0,
    }
}

/// How the configuration is read, call by call.
pub proof fn the_calls_that_read_the_configuration(host: spec_fn(int) -> bool)
    ensures
        ({
            let course = crate::plan::whole_course(configured_ops(), host);
            &&& !host(0) ==> course.calls == seq![(ConfiguredCall::FindOutput, false)]
            &&& host(0) ==> course.calls == seq![
                (ConfiguredCall::FindOutput, true),
                (ConfiguredCall::GetVideoEncoder, host(2)),
                (ConfiguredCall::GetAudioEncoder, host(3)),
            ] + (if host(2) {
                seq![(ConfiguredCall::ReadVideoBitrate, host(4))]
            } else {
                Seq::empty()
            }) + (if host(3) {
                seq![(ConfiguredCall::ReadAudioBitrate, host(5))]
            } else {
                Seq::empty()
            }) + (if host(2) {
                seq![(ConfiguredCall::ReadEncoderId, host(6))]
            } else {
                Seq::empty()
            }) + seq![(ConfiguredCall::ReleaseOutput, host(7))]
        }),
{
    let course = crate::plan::whole_course(configured_ops(), host);
    crate::plan::every_step(configured_ops(), host);
    if host(0) {
        assert(course.calls =~= seq![
            (ConfiguredCall::FindOutput, true),
            (ConfiguredCall::GetVideoEncoder, host(2)),
            (ConfiguredCall::GetAudioEncoder, host(3)),
        ] + (if host(2) {
            seq![(ConfiguredCall::ReadVideoBitrate, host(4))]
        } else {
            Seq::empty()
        }) + (if host(3) {
            seq![(ConfiguredCall::ReadAudioBitrate, host(5))]
        } else {
            Seq::empty()
        }) + (if host(2) {
            seq![(ConfiguredCall::ReadEncoderId, host(6))]
        } else {
            Seq::empty()
        }) + seq![(ConfiguredCall::ReleaseOutput, host(7))]);
    } else {
        assert(course.calls =~= seq![(ConfiguredCall::FindOutput, false)]);
    }
}

/// An output that was found is given back; without one nothing is read.
pub proof fn how_the_configuration_is_read(host: spec_fn(int) -> bool)
    ensures
        ({
            let course = crate::plan::whole_course(configured_ops(), host);
            &&& course.fault == (if host(0) {
                None::<ConfiguredFault>
            } else {
                Some(ConfiguredFault::NoOutput)
            })
            &&& crate::plan::balance(course.calls, |call: (ConfiguredCall, bool)| output_references(call)) == 0
        }),
{
    crate::plan::every_step(configured_ops(), host);
}

} // verus!
