// SPDX-License-Identifier: GPL-2.0-or-later
//! The way of a frame from OBS's video thread to the thread that sends it:
//! one slot that holds the latest frame, and the counters.
//!
//! The video thread must never wait. It parks its frame in the slot; a frame
//! that is still there has not been sent, is dropped and is counted so.

use vstd::prelude::*;

use crate::feed::Transport;
use crate::shm_ring::{frame_bytes, pack_frame};

verus! {

/// Seconds between two reports of the counters.
pub const STATS_INTERVAL_SECS: u64 = 10;

/// Buffers that are kept for the next frames.
pub const MAX_SPARES: usize = 2;

/// One NV12 frame, rows packed.
pub struct Frame {
    pub data: Vec<u8>,
    /// Capture time, in units of 100 ns since the Unix epoch.
    pub timecode: i64,
}

/// What becomes of a frame that OBS hands over.
#[derive(Clone, Copy, PartialEq, Eq, Structural, Debug)]
pub enum Delivery {
    Ignore,
    /// Copied straight into the ring.
    Ring,
    /// Parked for the sending thread.
    Park,
}

/// What becomes of a frame. `strides` are those of its two planes, where it
/// has both.
pub open spec fn delivery_of(
    running: bool,
    transport: Transport,
    width: u32,
    strides: Option<(u32, u32)>,
    ring_open: bool,
) -> Delivery {
    if running && (strides matches Some((y, uv)) && y >= width && uv >= width) {
        match transport {
            Transport::Ndi => Delivery::Park,
            Transport::Shm => if ring_open {
                Delivery::Ring
            } else {
                Delivery::Ignore
            },
        }
    } else {
        Delivery::Ignore
    }
}

/// Decides what becomes of a frame that OBS hands over.
pub fn choose_delivery(
    running: bool,
    transport: Transport,
    width: u32,
    strides: Option<(u32, u32)>,
    ring_open: bool,
) -> (delivery: Delivery)
    ensures
        delivery == delivery_of(running, transport, width, strides, ring_open),
        ({
            let usable = running && strides is Some && (strides->0).0 >= width && (strides->0).1 >= width;
            &&& !usable ==> delivery == Delivery::Ignore
            &&& usable && transport == Transport::Ndi ==> delivery == Delivery::Park
            &&& usable && transport == Transport::Shm && ring_open ==> delivery == Delivery::Ring
            &&& usable && transport == Transport::Shm && !ring_open ==> delivery == Delivery::Ignore
        }),
{
    if !running {
        return Delivery::Ignore;
    }
    match strides {
        Some((y, uv)) => {
            if y < width || uv < width {
                return Delivery::Ignore;
            }
            match transport {
                Transport::Ndi => Delivery::Park,
                Transport::Shm => if ring_open {
                    Delivery::Ring
                } else {
                    Delivery::Ignore
                },
            }
        },
        None => Delivery::Ignore,
    }
}

/// The counters of a feed.
#[derive(Clone, Copy, PartialEq, Eq, Structural, Debug)]
pub struct Stats {
    pub frames_in: u64,
    pub frames_sent: u64,
    pub frames_dropped: u64,
    pub copy_ns: u64,
    pub send_ns: u64,
    pub send_max_ns: u64,
}

/// The counters that only grow, at one moment.
#[derive(Clone, Copy, PartialEq, Eq, Structural, Debug)]
pub struct Snapshot {
    pub frames_in: u64,
    pub frames_sent: u64,
    pub frames_dropped: u64,
    pub copy_ns: u64,
    pub send_ns: u64,
}

/// The counters at 0.
pub open spec fn no_frames() -> Stats {
    Stats { frames_in: 0, frames_sent: 0, frames_dropped: 0, copy_ns: 0, send_ns: 0, send_max_ns: 0 }
}

pub open spec fn snapshot_of(stats: Stats) -> Snapshot {
    Snapshot {
        frames_in: stats.frames_in,
        frames_sent: stats.frames_sent,
        frames_dropped: stats.frames_dropped,
        copy_ns: stats.copy_ns,
        send_ns: stats.send_ns,
    }
}

/// What has happened since the last report.
#[derive(Clone, Copy, PartialEq, Eq, Structural, Debug)]
pub struct Report {
    pub frames_in: u64,
    pub frames_sent: u64,
    pub frames_dropped: u64,
    pub copy_avg_us: u64,
    pub send_avg_us: u64,
    pub send_max_us: u64,
}

pub open spec fn at_least_one(n: u64) -> u64 {
    if n == 0 {
        1
    } else {
        n
    }
}

/// The report on the counters `now`, after a report at `then`.
pub open spec fn report_of(now: Stats, then: Snapshot) -> Report {
    let frames_in = now.frames_in.wrapping_sub(then.frames_in);
    let frames_sent = now.frames_sent.wrapping_sub(then.frames_sent);
    Report {
        frames_in,
        frames_sent,
        frames_dropped: now.frames_dropped.wrapping_sub(then.frames_dropped),
        copy_avg_us: now.copy_ns.wrapping_sub(then.copy_ns) / at_least_one(frames_in) / 1000,
        send_avg_us: now.send_ns.wrapping_sub(then.send_ns) / at_least_one(frames_sent) / 1000,
        send_max_us: now.send_max_ns / 1000,
    }
}

/// A report says what was counted since the last one: the differences of the
/// counters, the mean times in whole microseconds, and the longest send.
pub proof fn what_a_report_says(now: Stats, last: Snapshot)
    requires
        now.frames_in >= last.frames_in,
        now.frames_sent >= last.frames_sent,
        now.frames_dropped >= last.frames_dropped,
        now.copy_ns >= last.copy_ns,
        now.send_ns >= last.send_ns,
    ensures
        ({
            let report = report_of(now, last);
            let copied = if report.frames_in == 0 {
                1
            } else {
                report.frames_in as int
            };
            let sent = if report.frames_sent == 0 {
                1
            } else {
                report.frames_sent as int
            };
            &&& last.frames_in + report.frames_in == now.frames_in
            &&& last.frames_sent + report.frames_sent == now.frames_sent
            &&& last.frames_dropped + report.frames_dropped == now.frames_dropped
            &&& report.copy_avg_us == (now.copy_ns - last.copy_ns) / copied / 1000
            &&& report.send_avg_us == (now.send_ns - last.send_ns) / sent / 1000
            &&& report.send_max_us == now.send_max_ns / 1000
        }),
{
}

/// A snapshot holds the counters as they are.
pub proof fn a_snapshot_holds_the_counters(stats: Stats)
    ensures
        ({
            let snapshot = snapshot_of(stats);
            &&& snapshot.frames_in == stats.frames_in
            &&& snapshot.frames_sent == stats.frames_sent
            &&& snapshot.frames_dropped == stats.frames_dropped
            &&& snapshot.copy_ns == stats.copy_ns
            &&& snapshot.send_ns == stats.send_ns
        }),
{
}

/// What the sending thread does next.
pub enum Work {
    /// The feed has ended.
    Stop,
    /// Nothing to send.
    Idle,
    Send(Frame),
}

/// The slot and the counters of one feed.
pub struct Pipeline {
    frame: Option<Frame>,
    spare: Vec<Vec<u8>>,
    stats: Stats,
}

impl Pipeline {
    /// The frame that waits to be sent, with its time.
    pub closed spec fn waiting(&self) -> Option<(Seq<u8>, i64)> {
        match self.frame {
            Some(frame) => Some((frame.data@, frame.timecode)),
            None => None,
        }
    }

    /// Buffers at hand.
    pub closed spec fn spares(&self) -> nat {
        self.spare@.len()
    }

    pub closed spec fn counters(&self) -> Stats {
        self.stats
    }

    /// No more buffers are kept than are of use.
    pub open spec fn well_formed(&self) -> bool {
        self.spares() <= MAX_SPARES
    }

    /// Frames that have come in and are neither sent nor dropped nor waiting:
    /// those in the hand of the sending thread.
    pub open spec fn in_hand(&self) -> int {
        (self.counters().frames_in - self.counters().frames_sent - self.counters().frames_dropped - (
        if self.waiting() is Some {
            1int
        } else {
            0
        })) % 0x1_0000_0000_0000_0000
    }

    pub fn new() -> (pipeline: Self)
        ensures
            pipeline.well_formed(),
            pipeline.waiting() is None,
            pipeline.spares() == 0,
            pipeline.counters() == no_frames(),
            pipeline.counters() == (Stats {
                frames_in: 0,
                frames_sent: 0,
                frames_dropped: 0,
                copy_ns: 0,
                send_ns: 0,
                send_max_ns: 0,
            }),
            pipeline.in_hand() == 0,
    {
        Pipeline {
            frame: None,
            spare: Vec::new(),
            stats: Stats {
                frames_in: 0,
                frames_sent: 0,
                frames_dropped: 0,
                copy_ns: 0,
                send_ns: 0,
                send_max_ns: 0,
            },
        }
    }

    /// The counters.
    pub fn stats(&self) -> (stats: Stats)
        ensures
            stats == self.counters(),
    {
        self.stats
    }

    /// The counters that only grow.
    pub fn snapshot(&self) -> (snapshot: Snapshot)
        ensures
            snapshot == snapshot_of(self.counters()),
    {
        Snapshot {
            frames_in: self.stats.frames_in,
            frames_sent: self.stats.frames_sent,
            frames_dropped: self.stats.frames_dropped,
            copy_ns: self.stats.copy_ns,
            send_ns: self.stats.send_ns,
        }
    }

    /// Copies a frame out of OBS's planes and parks it, in place of one that
    /// has not been sent.
    pub fn copy_frame(
        &mut self,
        width: u32,
        height: u32,
        y: &[u8],
        y_stride: usize,
        uv: &[u8],
        uv_stride: usize,
        timecode: i64,
    )
        requires
            old(self).well_formed(),
            crate::shm_ring::frame_size(width as int, height as int) <= usize::MAX,
            crate::shm_ring::rows_fit(y@.len() as int, height as int, y_stride as int, width as int),
            crate::shm_ring::rows_fit(uv@.len() as int, height as int / 2, uv_stride as int, width as int),
        ensures
            final(self).well_formed(),
            final(self).waiting() == Some(
                (
                    crate::shm_ring::packed(
                        width as int,
                        height as int,
                        y@,
                        y_stride as int,
                        uv@,
                        uv_stride as int,
                    ),
                    timecode,
                ),
            ),
            final(self).counters() == (Stats {
                frames_in: old(self).counters().frames_in.wrapping_add(1),
                frames_dropped: (if old(self).waiting() is Some {
                    old(self).counters().frames_dropped.wrapping_add(1)
                } else {
                    old(self).counters().frames_dropped
                }),
                ..old(self).counters()
            }),
            final(self).spares() == (if old(self).spares() > 0 {
                old(self).spares() - 1
            } else {
                0
            }) + (if old(self).waiting() is Some {
                1int
            } else {
                0
            }),
            final(self).in_hand() == old(self).in_hand(),
    {
        let bytes: usize = frame_bytes(width, height);
        let mut data: Vec<u8> = match self.spare.pop() {
            Some(buffer) => buffer,
            None => Vec::new(),
        };
        data.resize(bytes, 0);
        pack_frame(width, height, y, y_stride, uv, uv_stride, data.as_mut_slice());
        let old_frame = self.frame.take();
        self.frame = Some(Frame { data, timecode });
        match old_frame {
            Some(dropped) => {
                self.stats.frames_dropped = self.stats.frames_dropped.wrapping_add(1);
                self.spare.push(dropped.data);
            },
            None => {},
        }
        self.stats.frames_in = self.stats.frames_in.wrapping_add(1);
    }

    /// Counts a frame that went straight into the ring.
    pub fn count_ring_frame(&mut self)
        ensures
            final(self).waiting() == old(self).waiting(),
            final(self).spares() == old(self).spares(),
            final(self).counters() == (Stats {
                frames_in: old(self).counters().frames_in.wrapping_add(1),
                frames_sent: old(self).counters().frames_sent.wrapping_add(1),
                ..old(self).counters()
            }),
            final(self).in_hand() == old(self).in_hand(),
    {
        self.stats.frames_in = self.stats.frames_in.wrapping_add(1);
        self.stats.frames_sent = self.stats.frames_sent.wrapping_add(1);
    }

    /// Counts the time that copying a frame took.
    pub fn count_copy(&mut self, ns: u64)
        ensures
            final(self).waiting() == old(self).waiting(),
            final(self).spares() == old(self).spares(),
            final(self).counters() == (Stats {
                copy_ns: old(self).counters().copy_ns.wrapping_add(ns),
                ..old(self).counters()
            }),
    {
        self.stats.copy_ns = self.stats.copy_ns.wrapping_add(ns);
    }

    /// Whether the sending thread waits for a frame before it looks.
    pub fn must_wait(&self, running: bool) -> (wait: bool)
        ensures
            wait == (running && self.waiting() is None),
    {
        running && self.frame.is_none()
    }

    /// What the sending thread does next. The slot is empty afterwards, also
    /// where the frame can no longer be sent.
    pub fn next_work(&mut self, running: bool, has_sender: bool) -> (work: Work)
        requires
            old(self).well_formed(),
        ensures
            final(self).well_formed(),
            final(self).waiting() is None,
            final(self).spares() == old(self).spares(),
            final(self).counters() == old(self).counters(),
            work is Stop <==> !running,
            work is Send <==> running && has_sender && old(self).waiting() is Some,
            work matches Work::Send(frame) ==> old(self).waiting() == Some((frame.data@, frame.timecode)),
            final(self).in_hand() == (old(self).in_hand() + (if old(self).waiting() is Some {
                1int
            } else {
                0
            })) % 0x1_0000_0000_0000_0000,
    {
        let taken = self.frame.take();
        if !running {
            return Work::Stop;
        }
        match taken {
            Some(frame) => if has_sender {
                Work::Send(frame)
            } else {
                Work::Idle
            },
            None => Work::Idle,
        }
    }

    /// Counts a frame that was sent in `ns` nanoseconds, and keeps its buffer
    /// where one is of use.
    pub fn count_sent(&mut self, frame: Frame, ns: u64)
        requires
            old(self).well_formed(),
        ensures
            final(self).well_formed(),
            final(self).waiting() == old(self).waiting(),
            final(self).counters() == (Stats {
                frames_sent: old(self).counters().frames_sent.wrapping_add(1),
                send_ns: old(self).counters().send_ns.wrapping_add(ns),
                send_max_ns: (if ns > old(self).counters().send_max_ns {
                    ns
                } else {
                    old(self).counters().send_max_ns
                }),
                ..old(self).counters()
            }),
            final(self).spares() == (if old(self).spares() < MAX_SPARES {
                old(self).spares() + 1
            } else {
                old(self).spares()
            }),
            final(self).in_hand() == (old(self).in_hand() - 1) % 0x1_0000_0000_0000_0000,
    {
        self.stats.frames_sent = self.stats.frames_sent.wrapping_add(1);
        self.stats.send_ns = self.stats.send_ns.wrapping_add(ns);
        if ns > self.stats.send_max_ns {
            self.stats.send_max_ns = ns;
        }
        if self.spare.len() < MAX_SPARES {
            self.spare.push(frame.data);
        }
    }

    /// Reports what has happened since the snapshot `then`, and starts a new
    /// maximum.
    pub fn report(&mut self, then: Snapshot) -> (report: Report)
        ensures
            report == report_of(old(self).counters(), then),
            final(self).waiting() == old(self).waiting(),
            final(self).spares() == old(self).spares(),
            final(self).counters() == (Stats { send_max_ns: 0, ..old(self).counters() }),
    {
        let frames_in: u64 = self.stats.frames_in.wrapping_sub(then.frames_in);
        let frames_sent: u64 = self.stats.frames_sent.wrapping_sub(then.frames_sent);
        let by_in: u64 = if frames_in == 0 {
            1
        } else {
            frames_in
        };
        let by_sent: u64 = if frames_sent == 0 {
            1
        } else {
            frames_sent
        };
        let report = Report {
            frames_in,
            frames_sent,
            frames_dropped: self.stats.frames_dropped.wrapping_sub(then.frames_dropped),
            copy_avg_us: self.stats.copy_ns.wrapping_sub(then.copy_ns) / by_in / 1000,
            send_avg_us: self.stats.send_ns.wrapping_sub(then.send_ns) / by_sent / 1000,
            send_max_us: self.stats.send_max_ns / 1000,
        };
        self.stats.send_max_ns = 0;
        report
    }
}

/// The reports of one feed's sending thread.
pub struct Reports {
    last: Snapshot,
}

impl Reports {
    /// The counters at the last report.
    pub closed spec fn last(&self) -> Snapshot {
        self.last
    }

    /// Reports on a feed that has just begun.
    pub fn new(pipeline: &Pipeline) -> (reports: Self)
        ensures
            reports.last() == snapshot_of(pipeline.counters()),
    {
        Reports { last: pipeline.snapshot() }
    }

    /// The report that is due, `seconds` whole seconds after the last one;
    /// none while less than `STATS_INTERVAL_SECS` have passed.
    pub fn next(&mut self, pipeline: &mut Pipeline, seconds: u64) -> (report: Option<Report>)
        ensures
            final(pipeline).waiting() == old(pipeline).waiting(),
            final(pipeline).spares() == old(pipeline).spares(),
            report is Some <==> seconds >= 10,
            seconds < STATS_INTERVAL_SECS ==> {
                &&& report is None
                &&& final(self).last() == old(self).last()
                &&& final(pipeline).counters() == old(pipeline).counters()
            },
            seconds >= STATS_INTERVAL_SECS ==> {
                &&& report == Some(report_of(old(pipeline).counters(), old(self).last()))
                &&& final(self).last() == snapshot_of(old(pipeline).counters())
                &&& final(pipeline).counters() == (Stats { send_max_ns: 0, ..old(pipeline).counters() })
            },
    {
        if seconds < STATS_INTERVAL_SECS {
            return None;
        }
        let report = pipeline.report(self.last);
        self.last = pipeline.snapshot();
        Some(report)
    }
}

} // verus!
