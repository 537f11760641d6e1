// SPDX-License-Identifier: GPL-2.0-or-later
//! Listening to an audio input for a moment, through a private copy of it.
//!
//! The copy opens the same device with the same settings; the operator's
//! own input is never touched. Only device inputs are copied: a copy of a
//! browser source would be a second guest, and one of a media source would
//! play a second time.

use vstd::prelude::*;

use crate::metering::{louder, MAX_AV_PLANES};
use crate::plan::{Op, Plan, When};
use crate::response::Response;
use crate::text::{has_nul, same_text, text3};

verus! {

/// `OBS_SOURCE_FLAG_FORCE_MONO` of libobs.
pub const OBS_SOURCE_FLAG_FORCE_MONO: u32 = 2;

/// Packets of a copy's first moments are not counted, in nanoseconds: a
/// device that has just been opened can hand over a run of zeros.
pub const WARMUP_NS: u64 = 200_000_000;

pub const WARMUP_MS: u64 = 200;

pub const DEFAULT_WINDOW_MS: u64 = 1000;

/// How long the result is waited for after the window, in milliseconds.
pub const SLACK_MS: u64 = 150;

/// The kinds of input that can be opened twice.
pub open spec fn device_kind(kind: Seq<char>) -> bool {
    kind == "coreaudio_input_capture"@ || kind == "wasapi_input_capture"@
}

/// Whether an input of this kind can be opened twice.
pub fn is_device_kind(kind: &str) -> (yes: bool)
    ensures
        yes == device_kind(kind@),
        yes == (kind@ == "coreaudio_input_capture"@ || kind@ == "wasapi_input_capture"@),
{
    same_text(kind, "coreaudio_input_capture") || same_text(kind, "wasapi_input_capture")
}

// ---------------------------------------------------------------------
// What a probe hears
// ---------------------------------------------------------------------

/// What was heard on one channel. `power` is the host's running sum of
/// squares.
pub struct ChannelStats<S> {
    /// The magnitude of the loudest sample, as the bits of a float.
    pub peak: u32,
    pub power: S,
    /// Samples that were exactly zero.
    pub zeros: u64,
}

/// What a probe has heard.
pub struct ProbeStats<S> {
    first_packet: Option<u64>,
    packets: u64,
    warmup_packets: u64,
    frames: u64,
    channels: Vec<ChannelStats<S>>,
}

/// `powers` are the running sums over `samples`, from the first to the last.
pub open spec fn running_power<S, F: Fn(S, u32) -> S>(square: F, samples: Seq<u32>, powers: Seq<S>) -> bool {
    &&& powers.len() == samples.len() + 1
    &&& forall|i: int|
        0 <= i < samples.len() ==> call_ensures(square, (powers[i], #[trigger] samples[i]), powers[i + 1])
}

/// `after` is the sum over `samples`, on top of `before`.
pub open spec fn power_of<S, F: Fn(S, u32) -> S>(square: F, before: S, samples: Seq<u32>, after: S) -> bool {
    exists|powers: Seq<S>| #[trigger]
        running_power(square, samples, powers) && powers[0] == before && powers.last() == after
}

/// How many of the samples are exactly zero; a zero may have a sign.
pub open spec fn zeros_in(samples: Seq<u32>) -> int
    decreases samples.len(),
{
    if samples.len() == 0 {
        0
    } else {
        zeros_in(samples.drop_last()) + (if crate::metering::magnitude(samples.last()) == 0 {
            1int
        } else {
            0
        })
    }
}

/// The loudest of a peak and of samples.
pub open spec fn loudest(peak: u32, samples: Seq<u32>) -> u32
    decreases samples.len(),
{
    if samples.len() == 0 {
        peak
    } else {
        crate::metering::louder_of(loudest(peak, samples.drop_last()), samples.last())
    }
}

/// The loudest of a peak and of samples is at least the peak and every number
/// among the samples, and is one of them.
proof fn the_loudest_is_the_peak(peak: u32, samples: Seq<u32>)
    ensures
        loudest(peak, samples) >= peak,
        forall|i: int|
            0 <= i < samples.len() && samples[i] & 0x7fff_ffff <= 0x7f80_0000 ==> (#[trigger] samples[i])
                & 0x7fff_ffff <= loudest(peak, samples),
        loudest(peak, samples) == peak || exists|i: int|
            0 <= i < samples.len() && (#[trigger] samples[i]) & 0x7fff_ffff == loudest(peak, samples),
    decreases samples.len(),
{
    if samples.len() > 0 {
        let rest = samples.drop_last();
        the_loudest_is_the_peak(peak, rest);
        let now = loudest(peak, samples);
        assert forall|i: int| 0 <= i < samples.len() && samples[i] & 0x7fff_ffff <= 0x7f80_0000 implies (
        #[trigger] samples[i]) & 0x7fff_ffff <= now by {
            if i < rest.len() {
                assert(rest[i] == samples[i]);
            }
        }
        if now != peak {
            if now == loudest(peak, rest) {
                let i = choose|i: int| 0 <= i < rest.len() && (#[trigger] rest[i]) & 0x7fff_ffff == now;
                assert(samples[i] & 0x7fff_ffff == now);
            } else {
                assert(samples[samples.len() - 1] & 0x7fff_ffff == now);
            }
        }
    }
}

/// The count of zeros is that of the samples whose bits are those of a zero,
/// with or without its sign.
pub proof fn zeros_are_counted(samples: Seq<u32>)
    ensures
        zeros_in(samples) == samples.filter(|sample: u32| sample == 0 || sample == 0x8000_0000).len(),
    decreases samples.len(),
{
    reveal(Seq::filter);
    if samples.len() > 0 {
        zeros_are_counted(samples.drop_last());
        let last = samples.last();
        assert(last & 0x7fff_ffff == 0 <==> (last == 0 || last == 0x8000_0000)) by (bit_vector);
    }
}

/// The sum of squares goes over all the samples in their order.
proof fn power_is_a_fold<S, F: Fn(S, u32) -> S>(
    square: F,
    samples: Seq<u32>,
    powers: Seq<S>,
    plus: spec_fn(S, u32) -> S,
)
    requires
        running_power(square, samples, powers),
        forall|power: S, sample: u32, next: S| #[trigger]
            call_ensures(square, (power, sample), next) ==> next == plus(power, sample),
    ensures
        powers.last() == samples.fold_left(powers[0], plus),
    decreases samples.len(),
{
    if samples.len() > 0 {
        let rest = samples.drop_last();
        let before = powers.drop_last();
        assert forall|i: int| 0 <= i < rest.len() implies call_ensures(
            square,
            (before[i], #[trigger] rest[i]),
            before[i + 1],
        ) by {
            assert(rest[i] == samples[i]);
        }
        power_is_a_fold(square, rest, before, plus);
        let k = samples.len() - 1;
        assert(samples[k] == samples.last());
        assert(call_ensures(square, (powers[k], samples[k]), powers[k + 1]));
    }
}

/// One channel before and after a packet of `frames` frames. A channel the
/// packet does not carry is silent.
pub open spec fn channel_heard<S, F: Fn(S, u32) -> S>(
    square: F,
    before: ChannelStats<S>,
    after: ChannelStats<S>,
    plane: Option<&[u32]>,
    frames: int,
) -> bool {
    match plane {
        None => after.peak == before.peak && after.power == before.power && after.zeros == before.zeros.wrapping_add(
            frames as u64,
        ),
        Some(samples) => {
            &&& after.peak == loudest(before.peak, samples@.take(frames))
            &&& power_of(square, before.power, samples@.take(frames), after.power)
            &&& after.zeros == before.zeros.wrapping_add(zeros_in(samples@.take(frames)) as u64)
        },
    }
}

proof fn power_grows<S, F: Fn(S, u32) -> S>(square: F, before: S, samples: Seq<u32>, at: S, sample: u32, next: S)
    requires
        power_of(square, before, samples, at),
        call_ensures(square, (at, sample), next),
    ensures
        power_of(square, before, samples.push(sample), next),
{
    let powers = choose|powers: Seq<S>| #[trigger]
        running_power(square, samples, powers) && powers[0] == before && powers.last() == at;
    let more = powers.push(next);
    let longer = samples.push(sample);
    assert forall|i: int| 0 <= i < longer.len() implies call_ensures(square, (more[i], #[trigger] longer[i]), more[i + 1]) by {
        if i < samples.len() {
            assert(longer[i] == samples[i]);
            assert(more[i] == powers[i]);
            assert(more[i + 1] == powers[i + 1]);
        } else {
            assert(more[i] == powers.last());
        }
    }
    assert(running_power(square, longer, more));
}

proof fn zeros_are_few(samples: Seq<u32>)
    ensures
        0 <= zeros_in(samples) <= samples.len(),
    decreases samples.len(),
{
    if samples.len() > 0 {
        zeros_are_few(samples.drop_last());
    }
}

/// What a packet does to a channel, sample by sample: its zeros are counted
/// on, and its squares added on in their order. A channel the packet does not
/// carry counts as zeros.
pub proof fn a_packet_is_heard_sample_by_sample<S, F: Fn(S, u32) -> S>(
    square: F,
    before: ChannelStats<S>,
    after: ChannelStats<S>,
    plane: Option<&[u32]>,
    frames: int,
    plus: spec_fn(S, u32) -> S,
)
    requires
        channel_heard(square, before, after, plane, frames),
        0 <= frames <= u32::MAX,
        plane matches Some(samples) ==> frames <= samples@.len(),
        forall|power: S, sample: u32, next: S| #[trigger]
            call_ensures(square, (power, sample), next) ==> next == plus(power, sample),
    ensures
        plane is None ==> after.peak == before.peak && after.power == before.power,
        plane is None && before.zeros + frames <= u64::MAX ==> after.zeros == before.zeros + frames,
        plane matches Some(samples) ==> {
            let part = samples@.take(frames);
            let zeros = part.filter(|sample: u32| sample == 0 || sample == 0x8000_0000).len();
            &&& after.power == part.fold_left(before.power, plus)
            &&& before.zeros + zeros <= u64::MAX ==> after.zeros == before.zeros + zeros
        },
{
    match plane {
        None => {},
        Some(samples) => {
            let part = samples@.take(frames);
            zeros_are_counted(part);
            zeros_are_few(part);
            let powers = choose|powers: Seq<S>| #[trigger]
                running_power(square, part, powers) && powers[0] == before.power && powers.last() == after.power;
            power_is_a_fold(square, part, powers, plus);
        },
    }
}

/// Over any run of packets a channel's peak never falls, and in the end it is
/// the loudest of what was heard before and of all the samples of all the
/// packets.
pub proof fn a_peak_covers_every_packet<S, F: Fn(S, u32) -> S>(
    square: F,
    channel: Seq<ChannelStats<S>>,
    planes: Seq<Option<&[u32]>>,
    frames: Seq<int>,
)
    requires
        channel.len() == planes.len() + 1,
        frames.len() == planes.len(),
        forall|i: int|
            0 <= i < planes.len() ==> 0 <= frames[i] && ((#[trigger] planes[i]) matches Some(samples) ==> frames[i]
                <= samples@.len()) && channel_heard(square, channel[i], channel[i + 1], planes[i], frames[i]),
    ensures
        forall|i: int|
            0 <= i < channel.len() ==> channel[0].peak <= (#[trigger] channel[i]).peak <= channel.last().peak,
        forall|i: int, k: int|
            0 <= i < planes.len() && planes[i] is Some && 0 <= k < frames[i] && (planes[i]->0)@[k] & 0x7fff_ffff
                <= 0x7f80_0000 ==> (#[trigger] (planes[i]->0)@[k]) & 0x7fff_ffff <= channel.last().peak,
        channel.last().peak == channel[0].peak || exists|i: int, k: int|
            0 <= i < planes.len() && planes[i] is Some && 0 <= k < frames[i] && (#[trigger] (planes[i]->0)@[k])
                & 0x7fff_ffff == channel.last().peak,
    decreases planes.len(),
{
    if planes.len() > 0 {
        let n = planes.len() - 1;
        let fewer = channel.drop_last();
        let before = planes.drop_last();
        assert forall|i: int| 0 <= i < before.len() implies 0 <= frames[i] && ((#[trigger] before[i]) matches Some(
            samples,
        ) ==> frames[i] <= samples@.len()) && channel_heard(square, fewer[i], fewer[i + 1], before[i], frames[i]) by {
            assert(before[i] == planes[i]);
        }
        a_peak_covers_every_packet(square, fewer, before, frames.drop_last());
        assert(planes[n] == planes.last());
        assert(channel_heard(square, channel[n], channel[n + 1], planes[n], frames[n]));
        assert(fewer.last() == channel[n]);
        if planes[n] is Some {
            the_loudest_is_the_peak(channel[n].peak, (planes[n]->0)@.take(frames[n]));
        }
        assert forall|i: int| 0 <= i < channel.len() implies channel[0].peak <= (#[trigger] channel[i]).peak
            <= channel.last().peak by {
            if i < fewer.len() {
                assert(fewer[i] == channel[i]);
            }
        }
        assert forall|i: int, k: int|
            0 <= i < planes.len() && planes[i] is Some && 0 <= k < frames[i] && (planes[i]->0)@[k] & 0x7fff_ffff
                <= 0x7f80_0000 implies (#[trigger] (planes[i]->0)@[k]) & 0x7fff_ffff <= channel.last().peak by {
            if i < n {
                assert(before[i] == planes[i]);
                assert((before[i]->0)@[k] & 0x7fff_ffff <= fewer.last().peak);
            } else {
                let part = (planes[n]->0)@.take(frames[n]);
                assert(part[k] == (planes[n]->0)@[k]);
            }
        }
        if channel.last().peak != channel[0].peak {
            if channel.last().peak == channel[n].peak {
                let (i, k) = choose|i: int, k: int|
                    0 <= i < before.len() && before[i] is Some && 0 <= k < frames.drop_last()[i] && (
                    #[trigger] (before[i]->0)@[k]) & 0x7fff_ffff == fewer.last().peak;
                assert((planes[i]->0)@[k] & 0x7fff_ffff == channel.last().peak);
            } else {
                let part = (planes[n]->0)@.take(frames[n]);
                let k = choose|k: int| 0 <= k < part.len() && (#[trigger] part[k]) & 0x7fff_ffff == channel.last().peak;
                assert((planes[n]->0)@[k] & 0x7fff_ffff == channel.last().peak);
            }
        }
    }
}

impl<S: Copy> ChannelStats<S> {
    fn hear<F: Fn(S, u32) -> S>(&mut self, plane: Option<&[u32]>, frames: usize, square: &F)
        requires
            plane matches Some(samples) ==> frames <= samples@.len(),
            frames <= u32::MAX,
            forall|power: S, sample: u32| call_requires(*square, (power, sample)),
        ensures
            channel_heard(*square, *old(self), *final(self), plane, frames as int),
            final(self).peak >= old(self).peak,
            plane is None ==> final(self).peak == old(self).peak,
            plane matches Some(samples) ==> forall|i: int|
                0 <= i < frames && samples@[i] & 0x7fff_ffff <= 0x7f80_0000 ==> (#[trigger] samples@[i]) & 0x7fff_ffff
                    <= final(self).peak,
            plane matches Some(samples) ==> final(self).peak == old(self).peak || exists|i: int|
                0 <= i < frames && (#[trigger] samples@[i]) & 0x7fff_ffff == final(self).peak,
    {
        match plane {
            None => {
                self.zeros = self.zeros.wrapping_add(frames as u64);
            },
            Some(samples) => {
                let ghost before = *self;
                let mut zeros: u64 = 0;
                let mut i: usize = 0;
                assert(samples@.take(0) =~= Seq::<u32>::empty());
                assert(running_power(*square, samples@.take(0), seq![before.power]));
                assert(power_of(*square, before.power, samples@.take(0), self.power));
                while i < frames
                    invariant
                        i <= frames <= samples@.len(),
                        frames <= u32::MAX,
                        forall|power: S, sample: u32| call_requires(*square, (power, sample)),
                        self.zeros == before.zeros,
                        self.peak == loudest(before.peak, samples@.take(i as int)),
                        power_of(*square, before.power, samples@.take(i as int), self.power),
                        zeros == zeros_in(samples@.take(i as int)),
                        zeros <= i,
                    decreases frames - i,
                {
                    let sample: u32 = samples[i];
                    let ghost part = samples@.take(i as int);
                    let ghost at = self.power;
                    assert(samples@.take(i + 1) =~= part.push(sample));
                    assert(part.push(sample).drop_last() =~= part);
                    self.peak = louder(self.peak, sample);
                    self.power = square(self.power, sample);
                    proof {
                        power_grows(*square, before.power, part, at, sample, self.power);
                    }
                    if sample & 0x7fff_ffff == 0 {
                        zeros = zeros + 1;
                    }
                    i = i + 1;
                }
                self.zeros = self.zeros.wrapping_add(zeros);
                proof {
                    the_loudest_is_the_peak(before.peak, samples@.take(frames as int));
                    assert forall|i: int|
                        0 <= i < frames && samples@[i] & 0x7fff_ffff <= 0x7f80_0000 implies (#[trigger] samples@[i])
                        & 0x7fff_ffff <= self.peak by {
                        assert(samples@.take(frames as int)[i] == samples@[i]);
                    }
                    if self.peak != before.peak {
                        let part = samples@.take(frames as int);
                        let i = choose|i: int|
                            0 <= i < part.len() && (#[trigger] part[i]) & 0x7fff_ffff == self.peak;
                        assert(samples@[i] & 0x7fff_ffff == self.peak);
                    }
                }
            },
        }
    }
}

impl<S> ProbeStats<S> {
    /// When the first packet came, in nanoseconds since the copy was made.
    pub closed spec fn first_packet(&self) -> Option<u64> {
        self.first_packet
    }

    pub closed spec fn packets(&self) -> u64 {
        self.packets
    }

    pub closed spec fn warmup_packets(&self) -> u64 {
        self.warmup_packets
    }

    /// Frames counted after the warm-up.
    pub closed spec fn frames(&self) -> u64 {
        self.frames
    }

    pub closed spec fn channels(&self) -> Seq<ChannelStats<S>> {
        self.channels@
    }
}

/// When the first packet came, once one came `now`.
pub open spec fn first_of(first_packet: Option<u64>, now: u64) -> u64 {
    match first_packet {
        Some(first) => first,
        None => now,
    }
}

impl<S: Copy> ProbeStats<S> {
    /// Nothing heard yet, on as many channels as OBS has: at least one, and
    /// no more than a packet can carry.
    pub fn new(output_channels: usize, silence: S) -> (stats: Self)
        ensures
            stats.first_packet() is None,
            stats.packets() == 0,
            stats.warmup_packets() == 0,
            stats.frames() == 0,
            1 <= output_channels <= 8 ==> stats.channels().len() == output_channels,
            output_channels == 0 ==> stats.channels().len() == 1,
            output_channels > 8 ==> stats.channels().len() == 8,
            stats.channels().len() == (if output_channels < 1 {
                1
            } else if output_channels > MAX_AV_PLANES {
                MAX_AV_PLANES
            } else {
                output_channels
            }),
            forall|c: int|
                0 <= c < stats.channels().len() ==> #[trigger] stats.channels()[c] == (ChannelStats {
                    peak: 0,
                    power: silence,
                    zeros: 0,
                }),
    {
        let n: usize = if output_channels < 1 {
            1
        } else if output_channels > MAX_AV_PLANES {
            MAX_AV_PLANES
        } else {
            output_channels
        };
        let mut channels: Vec<ChannelStats<S>> = Vec::new();
        while channels.len() < n
            invariant
                channels@.len() <= n,
                forall|c: int|
                    0 <= c < channels@.len() ==> #[trigger] channels@[c] == (ChannelStats {
                        peak: 0,
                        power: silence,
                        zeros: 0,
                    }),
            decreases n - channels@.len(),
        {
            channels.push(ChannelStats { peak: 0, power: silence, zeros: 0 });
        }
        ProbeStats { first_packet: None, packets: 0, warmup_packets: 0, frames: 0, channels }
    }

    /// Takes in one packet that came `now`, in nanoseconds since the copy was
    /// made. Every packet is counted; the audio of one that falls into the
    /// warm-up, which begins with the first packet, is not.
    pub fn probe_callback<F: Fn(S, u32) -> S>(
        &mut self,
        now: u64,
        frames: u32,
        planes: &[Option<&[u32]>],
        square: &F,
    )
        requires
            old(self).channels().len() <= planes@.len(),
            forall|c: int|
                0 <= c < planes@.len() ==> ((#[trigger] planes@[c]) matches Some(samples) ==> frames
                    <= samples@.len()),
            forall|power: S, sample: u32| call_requires(*square, (power, sample)),
        ensures
            final(self).first_packet() == Some(first_of(old(self).first_packet(), now)),
            old(self).first_packet() is Some ==> final(self).first_packet() == old(self).first_packet(),
            old(self).first_packet() is None ==> final(self).first_packet() == Some(now),
            final(self).frames() != old(self).frames() ==> now >= final(self).first_packet()->0 + 200_000_000,
            now >= final(self).first_packet()->0 + 200_000_000 ==> final(self).warmup_packets() == old(
                self,
            ).warmup_packets() && final(self).frames() == old(self).frames().wrapping_add(frames as u64),
            forall|c: int|
                0 <= c < old(self).channels().len() ==> (#[trigger] final(self).channels()[c]).peak >= old(
                    self,
                ).channels()[c].peak,
            final(self).packets() == old(self).packets().wrapping_add(1),
            final(self).channels().len() == old(self).channels().len(),
            ({
                let warm = now - first_of(old(self).first_packet(), now) < WARMUP_NS;
                &&& final(self).warmup_packets() == (if warm {
                    old(self).warmup_packets().wrapping_add(1)
                } else {
                    old(self).warmup_packets()
                })
                &&& warm || frames == 0 ==> final(self).frames() == old(self).frames() && final(self).channels()
                    == old(self).channels()
                &&& !warm && frames > 0 ==> final(self).frames() == old(self).frames().wrapping_add(frames as u64)
                    && forall|c: int|
                    0 <= c < old(self).channels().len() ==> channel_heard(
                        *square,
                        old(self).channels()[c],
                        #[trigger] final(self).channels()[c],
                        planes@[c],
                        frames as int,
                    )
            }),
    {
        let ghost before = self.channels@;
        let first: u64 = match self.first_packet {
            Some(at) => at,
            None => now,
        };
        self.first_packet = Some(first);
        self.packets = self.packets.wrapping_add(1);
        if now < first || now - first < WARMUP_NS {
            self.warmup_packets = self.warmup_packets.wrapping_add(1);
            return;
        }
        if frames == 0 {
            return;
        }
        let mut heard: Vec<ChannelStats<S>> = Vec::new();
        let mut c: usize = 0;
        while c < self.channels.len()
            invariant
                c <= before.len() <= planes@.len(),
                self.channels@ == before,
                heard@.len() == c,
                forall|k: int|
                    0 <= k < planes@.len() ==> ((#[trigger] planes@[k]) matches Some(samples) ==> frames
                        <= samples@.len()),
                forall|power: S, sample: u32| call_requires(*square, (power, sample)),
                forall|k: int|
                    0 <= k < c ==> channel_heard(
                        *square,
                        before[k],
                        #[trigger] heard@[k],
                        planes@[k],
                        frames as int,
                    ) && heard@[k].peak >= before[k].peak,
            decreases before.len() - c,
        {
            let mut channel = ChannelStats {
                peak: self.channels[c].peak,
                power: self.channels[c].power,
                zeros: self.channels[c].zeros,
            };
            let plane = planes[c];
            channel.hear(plane, frames as usize, square);
            heard.push(channel);
            c = c + 1;
        }
        self.channels = heard;
        self.frames = self.frames.wrapping_add(frames as u64);
    }

    /// The channels, to be reported.
    pub fn heard(&self) -> (channels: &Vec<ChannelStats<S>>)
        ensures
            channels@ == self.channels(),
    {
        &self.channels
    }

    /// The frames counted after the warm-up.
    pub fn frame_count(&self) -> (frames: u64)
        ensures
            frames == self.frames(),
    {
        self.frames
    }
}

// ---------------------------------------------------------------------
// The probes
// ---------------------------------------------------------------------

/// What finishing a probe does, in order.
#[derive(Clone, Copy, PartialEq, Eq, Structural, Debug)]
pub struct Finish {
    /// Remove the tap; after that it is not called again.
    pub remove_tap: bool,
    /// Have the copy released on the UI thread, without waiting.
    pub queue_release: bool,
}

/// What finishing a probe does. While OBS exits, the copy is left to OBS: a
/// release now could run into OBS's own.
pub fn finish(remove_symbol: bool, shutting_down: bool, queue: bool) -> (finish: Finish)
    ensures
        finish.remove_tap == remove_symbol,
        finish.queue_release == (queue && !shutting_down),
{
    Finish { remove_tap: remove_symbol, queue_release: queue && !shutting_down }
}

/// A call that starts a probe.
#[derive(Clone, Copy, Debug)]
pub enum ProbeCall<'a> {
    /// `obs_get_source_by_name`; yes: the input, with a reference.
    FindInput(&'a str),
    /// `obs_source_get_id`; yes: one of which `is_device_kind` holds.
    ReadKind,
    /// `obs_source_release` of the input.
    ReleaseInput,
    /// Carries out the plan of `copy_settings`; yes: a copy of the input's
    /// settings.
    CopySettings,
    /// `probe_table::Probes::take_id`.
    TakeId,
    /// `obs_source_create_private` of the kind, named by `copy_name`, with
    /// the copy of the settings or none; yes: the private copy.
    CreateSource(&'a str),
    /// `obs_data_release` of the copy of the settings.
    ReleaseCopy,
    /// `obs_source_add_audio_capture_callback` of the private copy.
    AddTap,
    /// `probe_table::Probes::track`; yes: it is kept.
    Track,
    /// `obs_source_remove_audio_capture_callback` of the private copy.
    RemoveTap,
    /// `obs_source_release` of the private copy.
    ReleaseSource,
}

/// What stopped a probe from starting.
#[derive(Clone, Copy, PartialEq, Eq, Structural, Debug)]
pub enum ProbeFault {
    SymbolMissing,
    NameNul,
    NoInput,
    NotADevice,
    NotCreated,
    NotTracked,
}

pub open spec fn probe_error_text(fault: ProbeFault, input_name: Seq<char>, kind: Seq<char>) -> Seq<char> {
    match fault {
        ProbeFault::SymbolMissing => "required libobs symbols unavailable"@,
        ProbeFault::NameNul => "input name contained a NUL"@,
        ProbeFault::NoInput => "no input named \""@ + input_name + "\""@,
        ProbeFault::NotADevice => "not a device input (kind \""@ + kind + "\")"@,
        ProbeFault::NotCreated => "OBS could not create a private copy of the input"@,
        ProbeFault::NotTracked => "probe table unavailable"@,
    }
}

/// Why a probe did not start.
pub fn probe_error(fault: ProbeFault, input_name: &str, kind: &str) -> (message: String)
    ensures
        message@ == probe_error_text(fault, input_name@, kind@),
        ({
            let input_name = input_name@;
            let kind = kind@;
            message@ == (match fault {
                ProbeFault::SymbolMissing => "required libobs symbols unavailable"@,
                ProbeFault::NameNul => "input name contained a NUL"@,
                ProbeFault::NoInput => "no input named \""@ + input_name + "\""@,
                ProbeFault::NotADevice => "not a device input (kind \""@ + kind + "\")"@,
                ProbeFault::NotCreated => "OBS could not create a private copy of the input"@,
                ProbeFault::NotTracked => "probe table unavailable"@,
            })
        }),
{
    match fault {
        ProbeFault::SymbolMissing => "required libobs symbols unavailable".to_owned(),
        ProbeFault::NameNul => "input name contained a NUL".to_owned(),
        ProbeFault::NoInput => text3("no input named \"", input_name, "\""),
        ProbeFault::NotADevice => text3("not a device input (kind \"", kind, "\")"),
        ProbeFault::NotCreated => "OBS could not create a private copy of the input".to_owned(),
        ProbeFault::NotTracked => "probe table unavailable".to_owned(),
    }
}

/// The name of a private copy, which explains itself in OBS's log.
pub fn copy_name(input_name: &str) -> (name: String)
    ensures
        name@ == "FrameSW mic check (temporary, not a shot) - "@ + input_name@,
{
    crate::text::text2("FrameSW mic check (temporary, not a shot) - ", input_name)
}

/// A call that copies an input's settings, through their text.
#[derive(Clone, Copy, PartialEq, Eq, Structural, Debug)]
pub enum CopyCall {
    /// `obs_source_get_settings`; yes: with a reference.
    GetSettings,
    /// `obs_data_get_json` of the settings; yes: their text.
    GetJson,
    /// `obs_data_create_from_json` of that text; yes: a copy.
    CreateFromJson,
    /// `obs_data_release` of the settings.
    ReleaseSettings,
}

/// Why there is no copy.
#[derive(Clone, Copy, PartialEq, Eq, Structural, Debug)]
pub enum CopyFault {
    NoSettings,
    NoCopy,
}

pub open spec fn copy_settings_ops() -> Seq<Op<CopyCall, CopyFault>> {
    seq![
        Op::Do { call: CopyCall::GetSettings, when: When::Always },
        Op::Require { answer: 0, fault: CopyFault::NoSettings },
        Op::Do { call: CopyCall::GetJson, when: When::Always },
        Op::Do { call: CopyCall::CreateFromJson, when: When::If(2) },
        Op::Do { call: CopyCall::ReleaseSettings, when: When::Always },
        Op::Require { answer: 3, fault: CopyFault::NoCopy },
    ]
}

/// Copies an input's settings.
pub fn copy_settings() -> (plan: Plan<CopyCall, CopyFault>)
    ensures
        plan.fresh(copy_settings_ops()),
{
    let ops: Vec<Op<CopyCall, CopyFault>> = vec![
        Op::Do { call: CopyCall::GetSettings, when: When::Always },
        Op::Require { answer: 0, fault: CopyFault::NoSettings },
        Op::Do { call: CopyCall::GetJson, when: When::Always },
        Op::Do { call: CopyCall::CreateFromJson, when: When::If(2) },
        Op::Do { call: CopyCall::ReleaseSettings, when: When::Always },
        Op::Require { answer: 3, fault: CopyFault::NoCopy },
    ];
    assert(ops@ =~= copy_settings_ops());
    Plan::new(ops)
}

/// How settings are copied.
pub open spec fn copy_course(host: spec_fn(int) -> bool) -> crate::plan::Course<CopyCall, CopyFault> {
    if !host(0) {
        crate::plan::Course {
            calls: seq![
                (CopyCall::GetSettings, false),
            ],
            fault: Some(CopyFault::NoSettings),
        }
    } else if !host(2) {
        crate::plan::Course {
            calls: seq![
                (CopyCall::GetSettings, true),
                (CopyCall::GetJson, false),
                (CopyCall::ReleaseSettings, host(4)),
            ],
            fault: Some(CopyFault::NoCopy),
        }
    } else if !host(3) {
        crate::plan::Course {
            calls: seq![
                (CopyCall::GetSettings, true),
                (CopyCall::GetJson, true),
                (CopyCall::CreateFromJson, false),
                (CopyCall::ReleaseSettings, host(4)),
            ],
            fault: Some(CopyFault::NoCopy),
        }
    } else {
        crate::plan::Course {
            calls: seq![
                (CopyCall::GetSettings, true),
                (CopyCall::GetJson, true),
                (CopyCall::CreateFromJson, true),
                (CopyCall::ReleaseSettings, host(4)),
            ],
            fault: None,
        }
    }
}

/// The input's own settings are given back, whether or not they could be
/// copied.
pub proof fn how_settings_are_copied(host: spec_fn(int) -> bool)
    ensures
        crate::plan::whole_course(copy_settings_ops(), host) == copy_course(host),
        crate::plan::whole_course(copy_settings_ops(), host) == (if !host(0) {
            crate::plan::Course {
                calls: seq![
                    (CopyCall::GetSettings, false),
                ],
                fault: Some(CopyFault::NoSettings),
            }
        } else if !host(2) {
            crate::plan::Course {
                calls: seq![
                    (CopyCall::GetSettings, true),
                    (CopyCall::GetJson, false),
                    (CopyCall::ReleaseSettings, host(4)),
                ],
                fault: Some(CopyFault::NoCopy),
            }
        } else if !host(3) {
            crate::plan::Course {
                calls: seq![
                    (CopyCall::GetSettings, true),
                    (CopyCall::GetJson, true),
                    (CopyCall::CreateFromJson, false),
                    (CopyCall::ReleaseSettings, host(4)),
                ],
                fault: Some(CopyFault::NoCopy),
            }
        } else {
            crate::plan::Course {
                calls: seq![
                    (CopyCall::GetSettings, true),
                    (CopyCall::GetJson, true),
                    (CopyCall::CreateFromJson, true),
                    (CopyCall::ReleaseSettings, host(4)),
                ],
                fault: None,
            }
        }),
{
    let ops = copy_settings_ops();
    crate::plan::every_step(ops, host);
    assert(crate::plan::whole_course(ops, host) =~= copy_course(host));
}

/// The plan of a probe; `named` where the input's name holds no NUL.
pub open spec fn probe_ops<'a>(
    symbols: bool,
    named: bool,
    input_name: &'a str,
) -> Seq<Op<ProbeCall<'a>, ProbeFault>> {
    seq![
        Op::Need { met: symbols, fault: ProbeFault::SymbolMissing },
        Op::Need { met: named, fault: ProbeFault::NameNul },
        Op::Do { call: ProbeCall::FindInput(input_name), when: When::Always },
        Op::Require { answer: 2, fault: ProbeFault::NoInput },
        Op::Do { call: ProbeCall::ReadKind, when: When::Always },
        Op::Do { call: ProbeCall::ReleaseInput, when: When::Unless(4) },
        Op::Require { answer: 4, fault: ProbeFault::NotADevice },
        Op::Do { call: ProbeCall::CopySettings, when: When::Always },
        Op::Do { call: ProbeCall::ReleaseInput, when: When::Always },
        Op::Do { call: ProbeCall::TakeId, when: When::Always },
        Op::Do { call: ProbeCall::CreateSource(input_name), when: When::Always },
        Op::Do { call: ProbeCall::ReleaseCopy, when: When::If(7) },
        Op::Require { answer: 10, fault: ProbeFault::NotCreated },
        Op::Do { call: ProbeCall::AddTap, when: When::Always },
        Op::Do { call: ProbeCall::Track, when: When::Always },
        Op::Do { call: ProbeCall::RemoveTap, when: When::Unless(14) },
        Op::Do { call: ProbeCall::ReleaseSource, when: When::Unless(14) },
        Op::Require { answer: 14, fault: ProbeFault::NotTracked },
    ]
}

/// Makes a private copy of an input and listens to it. The copy gets a copy
/// of the settings: libobs keeps the settings object a source is made with,
/// so the input's own would tie the two together.
pub fn create_probe<'a>(symbols: bool, input_name: &'a str) -> (plan: Plan<ProbeCall<'a>, ProbeFault>)
    ensures
        plan.fresh(probe_ops(symbols, !input_name@.contains('\0'), input_name)),
{
    let named = !has_nul(input_name);
    let ops: Vec<Op<ProbeCall<'a>, ProbeFault>> = vec![
        Op::Need { met: symbols, fault: ProbeFault::SymbolMissing },
        Op::Need { met: named, fault: ProbeFault::NameNul },
        Op::Do { call: ProbeCall::FindInput(input_name), when: When::Always },
        Op::Require { answer: 2, fault: ProbeFault::NoInput },
        Op::Do { call: ProbeCall::ReadKind, when: When::Always },
        Op::Do { call: ProbeCall::ReleaseInput, when: When::Unless(4) },
        Op::Require { answer: 4, fault: ProbeFault::NotADevice },
        Op::Do { call: ProbeCall::CopySettings, when: When::Always },
        Op::Do { call: ProbeCall::ReleaseInput, when: When::Always },
        Op::Do { call: ProbeCall::TakeId, when: When::Always },
        Op::Do { call: ProbeCall::CreateSource(input_name), when: When::Always },
        Op::Do { call: ProbeCall::ReleaseCopy, when: When::If(7) },
        Op::Require { answer: 10, fault: ProbeFault::NotCreated },
        Op::Do { call: ProbeCall::AddTap, when: When::Always },
        Op::Do { call: ProbeCall::Track, when: When::Always },
        Op::Do { call: ProbeCall::RemoveTap, when: When::Unless(14) },
        Op::Do { call: ProbeCall::ReleaseSource, when: When::Unless(14) },
        Op::Require { answer: 14, fault: ProbeFault::NotTracked },
    ];
    assert(ops@ =~= probe_ops(symbols, named, input_name));
    Plan::new(ops)
}

/// What stops a probe from starting.
pub open spec fn probe_fault(symbols: bool, named: bool, host: spec_fn(int) -> bool) -> Option<ProbeFault> {
    if !symbols {
        Some(ProbeFault::SymbolMissing)
    } else if !named {
        Some(ProbeFault::NameNul)
    } else if !host(2) {
        Some(ProbeFault::NoInput)
    } else if !host(4) {
        Some(ProbeFault::NotADevice)
    } else if !host(10) {
        Some(ProbeFault::NotCreated)
    } else if !host(14) {
        Some(ProbeFault::NotTracked)
    } else {
        None
    }
}

/// What a call does to the references held to the input.
pub open spec fn input_references(call: (ProbeCall<'_>, bool)) -> int {
    match call.0 {
        ProbeCall::FindInput(_) => if call.1 {
            1
        } else {
            0
        },
        ProbeCall::ReleaseInput => -1,
        _ => 0,
    }
}

/// What a call does to the references held to copies of the settings.
pub open spec fn settings_references(call: (ProbeCall<'_>, bool)) -> int {
    match call.0 {
        ProbeCall::CopySettings => if call.1 {
            1
        } else {
            0
        },
        ProbeCall::ReleaseCopy => -1,
        _ => 0,
    }
}

/// What a call does to the private copies.
pub open spec fn copy_references(call: (ProbeCall<'_>, bool)) -> int {
    match call.0 {
        ProbeCall::CreateSource(_) => if call.1 {
            1
        } else {
            0
        },
        ProbeCall::ReleaseSource => -1,
        _ => 0,
    }
}

/// What a call does to the taps on the private copy.
pub open spec fn copy_taps(call: (ProbeCall<'_>, bool)) -> int {
    match call.0 {
        ProbeCall::AddTap => 1,
        ProbeCall::RemoveTap => -1,
        _ => 0,
    }
}

/// How a probe starts, call by call.
pub proof fn how_a_probe_starts<'a>(
    symbols: bool,
    named: bool,
    input_name: &'a str,
    host: spec_fn(int) -> bool,
)
    ensures
        ({
            let course = crate::plan::whole_course(probe_ops(symbols, named, input_name), host);
            let copied = seq![
                (ProbeCall::FindInput(input_name), true),
                (ProbeCall::ReadKind, true),
                (ProbeCall::CopySettings, host(7)),
                (ProbeCall::ReleaseInput, host(8)),
                (ProbeCall::TakeId, host(9)),
                (ProbeCall::CreateSource(input_name), host(10)),
            ] + (if host(7) {
                seq![(ProbeCall::ReleaseCopy, host(11))]
            } else {
                Seq::empty()
            });
            if !symbols {
                course.calls.len() == 0 && course.fault == Some(ProbeFault::SymbolMissing)
            } else if !named {
                course.calls.len() == 0 && course.fault == Some(ProbeFault::NameNul)
            } else if !host(2) {
                &&& course.calls == seq![(ProbeCall::FindInput(input_name), false)]
                &&& course.fault == Some(ProbeFault::NoInput)
            } else if !host(4) {
                &&& course.calls == seq![
                    (ProbeCall::FindInput(input_name), true),
                    (ProbeCall::ReadKind, false),
                    (ProbeCall::ReleaseInput, host(5)),
                ]
                &&& course.fault == Some(ProbeFault::NotADevice)
            } else if !host(10) {
                course.calls == copied && course.fault == Some(ProbeFault::NotCreated)
            } else if !host(14) {
                &&& course.calls == copied + seq![
                    (ProbeCall::AddTap, host(13)),
                    (ProbeCall::Track, false),
                    (ProbeCall::RemoveTap, host(15)),
                    (ProbeCall::ReleaseSource, host(16)),
                ]
                &&& course.fault == Some(ProbeFault::NotTracked)
            } else {
                &&& course.calls == copied + seq![(ProbeCall::AddTap, host(13)), (ProbeCall::Track, true)]
                &&& course.fault is None
            }
        }),
{
    let ops = probe_ops(symbols, named, input_name);
    let course = crate::plan::whole_course(ops, host);
    crate::plan::every_step(ops, host);
    let copied = seq![
        (ProbeCall::FindInput(input_name), true),
        (ProbeCall::ReadKind, true),
        (ProbeCall::CopySettings, host(7)),
        (ProbeCall::ReleaseInput, host(8)),
        (ProbeCall::TakeId, host(9)),
        (ProbeCall::CreateSource(input_name), host(10)),
    ] + (if host(7) {
        seq![(ProbeCall::ReleaseCopy, host(11))]
    } else {
        Seq::empty()
    });
    if symbols && named && host(2) {
        if !host(4) {
            assert(course.calls =~= seq![
                (ProbeCall::FindInput(input_name), true),
                (ProbeCall::ReadKind, false),
                (ProbeCall::ReleaseInput, host(5)),
            ]);
        } else if !host(10) {
            assert(course.calls =~= copied);
        } else if !host(14) {
            assert(course.calls =~= copied + seq![
                (ProbeCall::AddTap, host(13)),
                (ProbeCall::Track, false),
                (ProbeCall::RemoveTap, host(15)),
                (ProbeCall::ReleaseSource, host(16)),
            ]);
        } else {
            assert(course.calls =~= copied + seq![(ProbeCall::AddTap, host(13)), (ProbeCall::Track, true)]);
        }
    } else if symbols && named {
        assert(course.calls =~= seq![(ProbeCall::FindInput(input_name), false)]);
    }
}

/// Starting a probe stops at the first thing that is missing. Whatever
/// happens, the input and all settings are given back; a private copy and
/// its tap are left exactly if the probe has started.
pub proof fn a_probe_leaves_nothing_behind<'a>(
    symbols: bool,
    named: bool,
    input_name: &'a str,
    host: spec_fn(int) -> bool,
)
    ensures
        ({
            let course = crate::plan::whole_course(probe_ops(symbols, named, input_name), host);
            let left: int = if course.fault is None {
                1
            } else {
                0
            };
            &&& course.fault == probe_fault(symbols, named, host)
            &&& crate::plan::balance(course.calls, |call: (ProbeCall<'_>, bool)| input_references(call)) == 0
            &&& crate::plan::balance(course.calls, |call: (ProbeCall<'_>, bool)| settings_references(call)) == 0
            &&& crate::plan::balance(course.calls, |call: (ProbeCall<'_>, bool)| copy_references(call)) == left
            &&& crate::plan::balance(course.calls, |call: (ProbeCall<'_>, bool)| copy_taps(call)) == left
        }),
{
    crate::plan::every_step(probe_ops(symbols, named, input_name), host);
}

// ---------------------------------------------------------------------
// Downmix to mono
// ---------------------------------------------------------------------

/// A call that reads or sets OBS's own "Downmix to Mono".
#[derive(Clone, Copy, Debug)]
pub enum MonoCall<'a> {
    /// `obs_get_source_by_name`; yes: the input, with a reference.
    FindInput(&'a str),
    /// `obs_source_get_flags`.
    GetFlags,
    /// `obs_source_set_flags`, to `with_mono` of those flags.
    SetFlags(bool),
    /// `obs_source_get_flags`; yes: `is_mono` holds of them.
    ReadMono,
    /// `obs_source_release` of the input.
    ReleaseInput,
}

/// What stopped a request.
#[derive(Clone, Copy, PartialEq, Eq, Structural, Debug)]
pub enum MonoFault {
    SymbolMissing,
    NameNul,
    NoInput,
}

pub open spec fn mono_set(flags: u32) -> bool {
    flags & OBS_SOURCE_FLAG_FORCE_MONO != 0
}

/// Whether the flags of an input say mono.
pub fn is_mono(flags: u32) -> (mono: bool)
    ensures
        mono == mono_set(flags),
        mono == (flags & 2 != 0),
{
    flags & OBS_SOURCE_FLAG_FORCE_MONO != 0
}

/// The flags with mono on or off. Every other flag stays as it is, and what
/// was set reads back.
pub fn with_mono(flags: u32, mono: bool) -> (changed: u32)
    ensures
        changed == (if mono {
            flags | OBS_SOURCE_FLAG_FORCE_MONO
        } else {
            flags & !OBS_SOURCE_FLAG_FORCE_MONO
        }),
        mono_set(changed) == mono,
        (changed & 2 != 0) == mono,
        changed & !2u32 == flags & !2u32,
        changed & !OBS_SOURCE_FLAG_FORCE_MONO == flags & !OBS_SOURCE_FLAG_FORCE_MONO,
{
    assert((flags | 2u32) & 2u32 != 0) by (bit_vector);
    assert((flags & !2u32) & 2u32 == 0) by (bit_vector);
    assert((flags | 2u32) & !2u32 == flags & !2u32) by (bit_vector);
    assert((flags & !2u32) & !2u32 == flags & !2u32) by (bit_vector);
    if mono {
        flags | OBS_SOURCE_FLAG_FORCE_MONO
    } else {
        flags & !OBS_SOURCE_FLAG_FORCE_MONO
    }
}

pub open spec fn mono_error_text(fault: MonoFault, input_name: Seq<char>) -> Seq<char> {
    match fault {
        MonoFault::SymbolMissing => "required libobs symbols unavailable"@,
        MonoFault::NameNul => "input name contained a NUL"@,
        MonoFault::NoInput => "no input named \""@ + input_name + "\""@,
    }
}

/// Why a request failed.
pub fn mono_error(fault: MonoFault, input_name: &str) -> (message: String)
    ensures
        message@ == mono_error_text(fault, input_name@),
        ({
            let input_name = input_name@;
            message@ == (match fault {
                MonoFault::SymbolMissing => "required libobs symbols unavailable"@,
                MonoFault::NameNul => "input name contained a NUL"@,
                MonoFault::NoInput => "no input named \""@ + input_name + "\""@,
            })
        }),
{
    match fault {
        MonoFault::SymbolMissing => "required libobs symbols unavailable".to_owned(),
        MonoFault::NameNul => "input name contained a NUL".to_owned(),
        MonoFault::NoInput => text3("no input named \"", input_name, "\""),
    }
}

/// Only reads; `named` where the input's name holds no NUL.
pub open spec fn read_mono_ops<'a>(
    symbols: bool,
    named: bool,
    input_name: &'a str,
) -> Seq<Op<MonoCall<'a>, MonoFault>> {
    seq![
        Op::Need { met: symbols, fault: MonoFault::SymbolMissing },
        Op::Need { met: named, fault: MonoFault::NameNul },
        Op::Do { call: MonoCall::FindInput(input_name), when: When::Always },
        Op::Require { answer: 2, fault: MonoFault::NoInput },
        Op::Do { call: MonoCall::ReadMono, when: When::Always },
        Op::Do { call: MonoCall::ReleaseInput, when: When::Always },
    ]
}

/// Sets, then reads back.
pub open spec fn set_mono_ops<'a>(symbols: bool, named: bool, input_name: &'a str, mono: bool) -> Seq<
    Op<MonoCall<'a>, MonoFault>,
> {
    seq![
        Op::Need { met: symbols, fault: MonoFault::SymbolMissing },
        Op::Need { met: named, fault: MonoFault::NameNul },
        Op::Do { call: MonoCall::FindInput(input_name), when: When::Always },
        Op::Require { answer: 2, fault: MonoFault::NoInput },
        Op::Do { call: MonoCall::GetFlags, when: When::Always },
        Op::Do { call: MonoCall::SetFlags(mono), when: When::Always },
        Op::Do { call: MonoCall::ReadMono, when: When::Always },
        Op::Do { call: MonoCall::ReleaseInput, when: When::Always },
    ]
}

/// Sets mono on or off where `set` says so, and reads it.
pub fn mono_on_ui_thread<'a>(symbols: bool, input_name: &'a str, set: Option<bool>) -> (plan: Plan<
    MonoCall<'a>,
    MonoFault,
>)
    ensures
        plan.fresh(
            (match set {
                Some(mono) => set_mono_ops(symbols, !input_name@.contains('\0'), input_name, mono),
                None => read_mono_ops(symbols, !input_name@.contains('\0'), input_name),
            }),
        ),
{
    let named = !has_nul(input_name);
    match set {
        Some(mono) => {
            let ops: Vec<Op<MonoCall<'a>, MonoFault>> = vec![
                Op::Need { met: symbols, fault: MonoFault::SymbolMissing },
                Op::Need { met: named, fault: MonoFault::NameNul },
                Op::Do { call: MonoCall::FindInput(input_name), when: When::Always },
                Op::Require { answer: 2, fault: MonoFault::NoInput },
                Op::Do { call: MonoCall::GetFlags, when: When::Always },
                Op::Do { call: MonoCall::SetFlags(mono), when: When::Always },
                Op::Do { call: MonoCall::ReadMono, when: When::Always },
                Op::Do { call: MonoCall::ReleaseInput, when: When::Always },
            ];
            assert(ops@ =~= set_mono_ops(symbols, named, input_name, mono));
            Plan::new(ops)
        },
        None => {
            let ops: Vec<Op<MonoCall<'a>, MonoFault>> = vec![
                Op::Need { met: symbols, fault: MonoFault::SymbolMissing },
                Op::Need { met: named, fault: MonoFault::NameNul },
                Op::Do { call: MonoCall::FindInput(input_name), when: When::Always },
                Op::Require { answer: 2, fault: MonoFault::NoInput },
                Op::Do { call: MonoCall::ReadMono, when: When::Always },
                Op::Do { call: MonoCall::ReleaseInput, when: When::Always },
            ];
            assert(ops@ =~= read_mono_ops(symbols, named, input_name));
            Plan::new(ops)
        },
    }
}

/// How mono is set.
pub open spec fn set_mono_course<'a>(
    symbols: bool,
    named: bool,
    input_name: &'a str,
    mono: bool,
    host: spec_fn(int) -> bool,
) -> crate::plan::Course<MonoCall<'a>, MonoFault> {
    if !symbols {
        crate::plan::stopped(Some(MonoFault::SymbolMissing))
    } else if !named {
        crate::plan::stopped(Some(MonoFault::NameNul))
    } else if !host(2) {
        crate::plan::Course {
            calls: seq![
                (MonoCall::FindInput(input_name), false),
            ],
            fault: Some(MonoFault::NoInput),
        }
    } else {
        crate::plan::Course {
            calls: seq![
                (MonoCall::FindInput(input_name), true),
                (MonoCall::GetFlags, host(4)),
                (MonoCall::SetFlags(mono), host(5)),
                (MonoCall::ReadMono, host(6)),
                (MonoCall::ReleaseInput, host(7)),
            ],
            fault: None,
        }
    }
}

/// How mono is read.
pub open spec fn read_mono_course<'a>(
    symbols: bool,
    named: bool,
    input_name: &'a str,
    host: spec_fn(int) -> bool,
) -> crate::plan::Course<MonoCall<'a>, MonoFault> {
    if !symbols {
        crate::plan::stopped(Some(MonoFault::SymbolMissing))
    } else if !named {
        crate::plan::stopped(Some(MonoFault::NameNul))
    } else if !host(2) {
        crate::plan::Course {
            calls: seq![
                (MonoCall::FindInput(input_name), false),
            ],
            fault: Some(MonoFault::NoInput),
        }
    } else {
        crate::plan::Course {
            calls: seq![
                (MonoCall::FindInput(input_name), true),
                (MonoCall::ReadMono, host(4)),
                (MonoCall::ReleaseInput, host(5)),
            ],
            fault: None,
        }
    }
}

/// Mono is read back after it was set, and the input is given back.
pub proof fn how_mono_is_set<'a>(
    symbols: bool,
    named: bool,
    input_name: &'a str,
    mono: bool,
    host: spec_fn(int) -> bool,
)
    ensures
        crate::plan::whole_course(set_mono_ops(symbols, named, input_name, mono), host) == set_mono_course(
            symbols,
            named,
            input_name,
            mono,
            host,
        ),
        crate::plan::whole_course(set_mono_ops(symbols, named, input_name, mono), host) == (if !symbols {
            crate::plan::stopped(Some(MonoFault::SymbolMissing))
        } else if !named {
            crate::plan::stopped(Some(MonoFault::NameNul))
        } else if !host(2) {
            crate::plan::Course {
                calls: seq![
                    (MonoCall::FindInput(input_name), false),
                ],
                fault: Some(MonoFault::NoInput),
            }
        } else {
            crate::plan::Course {
                calls: seq![
                    (MonoCall::FindInput(input_name), true),
                    (MonoCall::GetFlags, host(4)),
                    (MonoCall::SetFlags(mono), host(5)),
                    (MonoCall::ReadMono, host(6)),
                    (MonoCall::ReleaseInput, host(7)),
                ],
                fault: None,
            }
        }),
{
    let ops = set_mono_ops(symbols, named, input_name, mono);
    crate::plan::every_step(ops, host);
    assert(crate::plan::whole_course(ops, host) =~= set_mono_course(symbols, named, input_name, mono, host));
}

/// Reading mono changes nothing, and gives the input back.
pub proof fn how_mono_is_read<'a>(symbols: bool, named: bool, input_name: &'a str, host: spec_fn(int) -> bool)
    ensures
        crate::plan::whole_course(read_mono_ops(symbols, named, input_name), host) == read_mono_course(
            symbols,
            named,
            input_name,
            host,
        ),
        crate::plan::whole_course(read_mono_ops(symbols, named, input_name), host) == (if !symbols {
            crate::plan::stopped(Some(MonoFault::SymbolMissing))
        } else if !named {
            crate::plan::stopped(Some(MonoFault::NameNul))
        } else if !host(2) {
            crate::plan::Course {
                calls: seq![
                    (MonoCall::FindInput(input_name), false),
                ],
                fault: Some(MonoFault::NoInput),
            }
        } else {
            crate::plan::Course {
                calls: seq![
                    (MonoCall::FindInput(input_name), true),
                    (MonoCall::ReadMono, host(4)),
                    (MonoCall::ReleaseInput, host(5)),
                ],
                fault: None,
            }
        }),
{
    let ops = read_mono_ops(symbols, named, input_name);
    crate::plan::every_step(ops, host);
    assert(crate::plan::whole_course(ops, host) =~= read_mono_course(symbols, named, input_name, host));
}

// ---------------------------------------------------------------------
// Requests and answers
// ---------------------------------------------------------------------

/// The requests of this module.
pub open spec fn request_names() -> Seq<Seq<char>> {
    seq!["probe_input"@, "mono"@]
}

/// The requests of this module.
pub fn requests() -> (names: Vec<&'static str>)
    ensures
        names@.map_values(|name: &'static str| name@) == request_names(),
        names@.map_values(|name: &'static str| name@) == (seq!["probe_input"@, "mono"@]),
{
    let names: Vec<&'static str> = vec!["probe_input", "mono"];
    assert(names@.map_values(|name: &'static str| name@) =~= request_names());
    names
}

/// How long to listen, in milliseconds.
pub fn probe_window(window_ms: Option<i64>) -> (window: u64)
    ensures
        window == (match window_ms {
            None => DEFAULT_WINDOW_MS as int,
            Some(ms) => if ms < 300 {
                300
            } else if ms > 5000 {
                5000
            } else {
                ms as int
            },
        }),
        300 <= window <= 5000,
        window_ms is None ==> window == 1000,
{
    match window_ms {
        None => DEFAULT_WINDOW_MS,
        Some(ms) => if ms < 300 {
            300
        } else if ms > 5000 {
            5000
        } else {
            ms as u64
        },
    }
}

/// How long after its start a probe is finished, in milliseconds.
pub fn probe_deadline(window: u64) -> (deadline: u64)
    requires
        window <= 5000,
    ensures
        deadline == WARMUP_MS + window + SLACK_MS,
        deadline == window + 350,
{
    WARMUP_MS + window + SLACK_MS
}

/// Milliseconds a probe's thread sleeps at a time.
pub const PROBE_NAP_MS: u64 = 50;

/// A probe's thread looks around twenty times a second.
pub proof fn how_often_a_probe_looks_around()
    ensures
        PROBE_NAP_MS * 20 == 1000,
        WARMUP_NS == WARMUP_MS * 1_000_000,
        WARMUP_MS == 200,
{
}

/// What a probe's thread does next.
#[derive(Clone, Copy, PartialEq, Eq, Structural, Debug)]
pub enum Wait {
    /// Sleep `PROBE_NAP_MS`.
    Nap,
    /// End the probe.
    Finish,
}

/// What a probe's thread does, `elapsed` whole milliseconds after the probe's
/// start: it naps until the deadline has come, or the plugin is unloaded.
pub fn probe_wait(elapsed: u64, deadline: u64, shutting_down: bool) -> (wait: Wait)
    ensures
        wait == (if elapsed < deadline && !shutting_down {
            Wait::Nap
        } else {
            Wait::Finish
        }),
{
    if elapsed < deadline && !shutting_down {
        Wait::Nap
    } else {
        Wait::Finish
    }
}

pub open spec fn unready_error(input_name: Option<&str>, queue: bool) -> Option<Seq<char>> {
    if input_name is None {
        Some("input_name is required"@)
    } else if !queue {
        Some("obs_queue_task unavailable"@)
    } else {
        None
    }
}

/// The answer to a request that cannot be carried out; none where it can.
pub fn refuse_unready(input_name: Option<&str>, queue: bool) -> (response: Option<Response>)
    ensures
        match unready_error(input_name, queue) {
            Some(error) => response matches Some(answer) && answer@ == crate::response::refused(error),
            None => response is None,
        },
        response is None <==> input_name is Some && queue,
        response matches Some(answer) ==> answer@ == crate::response::refused(
            if input_name is None {
                "input_name is required"@
            } else {
                "obs_queue_task unavailable"@
            },
        ),
{
    if input_name.is_none() {
        return Some(Response::refuse("input_name is required"));
    }
    if !queue {
        return Some(Response::refuse("obs_queue_task unavailable"));
    }
    None
}

/// The answer to a request to listen: the probe's number and the input's
/// kind, at once. `ran` says whether the UI thread got to it.
pub fn handle_probe_input(ran: bool, started: &Result<(u64, String), String>) -> (response: Response)
    ensures
        response@ == (if !ran {
            crate::response::refused("UI-thread task never ran"@)
        } else {
            match *started {
                Err(error) => crate::response::refused(error@),
                Ok((id, kind)) => seq![
                    ("ok"@, crate::response::ValueView::Bool(true)),
                    ("probe_id"@, crate::response::ValueView::Int(id as i64)),
                    ("kind"@, crate::response::ValueView::Text(kind@)),
                ],
            }
        }),
{
    if !ran {
        return Response::refuse("UI-thread task never ran");
    }
    match started {
        Err(error) => Response::refuse(error.as_str()),
        Ok((id, kind)) => {
            let mut response = Response::accept();
            response.set_int("probe_id", *id as i64);
            response.set_string("kind", kind.as_str());
            assert(response@ =~= seq![
                ("ok"@, crate::response::ValueView::Bool(true)),
                ("probe_id"@, crate::response::ValueView::Int(*id as i64)),
                ("kind"@, crate::response::ValueView::Text(kind@)),
            ]);
            response
        },
    }
}

/// The answer to a request for mono.
pub fn handle_mono(ran: bool, mono: &Result<bool, String>) -> (response: Response)
    ensures
        response@ == (if !ran {
            crate::response::refused("UI-thread task never ran"@)
        } else {
            match *mono {
                Err(error) => crate::response::refused(error@),
                Ok(on) => seq![
                    ("ok"@, crate::response::ValueView::Bool(true)),
                    ("mono"@, crate::response::ValueView::Bool(on)),
                ],
            }
        }),
{
    if !ran {
        return Response::refuse("UI-thread task never ran");
    }
    match mono {
        Err(error) => Response::refuse(error.as_str()),
        Ok(on) => {
            let mut response = Response::accept();
            response.set_bool("mono", *on);
            assert(response@ =~= seq![
                ("ok"@, crate::response::ValueView::Bool(true)),
                ("mono"@, crate::response::ValueView::Bool(*on)),
            ]);
            response
        },
    }
}

/// The time of the first packet in whole milliseconds; -1 where none came.
pub open spec fn first_packet_ms(first_packet: Option<u64>) -> i64 {
    match first_packet {
        Some(ns) => (ns / 1_000_000) as i64,
        None => -1i64,
    }
}

/// What the `input_probe_result` event says besides the levels of the
/// channels. No frames mean that nothing arrived at all.
pub open spec fn result_fields<S>(id: u64, input_name: Seq<char>, kind: Seq<char>, stats: ProbeStats<S>) -> Seq<
    (Seq<char>, crate::response::ValueView),
> {
    seq![
        ("probe_id"@, crate::response::ValueView::Int(id as i64)),
        ("input_name"@, crate::response::ValueView::Text(input_name)),
        ("kind"@, crate::response::ValueView::Text(kind)),
        ("packets"@, crate::response::ValueView::Int(stats.packets() as i64)),
        ("warmup_packets"@, crate::response::ValueView::Int(stats.warmup_packets() as i64)),
        ("frames"@, crate::response::ValueView::Int(stats.frames() as i64)),
        ("first_packet_ms"@, crate::response::ValueView::Int(first_packet_ms(stats.first_packet()))),
        ("ok"@, crate::response::ValueView::Bool(true)),
    ]
}

/// What the `input_probe_result` event says besides the levels of the
/// channels.
pub fn emit_result<S>(id: u64, input_name: &str, kind: &str, stats: &ProbeStats<S>) -> (fields: Response)
    ensures
        fields@ == result_fields(id, input_name@, kind@, *stats),
        fields@ == seq![
            ("probe_id"@, crate::response::ValueView::Int(id as i64)),
            ("input_name"@, crate::response::ValueView::Text(input_name@)),
            ("kind"@, crate::response::ValueView::Text(kind@)),
            ("packets"@, crate::response::ValueView::Int(stats.packets() as i64)),
            ("warmup_packets"@, crate::response::ValueView::Int(stats.warmup_packets() as i64)),
            ("frames"@, crate::response::ValueView::Int(stats.frames() as i64)),
            (
                "first_packet_ms"@,
                crate::response::ValueView::Int(
                    match stats.first_packet() {
                        Some(ns) => (ns / 1_000_000) as i64,
                        None => -1i64,
                    },
                ),
            ),
            ("ok"@, crate::response::ValueView::Bool(true)),
        ],
{
    let first: i64 = match stats.first_packet {
        Some(ns) => (ns / 1_000_000) as i64,
        None => -1,
    };
    let mut fields = Response::new();
    fields.set_int("probe_id", id as i64);
    fields.set_string("input_name", input_name);
    fields.set_string("kind", kind);
    fields.set_int("packets", stats.packets as i64);
    fields.set_int("warmup_packets", stats.warmup_packets as i64);
    fields.set_int("frames", stats.frames as i64);
    fields.set_int("first_packet_ms", first);
    fields.set_bool("ok", true);
    assert(fields@ =~= result_fields(id, input_name@, kind@, *stats));
    fields
}

// ---------------------------------------------------------------------
// The event's data
// ---------------------------------------------------------------------

/// A call that builds and sends the `input_probe_result` event.
#[derive(Clone, Copy, PartialEq, Eq, Structural, Debug)]
pub enum ResultCall {
    /// `obs_data_create` for the event itself.
    CreateRoot,
    /// Sets the values of `emit_result`.
    SetFields,
    /// `obs_data_array_create`.
    CreateArray,
    /// `obs_data_create` for one channel.
    CreateEntry,
    /// Sets `peak_db`, `rms_db` and `zero_fraction` of this channel.
    SetLevels(usize),
    /// `obs_data_array_push_back` of the entry; the array takes a reference
    /// of its own.
    PushEntry,
    /// `obs_data_release` of the entry.
    ReleaseEntry,
    /// `obs_data_set_array` of `channels`; the event takes a reference of its
    /// own.
    SetArray,
    /// `obs_data_array_release`.
    ReleaseArray,
    /// Sends the event.
    Emit,
    /// `obs_data_release` of the event.
    ReleaseRoot,
}

pub open spec fn channel_calls(c: int) -> Seq<ResultCall> {
    seq![
        ResultCall::CreateEntry,
        ResultCall::SetLevels(c as usize),
        ResultCall::PushEntry,
        ResultCall::ReleaseEntry,
    ]
}

/// The calls that add the first `n` channels.
pub open spec fn channels_calls(n: int) -> Seq<ResultCall>
    decreases n,
{
    if n <= 0 {
        Seq::empty()
    } else {
        channels_calls(n - 1) + channel_calls(n - 1)
    }
}

/// The calls that build an event of `n` channels, send it where the vendor is
/// registered, and let go of it.
pub open spec fn result_calls(n: int, vendor: bool) -> Seq<ResultCall> {
    seq![ResultCall::CreateRoot, ResultCall::SetFields, ResultCall::CreateArray] + channels_calls(n) + seq![
        ResultCall::SetArray,
        ResultCall::ReleaseArray,
    ] + (if vendor {
        seq![ResultCall::Emit]
    } else {
        Seq::empty()
    }) + seq![ResultCall::ReleaseRoot]
}

/// The calls that build and send the event; none where libobs lacks any of
/// the functions.
pub fn result_event(symbols: bool, channels: usize, vendor: bool) -> (calls: Option<Vec<ResultCall>>)
    ensures
        match calls {
            Some(list) => symbols && list@ == result_calls(channels as int, vendor),
            None => !symbols,
        },
{
    if !symbols {
        return None;
    }
    let ghost head = seq![ResultCall::CreateRoot, ResultCall::SetFields, ResultCall::CreateArray];
    let mut calls: Vec<ResultCall> = vec![ResultCall::CreateRoot, ResultCall::SetFields, ResultCall::CreateArray];
    let mut c: usize = 0;
    assert(calls@ =~= head + channels_calls(0));
    while c < channels
        invariant
            c <= channels,
            calls@ == head + channels_calls(c as int),
        decreases channels - c,
    {
        let ghost before = calls@;
        calls.push(ResultCall::CreateEntry);
        calls.push(ResultCall::SetLevels(c));
        calls.push(ResultCall::PushEntry);
        calls.push(ResultCall::ReleaseEntry);
        assert(calls@ =~= before + channel_calls(c as int));
        c = c + 1;
        assert(calls@ =~= head + channels_calls(c as int));
    }
    calls.push(ResultCall::SetArray);
    calls.push(ResultCall::ReleaseArray);
    if vendor {
        calls.push(ResultCall::Emit);
    }
    calls.push(ResultCall::ReleaseRoot);
    assert(calls@ =~= result_calls(channels as int, vendor));
    Some(calls)
}

/// How an event is built, call by call: each channel gets an entry of its own
/// with its own levels, in order, before the array is set; the event is sent
/// exactly if the vendor is registered, and after everything is in it.
pub proof fn how_an_event_is_built(n: int, vendor: bool, c: int)
    requires
        0 <= c <= n,
    ensures
        ({
            let calls = result_calls(n, vendor);
            let end = 3 + 4 * n;
            &&& calls.len() == end + (if vendor {
                4int
            } else {
                3
            })
            &&& calls.take(3) == seq![ResultCall::CreateRoot, ResultCall::SetFields, ResultCall::CreateArray]
            &&& c < n ==> calls[3 + 4 * c] == ResultCall::CreateEntry
            &&& c < n ==> calls[4 + 4 * c] == ResultCall::SetLevels(c as usize)
            &&& c < n ==> calls[5 + 4 * c] == ResultCall::PushEntry
            &&& c < n ==> calls[6 + 4 * c] == ResultCall::ReleaseEntry
            &&& calls[end] == ResultCall::SetArray
            &&& calls[end + 1] == ResultCall::ReleaseArray
            &&& vendor ==> calls[end + 2] == ResultCall::Emit
            &&& calls.last() == ResultCall::ReleaseRoot
        }),
{
    each_channel_has_its_calls(n, c);
    let calls = result_calls(n, vendor);
    let body = channels_calls(n);
    assert(calls.take(3) =~= seq![ResultCall::CreateRoot, ResultCall::SetFields, ResultCall::CreateArray]);
    if c < n {
        assert(calls[3 + 4 * c] == body[4 * c]);
        assert(calls[4 + 4 * c] == body[4 * c + 1]);
        assert(calls[5 + 4 * c] == body[4 * c + 2]);
        assert(calls[6 + 4 * c] == body[4 * c + 3]);
    }
}

proof fn each_channel_has_its_calls(n: int, c: int)
    requires
        0 <= c <= n,
    ensures
        channels_calls(n).len() == 4 * n,
        c < n ==> channels_calls(n)[4 * c] == ResultCall::CreateEntry,
        c < n ==> channels_calls(n)[4 * c + 1] == ResultCall::SetLevels(c as usize),
        c < n ==> channels_calls(n)[4 * c + 2] == ResultCall::PushEntry,
        c < n ==> channels_calls(n)[4 * c + 3] == ResultCall::ReleaseEntry,
    decreases n,
{
    if n > 0 {
        each_channel_has_its_calls(
            n - 1,
            if c < n - 1 {
                c
            } else {
                n - 1
            },
        );
    }
}

/// What a call does to all the references held.
pub open spec fn result_reference(call: ResultCall) -> int {
    match call {
        ResultCall::CreateRoot | ResultCall::CreateArray | ResultCall::CreateEntry => 1,
        ResultCall::ReleaseRoot | ResultCall::ReleaseArray | ResultCall::ReleaseEntry => -1,
        _ => 0,
    }
}

/// What is held after the calls.
pub open spec fn result_references(calls: Seq<ResultCall>) -> int
    decreases calls.len(),
{
    if calls.len() == 0 {
        0
    } else {
        result_references(calls.drop_last()) + result_reference(calls.last())
    }
}

proof fn references_of_both(a: Seq<ResultCall>, b: Seq<ResultCall>)
    ensures
        result_references(a + b) == result_references(a) + result_references(b),
    decreases b.len(),
{
    if b.len() == 0 {
        assert(a + b =~= a);
    } else {
        references_of_both(a, b.drop_last());
        assert((a + b).drop_last() =~= a + b.drop_last());
    }
}

proof fn channels_hold_nothing(n: int)
    requires
        0 <= n,
    ensures
        result_references(channels_calls(n)) == 0,
    decreases n,
{
    if n > 0 {
        channels_hold_nothing(n - 1);
        let calls = channel_calls(n - 1);
        references_of_both(channels_calls(n - 1), calls);
        reveal_with_fuel(result_references, 5);
        assert(calls.drop_last() =~= calls.take(3));
        assert(calls.take(3).drop_last() =~= calls.take(2));
        assert(calls.take(2).drop_last() =~= calls.take(1));
        assert(calls.take(1).drop_last() =~= Seq::<ResultCall>::empty());
    }
}

/// However many channels there are, and whether or not anybody is told,
/// nothing is held in the end.
pub proof fn an_event_leaves_nothing_behind(n: int, vendor: bool)
    requires
        0 <= n,
    ensures
        result_references(result_calls(n, vendor)) == 0,
{
    let head = seq![ResultCall::CreateRoot, ResultCall::SetFields, ResultCall::CreateArray];
    let body = channels_calls(n);
    let close = seq![ResultCall::SetArray, ResultCall::ReleaseArray];
    let send = if vendor {
        seq![ResultCall::Emit]
    } else {
        Seq::empty()
    };
    let end = seq![ResultCall::ReleaseRoot];
    channels_hold_nothing(n);
    references_of_both(head, body);
    references_of_both(head + body, close);
    references_of_both(head + body + close, send);
    references_of_both(head + body + close + send, end);
    reveal_with_fuel(result_references, 4);
    assert(head.drop_last() =~= head.take(2));
    assert(head.take(2).drop_last() =~= head.take(1));
    assert(head.take(1).drop_last() =~= Seq::<ResultCall>::empty());
    assert(close.drop_last() =~= close.take(1));
    assert(close.take(1).drop_last() =~= Seq::<ResultCall>::empty());
    assert(send.len() > 0 ==> send.drop_last() =~= Seq::<ResultCall>::empty());
    assert(end.drop_last() =~= Seq::<ResultCall>::empty());
}

} // verus!
