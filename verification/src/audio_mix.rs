// SPDX-License-Identifier: GPL-2.0-or-later
//! Sample buffers of the monitor taps: one contiguous run per channel, and
//! the sum of several such buffers. What a sample is, and how two of them
//! add up, is left to the caller.

use vstd::prelude::*;

verus! {

/// `buffer` holds `channels` runs of `frames` samples: run `c` is plane `c`
/// with every sample scaled, and silence where there is no such plane.
pub open spec fn scaled_planes<T, F: Fn(T) -> T>(
    channels: int,
    frames: int,
    planes: Seq<Option<&[T]>>,
    silence: T,
    scale: F,
    buffer: Seq<T>,
) -> bool {
    &&& buffer.len() == channels * frames
    &&& forall|c: int, i: int|
        #![trigger buffer[c * frames + i]]
        0 <= c < channels && 0 <= i < frames ==> (if c < planes.len() && planes[c] is Some {
            call_ensures(scale, (planes[c]->0@[i],), buffer[c * frames + i])
        } else {
            buffer[c * frames + i] == silence
        })
}

/// Where scaling is a function, every sample of every channel is exactly the
/// source's own sample scaled, at its own place, and nothing else is in the
/// buffer.
pub proof fn a_buffer_holds_every_sample_scaled<T, F: Fn(T) -> T>(
    channels: int,
    frames: int,
    planes: Seq<Option<&[T]>>,
    silence: T,
    scale: F,
    buffer: Seq<T>,
    scaled: spec_fn(T) -> T,
    c: int,
    i: int,
)
    requires
        scaled_planes(channels, frames, planes, silence, scale, buffer),
        forall|sample: T, out: T| #[trigger] call_ensures(scale, (sample,), out) ==> out == scaled(sample),
        0 <= c < channels,
        0 <= i < frames,
    ensures
        buffer.len() == channels * frames,
        c < planes.len() && planes[c] is Some ==> buffer[c * frames + i] == scaled((planes[c]->0)@[i]),
        c >= planes.len() || planes[c] is None ==> buffer[c * frames + i] == silence,
{
    assert(buffer[c * frames + i] == buffer[c * frames + i]);
}

/// Every plane that is there holds `frames` samples.
pub open spec fn full_planes<T>(frames: int, planes: Seq<Option<&[T]>>) -> bool {
    forall|c: int| 0 <= c < planes.len() && (#[trigger] planes[c]) is Some ==> planes[c]->0@.len() == frames
}

/// Gathers independent channel planes into one evenly strided buffer,
/// scaling each sample on the way. A missing plane leaves its run silent;
/// planes beyond `channels` are not read.
pub fn build_scaled_planar_buffer<T: Copy, F: Fn(T) -> T>(
    channels: usize,
    frames: usize,
    planes: &[Option<&[T]>],
    silence: T,
    scale: &F,
) -> (buffer: Vec<T>)
    requires
        channels * frames <= usize::MAX,
        full_planes(frames as int, planes@),
        forall|sample: T| call_requires(*scale, (sample,)),
    ensures
        scaled_planes(channels as int, frames as int, planes@, silence, *scale, buffer@),
        buffer@.len() == channels * frames,
        forall|c: int, i: int|
            #![trigger buffer@[c * frames + i]]
            0 <= c < channels && 0 <= i < frames ==> (if c < planes@.len() && planes@[c] is Some {
                call_ensures(*scale, ((planes@[c]->0)@[i],), buffer@[c * frames + i])
            } else {
                buffer@[c * frames + i] == silence
            }),
{
    let mut buffer: Vec<T> = Vec::new();
    let mut c: usize = 0;
    while c < channels
        invariant
            c <= channels,
            channels * frames <= usize::MAX,
            full_planes(frames as int, planes@),
            forall|sample: T| call_requires(*scale, (sample,)),
            scaled_planes(c as int, frames as int, planes@, silence, *scale, buffer@),
        decreases channels - c,
    {
        let ghost done = buffer@;
        let plane: Option<&[T]> = if c < planes.len() {
            planes[c]
        } else {
            None
        };
        let mut i: usize = 0;
        while i < frames
            invariant
                i <= frames,
                c < channels,
                done.len() == c * frames,
                buffer@.len() == c * frames + i,
                buffer@.take(done.len() as int) == done,
                forall|sample: T| call_requires(*scale, (sample,)),
                plane == (if c < planes@.len() {
                    planes@[c as int]
                } else {
                    None
                }),
                plane is Some ==> plane->0@.len() == frames,
                forall|k: int|
                    0 <= k < i ==> (if plane is Some {
                        call_ensures(*scale, (plane->0@[k],), #[trigger] buffer@[done.len() + k])
                    } else {
                        buffer@[done.len() + k] == silence
                    }),
            decreases frames - i,
        {
            let ghost before = buffer@;
            let sample = match plane {
                Some(samples) => scale(samples[i]),
                None => silence,
            };
            buffer.push(sample);
            i = i + 1;
            assert(buffer@.take(done.len() as int) =~= done);
            assert(forall|m: int| 0 <= m < before.len() ==> buffer@[m] == before[m]);
        }
        proof {
            let n = frames as int;
            assert((c + 1) * n == c * n + n) by (nonlinear_arith);
            assert forall|cc: int, k: int|
                #![trigger buffer@[cc * n + k]]
                0 <= cc < c + 1 && 0 <= k < n implies (if cc < planes@.len() && planes@[cc] is Some {
                call_ensures(*scale, (planes@[cc]->0@[k],), buffer@[cc * n + k])
            } else {
                buffer@[cc * n + k] == silence
            }) by {
                if cc < c {
                    assert(cc * n + k < c * n && cc * n + k >= 0) by (nonlinear_arith)
                        requires
                            0 <= cc < c,
                            0 <= k < n,
                    ;
                    assert(buffer@[cc * n + k] == done[cc * n + k]);
                } else {
                    assert(cc * n + k == done.len() + k);
                    assert(buffer@[done.len() + k] == buffer@[cc * n + k]);
                }
            }
        }
        c = c + 1;
    }
    buffer
}

/// The running totals of `parts`: `zero` first, then each part added to the
/// total before it.
pub open spec fn running<T, F: Fn(T, T) -> T>(plus: F, zero: T, parts: Seq<T>, totals: Seq<T>) -> bool {
    &&& totals.len() == parts.len() + 1
    &&& totals[0] == zero
    &&& forall|j: int|
        0 <= j < parts.len() ==> call_ensures(plus, (totals[j], #[trigger] parts[j]), totals[j + 1])
}

/// `total` is what `plus` gives for `zero` and the parts, added one after
/// the other.
pub open spec fn adds_up<T, F: Fn(T, T) -> T>(plus: F, zero: T, parts: Seq<T>, total: T) -> bool {
    exists|totals: Seq<T>| #[trigger] running(plus, zero, parts, totals) && totals.last() == total
}

proof fn adds_one_more<T, F: Fn(T, T) -> T>(plus: F, zero: T, parts: Seq<T>, before: T, total: T)
    requires
        parts.len() > 0,
        adds_up(plus, zero, parts.drop_last(), before),
        call_ensures(plus, (before, parts.last()), total),
    ensures
        adds_up(plus, zero, parts, total),
{
    let earlier = choose|totals: Seq<T>|
        #[trigger] running(plus, zero, parts.drop_last(), totals) && totals.last() == before;
    let totals = earlier.push(total);
    assert forall|j: int| 0 <= j < parts.len() implies call_ensures(
        plus,
        (totals[j], #[trigger] parts[j]),
        totals[j + 1],
    ) by {
        if j < parts.len() - 1 {
            assert(parts.drop_last()[j] == parts[j]);
        }
    }
    assert(running(plus, zero, parts, totals));
}

/// The `i`-th sample of each contributor.
pub open spec fn column<T>(contributions: Seq<Vec<T>>, i: int) -> Seq<T> {
    Seq::new(contributions.len(), |j: int| contributions[j]@[i])
}

/// `n` is the length of the shortest contributor.
pub open spec fn shortest<T>(contributions: Seq<Vec<T>>, n: int) -> bool {
    &&& exists|j: int| 0 <= j < contributions.len() && (#[trigger] contributions[j])@.len() == n
    &&& forall|j: int| 0 <= j < contributions.len() ==> n <= (#[trigger] contributions[j])@.len()
}

/// `mixed` is the sum of the contributors, cut to the shortest of them.
pub open spec fn mix_of<T, F: Fn(T, T) -> T>(
    contributions: Seq<Vec<T>>,
    zero: T,
    plus: F,
    mixed: Seq<T>,
) -> bool {
    &&& mixed.len() > 0
    &&& shortest(contributions, mixed.len() as int)
    &&& forall|i: int|
        0 <= i < mixed.len() ==> adds_up(plus, zero, column(contributions, i), #[trigger] mixed[i])
}

proof fn a_total_is_a_fold<T, F: Fn(T, T) -> T>(
    plus: F,
    zero: T,
    parts: Seq<T>,
    totals: Seq<T>,
    sum: spec_fn(T, T) -> T,
)
    requires
        running(plus, zero, parts, totals),
        forall|a: T, b: T, out: T| #[trigger] call_ensures(plus, (a, b), out) ==> out == sum(a, b),
    ensures
        totals.last() == parts.fold_left(zero, sum),
    decreases parts.len(),
{
    if parts.len() > 0 {
        let rest = parts.drop_last();
        let before = totals.drop_last();
        assert forall|j: int| 0 <= j < rest.len() implies call_ensures(
            plus,
            (before[j], #[trigger] rest[j]),
            before[j + 1],
        ) by {
            assert(rest[j] == parts[j]);
        }
        a_total_is_a_fold(plus, zero, rest, before, sum);
        let k = parts.len() - 1;
        assert(parts[k] == parts.last());
        assert(call_ensures(plus, (totals[k], parts[k]), totals[k + 1]));
    }
}

/// Where adding is a function, every sample of a mix is the sum of all the
/// contributors' samples at its place, added to silence one after the other,
/// and the mix is as long as the shortest contributor.
pub proof fn a_mix_is_the_sum_of_its_parts<T, F: Fn(T, T) -> T>(
    contributions: Seq<Vec<T>>,
    zero: T,
    plus: F,
    mixed: Seq<T>,
    sum: spec_fn(T, T) -> T,
)
    requires
        mix_of(contributions, zero, plus, mixed),
        forall|a: T, b: T, out: T| #[trigger] call_ensures(plus, (a, b), out) ==> out == sum(a, b),
    ensures
        forall|j: int| 0 <= j < contributions.len() ==> mixed.len() <= (#[trigger] contributions[j])@.len(),
        exists|j: int| 0 <= j < contributions.len() && (#[trigger] contributions[j])@.len() == mixed.len(),
        forall|i: int|
            0 <= i < mixed.len() ==> #[trigger] mixed[i] == Seq::new(
                contributions.len(),
                |j: int| contributions[j]@[i],
            ).fold_left(zero, sum),
{
    assert forall|i: int| 0 <= i < mixed.len() implies #[trigger] mixed[i] == Seq::new(
        contributions.len(),
        |j: int| contributions[j]@[i],
    ).fold_left(zero, sum) by {
        let parts = column(contributions, i);
        let totals = choose|totals: Seq<T>| #[trigger] running(plus, zero, parts, totals) && totals.last() == mixed[i];
        a_total_is_a_fold(plus, zero, parts, totals, sum);
        assert(parts =~= Seq::new(contributions.len(), |j: int| contributions[j]@[i]));
    }
}

/// Sums the contributors sample by sample, cut to the shortest of them.
/// `None` where nothing contributed or the shortest contributor is empty.
pub fn sum_contributions<T: Copy, F: Fn(T, T) -> T>(
    contributions: &Vec<Vec<T>>,
    zero: T,
    plus: &F,
) -> (mixed: Option<Vec<T>>)
    requires
        forall|a: T, b: T| call_requires(*plus, (a, b)),
    ensures
        match mixed {
            Some(samples) => mix_of(contributions@, zero, *plus, samples@),
            None => contributions@.len() == 0 || shortest(contributions@, 0),
        },
        mixed is None <==> contributions@.len() == 0 || exists|j: int|
            0 <= j < contributions@.len() && (#[trigger] contributions@[j])@.len() == 0,
{
    if contributions.len() == 0 {
        return None;
    }
    let mut frames: usize = contributions[0].len();
    let mut j: usize = 1;
    assert(contributions@[0]@.len() == frames);
    while j < contributions.len()
        invariant
            1 <= j <= contributions@.len(),
            exists|k: int| 0 <= k < j && (#[trigger] contributions@[k])@.len() == frames,
            forall|k: int| 0 <= k < j ==> frames <= (#[trigger] contributions@[k])@.len(),
        decreases contributions@.len() - j,
    {
        let n: usize = contributions[j].len();
        if n < frames {
            frames = n;
            assert(contributions@[j as int]@.len() == frames);
        }
        j = j + 1;
    }
    assert(shortest(contributions@, frames as int));
    if frames == 0 {
        return None;
    }
    let mut mixed: Vec<T> = Vec::new();
    let mut filled: usize = 0;
    while filled < frames
        invariant
            filled <= frames,
            mixed@.len() == filled,
            forall|i: int| 0 <= i < filled ==> mixed@[i] == zero,
        decreases frames - filled,
    {
        mixed.push(zero);
        filled = filled + 1;
    }
    let mut k: usize = 0;
    assert forall|i: int| 0 <= i < frames implies adds_up(
        *plus,
        zero,
        column(contributions@, i).take(0),
        #[trigger] mixed@[i],
    ) by {
        assert(running(*plus, zero, column(contributions@, i).take(0), seq![zero]));
    }
    while k < contributions.len()
        invariant
            k <= contributions@.len(),
            mixed@.len() == frames,
            shortest(contributions@, frames as int),
            forall|a: T, b: T| call_requires(*plus, (a, b)),
            forall|i: int|
                0 <= i < frames ==> adds_up(
                    *plus,
                    zero,
                    column(contributions@, i).take(k as int),
                    #[trigger] mixed@[i],
                ),
        decreases contributions@.len() - k,
    {
        let ghost before = mixed@;
        let mut i: usize = 0;
        while i < frames
            invariant
                i <= frames,
                k < contributions@.len(),
                mixed@.len() == frames,
                frames <= contributions@[k as int]@.len(),
                forall|a: T, b: T| call_requires(*plus, (a, b)),
                before.len() == frames,
                forall|n: int| i <= n < frames ==> mixed@[n] == before[n],
                forall|n: int|
                    0 <= n < i ==> call_ensures(
                        *plus,
                        (before[n], contributions@[k as int]@[n]),
                        #[trigger] mixed@[n],
                    ),
            decreases frames - i,
        {
            let sum = plus(mixed[i], contributions[k][i]);
            mixed.set(i, sum);
            i = i + 1;
        }
        proof {
            assert forall|n: int| 0 <= n < frames implies adds_up(
                *plus,
                zero,
                column(contributions@, n).take(k + 1),
                #[trigger] mixed@[n],
            ) by {
                let parts = column(contributions@, n).take(k + 1);
                assert(parts.drop_last() =~= column(contributions@, n).take(k as int));
                assert(parts.last() == contributions@[k as int]@[n]);
                adds_one_more(*plus, zero, parts, before[n], mixed@[n]);
            }
        }
        k = k + 1;
    }
    proof {
        assert forall|i: int| 0 <= i < frames implies adds_up(
            *plus,
            zero,
            column(contributions@, i),
            #[trigger] mixed@[i],
        ) by {
            assert(column(contributions@, i).take(k as int) =~= column(contributions@, i));
        }
    }
    Some(mixed)
}

} // verus!
