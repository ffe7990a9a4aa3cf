//! What holds of the model, proved once for all runs.

use vstd::prelude::*;
use crate::model::{Endpoints, Sample, Windows, drop_stale, window_entry};

verus! {

/// Closing once more after `n` closings is `n + 1` closings.
pub proof fn lemma_flush_n_then_flush<V>(s: Windows<V>, n: nat)
    ensures
        s.flush_n(n).flush() == s.flush_n(n + 1),
    decreases n,
{
    if n > 0 {
        lemma_flush_n_then_flush(s.flush(), (n - 1) as nat);
        assert(s.flush_n(n + 1) == s.flush().flush_n(n));
    } else {
        assert(s.flush_n(1) == s.flush().flush_n(0));
    }
}

/// What `drop_stale` leaves is the tail of the buffer from the first sample
/// at or before `max` on: shorter by the samples dropped, each of them later
/// than `max`, and in the same order.
pub proof fn lemma_drop_stale_is_tail<V>(buffer: Seq<Sample<V>>, max: int)
    ensures
        drop_stale(buffer, max).len() <= buffer.len(),
        drop_stale(buffer, max) == buffer.skip(buffer.len() - drop_stale(buffer, max).len()),
        drop_stale(buffer, max).len() > 0 ==> drop_stale(buffer, max).first().time <= max,
        forall|i: int|
            0 <= i < buffer.len() - drop_stale(buffer, max).len() ==> (#[trigger] buffer[i]).time
                > max,
    decreases buffer.len(),
{
    if buffer.len() > 0 && buffer.first().time > max {
        let rest = buffer.drop_first();
        lemma_drop_stale_is_tail(rest, max);
        let kept = drop_stale(rest, max);
        assert(rest.skip(rest.len() - kept.len()) == buffer.skip(buffer.len() - kept.len()));
        assert forall|i: int| 0 <= i < buffer.len() - kept.len() implies (#[trigger] buffer[i]).time
            > max by {
            if i > 0 {
                assert(buffer[i] == rest[i - 1]);
            }
        }
    } else {
        assert(buffer.skip(0) == buffer);
    }
}

/// A state that accepts samples still does after a window is closed for a
/// sample at or below its lower bound.
pub proof fn lemma_flush_keeps_valid<V>(s: Windows<V>, time: int)
    requires
        s.valid(),
        i64::MIN <= time <= s.window_min,
    ensures
        s.flush().valid(),
{
    let n = s.results.len() as int;
    assert((n + 1) * s.step == n * s.step + s.step) by (nonlinear_arith);
    lemma_drop_stale_is_tail(s.buffer, s.window_max - s.step);
}

/// Each closing for a sample at or below the lower bound brings the number of
/// closings still due down by one.
pub proof fn lemma_flush_counts_down<V>(s: Windows<V>, time: int)
    requires
        s.step > 0,
        time <= s.window_min,
    ensures
        s.flush().flushes_before(time) + 1 == s.flushes_before(time),
{
    let gap = s.window_min - time;
    let step = s.step;
    if gap < step {
        assert(gap / step == 0) by (nonlinear_arith)
            requires
                0 <= gap < step,
        ;
    } else {
        assert((gap - step) / step == gap / step - 1) by (nonlinear_arith)
            requires
                step > 0,
                gap >= step,
        ;
        assert((gap - step) / step >= 0) by (nonlinear_arith)
            requires
                step > 0,
                gap >= step,
        ;
    }
}

/// Where `n` closings leave the cursors: the window has moved back by `n`
/// steps, its size, the step and the origin are as before, and the results
/// have grown by `n` entries behind those that were there.
pub proof fn lemma_flush_n_cursors<V>(s: Windows<V>, n: nat)
    ensures
        s.flush_n(n).window_min == s.window_min - n * s.step,
        s.flush_n(n).window_max == s.window_max - n * s.step,
        s.flush_n(n).step == s.step,
        s.flush_n(n).origin == s.origin,
        s.flush_n(n).results.len() == s.results.len() + n,
        s.flush_n(n).results.take(s.results.len() as int) == s.results,
    decreases n,
{
    if n > 0 {
        let once = s.flush();
        lemma_flush_n_cursors(once, (n - 1) as nat);
        assert(n * s.step == (n - 1) * s.step + s.step) by (nonlinear_arith);
        let end = s.flush_n(n);
        assert(end.results.take(s.results.len() as int) == end.results.take(
            once.results.len() as int,
        ).take(s.results.len() as int));
        assert(once.results.take(s.results.len() as int) == s.results);
    } else {
        assert(s.results.take(s.results.len() as int) == s.results);
        assert(0 * s.step == 0) by (nonlinear_arith);
    }
}

/// The closings that a sample at `time` calls for lead from a state that
/// accepts samples to one that does, in which `time` is above the lower bound.
pub proof fn lemma_sweep_keeps_valid<V>(s: Windows<V>, time: int)
    requires
        s.valid(),
        i64::MIN <= time,
    ensures
        s.flush_n(s.flushes_before(time)).valid(),
        s.flush_n(s.flushes_before(time)).in_current_window(time),
    decreases s.flushes_before(time),
{
    if time <= s.window_min {
        lemma_flush_keeps_valid(s, time);
        lemma_flush_counts_down(s, time);
        lemma_sweep_keeps_valid(s.flush(), time);
    }
}

/// Taking a sample keeps a state fit to take more, and leaves the window's
/// size, the step and the origin as they were.
pub proof fn lemma_with_sample_keeps_valid<V>(s: Windows<V>, sample: Sample<V>)
    requires
        s.valid(),
    ensures
        s.with_sample(sample).valid(),
        s.with_sample(sample).window_size() == s.window_size(),
        s.with_sample(sample).step == s.step,
        s.with_sample(sample).origin == s.origin,
{
    let time = sample.time as int;
    let swept = s.flush_n(s.flushes_before(time));
    let after = s.with_sample(sample);
    lemma_sweep_keeps_valid(s, time);
    lemma_flush_n_cursors(s, s.flushes_before(time));
    assert forall|i: int| 0 <= i < after.buffer.len() implies (#[trigger] after.buffer[i]).time
        > after.window_min by {
        if i < swept.buffer.len() {
            assert(after.buffer[i] == swept.buffer[i]);
        }
    }
}

/// Whatever samples arrive, in whatever order, the state stays fit to take
/// more: the window keeps its size, and it has moved back by one step for each
/// entry in the results.
pub proof fn lemma_run_keeps_valid<V>(s: Windows<V>, samples: Seq<Sample<V>>)
    requires
        s.valid(),
    ensures
        s.run(samples).valid(),
        s.run(samples).window_size() == s.window_size(),
        s.run(samples).step == s.step,
        s.run(samples).origin == s.origin,
        s.run(samples).results.len() >= s.results.len(),
    decreases samples.len(),
{
    if samples.len() > 0 {
        let before = s.run(samples.drop_last());
        lemma_run_keeps_valid(s, samples.drop_last());
        lemma_with_sample_keeps_valid(before, samples.last());
        lemma_flush_n_cursors(before, before.flushes_before(samples.last().time as int));
    }
}

/// A run that has ended holds at least one entry, and exactly as many entries
/// as the window has been moved back by one step from the origin.
pub proof fn lemma_entries_count_window_shifts<V>(s: Windows<V>, samples: Seq<Sample<V>>)
    requires
        s.valid(),
    ensures
        s.run(samples).finish().results.len() >= 1,
        s.run(samples).finish().window_max == s.origin - s.run(samples).finish().results.len()
            * s.step,
        s.run(samples).finish().window_size() == s.window_size(),
{
    lemma_run_keeps_valid(s, samples);
    let n = s.run(samples).results.len() as int;
    assert((n + 1) * s.step == n * s.step + s.step) by (nonlinear_arith);
}

/// The number of entries depends on the times of the samples alone: two runs
/// that start with the same cursors and as many entries, and take samples at
/// the same times, hold as many entries at every point, whatever the values.
pub proof fn lemma_entry_count_ignores_values<V, W>(
    a: Windows<V>,
    b: Windows<W>,
    xs: Seq<Sample<V>>,
    ys: Seq<Sample<W>>,
)
    requires
        a.window_min == b.window_min,
        a.window_max == b.window_max,
        a.step == b.step,
        a.results.len() == b.results.len(),
        xs.len() == ys.len(),
        forall|i: int| 0 <= i < xs.len() ==> xs[i].time == ys[i].time,
    ensures
        a.run(xs).results.len() == b.run(ys).results.len(),
        a.run(xs).finish().results.len() == b.run(ys).finish().results.len(),
        a.run(xs).window_min == b.run(ys).window_min,
        a.run(xs).window_max == b.run(ys).window_max,
        a.run(xs).step == b.run(ys).step,
    decreases xs.len(),
{
    if xs.len() > 0 {
        lemma_entry_count_ignores_values(a, b, xs.drop_last(), ys.drop_last());
        let pa = a.run(xs.drop_last());
        let pb = b.run(ys.drop_last());
        let time = xs.last().time as int;
        assert(ys.last().time == xs.last().time);
        lemma_flush_n_cursors(pa, pa.flushes_before(time));
        lemma_flush_n_cursors(pb, pb.flushes_before(time));
    }
}

/// `n` entries that hold nothing.
pub open spec fn nulls<V>(n: nat) -> Seq<Option<Endpoints<V>>> {
    Seq::new(n, |i: int| None::<Endpoints<V>>)
}

/// A window yields nothing where it took no sample or one, and the first and
/// the last value in arrival order where it took two or more: samples that all
/// fall in the live window, arriving at an empty buffer, are buffered as they
/// come without closing a window, and closing the window then appends the
/// entry of exactly those samples.
pub proof fn lemma_window_yields_its_samples<V>(s: Windows<V>, samples: Seq<Sample<V>>)
    requires
        s.buffer.len() == 0,
        forall|i: int| 0 <= i < samples.len() ==> s.in_current_window(samples[i].time as int),
    ensures
        s.run(samples).buffer == samples,
        s.run(samples).results == s.results,
        s.run(samples).finish().results == s.results.push(window_entry(samples)),
        samples.len() <= 1 ==> s.run(samples).finish().results.last() is None,
        samples.len() >= 2 ==> s.run(samples).finish().results.last() == Some(
            Endpoints { first: samples.first().value, last: samples.last().value },
        ),
    decreases samples.len(),
{
    if samples.len() > 0 {
        let earlier = samples.drop_last();
        lemma_window_yields_its_samples(s, earlier);
        let before = s.run(earlier);
        assert(s.in_current_window(samples[samples.len() - 1].time as int));
        assert(before.window_min == s.window_min) by {
            lemma_run_in_window_keeps_cursors(s, earlier);
        }
        assert(before.flush_n(0) == before);
        assert(earlier.push(samples.last()) == samples);
    } else {
        assert(s.run(samples).buffer == samples);
    }
}

/// Samples that all fall in the live window move no cursor.
pub proof fn lemma_run_in_window_keeps_cursors<V>(s: Windows<V>, samples: Seq<Sample<V>>)
    requires
        forall|i: int| 0 <= i < samples.len() ==> s.in_current_window(samples[i].time as int),
    ensures
        s.run(samples).window_min == s.window_min,
        s.run(samples).window_max == s.window_max,
        s.run(samples).step == s.step,
        s.run(samples).results == s.results,
        s.run(samples).buffer == s.buffer + samples,
    decreases samples.len(),
{
    if samples.len() > 0 {
        let earlier = samples.drop_last();
        lemma_run_in_window_keeps_cursors(s, earlier);
        let before = s.run(earlier);
        assert(s.in_current_window(samples[samples.len() - 1].time as int));
        assert(before.flush_n(0) == before);
        assert((s.buffer + earlier).push(samples.last()) == s.buffer + samples);
    } else {
        assert(s.buffer + samples == s.buffer);
    }
}

/// Windows that take no sample yield nothing, one entry each: `k` closings
/// that start from an empty buffer append exactly `k` empty entries and leave
/// the buffer empty.
pub proof fn lemma_empty_windows_yield_nulls<V>(s: Windows<V>, k: nat)
    requires
        s.buffer.len() == 0,
    ensures
        s.flush_n(k).results == s.results + nulls::<V>(k),
        s.flush_n(k).buffer.len() == 0,
    decreases k,
{
    if k > 0 {
        let once = s.flush();
        lemma_empty_windows_yield_nulls(once, (k - 1) as nat);
        assert(once.results == s.results.push(None));
        assert(s.results.push(None) + nulls::<V>((k - 1) as nat) == s.results + nulls::<V>(k));
    } else {
        assert(s.results + nulls::<V>(0) == s.results);
    }
}

/// A sample that arrives at an empty buffer, `k` windows below the live one,
/// is preceded by exactly `k` empty entries and is then alone in the buffer.
pub proof fn lemma_gap_yields_nulls<V>(s: Windows<V>, sample: Sample<V>)
    requires
        s.buffer.len() == 0,
    ensures
        s.with_sample(sample).results == s.results + nulls::<V>(
            s.flushes_before(sample.time as int),
        ),
        s.with_sample(sample).buffer == seq![sample],
{
    let k = s.flushes_before(sample.time as int);
    lemma_empty_windows_yield_nulls(s, k);
    assert(s.flush_n(k).buffer.push(sample) == seq![sample]);
}

/// Where the step is no smaller than the window, closing a window leaves
/// nothing buffered: every sample of the closed window is later than the new
/// one.
pub proof fn lemma_flush_clears_buffer<V>(s: Windows<V>)
    requires
        s.buffer_above_min(),
        s.step >= s.window_size(),
    ensures
        s.flush().buffer.len() == 0,
{
    let max = s.window_max - s.step;
    lemma_drop_stale_is_tail(s.buffer, max);
    let kept = drop_stale(s.buffer, max);
    if kept.len() > 0 {
        assert(kept.first() == s.buffer[s.buffer.len() - kept.len()]);
    }
}

/// Where the step is no smaller than the window, a sample that is `k` windows
/// below the live one, with `k` at least one, closes the live window with the
/// entry of what was buffered, then `k - 1` windows with nothing, and is then
/// alone in the buffer.
pub proof fn lemma_skipped_windows_yield_nulls<V>(s: Windows<V>, sample: Sample<V>)
    requires
        s.valid(),
        s.step >= s.window_size(),
        !s.in_current_window(sample.time as int),
    ensures
        s.flushes_before(sample.time as int) >= 1,
        s.with_sample(sample).results == s.results.push(window_entry(s.buffer)) + nulls::<V>(
            (s.flushes_before(sample.time as int) - 1) as nat,
        ),
        s.with_sample(sample).buffer == seq![sample],
{
    let time = sample.time as int;
    let k = s.flushes_before(time);
    assert(k >= 1) by {
        assert((s.window_min - time) / s.step >= 0) by (nonlinear_arith)
            requires
                s.window_min - time >= 0,
                s.step > 0,
        ;
    }
    lemma_flush_clears_buffer(s);
    lemma_empty_windows_yield_nulls(s.flush(), (k - 1) as nat);
    assert(s.flush_n(k) == s.flush().flush_n((k - 1) as nat));
    assert(s.flush_n(k).buffer.push(sample) == seq![sample]);
}

/// The lower bound of a window is exclusive and the upper bound inclusive: a
/// sample at the lower bound closes the live window, whose entry is that of
/// the buffer without the sample; a sample at the upper bound closes nothing
/// and joins the buffer.
pub proof fn lemma_window_bounds<V>(s: Windows<V>, sample: Sample<V>)
    requires
        s.valid(),
    ensures
        sample.time == s.window_min ==> {
            &&& s.flushes_before(sample.time as int) >= 1
            &&& s.with_sample(sample).results.len() >= s.results.len() + 1
            &&& s.with_sample(sample).results[s.results.len() as int] == window_entry(s.buffer)
        },
        sample.time == s.window_max ==> {
            &&& s.flushes_before(sample.time as int) == 0
            &&& s.with_sample(sample).results == s.results
            &&& s.with_sample(sample).buffer == s.buffer.push(sample)
        },
{
    let time = sample.time as int;
    let k = s.flushes_before(time);
    if sample.time == s.window_min {
        assert(k == 1) by {
            assert(0int / s.step == 0) by (nonlinear_arith)
                requires
                    s.step > 0,
            ;
        }
        assert(s.flush_n(1) == s.flush().flush_n(0));
        assert(s.flush().flush_n(0) == s.flush());
    }
    if sample.time == s.window_max {
        assert(s.flush_n(0) == s);
    }
}

/// Every buffered sample is at or before the live window's upper bound.
pub open spec fn buffer_below_max<V>(s: Windows<V>) -> bool {
    forall|i: int| 0 <= i < s.buffer.len() ==> (#[trigger] s.buffer[i]).time <= s.window_max
}

/// No sample is later than the one before it.
pub open spec fn times_descend<V>(samples: Seq<Sample<V>>) -> bool {
    forall|i: int, j: int| 0 <= i <= j < samples.len() ==> samples[i].time >= samples[j].time
}

/// Where the windows tile the time line, step and window being equal, a
/// sample that is no later than the live window keeps the buffer within the
/// live window: below its upper bound, as it is always above the lower.
pub proof fn lemma_buffer_stays_in_window<V>(s: Windows<V>, sample: Sample<V>)
    requires
        s.valid(),
        s.step == s.window_size(),
        buffer_below_max(s),
        sample.time <= s.window_max,
    ensures
        buffer_below_max(s.with_sample(sample)),
        s.with_sample(sample).buffer.last() == sample,
{
    let time = sample.time as int;
    let k = s.flushes_before(time);
    let swept = s.flush_n(k);
    let after = s.with_sample(sample);
    lemma_flush_n_cursors(s, k);
    if k == 0 {
        assert(swept == s);
    } else {
        lemma_skipped_windows_yield_nulls(s, sample);
        let gap = s.window_min - time;
        assert(gap - (gap / s.step) * s.step >= 0) by (nonlinear_arith)
            requires
                gap >= 0,
                s.step > 0,
        ;
        assert(k * s.step == (gap / s.step) * s.step + s.step) by (nonlinear_arith)
            requires
                k == gap / s.step + 1,
        ;
    }
    assert forall|i: int| 0 <= i < after.buffer.len() implies (#[trigger] after.buffer[i]).time
        <= after.window_max by {
        if i < swept.buffer.len() {
            assert(after.buffer[i] == swept.buffer[i]);
        }
    }
}

/// Where the windows tile the time line and the samples of a run come in
/// descending order of time, none of them later than the first window, every
/// buffered sample lies within the live window at every point of the run.
pub proof fn lemma_descending_run_stays_in_window<V>(s: Windows<V>, samples: Seq<Sample<V>>)
    requires
        s.valid(),
        s.step == s.window_size(),
        s.buffer.len() == 0,
        times_descend(samples),
        samples.len() > 0 ==> samples.first().time <= s.window_max,
    ensures
        buffer_below_max(s.run(samples)),
        s.run(samples).buffer_above_min(),
        samples.len() > 0 ==> s.run(samples).buffer.len() > 0 && s.run(samples).buffer.last()
            == samples.last(),
    decreases samples.len(),
{
    lemma_run_keeps_valid(s, samples);
    if samples.len() > 0 {
        let earlier = samples.drop_last();
        let before = s.run(earlier);
        assert(times_descend(earlier)) by {
            assert forall|i: int, j: int| 0 <= i <= j < earlier.len() implies earlier[i].time
                >= earlier[j].time by {
                assert(earlier[i] == samples[i] && earlier[j] == samples[j]);
            }
        }
        if earlier.len() > 0 {
            assert(earlier.first() == samples.first());
        }
        lemma_descending_run_stays_in_window(s, earlier);
        lemma_run_keeps_valid(s, earlier);
        if earlier.len() > 0 {
            assert(earlier.last() == samples[samples.len() - 2]);
            assert(before.buffer[before.buffer.len() - 1].time <= before.window_max);
        }
        lemma_buffer_stays_in_window(before, samples.last());
    }
}

} // verus!
