//! The accumulator that turns a stream of samples into one entry per window.

use std::collections::VecDeque;
use vstd::prelude::*;
use crate::error::GapfillError;
use crate::laws::{lemma_flush_counts_down, lemma_flush_keeps_valid, lemma_flush_n_then_flush};
use crate::model::{Endpoints, Sample, Windows, USECS_PER_SEC, drop_stale, usec};

verus! {

/// Whether a run can be set up with these bounds and sizes.
pub open spec fn config_ok(
    lowest_time: int,
    greatest_time: int,
    step_size: int,
    window_size: int,
) -> bool {
    greatest_time > lowest_time && step_size > 0 && window_size > 0
}

/// The accumulator of one run. It buffers the samples of the live window and
/// keeps one entry for each window closed so far.
pub struct GapfillDeltaTransition<V> {
    window: VecDeque<Sample<V>>,
    results: Vec<Option<Endpoints<V>>>,
    greatest_time: i64,
    current_window_max: i128,
    current_window_min: i128,
    step_size: i128,
}

impl<V> View for GapfillDeltaTransition<V> {
    type V = Windows<V>;

    closed spec fn view(&self) -> Windows<V> {
        Windows {
            buffer: self.window@,
            results: self.results@,
            window_max: self.current_window_max as int,
            window_min: self.current_window_min as int,
            step: self.step_size as int,
            origin: self.greatest_time as int,
        }
    }
}

impl<V: Copy> GapfillDeltaTransition<V> {
    /// Whether the accumulator still accepts samples.
    pub open spec fn wf(&self) -> bool {
        self@.valid()
    }

    /// Sets up a run over the times after `lowest_time` up to `greatest_time`
    /// (microseconds), with `step_size` and `window_size` in seconds. The first
    /// window ends at `greatest_time`. Fails where a size is not positive or
    /// the bounds are not in order.
    pub fn new(lowest_time: i64, greatest_time: i64, step_size: i64, window_size: i64) -> (made:
        Result<Self, GapfillError>)
        ensures
            match made {
                Ok(state) => {
                    &&& config_ok(
                        lowest_time as int,
                        greatest_time as int,
                        step_size as int,
                        window_size as int,
                    )
                    &&& state.wf()
                    &&& state@ == Windows::<V>::initial(
                        greatest_time as int,
                        step_size as int,
                        window_size as int,
                    )
                },
                Err(e) => {
                    &&& !config_ok(
                        lowest_time as int,
                        greatest_time as int,
                        step_size as int,
                        window_size as int,
                    )
                    &&& e == GapfillError::Configuration
                },
            },
    {
        if greatest_time <= lowest_time || step_size <= 0 || window_size <= 0 {
            return Err(GapfillError::Configuration);
        }
        let step_usec: i128 = (step_size as i128) * USECS_PER_SEC;
        let window_usec: i128 = (window_size as i128) * USECS_PER_SEC;
        let expected: usize = expected_deltas(lowest_time, greatest_time, step_size);
        let state = GapfillDeltaTransition {
            window: VecDeque::new(),
            results: Vec::with_capacity(expected),
            greatest_time,
            current_window_max: greatest_time as i128,
            current_window_min: greatest_time as i128 - window_usec,
            step_size: step_usec,
        };
        Ok(state)
    }

    /// Whether a sample at `time` belongs to the live window or a later time,
    /// so that no window has to be closed before it is buffered.
    fn in_current_window(&self, time: i64) -> (inside: bool)
        ensures
            inside == self@.in_current_window(time as int),
    {
        time as i128 > self.current_window_min
    }

    /// Whether the sample at the front of the buffer is later than the live
    /// window's upper bound.
    fn front_is_stale(&self) -> (stale: bool)
        ensures
            stale == (self@.buffer.len() > 0 && self@.buffer.first().time > self@.window_max),
    {
        self.window.len() > 0 && self.window[0].time as i128 > self.current_window_max
    }

    /// Closes the live window: appends its entry, moves the window back by one
    /// step and drops the leading samples that are later than the new window.
    fn flush_current_window(&mut self)
        requires
            old(self).wf(),
        ensures
            final(self)@ == old(self)@.flush(),
    {
        let buffered: usize = self.window.len();
        let entry = if buffered >= 2 {
            Some(Endpoints { first: self.window[0].value, last: self.window[buffered - 1].value })
        } else {
            None
        };
        self.results.push(entry);
        self.current_window_min = self.current_window_min - self.step_size;
        self.current_window_max = self.current_window_max - self.step_size;
        while self.front_is_stale()
            invariant
                self.results@ == old(self)@.flush().results,
                self.current_window_max == old(self)@.flush().window_max,
                self.current_window_min == old(self)@.flush().window_min,
                self.step_size == old(self).step_size,
                self.greatest_time == old(self).greatest_time,
                drop_stale(self.window@, self.current_window_max as int) == old(self)@.flush().buffer,
            decreases self.window@.len(),
        {
            self.window.pop_front();
        }
    }

    /// Takes one sample. Windows are closed, one entry each, until `time` is
    /// above the live window's lower bound; then the sample joins the back of
    /// the buffer.
    pub fn add_data_point(&mut self, time: i64, val: V)
        requires
            old(self).wf(),
        ensures
            final(self).wf(),
            final(self)@ == old(self)@.with_sample(Sample { time, value: val }),
    {
        let ghost closed: nat = 0;
        while !self.in_current_window(time)
            invariant
                self.wf(),
                self@ == old(self)@.flush_n(closed),
                closed + self@.flushes_before(time as int) == old(self)@.flushes_before(time as int),
            decreases self@.flushes_before(time as int),
        {
            proof {
                lemma_flush_n_then_flush(old(self)@, closed);
                lemma_flush_keeps_valid(self@, time as int);
                lemma_flush_counts_down(self@, time as int);
                closed = closed + 1;
            }
            self.flush_current_window();
        }
        let ghost swept = self@;
        self.window.push_back(Sample { time, value: val });
        proof {
            assert forall|i: int| 0 <= i < self@.buffer.len() implies (#[trigger] self@.buffer[i]).time
                > self@.window_min by {
                if i < swept.buffer.len() {
                    assert(self@.buffer[i] == swept.buffer[i]);
                }
            }
        }
    }

    /// Ends the run: closes the live window and hands out the entries of all
    /// windows, in the order in which they were closed. The accumulator takes
    /// no samples afterwards.
    pub fn to_pg_array(&mut self) -> (entries: Vec<Option<Endpoints<V>>>)
        requires
            old(self).wf(),
        ensures
            final(self)@ == old(self)@.finish(),
            entries@ == final(self)@.results,
            entries@.len() == old(self)@.results.len() + 1,
            final(self)@.window_max == final(self)@.origin - entries@.len() * final(self)@.step,
    {
        proof {
            let n = self@.results.len() as int;
            assert((n + 1) * self@.step == n * self@.step + self@.step) by (nonlinear_arith);
        }
        self.flush_current_window();
        let count: usize = self.results.len();
        let mut entries: Vec<Option<Endpoints<V>>> = Vec::with_capacity(count);
        let mut i: usize = 0;
        while i < count
            invariant
                count == self.results@.len(),
                i <= count,
                entries@ == self.results@.take(i as int),
            decreases count - i,
        {
            entries.push(self.results[i]);
            i = i + 1;
            assert(self.results@.take(i as int) == self.results@.take(i - 1).push(
                self.results@[i - 1],
            ));
        }
        assert(self.results@.take(count as int) == self.results@);
        entries
    }
}

/// The number of windows that a run over the times after `lowest_time` up to
/// `greatest_time` is expected to close, with `step_size` in seconds. It is
/// used to size the results ahead; a run may close more. Where the number does
/// not fit the machine's word, nothing is sized ahead.
pub open spec fn spec_expected_deltas(lowest_time: int, greatest_time: int, step_size: int) -> int {
    let estimate = (greatest_time - lowest_time) / usec(step_size) + 1;
    if estimate <= usize::MAX {
        estimate
    } else {
        0
    }
}

/// Computes the number of windows that a run is expected to close.
pub fn expected_deltas(lowest_time: i64, greatest_time: i64, step_size: i64) -> (expected: usize)
    requires
        greatest_time > lowest_time,
        step_size > 0,
    ensures
        expected == spec_expected_deltas(lowest_time as int, greatest_time as int, step_size as int),
{
    let span: i128 = greatest_time as i128 - lowest_time as i128;
    let step_usec: i128 = (step_size as i128) * USECS_PER_SEC;
    let estimate: i128 = span / step_usec + 1;
    if estimate <= usize::MAX as i128 {
        estimate as usize
    } else {
        0
    }
}

} // verus!
