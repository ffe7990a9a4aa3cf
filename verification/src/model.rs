//! The mathematical model: samples, windows and the effect of each step.

use vstd::prelude::*;

verus! {

/// One observation: a time in microseconds and the value seen at that time.
#[derive(Debug, PartialEq)]
pub struct Sample<V> {
    pub time: i64,
    pub value: V,
}

impl<V: Copy> Clone for Sample<V> {
    fn clone(&self) -> (copy: Self)
        ensures
            copy == *self,
    {
        *self
    }
}

impl<V: Copy> Copy for Sample<V> {

}

/// The two values between which the delta of a window is taken: the delta is
/// `first` minus `last`.
#[derive(Debug, PartialEq)]
pub struct Endpoints<V> {
    pub first: V,
    pub last: V,
}

impl<V: Copy> Clone for Endpoints<V> {
    fn clone(&self) -> (copy: Self)
        ensures
            copy == *self,
    {
        *self
    }
}

impl<V: Copy> Copy for Endpoints<V> {

}

/// Microseconds in one second.
pub const USECS_PER_SEC: i128 = 1_000_000;

/// A number of seconds as microseconds.
pub open spec fn usec(seconds: int) -> int {
    seconds * 1_000_000
}

/// What a window yields from the samples buffered for it, in arrival order:
/// the first and the last of them where there are two or more, else nothing.
pub open spec fn window_entry<V>(buffer: Seq<Sample<V>>) -> Option<Endpoints<V>> {
    if buffer.len() >= 2 {
        Some(Endpoints { first: buffer.first().value, last: buffer.last().value })
    } else {
        None
    }
}

/// The buffer without its leading samples that are later than `max`: samples
/// leave from the front until one is at or before `max`.
pub open spec fn drop_stale<V>(buffer: Seq<Sample<V>>, max: int) -> Seq<Sample<V>>
    decreases buffer.len(),
{
    if buffer.len() > 0 && buffer.first().time > max {
        drop_stale(buffer.drop_first(), max)
    } else {
        buffer
    }
}

/// The state of a run: the live window, what is buffered for it, and what the
/// windows before it have yielded.
pub struct Windows<V> {
    /// Samples buffered for the live window, in arrival order.
    pub buffer: Seq<Sample<V>>,
    /// One entry for each window that was closed, in the order of closing.
    pub results: Seq<Option<Endpoints<V>>>,
    /// The live window is the interval from `window_min`, exclusive, to
    /// `window_max`, inclusive.
    pub window_max: int,
    pub window_min: int,
    /// How far each closing moves the window back, in microseconds.
    pub step: int,
    /// The greatest time of the run: the upper bound of its first window.
    pub origin: int,
}

/// The lowest value that `window_min` takes while samples are still accepted.
pub open spec fn cursor_floor() -> int {
    i64::MIN - usec(i64::MAX as int)
}

impl<V> Windows<V> {
    /// The state of a fresh run that ends at `greatest_time`, with step and
    /// window sizes in seconds.
    pub open spec fn initial(greatest_time: int, step_size: int, window_size: int) -> Self {
        Windows {
            buffer: Seq::empty(),
            results: Seq::empty(),
            window_max: greatest_time,
            window_min: greatest_time - usec(window_size),
            step: usec(step_size),
            origin: greatest_time,
        }
    }

    /// The width of the live window.
    pub open spec fn window_size(self) -> int {
        self.window_max - self.window_min
    }

    /// What holds of every state that still accepts samples: step and window
    /// are positive, the window has moved back one step for each entry, the
    /// cursors are within the range that the representation keeps, and nothing
    /// buffered is at or below the lower bound.
    pub open spec fn valid(self) -> bool {
        &&& 0 < self.step <= usec(i64::MAX as int)
        &&& 0 < self.window_size() <= usec(i64::MAX as int)
        &&& i64::MIN <= self.origin <= i64::MAX
        &&& self.window_max == self.origin - self.results.len() * self.step
        &&& self.window_min >= cursor_floor()
        &&& self.buffer_above_min()
    }

    /// Every buffered sample is later than the live window's lower bound.
    pub open spec fn buffer_above_min(self) -> bool {
        forall|i: int| 0 <= i < self.buffer.len() ==> (#[trigger] self.buffer[i]).time > self.window_min
    }

    /// Whether `time` falls in the live window or after it, so that a sample
    /// at `time` is buffered without closing a window first.
    pub open spec fn in_current_window(self, time: int) -> bool {
        time > self.window_min
    }

    /// Closing the live window: its entry is appended, the window moves back by
    /// one step, and the buffer loses its leading samples that are later than
    /// the new upper bound.
    pub open spec fn flush(self) -> Self {
        Windows {
            buffer: drop_stale(self.buffer, self.window_max - self.step),
            results: self.results.push(window_entry(self.buffer)),
            window_max: self.window_max - self.step,
            window_min: self.window_min - self.step,
            step: self.step,
            origin: self.origin,
        }
    }

    /// `n` closings in a row.
    pub open spec fn flush_n(self, n: nat) -> Self
        decreases n,
    {
        if n == 0 {
            self
        } else {
            self.flush().flush_n((n - 1) as nat)
        }
    }

    /// How many windows are closed before a sample at `time` is buffered: none
    /// where `time` is above the lower bound, else as many steps as it takes to
    /// bring the lower bound below `time`.
    pub open spec fn flushes_before(self, time: int) -> nat {
        if time > self.window_min || self.step <= 0 {
            0
        } else {
            ((self.window_min - time) / self.step + 1) as nat
        }
    }

    /// The state after a sample has arrived: windows are closed until the
    /// sample's time is above the lower bound, then the sample joins the back
    /// of the buffer.
    pub open spec fn with_sample(self, sample: Sample<V>) -> Self {
        let swept = self.flush_n(self.flushes_before(sample.time as int));
        Windows { buffer: swept.buffer.push(sample), ..swept }
    }

    /// The state after each of `samples` has arrived, in order.
    pub open spec fn run(self, samples: Seq<Sample<V>>) -> Self
        decreases samples.len(),
    {
        if samples.len() == 0 {
            self
        } else {
            self.run(samples.drop_last()).with_sample(samples.last())
        }
    }

    /// The state after the run has ended: the live window is closed too.
    pub open spec fn finish(self) -> Self {
        self.flush()
    }
}

} // verus!
