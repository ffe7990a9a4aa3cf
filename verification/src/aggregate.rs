//! The two steps of the aggregate: one per sample, and one at the end.

use vstd::prelude::*;
use crate::error::GapfillError;
use crate::model::{Endpoints, Sample, Windows};
use crate::transition::GapfillDeltaTransition;

verus! {

/// Whether a sample at `time` lies in the run: after `lowest_time` and no
/// later than `greatest_time`.
pub open spec fn time_in_range(lowest_time: int, greatest_time: int, time: int) -> bool {
    lowest_time < time <= greatest_time
}

/// What one sample does to a run, over the model. A sample out of range is
/// refused before anything else is looked at. The first sample of a run, which
/// finds no state, sets the run up from the bounds and sizes given with it; a
/// later one leaves them unread.
pub open spec fn spec_transition<V>(
    state: Option<Windows<V>>,
    lowest_time: int,
    greatest_time: int,
    step_size: int,
    window_size: int,
    sample: Sample<V>,
) -> Result<Windows<V>, GapfillError> {
    if !time_in_range(lowest_time, greatest_time, sample.time as int) {
        Err(GapfillError::TimestampOutOfRange)
    } else {
        match state {
            Some(run) => Ok(run.with_sample(sample)),
            None => if step_size > 0 && window_size > 0 {
                Ok(Windows::initial(greatest_time, step_size, window_size).with_sample(sample))
            } else {
                Err(GapfillError::Configuration)
            },
        }
    }
}

/// The model of a state that may not be there yet.
pub open spec fn view_of<V>(state: Option<GapfillDeltaTransition<V>>) -> Option<Windows<V>> {
    match state {
        Some(run) => Some(run@),
        None => None,
    }
}

/// Takes one sample of a run. `state` is what the previous call returned, or
/// `None` for the first sample, which sets the run up. Times are in
/// microseconds, `step_size` and `window_size` in seconds.
pub fn gapfill_delta_transition<V: Copy>(
    state: Option<GapfillDeltaTransition<V>>,
    lowest_time: i64,
    greatest_time: i64,
    step_size: i64,
    window_size: i64,
    time: i64,
    val: V,
) -> (next: Result<GapfillDeltaTransition<V>, GapfillError>)
    requires
        state matches Some(run) ==> run.wf(),
    ensures
        match next {
            Ok(run) => run.wf() && spec_transition(
                view_of(state),
                lowest_time as int,
                greatest_time as int,
                step_size as int,
                window_size as int,
                Sample { time, value: val },
            ) == Ok::<Windows<V>, GapfillError>(run@),
            Err(e) => spec_transition(
                view_of(state),
                lowest_time as int,
                greatest_time as int,
                step_size as int,
                window_size as int,
                Sample { time, value: val },
            ) == Err::<Windows<V>, GapfillError>(e),
        },
{
    if time <= lowest_time || time > greatest_time {
        return Err(GapfillError::TimestampOutOfRange);
    }
    let mut run = match state {
        Some(run) => run,
        None => match GapfillDeltaTransition::new(lowest_time, greatest_time, step_size, window_size) {
            Ok(run) => run,
            Err(e) => {
                return Err(e);
            },
        },
    };
    run.add_data_point(time, val);
    Ok(run)
}

/// Ends a run and hands out one entry per window, in the order in which the
/// windows were closed: from the latest window back. A run that took no sample
/// has no state and yields nothing.
pub fn gapfill_delta_final<V: Copy>(state: Option<GapfillDeltaTransition<V>>) -> (entries: Option<
    Vec<Option<Endpoints<V>>>,
>)
    requires
        state matches Some(run) ==> run.wf(),
    ensures
        match state {
            Some(run) => entries matches Some(all) && all@ == run@.finish().results,
            None => entries is None,
        },
{
    match state {
        Some(run) => {
            let mut run = run;
            Some(run.to_pg_array())
        },
        None => None,
    }
}

} // verus!
