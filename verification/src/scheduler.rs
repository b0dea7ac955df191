//! The decisions of the cron scheduler. Each job waits for the next time
//! its cron pattern matches (in the local time zone), runs, and waits
//! again; a job whose pattern has no next occurrence stops. The runner
//! that sleeps and calls the handlers asks this module what to do next.

use vstd::prelude::*;
use croner::Cron;
use croner::errors::CronError;

verus! {

#[verifier::external_type_specification]
#[verifier::external_body]
pub struct ExCron(Cron);

#[verifier::external_type_specification]
#[verifier::external_body]
pub struct ExCronError(CronError);

/// An instant: whole seconds since the Unix epoch and the nanoseconds past
/// them, as chrono's `timestamp` and `timestamp_subsec_nanos` give them.
#[derive(Debug, Clone, Copy, PartialEq, Eq, Structural)]
pub struct Instant {
    pub secs: i64,
    pub nanos: u32,
}

/// The instant in nanoseconds since the Unix epoch.
pub open spec fn epoch_nanos(t: Instant) -> int {
    t.secs * 1_000_000_000 + t.nanos
}

/// An instant with its nanoseconds under a second (no leap second).
pub open spec fn is_plain(t: Instant) -> bool {
    t.nanos < 1_000_000_000
}

/// The first second handed to the cron search, since the Unix epoch: a day
/// after the first instant chrono can hold (the start of the year -262143),
/// so that no local offset takes the local time out of chrono's range,
/// where chrono panics.
pub const FIRST_INSTANT_SECS: i64 = -8_334_601_228_800;

/// The last second handed to the cron search, since the Unix epoch: a day
/// before the last instant chrono can hold (the end of the year 262142),
/// for the same reason.
pub const LAST_INSTANT_SECS: i64 = 8_210_266_790_399;

/// A scheduled job as the scheduler sees it: its parsed pattern and the
/// pattern's text, which the runner logs.
pub struct Schedule {
    pub cron: Cron,
    pub source: String,
}

/// What a job does next.
#[derive(Debug)]
pub enum JobStep {
    /// Sleep this many nanoseconds, then run the handler.
    Sleep { wait_nanos: u128 },
    /// The pattern has no next occurrence: the job ends.
    Stop { error: CronError },
}

/// Calls croner's `Cron::find_next_occurrence` on the local time of the
/// instant `now` (chrono's `DateTime::from_timestamp`), not inclusive, and
/// gives the occurrence back as an instant. croner documents that a search
/// that does not include its start considers only later times, and it
/// builds every occurrence from a wall-clock time of whole seconds (no leap
/// second); that is all that is claimed of the result, which also depends
/// on the machine's time zone.
#[verifier::external_body]
fn next_occurrence(cron: &Cron, now: Instant) -> (r: Result<Instant, CronError>)
    requires
        FIRST_INSTANT_SECS <= now.secs <= LAST_INSTANT_SECS,
        is_plain(now),
    ensures
        r matches Ok(next) ==> is_plain(next) && epoch_nanos(next) > epoch_nanos(now),
{
    let start = chrono::DateTime::from_timestamp(now.secs, now.nanos).unwrap().with_timezone(
        &chrono::Local,
    );
    match cron.find_next_occurrence(&start, false) {
        Ok(next) => Ok(Instant { secs: next.timestamp(), nanos: next.timestamp_subsec_nanos() }),
        Err(e) => Err(e),
    }
}

/// The time from `now` to `next` in nanoseconds, or zero where `next` has
/// passed: what chrono's `(next - now).to_std()` gives, or its default.
pub open spec fn wait_between(now: Instant, next: Instant) -> int {
    if epoch_nanos(next) > epoch_nanos(now) {
        epoch_nanos(next) - epoch_nanos(now)
    } else {
        0
    }
}

/// The step that follows a search that gave `next`.
pub open spec fn step_for(now: Instant, next: Result<Instant, CronError>) -> JobStep {
    match next {
        Ok(t) => JobStep::Sleep { wait_nanos: wait_between(now, t) as u128 },
        Err(error) => JobStep::Stop { error },
    }
}

/// The step that follows the search for the next occurrence: sleep until
/// the occurrence (not at all if it has passed), or stop where the search
/// failed.
pub fn step_after_search(now: Instant, next: Result<Instant, CronError>) -> (step: JobStep)
    requires
        is_plain(now),
        next matches Ok(t) ==> is_plain(t),
    ensures
        match next {
            Ok(t) => step == (JobStep::Sleep { wait_nanos: wait_between(now, t) as u128 }),
            Err(error) => step == (JobStep::Stop { error }),
        },
        step matches JobStep::Sleep { wait_nanos } ==> next matches Ok(t) && wait_nanos
            == wait_between(now, t),
        step == step_for(now, next),
{
    match next {
        Ok(t) => {
            let diff: i128 = (t.secs as i128 - now.secs as i128) * 1_000_000_000 + (t.nanos as i128
                - now.nanos as i128);
            assert(diff == epoch_nanos(t) - epoch_nanos(now)) by (nonlinear_arith)
                requires
                    diff == (t.secs - now.secs) * 1_000_000_000 + (t.nanos - now.nanos),
            ;
            let wait_nanos: u128 = if diff > 0 {
                diff as u128
            } else {
                0
            };
            JobStep::Sleep { wait_nanos }
        },
        Err(error) => JobStep::Stop { error },
    }
}

impl Schedule {
    /// What the job does at `now`: sleep until the next occurrence of its
    /// pattern, which lies ahead, or stop where there is none. Which
    /// occurrence croner finds depends on the machine's time zone, so the
    /// step is stated for whatever the search gave: it is `step_for` of a
    /// search result whose occurrence, if any, comes after `now`.
    pub fn next_step(&self, now: Instant) -> (step: JobStep)
        requires
            FIRST_INSTANT_SECS <= now.secs <= LAST_INSTANT_SECS,
            is_plain(now),
        ensures
            step matches JobStep::Sleep { wait_nanos } ==> wait_nanos > 0,
            exists|next: Result<Instant, CronError>|
                (next matches Ok(t) ==> is_plain(t) && epoch_nanos(t) > epoch_nanos(now)) && step
                    == #[trigger] step_for(now, next),
    {
        let next = next_occurrence(&self.cron, now);
        let step = step_after_search(now, next);
        assert(step == step_for(now, next));
        step
    }
}

} // verus!
