use std::str::FromStr;

use croner::errors::CronError;
use croner::Cron;
use notebot::scheduler::{
    step_after_search, Instant, JobStep, Schedule, FIRST_INSTANT_SECS, LAST_INSTANT_SECS,
};

const SECOND: u128 = 1_000_000_000;

fn at(secs: i64, nanos: u32) -> Instant {
    Instant { secs, nanos }
}

fn every(pattern: &str) -> Schedule {
    Schedule {
        cron: Cron::from_str(pattern).unwrap(),
        source: pattern.to_string(),
    }
}

#[test]
fn sleeps_until_the_next_occurrence() {
    match step_after_search(at(1, 0), Ok(at(4, 0))) {
        JobStep::Sleep { wait_nanos } => assert_eq!(wait_nanos, 3 * SECOND),
        JobStep::Stop { .. } => panic!("stopped"),
    }
}

#[test]
fn wait_keeps_the_nanoseconds_of_now() {
    match step_after_search(at(1, 250_000_001), Ok(at(4, 0))) {
        JobStep::Sleep { wait_nanos } => assert_eq!(wait_nanos, 2 * SECOND + 749_999_999),
        JobStep::Stop { .. } => panic!("stopped"),
    }
}

#[test]
fn passed_occurrence_means_no_wait() {
    for next in [at(1, 0), at(0, 999_999_999), at(-5, 0)] {
        match step_after_search(at(1, 0), Ok(next)) {
            JobStep::Sleep { wait_nanos } => assert_eq!(wait_nanos, 0),
            JobStep::Stop { .. } => panic!("stopped"),
        }
    }
}

#[test]
fn widest_wait_does_not_overflow() {
    match step_after_search(at(i64::MIN, 0), Ok(at(i64::MAX, 999_999_999))) {
        JobStep::Sleep { wait_nanos } => {
            assert_eq!(wait_nanos, (u64::MAX as u128) * SECOND + 999_999_999)
        }
        JobStep::Stop { .. } => panic!("stopped"),
    }
}

#[test]
fn failed_search_stops_the_job() {
    match step_after_search(at(1, 0), Err(CronError::TimeSearchLimitExceeded)) {
        JobStep::Stop { error } => {
            assert!(matches!(error, CronError::TimeSearchLimitExceeded))
        }
        JobStep::Sleep { .. } => panic!("slept"),
    }
}

#[test]
fn every_minute_job_waits_at_most_a_minute() {
    let schedule = every("* * * * *");
    for now in [at(0, 0), at(1_700_000_000, 0), at(1_700_000_000, 123_456_789)] {
        match schedule.next_step(now) {
            JobStep::Sleep { wait_nanos } => assert!(0 < wait_nanos && wait_nanos <= 60 * SECOND),
            JobStep::Stop { error } => panic!("stopped: {error}"),
        }
    }
}

#[test]
fn every_second_job_waits_the_rest_of_the_second() {
    match every("* * * * * *").next_step(at(1_700_000_000, 250_000_000)) {
        JobStep::Sleep { wait_nanos } => assert_eq!(wait_nanos, 750_000_000),
        JobStep::Stop { error } => panic!("stopped: {error}"),
    }
}

#[test]
fn search_beyond_the_last_year_stops_the_job() {
    assert!(matches!(
        every("* * * * *").next_step(at(253_402_300_679, 999_000_000)),
        JobStep::Stop { .. }
    ));
}

#[test]
fn clocks_before_1970_are_scheduled() {
    match every("* * * * *").next_step(at(-315_619_200, 0)) {
        JobStep::Sleep { wait_nanos } => assert!(0 < wait_nanos && wait_nanos <= 60 * SECOND),
        JobStep::Stop { error } => panic!("stopped: {error}"),
    }
}

#[test]
fn the_ends_of_the_range_do_not_panic() {
    for pattern in ["* * * * * *", "* * * * *"] {
        for now in [at(FIRST_INSTANT_SECS, 0), at(LAST_INSTANT_SECS, 999_999_999)] {
            if let JobStep::Sleep { wait_nanos } = every(pattern).next_step(now) {
                assert!(0 < wait_nanos);
            }
        }
    }
}
