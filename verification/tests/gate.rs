use std::time::Duration;

use notebot::gate::{is_rate_limited, Next, SendError, SendGate, DURATION_MAX_NANOS};

/// One millisecond, in nanoseconds.
const MS: u128 = 1_000_000;

fn rate_limit_error() -> SendError {
    SendError::Api {
        endpoint: "notes/create".to_string(),
        status: 429,
        message: "notes/create: RATE_LIMIT_EXCEEDED: Rate limit exceeded".to_string(),
    }
}

fn other_error() -> SendError {
    SendError::Api {
        endpoint: "notes/create".to_string(),
        status: 400,
        message: "notes/create: NO_SUCH_NOTE".to_string(),
    }
}

/// Drives one send through the policy with no real waiting: the result
/// handed back and the waits before each retry.
fn run_send<T>(
    gate: &SendGate,
    mut op: impl FnMut() -> Result<T, SendError>,
) -> (Result<T, SendError>, Vec<u128>) {
    let mut state = gate.start();
    let mut waits = Vec::new();
    loop {
        let result = op();
        match gate.after_attempt(&mut state, &result) {
            Next::Retry { wait_nanos } => waits.push(wait_nanos),
            Next::Finish => return (result, waits),
        }
    }
}

#[test]
fn detects_rate_limit() {
    assert!(is_rate_limited(&rate_limit_error()));
    assert!(!is_rate_limited(&other_error()));
    assert!(!is_rate_limited(&SendError::ConnectionClosed));
}

#[test]
fn status_or_code_alone_is_a_rate_limit() {
    let by_status = SendError::Api {
        endpoint: "notes/create".to_string(),
        status: 429,
        message: "slow down".to_string(),
    };
    let by_code = SendError::Api {
        endpoint: "notes/create".to_string(),
        status: 400,
        message: "RATE_LIMIT_EXCEEDED".to_string(),
    };
    assert!(is_rate_limited(&by_status));
    assert!(is_rate_limited(&by_code));
    assert!(!is_rate_limited(&SendError::Other {
        message: "RATE_LIMIT_EXCEEDED".to_string()
    }));
}

#[test]
fn retries_on_rate_limit_then_succeeds() {
    let gate = SendGate::with_backoff(MS * 10, 3);
    let mut attempts = 0u32;
    let (result, waits) = run_send(&gate, || {
        let n = attempts;
        attempts += 1;
        if n < 2 {
            Err(rate_limit_error())
        } else {
            Ok("ok")
        }
    });
    assert_eq!(result.unwrap(), "ok");
    assert_eq!(attempts, 3);
    assert_eq!(waits, vec![MS * 10, MS * 20]);
}

#[test]
fn gives_up_after_max_retries() {
    let gate = SendGate::with_backoff(MS * 10, 2);
    let mut attempts = 0u32;
    let (result, waits): (Result<(), _>, _) = run_send(&gate, || {
        attempts += 1;
        Err(rate_limit_error())
    });
    assert!(is_rate_limited(&result.unwrap_err()));
    assert_eq!(attempts, 3); // the first attempt and two retries
    assert_eq!(waits, vec![MS * 10, MS * 20]);
}

#[test]
fn other_errors_fail_fast() {
    let gate = SendGate::with_backoff(MS * 10, 3);
    let mut attempts = 0u32;
    let (result, waits): (Result<(), _>, _) = run_send(&gate, || {
        attempts += 1;
        Err(other_error())
    });
    assert!(result.is_err());
    assert_eq!(attempts, 1);
    assert!(waits.is_empty());
}

#[test]
fn default_gate_waits_two_seconds_doubling_three_times() {
    let gate = SendGate::new();
    assert_eq!(gate.base_delay_nanos, 2_000 * MS);
    assert_eq!(gate.max_retries, 3);
    let mut attempts = 0u32;
    let (result, waits): (Result<(), _>, _) = run_send(&gate, || {
        attempts += 1;
        Err(rate_limit_error())
    });
    assert!(result.is_err());
    assert_eq!(attempts, 4);
    assert_eq!(waits, vec![2_000 * MS, 4_000 * MS, 8_000 * MS]);
}

#[test]
fn success_is_handed_back_at_once() {
    let gate = SendGate::with_backoff(MS * 10, 3);
    let mut state = gate.start();
    let result: Result<u8, SendError> = Ok(7);
    assert!(!gate.will_retry(&state, &result));
    assert_eq!(gate.after_attempt(&mut state, &result), Next::Finish);
    assert_eq!(state.attempt, 0);
    assert_eq!(state.delay_nanos, MS * 10);
}

#[test]
fn no_retries_means_one_attempt() {
    let gate = SendGate::with_backoff(MS * 10, 0);
    let mut attempts = 0u32;
    let (result, waits): (Result<(), _>, _) = run_send(&gate, || {
        attempts += 1;
        Err(rate_limit_error())
    });
    assert!(result.is_err());
    assert_eq!(attempts, 1);
    assert!(waits.is_empty());
}

#[test]
fn longest_duration_is_the_bound() {
    assert_eq!(Duration::MAX.as_nanos(), DURATION_MAX_NANOS);
}

#[test]
fn delays_may_double_up_to_the_longest_duration() {
    let base = DURATION_MAX_NANOS / 2;
    let gate = SendGate::with_backoff(base, 1);
    let mut state = gate.start();
    let result: Result<(), SendError> = Err(rate_limit_error());
    assert!(gate.will_retry(&state, &result));
    assert_eq!(
        gate.after_attempt(&mut state, &result),
        Next::Retry { wait_nanos: base }
    );
    assert_eq!(state.delay_nanos, 2 * base);
    assert!(2 * base <= Duration::MAX.as_nanos());
}

#[test]
fn sub_millisecond_delays_are_kept() {
    let gate = SendGate::with_backoff(1_500, 2);
    let (result, waits): (Result<(), _>, _) = run_send(&gate, || Err(rate_limit_error()));
    assert!(result.is_err());
    assert_eq!(waits, vec![1_500, 3_000]);
}

#[test]
fn total_wait_is_below_the_base_times_two_to_the_retries() {
    for max_retries in 0..6u32 {
        let gate = SendGate::with_backoff(MS * 7, max_retries);
        let (_, waits): (Result<(), _>, _) = run_send(&gate, || Err(rate_limit_error()));
        let total: u128 = waits.iter().sum();
        assert_eq!(total, MS * 7 * ((1u128 << max_retries) - 1));
        for (j, w) in waits.iter().enumerate() {
            assert_eq!(*w, MS * 7 * (1u128 << j));
        }
    }
}
