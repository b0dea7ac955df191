//! The retry policy of the send gate: sends are made one at a time, and a
//! send that the server refuses with a rate limit (`RATE_LIMIT_EXCEEDED`,
//! HTTP 429) is made again after an exponentially growing delay. Other
//! errors are returned at once.
//!
//! After each attempt, this policy tells whether to try again and how long
//! to wait first; the caller holds the lock, waits and calls again.

use vstd::prelude::*;
use vstd::arithmetic::power2::pow2;
use crate::text::{contains_str, occurs_in};

verus! {

/// Why a send failed, as the API client reports it.
#[derive(Debug, Clone)]
pub enum SendError {
    /// The server answered with an error. Misskey's error code is folded
    /// into `message`.
    Api { endpoint: String, status: u16, message: String },
    /// The connection closed before an answer came.
    ConnectionClosed,
    /// Any other failure.
    Other { message: String },
}

/// The error code with which Misskey refuses a request over its rate limit.
pub open spec fn rate_limit_code() -> Seq<char> {
    seq!['R', 'A', 'T', 'E', '_', 'L', 'I', 'M', 'I', 'T', '_', 'E', 'X', 'C', 'E', 'E', 'D', 'E', 'D']
}

/// A failure is a rate limit when the server answered 429 or named the
/// rate-limit error code in its message.
pub open spec fn rate_limited(e: SendError) -> bool {
    match e {
        SendError::Api { status, message, .. } => status == 429 || occurs_in(
            rate_limit_code(),
            message@,
        ),
        _ => false,
    }
}

/// Whether `e` is a rate-limit refusal.
pub fn is_rate_limited(e: &SendError) -> (b: bool)
    ensures
        b == rate_limited(*e),
{
    match e {
        SendError::Api { status, message, .. } => {
            let code = "RATE_LIMIT_EXCEEDED";
            proof {
                reveal_strlit("RATE_LIMIT_EXCEEDED");
                assert(code@ =~= rate_limit_code());
            }
            *status == 429 || contains_str(message.as_str(), code)
        },
        _ => false,
    }
}

/// The longest `std::time::Duration`, in nanoseconds: `u64::MAX` seconds
/// and 999,999,999 nanoseconds.
pub const DURATION_MAX_NANOS: u128 = 18_446_744_073_709_551_615_999_999_999;

/// The retry policy: the delay before the first retry, in nanoseconds, and
/// the number of retries after the first attempt.
pub struct SendGate {
    pub base_delay_nanos: u128,
    pub max_retries: u32,
}

/// Where one send stands: the retries made so far and the delay before the
/// next one, in nanoseconds.
pub struct Backoff {
    pub attempt: u32,
    pub delay_nanos: u128,
}

/// What to do after an attempt.
#[derive(Debug, Clone, Copy, PartialEq, Eq, Structural)]
pub enum Next {
    /// Wait this many nanoseconds, then make the send again.
    Retry { wait_nanos: u128 },
    /// Hand the attempt's result back to the caller.
    Finish,
}

/// Whether an attempt with this result is followed by a retry.
pub open spec fn retries<T>(max_retries: u32, attempt: u32, result: Result<T, SendError>) -> bool {
    &&& result is Err
    &&& rate_limited(result->Err_0)
    &&& attempt < max_retries
}

/// A rate-limit refusal.
pub open spec fn is_rate_limit_failure<T>(result: Result<T, SendError>) -> bool {
    result is Err && rate_limited(result->Err_0)
}

/// How many attempts a send makes, from a state with `attempt` retries made,
/// when its attempts give `results` in turn.
pub open spec fn calls_made<T>(max_retries: u32, attempt: u32, results: Seq<Result<T, SendError>>) -> nat
    decreases results.len(),
{
    if results.len() == 0 {
        0
    } else if retries(max_retries, attempt, results[0]) {
        1 + calls_made(max_retries, (attempt + 1) as u32, results.drop_first())
    } else {
        1
    }
}

/// A send whose every attempt is refused with a rate limit gives up after
/// the first attempt and `max_retries` retries.
pub proof fn lemma_rate_limits_exhaust_retries<T>(
    max_retries: u32,
    attempt: u32,
    results: Seq<Result<T, SendError>>,
)
    requires
        attempt <= max_retries,
        results.len() > max_retries - attempt,
        forall|i: int| 0 <= i < results.len() ==> is_rate_limit_failure(#[trigger] results[i]),
    ensures
        calls_made(max_retries, attempt, results) == max_retries - attempt + 1,
    decreases results.len(),
{
    assert(is_rate_limit_failure(results[0]));
    if attempt < max_retries {
        assert forall|i: int| 0 <= i < results.drop_first().len() implies is_rate_limit_failure(
            #[trigger] results.drop_first()[i],
        ) by {
            assert(results.drop_first()[i] == results[i + 1]);
        }
        lemma_rate_limits_exhaust_retries(max_retries, (attempt + 1) as u32, results.drop_first());
    }
}

/// A send stops at the first attempt that is not refused with a rate limit
/// (a success or another error), as long as retries are left: after `k`
/// refusals it has made `k + 1` attempts.
pub proof fn lemma_send_stops_at_first_other_result<T>(
    max_retries: u32,
    attempt: u32,
    results: Seq<Result<T, SendError>>,
    k: nat,
)
    requires
        attempt + k <= max_retries,
        k < results.len(),
        forall|i: int| 0 <= i < k ==> is_rate_limit_failure(#[trigger] results[i]),
        !is_rate_limit_failure(results[k as int]),
    ensures
        calls_made(max_retries, attempt, results) == k + 1,
    decreases k,
{
    if k > 0 {
        assert(is_rate_limit_failure(results[0]));
        assert forall|i: int| 0 <= i < k - 1 implies is_rate_limit_failure(
            #[trigger] results.drop_first()[i],
        ) by {
            assert(results.drop_first()[i] == results[i + 1]);
        }
        assert(results.drop_first()[k - 1] == results[k as int]);
        lemma_send_stops_at_first_other_result(
            max_retries,
            (attempt + 1) as u32,
            results.drop_first(),
            (k - 1) as nat,
        );
    }
}

/// The waits of a send, in order, from a state with `attempt` retries made
/// and `delay` before the next retry, when its attempts give `results` in
/// turn: one wait before each retry, each twice the one before.
pub open spec fn sleeps<T>(
    max_retries: u32,
    attempt: u32,
    delay: nat,
    results: Seq<Result<T, SendError>>,
) -> Seq<nat>
    decreases results.len(),
{
    if results.len() > 0 && retries(max_retries, attempt, results[0]) {
        seq![delay] + sleeps(max_retries, (attempt + 1) as u32, 2 * delay, results.drop_first())
    } else {
        Seq::empty()
    }
}

/// The sum of a sequence of waits.
pub open spec fn total(waits: Seq<nat>) -> nat
    decreases waits.len(),
{
    if waits.len() == 0 {
        0
    } else {
        waits[0] + total(waits.drop_first())
    }
}

/// Over a whole send: the attempts are at least one and at most one more
/// than the retries left; there is one wait before each retry and none
/// before the first attempt or after the last; the `j`-th wait is the delay
/// times `2^j`; and the waits add up to at most the delay times
/// `2^(retries left) - 1`.
pub proof fn lemma_send_waits_double<T>(
    max_retries: u32,
    attempt: u32,
    delay: nat,
    results: Seq<Result<T, SendError>>,
)
    requires
        attempt <= max_retries,
    ensures
        results.len() > 0 ==> 1 <= calls_made(max_retries, attempt, results),
        calls_made(max_retries, attempt, results) <= max_retries - attempt + 1,
        sleeps(max_retries, attempt, delay, results).len() <= max_retries - attempt,
        results.len() > max_retries - attempt ==> calls_made(max_retries, attempt, results)
            == sleeps(max_retries, attempt, delay, results).len() + 1,
        forall|j: int|
            0 <= j < sleeps(max_retries, attempt, delay, results).len() ==> #[trigger] sleeps(
                max_retries,
                attempt,
                delay,
                results,
            )[j] == delay * pow2(j as nat),
        total(sleeps(max_retries, attempt, delay, results)) + delay <= delay * pow2(
            (max_retries - attempt) as nat,
        ),
    decreases results.len(),
{
    let w = sleeps(max_retries, attempt, delay, results);
    vstd::arithmetic::power2::lemma_pow2_pos((max_retries - attempt) as nat);
    vstd::arithmetic::mul::lemma_mul_inequality(1, pow2((max_retries - attempt) as nat) as int, delay as int);
    if results.len() > 0 && retries(max_retries, attempt, results[0]) {
        let rest = results.drop_first();
        let a1 = (attempt + 1) as u32;
        lemma_send_waits_double(max_retries, a1, 2 * delay, rest);
        let w1 = sleeps(max_retries, a1, 2 * delay, rest);
        assert(w == seq![delay] + w1);
        assert(w.drop_first() =~= w1);
        assert forall|j: int| 0 <= j < w.len() implies #[trigger] w[j] == delay * pow2(j as nat) by {
            if j == 0 {
                vstd::arithmetic::power2::lemma2_to64();
            } else {
                assert(w[j] == w1[j - 1]);
                vstd::arithmetic::power2::lemma_pow2_unfold(j as nat);
                vstd::arithmetic::mul::lemma_mul_is_associative(
                    2,
                    delay as int,
                    pow2((j - 1) as nat) as int,
                );
                vstd::arithmetic::mul::lemma_mul_is_associative(
                    delay as int,
                    2,
                    pow2((j - 1) as nat) as int,
                );
            }
        }
        let k = (max_retries - attempt) as nat;
        vstd::arithmetic::power2::lemma_pow2_unfold(k);
        vstd::arithmetic::mul::lemma_mul_is_associative(2, delay as int, pow2((k - 1) as nat) as int);
        vstd::arithmetic::mul::lemma_mul_is_associative(delay as int, 2, pow2((k - 1) as nat) as int);
    } else {
        assert(w.len() == 0);
    }
}

impl SendGate {
    /// Two seconds before the first retry, at most three retries.
    pub fn new() -> (g: SendGate)
        ensures
            g.base_delay_nanos == 2_000_000_000,
            g.max_retries == 3,
    {
        SendGate::with_backoff(2_000_000_000, 3)
    }

    pub fn with_backoff(base_delay_nanos: u128, max_retries: u32) -> (g: SendGate)
        ensures
            g.base_delay_nanos == base_delay_nanos,
            g.max_retries == max_retries,
    {
        SendGate { base_delay_nanos, max_retries }
    }

    /// A send that reached this state has made `attempt` retries, each
    /// after twice the delay of the one before.
    pub open spec fn reached(self, state: Backoff) -> bool {
        &&& state.attempt <= self.max_retries
        &&& state.delay_nanos == self.base_delay_nanos * pow2(state.attempt as nat)
    }

    /// The state of a send before its first attempt.
    pub fn start(&self) -> (state: Backoff)
        ensures
            state.attempt == 0,
            state.delay_nanos == self.base_delay_nanos,
            self.reached(state),
    {
        proof {
            vstd::arithmetic::power2::lemma2_to64();
        }
        Backoff { attempt: 0, delay_nanos: self.base_delay_nanos }
    }

    /// Whether an attempt with `result` is followed by a retry.
    pub fn will_retry<T>(&self, state: &Backoff, result: &Result<T, SendError>) -> (b: bool)
        ensures
            b == retries(self.max_retries, state.attempt, *result),
    {
        match result {
            Err(e) => is_rate_limited(e) && state.attempt < self.max_retries,
            Ok(_) => false,
        }
    }

    /// Decides what follows an attempt that gave `result`: a rate-limited
    /// failure with retries left is made again after the current delay,
    /// and the delay doubles; any other result is handed back. Doubling a
    /// delay past the longest `Duration` is left out, as it panics.
    pub fn after_attempt<T>(&self, state: &mut Backoff, result: &Result<T, SendError>) -> (next:
        Next)
        requires
            retries(self.max_retries, old(state).attempt, *result) ==> 2 * old(state).delay_nanos
                <= DURATION_MAX_NANOS,
        ensures
            retries(self.max_retries, old(state).attempt, *result) ==> {
                &&& next == (Next::Retry { wait_nanos: old(state).delay_nanos })
                &&& final(state).attempt == old(state).attempt + 1
                &&& final(state).delay_nanos == 2 * old(state).delay_nanos
            },
            !retries(self.max_retries, old(state).attempt, *result) ==> {
                &&& next == Next::Finish
                &&& *final(state) == *old(state)
            },
            self.reached(*old(state)) ==> self.reached(*final(state)),
    {
        if self.will_retry(state, result) {
            let wait_nanos = state.delay_nanos;
            proof {
                vstd::arithmetic::power2::lemma_pow2_adds(state.attempt as nat, 1);
                vstd::arithmetic::power2::lemma2_to64();
                vstd::arithmetic::mul::lemma_mul_is_associative(
                    self.base_delay_nanos as int,
                    pow2(state.attempt as nat) as int,
                    2,
                );
            }
            state.attempt = state.attempt + 1;
            state.delay_nanos = wait_nanos * 2;
            Next::Retry { wait_nanos }
        } else {
            Next::Finish
        }
    }
}

/// Twice `base * 2^a` is within `base * 2^m` where `a < m`.
proof fn lemma_doubling_within(base: nat, a: nat, m: nat)
    requires
        a < m,
    ensures
        2 * (base * pow2(a)) <= base * pow2(m),
{
    vstd::arithmetic::power2::lemma_pow2_unfold(a + 1);
    if a + 1 < m {
        vstd::arithmetic::power2::lemma_pow2_strictly_increases(a + 1, m);
    }
    vstd::arithmetic::mul::lemma_mul_inequality(pow2(a + 1) as int, pow2(m) as int, base as int);
    vstd::arithmetic::mul::lemma_mul_is_associative(base as int, pow2(a) as int, 2);
    vstd::arithmetic::mul::lemma_mul_is_commutative(base as int, pow2(a + 1) as int);
    vstd::arithmetic::mul::lemma_mul_is_commutative(base as int, pow2(m) as int);
}

/// A gate whose base delay times `2^max_retries` fits in a `Duration`
/// never doubles a delay past the longest one: at every state a send
/// reaches, the precondition of `after_attempt` holds.
pub proof fn lemma_delays_stay_within_budget<T>(
    gate: SendGate,
    state: Backoff,
    result: Result<T, SendError>,
)
    requires
        gate.base_delay_nanos * pow2(gate.max_retries as nat) <= DURATION_MAX_NANOS,
        gate.reached(state),
    ensures
        retries(gate.max_retries, state.attempt, result) ==> 2 * state.delay_nanos
            <= DURATION_MAX_NANOS,
{
    if retries(gate.max_retries, state.attempt, result) {
        lemma_doubling_within(
            gate.base_delay_nanos as nat,
            state.attempt as nat,
            gate.max_retries as nat,
        );
    }
}

/// Over a whole send of a gate whose base delay times `2^max_retries` fits
/// in a `Duration`: every retry's delay doubles within the longest
/// `Duration`, and the retries counted stay within `max_retries`.
pub proof fn lemma_send_never_overflows<T>(gate: SendGate, results: Seq<Result<T, SendError>>)
    requires
        gate.base_delay_nanos * pow2(gate.max_retries as nat) <= DURATION_MAX_NANOS,
    ensures
        sleeps(gate.max_retries, 0, gate.base_delay_nanos as nat, results).len()
            <= gate.max_retries,
        forall|j: int|
            0 <= j < sleeps(gate.max_retries, 0, gate.base_delay_nanos as nat, results).len()
                ==> 2 * #[trigger] sleeps(
                gate.max_retries,
                0,
                gate.base_delay_nanos as nat,
                results,
            )[j] <= DURATION_MAX_NANOS,
{
    let base = gate.base_delay_nanos as nat;
    let w = sleeps(gate.max_retries, 0, base, results);
    lemma_send_waits_double(gate.max_retries, 0, base, results);
    assert forall|j: int| 0 <= j < w.len() implies 2 * #[trigger] w[j] <= DURATION_MAX_NANOS by {
        assert(w[j] == base * pow2(j as nat));
        lemma_doubling_within(base, j as nat, gate.max_retries as nat);
    }
}

/// What `with_backoff` gives a send: with an operation that is refused with
/// a rate limit every time, the send makes `max_retries + 1` attempts and
/// waits `base_delay * 2^j` before retry `j + 1`, for `j` up to
/// `max_retries`.
pub proof fn lemma_always_refused_send<T>(gate: SendGate, results: Seq<Result<T, SendError>>)
    requires
        results.len() > gate.max_retries,
        forall|i: int| 0 <= i < results.len() ==> is_rate_limit_failure(#[trigger] results[i]),
    ensures
        calls_made(gate.max_retries, 0, results) == gate.max_retries + 1,
        sleeps(gate.max_retries, 0, gate.base_delay_nanos as nat, results) == Seq::new(
            gate.max_retries as nat,
            |j: int| (gate.base_delay_nanos * pow2(j as nat)) as nat,
        ),
{
    let base = gate.base_delay_nanos as nat;
    lemma_rate_limits_exhaust_retries(gate.max_retries, 0, results);
    lemma_send_waits_double(gate.max_retries, 0, base, results);
    let w = sleeps(gate.max_retries, 0, base, results);
    assert(w =~= Seq::new(
        gate.max_retries as nat,
        |j: int| (gate.base_delay_nanos * pow2(j as nat)) as nat,
    ));
}

/// The first attempt of a send failed with `error`, and `rest` are the
/// results the attempts after it would give.
pub open spec fn first_fails_with<T>(error: SendError, rest: Seq<Result<T, SendError>>) -> Seq<
    Result<T, SendError>,
> {
    seq![Err(error)] + rest
}

/// Only rate limits are retried. An API error whose status is not 429 and
/// whose message does not hold `RATE_LIMIT_EXCEEDED` ends the send at its
/// first attempt, with no wait, and so does a closed connection or any
/// other failure; an API error with status 429, or with that code in its
/// message, is retried (retries left) after the first delay.
pub proof fn lemma_only_rate_limits_are_retried<T>(
    max_retries: u32,
    delay: nat,
    error: SendError,
    rest: Seq<Result<T, SendError>>,
)
    requires
        max_retries > 0,
        rest.len() > 0,
    ensures
        (match error {
            SendError::Api { status: answered, message: text, .. } => answered != 429
                && !occurs_in("RATE_LIMIT_EXCEEDED"@, text@),
            _ => true,
        }) ==> {
            &&& calls_made(max_retries, 0, first_fails_with(error, rest)) == 1
            &&& sleeps(max_retries, 0, delay, first_fails_with(error, rest)).len() == 0
        },
        (match error {
            SendError::Api { status: answered, message: text, .. } => answered == 429
                || occurs_in("RATE_LIMIT_EXCEEDED"@, text@),
            _ => false,
        }) ==> {
            &&& calls_made(max_retries, 0, first_fails_with(error, rest)) >= 2
            &&& sleeps(max_retries, 0, delay, first_fails_with(error, rest)).len() >= 1
            &&& sleeps(max_retries, 0, delay, first_fails_with(error, rest))[0] == delay
        },
{
    reveal_strlit("RATE_LIMIT_EXCEEDED");
    assert("RATE_LIMIT_EXCEEDED"@ =~= rate_limit_code());
    let results = first_fails_with(error, rest);
    assert(results[0] == Err::<T, SendError>(error));
    assert(results.drop_first() =~= rest);
    lemma_send_waits_double(max_retries, 1, 2 * delay, rest);
}

} // verus!
