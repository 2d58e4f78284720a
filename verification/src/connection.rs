//! Connection admission: limits, per-connection token buckets, errors and
//! statistics, and a circuit breaker for downstream calls.

use vstd::prelude::*;
use crate::clock::now_millis;
use crate::text::str_to_string;

verus! {

/// Connection limits; durations in milliseconds.
#[derive(Debug, Clone, Copy, PartialEq, Eq, Structural)]
pub struct ConnectionLimits {
    pub max_connections: usize,
    pub max_connections_per_ip: usize,
    pub connection_timeout_ms: u64,
    pub idle_timeout_ms: u64,
    /// Messages per second allowed on one connection.
    pub rate_limit_per_connection: u32,
    pub rate_limit_window_ms: u64,
}

impl Default for ConnectionLimits {
    /// 10 000 connections, 100 per address, 30 s to connect, 5 minutes idle,
    /// 1000 messages a second per connection over a one-second window.
    fn default() -> (l: ConnectionLimits)
        ensures
            l == (ConnectionLimits {
                max_connections: 10000,
                max_connections_per_ip: 100,
                connection_timeout_ms: 30_000,
                idle_timeout_ms: 300_000,
                rate_limit_per_connection: 1000,
                rate_limit_window_ms: 1000,
            }),
    {
        ConnectionLimits {
            max_connections: 10000,
            max_connections_per_ip: 100,
            connection_timeout_ms: 30_000,
            idle_timeout_ms: 300_000,
            rate_limit_per_connection: 1000,
            rate_limit_window_ms: 1000,
        }
    }
}

/// `a + b`, or `u32::MAX` when that does not fit.
pub open spec fn sat_add_u32(a: int, b: int) -> u32 {
    if a + b > u32::MAX { u32::MAX } else { (a + b) as u32 }
}

/// `a * b`, or `u32::MAX` when that does not fit.
pub open spec fn sat_mul_u32(a: int, b: int) -> u32 {
    if a * b > u32::MAX { u32::MAX } else { (a * b) as u32 }
}

/// A token bucket's state.
#[derive(Debug, Clone, Copy, PartialEq, Eq, Structural)]
pub struct BucketState {
    pub tokens: u32,
    pub last_refill: u64,
}

/// The bucket after refilling at `now`: once a whole second or more has
/// passed since the last refill, `refill_rate` tokens per whole second are
/// added (the count of seconds cut to 32 bits, the sums capped), up to
/// `capacity`, and the refill time moves to `now`.
pub open spec fn refilled(b: BucketState, capacity: u32, refill_rate: u32, now: u64) -> BucketState {
    let elapsed: u64 = if now >= b.last_refill { (now - b.last_refill) as u64 } else { 0 };
    let seconds: u32 = (elapsed / 1000) as u32;
    let add = sat_mul_u32(seconds as int, refill_rate as int);
    if elapsed >= 1000 && add > 0 {
        let sum = sat_add_u32(b.tokens as int, add as int);
        BucketState { tokens: if sum < capacity { sum } else { capacity }, last_refill: now }
    } else {
        b
    }
}

/// `after` is bucket `before` after asking at `now` for `tokens` tokens
/// with answer `ok`: refilled first, then the tokens are taken if that many
/// are there.
pub open spec fn consumed(before: BucketState, after: BucketState, cap: u32, rate: u32, tokens: u32, now: u64, ok: bool) -> bool {
    let r = refilled(before, cap, rate, now);
    &&& ok == (r.tokens >= tokens)
    &&& after == (if ok { BucketState { tokens: (r.tokens - tokens) as u32, ..r } } else { r })
}

/// A token bucket admitting bursts of up to `capacity` and refilling
/// `refill_rate` tokens per second.
#[derive(Debug)]
pub struct TokenBucket {
    tokens: u32,
    capacity: u32,
    refill_rate: u32,
    last_refill: u64,
}

impl TokenBucket {
    /// The bucket's tokens and last refill time.
    pub closed spec fn state(&self) -> BucketState {
        BucketState { tokens: self.tokens, last_refill: self.last_refill }
    }

    /// The most tokens the bucket holds.
    pub closed spec fn cap(&self) -> u32 {
        self.capacity
    }

    /// Tokens added per second.
    pub closed spec fn rate(&self) -> u32 {
        self.refill_rate
    }

    /// A full bucket, last refilled at `now`.
    pub fn new_at(capacity: u32, refill_rate: u32, now: u64) -> (b: TokenBucket)
        ensures
            b.state() == (BucketState { tokens: capacity, last_refill: now }),
            b.cap() == capacity,
            b.rate() == refill_rate,
    {
        TokenBucket { tokens: capacity, capacity, refill_rate, last_refill: now }
    }

    /// A full bucket, last refilled now.
    pub fn new(capacity: u32, refill_rate: u32) -> (b: TokenBucket)
        ensures
            b.state().tokens == capacity,
            b.cap() == capacity,
            b.rate() == refill_rate,
    {
        TokenBucket::new_at(capacity, refill_rate, now_millis())
    }

    fn refill_at(&mut self, now: u64)
        ensures
            final(self).state() == refilled(old(self).state(), old(self).cap(), old(self).rate(), now),
            final(self).cap() == old(self).cap(),
            final(self).rate() == old(self).rate(),
    {
        let elapsed = now.saturating_sub(self.last_refill);
        if elapsed >= 1000 {
            let seconds = (elapsed / 1000) as u32;
            let a = seconds as u64;
            let b = self.refill_rate as u64;
            proof {
                assert(a * b <= 0xffff_fffe_0000_0001) by (nonlinear_arith)
                    requires
                        a <= 0xffff_ffff,
                        b <= 0xffff_ffff,
                ;
            }
            let prod: u64 = a * b;
            let add: u32 = if prod > 4294967295 { 4294967295 } else { prod as u32 };
            if add > 0 {
                let sum = self.tokens.saturating_add(add);
                self.tokens = if sum < self.capacity { sum } else { self.capacity };
                self.last_refill = now;
            }
        }
    }

    /// Refills at `now`, then takes `tokens` if that many are there.
    pub fn try_consume_at(&mut self, tokens: u32, now: u64) -> (ok: bool)
        ensures
            consumed(old(self).state(), final(self).state(), old(self).cap(), old(self).rate(), tokens, now, ok),
            final(self).cap() == old(self).cap(),
            final(self).rate() == old(self).rate(),
    {
        self.refill_at(now);
        if self.tokens < tokens {
            return false;
        }
        self.tokens = self.tokens - tokens;
        true
    }

    /// Refills by the clock, then takes `tokens` if that many are there.
    pub fn try_consume(&mut self, tokens: u32) -> (ok: bool)
        ensures
            exists|now: u64| #[trigger] consumed(old(self).state(), final(self).state(), old(self).cap(), old(self).rate(), tokens, now, ok),
            final(self).cap() == old(self).cap(),
            final(self).rate() == old(self).rate(),
    {
        let now = now_millis();
        let ok = self.try_consume_at(tokens, now);
        proof {
            assert(consumed(old(self).state(), self.state(), old(self).cap(), old(self).rate(), tokens, now, ok));
        }
        ok
    }
}

/// Why a connection was refused or dropped.
#[derive(Debug, Clone, Copy, PartialEq, Eq, Structural)]
pub enum ConnectionError {
    TooManyConnections,
    TooManyConnectionsFromIP,
    RateLimitExceeded,
    ConnectionTimeout,
}

/// The text of a connection error.
pub open spec fn connection_error_text(e: ConnectionError) -> Seq<char> {
    match e {
        ConnectionError::TooManyConnections => "Too many total connections"@,
        ConnectionError::TooManyConnectionsFromIP => "Too many connections from this IP"@,
        ConnectionError::RateLimitExceeded => "Rate limit exceeded"@,
        ConnectionError::ConnectionTimeout => "Connection timeout"@,
    }
}

impl ConnectionError {
    /// The error's text.
    pub fn message(&self) -> (s: String)
        ensures
            s@ == connection_error_text(*self),
    {
        match self {
            ConnectionError::TooManyConnections => str_to_string("Too many total connections"),
            ConnectionError::TooManyConnectionsFromIP => str_to_string("Too many connections from this IP"),
            ConnectionError::RateLimitExceeded => str_to_string("Rate limit exceeded"),
            ConnectionError::ConnectionTimeout => str_to_string("Connection timeout"),
        }
    }
}

/// Connection counts.
#[derive(Debug, Clone, Copy, PartialEq, Eq, Structural)]
pub struct ConnectionStats {
    pub total_connections: u32,
    pub connections_by_ip: u32,
    pub available_permits: u32,
}

/// The states of a circuit breaker.
#[derive(Debug, Clone, Copy, PartialEq, Eq, Structural)]
pub enum CircuitState {
    /// Calls go through.
    Closed,
    /// Calls are refused until the timeout has passed since the last failure.
    Open,
    /// Calls go through on trial.
    HalfOpen,
}

/// A circuit breaker's counters and state.
#[derive(Debug, Clone, Copy, PartialEq, Eq, Structural)]
pub struct BreakerState {
    pub failure_count: u32,
    pub success_count: u32,
    pub last_failure: u64,
    pub state: CircuitState,
}

/// Why a call through the breaker gave no result.
#[derive(Debug)]
pub enum CircuitBreakerError<E> {
    /// The circuit is open; the call was not made.
    CircuitOpen,
    /// The call was made and failed.
    CallFailed(E),
}

/// Whether an open breaker tries a call at `now`: more than the timeout has
/// passed since the last failure (the difference taken modulo 2^64).
pub open spec fn breaker_may_try(s: BreakerState, timeout_ms: u64, now: u64) -> bool {
    vstd::wrapping::u64_specs::wrapping_sub(now, s.last_failure) > timeout_ms
}

/// The breaker before the call is made at `now`: an open breaker that may
/// try becomes half open.
pub open spec fn breaker_before_call(s: BreakerState, timeout_ms: u64, now: u64) -> BreakerState {
    if s.state == CircuitState::Open && breaker_may_try(s, timeout_ms, now) {
        BreakerState { state: CircuitState::HalfOpen, ..s }
    } else {
        s
    }
}

/// The breaker after a successful call: the success is counted, and a half
/// open breaker with enough successes closes with both counts reset.
pub open spec fn breaker_after_success(s: BreakerState, success_threshold: u32) -> BreakerState {
    let n = vstd::wrapping::u32_specs::wrapping_add(s.success_count, 1);
    if s.state == CircuitState::HalfOpen && n >= success_threshold {
        BreakerState { state: CircuitState::Closed, failure_count: 0, success_count: 0, ..s }
    } else {
        BreakerState { success_count: n, ..s }
    }
}

/// The breaker after a failed call at `now`: the failure is counted and
/// stamped, and enough failures open the breaker and reset the successes.
pub open spec fn breaker_after_failure(s: BreakerState, failure_threshold: u32, now: u64) -> BreakerState {
    let n = vstd::wrapping::u32_specs::wrapping_add(s.failure_count, 1);
    if n >= failure_threshold {
        BreakerState { failure_count: n, last_failure: now, state: CircuitState::Open, success_count: 0 }
    } else {
        BreakerState { failure_count: n, last_failure: now, ..s }
    }
}

/// `b` is breaker `a` after the call `f` was asked for at `now` with
/// answer `r`: refused while open and the timeout has not passed;
/// otherwise `f` was called and its outcome recorded.
pub open spec fn breaker_call<T, E, F: FnOnce() -> Result<T, E>>(
    a: BreakerState,
    b: BreakerState,
    failures_to_open: u32,
    successes_to_close: u32,
    open_for: u64,
    f: F,
    now: u64,
    r: Result<T, CircuitBreakerError<E>>,
) -> bool {
    let pre = breaker_before_call(a, open_for, now);
    if a.state == CircuitState::Open && !breaker_may_try(a, open_for, now) {
        &&& r matches Err(CircuitBreakerError::CircuitOpen)
        &&& b == a
    } else {
        exists|out: Result<T, E>| {
            &&& call_ensures(f, (), out)
            &&& match out {
                Ok(v) => r == Ok::<T, CircuitBreakerError<E>>(v) && b == breaker_after_success(pre, successes_to_close),
                Err(e) => r == Err::<T, CircuitBreakerError<E>>(CircuitBreakerError::CallFailed(e))
                    && b == breaker_after_failure(pre, failures_to_open, now),
            }
        }
    }
}

/// A circuit breaker: it opens after `failure_threshold` failures, lets a
/// trial call through once `timeout_ms` has passed, and closes again after
/// `success_threshold` successes while half open.
#[derive(Debug)]
pub struct CircuitBreaker {
    failure_count: u32,
    success_count: u32,
    last_failure: u64,
    state: CircuitState,
    failure_threshold: u32,
    success_threshold: u32,
    timeout_ms: u64,
}

impl CircuitBreaker {
    /// The breaker's counters and state.
    pub closed spec fn view(&self) -> BreakerState {
        BreakerState {
            failure_count: self.failure_count,
            success_count: self.success_count,
            last_failure: self.last_failure,
            state: self.state,
        }
    }

    /// Failures that open the breaker.
    pub closed spec fn failures_to_open(&self) -> u32 {
        self.failure_threshold
    }

    /// Successes that close a half open breaker.
    pub closed spec fn successes_to_close(&self) -> u32 {
        self.success_threshold
    }

    /// How long an open breaker refuses calls, in milliseconds.
    pub closed spec fn open_for(&self) -> u64 {
        self.timeout_ms
    }

    /// A closed breaker with no failures or successes.
    pub fn new(failure_threshold: u32, success_threshold: u32, timeout_ms: u64) -> (b: CircuitBreaker)
        ensures
            b.view() == (BreakerState {
                failure_count: 0,
                success_count: 0,
                last_failure: 0,
                state: CircuitState::Closed,
            }),
            b.failures_to_open() == failure_threshold,
            b.successes_to_close() == success_threshold,
            b.open_for() == timeout_ms,
    {
        CircuitBreaker {
            failure_count: 0,
            success_count: 0,
            last_failure: 0,
            state: CircuitState::Closed,
            failure_threshold,
            success_threshold,
            timeout_ms,
        }
    }

    /// The breaker's state.
    pub fn current_state(&self) -> (s: CircuitState)
        ensures
            s == self.view().state,
    {
        self.state
    }

    /// Makes the call `f` at `now` unless the breaker is open and its
    /// timeout has not passed, and records the outcome.
    pub fn call_at<T, E, F: FnOnce() -> Result<T, E>>(&mut self, f: F, now: u64) -> (r: Result<T, CircuitBreakerError<E>>)
        requires
            call_requires(f, ()),
        ensures
            breaker_call(old(self).view(), final(self).view(), old(self).failures_to_open(), old(self).successes_to_close(), old(self).open_for(), f, now, r),
            final(self).failures_to_open() == old(self).failures_to_open(),
            final(self).successes_to_close() == old(self).successes_to_close(),
            final(self).open_for() == old(self).open_for(),
    {
        match self.state {
            CircuitState::Open => {
                if now.wrapping_sub(self.last_failure) > self.timeout_ms {
                    self.state = CircuitState::HalfOpen;
                } else {
                    return Err(CircuitBreakerError::CircuitOpen);
                }
            },
            _ => {},
        }
        let out = f();
        match out {
            Ok(v) => {
                let n = self.success_count.wrapping_add(1);
                self.success_count = n;
                match self.state {
                    CircuitState::HalfOpen => {
                        if n >= self.success_threshold {
                            self.state = CircuitState::Closed;
                            self.failure_count = 0;
                            self.success_count = 0;
                        }
                    },
                    _ => {},
                }
                Ok(v)
            },
            Err(e) => {
                let n = self.failure_count.wrapping_add(1);
                self.failure_count = n;
                self.last_failure = now;
                if n >= self.failure_threshold {
                    self.state = CircuitState::Open;
                    self.success_count = 0;
                }
                Err(CircuitBreakerError::CallFailed(e))
            },
        }
    }

    /// Makes the call `f` by the clock (see `call_at`).
    pub fn call<T, E, F: FnOnce() -> Result<T, E>>(&mut self, f: F) -> (r: Result<T, CircuitBreakerError<E>>)
        requires
            call_requires(f, ()),
        ensures
            final(self).failures_to_open() == old(self).failures_to_open(),
            final(self).successes_to_close() == old(self).successes_to_close(),
            final(self).open_for() == old(self).open_for(),
            exists|now: u64| #[trigger] breaker_call(old(self).view(), final(self).view(), old(self).failures_to_open(), old(self).successes_to_close(), old(self).open_for(), f, now, r),
    {
        let now = now_millis();
        let r = self.call_at(f, now);
        proof {
            assert(breaker_call(old(self).view(), self.view(), old(self).failures_to_open(), old(self).successes_to_close(), old(self).open_for(), f, now, r));
        }
        r
    }
}

} // verus!
