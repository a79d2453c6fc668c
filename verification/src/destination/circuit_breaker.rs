//! A circuit breaker in front of Meilisearch, built on the
//! `circuit_breaker` crate.

use vstd::prelude::*;

verus! {

/// The breaker of the `circuit_breaker` crate. Its state is hidden and
/// changes with time: an open breaker half-opens once its reset timeout has
/// passed since the last failure.
#[verifier::external_type_specification]
#[verifier::external_body]
pub struct ExternalCircuitBreaker(circuit_breaker::CircuitBreaker);

/// `circuit_breaker::CircuitBreaker::new(failure_threshold,
/// Duration::from_secs(reset_timeout_secs))`: a closed breaker that opens
/// after `failure_threshold` failures in a row.
#[verifier::external_body]
fn breaker_new(failure_threshold: u32, reset_timeout_secs: u64) -> (r: circuit_breaker::CircuitBreaker) {
    circuit_breaker::CircuitBreaker::new(failure_threshold, std::time::Duration::from_secs(reset_timeout_secs))
}

/// `CircuitBreaker::state`: the state now; an open breaker whose reset
/// timeout has passed becomes half-open first. Apart from that the state
/// depends on the time. What the source shows regardless: the breaker
/// starts closed and leaves that state only by `handle_failure` tripping it,
/// so a breaker never tripped is closed; and a breaker whose failures since
/// the last success (`handle_failure` raises the count and trips once it
/// reaches the threshold; `handle_success` resets it) reach its threshold
/// is open or half-open. The breaker's ghost `failures` and `ever_tripped`
/// follow the inner count and trips, as only these wrappers touch it.
#[verifier::external_body]
fn breaker_state(b: &MeilisearchCircuitBreaker) -> (r: CircuitState)
    ensures
        b.failures@ > 0 && b.failures@ >= b.failure_threshold ==> r != CircuitState::Closed,
        !b.ever_tripped@ ==> r == CircuitState::Closed,
{
    match b.inner.state() {
        circuit_breaker::CircuitState::Closed => CircuitState::Closed,
        circuit_breaker::CircuitState::Open => CircuitState::Open,
        circuit_breaker::CircuitState::HalfOpen => CircuitState::HalfOpen,
    }
}

/// `CircuitBreaker::handle_success`: resets the failure count and closes a
/// half-open breaker.
#[verifier::external_body]
fn breaker_success(b: &mut MeilisearchCircuitBreaker)
    ensures
        final(b).failures@ == 0,
        final(b).ever_tripped@ == old(b).ever_tripped@,
        final(b).failure_count == old(b).failure_count,
        final(b).name == old(b).name,
        final(b).failure_threshold == old(b).failure_threshold,
        final(b).reset_timeout_secs == old(b).reset_timeout_secs,
{
    b.inner.handle_success();
}

/// `CircuitBreaker::handle_failure`: counts a failure (a `u32` count, so
/// below its limit) and trips the breaker when the count reaches the
/// threshold.
#[verifier::external_body]
fn breaker_failure(b: &mut MeilisearchCircuitBreaker)
    requires
        old(b).failures@ < u32::MAX,
    ensures
        final(b).failures@ == old(b).failures@ + 1,
        final(b).ever_tripped@ == (old(b).ever_tripped@ || old(b).failures@ + 1 >= old(b).failure_threshold),
        final(b).failure_count == old(b).failure_count,
        final(b).name == old(b).name,
        final(b).failure_threshold == old(b).failure_threshold,
        final(b).reset_timeout_secs == old(b).reset_timeout_secs,
{
    b.inner.handle_failure();
}

/// The state of a breaker.
#[derive(Debug, Clone, Copy, PartialEq, Eq, Structural)]
pub enum CircuitState {
    /// Requests pass.
    Closed,
    /// Requests are rejected.
    Open,
    /// One request is let through to test whether the service is back.
    HalfOpen,
}

/// Why a protected call did not succeed.
#[derive(Debug)]
pub enum CircuitBreakerError<E> {
    /// The breaker is open; the operation was not run.
    CircuitOpen,
    /// The operation ran and failed.
    OperationError(E),
}

/// A snapshot of a breaker.
#[derive(Debug, Clone)]
pub struct CircuitBreakerStats {
    pub state: CircuitState,
    pub name: String,
}

/// A named circuit breaker around the Meilisearch calls.
pub struct MeilisearchCircuitBreaker {
    inner: circuit_breaker::CircuitBreaker,
    name: String,
    failure_threshold: u32,
    reset_timeout_secs: u64,
    /// Failures recorded since the last success, as the inner breaker
    /// counts them.
    failure_count: u32,
    /// The same count, as the wrappers of the inner breaker state it.
    failures: Ghost<nat>,
    /// Whether the inner breaker has ever tripped.
    ever_tripped: Ghost<bool>,
}

/// Whether a call may go ahead in the given state: not when the breaker is
/// open.
pub open spec fn lets_through(state: CircuitState) -> bool {
    state != CircuitState::Open
}

impl MeilisearchCircuitBreaker {
    /// The breaker's name.
    pub closed spec fn name_spec(&self) -> Seq<char> {
        self.name@
    }

    /// Failures in a row that open the breaker.
    pub closed spec fn threshold_spec(&self) -> u32 {
        self.failure_threshold
    }

    /// Seconds after the last failure that an open breaker half-opens.
    pub closed spec fn timeout_spec(&self) -> u64 {
        self.reset_timeout_secs
    }

    /// Failures recorded since the last success.
    pub closed spec fn failures_spec(&self) -> nat {
        self.failures@
    }

    /// Whether the breaker has ever tripped (a breaker never tripped is
    /// closed).
    pub closed spec fn has_tripped(&self) -> bool {
        self.ever_tripped@
    }

    /// The exec count follows the inner breaker's.
    pub closed spec fn wf(&self) -> bool {
        self.failure_count as nat == self.failures@
    }

    /// Whether the failures since the last success have reached the
    /// threshold, so that the breaker is not closed.
    pub open spec fn tripped(&self) -> bool {
        self.failures_spec() > 0 && self.failures_spec() >= self.threshold_spec()
    }

    /// A breaker that opens after five failures in a row and half-opens
    /// after a minute.
    pub fn new(name: String) -> (r: Self)
        ensures
            r.name_spec() == name@,
            r.threshold_spec() == 5,
            r.timeout_spec() == 60,
            r.failures_spec() == 0,
            !r.has_tripped(),
            r.wf(),
    {
        MeilisearchCircuitBreaker::with_config(name, 5, 60)
    }

    /// A breaker with the given threshold and reset timeout in seconds.
    pub fn with_config(name: String, failure_threshold: u32, reset_timeout_secs: u64) -> (r: Self)
        ensures
            r.name_spec() == name@,
            r.threshold_spec() == failure_threshold,
            r.timeout_spec() == reset_timeout_secs,
            r.failures_spec() == 0,
            !r.has_tripped(),
            r.wf(),
    {
        MeilisearchCircuitBreaker {
            inner: breaker_new(failure_threshold, reset_timeout_secs),
            name,
            failure_threshold,
            reset_timeout_secs,
            failure_count: 0,
            failures: Ghost(0),
            ever_tripped: Ghost(false),
        }
    }

    /// Decides whether a call may go ahead: returns the state seen and
    /// `Err(CircuitOpen)` when it is open. The caller runs the operation
    /// only on `Ok`, then reports its outcome with `record`.
    pub fn check_call<E>(&self) -> (r: (CircuitState, Result<(), CircuitBreakerError<E>>))
        ensures
            lets_through(r.0) <==> r.1 is Ok,
            !lets_through(r.0) ==> r.1 matches Err(CircuitBreakerError::CircuitOpen),
            self.tripped() ==> r.0 != CircuitState::Closed,
            !self.has_tripped() ==> r.0 == CircuitState::Closed && r.1 is Ok,
    {
        let state = breaker_state(self);
        match state {
            CircuitState::Open => (state, Err(CircuitBreakerError::CircuitOpen)),
            _ => (state, Ok(())),
        }
    }

    /// Records the outcome of an allowed operation and hands it back,
    /// failures wrapped as operation errors. A success resets the failure
    /// count; a failure raises it, unless the count is at its `u32` limit
    /// (where the inner breaker would overflow; it has tripped long before),
    /// and trips the breaker once it reaches the threshold.
    pub fn record<T, E>(&mut self, result: Result<T, E>) -> (r: Result<T, CircuitBreakerError<E>>)
        requires
            old(self).wf(),
        ensures
            final(self).wf(),
            final(self).name_spec() == old(self).name_spec(),
            final(self).threshold_spec() == old(self).threshold_spec(),
            final(self).timeout_spec() == old(self).timeout_spec(),
            result is Ok ==> final(self).failures_spec() == 0 && final(self).has_tripped() == old(self).has_tripped(),
            result is Err && old(self).failures_spec() < u32::MAX ==> final(self).failures_spec() == old(
                self,
            ).failures_spec() + 1 && final(self).has_tripped() == (old(self).has_tripped() || old(self).failures_spec()
                + 1 >= old(self).threshold_spec()),
            result is Err && old(self).failures_spec() >= u32::MAX ==> final(self).failures_spec()
                == old(self).failures_spec() && final(self).has_tripped() == old(self).has_tripped(),
            match result {
                Ok(v) => r == Ok::<T, CircuitBreakerError<E>>(v),
                Err(e) => r == Err::<T, CircuitBreakerError<E>>(CircuitBreakerError::OperationError(e)),
            },
    {
        match result {
            Ok(v) => {
                breaker_success(self);
                self.failure_count = 0;
                Ok(v)
            },
            Err(e) => {
                if self.failure_count < u32::MAX {
                    breaker_failure(self);
                    self.failure_count = self.failure_count + 1;
                }
                Err(CircuitBreakerError::OperationError(e))
            },
        }
    }

    /// The current state.
    pub fn get_state(&self) -> (r: CircuitState)
        ensures
            self.tripped() ==> r != CircuitState::Closed,
            !self.has_tripped() ==> r == CircuitState::Closed,
    {
        breaker_state(self)
    }

    /// The current state and the name.
    pub fn get_stats(&self) -> (r: CircuitBreakerStats)
        ensures
            r.name@ == self.name_spec(),
            self.tripped() ==> r.state != CircuitState::Closed,
            !self.has_tripped() ==> r.state == CircuitState::Closed,
    {
        CircuitBreakerStats { state: breaker_state(self), name: self.name.clone() }
    }
}

/// Settings of a breaker to build.
pub struct CircuitBreakerBuilder {
    pub name: String,
    pub failure_threshold: u32,
    /// Seconds before an open breaker half-opens.
    pub reset_timeout: u64,
}

impl CircuitBreakerBuilder {
    /// Five failures in a row, a minute to half-open.
    pub fn new(name: String) -> (r: Self)
        ensures
            r.name == name,
            r.failure_threshold == 5,
            r.reset_timeout == 60,
    {
        CircuitBreakerBuilder { name, failure_threshold: 5, reset_timeout: 60 }
    }

    /// The breaker has no error-rate setting; the builder is unchanged.
    /// `rate` is the rate's binary64 bits.
    pub fn error_rate(self, rate: u64) -> (r: Self)
        ensures
            r == self,
    {
        self
    }

    /// The breaker has no minimum request count; the builder is unchanged.
    pub fn min_request_count(self, count: u64) -> (r: Self)
        ensures
            r == self,
    {
        self
    }

    /// Failures in a row that open the breaker (cut to the low 32 bits, as
    /// a cast does).
    pub fn consecutive_failures(self, count: u64) -> (r: Self)
        ensures
            r.name == self.name,
            r.failure_threshold == count as u32,
            r.reset_timeout == self.reset_timeout,
    {
        CircuitBreakerBuilder { failure_threshold: count as u32, ..self }
    }

    /// Seconds before an open breaker half-opens.
    pub fn timeout(self, secs: u64) -> (r: Self)
        ensures
            r.name == self.name,
            r.failure_threshold == self.failure_threshold,
            r.reset_timeout == secs,
    {
        CircuitBreakerBuilder { reset_timeout: secs, ..self }
    }

    /// The breaker with these settings.
    pub fn build(self) -> (r: MeilisearchCircuitBreaker)
        ensures
            r.name_spec() == self.name@,
            r.threshold_spec() == self.failure_threshold,
            r.timeout_spec() == self.reset_timeout,
            r.failures_spec() == 0,
            !r.has_tripped(),
            r.wf(),
    {
        MeilisearchCircuitBreaker::with_config(self.name, self.failure_threshold, self.reset_timeout)
    }
}

} // verus!
