//! Circuit breaker: a state machine with failure threshold and cooldown that
//! guards graph writes.

use vstd::prelude::*;
use std::time::Instant;

use crate::error::{TdgError, TdgResult};

verus! {

#[verifier::external_type_specification]
#[verifier::external_body]
pub struct ExInstant(Instant);

/// Circuit breaker states.
#[derive(Debug, Clone, Copy, PartialEq, Eq, Structural)]
pub enum CircuitState {
    /// Normal operation. Failures counted but requests allowed.
    Closed,
    /// Too many failures. Requests blocked.
    Open,
    /// Testing if service recovered. One request allowed.
    HalfOpen,
}

/// The abstract state of a breaker: everything but the clock reading.
pub struct BreakerView {
    pub state: CircuitState,
    pub failure_count: u32,
    pub threshold: u32,
    pub cooldown_secs: u64,
    /// The clock reading of the latest failure, if any since creation or
    /// reset.
    pub last_failure: Option<Instant>,
    pub success_in_half_open: bool,
}

/// Circuit breaker with threshold and cooldown.
///
/// Transitions:
/// - CLOSED → OPEN: when failure count >= threshold
/// - OPEN → HALF_OPEN: after cooldown period
/// - HALF_OPEN → CLOSED: on success
/// - HALF_OPEN → OPEN: on failure
#[derive(Debug)]
pub struct CircuitBreaker {
    state: CircuitState,
    failure_count: u32,
    threshold: u32,
    cooldown_secs: u64,
    last_failure: Option<Instant>,
    success_in_half_open: bool,
}

impl View for CircuitBreaker {
    type V = BreakerView;

    closed spec fn view(&self) -> BreakerView {
        BreakerView {
            state: self.state,
            failure_count: self.failure_count,
            threshold: self.threshold,
            cooldown_secs: self.cooldown_secs,
            last_failure: self.last_failure,
            success_in_half_open: self.success_in_half_open,
        }
    }
}

/// A breaker freshly created (or reset) with the given configuration.
pub open spec fn fresh_breaker(threshold: u32, cooldown_secs: u64) -> BreakerView {
    BreakerView {
        state: CircuitState::Closed,
        failure_count: 0,
        threshold,
        cooldown_secs,
        last_failure: None,
        success_in_half_open: false,
    }
}

/// Well-formedness: a breaker that is not closed has seen a failure.
pub open spec fn breaker_wf(v: BreakerView) -> bool {
    v.state != CircuitState::Closed ==> v.last_failure is Some
}

/// The failure count agrees with the state: a closed breaker has counted
/// fewer failures than its threshold, any other has counted at least one.
pub open spec fn counts_agree(v: BreakerView) -> bool {
    &&& v.state == CircuitState::Closed ==> v.failure_count < v.threshold
    &&& v.state != CircuitState::Closed ==> v.failure_count >= 1
}

/// The effect of recording one failure, read from the clock at `at`: the
/// cooldown restarts from that reading.
pub open spec fn failure_step(v: BreakerView, at: Instant) -> BreakerView {
    let count = (v.failure_count + 1) as u32;
    BreakerView {
        state: match v.state {
            CircuitState::Closed => if count >= v.threshold { CircuitState::Open } else { CircuitState::Closed },
            CircuitState::HalfOpen => CircuitState::Open,
            CircuitState::Open => CircuitState::Open,
        },
        failure_count: count,
        last_failure: Some(at),
        ..v
    }
}

/// The effect of recording one success.
pub open spec fn success_step(v: BreakerView) -> BreakerView {
    match v.state {
        CircuitState::Closed => BreakerView { failure_count: 0, ..v },
        CircuitState::HalfOpen => BreakerView {
            state: CircuitState::Closed,
            failure_count: 0,
            success_in_half_open: true,
            ..v
        },
        CircuitState::Open => v,
    }
}

/// The effect of asking whether the breaker is tripped, given whether the
/// cooldown has elapsed since the last failure: the new state and the answer.
pub open spec fn observe_step(v: BreakerView, cooldown_elapsed: bool) -> (BreakerView, bool) {
    match v.state {
        CircuitState::Closed => (v, false),
        CircuitState::HalfOpen => (v, false),
        CircuitState::Open => if v.last_failure is Some && cooldown_elapsed {
            (BreakerView { state: CircuitState::HalfOpen, success_in_half_open: false, ..v }, false)
        } else {
            (v, true)
        },
    }
}

/// Whether the cooldown has elapsed, given the whole seconds since the last
/// failure (`None` when no failure has been recorded).
pub open spec fn cooldown_elapsed_after(v: BreakerView, elapsed_secs: Option<u64>) -> bool {
    elapsed_secs matches Some(s) && s >= v.cooldown_secs
}

/// The breaker after consecutive failures read at the instants `ats`.
pub open spec fn failures(v: BreakerView, ats: Seq<Instant>) -> BreakerView
    decreases ats.len(),
{
    if ats.len() == 0 {
        v
    } else {
        failure_step(failures(v, ats.drop_last()), ats.last())
    }
}

/// Every operation keeps the breaker well formed: a breaker that is open or
/// half-open has always seen a failure, so the cooldown always has a start.
pub proof fn lemma_operations_preserve_wf(v: BreakerView, cooldown_elapsed: bool, threshold: u32, cooldown_secs: u64, at: Instant)
    requires
        breaker_wf(v),
    ensures
        breaker_wf(fresh_breaker(threshold, cooldown_secs)),
        breaker_wf(failure_step(v, at)),
        breaker_wf(success_step(v)),
        breaker_wf(observe_step(v, cooldown_elapsed).0),
{
}

/// A closed breaker that sees `n >= 1` consecutive failures is open exactly
/// when its failure count has reached the threshold; with no failure it stays
/// closed. After any failure the cooldown counts from the latest one.
pub proof fn lemma_consecutive_failures_trip(v: BreakerView, ats: Seq<Instant>)
    requires
        v.state == CircuitState::Closed,
        v.failure_count + ats.len() <= u32::MAX,
    ensures
        failures(v, ats).failure_count == v.failure_count + ats.len(),
        failures(v, ats).threshold == v.threshold,
        ats.len() == 0 ==> failures(v, ats).state == CircuitState::Closed,
        ats.len() >= 1 ==> (failures(v, ats).state == CircuitState::Open <==> v.failure_count + ats.len() >= v.threshold),
        ats.len() >= 1 ==> failures(v, ats).last_failure == Some(ats.last()),
        failures(v, ats).state != CircuitState::HalfOpen,
    decreases ats.len(),
{
    if ats.len() > 0 {
        let prev_ats = ats.drop_last();
        lemma_consecutive_failures_trip(v, prev_ats);
        let prev = failures(v, prev_ats);
        assert(failures(v, ats) == failure_step(prev, ats.last()));
        assert(prev.failure_count + 1 == v.failure_count + ats.len());
    }
}

/// Every operation keeps the failure count in agreement with the state:
/// closed means fewer failures than the threshold, open or half-open means at
/// least one, for any breaker whose threshold is at least one.
pub proof fn lemma_operations_keep_counts(v: BreakerView, cooldown_elapsed: bool, threshold: u32, cooldown_secs: u64, at: Instant)
    requires
        counts_agree(v),
        v.failure_count < u32::MAX,
        v.threshold >= 1,
        threshold >= 1,
    ensures
        counts_agree(fresh_breaker(threshold, cooldown_secs)),
        counts_agree(failure_step(v, at)),
        counts_agree(success_step(v)),
        counts_agree(observe_step(v, cooldown_elapsed).0),
{
}

/// Only an open breaker blocks, and it blocks until the cooldown has elapsed
/// since its last failure.
pub proof fn lemma_tripped_iff_open_in_cooldown(v: BreakerView, cooldown_elapsed: bool)
    requires
        breaker_wf(v),
    ensures
        observe_step(v, cooldown_elapsed).1 <==> (v.state == CircuitState::Open && !cooldown_elapsed),
        observe_step(v, cooldown_elapsed).1 ==> observe_step(v, cooldown_elapsed).0 == v,
{
}

/// A success never opens the breaker, and after a success in the closed or
/// half-open state the breaker is closed with no failures counted.
pub proof fn lemma_success_closes(v: BreakerView)
    ensures
        success_step(v).state == CircuitState::Open ==> v.state == CircuitState::Open,
        v.state != CircuitState::Open ==> success_step(v).state == CircuitState::Closed
            && success_step(v).failure_count == 0,
{
}

/// The half-open probe: a failure sends the breaker back to open, a success
/// closes it.
pub proof fn lemma_half_open_probe(v: BreakerView, at: Instant)
    requires
        v.state == CircuitState::HalfOpen,
    ensures
        failure_step(v, at).state == CircuitState::Open,
        success_step(v).state == CircuitState::Closed,
        success_step(v).success_in_half_open,
{
}

/// A reset breaker lets requests through and keeps its configuration,
/// whatever its state before.
pub proof fn lemma_reset_allows(v: BreakerView, cooldown_elapsed: bool)
    ensures
        observe_step(fresh_breaker(v.threshold, v.cooldown_secs), cooldown_elapsed)
            == (fresh_breaker(v.threshold, v.cooldown_secs), false),
{
}

/// Reads the monotonic clock.
///
/// Trusted: wraps `std::time::Instant::now`; nothing is claimed of the
/// reading, which depends on the time.
#[verifier::external_body]
fn instant_now() -> Instant {
    Instant::now()
}

/// Whole seconds elapsed since `since`.
///
/// Trusted: wraps `std::time::Instant::elapsed`, converted to whole seconds
/// with `Duration::as_secs`; nothing is claimed of the value, which depends on
/// the time.
#[verifier::external_body]
fn elapsed_secs(since: &Instant) -> u64 {
    since.elapsed().as_secs()
}

impl CircuitBreaker {
    /// Create a new circuit breaker with default settings (threshold=3, cooldown=30s).
    pub fn new() -> (cb: Self)
        ensures
            cb@ == fresh_breaker(3, 30),
            counts_agree(cb@),
    {
        CircuitBreaker {
            state: CircuitState::Closed,
            failure_count: 0,
            threshold: 3,
            cooldown_secs: 30,
            last_failure: None,
            success_in_half_open: false,
        }
    }

    /// Create with custom threshold and cooldown.
    pub fn with_config(threshold: u32, cooldown_secs: u64) -> (cb: Self)
        ensures
            cb@ == fresh_breaker(threshold, cooldown_secs),
            threshold >= 1 ==> counts_agree(cb@),
    {
        CircuitBreaker {
            state: CircuitState::Closed,
            failure_count: 0,
            threshold,
            cooldown_secs,
            last_failure: None,
            success_in_half_open: false,
        }
    }

    /// The tripped check when it is known whether the cooldown has elapsed
    /// since the last failure.
    pub fn is_tripped_at(&mut self, cooldown_elapsed: bool) -> (tripped: bool)
        ensures
            old(self)@.threshold >= 1 && counts_agree(old(self)@) ==> counts_agree(final(self)@),
            (final(self)@, tripped) == observe_step(old(self)@, cooldown_elapsed),
    {
        match self.state {
            CircuitState::Closed => false,
            CircuitState::Open => {
                if self.last_failure.is_some() && cooldown_elapsed {
                    self.state = CircuitState::HalfOpen;
                    self.success_in_half_open = false;
                    false
                } else {
                    true
                }
            },
            CircuitState::HalfOpen => false,
        }
    }

    /// The tripped check given the whole seconds since the last failure
    /// (`None` when no failure has been recorded): the cooldown has elapsed
    /// once that many seconds reach the configured cooldown.
    pub fn is_tripped_after(&mut self, elapsed_secs: Option<u64>) -> (tripped: bool)
        ensures
            old(self)@.threshold >= 1 && counts_agree(old(self)@) ==> counts_agree(final(self)@),
            (final(self)@, tripped) == observe_step(old(self)@, cooldown_elapsed_after(old(self)@, elapsed_secs)),
    {
        let elapsed = match elapsed_secs {
            Some(s) => s >= self.cooldown_secs,
            None => false,
        };
        self.is_tripped_at(elapsed)
    }

    /// Check if the circuit breaker is tripped (requests blocked).
    ///
    /// An open breaker whose cooldown has elapsed moves to half-open and lets
    /// a request through. The seconds since the last failure are read from
    /// the clock, so the contract states the outcome for whatever reading
    /// came back; there is a reading exactly when a failure has been recorded.
    pub fn is_tripped(&mut self) -> (tripped: bool)
        ensures
            old(self)@.threshold >= 1 && counts_agree(old(self)@) ==> counts_agree(final(self)@),
            exists|secs: Option<u64>| #![trigger cooldown_elapsed_after(old(self)@, secs)]
                (secs is Some <==> old(self)@.last_failure is Some)
                && (final(self)@, tripped) == observe_step(old(self)@, cooldown_elapsed_after(old(self)@, secs)),
    {
        let secs = match &self.last_failure {
            Some(last) => Some(elapsed_secs(last)),
            None => None,
        };
        let tripped = self.is_tripped_after(secs);
        assert(secs is Some <==> old(self)@.last_failure is Some);
        assert(cooldown_elapsed_after(old(self)@, secs) == cooldown_elapsed_after(old(self)@, secs));
        tripped
    }

    /// Record a failure whose clock reading is `now`. May trip the circuit
    /// breaker; the cooldown restarts from `now`.
    pub fn record_failure_at(&mut self, now: Instant)
        requires
            old(self)@.failure_count < u32::MAX,
        ensures
            old(self)@.threshold >= 1 && counts_agree(old(self)@) ==> counts_agree(final(self)@),
            final(self)@ == failure_step(old(self)@, now),
    {
        self.failure_count = self.failure_count + 1;
        self.last_failure = Some(now);
        match self.state {
            CircuitState::Closed => {
                if self.failure_count >= self.threshold {
                    self.state = CircuitState::Open;
                }
            },
            CircuitState::HalfOpen => {
                self.state = CircuitState::Open;
            },
            CircuitState::Open => {},
        }
    }

    /// Record a failure. May trip the circuit breaker.
    ///
    /// The failure is stamped with a fresh clock reading, whose value the
    /// contract cannot name: it states the step for whatever reading came
    /// back.
    pub fn record_failure(&mut self)
        requires
            old(self)@.failure_count < u32::MAX,
        ensures
            old(self)@.threshold >= 1 && counts_agree(old(self)@) ==> counts_agree(final(self)@),
            exists|at: Instant| #![trigger failure_step(old(self)@, at)] final(self)@ == failure_step(old(self)@, at),
    {
        let now = instant_now();
        self.record_failure_at(now);
        assert(final(self)@ == failure_step(old(self)@, now));
    }

    /// Record a success. May reset the circuit breaker.
    pub fn record_success(&mut self)
        ensures
            old(self)@.threshold >= 1 && counts_agree(old(self)@) ==> counts_agree(final(self)@),
            final(self)@ == success_step(old(self)@),
    {
        match self.state {
            CircuitState::Closed => {
                self.failure_count = 0;
            },
            CircuitState::HalfOpen => {
                self.state = CircuitState::Closed;
                self.failure_count = 0;
                self.success_in_half_open = true;
            },
            CircuitState::Open => {},
        }
    }

    /// Manually reset the circuit breaker to closed state.
    pub fn reset(&mut self)
        ensures
            old(self)@.threshold >= 1 && counts_agree(old(self)@) ==> counts_agree(final(self)@),
            final(self)@ == fresh_breaker(old(self)@.threshold, old(self)@.cooldown_secs),
    {
        self.state = CircuitState::Closed;
        self.failure_count = 0;
        self.last_failure = None;
        self.success_in_half_open = false;
    }

    /// Get current state.
    pub fn state(&self) -> (s: CircuitState)
        ensures
            s == self@.state,
    {
        self.state
    }

    /// Get current failure count.
    pub fn failure_count(&self) -> (n: u32)
        ensures
            n == self@.failure_count,
    {
        self.failure_count
    }

    /// Check if writes are allowed. Returns an error when the circuit is open.
    pub fn check_before_write(&mut self) -> (r: TdgResult<()>)
        ensures
            old(self)@.threshold >= 1 && counts_agree(old(self)@) ==> counts_agree(final(self)@),
            exists|secs: Option<u64>| #![trigger cooldown_elapsed_after(old(self)@, secs)] {
                let (v, tripped) = observe_step(old(self)@, cooldown_elapsed_after(old(self)@, secs));
                &&& (secs is Some <==> old(self)@.last_failure is Some)
                &&& final(self)@ == v
                &&& r == if tripped {
                    Err::<(), TdgError>(TdgError::CircuitBreakerTripped { threshold: old(self)@.threshold as usize })
                } else {
                    Ok(())
                }
            },
    {
        if self.is_tripped() {
            return Err(TdgError::CircuitBreakerTripped { threshold: self.threshold as usize });
        }
        Ok(())
    }
}

} // verus!
