//! The circuit breaker of one provider.
//!
//! A closed breaker lets every request through. Too many failures open it, and
//! an open breaker lets nothing through until its timeout has passed. It is
//! then half open and lets one probe at a time through: enough successes close
//! it, one failure opens it again.

use crate::clock::{elapsed_secs, secs_between};
use crate::error_rate::ErrorRate;
use crate::provider::AppProxyConfig;
use std::time::Instant;
use vstd::prelude::*;

verus! {

/// The state of a breaker.
#[derive(Debug, Clone, Copy, PartialEq, Eq, Structural)]
pub enum CircuitState {
    /// Requests pass.
    Closed,
    /// Requests are refused.
    Open,
    /// Probes pass, one at a time.
    HalfOpen,
}

impl CircuitState {
    /// The name of the state.
    pub open spec fn name(self) -> Seq<char> {
        match self {
            CircuitState::Closed => "closed"@,
            CircuitState::Open => "open"@,
            CircuitState::HalfOpen => "half_open"@,
        }
    }

    /// The name of the state.
    pub fn to_string(&self) -> (name: String)
        ensures
            name@ == self.name(),
    {
        match self {
            CircuitState::Closed => "closed".to_string(),
            CircuitState::Open => "open".to_string(),
            CircuitState::HalfOpen => "half_open".to_string(),
        }
    }
}

/// The limits of a breaker.
#[derive(Debug, Clone, Copy, PartialEq, Eq, Structural)]
pub struct CircuitBreakerConfig {
    /// How many failures in a row open a closed breaker.
    pub failure_threshold: u32,
    /// How many successes close a half open breaker.
    pub success_threshold: u32,
    /// How many seconds an open breaker waits before it lets a probe through.
    pub timeout_seconds: u64,
    /// The rate of failures above which a closed breaker opens.
    pub error_rate_threshold: ErrorRate,
    /// How many requests there must be before the rate of failures counts.
    pub min_requests: u32,
}

impl CircuitBreakerConfig {
    /// The limits where nothing is configured.
    pub open spec fn spec_default() -> CircuitBreakerConfig {
        CircuitBreakerConfig {
            failure_threshold: 4,
            success_threshold: 2,
            timeout_seconds: 60,
            error_rate_threshold: ErrorRate::Above { numerator: 3, denominator: 5 },
            min_requests: 10,
        }
    }

    /// The limits that the proxy settings of an app give.
    pub open spec fn spec_from(config: AppProxyConfig) -> CircuitBreakerConfig {
        CircuitBreakerConfig {
            failure_threshold: config.circuit_failure_threshold,
            success_threshold: config.circuit_success_threshold,
            timeout_seconds: config.circuit_timeout_seconds as u64,
            error_rate_threshold: config.circuit_error_rate_threshold,
            min_requests: config.circuit_min_requests,
        }
    }
}

impl From<&AppProxyConfig> for CircuitBreakerConfig {
    fn from(config: &AppProxyConfig) -> (limits: Self) {
        CircuitBreakerConfig {
            failure_threshold: config.circuit_failure_threshold,
            success_threshold: config.circuit_success_threshold,
            timeout_seconds: config.circuit_timeout_seconds as u64,
            error_rate_threshold: config.circuit_error_rate_threshold,
            min_requests: config.circuit_min_requests,
        }
    }
}

impl vstd::std_specs::convert::FromSpecImpl<&AppProxyConfig> for CircuitBreakerConfig {
    open spec fn obeys_from_spec() -> bool {
        true
    }

    open spec fn from_spec(config: &AppProxyConfig) -> Self {
        CircuitBreakerConfig::spec_from(*config)
    }
}

impl Default for CircuitBreakerConfig {
    fn default() -> (limits: Self)
        ensures
            limits == CircuitBreakerConfig::spec_default(),
    {
        CircuitBreakerConfig {
            failure_threshold: 4,
            success_threshold: 2,
            timeout_seconds: 60,
            error_rate_threshold: ErrorRate::Above { numerator: 3, denominator: 5 },
            min_requests: 10,
        }
    }
}

/// The counters of a breaker, for monitoring.
#[derive(Debug, Clone, Copy, PartialEq, Eq, Structural)]
pub struct CircuitBreakerStats {
    pub state: CircuitState,
    pub consecutive_failures: u32,
    pub consecutive_successes: u32,
    pub total_requests: u32,
    pub failed_requests: u32,
    /// The probes that are in flight.
    pub half_open_requests: u32,
}

/// What a breaker says to a request.
pub enum Admission {
    /// The request passes.
    Pass,
    /// The request passes as a probe and holds a permit until it ends.
    Probe,
    /// The request is refused.
    Refused,
}

/// How many probes a half open breaker has in flight at most.
pub const MAX_HALF_OPEN_REQUESTS: u32 = 1;

/// The count after one more. The counters have 32 bits and wrap around.
pub open spec fn counted(count: u32) -> u32 {
    if count == u32::MAX {
        0
    } else {
        (count + 1) as u32
    }
}

/// A breaker as the contracts see it.
pub struct BreakerView {
    pub state: CircuitState,
    pub consecutive_failures: u32,
    pub consecutive_successes: u32,
    pub total_requests: u32,
    pub failed_requests: u32,
    pub last_opened_at: Option<Instant>,
    pub config: CircuitBreakerConfig,
    pub half_open_requests: u32,
    pub circuit_key: Seq<char>,
    pub provider_name: Seq<char>,
}

impl BreakerView {
    /// A breaker that has seen no request.
    pub open spec fn fresh(
        config: CircuitBreakerConfig,
        circuit_key: Seq<char>,
        provider_name: Seq<char>,
    ) -> BreakerView {
        BreakerView {
            state: CircuitState::Closed,
            consecutive_failures: 0,
            consecutive_successes: 0,
            total_requests: 0,
            failed_requests: 0,
            last_opened_at: None,
            config,
            half_open_requests: 0,
            circuit_key,
            provider_name,
        }
    }

    /// What holds of every breaker: at most one probe is in flight, and an
    /// open breaker knows since when it is open.
    pub open spec fn wf(self) -> bool {
        &&& self.half_open_requests <= MAX_HALF_OPEN_REQUESTS
        &&& self.state is Open ==> self.last_opened_at is Some
    }

    /// The breaker with other limits.
    pub open spec fn with_config(self, config: CircuitBreakerConfig) -> BreakerView {
        BreakerView { config, ..self }
    }

    /// The breaker after it has opened.
    pub open spec fn to_open(self, at: Instant) -> BreakerView {
        BreakerView {
            state: CircuitState::Open,
            last_opened_at: Some(at),
            consecutive_failures: 0,
            consecutive_successes: 0,
            ..self
        }
    }

    /// The breaker after it was asked to become half open, which only an open
    /// breaker does.
    pub open spec fn to_half_open(self) -> BreakerView {
        if self.state is Open {
            BreakerView {
                state: CircuitState::HalfOpen,
                consecutive_successes: 0,
                half_open_requests: 0,
                ..self
            }
        } else {
            self
        }
    }

    /// The breaker after it has closed.
    pub open spec fn to_closed(self) -> BreakerView {
        BreakerView {
            state: CircuitState::Closed,
            consecutive_failures: 0,
            consecutive_successes: 0,
            total_requests: 0,
            failed_requests: 0,
            ..self
        }
    }

    /// The breaker after one probe has ended, if one was in flight.
    pub open spec fn released(self) -> BreakerView {
        BreakerView {
            half_open_requests: if self.half_open_requests == 0 {
                0
            } else {
                (self.half_open_requests - 1) as u32
            },
            ..self
        }
    }

    /// What a half open breaker says to a request.
    pub open spec fn probe(self) -> (Admission, BreakerView) {
        if self.half_open_requests < MAX_HALF_OPEN_REQUESTS {
            (
                Admission::Probe,
                BreakerView { half_open_requests: (self.half_open_requests + 1) as u32, ..self },
            )
        } else {
            (Admission::Refused, self)
        }
    }

    /// An open breaker has waited long enough.
    pub open spec fn is_due(self, elapsed_secs: u64) -> bool {
        &&& self.state is Open
        &&& self.last_opened_at is Some
        &&& elapsed_secs >= self.config.timeout_seconds
    }

    /// Whether the provider is a candidate, and the breaker after the question,
    /// where `elapsed_secs` have passed since the breaker last opened.
    pub open spec fn availability(self, elapsed_secs: u64) -> (bool, BreakerView) {
        if !(self.state is Open) {
            (true, self)
        } else if self.is_due(elapsed_secs) {
            (true, self.to_half_open())
        } else {
            (false, self)
        }
    }

    /// What the breaker says to a request, and the breaker after it, where
    /// `elapsed_secs` have passed since the breaker last opened.
    pub open spec fn admission(self, elapsed_secs: u64) -> (Admission, BreakerView) {
        match self.state {
            CircuitState::Closed => (Admission::Pass, self),
            CircuitState::HalfOpen => self.probe(),
            CircuitState::Open => if self.is_due(elapsed_secs) {
                self.to_half_open().probe()
            } else {
                (Admission::Refused, self)
            },
        }
    }

    /// The breaker with one more success in its counters and no probe of that
    /// request in flight.
    pub open spec fn success_counted(self) -> BreakerView {
        BreakerView {
            consecutive_failures: 0,
            total_requests: counted(self.total_requests),
            consecutive_successes: if self.state is HalfOpen {
                counted(self.consecutive_successes)
            } else {
                self.consecutive_successes
            },
            ..self.released()
        }
    }

    /// The breaker after a request has succeeded.
    pub open spec fn after_success(self) -> BreakerView {
        let next = self.success_counted();
        if self.state is HalfOpen && next.consecutive_successes >= self.config.success_threshold {
            next.to_closed()
        } else {
            next
        }
    }

    /// The breaker with one more failure in its counters and no probe of that
    /// request in flight.
    pub open spec fn failure_counted(self) -> BreakerView {
        BreakerView {
            consecutive_failures: counted(self.consecutive_failures),
            total_requests: counted(self.total_requests),
            failed_requests: counted(self.failed_requests),
            consecutive_successes: 0,
            ..self.released()
        }
    }

    /// The counters of the breaker call for it to open.
    pub open spec fn is_tripped(self) -> bool {
        match self.state {
            CircuitState::HalfOpen => true,
            CircuitState::Open => false,
            CircuitState::Closed => {
                ||| self.consecutive_failures >= self.config.failure_threshold
                ||| {
                    &&& self.total_requests >= self.config.min_requests
                    &&& self.config.error_rate_threshold.is_exceeded(
                        self.failed_requests as nat,
                        self.total_requests as nat,
                    )
                }
            },
        }
    }

    /// The breaker after a request has failed at the instant `at`.
    pub open spec fn after_failure(self, at: Instant) -> BreakerView {
        let next = self.failure_counted();
        if next.is_tripped() {
            next.to_open(at)
        } else {
            next
        }
    }

    /// The counters of the breaker.
    pub open spec fn stats(self) -> CircuitBreakerStats {
        CircuitBreakerStats {
            state: self.state,
            consecutive_failures: self.consecutive_failures,
            consecutive_successes: self.consecutive_successes,
            total_requests: self.total_requests,
            failed_requests: self.failed_requests,
            half_open_requests: self.half_open_requests,
        }
    }
}

/// The circuit breaker of one provider.
///
/// The counters wrap around at 32 bits.
pub struct CircuitBreaker {
    state: CircuitState,
    /// Failures in a row.
    consecutive_failures: u32,
    /// Successes while half open.
    consecutive_successes: u32,
    /// Requests since the breaker last closed.
    total_requests: u32,
    /// Failed requests since the breaker last closed.
    failed_requests: u32,
    /// When the breaker last opened.
    last_opened_at: Option<Instant>,
    config: CircuitBreakerConfig,
    /// Probes in flight.
    half_open_requests: u32,
    /// The app and the provider, as `app_type:provider_id`.
    circuit_key: String,
    /// The display name of the provider when the breaker was made.
    provider_name: String,
}

impl View for CircuitBreaker {
    type V = BreakerView;

    closed spec fn view(&self) -> BreakerView {
        BreakerView {
            state: self.state,
            consecutive_failures: self.consecutive_failures,
            consecutive_successes: self.consecutive_successes,
            total_requests: self.total_requests,
            failed_requests: self.failed_requests,
            last_opened_at: self.last_opened_at,
            config: self.config,
            half_open_requests: self.half_open_requests,
            circuit_key: self.circuit_key@,
            provider_name: self.provider_name@,
        }
    }
}

/// The contracts see every field of a breaker.
proof fn breaker_is_seen_whole(breaker: CircuitBreaker)
    ensures
        breaker@.state == breaker.state,
        breaker@.consecutive_failures == breaker.consecutive_failures,
        breaker@.consecutive_successes == breaker.consecutive_successes,
        breaker@.total_requests == breaker.total_requests,
        breaker@.failed_requests == breaker.failed_requests,
        breaker@.last_opened_at == breaker.last_opened_at,
        breaker@.config == breaker.config,
        breaker@.half_open_requests == breaker.half_open_requests,
        breaker@.circuit_key == breaker.circuit_key@,
        breaker@.provider_name == breaker.provider_name@,
{
}

/// A permit as the contracts see it.
pub struct PermitView {
    pub circuit_key: Seq<char>,
    pub armed: bool,
}

/// The breaker after the holder of `permit` has given it back, if that has not
/// happened before.
pub open spec fn given_back(permit: PermitView, breaker: BreakerView) -> BreakerView {
    if permit.armed {
        breaker.released()
    } else {
        breaker
    }
}

/// The permit of a probe, which is given back exactly once: when the holder
/// disarms it, or else when the holder lets it go.
#[derive(Debug)]
pub struct HalfOpenPermitGuard {
    circuit_key: String,
    /// The permit has not been given back.
    armed: bool,
}

impl View for HalfOpenPermitGuard {
    type V = PermitView;

    closed spec fn view(&self) -> PermitView {
        PermitView { circuit_key: self.circuit_key@, armed: self.armed }
    }
}

/// The contracts see every field of a permit.
proof fn permit_is_seen_whole(permit: HalfOpenPermitGuard)
    ensures
        permit@.circuit_key == permit.circuit_key@,
        permit@.armed == permit.armed,
{
}

impl HalfOpenPermitGuard {
    /// Gives the permit back to the breaker it came from, so that letting the
    /// guard go gives nothing back a second time.
    pub fn disarm(&mut self, breaker: &mut CircuitBreaker)
        requires
            old(self)@.circuit_key == old(breaker)@.circuit_key,
        ensures
            final(self)@ == (PermitView { armed: false, ..old(self)@ }),
            final(breaker)@ == given_back(old(self)@, old(breaker)@),
    {
        if self.armed {
            self.armed = false;
            breaker.release_half_open_permit();
        }
    }

    /// Gives the permit back to the breaker it came from when the guard is let
    /// go, unless that has happened before.
    pub fn drop(self, breaker: &mut CircuitBreaker)
        requires
            self@.circuit_key == old(breaker)@.circuit_key,
        ensures
            final(breaker)@ == given_back(self@, old(breaker)@),
    {
        if self.armed {
            breaker.release_half_open_permit();
        }
    }

    /// The key of the breaker that the permit came from.
    pub fn circuit_key(&self) -> (key: &str)
        ensures
            key@ == self@.circuit_key,
    {
        self.circuit_key.as_str()
    }
}

/// The answer to a request.
#[derive(Debug)]
pub struct AllowRequestResult {
    /// The request may be sent.
    pub allowed: bool,
    /// The permit of the probe, where the request is one.
    pub permit: Option<HalfOpenPermitGuard>,
}

impl AllowRequestResult {
    /// The answer says `admission`, and a permit is an armed one of the breaker
    /// with the key `circuit_key`.
    pub open spec fn says(self, admission: Admission, circuit_key: Seq<char>) -> bool {
        &&& self.allowed <==> !(admission is Refused)
        &&& self.permit is Some <==> admission is Probe
        &&& self.permit matches Some(permit) ==> permit@ == (PermitView {
            circuit_key,
            armed: true,
        })
    }
}

impl CircuitBreaker {
    /// A closed breaker that has seen no request.
    pub fn new(config: CircuitBreakerConfig, circuit_key: &str, provider_name: &str) -> (breaker:
        Self)
        ensures
            breaker@ == BreakerView::fresh(config, circuit_key@, provider_name@),
    {
        CircuitBreaker {
            state: CircuitState::Closed,
            consecutive_failures: 0,
            consecutive_successes: 0,
            total_requests: 0,
            failed_requests: 0,
            last_opened_at: None,
            config,
            half_open_requests: 0,
            circuit_key: circuit_key.to_string(),
            provider_name: provider_name.to_string(),
        }
    }

    /// Changes the limits, and nothing else.
    pub fn update_config(&mut self, new_config: CircuitBreakerConfig)
        ensures
            final(self)@ == old(self)@.with_config(new_config),
    {
        self.config = new_config;
    }

    /// The key of the breaker.
    pub fn circuit_key(&self) -> (key: &str)
        ensures
            key@ == self@.circuit_key,
    {
        self.circuit_key.as_str()
    }

    /// The name of the provider when the breaker was made.
    pub fn provider_name(&self) -> (name: &str)
        ensures
            name@ == self@.provider_name,
    {
        self.provider_name.as_str()
    }

    /// The whole seconds since the breaker last opened, or zero if it never
    /// has.
    pub fn open_secs(&self) -> (elapsed: u64)
        ensures
            match self@.last_opened_at {
                Some(opened_at) => exists|now: Instant|
                    call_ensures(Instant::now, (), now) && elapsed == #[trigger] secs_between(
                        opened_at,
                        now,
                    ),
                None => elapsed == 0,
            },
    {
        match &self.last_opened_at {
            Some(opened_at) => elapsed_secs(opened_at),
            None => 0,
        }
    }

    /// Whether the provider is a candidate for a request. No permit is taken,
    /// but a breaker that has been open for its timeout becomes half open.
    pub fn is_available(&mut self) -> (available: bool)
        ensures
            exists|elapsed: u64| #[trigger]
                old(self)@.availability(elapsed) == (available, final(self)@),
            old(self)@.last_opened_at matches Some(opened_at) ==> exists|now: Instant|
                call_ensures(Instant::now, (), now) && old(self)@.availability(
                    #[trigger] secs_between(opened_at, now),
                ) == (available, final(self)@),
            !(old(self)@.state is Open) ==> available && final(self)@ == old(self)@,
            old(self)@.is_due(0) ==> available && final(self)@ == old(self)@.to_half_open(),
    {
        let elapsed: u64 = self.open_secs();
        let available = self.is_available_after(elapsed);
        assert(old(self)@.availability(elapsed) == (available, self@));
        available
    }

    /// `is_available` where `elapsed_secs` have passed since the breaker last
    /// opened.
    pub fn is_available_after(&mut self, elapsed_secs: u64) -> (available: bool)
        ensures
            (available, final(self)@) == old(self)@.availability(elapsed_secs),
    {
        match self.state {
            CircuitState::Closed | CircuitState::HalfOpen => true,
            CircuitState::Open => {
                if self.last_opened_at.is_some() && elapsed_secs >= self.config.timeout_seconds {
                    self.transition_to_half_open();
                    true
                } else {
                    false
                }
            },
        }
    }

    /// Asks for a request to be let through. A half open breaker, or one that
    /// has been open for its timeout, lets one probe at a time through.
    pub fn allow_request(&mut self) -> (answer: AllowRequestResult)
        ensures
            exists|elapsed: u64|
                {
                    &&& answer.says(
                        (#[trigger] old(self)@.admission(elapsed)).0,
                        old(self)@.circuit_key,
                    )
                    &&& final(self)@ == old(self)@.admission(elapsed).1
                },
            old(self)@.last_opened_at matches Some(opened_at) ==> exists|now: Instant|
                {
                    &&& call_ensures(Instant::now, (), now)
                    &&& answer.says(
                        old(self)@.admission(#[trigger] secs_between(opened_at, now)).0,
                        old(self)@.circuit_key,
                    )
                    &&& final(self)@ == old(self)@.admission(secs_between(opened_at, now)).1
                },
            !(old(self)@.state is Open) || old(self)@.is_due(0) ==> {
                &&& answer.says(old(self)@.admission(0).0, old(self)@.circuit_key)
                &&& final(self)@ == old(self)@.admission(0).1
            },
    {
        let elapsed: u64 = self.open_secs();
        let answer = self.allow_request_after(elapsed);
        assert(answer.says(old(self)@.admission(elapsed).0, old(self)@.circuit_key));
        assert(!(old(self)@.state is Open) || old(self)@.is_due(0) ==> old(self)@.admission(elapsed)
            == old(self)@.admission(0));
        answer
    }

    /// `allow_request` where `elapsed_secs` have passed since the breaker last
    /// opened.
    pub fn allow_request_after(&mut self, elapsed_secs: u64) -> (answer: AllowRequestResult)
        ensures
            answer.says(old(self)@.admission(elapsed_secs).0, old(self)@.circuit_key),
            final(self)@ == old(self)@.admission(elapsed_secs).1,
    {
        match self.state {
            CircuitState::Closed => AllowRequestResult { allowed: true, permit: None },
            CircuitState::Open => {
                if self.last_opened_at.is_some() && elapsed_secs >= self.config.timeout_seconds {
                    self.transition_to_half_open();
                    self.allow_half_open_probe()
                } else {
                    AllowRequestResult { allowed: false, permit: None }
                }
            },
            CircuitState::HalfOpen => self.allow_half_open_probe(),
        }
    }

    /// Records that a request has succeeded. A permit in flight is given back.
    pub fn record_success(&mut self)
        ensures
            final(self)@ == old(self)@.after_success(),
    {
        let state = self.state;
        self.release_half_open_permit();
        self.consecutive_failures = 0;
        self.total_requests = self.total_requests.wrapping_add(1);
        if state == CircuitState::HalfOpen {
            self.consecutive_successes = self.consecutive_successes.wrapping_add(1);
            if self.consecutive_successes >= self.config.success_threshold {
                self.transition_to_closed();
            }
        }
    }

    /// Records that a request has failed. A permit in flight is given back.
    pub fn record_failure(&mut self)
        ensures
            exists|at: Instant|
                call_ensures(Instant::now, (), at) && final(self)@ == #[trigger] old(
                    self,
                )@.after_failure(at),
            !old(self)@.failure_counted().is_tripped() ==> final(self)@ == old(
                self,
            )@.failure_counted(),
    {
        let now = Instant::now();
        self.record_failure_at(now);
        assert(self@ == old(self)@.after_failure(now));
    }

    /// `record_failure` at the instant `now`.
    pub fn record_failure_at(&mut self, now: Instant)
        ensures
            final(self)@ == old(self)@.after_failure(now),
    {
        let state = self.state;
        self.release_half_open_permit();
        self.consecutive_failures = self.consecutive_failures.wrapping_add(1);
        self.total_requests = self.total_requests.wrapping_add(1);
        self.failed_requests = self.failed_requests.wrapping_add(1);
        self.consecutive_successes = 0;
        match state {
            CircuitState::HalfOpen => {
                self.transition_to_open_at(now);
            },
            CircuitState::Closed => {
                if self.consecutive_failures >= self.config.failure_threshold {
                    self.transition_to_open_at(now);
                } else if self.total_requests >= self.config.min_requests
                    && self.config.error_rate_threshold.exceeded(
                    self.failed_requests,
                    self.total_requests,
                ) {
                    self.transition_to_open_at(now);
                }
            },
            CircuitState::Open => {},
        }
    }

    /// The state of the breaker.
    pub fn get_state(&self) -> (state: CircuitState)
        ensures
            state == self@.state,
    {
        self.state
    }

    /// The counters of the breaker.
    pub fn get_stats(&self) -> (stats: CircuitBreakerStats)
        ensures
            stats == self@.stats(),
    {
        CircuitBreakerStats {
            state: self.state,
            consecutive_failures: self.consecutive_failures,
            consecutive_successes: self.consecutive_successes,
            total_requests: self.total_requests,
            failed_requests: self.failed_requests,
            half_open_requests: self.half_open_requests,
        }
    }

    /// The probes that are in flight.
    pub fn get_half_open_requests_for_test(&self) -> (requests: u32)
        ensures
            requests == self@.half_open_requests,
    {
        self.half_open_requests
    }

    /// Closes the breaker by hand.
    pub fn reset(&mut self)
        ensures
            final(self)@ == old(self)@.to_closed(),
    {
        self.transition_to_closed();
    }

    /// The answer of a half open breaker: one probe at a time.
    pub fn allow_half_open_probe(&mut self) -> (answer: AllowRequestResult)
        ensures
            answer.says(old(self)@.probe().0, old(self)@.circuit_key),
            final(self)@ == old(self)@.probe().1,
    {
        if self.half_open_requests < MAX_HALF_OPEN_REQUESTS {
            self.half_open_requests = self.half_open_requests + 1;
            AllowRequestResult {
                allowed: true,
                permit: Some(
                    HalfOpenPermitGuard { circuit_key: self.circuit_key.clone(), armed: true },
                ),
            }
        } else {
            AllowRequestResult { allowed: false, permit: None }
        }
    }

    /// Gives one permit back, if one is out. The counters of requests stay as
    /// they are.
    pub fn release_half_open_permit(&mut self)
        ensures
            final(self)@ == old(self)@.released(),
    {
        if self.half_open_requests > 0 {
            self.half_open_requests = self.half_open_requests - 1;
        }
    }

    /// Opens the breaker.
    pub fn transition_to_open(&mut self)
        ensures
            exists|at: Instant|
                call_ensures(Instant::now, (), at) && final(self)@ == #[trigger] old(
                    self,
                )@.to_open(at),
    {
        let now = Instant::now();
        self.transition_to_open_at(now);
        assert(self@ == old(self)@.to_open(now));
    }

    /// Opens the breaker at the instant `now`.
    pub fn transition_to_open_at(&mut self, now: Instant)
        ensures
            final(self)@ == old(self)@.to_open(now),
    {
        self.state = CircuitState::Open;
        self.last_opened_at = Some(now);
        self.consecutive_failures = 0;
        self.consecutive_successes = 0;
    }

    /// Makes an open breaker half open, with no probe in flight.
    pub fn transition_to_half_open(&mut self)
        ensures
            final(self)@ == old(self)@.to_half_open(),
    {
        if self.state == CircuitState::Open {
            self.state = CircuitState::HalfOpen;
            self.consecutive_successes = 0;
            self.half_open_requests = 0;
        }
    }

    /// Closes the breaker and starts counting anew.
    pub fn transition_to_closed(&mut self)
        ensures
            final(self)@ == old(self)@.to_closed(),
    {
        self.state = CircuitState::Closed;
        self.consecutive_failures = 0;
        self.consecutive_successes = 0;
        self.total_requests = 0;
        self.failed_requests = 0;
    }
}

} // verus!
