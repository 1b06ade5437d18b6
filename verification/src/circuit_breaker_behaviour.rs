//! What each operation of a circuit breaker does, counter by counter.

use crate::circuit_breaker::{
    given_back, Admission, AllowRequestResult, BreakerView, CircuitBreakerConfig, CircuitState,
    PermitView,
};
use crate::error_rate::ErrorRate;
use crate::provider::AppProxyConfig;
use std::time::Instant;
use vstd::prelude::*;

verus! {

/// A closed breaker lets every request through without a permit and is left as it
/// was, whatever its counters, its limits and the time are.
pub proof fn closed_breaker_lets_every_request_through(breaker: BreakerView, elapsed_secs: u64)
    requires
        breaker.state == CircuitState::Closed,
    ensures
        breaker.admission(elapsed_secs).0 == Admission::Pass,
        breaker.admission(elapsed_secs).1 == breaker,
        breaker.availability(elapsed_secs).0,
        breaker.availability(elapsed_secs).1 == breaker,
{
}

/// A half open breaker without a probe in flight lets a request through as a
/// probe and counts it; with a probe in flight it refuses and is left as it was.
/// The time does not matter, and the provider stays a candidate.
pub proof fn half_open_breaker_lets_a_probe_through(breaker: BreakerView, elapsed_secs: u64)
    requires
        breaker.state == CircuitState::HalfOpen,
    ensures
        breaker.half_open_requests == 0 ==> {
            &&& breaker.admission(elapsed_secs).0 == Admission::Probe
            &&& breaker.admission(elapsed_secs).1 == (BreakerView {
                half_open_requests: 1,
                ..breaker
            })
        },
        breaker.half_open_requests > 0 ==> {
            &&& breaker.admission(elapsed_secs).0 == Admission::Refused
            &&& breaker.admission(elapsed_secs).1 == breaker
        },
        breaker.availability(elapsed_secs).0,
        breaker.availability(elapsed_secs).1 == breaker,
        breaker.probe() == breaker.admission(elapsed_secs),
{
}

/// An open breaker answers by the time alone: once its timeout has passed it
/// becomes half open, forgets the successes and the probes of before, and lets
/// the request through as the first probe. Until then it refuses, the provider is
/// no candidate, and the breaker is left as it was.
pub proof fn open_breaker_answers_by_the_time(breaker: BreakerView, elapsed_secs: u64)
    requires
        breaker.state == CircuitState::Open,
        breaker.last_opened_at is Some,
    ensures
        elapsed_secs >= breaker.config.timeout_seconds ==> {
            &&& breaker.admission(elapsed_secs).0 == Admission::Probe
            &&& breaker.admission(elapsed_secs).1 == (BreakerView {
                state: CircuitState::HalfOpen,
                consecutive_successes: 0,
                half_open_requests: 1,
                ..breaker
            })
            &&& breaker.availability(elapsed_secs).0
            &&& breaker.availability(elapsed_secs).1 == (BreakerView {
                state: CircuitState::HalfOpen,
                consecutive_successes: 0,
                half_open_requests: 0,
                ..breaker
            })
        },
        elapsed_secs < breaker.config.timeout_seconds ==> {
            &&& breaker.admission(elapsed_secs).0 == Admission::Refused
            &&& breaker.admission(elapsed_secs).1 == breaker
            &&& !breaker.availability(elapsed_secs).0
            &&& breaker.availability(elapsed_secs).1 == breaker
        },
{
}

/// Which breaker is due: an open one whose timeout has passed since it opened.
pub proof fn due_is_open_for_the_timeout(breaker: BreakerView, elapsed_secs: u64)
    ensures
        breaker.is_due(elapsed_secs) <==> breaker.state == CircuitState::Open
            && breaker.last_opened_at is Some && elapsed_secs >= breaker.config.timeout_seconds,
{
}

/// What a success does: it counts a request, ends the run of failures and gives a
/// permit back. In a half open breaker it also counts a success, and the one that
/// makes the success threshold closes the breaker, with all counters at zero. The
/// failures, the limits, the time of the last opening and whose breaker it is stay.
pub proof fn success_counts_and_may_close(breaker: BreakerView)
    ensures
        ({
            let after = breaker.after_success();
            let successes = (breaker.consecutive_successes + 1) % 0x1_0000_0000;
            &&& breaker.state == CircuitState::HalfOpen && successes
                >= breaker.config.success_threshold ==> {
                &&& after.state == CircuitState::Closed
                &&& after.consecutive_successes == 0
                &&& after.total_requests == 0
                &&& after.failed_requests == 0
            }
            &&& breaker.state == CircuitState::HalfOpen && successes
                < breaker.config.success_threshold ==> {
                &&& after.state == CircuitState::HalfOpen
                &&& after.consecutive_successes == successes
                &&& after.total_requests == (breaker.total_requests + 1) % 0x1_0000_0000
                &&& after.failed_requests == breaker.failed_requests
            }
            &&& breaker.state != CircuitState::HalfOpen ==> {
                &&& after.state == breaker.state
                &&& after.consecutive_successes == breaker.consecutive_successes
                &&& after.total_requests == (breaker.total_requests + 1) % 0x1_0000_0000
                &&& after.failed_requests == breaker.failed_requests
            }
            &&& after.consecutive_failures == 0
            &&& breaker.half_open_requests == 0 ==> after.half_open_requests == 0
            &&& breaker.half_open_requests > 0 ==> after.half_open_requests
                == breaker.half_open_requests - 1
            &&& after.last_opened_at == breaker.last_opened_at
            &&& after.config == breaker.config
            &&& after.circuit_key == breaker.circuit_key
            &&& after.provider_name == breaker.provider_name
        }),
{
}

/// What a failure counts in any breaker: a request and a failed request, and a
/// permit is given back. Successes in a row are forgotten; the limits and whose
/// breaker it is stay.
pub proof fn failure_is_counted(breaker: BreakerView, at: Instant)
    ensures
        ({
            let after = breaker.after_failure(at);
            &&& after.total_requests == (breaker.total_requests + 1) % 0x1_0000_0000
            &&& after.failed_requests == (breaker.failed_requests + 1) % 0x1_0000_0000
            &&& after.consecutive_successes == 0
            &&& breaker.half_open_requests == 0 ==> after.half_open_requests == 0
            &&& breaker.half_open_requests > 0 ==> after.half_open_requests
                == breaker.half_open_requests - 1
            &&& after.config == breaker.config
            &&& after.circuit_key == breaker.circuit_key
            &&& after.provider_name == breaker.provider_name
        }),
{
}

/// When a failure opens a breaker: always in a half open one; in a closed one if
/// the failures in a row make the failure threshold, or if there are enough
/// requests and the rate of failures exceeds its limit; never in an open one. A
/// breaker that opens is open since that failure and counts the failures in a row
/// anew; one that does not stays in its state, and since when it was open stays.
pub proof fn failure_opens_when_it_must(breaker: BreakerView, at: Instant)
    ensures
        ({
            let after = breaker.after_failure(at);
            let in_a_row = (breaker.consecutive_failures + 1) % 0x1_0000_0000;
            let total = (breaker.total_requests + 1) % 0x1_0000_0000;
            let failed = (breaker.failed_requests + 1) % 0x1_0000_0000;
            let opens = breaker.state == CircuitState::HalfOpen || (breaker.state
                == CircuitState::Closed && (in_a_row >= breaker.config.failure_threshold || (total
                >= breaker.config.min_requests && breaker.config.error_rate_threshold.is_exceeded(
                failed as nat,
                total as nat,
            ))));
            &&& opens ==> {
                &&& after.state == CircuitState::Open
                &&& after.last_opened_at == Some(at)
                &&& after.consecutive_failures == 0
            }
            &&& !opens ==> {
                &&& after.state == breaker.state
                &&& after.last_opened_at == breaker.last_opened_at
                &&& after.consecutive_failures == in_a_row
            }
        }),
{
}

/// After a failed probe the breaker waits for its whole timeout again, counted
/// from that failure: until it has passed, every request is refused and the
/// provider is no candidate.
pub proof fn failed_probe_waits_for_the_timeout_again(
    breaker: BreakerView,
    at: Instant,
    elapsed_secs: u64,
)
    requires
        breaker.state == CircuitState::HalfOpen,
        elapsed_secs < breaker.config.timeout_seconds,
    ensures
        breaker.after_failure(at).last_opened_at == Some(at),
        breaker.after_failure(at).admission(elapsed_secs).0 == Admission::Refused,
        !breaker.after_failure(at).availability(elapsed_secs).0,
{
}

/// What it is to open, to become half open, to close, to change the limits and to
/// give a permit back.
pub proof fn transitions_change_what_they_say(
    breaker: BreakerView,
    at: Instant,
    config: CircuitBreakerConfig,
)
    ensures
        breaker.to_open(at) == (BreakerView {
            state: CircuitState::Open,
            last_opened_at: Some(at),
            consecutive_failures: 0,
            consecutive_successes: 0,
            ..breaker
        }),
        breaker.state == CircuitState::Open ==> breaker.to_half_open() == (BreakerView {
            state: CircuitState::HalfOpen,
            consecutive_successes: 0,
            half_open_requests: 0,
            ..breaker
        }),
        breaker.state != CircuitState::Open ==> breaker.to_half_open() == breaker,
        breaker.to_closed() == (BreakerView {
            state: CircuitState::Closed,
            consecutive_failures: 0,
            consecutive_successes: 0,
            total_requests: 0,
            failed_requests: 0,
            ..breaker
        }),
        breaker.with_config(config) == (BreakerView { config: config, ..breaker }),
        breaker.half_open_requests == 0 ==> breaker.released() == breaker,
        breaker.half_open_requests > 0 ==> breaker.released().half_open_requests
            == breaker.half_open_requests - 1 && breaker == (BreakerView {
            half_open_requests: breaker.half_open_requests,
            ..breaker.released()
        }),
{
}

/// A permit that is still held is worth one probe, and one that was given back is
/// worth nothing.
pub proof fn permit_is_worth_one_probe(permit: PermitView, breaker: BreakerView)
    ensures
        !permit.armed || breaker.half_open_requests == 0 ==> given_back(permit, breaker) == breaker,
        permit.armed && breaker.half_open_requests > 0 ==> {
            let after = given_back(permit, breaker);
            &&& after.half_open_requests == breaker.half_open_requests - 1
            &&& breaker == (BreakerView {
                half_open_requests: breaker.half_open_requests,
                ..after
            })
        },
{
}

/// A new breaker is closed and has seen nothing.
pub proof fn fresh_breaker_has_seen_nothing(
    config: CircuitBreakerConfig,
    key: Seq<char>,
    name: Seq<char>,
)
    ensures
        ({
            let breaker = BreakerView::fresh(config, key, name);
            &&& breaker.state == CircuitState::Closed
            &&& breaker.consecutive_failures == 0
            &&& breaker.consecutive_successes == 0
            &&& breaker.total_requests == 0
            &&& breaker.failed_requests == 0
            &&& breaker.half_open_requests == 0
            &&& breaker.last_opened_at is None
            &&& breaker.config == config
            &&& breaker.circuit_key == key
            &&& breaker.provider_name == name
        }),
{
}

/// The counters that are shown are those of the breaker.
pub proof fn stats_show_the_counters(breaker: BreakerView)
    ensures
        breaker.stats().state == breaker.state,
        breaker.stats().consecutive_failures == breaker.consecutive_failures,
        breaker.stats().consecutive_successes == breaker.consecutive_successes,
        breaker.stats().total_requests == breaker.total_requests,
        breaker.stats().failed_requests == breaker.failed_requests,
        breaker.stats().half_open_requests == breaker.half_open_requests,
{
}

/// A well formed breaker has at most one probe in flight, and knows since when it
/// is open if it is.
pub proof fn wf_bounds_the_probes(breaker: BreakerView)
    ensures
        breaker.wf() <==> breaker.half_open_requests <= 1 && (breaker.state == CircuitState::Open
            ==> breaker.last_opened_at is Some),
{
}

/// An answer lets the request through just when it is not refused, and carries a
/// permit just for a probe: one that is still held, of the breaker that was asked.
pub proof fn answers_mean_what_they_say(
    answer: AllowRequestResult,
    admission: Admission,
    key: Seq<char>,
)
    requires
        answer.says(admission, key),
    ensures
        admission == Admission::Pass ==> answer.allowed && answer.permit is None,
        admission == Admission::Refused ==> !answer.allowed && answer.permit is None,
        admission == Admission::Probe ==> answer.allowed && (answer.permit matches Some(permit)
            && permit@.armed && permit@.circuit_key == key),
{
}

/// The limits where nothing is configured: four failures in a row, two successes,
/// a minute, ten requests and more than six failures in ten.
pub proof fn default_limits(failed: nat, total: nat)
    ensures
        ({
            let limits = CircuitBreakerConfig::spec_default();
            &&& limits.failure_threshold == 4
            &&& limits.success_threshold == 2
            &&& limits.timeout_seconds == 60
            &&& limits.min_requests == 10
            &&& limits.error_rate_threshold.is_exceeded(failed, total) <==> 10 * failed > 6 * total
        }),
{
}

/// Each limit of a breaker is the one that the settings of the app give.
pub proof fn limits_come_from_the_settings(settings: AppProxyConfig)
    ensures
        ({
            let limits = CircuitBreakerConfig::spec_from(settings);
            &&& limits.failure_threshold == settings.circuit_failure_threshold
            &&& limits.success_threshold == settings.circuit_success_threshold
            &&& limits.timeout_seconds == settings.circuit_timeout_seconds
            &&& limits.error_rate_threshold == settings.circuit_error_rate_threshold
            &&& limits.min_requests == settings.circuit_min_requests
        }),
{
}

/// What exceeds a bound: nothing, every rate that there is, or every rate above
/// the fraction.
pub proof fn bounds_are_strict(failed: nat, total: nat, numerator: u64, denominator: u128)
    ensures
        !ErrorRate::Never.is_exceeded(failed, total),
        ErrorRate::Always.is_exceeded(failed, total) <==> failed > 0 || total > 0,
        (ErrorRate::Above { numerator, denominator }).is_exceeded(failed, total) <==> failed
            * denominator > numerator * total,
{
}

/// The names of the states.
pub proof fn states_have_their_names()
    ensures
        CircuitState::Closed.name() == "closed"@,
        CircuitState::Open.name() == "open"@,
        CircuitState::HalfOpen.name() == "half_open"@,
{
}

} // verus!
