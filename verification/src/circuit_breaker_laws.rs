//! What holds of a circuit breaker over several operations.

use crate::circuit_breaker::{
    given_back, Admission, BreakerView, CircuitBreakerConfig, PermitView, MAX_HALF_OPEN_REQUESTS,
};
use crate::error_rate::{
    exponent_field, fraction_field, halfway_denominator, halfway_numerator, ErrorRate,
};
use std::time::Instant;
use vstd::arithmetic::power2::{lemma2_to64, lemma_pow2_adds, pow2};
use vstd::prelude::*;

verus! {

/// The breaker after one failure at each of the given instants.
pub open spec fn after_failures(breaker: BreakerView, at: Seq<Instant>) -> BreakerView
    decreases at.len(),
{
    if at.len() == 0 {
        breaker
    } else {
        after_failures(breaker, at.drop_last()).after_failure(at.last())
    }
}

/// The breaker after `n` successes.
pub open spec fn after_successes(breaker: BreakerView, n: nat) -> BreakerView
    decreases n,
{
    if n == 0 {
        breaker
    } else {
        after_successes(breaker, (n - 1) as nat).after_success()
    }
}

/// A new breaker is well formed.
pub proof fn fresh_is_wf(config: CircuitBreakerConfig, key: Seq<char>, name: Seq<char>)
    ensures
        BreakerView::fresh(config, key, name).wf(),
{
}

/// Every operation keeps a breaker well formed: never more than one probe is in
/// flight, and an open breaker always knows since when.
pub proof fn operations_keep_wf(
    breaker: BreakerView,
    permit: PermitView,
    config: CircuitBreakerConfig,
    at: Instant,
    elapsed_secs: u64,
)
    requires
        breaker.wf(),
    ensures
        breaker.with_config(config).wf(),
        breaker.availability(elapsed_secs).1.wf(),
        breaker.admission(elapsed_secs).1.wf(),
        breaker.probe().1.wf(),
        breaker.after_success().wf(),
        breaker.after_failure(at).wf(),
        breaker.released().wf(),
        given_back(permit, breaker).wf(),
        breaker.to_open(at).wf(),
        breaker.to_half_open().wf(),
        breaker.to_closed().wf(),
{
}

/// How the counters of a breaker stand to each other: the failures in a row are
/// among the failed requests, the successes in a row among the others, only a
/// half open breaker counts successes, and a closed one has not seen as many
/// failures in a row as open it.
pub open spec fn counts_agree(breaker: BreakerView) -> bool {
    &&& breaker.consecutive_failures <= breaker.failed_requests <= breaker.total_requests
    &&& breaker.consecutive_successes <= breaker.total_requests - breaker.failed_requests
    &&& !(breaker.state is HalfOpen) ==> breaker.consecutive_successes == 0
    &&& breaker.state is Closed ==> breaker.consecutive_failures == 0
        || breaker.consecutive_failures < breaker.config.failure_threshold
}

/// The counters of a new breaker agree.
pub proof fn fresh_counts_agree(config: CircuitBreakerConfig, key: Seq<char>, name: Seq<char>)
    ensures
        counts_agree(BreakerView::fresh(config, key, name)),
{
}

/// Every operation keeps the counters in agreement; one that counts a request
/// does as long as the count of requests does not wrap around. New limits keep it where a closed breaker has
/// not yet seen as many failures in a row as the new limits allow.
pub proof fn operations_keep_counts(
    breaker: BreakerView,
    permit: PermitView,
    config: CircuitBreakerConfig,
    at: Instant,
    elapsed_secs: u64,
)
    requires
        counts_agree(breaker),
    ensures
        !(breaker.state is Closed) || breaker.consecutive_failures == 0
            || breaker.consecutive_failures < config.failure_threshold ==> counts_agree(
            breaker.with_config(config),
        ),
        counts_agree(breaker.availability(elapsed_secs).1),
        counts_agree(breaker.admission(elapsed_secs).1),
        counts_agree(breaker.probe().1),
        breaker.total_requests < u32::MAX ==> counts_agree(breaker.after_success()),
        breaker.total_requests < u32::MAX ==> counts_agree(breaker.after_failure(at)),
        counts_agree(breaker.released()),
        counts_agree(given_back(permit, breaker)),
        counts_agree(breaker.to_open(at)),
        counts_agree(breaker.to_half_open()),
        counts_agree(breaker.to_closed()),
{
}

/// No operation changes which provider a breaker belongs to, and only a change
/// of the limits changes the limits.
pub proof fn operations_keep_identity(
    breaker: BreakerView,
    permit: PermitView,
    config: CircuitBreakerConfig,
    at: Instant,
    elapsed_secs: u64,
)
    ensures
        breaker.with_config(config).circuit_key == breaker.circuit_key,
        breaker.availability(elapsed_secs).1.circuit_key == breaker.circuit_key,
        breaker.admission(elapsed_secs).1.circuit_key == breaker.circuit_key,
        breaker.after_success().circuit_key == breaker.circuit_key,
        breaker.after_failure(at).circuit_key == breaker.circuit_key,
        breaker.released().circuit_key == breaker.circuit_key,
        breaker.to_closed().circuit_key == breaker.circuit_key,
        breaker.to_open(at).circuit_key == breaker.circuit_key,
        breaker.to_half_open().circuit_key == breaker.circuit_key,
        breaker.probe().1.circuit_key == breaker.circuit_key,
        given_back(permit, breaker).circuit_key == breaker.circuit_key,
        breaker.with_config(config).provider_name == breaker.provider_name,
        breaker.availability(elapsed_secs).1.provider_name == breaker.provider_name,
        breaker.admission(elapsed_secs).1.provider_name == breaker.provider_name,
        breaker.after_success().provider_name == breaker.provider_name,
        breaker.after_failure(at).provider_name == breaker.provider_name,
        breaker.released().provider_name == breaker.provider_name,
        breaker.to_closed().provider_name == breaker.provider_name,
        breaker.to_open(at).provider_name == breaker.provider_name,
        breaker.to_half_open().provider_name == breaker.provider_name,
        breaker.probe().1.provider_name == breaker.provider_name,
        given_back(permit, breaker).provider_name == breaker.provider_name,
        breaker.availability(elapsed_secs).1.config == breaker.config,
        breaker.admission(elapsed_secs).1.config == breaker.config,
        breaker.after_success().config == breaker.config,
        breaker.after_failure(at).config == breaker.config,
        breaker.released().config == breaker.config,
        breaker.to_closed().config == breaker.config,
        breaker.to_open(at).config == breaker.config,
        breaker.to_half_open().config == breaker.config,
        breaker.probe().1.config == breaker.config,
        given_back(permit, breaker).config == breaker.config,
        breaker.with_config(config).stats() == breaker.stats(),
        breaker.with_config(config).last_opened_at == breaker.last_opened_at,
{
}

/// As many failures in a row as the failure threshold open a closed breaker,
/// and it stays open however many more follow.
pub proof fn failures_open(breaker: BreakerView, at: Seq<Instant>)
    requires
        breaker.state is Closed,
        breaker.consecutive_failures == 0,
        at.len() >= 1,
        at.len() >= breaker.config.failure_threshold,
    ensures
        after_failures(breaker, at).state is Open,
{
    lemma_failures_open_or_count(breaker, at);
}

proof fn lemma_failures_open_or_count(breaker: BreakerView, at: Seq<Instant>)
    requires
        breaker.state is Closed,
        breaker.consecutive_failures == 0,
    ensures
        after_failures(breaker, at).config == breaker.config,
        after_failures(breaker, at).state is Open || {
            &&& after_failures(breaker, at).state is Closed
            &&& after_failures(breaker, at).consecutive_failures == at.len()
            &&& at.len() == 0 || at.len() < breaker.config.failure_threshold
        },
    decreases at.len(),
{
    if at.len() > 0 {
        lemma_failures_open_or_count(breaker, at.drop_last());
    }
}

/// As many successes as the success threshold close a breaker that has just
/// become half open, and it stays closed however many more follow.
pub proof fn successes_close(breaker: BreakerView, n: nat)
    requires
        breaker.state is HalfOpen,
        breaker.consecutive_successes == 0,
        n >= 1,
        n >= breaker.config.success_threshold,
    ensures
        after_successes(breaker, n).state is Closed,
{
    lemma_successes_close_or_count(breaker, n);
}

proof fn lemma_successes_close_or_count(breaker: BreakerView, n: nat)
    requires
        breaker.state is HalfOpen,
        breaker.consecutive_successes == 0,
    ensures
        after_successes(breaker, n).config == breaker.config,
        after_successes(breaker, n).state is Closed || {
            &&& after_successes(breaker, n).state is HalfOpen
            &&& after_successes(breaker, n).consecutive_successes == n
            &&& n == 0 || n < breaker.config.success_threshold
        },
    decreases n,
{
    if n > 0 {
        lemma_successes_close_or_count(breaker, (n - 1) as nat);
    }
}

/// One failure opens a half open breaker again, with the timeout counted from
/// that failure.
pub proof fn failed_probe_reopens(breaker: BreakerView, at: Instant)
    requires
        breaker.state is HalfOpen,
    ensures
        breaker.after_failure(at).state is Open,
        breaker.after_failure(at).last_opened_at == Some(at),
{
}

/// A failure in a closed breaker whose rate of failures, counting this one,
/// exceeds the limit over enough requests opens it, however few failures came
/// in a row.
pub proof fn error_rate_opens(breaker: BreakerView, at: Instant)
    requires
        breaker.state is Closed,
        breaker.failure_counted().total_requests >= breaker.config.min_requests,
        breaker.config.error_rate_threshold.is_exceeded(
            breaker.failure_counted().failed_requests as nat,
            breaker.failure_counted().total_requests as nat,
        ),
    ensures
        breaker.after_failure(at).state is Open,
{
}

/// A success ends a run of failures, and never opens a breaker.
pub proof fn success_ends_failures(breaker: BreakerView)
    ensures
        breaker.after_success().consecutive_failures == 0,
        breaker.after_success().state is Open ==> breaker.state is Open,
{
}

/// An open breaker refuses every request before its timeout has passed, and the
/// refusal leaves no trace.
pub proof fn open_refuses_until_due(breaker: BreakerView, elapsed_secs: u64)
    requires
        breaker.state is Open,
        elapsed_secs < breaker.config.timeout_seconds,
    ensures
        breaker.availability(elapsed_secs) == (false, breaker),
        breaker.admission(elapsed_secs) == (Admission::Refused, breaker),
{
}

/// Once its timeout has passed, an open breaker lets exactly one probe through:
/// the next request is refused while the probe is in flight.
pub proof fn due_breaker_lets_one_probe_through(
    breaker: BreakerView,
    elapsed_secs: u64,
    later_secs: u64,
)
    requires
        breaker.wf(),
        breaker.state is Open,
        elapsed_secs >= breaker.config.timeout_seconds,
    ensures
        breaker.admission(elapsed_secs).0 is Probe,
        breaker.admission(elapsed_secs).1.state is HalfOpen,
        breaker.admission(elapsed_secs).1.consecutive_successes == 0,
        breaker.admission(elapsed_secs).1.admission(later_secs).0 is Refused,
        breaker.admission(elapsed_secs).1.admission(later_secs).1 == breaker.admission(
            elapsed_secs,
        ).1,
{
}

/// While a half open breaker has a probe in flight it refuses every request,
/// and as soon as the probe's permit is given back it lets a probe through
/// again.
pub proof fn one_probe_at_a_time(breaker: BreakerView, permit: PermitView, elapsed_secs: u64)
    requires
        breaker.wf(),
        breaker.state is HalfOpen,
        breaker.half_open_requests == MAX_HALF_OPEN_REQUESTS,
        permit.armed,
    ensures
        breaker.admission(elapsed_secs) == (Admission::Refused, breaker),
        breaker.released().admission(elapsed_secs).0 is Probe,
        given_back(permit, breaker).admission(elapsed_secs).0 is Probe,
{
}

/// A probe whose answer is lost does not block the breaker: when its permit is
/// let go, the breaker is as it was before the probe.
pub proof fn lost_probe_leaves_no_trace(breaker: BreakerView, permit: PermitView)
    requires
        breaker.probe().0 is Probe,
        permit.armed,
    ensures
        given_back(permit, breaker.probe().1) == breaker,
{
}

/// A disarmed permit is given back once: letting its guard go afterwards
/// changes nothing.
pub proof fn permit_is_given_back_once(breaker: BreakerView, permit: PermitView)
    ensures
        given_back(PermitView { armed: false, ..permit }, given_back(permit, breaker))
            == given_back(permit, breaker),
{
}

/// Giving a permit back leaves everything but the number of probes as it was,
/// and giving back what is not out changes nothing.
pub proof fn release_is_neutral(breaker: BreakerView)
    ensures
        (BreakerView { half_open_requests: breaker.half_open_requests, ..breaker.released() })
            == breaker,
        breaker.half_open_requests == 0 ==> breaker.released() == breaker,
{
}

/// Asking whether a provider is available takes no permit: the request that
/// follows is answered as if nothing had been asked.
pub proof fn availability_takes_no_permit(
    breaker: BreakerView,
    elapsed_secs: u64,
    later_secs: u64,
)
    requires
        breaker.availability(elapsed_secs).0,
    ensures
        breaker.availability(elapsed_secs).1.admission(later_secs) == breaker.admission(
            elapsed_secs,
        ),
{
}

/// An unavailable provider's request would have been refused, and asking leaves
/// the breaker as it was.
pub proof fn unavailable_is_refused(breaker: BreakerView, elapsed_secs: u64)
    requires
        !breaker.availability(elapsed_secs).0,
    ensures
        breaker.availability(elapsed_secs).1 == breaker,
        breaker.admission(elapsed_secs) == (Admission::Refused, breaker),
{
}

/// Becoming half open a second time does not forget a probe in flight.
pub proof fn repeated_half_open_keeps_probe(breaker: BreakerView)
    ensures
        breaker.state is HalfOpen ==> breaker.to_half_open() == breaker,
        breaker.to_half_open().to_half_open() == breaker.to_half_open(),
{
}

/// A breaker that was reset by hand lets every request through and has
/// forgotten all requests.
pub proof fn reset_breaker_passes(breaker: BreakerView, elapsed_secs: u64)
    ensures
        breaker.to_closed().admission(elapsed_secs) == (Admission::Pass, breaker.to_closed()),
        breaker.to_closed().stats().total_requests == 0,
        breaker.to_closed().stats().failed_requests == 0,
        breaker.to_closed().stats().consecutive_failures == 0,
        breaker.to_closed().stats().consecutive_successes == 0,
{
}

/// The bits of the double nearest to six tenths.
pub const SIX_TENTHS: u64 = 0x3fe3_3333_3333_3333;

/// A rate that only equals the limit opens no breaker.
pub proof fn equal_error_rate_opens_nothing(breaker: BreakerView, at: Instant)
    requires
        breaker.state is Closed,
        breaker.failure_counted().consecutive_failures < breaker.config.failure_threshold,
        breaker.config.error_rate_threshold matches ErrorRate::Above { numerator, denominator }
            && breaker.failure_counted().failed_requests * denominator == numerator
            * breaker.failure_counted().total_requests,
    ensures
        breaker.after_failure(at) == breaker.failure_counted(),
        breaker.after_failure(at).state is Closed,
{
}

/// The default error rate of three fifths is the bound that the double nearest
/// to six tenths stands for: the same counts exceed both.
pub proof fn default_error_rate_is_six_tenths(failed: u32, total: u32)
    requires
        total > 0,
    ensures
        CircuitBreakerConfig::spec_default().error_rate_threshold.is_exceeded(
            failed as nat,
            total as nat,
        ) <==> failed * halfway_denominator(SIX_TENTHS) > halfway_numerator(SIX_TENTHS) * total,
{
    assert(fraction_field(SIX_TENTHS) == 0x3_3333_3333_3333);
    assert(exponent_field(SIX_TENTHS) == 1022);
    lemma2_to64();
    lemma_pow2_adds(32, 22);
    assert(pow2(32) * pow2(22) == 0x1_0000_0000 * 0x40_0000) by (nonlinear_arith)
        requires
            pow2(32) == 0x1_0000_0000,
            pow2(22) == 0x40_0000,
    ;
    assert(halfway_denominator(SIX_TENTHS) == 0x40_0000_0000_0000);
    assert(halfway_numerator(SIX_TENTHS) == 0x26_6666_6666_6667);
    let f = failed as nat;
    let t = total as nat;
    assert(f * halfway_denominator(SIX_TENTHS) == f * 0x40_0000_0000_0000);
    assert(halfway_numerator(SIX_TENTHS) * t == 0x26_6666_6666_6667 * t);
}

} // verus!
