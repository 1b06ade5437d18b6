//! What each operation of a router does to the breaker that it names.

use crate::circuit_breaker::{Admission, BreakerView, CircuitBreakerConfig, CircuitState};
use crate::provider::{AppProxyConfig, Provider};
use crate::provider_router::{
    after_reset, asked, breaker_for, breakers_wf, health_update, is_open_secs, key_app, key_of,
    key_provider, made_breaker, reconfigured, recorded, supports_failover, BreakerSource, Breakers,
    HealthUpdate, SourceView,
};
use crate::text_laws::{beginning_is_splitting, first_character_splits};
use std::time::Instant;
use vstd::prelude::*;

verus! {

/// Only an account card of Codex Official, in the app of Codex, takes requests
/// alone.
pub proof fn only_codex_accounts_take_requests_alone(app_type: Seq<char>, provider: Provider)
    ensures
        !supports_failover(app_type, provider) <==> app_type == "codex"@
            && provider.codex_official,
{
}

/// A key is the app, a colon and the provider, and the app that it names is what
/// stands before its first colon, the provider what stands after it.
pub proof fn key_is_made_of_its_parts(app_type: Seq<char>, provider_id: Seq<char>, key: Seq<char>)
    ensures
        key_of(app_type, provider_id) == app_type + seq![':'] + provider_id,
        !key_app(key).contains(':'),
        key.contains(':') ==> key == key_app(key) + seq![':'] + key_provider(key),
        !key.contains(':') ==> key_app(key) == key && key_provider(key).len() == 0,
{
    first_character_splits(key, ':');
}

/// A breaker that has to be made is closed and has seen nothing. It has the limits
/// that the settings of the app give, or the default ones, and the name of the
/// provider, or its id where there is no such provider.
pub proof fn made_breaker_follows_the_store(key: Seq<char>, source: SourceView)
    ensures
        ({
            let made = made_breaker(key, source);
            &&& made.state == CircuitState::Closed
            &&& made.consecutive_failures == 0
            &&& made.consecutive_successes == 0
            &&& made.total_requests == 0
            &&& made.failed_requests == 0
            &&& made.half_open_requests == 0
            &&& made.last_opened_at is None
            &&& made.circuit_key == key
            &&& source.config matches Some(config) ==> {
                &&& made.config.failure_threshold == config.circuit_failure_threshold
                &&& made.config.success_threshold == config.circuit_success_threshold
                &&& made.config.timeout_seconds == config.circuit_timeout_seconds
                &&& made.config.error_rate_threshold == config.circuit_error_rate_threshold
                &&& made.config.min_requests == config.circuit_min_requests
            }
            &&& source.config is None ==> made.config == CircuitBreakerConfig::spec_default()
            &&& made.provider_name == match source.provider_name {
                Some(name) => name,
                None => key_provider(key),
            }
        }),
{
}

/// A breaker that there is, is used as it is, whatever the store says; only one
/// that is missing is made.
pub proof fn breakers_are_made_once(breakers: Breakers, key: Seq<char>, source: SourceView)
    ensures
        breakers.contains_key(key) ==> breaker_for(breakers, key, source) == breakers[key],
        !breakers.contains_key(key) ==> breaker_for(breakers, key, source) == made_breaker(
            key,
            source,
        ),
{
}

/// Asking for a request asks the breaker of the key and keeps it as it is then.
pub proof fn asking_reaches_the_breaker(
    breakers: Breakers,
    key: Seq<char>,
    source: SourceView,
    elapsed_secs: u64,
)
    ensures
        ({
            let (admission, after) = asked(breakers, key, source, elapsed_secs);
            &&& breakers.contains_key(key) ==> (admission, after[key])
                == breakers[key].admission(elapsed_secs)
            &&& !breakers.contains_key(key) ==> admission == Admission::Pass && after[key]
                == made_breaker(key, source)
            &&& after.dom() =~= breakers.dom().insert(key)
        }),
{
}

/// Recording a result records it with the breaker of the key.
pub proof fn recording_reaches_the_breaker(
    breakers: Breakers,
    key: Seq<char>,
    source: SourceView,
    at: Instant,
)
    ensures
        breakers.contains_key(key) ==> {
            &&& recorded(breakers, key, source, true, at)[key] == breakers[key].after_success()
            &&& recorded(breakers, key, source, false, at)[key] == breakers[key].after_failure(at)
        },
        !breakers.contains_key(key) ==> {
            &&& recorded(breakers, key, source, true, at)[key].state == CircuitState::Closed
            &&& recorded(breakers, key, source, true, at)[key].total_requests == 1
            &&& recorded(breakers, key, source, true, at)[key].failed_requests == 0
            &&& recorded(breakers, key, source, false, at)[key].total_requests == 1
            &&& recorded(breakers, key, source, false, at)[key].failed_requests == 1
        },
        recorded(breakers, key, source, true, at).dom() =~= breakers.dom().insert(key),
        recorded(breakers, key, source, false, at).dom() =~= breakers.dom().insert(key),
{
}

/// A reset closes the breaker of the key, if there is one, and clears its counters.
pub proof fn reset_closes_the_breaker(breakers: Breakers, key: Seq<char>)
    ensures
        after_reset(breakers, key).dom() =~= breakers.dom(),
        breakers.contains_key(key) ==> after_reset(breakers, key)[key] == (BreakerView {
            state: CircuitState::Closed,
            consecutive_failures: 0,
            consecutive_successes: 0,
            total_requests: 0,
            failed_requests: 0,
            ..breakers[key]
        }),
{
}

/// New limits reach just the breakers whose key begins with the prefix, and change
/// nothing else of them.
pub proof fn limits_reach_the_prefix(
    breakers: Breakers,
    prefix: Seq<char>,
    config: CircuitBreakerConfig,
    key: Seq<char>,
)
    requires
        breakers.contains_key(key),
    ensures
        reconfigured(breakers, prefix, config).dom() =~= breakers.dom(),
        (exists|rest: Seq<char>| key == #[trigger] (prefix + rest)) ==> reconfigured(
            breakers,
            prefix,
            config,
        )[key] == (BreakerView { config: config, ..breakers[key] }),
        !(exists|rest: Seq<char>| key == #[trigger] (prefix + rest)) ==> reconfigured(
            breakers,
            prefix,
            config,
        )[key] == breakers[key],
{
    beginning_is_splitting(key, prefix);
}

/// Well formed breakers have at most one probe in flight, know since when they are
/// open, and are found by their own keys.
pub proof fn wf_holds_of_each_breaker(breakers: Breakers, key: Seq<char>)
    requires
        breakers_wf(breakers),
        breakers.contains_key(key),
    ensures
        breakers[key].circuit_key == key,
        breakers[key].half_open_requests <= 1,
        breakers[key].state == CircuitState::Open ==> breakers[key].last_opened_at is Some,
{
}

/// The store keeps whose request it was, how it ended, the error, and the threshold
/// of the app, or five where its settings could not be read.
pub proof fn health_is_kept_as_it_was(
    provider_id: Seq<char>,
    app_type: Seq<char>,
    success: bool,
    error_msg: Option<Seq<char>>,
    app_config: Option<AppProxyConfig>,
)
    ensures
        ({
            let kept = health_update(provider_id, app_type, success, error_msg, app_config);
            &&& kept.provider_id == provider_id
            &&& kept.app_type == app_type
            &&& kept.success == success
            &&& kept.error_msg == error_msg
            &&& app_config matches Some(config) ==> kept.failure_threshold
                == config.circuit_failure_threshold
            &&& app_config is None ==> kept.failure_threshold == 5
        }),
{
}

/// The seconds since a breaker opened are counted to an instant that the clock
/// returned.
pub proof fn open_seconds_are_counted_to_the_present(
    breakers: Breakers,
    key: Seq<char>,
    elapsed: u64,
)
    requires
        is_open_secs(breakers, key, elapsed),
    ensures
        breakers.contains_key(key) && breakers[key].last_opened_at is Some ==> exists|now: Instant|
            call_ensures(Instant::now, (), now) && elapsed == #[trigger] crate::clock::whole_secs(
                crate::clock::time_between(breakers[key].last_opened_at->0, now),
            ),
        !(breakers.contains_key(key) && breakers[key].last_opened_at is Some) ==> elapsed == 0,
{
}

/// The contracts see every field of what a breaker is made from and of what the
/// store keeps.
pub proof fn sources_and_updates_are_seen_whole(source: BreakerSource, update: HealthUpdate)
    ensures
        source@.config == source.config,
        source@.provider_name is Some <==> source.provider_name is Some,
        source.provider_name is Some ==> source@.provider_name->0 == source.provider_name->0@,
        update@.provider_id == update.provider_id@,
        update@.app_type == update.app_type@,
        update@.success == update.success,
        update@.error_msg is Some <==> update.error_msg is Some,
        update.error_msg is Some ==> update@.error_msg->0 == update.error_msg->0@,
        update@.failure_threshold == update.failure_threshold,
{
}

} // verus!
