//! What holds of the breakers of a router, and of the providers it selects.

use crate::circuit_breaker::{given_back, CircuitBreakerConfig, PermitView};
use crate::provider::{lemma_found_provider, AppError, Provider};
use crate::provider_router::{
    after_reset, asked, breaker_for, breakers_wf, key_app, key_of, key_provider, made_breaker,
    reconfigured, recorded, supports_failover, Breakers, SourceView,
};
use crate::provider_selection::{candidate, route, walk, walk_result, QueueEntryView, RouteInputs};
use crate::text::{after_first, before_first, begins_with};
use std::time::Instant;
use vstd::prelude::*;

verus! {

/// Every operation keeps all breakers well formed and under their own keys.
pub proof fn operations_keep_breakers_wf(
    breakers: Breakers,
    key: Seq<char>,
    source: SourceView,
    success: bool,
    at: Instant,
    elapsed_secs: u64,
    permit: PermitView,
    prefix: Seq<char>,
    config: CircuitBreakerConfig,
)
    requires
        breakers_wf(breakers),
    ensures
        breakers_wf(Breakers::empty()),
        breaker_for(breakers, key, source).wf(),
        breaker_for(breakers, key, source).circuit_key == key,
        breakers_wf(asked(breakers, key, source, elapsed_secs).1),
        breakers_wf(recorded(breakers, key, source, success, at)),
        breakers_wf(after_reset(breakers, key)),
        breakers_wf(breakers.insert(key, breaker_for(breakers, key, source).released())),
        breakers.contains_key(key) ==> breakers_wf(
            breakers.insert(key, given_back(permit, breakers[key])),
        ),
        breakers_wf(reconfigured(breakers, prefix, config)),
{
}

/// An operation on one breaker leaves all others as they are.
pub proof fn other_breakers_stay(
    breakers: Breakers,
    key: Seq<char>,
    other: Seq<char>,
    source: SourceView,
    success: bool,
    at: Instant,
    elapsed_secs: u64,
    permit: PermitView,
)
    requires
        key != other,
    ensures
        ({
            let after = asked(breakers, key, source, elapsed_secs).1;
            &&& after.contains_key(other) <==> breakers.contains_key(other)
            &&& breakers.contains_key(other) ==> after[other] == breakers[other]
        }),
        ({
            let after = recorded(breakers, key, source, success, at);
            &&& after.contains_key(other) <==> breakers.contains_key(other)
            &&& breakers.contains_key(other) ==> after[other] == breakers[other]
        }),
        ({
            let after = after_reset(breakers, key);
            &&& after.contains_key(other) <==> breakers.contains_key(other)
            &&& breakers.contains_key(other) ==> after[other] == breakers[other]
        }),
        ({
            let after = breakers.insert(key, breaker_for(breakers, key, source).released());
            &&& after.contains_key(other) <==> breakers.contains_key(other)
            &&& breakers.contains_key(other) ==> after[other] == breakers[other]
        }),
        breakers.contains_key(key) ==> {
            let after = breakers.insert(key, given_back(permit, breakers[key]));
            &&& after.contains_key(other) <==> breakers.contains_key(other)
            &&& breakers.contains_key(other) ==> after[other] == breakers[other]
        },
{
}

/// A reset makes no breaker.
pub proof fn reset_makes_no_breaker(breakers: Breakers, key: Seq<char>)
    ensures
        after_reset(breakers, key).dom() =~= breakers.dom(),
{
}

/// Changing the limits makes no breaker and resets none.
pub proof fn reconfiguring_keeps_state(
    breakers: Breakers,
    prefix: Seq<char>,
    config: CircuitBreakerConfig,
    key: Seq<char>,
)
    ensures
        reconfigured(breakers, prefix, config).dom() =~= breakers.dom(),
        breakers.contains_key(key) ==> reconfigured(breakers, prefix, config)[key].stats()
            == breakers[key].stats(),
{
}

/// The app has no colon in its name, as no app does.
pub open spec fn is_plain(app_type: Seq<char>) -> bool {
    forall|i: int| 0 <= i < app_type.len() ==> app_type[i] != ':'
}

proof fn lemma_split_plain(head: Seq<char>, tail: Seq<char>)
    requires
        is_plain(head),
    ensures
        before_first(head + seq![':'] + tail, ':') == head,
        after_first(head + seq![':'] + tail, ':') == tail,
    decreases head.len(),
{
    let text = head + seq![':'] + tail;
    if head.len() == 0 {
        assert(text[0] == ':');
        assert(text.skip(1) =~= tail);
        assert(before_first(text, ':') =~= head);
    } else {
        assert(text[0] == head[0]);
        assert(text.skip(1) =~= head.skip(1) + seq![':'] + tail);
        lemma_split_plain(head.skip(1), tail);
        assert(before_first(text, ':') =~= head);
    }
}

/// The key of a provider names its app and the provider.
pub proof fn key_names_its_parts(app_type: Seq<char>, provider_id: Seq<char>)
    requires
        is_plain(app_type),
    ensures
        key_app(key_of(app_type, provider_id)) == app_type,
        key_provider(key_of(app_type, provider_id)) == provider_id,
{
    lemma_split_plain(app_type, provider_id);
}

/// Different providers, and equal ones of different apps, have different
/// breakers.
pub proof fn keys_are_unique(app_a: Seq<char>, id_a: Seq<char>, app_b: Seq<char>, id_b: Seq<char>)
    requires
        is_plain(app_a),
        is_plain(app_b),
        key_of(app_a, id_a) == key_of(app_b, id_b),
    ensures
        app_a == app_b,
        id_a == id_b,
{
    lemma_split_plain(app_a, id_a);
    lemma_split_plain(app_b, id_b);
}

/// Changing the limits of one app changes those of all its breakers and of no
/// breaker of another app.
pub proof fn reconfiguring_one_app(
    breakers: Breakers,
    app_type: Seq<char>,
    other_app: Seq<char>,
    provider_id: Seq<char>,
    config: CircuitBreakerConfig,
)
    requires
        is_plain(app_type),
        is_plain(other_app),
        breakers.contains_key(key_of(other_app, provider_id)),
    ensures
        ({
            let key = key_of(other_app, provider_id);
            reconfigured(breakers, app_type + seq![':'], config)[key] == if app_type == other_app {
                breakers[key].with_config(config)
            } else {
                breakers[key]
            }
        }),
{
    let key = key_of(other_app, provider_id);
    let prefix = app_type + seq![':'];
    if app_type == other_app {
        assert(key.subrange(0, prefix.len() as int) =~= prefix);
    }
    if begins_with(key, prefix) {
        let rest = key.skip(prefix.len() as int);
        assert(key =~= prefix + rest) by {
            assert(key.subrange(0, prefix.len() as int) == prefix);
            assert forall|i: int| 0 <= i < prefix.len() implies key[i] == prefix[i] by {
                assert(key.subrange(0, prefix.len() as int)[i] == key[i]);
            }
        }
        lemma_split_plain(app_type, rest);
        lemma_split_plain(other_app, provider_id);
    }
}

/// Changing the limits of all apps changes those of every breaker.
pub proof fn reconfiguring_all(
    breakers: Breakers,
    config: CircuitBreakerConfig,
    key: Seq<char>,
)
    requires
        breakers.contains_key(key),
    ensures
        reconfigured(breakers, Seq::empty(), config)[key] == breakers[key].with_config(config),
{
    assert(key.subrange(0, 0) =~= Seq::<char>::empty());
}

/// Without failover the current provider is the only one, whatever its breaker
/// says, and no breaker is asked.
pub proof fn without_failover_current_is_the_route(
    breakers: Breakers,
    app_type: Seq<char>,
    inputs: RouteInputs,
    elapsed: Seq<u64>,
)
    requires
        !inputs.failover_on(),
    ensures
        route(breakers, app_type, inputs, elapsed).1 == breakers,
        inputs.current_provider matches Ok(Some(current)) ==> route(
            breakers,
            app_type,
            inputs,
            elapsed,
        ).0 == Ok::<Seq<Provider>, AppError>(seq![current]),
        inputs.current_provider matches Ok(None) ==> route(
            breakers,
            app_type,
            inputs,
            elapsed,
        ).0 == Err::<Seq<Provider>, AppError>(AppError::NoProvidersConfigured),
{
}

/// A current provider that takes requests alone is the only one even where
/// failover is on.
pub proof fn pinned_provider_is_the_route(
    breakers: Breakers,
    app_type: Seq<char>,
    inputs: RouteInputs,
    elapsed: Seq<u64>,
    current: Provider,
)
    requires
        inputs.current_provider == Ok::<Option<Provider>, AppError>(Some(current)),
        !supports_failover(app_type, current),
    ensures
        route(breakers, app_type, inputs, elapsed) == (
            Ok::<Seq<Provider>, AppError>(seq![current]),
            breakers,
        ),
{
}

/// With failover on, which provider is the current one does not matter as long
/// as it is not one that takes requests alone.
pub proof fn queue_decides_alone(
    breakers: Breakers,
    app_type: Seq<char>,
    inputs: RouteInputs,
    other: RouteInputs,
    elapsed: Seq<u64>,
)
    requires
        inputs.uses_queue(app_type),
        other.uses_queue(app_type),
        other.all_providers == inputs.all_providers,
        other.failover_queue == inputs.failover_queue,
    ensures
        route(breakers, app_type, other, elapsed) == route(breakers, app_type, inputs, elapsed),
{
}

/// A successful selection is never empty.
pub proof fn selection_is_not_empty(
    breakers: Breakers,
    app_type: Seq<char>,
    inputs: RouteInputs,
    elapsed: Seq<u64>,
)
    ensures
        route(breakers, app_type, inputs, elapsed).0 matches Ok(chosen) ==> chosen.len() > 0,
{
}

/// `places` are places of the queue in ascending order, and `chosen` are the
/// providers of the entries there.
pub open spec fn are_in_queue_order(
    chosen: Seq<Provider>,
    places: Seq<int>,
    app_type: Seq<char>,
    providers: Seq<Provider>,
    queue: Seq<QueueEntryView>,
) -> bool {
    &&& places.len() == chosen.len()
    &&& forall|i: int| 0 <= i < places.len() ==> 0 <= #[trigger] places[i] < queue.len()
    &&& forall|i: int, j: int| 0 <= i < j < places.len() ==> places[i] < places[j]
    &&& forall|i: int|
        0 <= i < places.len() ==> candidate(app_type, providers, queue[#[trigger] places[i]])
            == Some(chosen[i])
}

/// The places of the queue from which the walk took its providers.
pub open spec fn chosen_places(
    breakers: Breakers,
    app_type: Seq<char>,
    providers: Seq<Provider>,
    queue: Seq<QueueEntryView>,
    elapsed: Seq<u64>,
) -> Seq<int>
    decreases queue.len(),
{
    if queue.len() == 0 {
        Seq::empty()
    } else {
        let places = chosen_places(
            breakers,
            app_type,
            providers,
            queue.drop_last(),
            elapsed.drop_last(),
        );
        if walk(breakers, app_type, providers, queue, elapsed).chosen.len() > walk(
            breakers,
            app_type,
            providers,
            queue.drop_last(),
            elapsed.drop_last(),
        ).chosen.len() {
            places.push(queue.len() - 1)
        } else {
            places
        }
    }
}

/// The providers that are selected stand in the order of the failover queue.
pub proof fn selection_follows_queue(
    breakers: Breakers,
    app_type: Seq<char>,
    providers: Seq<Provider>,
    queue: Seq<QueueEntryView>,
    elapsed: Seq<u64>,
)
    ensures
        are_in_queue_order(
            walk(breakers, app_type, providers, queue, elapsed).chosen,
            chosen_places(breakers, app_type, providers, queue, elapsed),
            app_type,
            providers,
            queue,
        ),
    decreases queue.len(),
{
    if queue.len() > 0 {
        selection_follows_queue(
            breakers,
            app_type,
            providers,
            queue.drop_last(),
            elapsed.drop_last(),
        );
        let places = chosen_places(
            breakers,
            app_type,
            providers,
            queue.drop_last(),
            elapsed.drop_last(),
        );
        assert forall|i: int| 0 <= i < places.len() implies queue.drop_last()[#[trigger] places[i]]
            == queue[places[i]] by {}
    }
}

/// Every selected provider is one of the app's, stands in the queue, and may be
/// tried after another one has failed.
pub proof fn selected_providers_are_candidates(
    breakers: Breakers,
    app_type: Seq<char>,
    providers: Seq<Provider>,
    queue: Seq<QueueEntryView>,
    elapsed: Seq<u64>,
    i: int,
)
    requires
        0 <= i < walk(breakers, app_type, providers, queue, elapsed).chosen.len(),
    ensures
        ({
            let provider = walk(breakers, app_type, providers, queue, elapsed).chosen[i];
            &&& providers.contains(provider)
            &&& supports_failover(app_type, provider)
            &&& exists|place: int|
                0 <= place < queue.len() && (#[trigger] queue[place]).provider_id == provider.id@
        }),
{
    selection_follows_queue(breakers, app_type, providers, queue, elapsed);
    let place = chosen_places(breakers, app_type, providers, queue, elapsed)[i];
    lemma_found_provider(providers, queue[place].provider_id);
}

/// Each candidate is either selected or has an open breaker. So a selection
/// that comes out empty is blamed on open breakers exactly where there was a
/// candidate, and otherwise on there being none.
pub proof fn empty_selection_is_explained(
    breakers: Breakers,
    app_type: Seq<char>,
    providers: Seq<Provider>,
    queue: Seq<QueueEntryView>,
    elapsed: Seq<u64>,
)
    ensures
        ({
            let walk = walk(breakers, app_type, providers, queue, elapsed);
            &&& walk.candidates == walk.chosen.len() + walk.open
            &&& walk_result(walk) == Err::<Seq<Provider>, AppError>(
                AppError::AllProvidersCircuitOpen,
            ) <==> walk.chosen.len() == 0 && walk.candidates > 0
            &&& walk_result(walk) == Err::<Seq<Provider>, AppError>(
                AppError::NoProvidersConfigured,
            ) <==> walk.candidates == 0
        }),
    decreases queue.len(),
{
    if queue.len() > 0 {
        empty_selection_is_explained(
            breakers,
            app_type,
            providers,
            queue.drop_last(),
            elapsed.drop_last(),
        );
    }
}

/// Selecting providers takes no permit and records nothing: a breaker is left
/// as it was, or becomes half open because its timeout has passed. A breaker
/// that is made for the occasion is closed.
pub proof fn selection_takes_no_permit(
    breakers: Breakers,
    app_type: Seq<char>,
    providers: Seq<Provider>,
    queue: Seq<QueueEntryView>,
    elapsed: Seq<u64>,
    key: Seq<char>,
)
    ensures
        ({
            let after = walk(breakers, app_type, providers, queue, elapsed).breakers;
            &&& breakers.contains_key(key) ==> {
                &&& after.contains_key(key)
                &&& after[key] == breakers[key] || after[key] == breakers[key].to_half_open()
            }
            &&& !breakers.contains_key(key) && after.contains_key(key) ==> exists|
                source: SourceView,
            |
                after[key] == #[trigger] made_breaker(key, source)
        }),
    decreases queue.len(),
{
    if queue.len() > 0 {
        selection_takes_no_permit(
            breakers,
            app_type,
            providers,
            queue.drop_last(),
            elapsed.drop_last(),
            key,
        );
    }
}

/// Selecting providers keeps all breakers well formed and under their own keys.
pub proof fn selection_keeps_breakers_wf(
    breakers: Breakers,
    app_type: Seq<char>,
    inputs: RouteInputs,
    elapsed: Seq<u64>,
)
    requires
        breakers_wf(breakers),
    ensures
        breakers_wf(route(breakers, app_type, inputs, elapsed).1),
{
    if inputs.all_providers is Ok && inputs.failover_queue is Ok {
        let providers = inputs.all_providers->Ok_0@;
        let queue = inputs.failover_queue->Ok_0.deep_view();
        let after = walk(breakers, app_type, providers, queue, elapsed).breakers;
        assert forall|key: Seq<char>| #[trigger] after.contains_key(key) implies after[key].wf()
            && after[key].circuit_key == key by {
            selection_takes_no_permit(breakers, app_type, providers, queue, elapsed, key);
        }
    }
}

/// A candidate whose breaker is not open, or has been open for its timeout, is
/// selected.
pub proof fn available_candidates_are_selected(
    breakers: Breakers,
    app_type: Seq<char>,
    providers: Seq<Provider>,
    queue: Seq<QueueEntryView>,
    elapsed: Seq<u64>,
    place: int,
    provider: Provider,
)
    requires
        0 <= place < queue.len(),
        elapsed.len() == queue.len(),
        candidate(app_type, providers, queue[place]) == Some(provider),
        ({
            let key = key_of(app_type, provider.id@);
            breakers.contains_key(key) ==> {
                ||| !(breakers[key].state is Open)
                ||| breakers[key].is_due(elapsed[place])
            }
        }),
    ensures
        walk(breakers, app_type, providers, queue, elapsed).chosen.contains(provider),
    decreases queue.len(),
{
    let before = walk(breakers, app_type, providers, queue.drop_last(), elapsed.drop_last());
    let after = walk(breakers, app_type, providers, queue, elapsed);
    if place == queue.len() - 1 {
        selection_takes_no_permit(
            breakers,
            app_type,
            providers,
            queue.drop_last(),
            elapsed.drop_last(),
            key_of(app_type, provider.id@),
        );
        assert(after.chosen.last() == provider);
    } else {
        available_candidates_are_selected(
            breakers,
            app_type,
            providers,
            queue.drop_last(),
            elapsed.drop_last(),
            place,
            provider,
        );
        let i = choose|i: int| 0 <= i < before.chosen.len() && before.chosen[i] == provider;
        assert(after.chosen[i] == provider);
    }
}

} // verus!
