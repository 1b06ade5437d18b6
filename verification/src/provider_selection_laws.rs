//! Which providers are selected, place by place of the failover queue.

use crate::circuit_breaker::{BreakerView, CircuitState};
use crate::provider::{lemma_found_provider, provider_with_id, AppError, Provider};
use crate::provider_router::{is_open_secs, key_of, Breakers};
use crate::provider_selection::{
    are_open_secs, base_url, candidate, is_first_hit, is_selection, queue_len, route,
    url_matches, walk, QueueEntry, QueueEntryView, RouteInputs,
};
use crate::settings::{json_value, string_of, value_at};
use crate::text::lowercased;
use crate::text_laws::holding_is_splitting;
use std::time::Instant;
use vstd::prelude::*;

verus! {

/// The provider that is found under an id is the first one of the list that has
/// it, and one is found just when there is one.
pub proof fn found_provider_is_the_first(providers: Seq<Provider>, id: Seq<char>)
    ensures
        provider_with_id(providers, id) is None <==> forall|i: int|
            0 <= i < providers.len() ==> (#[trigger] providers[i]).id@ != id,
        provider_with_id(providers, id) matches Some(provider) ==> exists|i: int|
            0 <= i < providers.len() && #[trigger] providers[i] == provider && provider.id@ == id
                && forall|j: int| 0 <= j < i ==> (#[trigger] providers[j]).id@ != id,
    decreases providers.len(),
{
    if providers.len() > 0 {
        let rest = providers.skip(1);
        assert forall|i: int| 0 < i < providers.len() implies providers[i] == rest[i - 1] by {}
        if providers[0].id@ != id {
            found_provider_is_the_first(rest, id);
            if let Some(provider) = provider_with_id(providers, id) {
                let i = choose|i: int|
                    0 <= i < rest.len() && #[trigger] rest[i] == provider && provider.id@ == id
                        && forall|j: int| 0 <= j < i ==> (#[trigger] rest[j]).id@ != id;
                assert forall|j: int| 0 <= j < i + 1 implies (#[trigger] providers[j]).id@
                    != id by {
                    if j > 0 {
                        assert(rest[j - 1].id@ != id);
                    }
                }
                assert(providers[i + 1] == provider);
            } else {
                assert forall|i: int| 0 <= i < providers.len() implies (
                #[trigger] providers[i]).id@ != id by {
                    if i > 0 {
                        assert(rest[i - 1].id@ != id);
                    }
                }
            }
        } else {
            assert(providers[0] == provider_with_id(providers, id)->0);
        }
    }
}

/// The candidate of a queue entry is the provider with the id of the entry, unless
/// it is an account card of Codex Official in the app of Codex.
pub proof fn candidate_is_the_provider_of_the_entry(
    app_type: Seq<char>,
    providers: Seq<Provider>,
    entry: QueueEntryView,
)
    ensures
        match provider_with_id(providers, entry.provider_id) {
            Some(provider) => candidate(app_type, providers, entry) == if app_type == "codex"@
                && provider.codex_official {
                None
            } else {
                Some(provider)
            },
            None => candidate(app_type, providers, entry) is None,
        },
{
}

/// The breaker of a provider is not open, or was open for its timeout: there is no
/// such breaker yet, it is closed or half open, or as many seconds have passed as
/// its timeout has.
pub open spec fn may_be_tried(
    breakers: Breakers,
    app_type: Seq<char>,
    id: Seq<char>,
    elapsed_secs: u64,
) -> bool {
    let key = app_type + seq![':'] + id;
    breakers.contains_key(key) && breakers[key].state == CircuitState::Open ==> {
        &&& breakers[key].last_opened_at is Some
        &&& elapsed_secs >= breakers[key].config.timeout_seconds
    }
}

/// No two entries of the queue are of the same provider.
pub open spec fn entries_differ(queue: Seq<QueueEntryView>) -> bool {
    forall|i: int, j: int|
        0 <= i < j < queue.len() ==> (#[trigger] queue[i]).provider_id != (
        #[trigger] queue[j]).provider_id
}

/// A provider with the given id is among the given ones.
pub open spec fn has_id(chosen: Seq<Provider>, id: Seq<char>) -> bool {
    exists|k: int| 0 <= k < chosen.len() && (#[trigger] chosen[k]).id@ == id
}

proof fn lemma_same_key(app_type: Seq<char>, a: Seq<char>, b: Seq<char>)
    ensures
        key_of(app_type, a) == app_type + seq![':'] + a,
        key_of(app_type, a) == key_of(app_type, b) ==> a == b,
{
    let n = app_type.len() as int + 1;
    assert(key_of(app_type, a).skip(n) =~= a);
    assert(key_of(app_type, b).skip(n) =~= b);
}

/// A breaker of which no entry of the queue speaks is left as it is.
proof fn lemma_untouched(
    breakers: Breakers,
    app_type: Seq<char>,
    providers: Seq<Provider>,
    queue: Seq<QueueEntryView>,
    elapsed: Seq<u64>,
    id: Seq<char>,
)
    requires
        forall|i: int| 0 <= i < queue.len() ==> (#[trigger] queue[i]).provider_id != id,
    ensures
        ({
            let key = key_of(app_type, id);
            let walked = walk(breakers, app_type, providers, queue, elapsed);
            &&& walked.breakers.contains_key(key) <==> breakers.contains_key(key)
            &&& breakers.contains_key(key) ==> walked.breakers[key] == breakers[key]
            &&& !has_id(walked.chosen, id)
        }),
    decreases queue.len(),
{
    if queue.len() > 0 {
        let before = queue.drop_last();
        assert forall|i: int| 0 <= i < before.len() implies (#[trigger] before[i]).provider_id
            != id by {
            assert(queue[i].provider_id != id);
        }
        lemma_untouched(breakers, app_type, providers, before, elapsed.drop_last(), id);
        assert(queue[queue.len() - 1].provider_id != id);
        lemma_found_provider(providers, queue.last().provider_id);
        lemma_same_key(app_type, id, queue.last().provider_id);
        lemma_chosen_step(breakers, app_type, providers, queue, elapsed);
    }
}

/// What the last entry of the queue adds to the selection.
proof fn lemma_chosen_step(
    breakers: Breakers,
    app_type: Seq<char>,
    providers: Seq<Provider>,
    queue: Seq<QueueEntryView>,
    elapsed: Seq<u64>,
)
    requires
        queue.len() > 0,
    ensures
        ({
            let before = walk(
                breakers,
                app_type,
                providers,
                queue.drop_last(),
                elapsed.drop_last(),
            ).chosen;
            let after = walk(breakers, app_type, providers, queue, elapsed).chosen;
            &&& forall|id: Seq<char>| #[trigger]
                has_id(before, id) ==> has_id(after, id)
            &&& forall|id: Seq<char>| #[trigger]
                has_id(after, id) && id != queue.last().provider_id ==> has_id(before, id)
            &&& after.len() > before.len() ==> has_id(after, queue.last().provider_id)
            &&& after.len() <= before.len() ==> after == before
        }),
{
    let before = walk(
        breakers,
        app_type,
        providers,
        queue.drop_last(),
        elapsed.drop_last(),
    ).chosen;
    let after = walk(breakers, app_type, providers, queue, elapsed).chosen;
    lemma_found_provider(providers, queue.last().provider_id);
    assert forall|id: Seq<char>| #[trigger] has_id(before, id) implies has_id(after, id) by {
        let k = choose|k: int| 0 <= k < before.len() && (#[trigger] before[k]).id@ == id;
        assert(after[k] == before[k]);
    }
    assert forall|id: Seq<char>| #[trigger]
        has_id(after, id) && id != queue.last().provider_id implies has_id(before, id) by {
        let k = choose|k: int| 0 <= k < after.len() && (#[trigger] after[k]).id@ == id;
        assert(before[k] == after[k]);
    }
    if after.len() > before.len() {
        assert(after[before.len() as int].id@ == queue.last().provider_id);
    }
}

/// A provider whose breaker is open, and has not been open for its timeout at any
/// place of the queue where it stands, is not selected, and its breaker is left as
/// it is.
pub proof fn open_breakers_are_left_out(
    breakers: Breakers,
    app_type: Seq<char>,
    providers: Seq<Provider>,
    queue: Seq<QueueEntryView>,
    elapsed: Seq<u64>,
    id: Seq<char>,
)
    requires
        elapsed.len() == queue.len(),
        forall|i: int|
            0 <= i < queue.len() && (#[trigger] queue[i]).provider_id == id ==> !may_be_tried(
                breakers,
                app_type,
                id,
                elapsed[i],
            ),
    ensures
        ({
            let walked = walk(breakers, app_type, providers, queue, elapsed);
            let key = app_type + seq![':'] + id;
            &&& forall|k: int|
                0 <= k < walked.chosen.len() ==> (#[trigger] walked.chosen[k]).id@ != id
            &&& walked.breakers.contains_key(key) <==> breakers.contains_key(key)
            &&& breakers.contains_key(key) ==> walked.breakers[key] == breakers[key]
        }),
    decreases queue.len(),
{
    lemma_same_key(app_type, id, id);
    if queue.len() > 0 {
        let last = queue.len() - 1;
        let before = queue.drop_last();
        assert forall|i: int|
            0 <= i < before.len() && (#[trigger] before[i]).provider_id
                == id implies !may_be_tried(breakers, app_type, id, elapsed.drop_last()[i]) by {
            assert(queue[i].provider_id == id);
        }
        open_breakers_are_left_out(
            breakers,
            app_type,
            providers,
            before,
            elapsed.drop_last(),
            id,
        );
        lemma_found_provider(providers, queue[last].provider_id);
        lemma_same_key(app_type, id, queue[last].provider_id);
        let walked = walk(breakers, app_type, providers, queue, elapsed);
        let part = walk(breakers, app_type, providers, before, elapsed.drop_last());
        assert forall|k: int| 0 <= k < walked.chosen.len() implies (
        #[trigger] walked.chosen[k]).id@ != id by {
            if k < part.chosen.len() {
                assert(walked.chosen[k] == part.chosen[k]);
            }
        }
    }
}

/// From a queue in which every provider stands once, just those are selected that
/// are candidates and may be tried: whose breaker is not open, or was open for its
/// timeout at the time that counts for their place.
pub proof fn selected_just_when_it_may_be_tried(
    breakers: Breakers,
    app_type: Seq<char>,
    providers: Seq<Provider>,
    queue: Seq<QueueEntryView>,
    elapsed: Seq<u64>,
    place: int,
)
    requires
        elapsed.len() == queue.len(),
        entries_differ(queue),
        0 <= place < queue.len(),
    ensures
        ({
            let chosen = walk(breakers, app_type, providers, queue, elapsed).chosen;
            let id = queue[place].provider_id;
            has_id(chosen, id) <==> candidate(app_type, providers, queue[place]) is Some
                && may_be_tried(breakers, app_type, id, elapsed[place])
        }),
    decreases queue.len(),
{
    let last = queue.len() - 1;
    let before = queue.drop_last();
    let id = queue[place].provider_id;
    let walked = walk(breakers, app_type, providers, queue, elapsed);
    let part = walk(breakers, app_type, providers, before, elapsed.drop_last());
    lemma_chosen_step(breakers, app_type, providers, queue, elapsed);
    lemma_same_key(app_type, id, id);
    if place < last {
        assert forall|i: int, j: int| 0 <= i < j < before.len() implies (
        #[trigger] before[i]).provider_id != (#[trigger] before[j]).provider_id by {
            assert(queue[i].provider_id != queue[j].provider_id);
        }
        selected_just_when_it_may_be_tried(
            breakers,
            app_type,
            providers,
            before,
            elapsed.drop_last(),
            place,
        );
        assert(queue[place].provider_id != queue[last].provider_id);
    } else {
        assert forall|i: int| 0 <= i < before.len() implies (#[trigger] before[i]).provider_id
            != id by {
            assert(queue[i].provider_id != queue[last].provider_id);
        }
        lemma_untouched(breakers, app_type, providers, before, elapsed.drop_last(), id);
        lemma_found_provider(providers, id);
    }
}

/// What selecting does to the breaker of a candidate, in a queue in which every
/// provider stands once: one that was open for its timeout becomes half open with
/// no probe in flight, and any other that there is stays as it is.
pub proof fn selection_makes_due_breakers_half_open(
    breakers: Breakers,
    app_type: Seq<char>,
    providers: Seq<Provider>,
    queue: Seq<QueueEntryView>,
    elapsed: Seq<u64>,
    place: int,
)
    requires
        elapsed.len() == queue.len(),
        entries_differ(queue),
        0 <= place < queue.len(),
        breakers.contains_key(app_type + seq![':'] + queue[place].provider_id),
    ensures
        ({
            let key = app_type + seq![':'] + queue[place].provider_id;
            let after = walk(breakers, app_type, providers, queue, elapsed).breakers;
            &&& after.contains_key(key)
            &&& after[key] == if breakers[key].state == CircuitState::Open && candidate(
                app_type,
                providers,
                queue[place],
            ) is Some && may_be_tried(
                breakers,
                app_type,
                queue[place].provider_id,
                elapsed[place],
            ) {
                BreakerView {
                    state: CircuitState::HalfOpen,
                    consecutive_successes: 0,
                    half_open_requests: 0,
                    ..breakers[key]
                }
            } else {
                breakers[key]
            }
        }),
    decreases queue.len(),
{
    let last = queue.len() - 1;
    let before = queue.drop_last();
    let id = queue[place].provider_id;
    lemma_same_key(app_type, id, id);
    lemma_same_key(app_type, id, queue[last].provider_id);
    lemma_found_provider(providers, queue[last].provider_id);
    if place < last {
        assert forall|i: int, j: int| 0 <= i < j < before.len() implies (
        #[trigger] before[i]).provider_id != (#[trigger] before[j]).provider_id by {
            assert(queue[i].provider_id != queue[j].provider_id);
        }
        selection_makes_due_breakers_half_open(
            breakers,
            app_type,
            providers,
            before,
            elapsed.drop_last(),
            place,
        );
        assert(queue[place].provider_id != queue[last].provider_id);
    } else {
        assert forall|i: int| 0 <= i < before.len() implies (#[trigger] before[i]).provider_id
            != id by {
            assert(queue[i].provider_id != queue[last].provider_id);
        }
        lemma_untouched(breakers, app_type, providers, before, elapsed.drop_last(), id);
    }
}

/// Some entry of the queue has a candidate.
pub open spec fn has_candidate(
    app_type: Seq<char>,
    providers: Seq<Provider>,
    queue: Seq<QueueEntryView>,
) -> bool {
    exists|i: int|
        0 <= i < queue.len() && candidate(app_type, providers, #[trigger] queue[i]) is Some
}

proof fn lemma_candidates(
    breakers: Breakers,
    app_type: Seq<char>,
    providers: Seq<Provider>,
    queue: Seq<QueueEntryView>,
    elapsed: Seq<u64>,
)
    ensures
        ({
            let walked = walk(breakers, app_type, providers, queue, elapsed);
            &&& walked.candidates == walked.chosen.len() + walked.open
            &&& walked.candidates > 0 <==> has_candidate(app_type, providers, queue)
        }),
    decreases queue.len(),
{
    if queue.len() > 0 {
        let before = queue.drop_last();
        lemma_candidates(breakers, app_type, providers, before, elapsed.drop_last());
        if has_candidate(app_type, providers, before) {
            let i = choose|i: int|
                0 <= i < before.len() && candidate(
                    app_type,
                    providers,
                    #[trigger] before[i],
                ) is Some;
            assert(candidate(app_type, providers, queue[i]) is Some);
        }
        if has_candidate(app_type, providers, queue) {
            let i = choose|i: int|
                0 <= i < queue.len() && candidate(app_type, providers, #[trigger] queue[i]) is Some;
            if i < before.len() {
                assert(candidate(app_type, providers, before[i]) is Some);
            }
        }
        if candidate(app_type, providers, queue.last()) is Some {
            assert(candidate(app_type, providers, queue[queue.len() - 1]) is Some);
        }
    }
}

/// Where a request goes. A current provider that could not be read is an error.
/// Without failover the current provider is the route, and so is an account card of
/// Codex Official even with failover; no breaker is asked. Otherwise the queue
/// decides: reads that failed are errors, those that may be tried are the route,
/// and if there is none, what is missing is a closed breaker where there is a
/// candidate, and a provider where there is not.
pub proof fn route_of_a_request(
    breakers: Breakers,
    app_type: Seq<char>,
    inputs: RouteInputs,
    elapsed: Seq<u64>,
)
    ensures
        ({
            let (result, after) = route(breakers, app_type, inputs, elapsed);
            let on = inputs.auto_failover_enabled matches Ok(enabled) && enabled;
            match inputs.current_provider {
                Err(error) => result == Err::<Seq<Provider>, AppError>(error) && after == breakers,
                Ok(current) => {
                    let alone = current matches Some(provider) && app_type == "codex"@
                        && provider.codex_official;
                    &&& !on || alone ==> {
                        &&& after == breakers
                        &&& result == match current {
                            Some(provider) => Ok::<Seq<Provider>, AppError>(seq![provider]),
                            None => Err(AppError::NoProvidersConfigured),
                        }
                    }
                    &&& on && !alone ==> match (inputs.all_providers, inputs.failover_queue) {
                        (Err(error), _) => result == Err::<Seq<Provider>, AppError>(error) && after
                            == breakers,
                        (Ok(_), Err(error)) => result == Err::<Seq<Provider>, AppError>(error)
                            && after == breakers,
                        (Ok(providers), Ok(queue)) => {
                            let places = queue.deep_view();
                            let walked = walk(breakers, app_type, providers@, places, elapsed);
                            &&& after == walked.breakers
                            &&& result == if walked.chosen.len() > 0 {
                                Ok::<Seq<Provider>, AppError>(walked.chosen)
                            } else if has_candidate(app_type, providers@, places) {
                                Err(AppError::AllProvidersCircuitOpen)
                            } else {
                                Err(AppError::NoProvidersConfigured)
                            }
                        },
                    }
                },
            }
        }),
{
    if let (Ok(providers), Ok(queue)) = (inputs.all_providers, inputs.failover_queue) {
        lemma_candidates(breakers, app_type, providers@, queue.deep_view(), elapsed);
    }
}

/// A result is the selection that is expected just when it holds the same providers
/// in the same order, or the same error.
pub proof fn selections_are_compared_whole(
    result: Result<Vec<Provider>, AppError>,
    expected: Result<Seq<Provider>, AppError>,
)
    requires
        is_selection(result, expected),
    ensures
        result is Ok <==> expected is Ok,
        result is Ok ==> result->Ok_0@ == expected->Ok_0,
        result is Err ==> result->Err_0 == expected->Err_0,
{
}

/// The seconds that count for a place are those from the last opening of its
/// breaker to an instant that the clock returned; where the breaker is not there or
/// never opened, they are zero.
pub proof fn seconds_are_counted_to_the_present(
    breakers: Breakers,
    app_type: Seq<char>,
    queue: Seq<QueueEntryView>,
    elapsed: Seq<u64>,
    place: int,
)
    requires
        are_open_secs(breakers, app_type, queue, elapsed),
        0 <= place < elapsed.len(),
    ensures
        ({
            let key = app_type + seq![':'] + queue[place].provider_id;
            if breakers.contains_key(key) && breakers[key].last_opened_at is Some {
                exists|now: Instant|
                    call_ensures(Instant::now, (), now) && elapsed[place]
                        == #[trigger] crate::clock::whole_secs(
                        crate::clock::time_between(breakers[key].last_opened_at->0, now),
                    )
            } else {
                elapsed[place] == 0
            }
        }),
{
    lemma_same_key(app_type, queue[place].provider_id, queue[place].provider_id);
    assert(is_open_secs(
        breakers,
        key_of(app_type, queue[place].provider_id),
        elapsed[place],
    ));
}

/// There is a time for each entry of the queue, where it could be read.
pub proof fn every_entry_has_its_time(inputs: RouteInputs)
    ensures
        inputs.failover_queue matches Ok(queue) ==> queue_len(inputs) == queue@.len(),
{
}

/// The contracts see every field of a queue entry.
pub proof fn entry_is_seen_whole(entry: QueueEntry)
    ensures
        entry@.provider_id == entry.provider_id@,
        entry@.source.config == entry.source.config,
        entry@.source.provider_name is Some <==> entry.source.provider_name is Some,
        entry.source.provider_name is Some ==> entry@.source.provider_name->0
            == entry.source.provider_name->0@,
        entry.deep_view() == entry@,
{
}

/// The provider to fall back to comes before every other one that fits: by its sort
/// index, where one without an index comes last, and then by the order of the list.
pub proof fn first_hit_comes_first(providers: Seq<Provider>, hits: Seq<bool>, i: int, j: int)
    requires
        is_first_hit(providers, hits, i),
        0 <= j < providers.len(),
        hits[j],
    ensures
        0 <= i < providers.len(),
        hits[i],
        match (providers[i].sort_index, providers[j].sort_index) {
            (Some(a), Some(b)) => a < b || a == b && i <= j,
            (Some(a), None) => a < usize::MAX || i <= j,
            (None, Some(b)) => b == usize::MAX && i <= j,
            (None, None) => i <= j,
        },
{
}

/// A provider fits a keyword just when its settings are JSON with a text at the
/// place of the base URL, and that text in lower case is something, the keyword in
/// lower case, and something.
pub proof fn url_fits_a_keyword(provider: Provider, keyword: Seq<char>)
    ensures
        url_matches(base_url(provider), keyword) <==> {
            &&& json_value(provider.settings_config@) matches Some(value)
            &&& value_at(value, "/env/ANTHROPIC_BASE_URL"@) matches Some(found)
            &&& string_of(found) matches Some(url)
            &&& exists|a: Seq<char>, b: Seq<char>|
                lowercased(url) == #[trigger] (a + lowercased(keyword) + b)
        },
{
    if let Some(url) = base_url(provider) {
        holding_is_splitting(lowercased(url), lowercased(keyword));
    }
}

} // verus!
