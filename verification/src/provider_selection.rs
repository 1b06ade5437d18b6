//! Which providers a request may be sent to, in which order.

use crate::provider::{find_provider, provider_with_id, AppError, Provider};
use crate::provider_router::{
    breaker_for, circuit_key, is_open_secs, key_of, provider_supports_failover, supports_failover,
    BreakerSource, Breakers, ProviderRouter, SourceView,
};
use crate::settings::{json_string_at, read_json_string};
use crate::text::{contains, contains_text, lowercased, to_lowercase};
use vstd::prelude::*;

verus! {

/// An entry of the failover queue of an app, with what the store says of the
/// app and the provider.
#[derive(Debug)]
pub struct QueueEntry {
    pub provider_id: String,
    pub source: BreakerSource,
}

/// A `QueueEntry` as the contracts see it.
pub struct QueueEntryView {
    pub provider_id: Seq<char>,
    pub source: SourceView,
}

impl View for QueueEntry {
    type V = QueueEntryView;

    open spec fn view(&self) -> QueueEntryView {
        QueueEntryView { provider_id: self.provider_id@, source: self.source@ }
    }
}

impl DeepView for QueueEntry {
    type V = QueueEntryView;

    open spec fn deep_view(&self) -> QueueEntryView {
        self@
    }
}

/// What the store says of an app when a request comes in. A read that failed
/// counts only where what it would have brought is needed.
#[derive(Debug)]
pub struct RouteInputs {
    /// The current provider of the app.
    pub current_provider: Result<Option<Provider>, AppError>,
    /// Automatic failover is on.
    pub auto_failover_enabled: Result<bool, AppError>,
    /// All providers of the app.
    pub all_providers: Result<Vec<Provider>, AppError>,
    /// The failover queue of the app, in order.
    pub failover_queue: Result<Vec<QueueEntry>, AppError>,
}

/// How far a walk along the failover queue has come.
pub struct Walk {
    pub breakers: Breakers,
    /// The providers that may be tried.
    pub chosen: Seq<Provider>,
    /// How many providers came into question.
    pub candidates: nat,
    /// How many of those have an open breaker.
    pub open: nat,
}

/// The provider of a queue entry, where there is one that may be tried after
/// another provider has failed.
pub open spec fn candidate(
    app_type: Seq<char>,
    providers: Seq<Provider>,
    entry: QueueEntryView,
) -> Option<Provider> {
    match provider_with_id(providers, entry.provider_id) {
        Some(provider) => if supports_failover(app_type, provider) {
            Some(provider)
        } else {
            None
        },
        None => None,
    }
}

/// The walk along the queue, where `elapsed[i]` seconds have passed since the
/// breaker of entry `i` last opened.
pub open spec fn walk(
    breakers: Breakers,
    app_type: Seq<char>,
    providers: Seq<Provider>,
    queue: Seq<QueueEntryView>,
    elapsed: Seq<u64>,
) -> Walk
    decreases queue.len(),
{
    if queue.len() == 0 {
        Walk { breakers, chosen: Seq::empty(), candidates: 0, open: 0 }
    } else {
        let before = walk(breakers, app_type, providers, queue.drop_last(), elapsed.drop_last());
        match candidate(app_type, providers, queue.last()) {
            None => before,
            Some(provider) => {
                let key = key_of(app_type, provider.id@);
                let asked = breaker_for(before.breakers, key, queue.last().source).availability(
                    elapsed.last(),
                );
                Walk {
                    breakers: before.breakers.insert(key, asked.1),
                    chosen: if asked.0 {
                        before.chosen.push(provider)
                    } else {
                        before.chosen
                    },
                    candidates: before.candidates + 1,
                    open: if asked.0 {
                        before.open
                    } else {
                        before.open + 1
                    },
                }
            },
        }
    }
}

/// The outcome of a walk.
pub open spec fn walk_result(walk: Walk) -> Result<Seq<Provider>, AppError> {
    if walk.chosen.len() > 0 {
        Ok(walk.chosen)
    } else if walk.candidates > 0 && walk.open == walk.candidates {
        Err(AppError::AllProvidersCircuitOpen)
    } else {
        Err(AppError::NoProvidersConfigured)
    }
}

impl RouteInputs {
    /// Automatic failover is known to be on.
    pub open spec fn failover_on(self) -> bool {
        self.auto_failover_enabled matches Ok(enabled) && enabled
    }

    /// The current provider, where it is one that takes requests alone.
    pub open spec fn pinned(self, app_type: Seq<char>) -> bool {
        &&& self.current_provider matches Ok(Some(current))
        &&& !supports_failover(app_type, current)
    }

    /// The queue is what decides.
    pub open spec fn uses_queue(self, app_type: Seq<char>) -> bool {
        self.current_provider is Ok && self.failover_on() && !self.pinned(app_type)
    }
}

/// The providers that a request may be sent to, and the breakers after they
/// were asked.
///
/// Without failover the current provider is the only one. With failover the
/// queue decides, except where the current provider takes requests alone.
pub open spec fn route(
    breakers: Breakers,
    app_type: Seq<char>,
    inputs: RouteInputs,
    elapsed: Seq<u64>,
) -> (Result<Seq<Provider>, AppError>, Breakers) {
    match inputs.current_provider {
        Err(error) => (Err(error), breakers),
        Ok(current) => if inputs.uses_queue(app_type) {
            match (inputs.all_providers, inputs.failover_queue) {
                (Err(error), _) => (Err(error), breakers),
                (Ok(_), Err(error)) => (Err(error), breakers),
                (Ok(providers), Ok(queue)) => {
                    let walk = walk(breakers, app_type, providers@, queue.deep_view(), elapsed);
                    (walk_result(walk), walk.breakers)
                },
            }
        } else {
            match current {
                Some(provider) => (Ok(seq![provider]), breakers),
                None => (Err(AppError::NoProvidersConfigured), breakers),
            }
        },
    }
}

/// How many entries the failover queue has, where it could be read.
pub open spec fn queue_len(inputs: RouteInputs) -> nat {
    match inputs.failover_queue {
        Ok(queue) => queue@.len(),
        Err(_) => 0,
    }
}

/// The seconds are those since the breakers of the queue entries last opened.
pub open spec fn are_open_secs(
    breakers: Breakers,
    app_type: Seq<char>,
    queue: Seq<QueueEntryView>,
    elapsed: Seq<u64>,
) -> bool {
    forall|i: int|
        0 <= i < elapsed.len() ==> is_open_secs(
            breakers,
            key_of(app_type, queue[i].provider_id),
            #[trigger] elapsed[i],
        )
}

/// The result is the given one, with the providers in a sequence.
pub open spec fn is_selection(
    result: Result<Vec<Provider>, AppError>,
    expected: Result<Seq<Provider>, AppError>,
) -> bool {
    match (result, expected) {
        (Ok(providers), Ok(chosen)) => providers@ == chosen,
        (Err(error), Err(reason)) => error == reason,
        _ => false,
    }
}

/// The id of the current provider: what the settings of the app say, if the app
/// is known and they say anything, or else what the store says.
pub fn resolve_current_id(
    effective: Option<Result<Option<String>, AppError>>,
    stored: Result<Option<String>, AppError>,
) -> (id: Option<String>)
    ensures
        id == match effective {
            Some(Ok(Some(id))) => Some(id),
            _ => match stored {
                Ok(stored_id) => stored_id,
                Err(_) => None,
            },
        },
{
    if let Some(Ok(Some(id))) = effective {
        return Some(id);
    }
    match stored {
        Ok(id) => id,
        Err(_) => None,
    }
}

impl ProviderRouter {
    /// The providers that a request may be sent to, by priority. Asking takes
    /// no permit of a half open breaker.
    pub fn select_providers(&mut self, app_type: &str, inputs: RouteInputs) -> (selected: Result<
        Vec<Provider>,
        AppError,
    >)
        requires
            old(self).wf(),
        ensures
            final(self).wf(),
            exists|elapsed: Seq<u64>|
                {
                    &&& elapsed.len() == queue_len(inputs)
                    &&& inputs.failover_queue matches Ok(queue) ==> are_open_secs(
                        old(self)@,
                        app_type@,
                        queue.deep_view(),
                        elapsed,
                    )
                    &&& is_selection(
                        selected,
                        (#[trigger] route(old(self)@, app_type@, inputs, elapsed)).0,
                    )
                    &&& final(self)@ == route(old(self)@, app_type@, inputs, elapsed).1
                },
    {
        let mut elapsed: Vec<u64> = Vec::new();
        if let Ok(queue) = &inputs.failover_queue {
            let mut i: usize = 0;
            while i < queue.len()
                invariant
                    i <= queue.len(),
                    elapsed.len() == i,
                    self.wf(),
                    self@ == old(self)@,
                    are_open_secs(old(self)@, app_type@, queue.deep_view(), elapsed@),
                decreases queue.len() - i,
            {
                let key = circuit_key(app_type, queue[i].provider_id.as_str());
                elapsed.push(self.open_secs(key.as_str()));
                i += 1;
            }
        }
        let selected = self.select_providers_after(app_type, inputs, &elapsed);
        assert(elapsed@.len() == queue_len(inputs));
        assert(is_selection(selected, route(old(self)@, app_type@, inputs, elapsed@).0));
        selected
    }

    /// `select_providers` where `elapsed[i]` seconds have passed since the
    /// breaker of queue entry `i` last opened.
    pub fn select_providers_after(
        &mut self,
        app_type: &str,
        inputs: RouteInputs,
        elapsed: &Vec<u64>,
    ) -> (selected: Result<Vec<Provider>, AppError>)
        requires
            old(self).wf(),
            elapsed@.len() == queue_len(inputs),
        ensures
            final(self).wf(),
            is_selection(selected, route(old(self)@, app_type@, inputs, elapsed@).0),
            final(self)@ == route(old(self)@, app_type@, inputs, elapsed@).1,
    {
        let current = match inputs.current_provider {
            Ok(current) => current,
            Err(error) => return Err(error),
        };
        let failover = match inputs.auto_failover_enabled {
            Ok(enabled) => enabled,
            Err(_) => false,
        };
        let pinned = match &current {
            Some(provider) => !provider_supports_failover(app_type, provider),
            None => false,
        };
        if failover && !pinned {
            let providers = match inputs.all_providers {
                Ok(providers) => providers,
                Err(error) => return Err(error),
            };
            let queue = match inputs.failover_queue {
                Ok(queue) => queue,
                Err(error) => return Err(error),
            };
            self.walk_queue(app_type, &providers, &queue, elapsed)
        } else {
            match current {
                Some(provider) => {
                    let mut selected: Vec<Provider> = Vec::new();
                    selected.push(provider);
                    assert(selected@ =~= seq![provider]);
                    Ok(selected)
                },
                None => Err(AppError::NoProvidersConfigured),
            }
        }
    }

    /// Walks along the failover queue and keeps the providers whose breakers
    /// are not open.
    fn walk_queue(
        &mut self,
        app_type: &str,
        providers: &Vec<Provider>,
        queue: &Vec<QueueEntry>,
        elapsed: &Vec<u64>,
    ) -> (selected: Result<Vec<Provider>, AppError>)
        requires
            old(self).wf(),
            elapsed@.len() == queue@.len(),
        ensures
            final(self).wf(),
            ({
                let walk = walk(
                    old(self)@,
                    app_type@,
                    providers@,
                    queue.deep_view(),
                    elapsed@,
                );
                &&& is_selection(selected, walk_result(walk))
                &&& final(self)@ == walk.breakers
            }),
    {
        let ghost entries = queue.deep_view();
        let mut chosen: Vec<Provider> = Vec::new();
        let mut candidates: usize = 0;
        let mut open: usize = 0;
        let mut i: usize = 0;
        while i < queue.len()
            invariant
                i <= queue.len(),
                elapsed@.len() == queue@.len(),
                entries == queue.deep_view(),
                self.wf(),
                open <= candidates <= i,
                ({
                    let walked = walk(
                        old(self)@,
                        app_type@,
                        providers@,
                        entries.take(i as int),
                        elapsed@.take(i as int),
                    );
                    &&& self@ == walked.breakers
                    &&& chosen@ == walked.chosen
                    &&& candidates == walked.candidates
                    &&& open == walked.open
                }),
            decreases queue.len() - i,
        {
            proof {
                assert(entries.take(i + 1).drop_last() =~= entries.take(i as int));
                assert(elapsed@.take(i + 1).drop_last() =~= elapsed@.take(i as int));
                assert(entries.take(i + 1).last() == queue@[i as int]@);
                assert(elapsed@.take(i + 1).last() == elapsed@[i as int]);
            }
            let entry = &queue[i];
            if let Some(provider) = find_provider(providers, entry.provider_id.as_str()) {
                if provider_supports_failover(app_type, provider) {
                    candidates += 1;
                    let key = circuit_key(app_type, provider.id.as_str());
                    let breaker = self.get_or_create_circuit_breaker(key.as_str(), &entry.source);
                    if breaker.is_available_after(elapsed[i]) {
                        chosen.push(provider.clone());
                    } else {
                        open += 1;
                    }
                }
            }
            i += 1;
        }
        assert(entries.take(queue@.len() as int) =~= entries);
        assert(elapsed@.take(queue@.len() as int) =~= elapsed@);
        if chosen.len() > 0 {
            Ok(chosen)
        } else if candidates > 0 && open == candidates {
            Err(AppError::AllProvidersCircuitOpen)
        } else {
            Err(AppError::NoProvidersConfigured)
        }
    }
}

/// Where the settings of a provider hold its base URL.
pub open spec fn base_url_pointer() -> Seq<char> {
    "/env/ANTHROPIC_BASE_URL"@
}

/// The base URL in the settings of a provider.
pub open spec fn base_url(provider: Provider) -> Option<Seq<char>> {
    json_string_at(provider.settings_config@, base_url_pointer())
}

/// A base URL holds the keyword, where upper and lower case are the same.
pub open spec fn url_matches(url: Option<Seq<char>>, keyword: Seq<char>) -> bool {
    url matches Some(url) && contains_text(lowercased(url), lowercased(keyword))
}

/// The place of a provider in the list; providers that the user has not
/// arranged come last.
pub open spec fn rank(provider: Provider) -> usize {
    match provider.sort_index {
        Some(index) => index,
        None => usize::MAX,
    }
}

/// Provider `i` is the first of those with a hit, by rank and then by the order
/// in which they are given.
pub open spec fn is_first_hit(providers: Seq<Provider>, hits: Seq<bool>, i: int) -> bool {
    &&& 0 <= i < providers.len()
    &&& hits[i]
    &&& forall|j: int|
        0 <= j < providers.len() && #[trigger] hits[j] ==> {
            ||| rank(providers[i]) < rank(providers[j])
            ||| rank(providers[i]) == rank(providers[j]) && i <= j
        }
}

/// Whether a base URL in lower case holds a keyword in lower case.
pub fn lowercase_url_matches(url: &Option<String>, keyword: &str) -> (matches: bool)
    ensures
        matches == (url matches Some(url) && contains_text(url@, keyword@)),
{
    match url {
        Some(url) => contains(url.as_str(), keyword),
        None => false,
    }
}

/// The first provider with a hit, by rank and then by the order in which they
/// are given.
pub fn first_hit(providers: &Vec<Provider>, hits: &Vec<bool>) -> (first: Option<usize>)
    requires
        hits@.len() == providers@.len(),
    ensures
        first matches Some(i) ==> is_first_hit(providers@, hits@, i as int),
        first is None <==> forall|i: int| 0 <= i < hits@.len() ==> !#[trigger] hits@[i],
{
    let mut first: Option<usize> = None;
    let mut i: usize = 0;
    while i < providers.len()
        invariant
            i <= providers.len(),
            hits@.len() == providers@.len(),
            first is None <==> forall|j: int| 0 <= j < i ==> !#[trigger] hits@[j],
            first matches Some(best) ==> best < i && is_first_hit(
                providers@.take(i as int),
                hits@.take(i as int),
                best as int,
            ),
        decreases providers.len() - i,
    {
        let ghost seen_hits = hits@.take(i + 1);
        assert(forall|j: int| 0 <= j < i ==> hits@.take(i as int)[j] == #[trigger] seen_hits[j]);
        if hits[i] {
            let better = match first {
                None => true,
                Some(best) => sort_rank(&providers[i]) < sort_rank(&providers[best]),
            };
            if better {
                first = Some(i);
            }
            assert(hits@[i as int]);
        }
        i += 1;
    }
    assert(providers@.take(i as int) =~= providers@);
    assert(hits@.take(i as int) =~= hits@);
    first
}

/// The place of a provider in the list.
fn sort_rank(provider: &Provider) -> (place: usize)
    ensures
        place == rank(*provider),
{
    match provider.sort_index {
        Some(index) => index,
        None => usize::MAX,
    }
}

/// Which providers have a base URL that holds the keyword.
fn url_hits(providers: &Vec<Provider>, base_url_keyword: &str) -> (hits: Vec<bool>)
    ensures
        hits@.len() == providers@.len(),
        forall|i: int|
            0 <= i < providers@.len() ==> #[trigger] hits@[i] == url_matches(
                base_url(providers@[i]),
                base_url_keyword@,
            ),
{
    let keyword = to_lowercase(base_url_keyword);
    let mut hits: Vec<bool> = Vec::new();
    let mut i: usize = 0;
    while i < providers.len()
        invariant
            i <= providers.len(),
            hits@.len() == i,
            keyword@ == lowercased(base_url_keyword@),
            forall|j: int|
                0 <= j < i ==> #[trigger] hits@[j] == url_matches(
                    base_url(providers@[j]),
                    base_url_keyword@,
                ),
        decreases providers.len() - i,
    {
        let url = match read_json_string(
            providers[i].settings_config.as_str(),
            "/env/ANTHROPIC_BASE_URL",
        ) {
            Some(url) => Some(to_lowercase(url.as_str())),
            None => None,
        };
        hits.push(lowercase_url_matches(&url, keyword.as_str()));
        i += 1;
    }
    hits
}

impl ProviderRouter {
    /// The provider to fall back to: of all providers whose base URL holds the
    /// keyword, the first one by rank.
    pub fn find_fallback_provider(
        all_providers: Result<Vec<Provider>, AppError>,
        base_url_keyword: &str,
    ) -> (found: Result<Option<Provider>, AppError>)
        ensures
            all_providers matches Err(error) ==> found == Err::<Option<Provider>, AppError>(error),
            all_providers matches Ok(providers) ==> {
                let hits = providers@.map_values(
                    |p: Provider| url_matches(base_url(p), base_url_keyword@),
                );
                &&& found is Ok
                &&& found matches Ok(Some(provider)) ==> exists|i: int| #[trigger]
                    is_first_hit(providers@, hits, i) && provider == providers@[i]
                &&& found matches Ok(None) ==> forall|i: int|
                    0 <= i < providers@.len() ==> !#[trigger] hits[i]
            },
    {
        let providers = match all_providers {
            Ok(providers) => providers,
            Err(error) => return Err(error),
        };
        let hits = url_hits(&providers, base_url_keyword);
        assert(hits@ =~= providers@.map_values(
            |p: Provider| url_matches(base_url(p), base_url_keyword@),
        ));
        match first_hit(&providers, &hits) {
            Some(i) => Ok(Some(providers[i].clone())),
            None => Ok(None),
        }
    }
}

} // verus!
