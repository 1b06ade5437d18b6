//! Chooses the providers that a request may be sent to, and keeps one circuit
//! breaker per app and provider.
//!
//! What the store holds is read before a function here is called and handed
//! over as plain values.

use crate::circuit_breaker::{
    given_back, Admission, AllowRequestResult, BreakerView, CircuitBreaker, CircuitBreakerConfig,
    CircuitBreakerStats, HalfOpenPermitGuard, PermitView,
};
use crate::clock::secs_between;
use crate::provider::{AppProxyConfig, Provider};
use crate::text::{
    after_first, before_first, begins_with, join3, same_text, split_once, starts_with,
};
use std::time::Instant;
use vstd::prelude::*;

verus! {

/// Requests to this provider may be retried with another one. A request to a
/// Codex Official account carries the credentials of that account, which must
/// not be sent to another one.
pub open spec fn supports_failover(app_type: Seq<char>, provider: Provider) -> bool {
    app_type != "codex"@ || !provider.codex_official
}

/// Whether requests to this provider may be retried with another one.
pub fn provider_supports_failover(app_type: &str, provider: &Provider) -> (supports: bool)
    ensures
        supports == supports_failover(app_type@, *provider),
{
    !same_text(app_type, "codex") || !provider.codex_official
}

/// The key of the breaker of a provider of an app.
pub open spec fn key_of(app_type: Seq<char>, provider_id: Seq<char>) -> Seq<char> {
    app_type + seq![':'] + provider_id
}

/// The app that a key names: what stands before the first colon.
pub open spec fn key_app(key: Seq<char>) -> Seq<char> {
    before_first(key, ':')
}

/// The provider that a key names: what stands after the first colon.
pub open spec fn key_provider(key: Seq<char>) -> Seq<char> {
    after_first(key, ':')
}

/// The key of the breaker of a provider of an app.
pub fn circuit_key(app_type: &str, provider_id: &str) -> (key: String)
    ensures
        key@ == key_of(app_type@, provider_id@),
{
    proof {
        reveal_strlit(":");
    }
    assert(":"@ =~= seq![':']);
    join3(app_type, ":", provider_id)
}

/// The app and the provider that a key names.
pub fn key_parts(key: &str) -> (parts: (String, String))
    ensures
        parts.0@ == key_app(key@),
        parts.1@ == key_provider(key@),
{
    split_once(key, ':')
}

/// What the store says of the app and the provider that a key names, for the
/// case that the breaker has to be made.
#[derive(Debug)]
pub struct BreakerSource {
    /// The proxy settings of the app, where they could be read.
    pub config: Option<AppProxyConfig>,
    /// The display name of the provider, where there is such a provider.
    pub provider_name: Option<String>,
}

/// A `BreakerSource` as the contracts see it.
pub struct SourceView {
    pub config: Option<AppProxyConfig>,
    pub provider_name: Option<Seq<char>>,
}

impl View for BreakerSource {
    type V = SourceView;

    open spec fn view(&self) -> SourceView {
        SourceView { config: self.config, provider_name: self.provider_name.deep_view() }
    }
}

/// The breaker that is made for a key.
pub open spec fn made_breaker(key: Seq<char>, source: SourceView) -> BreakerView {
    BreakerView::fresh(
        match source.config {
            Some(config) => CircuitBreakerConfig::spec_from(config),
            None => CircuitBreakerConfig::spec_default(),
        },
        key,
        match source.provider_name {
            Some(name) => name,
            None => key_provider(key),
        },
    )
}

/// The breakers, by key.
pub type Breakers = Map<Seq<char>, BreakerView>;

/// The breaker with the given key, made if there is none.
pub open spec fn breaker_for(
    breakers: Breakers,
    key: Seq<char>,
    source: SourceView,
) -> BreakerView {
    if breakers.contains_key(key) {
        breakers[key]
    } else {
        made_breaker(key, source)
    }
}

/// The breakers with other limits for those whose key begins with `prefix`.
pub open spec fn reconfigured(
    breakers: Breakers,
    prefix: Seq<char>,
    config: CircuitBreakerConfig,
) -> Breakers {
    Map::new(
        |key: Seq<char>| breakers.contains_key(key),
        |key: Seq<char>|
            if begins_with(key, prefix) {
                breakers[key].with_config(config)
            } else {
                breakers[key]
            },
    )
}

/// Every breaker is well formed and is found by its own key.
pub open spec fn breakers_wf(breakers: Breakers) -> bool {
    forall|key: Seq<char>| #[trigger]
        breakers.contains_key(key) ==> breakers[key].wf() && breakers[key].circuit_key == key
}

/// What the breaker with the given key says to a request, and the breakers
/// after it, where `elapsed_secs` have passed since that breaker last opened.
pub open spec fn asked(
    breakers: Breakers,
    key: Seq<char>,
    source: SourceView,
    elapsed_secs: u64,
) -> (Admission, Breakers) {
    let answer = breaker_for(breakers, key, source).admission(elapsed_secs);
    (answer.0, breakers.insert(key, answer.1))
}

/// The breakers after the one with the given key was closed by hand.
pub open spec fn after_reset(breakers: Breakers, key: Seq<char>) -> Breakers {
    if breakers.contains_key(key) {
        breakers.insert(key, breakers[key].to_closed())
    } else {
        breakers
    }
}

/// The breakers after a request to the provider with the given key has ended
/// at the instant `at`.
pub open spec fn recorded(
    breakers: Breakers,
    key: Seq<char>,
    source: SourceView,
    success: bool,
    at: Instant,
) -> Breakers {
    let breaker = breaker_for(breakers, key, source);
    breakers.insert(
        key,
        if success {
            breaker.after_success()
        } else {
            breaker.after_failure(at)
        },
    )
}

/// The given seconds are those from the last opening of the breaker with the
/// given key to an instant that the clock returned, or zero if there is none or it never has opened.
pub open spec fn is_open_secs(breakers: Breakers, key: Seq<char>, elapsed: u64) -> bool {
    if breakers.contains_key(key) {
        match breakers[key].last_opened_at {
            Some(opened_at) => exists|now: Instant|
                call_ensures(Instant::now, (), now) && elapsed == #[trigger] secs_between(
                    opened_at,
                    now,
                ),
            None => elapsed == 0,
        }
    } else {
        elapsed == 0
    }
}

/// After how many failures the store calls a provider unhealthy where the
/// settings of the app cannot be read.
pub const DEFAULT_HEALTH_THRESHOLD: u32 = 5;

/// What the store is to keep of a request that has ended.
#[derive(Debug)]
pub struct HealthUpdate {
    pub provider_id: String,
    pub app_type: String,
    pub success: bool,
    pub error_msg: Option<String>,
    /// After how many failures the provider counts as unhealthy.
    pub failure_threshold: u32,
}

/// A `HealthUpdate` as the contracts see it.
pub struct HealthView {
    pub provider_id: Seq<char>,
    pub app_type: Seq<char>,
    pub success: bool,
    pub error_msg: Option<Seq<char>>,
    pub failure_threshold: u32,
}

impl View for HealthUpdate {
    type V = HealthView;

    open spec fn view(&self) -> HealthView {
        HealthView {
            provider_id: self.provider_id@,
            app_type: self.app_type@,
            success: self.success,
            error_msg: self.error_msg.deep_view(),
            failure_threshold: self.failure_threshold,
        }
    }
}

/// What the store is to keep of a request to a provider of an app with the
/// given settings.
pub open spec fn health_update(
    provider_id: Seq<char>,
    app_type: Seq<char>,
    success: bool,
    error_msg: Option<Seq<char>>,
    app_config: Option<AppProxyConfig>,
) -> HealthView {
    HealthView {
        provider_id,
        app_type,
        success,
        error_msg,
        failure_threshold: match app_config {
            Some(config) => config.circuit_failure_threshold,
            None => DEFAULT_HEALTH_THRESHOLD,
        },
    }
}

/// A breaker with the key it is found by.
struct Slot {
    key: String,
    breaker: CircuitBreaker,
}

/// The slot of a key.
spec fn is_slot_of(slots: Seq<Slot>, key: Seq<char>, i: int) -> bool {
    0 <= i < slots.len() && slots[i].key@ == key
}

/// The breakers in the slots.
spec fn slot_map(slots: Seq<Slot>) -> Breakers {
    Map::new(
        |key: Seq<char>| exists|i: int| is_slot_of(slots, key, i),
        |key: Seq<char>| slots[choose|i: int| is_slot_of(slots, key, i)].breaker@,
    )
}

/// No two slots have the same key.
spec fn slots_distinct(slots: Seq<Slot>) -> bool {
    forall|i: int, j: int|
        0 <= i < j < slots.len() ==> #[trigger] slots[i].key@ != #[trigger] slots[j].key@
}

proof fn lemma_slot(slots: Seq<Slot>, i: int)
    requires
        slots_distinct(slots),
        0 <= i < slots.len(),
    ensures
        slot_map(slots).contains_key(slots[i].key@),
        slot_map(slots)[slots[i].key@] == slots[i].breaker@,
{
    let key = slots[i].key@;
    assert(is_slot_of(slots, key, i));
    let j = choose|j: int| is_slot_of(slots, key, j);
    assert(is_slot_of(slots, key, j));
    assert(i == j);
}

proof fn lemma_slot_update(slots: Seq<Slot>, i: int, slot: Slot)
    requires
        slots_distinct(slots),
        0 <= i < slots.len(),
        slot.key@ == slots[i].key@,
    ensures
        slots_distinct(slots.update(i, slot)),
        slot_map(slots.update(i, slot)) == slot_map(slots).insert(slot.key@, slot.breaker@),
{
    let after = slots.update(i, slot);
    assert(slots_distinct(after));
    assert forall|key: Seq<char>| #[trigger]
        slot_map(after).contains_key(key) <==> slot_map(slots).insert(
            slot.key@,
            slot.breaker@,
        ).contains_key(key) by {
        if slot_map(after).contains_key(key) {
            let j = choose|j: int| is_slot_of(after, key, j);
            assert(is_slot_of(slots, key, j));
        }
        if slot_map(slots).contains_key(key) {
            let j = choose|j: int| is_slot_of(slots, key, j);
            assert(is_slot_of(after, key, j));
        }
        assert(is_slot_of(after, slot.key@, i));
    }
    assert forall|key: Seq<char>| #[trigger] slot_map(after).contains_key(key) implies slot_map(
        after,
    )[key] == slot_map(slots).insert(slot.key@, slot.breaker@)[key] by {
        let j = choose|j: int| is_slot_of(after, key, j);
        assert(is_slot_of(after, key, j));
        lemma_slot(after, j);
        lemma_slot(slots, j);
    }
    assert(slot_map(after) =~= slot_map(slots).insert(slot.key@, slot.breaker@));
}

proof fn lemma_slot_push(slots: Seq<Slot>, slot: Slot)
    requires
        slots_distinct(slots),
        !slot_map(slots).contains_key(slot.key@),
    ensures
        slots_distinct(slots.push(slot)),
        slot_map(slots.push(slot)) == slot_map(slots).insert(slot.key@, slot.breaker@),
{
    let after = slots.push(slot);
    assert forall|i: int, j: int| 0 <= i < j < after.len() implies #[trigger] after[i].key@
        != #[trigger] after[j].key@ by {
        if j == slots.len() && after[i].key@ == slot.key@ {
            assert(is_slot_of(slots, slot.key@, i));
        }
    }
    assert forall|key: Seq<char>| #[trigger]
        slot_map(after).contains_key(key) <==> slot_map(slots).insert(
            slot.key@,
            slot.breaker@,
        ).contains_key(key) by {
        if slot_map(after).contains_key(key) && key != slot.key@ {
            let j = choose|j: int| is_slot_of(after, key, j);
            assert(is_slot_of(slots, key, j));
        }
        if slot_map(slots).contains_key(key) {
            let j = choose|j: int| is_slot_of(slots, key, j);
            assert(is_slot_of(after, key, j));
        }
        assert(is_slot_of(after, slot.key@, slots.len() as int));
    }
    assert forall|key: Seq<char>| #[trigger] slot_map(after).contains_key(key) implies slot_map(
        after,
    )[key] == slot_map(slots).insert(slot.key@, slot.breaker@)[key] by {
        let j = choose|j: int| is_slot_of(after, key, j);
        assert(is_slot_of(after, key, j));
        lemma_slot(after, j);
        if j < slots.len() {
            assert(is_slot_of(slots, key, j));
            lemma_slot(slots, j);
        }
    }
    assert(slot_map(after) =~= slot_map(slots).insert(slot.key@, slot.breaker@));
}

/// The breakers of all apps and providers that have been asked for.
pub struct ProviderRouter {
    slots: Vec<Slot>,
}

impl View for ProviderRouter {
    type V = Breakers;

    closed spec fn view(&self) -> Breakers {
        slot_map(self.slots@)
    }
}

impl ProviderRouter {
    /// Every key has one breaker.
    pub closed spec fn one_breaker_per_key(self) -> bool {
        slots_distinct(self.slots@)
    }

    /// Every key has one breaker, which is well formed and has that key.
    pub open spec fn wf(self) -> bool {
        self.one_breaker_per_key() && breakers_wf(self@)
    }

    /// A router without breakers.
    pub fn new() -> (router: Self)
        ensures
            router.wf(),
            router@ == Breakers::empty(),
    {
        let router = ProviderRouter { slots: Vec::new() };
        assert(slot_map(router.slots@) =~= Breakers::empty()) by {
            assert forall|key: Seq<char>| !slot_map(router.slots@).contains_key(key) by {
                assert(forall|i: int| !is_slot_of(router.slots@, key, i));
            }
        }
        router
    }

    /// The position of the slot with the given key.
    fn find_slot(&self, key: &str) -> (found: Option<usize>)
        requires
            self.wf(),
        ensures
            found is Some <==> self@.contains_key(key@),
            found matches Some(i) ==> {
                &&& i < self.slots@.len()
                &&& self.slots@[i as int].key@ == key@
                &&& self.slots@[i as int].breaker@ == self@[key@]
            },
    {
        let mut i: usize = 0;
        while i < self.slots.len()
            invariant
                i <= self.slots.len(),
                self.wf(),
                forall|j: int| 0 <= j < i ==> (#[trigger] self.slots@[j]).key@ != key@,
            decreases self.slots.len() - i,
        {
            if same_text(self.slots[i].key.as_str(), key) {
                proof {
                    lemma_slot(self.slots@, i as int);
                }
                return Some(i);
            }
            i += 1;
        }
        None
    }

    /// The breaker with the given key, made from `source` if there is none.
    pub fn get_or_create_circuit_breaker(&mut self, key: &str, source: &BreakerSource) -> (breaker:
        &mut CircuitBreaker)
        requires
            old(self).wf(),
        ensures
            breaker@ == breaker_for(old(self)@, key@, source@),
            final(self).one_breaker_per_key(),
            final(breaker)@.wf() && final(breaker)@.circuit_key == key@ ==> final(self).wf(),
            final(self)@ == old(self)@.insert(key@, final(breaker)@),
    {
        let index: usize = match self.find_slot(key) {
            Some(i) => i,
            None => {
                let config = match &source.config {
                    Some(config) => CircuitBreakerConfig::from(config),
                    None => CircuitBreakerConfig::default(),
                };
                let name = match &source.provider_name {
                    Some(name) => name.clone(),
                    None => key_parts(key).1,
                };
                let slot = Slot {
                    key: key.to_string(),
                    breaker: CircuitBreaker::new(config, key, name.as_str()),
                };
                proof {
                    lemma_slot_push(self.slots@, slot);
                }
                self.slots.push(slot);
                self.slots.len() - 1
            },
        };
        proof {
            let slots = self.slots@;
            lemma_slot(slots, index as int);
            assert forall|slot: Slot| slot.key@ == key@ implies {
                &&& slots_distinct(#[trigger] slots.update(index as int, slot))
                &&& slot_map(slots.update(index as int, slot)) == slot_map(slots).insert(
                    key@,
                    slot.breaker@,
                )
            } by {
                lemma_slot_update(slots, index as int, slot);
            }
            assert forall|b: BreakerView| #[trigger]
                slot_map(slots).insert(key@, b) == old(self)@.insert(key@, b) by {
                assert(slot_map(slots).insert(key@, b) =~= old(self)@.insert(key@, b));
            }
        }
        &mut self.slots[index].breaker
    }

    /// Asks the provider's breaker for a request to be let through.
    pub fn allow_provider_request(
        &mut self,
        provider_id: &str,
        app_type: &str,
        source: &BreakerSource,
    ) -> (answer: AllowRequestResult)
        requires
            old(self).wf(),
        ensures
            final(self).wf(),
            exists|elapsed: u64|
                {
                    &&& answer.says(
                        (#[trigger] asked(
                            old(self)@,
                            key_of(app_type@, provider_id@),
                            source@,
                            elapsed,
                        )).0,
                        breaker_for(old(self)@, key_of(app_type@, provider_id@), source@).circuit_key,
                    )
                    &&& final(self)@ == asked(
                        old(self)@,
                        key_of(app_type@, provider_id@),
                        source@,
                        elapsed,
                    ).1
                },
            ({
                let key = key_of(app_type@, provider_id@);
                let breaker = breaker_for(old(self)@, key, source@);
                breaker.last_opened_at matches Some(opened_at) ==> exists|now: Instant|
                    {
                        &&& call_ensures(Instant::now, (), now)
                        &&& answer.says(
                            breaker.admission(#[trigger] secs_between(opened_at, now)).0,
                            breaker.circuit_key,
                        )
                        &&& final(self)@ == asked(
                            old(self)@,
                            key,
                            source@,
                            secs_between(opened_at, now),
                        ).1
                    }
            }),
            ({
                let key = key_of(app_type@, provider_id@);
                let breaker = breaker_for(old(self)@, key, source@);
                !(breaker.state is Open) || breaker.is_due(0) ==> {
                    &&& answer.says(breaker.admission(0).0, breaker.circuit_key)
                    &&& final(self)@ == asked(old(self)@, key, source@, 0).1
                }
            }),
    {
        let key = circuit_key(app_type, provider_id);
        let ghost before = breaker_for(self@, key@, source@);
        let breaker = self.get_or_create_circuit_breaker(key.as_str(), source);
        let answer = breaker.allow_request();
        proof {
            let elapsed = choose|elapsed: u64|
                {
                    &&& answer.says((#[trigger] before.admission(elapsed)).0, before.circuit_key)
                    &&& breaker@ == before.admission(elapsed).1
                };
            let _ = asked(old(self)@, key@, source@, elapsed);
        }
        answer
    }

    /// `allow_provider_request` where `elapsed_secs` have passed since the
    /// provider's breaker last opened.
    pub fn allow_provider_request_after(
        &mut self,
        provider_id: &str,
        app_type: &str,
        source: &BreakerSource,
        elapsed_secs: u64,
    ) -> (answer: AllowRequestResult)
        requires
            old(self).wf(),
        ensures
            final(self).wf(),
            ({
                let key = key_of(app_type@, provider_id@);
                let breaker = breaker_for(old(self)@, key, source@);
                &&& answer.says(
                    asked(old(self)@, key, source@, elapsed_secs).0,
                    breaker.circuit_key,
                )
                &&& final(self)@ == asked(old(self)@, key, source@, elapsed_secs).1
            }),
    {
        let key = circuit_key(app_type, provider_id);
        let breaker = self.get_or_create_circuit_breaker(key.as_str(), source);
        breaker.allow_request_after(elapsed_secs)
    }

    /// Records how a request has ended, and says what the store is to keep of it.
    pub fn record_result(
        &mut self,
        provider_id: &str,
        app_type: &str,
        success: bool,
        error_msg: Option<String>,
        app_config: &Option<AppProxyConfig>,
        source: &BreakerSource,
    ) -> (update: HealthUpdate)
        requires
            old(self).wf(),
        ensures
            final(self).wf(),
            update@ == health_update(
                provider_id@,
                app_type@,
                success,
                error_msg.deep_view(),
                *app_config,
            ),
            exists|at: Instant|
                call_ensures(Instant::now, (), at) && final(self)@ == #[trigger] recorded(
                    old(self)@,
                    key_of(app_type@, provider_id@),
                    source@,
                    success,
                    at,
                ),
    {
        let now = Instant::now();
        let update = self.record_result_at(
            provider_id,
            app_type,
            success,
            error_msg,
            app_config,
            source,
            now,
        );
        assert(self@ == recorded(
            old(self)@,
            key_of(app_type@, provider_id@),
            source@,
            success,
            now,
        ));
        update
    }

    /// `record_result` at the instant `now`.
    pub fn record_result_at(
        &mut self,
        provider_id: &str,
        app_type: &str,
        success: bool,
        error_msg: Option<String>,
        app_config: &Option<AppProxyConfig>,
        source: &BreakerSource,
        now: Instant,
    ) -> (update: HealthUpdate)
        requires
            old(self).wf(),
        ensures
            final(self).wf(),
            update@ == health_update(
                provider_id@,
                app_type@,
                success,
                error_msg.deep_view(),
                *app_config,
            ),
            final(self)@ == recorded(
                old(self)@,
                key_of(app_type@, provider_id@),
                source@,
                success,
                now,
            ),
    {
        let failure_threshold = match app_config {
            Some(config) => config.circuit_failure_threshold,
            None => DEFAULT_HEALTH_THRESHOLD,
        };
        let key = circuit_key(app_type, provider_id);
        let breaker = self.get_or_create_circuit_breaker(key.as_str(), source);
        if success {
            breaker.record_success();
        } else {
            breaker.record_failure_at(now);
        }
        HealthUpdate {
            provider_id: provider_id.to_string(),
            app_type: app_type.to_string(),
            success,
            error_msg,
            failure_threshold,
        }
    }

    /// Closes the breaker with the given key by hand, if there is one.
    pub fn reset_circuit_breaker(&mut self, circuit_key: &str)
        requires
            old(self).wf(),
        ensures
            final(self).wf(),
            final(self)@ == after_reset(old(self)@, circuit_key@),
    {
        if let Some(i) = self.find_slot(circuit_key) {
            let ghost slots = self.slots@;
            self.slots[i].breaker.reset();
            proof {
                lemma_slot_update(slots, i as int, self.slots@[i as int]);
            }
        }
    }

    /// Closes the breaker of a provider by hand, if there is one.
    pub fn reset_provider_breaker(&mut self, provider_id: &str, app_type: &str)
        requires
            old(self).wf(),
        ensures
            final(self).wf(),
            final(self)@ == after_reset(old(self)@, key_of(app_type@, provider_id@)),
    {
        let key = circuit_key(app_type, provider_id);
        self.reset_circuit_breaker(key.as_str());
    }

    /// Gives back a permit of the provider's breaker without counting a request.
    pub fn release_permit_neutral(
        &mut self,
        provider_id: &str,
        app_type: &str,
        source: &BreakerSource,
    )
        requires
            old(self).wf(),
        ensures
            final(self).wf(),
            ({
                let key = key_of(app_type@, provider_id@);
                final(self)@ == old(self)@.insert(
                    key,
                    breaker_for(old(self)@, key, source@).released(),
                )
            }),
    {
        let key = circuit_key(app_type, provider_id);
        let breaker = self.get_or_create_circuit_breaker(key.as_str(), source);
        breaker.release_half_open_permit();
    }

    /// Gives the permit of a probe back to its breaker and marks it as given
    /// back.
    pub fn disarm_permit(&mut self, permit: &mut HalfOpenPermitGuard)
        requires
            old(self).wf(),
        ensures
            final(self).wf(),
            old(self)@.contains_key(old(permit)@.circuit_key) ==> {
                let key = old(permit)@.circuit_key;
                &&& final(permit)@ == (PermitView { armed: false, ..old(permit)@ })
                &&& final(self)@ == old(self)@.insert(
                    key,
                    given_back(old(permit)@, old(self)@[key]),
                )
            },
            !old(self)@.contains_key(old(permit)@.circuit_key) ==> {
                &&& final(permit)@ == old(permit)@
                &&& final(self)@ == old(self)@
            },
    {
        if let Some(i) = self.find_slot(permit.circuit_key()) {
            let ghost slots = self.slots@;
            permit.disarm(&mut self.slots[i].breaker);
            proof {
                lemma_slot_update(slots, i as int, self.slots@[i as int]);
            }
        }
    }

    /// Gives the permit of a probe back to its breaker as its holder lets it
    /// go, unless that has happened before.
    pub fn drop_permit(&mut self, permit: HalfOpenPermitGuard)
        requires
            old(self).wf(),
        ensures
            final(self).wf(),
            old(self)@.contains_key(permit@.circuit_key) ==> final(self)@ == old(self)@.insert(
                permit@.circuit_key,
                given_back(permit@, old(self)@[permit@.circuit_key]),
            ),
            !old(self)@.contains_key(permit@.circuit_key) ==> final(self)@ == old(self)@,
    {
        if let Some(i) = self.find_slot(permit.circuit_key()) {
            let ghost slots = self.slots@;
            permit.drop(&mut self.slots[i].breaker);
            proof {
                lemma_slot_update(slots, i as int, self.slots@[i as int]);
            }
        }
    }

    /// Changes the limits of all breakers.
    pub fn update_all_configs(&mut self, config: CircuitBreakerConfig)
        requires
            old(self).wf(),
        ensures
            final(self).wf(),
            final(self)@ == reconfigured(old(self)@, Seq::empty(), config),
    {
        self.reconfigure("", config);
        proof {
            reveal_strlit("");
            assert(""@ =~= Seq::<char>::empty());
        }
    }

    /// Changes the limits of the breakers of one app.
    pub fn update_app_configs(&mut self, app_type: &str, config: CircuitBreakerConfig)
        requires
            old(self).wf(),
        ensures
            final(self).wf(),
            final(self)@ == reconfigured(old(self)@, app_type@ + seq![':'], config),
    {
        let prefix = circuit_key(app_type, "");
        proof {
            reveal_strlit("");
            assert(prefix@ =~= app_type@ + seq![':']);
        }
        self.reconfigure(prefix.as_str(), config);
    }

    /// Changes the limits of the breakers whose key begins with `prefix`.
    fn reconfigure(&mut self, prefix: &str, config: CircuitBreakerConfig)
        requires
            old(self).wf(),
        ensures
            final(self).wf(),
            final(self)@ == reconfigured(old(self)@, prefix@, config),
    {
        let ghost before = self.slots@;
        let mut i: usize = 0;
        while i < self.slots.len()
            invariant
                i <= self.slots.len(),
                slots_distinct(before),
                self.slots@.len() == before.len(),
                forall|j: int|
                    0 <= j < before.len() ==> (#[trigger] self.slots@[j]).key@ == before[j].key@,
                forall|j: int|
                    0 <= j < before.len() ==> (#[trigger] self.slots@[j]).breaker@ == if j < i
                        && begins_with(before[j].key@, prefix@) {
                        before[j].breaker@.with_config(config)
                    } else {
                        before[j].breaker@
                    },
            decreases self.slots.len() - i,
        {
            if starts_with(self.slots[i].key.as_str(), prefix) {
                self.slots[i].breaker.update_config(config);
            }
            i += 1;
        }
        proof {
            lemma_slots_reconfigured(before, self.slots@, prefix@, config);
        }
    }

    /// The counters of a provider's breaker, if there is one.
    pub fn get_circuit_breaker_stats(&self, provider_id: &str, app_type: &str) -> (stats: Option<
        CircuitBreakerStats,
    >)
        requires
            self.wf(),
        ensures
            ({
                let key = key_of(app_type@, provider_id@);
                stats == if self@.contains_key(key) {
                    Some(self@[key].stats())
                } else {
                    None
                }
            }),
    {
        let key = circuit_key(app_type, provider_id);
        match self.find_slot(key.as_str()) {
            Some(i) => Some(self.slots[i].breaker.get_stats()),
            None => None,
        }
    }
}

impl ProviderRouter {
    /// The whole seconds since the breaker with the given key last opened, or
    /// zero if there is none or it never has.
    pub fn open_secs(&self, key: &str) -> (elapsed: u64)
        requires
            self.wf(),
        ensures
            is_open_secs(self@, key@, elapsed),
    {
        match self.find_slot(key) {
            Some(i) => self.slots[i].breaker.open_secs(),
            None => 0,
        }
    }
}

proof fn lemma_slots_reconfigured(
    before: Seq<Slot>,
    after: Seq<Slot>,
    prefix: Seq<char>,
    config: CircuitBreakerConfig,
)
    requires
        slots_distinct(before),
        after.len() == before.len(),
        forall|j: int| 0 <= j < before.len() ==> (#[trigger] after[j]).key@ == before[j].key@,
        forall|j: int|
            0 <= j < before.len() ==> (#[trigger] after[j]).breaker@ == if begins_with(
                before[j].key@,
                prefix,
            ) {
                before[j].breaker@.with_config(config)
            } else {
                before[j].breaker@
            },
    ensures
        slots_distinct(after),
        slot_map(after) == reconfigured(slot_map(before), prefix, config),
{
    let map = reconfigured(slot_map(before), prefix, config);
    assert forall|key: Seq<char>| #[trigger] slot_map(after).contains_key(key)
        <==> map.contains_key(key) by {
        if slot_map(after).contains_key(key) {
            let j = choose|j: int| is_slot_of(after, key, j);
            assert(is_slot_of(before, key, j));
        }
        if slot_map(before).contains_key(key) {
            let j = choose|j: int| is_slot_of(before, key, j);
            assert(is_slot_of(after, key, j));
        }
    }
    assert forall|key: Seq<char>| #[trigger] slot_map(after).contains_key(key) implies slot_map(
        after,
    )[key] == map[key] by {
        let j = choose|j: int| is_slot_of(after, key, j);
        assert(is_slot_of(after, key, j));
        lemma_slot(after, j);
        lemma_slot(before, j);
    }
    assert(slot_map(after) =~= map);
}

} // verus!
