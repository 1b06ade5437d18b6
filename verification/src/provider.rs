//! Providers and the settings of the apps that use them.

use crate::error_rate::ErrorRate;
use crate::text::same_text;
use vstd::prelude::*;

verus! {

/// The proxy settings of one app.
#[derive(Debug, Clone, Copy, PartialEq, Eq, Structural)]
pub struct AppProxyConfig {
    /// Requests move on to the next provider of the failover queue by themselves.
    pub auto_failover_enabled: bool,
    pub circuit_failure_threshold: u32,
    pub circuit_success_threshold: u32,
    pub circuit_timeout_seconds: u32,
    pub circuit_error_rate_threshold: ErrorRate,
    pub circuit_min_requests: u32,
}

/// What is known of a provider.
#[derive(Debug)]
pub struct Provider {
    pub id: String,
    /// The display name.
    pub name: String,
    /// The settings of the provider, a JSON text.
    pub settings_config: String,
    /// The place in the list, where the user has arranged it.
    pub sort_index: Option<usize>,
    pub category: Option<String>,
    pub icon: Option<String>,
    pub icon_color: Option<String>,
    /// The provider is an account card of Codex Official.
    pub codex_official: bool,
    /// The usage of the provider is queried.
    pub usage_script_enabled: bool,
    /// Which kind of usage query the provider has.
    pub usage_template: Option<String>,
}

impl Clone for Provider {
    fn clone(&self) -> (copy: Self)
        ensures
            copy == *self,
    {
        Provider {
            id: self.id.clone(),
            name: self.name.clone(),
            settings_config: self.settings_config.clone(),
            sort_index: self.sort_index,
            category: self.category.clone(),
            icon: self.icon.clone(),
            icon_color: self.icon_color.clone(),
            codex_official: self.codex_official,
            usage_script_enabled: self.usage_script_enabled,
            usage_template: self.usage_template.clone(),
        }
    }
}

/// Why no provider could be had.
#[derive(Debug)]
pub enum AppError {
    /// Every candidate's breaker is open.
    AllProvidersCircuitOpen,
    /// There is no candidate.
    NoProvidersConfigured,
    /// The store could not be read or written.
    Database(String),
}

/// The provider with the given id, the first one where there are several.
pub open spec fn provider_with_id(providers: Seq<Provider>, id: Seq<char>) -> Option<Provider>
    decreases providers.len(),
{
    if providers.len() == 0 {
        None
    } else if providers[0].id@ == id {
        Some(providers[0])
    } else {
        provider_with_id(providers.skip(1), id)
    }
}

/// Finds the provider with the given id, the first one where there are several.
pub fn find_provider<'a>(providers: &'a Vec<Provider>, id: &str) -> (found: Option<&'a Provider>)
    ensures
        found is Some <==> provider_with_id(providers@, id@) is Some,
        found matches Some(provider) ==> provider_with_id(providers@, id@) == Some(*provider),
{
    let mut i: usize = 0;
    assert(providers@.skip(0) =~= providers@);
    while i < providers.len()
        invariant
            i <= providers.len(),
            provider_with_id(providers@, id@) == provider_with_id(providers@.skip(i as int), id@),
        decreases providers.len() - i,
    {
        assert(providers@.skip(i as int)[0] == providers@[i as int]);
        assert(providers@.skip(i as int).skip(1) =~= providers@.skip(i + 1));
        if same_text(providers[i].id.as_str(), id) {
            return Some(&providers[i]);
        }
        i += 1;
    }
    None
}

/// The provider that is found has the id that was asked for.
pub proof fn lemma_found_provider(providers: Seq<Provider>, id: Seq<char>)
    ensures
        provider_with_id(providers, id) matches Some(provider) ==> {
            &&& provider.id@ == id
            &&& providers.contains(provider)
        },
    decreases providers.len(),
{
    if providers.len() > 0 && providers[0].id@ != id {
        lemma_found_provider(providers.skip(1), id);
        if let Some(provider) = provider_with_id(providers, id) {
            let i = choose|i: int|
                0 <= i < providers.skip(1).len() && providers.skip(1)[i] == provider;
            assert(providers[i + 1] == provider);
        }
    }
}

} // verus!
