use cc_switch::circuit_breaker::{CircuitBreakerConfig, CircuitState};
use cc_switch::error_rate::ErrorRate;
use cc_switch::provider::{AppError, AppProxyConfig, Provider};
use cc_switch::provider_router::{
    circuit_key, key_parts, provider_supports_failover, BreakerSource, HealthUpdate, ProviderRouter,
};
use cc_switch::provider_selection::{resolve_current_id, QueueEntry, RouteInputs};
use std::time::{Duration, Instant};

fn provider(id: &str, name: &str) -> Provider {
    Provider {
        id: id.to_string(),
        name: name.to_string(),
        settings_config: "{}".to_string(),
        sort_index: None,
        category: None,
        icon: None,
        icon_color: None,
        codex_official: false,
        usage_script_enabled: false,
        usage_template: None,
    }
}

fn managed_codex_official(id: &str) -> Provider {
    let mut official = provider(id, "OpenAI Official");
    official.category = Some("official".to_string());
    official.codex_official = true;
    official
}

fn app_config(limits: CircuitBreakerConfig, auto_failover_enabled: bool) -> AppProxyConfig {
    AppProxyConfig {
        auto_failover_enabled,
        circuit_failure_threshold: limits.failure_threshold,
        circuit_success_threshold: limits.success_threshold,
        circuit_timeout_seconds: limits.timeout_seconds as u32,
        circuit_error_rate_threshold: limits.error_rate_threshold,
        circuit_min_requests: limits.min_requests,
    }
}

/// What a store would hold of one app.
struct Store {
    app: String,
    providers: Vec<Provider>,
    current: Option<String>,
    queue: Vec<String>,
    config: AppProxyConfig,
}

impl Store {
    fn new(app: &str, limits: CircuitBreakerConfig, failover: bool) -> Store {
        Store {
            app: app.to_string(),
            providers: vec![],
            current: None,
            queue: vec![],
            config: app_config(limits, failover),
        }
    }

    fn find(&self, id: &str) -> Option<Provider> {
        self.providers.iter().find(|p| p.id == id).cloned()
    }

    fn source(&self, id: &str) -> BreakerSource {
        BreakerSource {
            config: Some(self.config),
            provider_name: self.find(id).map(|p| p.name),
        }
    }

    fn inputs(&self) -> RouteInputs {
        RouteInputs {
            current_provider: Ok(self.current.as_ref().and_then(|id| self.find(id))),
            auto_failover_enabled: Ok(self.config.auto_failover_enabled),
            all_providers: Ok(self.providers.clone()),
            failover_queue: Ok(self
                .queue
                .iter()
                .map(|id| QueueEntry {
                    provider_id: id.clone(),
                    source: self.source(id),
                })
                .collect()),
        }
    }

    fn select(&self, router: &mut ProviderRouter) -> Result<Vec<Provider>, AppError> {
        router.select_providers(&self.app, self.inputs())
    }

    fn record(
        &self,
        router: &mut ProviderRouter,
        id: &str,
        success: bool,
        error: Option<&str>,
    ) -> HealthUpdate {
        router.record_result(
            id,
            &self.app,
            success,
            error.map(|e| e.to_string()),
            &Some(self.config),
            &self.source(id),
        )
    }
}

fn ids(providers: &Vec<Provider>) -> Vec<String> {
    providers.iter().map(|p| p.id.clone()).collect()
}

#[test]
fn test_provider_router_creation() {
    let mut router = ProviderRouter::new();
    let source = BreakerSource {
        config: None,
        provider_name: None,
    };
    let breaker = router.get_or_create_circuit_breaker("gemini:test", &source);
    assert!(breaker.allow_request().allowed);
    assert_eq!(breaker.circuit_key(), "gemini:test");
    assert_eq!(breaker.provider_name(), "test");
}

#[test]
fn test_failover_disabled_uses_current_provider() {
    let mut store = Store::new("gemini", CircuitBreakerConfig::default(), false);
    store.providers = vec![provider("a", "Provider A"), provider("b", "Provider B")];
    store.current = Some("a".to_string());
    store.queue = vec!["b".to_string()];

    let mut router = ProviderRouter::new();
    let providers = store.select(&mut router).unwrap();

    assert_eq!(providers.len(), 1);
    assert_eq!(providers[0].id, "a");
}

#[test]
fn test_failover_enabled_uses_queue_order_ignoring_current() {
    let mut store = Store::new("gemini", CircuitBreakerConfig::default(), true);
    let mut a = provider("a", "Provider A");
    a.sort_index = Some(2);
    let mut b = provider("b", "Provider B");
    b.sort_index = Some(1);
    store.providers = vec![a, b];
    store.current = Some("a".to_string());
    store.queue = vec!["b".to_string(), "a".to_string()];

    let mut router = ProviderRouter::new();
    let providers = store.select(&mut router).unwrap();

    assert_eq!(providers.len(), 2);
    assert_eq!(providers[0].id, "b");
    assert_eq!(providers[1].id, "a");
}

#[test]
fn test_failover_enabled_uses_queue_only_even_if_current_not_in_queue() {
    let mut store = Store::new("gemini", CircuitBreakerConfig::default(), true);
    let mut b = provider("b", "Provider B");
    b.sort_index = Some(1);
    store.providers = vec![provider("a", "Provider A"), b];
    store.current = Some("a".to_string());
    store.queue = vec!["b".to_string()];

    let mut router = ProviderRouter::new();
    let providers = store.select(&mut router).unwrap();

    assert_eq!(providers.len(), 1);
    assert_eq!(providers[0].id, "b");
}

#[test]
fn codex_official_current_stays_single_route_when_failover_is_stale() {
    let mut store = Store::new("codex", CircuitBreakerConfig::default(), true);
    store.providers = vec![
        managed_codex_official("official-a"),
        provider("fallback", "Fallback"),
    ];
    store.current = Some("official-a".to_string());
    store.queue = vec!["fallback".to_string()];

    let providers = store.select(&mut ProviderRouter::new()).unwrap();
    assert_eq!(providers.len(), 1);
    assert_eq!(providers[0].id, "official-a");
}

#[test]
fn stale_codex_official_queue_entries_are_not_retry_targets() {
    let mut store = Store::new("codex", CircuitBreakerConfig::default(), true);
    store.providers = vec![
        provider("third-party", "Third Party"),
        managed_codex_official("official-a"),
        provider("fallback", "Fallback"),
    ];
    store.current = Some("third-party".to_string());
    store.queue = vec!["official-a".to_string(), "fallback".to_string()];

    let providers = store.select(&mut ProviderRouter::new()).unwrap();
    assert_eq!(ids(&providers), vec!["fallback"]);
}

#[test]
fn test_select_providers_does_not_consume_half_open_permit() {
    let limits = CircuitBreakerConfig {
        failure_threshold: 1,
        timeout_seconds: 0,
        ..Default::default()
    };
    let mut store = Store::new("gemini", limits, true);
    store.providers = vec![provider("a", "Provider A"), provider("b", "Provider B")];
    store.queue = vec!["a".to_string(), "b".to_string()];
    let mut router = ProviderRouter::new();

    store.record(&mut router, "b", false, Some("fail"));

    let providers = store.select(&mut router).unwrap();
    assert_eq!(providers.len(), 2);

    assert!(router.allow_provider_request("b", "gemini", &store.source("b")).allowed);
}

#[test]
fn test_release_permit_neutral_frees_half_open_slot() {
    let limits = CircuitBreakerConfig {
        failure_threshold: 1,
        timeout_seconds: 0,
        ..Default::default()
    };
    let mut store = Store::new("gemini", limits, true);
    store.providers = vec![provider("a", "Provider A")];
    store.queue = vec!["a".to_string()];
    let mut router = ProviderRouter::new();

    store.record(&mut router, "a", false, Some("fail"));

    let first = router.allow_provider_request("a", "gemini", &store.source("a"));
    assert!(first.allowed);
    assert!(first.permit.is_some());

    let second = router.allow_provider_request("a", "gemini", &store.source("a"));
    assert!(!second.allowed);

    router.release_permit_neutral("a", "gemini", &store.source("a"));

    let third = router.allow_provider_request("a", "gemini", &store.source("a"));
    assert!(third.allowed);
    assert!(third.permit.is_some());
}

#[test]
fn test_p1_recovers_via_half_open_probe_after_quota_reset() {
    let limits = CircuitBreakerConfig {
        failure_threshold: 8,
        timeout_seconds: 0,
        ..Default::default()
    };
    let mut store = Store::new("gemini", limits, true);
    store.providers = vec![provider("p1", "P1 MiniMax"), provider("p2", "P2 MiniMax Huawei")];
    store.queue = vec!["p1".to_string(), "p2".to_string()];
    let mut router = ProviderRouter::new();

    for _ in 0..8 {
        store.record(&mut router, "p1", false, Some("HTTP 429: quota exhausted"));
    }

    let p1_stats = router.get_circuit_breaker_stats("p1", "gemini").unwrap();
    assert_eq!(format!("{:?}", p1_stats.state), "Open");

    let providers = store.select(&mut router).unwrap();
    assert_eq!(providers.len(), 2);
    assert_eq!(providers[0].id, "p1");

    let p1_probe = router.allow_provider_request("p1", "gemini", &store.source("p1"));
    assert!(p1_probe.allowed);
    assert!(p1_probe.permit.is_some());

    store.record(&mut router, "p1", true, None);
    store.record(&mut router, "p1", true, None);

    let p1_stats_after = router.get_circuit_breaker_stats("p1", "gemini").unwrap();
    assert_eq!(format!("{:?}", p1_stats_after.state), "Closed");

    let final_providers = store.select(&mut router).unwrap();
    assert_eq!(final_providers.len(), 2);
    assert_eq!(final_providers[0].id, "p1");
    assert_eq!(final_providers[1].id, "p2");
}

#[test]
fn test_p1_should_get_half_open_probe_even_when_p2_keeps_failing() {
    let limits = CircuitBreakerConfig {
        failure_threshold: 2,
        success_threshold: 2,
        timeout_seconds: 0,
        ..Default::default()
    };
    let mut store = Store::new("gemini", limits, true);
    store.providers = vec![provider("p1", "P1"), provider("p2", "P2")];
    store.queue = vec!["p1".to_string(), "p2".to_string()];
    let mut router = ProviderRouter::new();

    for _ in 0..2 {
        store.record(&mut router, "p1", false, Some("quota"));
        store.record(&mut router, "p2", false, Some("quota"));
    }

    let providers = store.select(&mut router).unwrap();
    assert_eq!(providers.len(), 2);

    let p1_probe = router.allow_provider_request("p1", "gemini", &store.source("p1"));
    assert!(p1_probe.allowed);

    if p1_probe.permit.is_some() {
        store.record(&mut router, "p1", false, Some("still 429"));
    }

    let p1_probe_2 = router.allow_provider_request("p1", "gemini", &store.source("p1"));
    assert!(p1_probe_2.allowed);
}

#[test]
fn test_half_open_probe_response_lost_releases_permit_on_next_transition() {
    let limits = CircuitBreakerConfig {
        failure_threshold: 8,
        success_threshold: 2,
        timeout_seconds: 0,
        ..Default::default()
    };
    let mut store = Store::new("gemini", limits, true);
    store.providers = vec![provider("p1", "P1")];
    store.queue = vec!["p1".to_string()];
    let mut router = ProviderRouter::new();

    for _ in 0..8 {
        store.record(&mut router, "p1", false, Some("429 quota"));
    }

    let first_probe = router.allow_provider_request("p1", "gemini", &store.source("p1"));
    assert!(first_probe.allowed, "第一次探测必须允许");
    assert!(first_probe.permit.is_some(), "第一次探测必须返回 permit guard");

    router.drop_permit(first_probe.permit.unwrap());

    let second_probe = router.allow_provider_request("p1", "gemini", &store.source("p1"));
    assert!(second_probe.allowed);
}

#[test]
fn test_holding_guard_enforces_max_one_in_flight() {
    let limits = CircuitBreakerConfig {
        failure_threshold: 1,
        timeout_seconds: 0,
        ..Default::default()
    };
    let mut store = Store::new("gemini", limits, true);
    store.providers = vec![provider("p1", "P1")];
    store.queue = vec!["p1".to_string()];
    let mut router = ProviderRouter::new();

    store.record(&mut router, "p1", false, Some("429"));

    let probe = router.allow_provider_request("p1", "gemini", &store.source("p1"));
    assert!(probe.allowed, "第一次探测必须允许");
    assert!(probe.permit.is_some(), "第一次探测必须返回 permit guard");
    let guard = probe.permit.unwrap();

    let concurrent_probe = router.allow_provider_request("p1", "gemini", &store.source("p1"));
    assert!(!concurrent_probe.allowed);

    router.drop_permit(guard);

    let after_release = router.allow_provider_request("p1", "gemini", &store.source("p1"));
    assert!(after_release.allowed, "guard 释放后下一次探测必须被允许");
}

#[test]
fn test_destructure_pattern_releases_permit_immediately() {
    let limits = CircuitBreakerConfig {
        failure_threshold: 1,
        timeout_seconds: 0,
        ..Default::default()
    };
    let mut store = Store::new("gemini", limits, true);
    store.providers = vec![provider("p1", "P1")];
    store.queue = vec!["p1".to_string()];
    let mut router = ProviderRouter::new();

    store.record(&mut router, "p1", false, Some("429"));

    let allowed = {
        let probe = router.allow_provider_request("p1", "gemini", &store.source("p1"));
        let allowed = probe.allowed;
        router.drop_permit(probe.permit.unwrap());
        allowed
    };
    assert!(allowed, "第一次探测必须允许");

    let second_probe = router.allow_provider_request("p1", "gemini", &store.source("p1"));
    assert!(second_probe.allowed);
}

#[test]
fn disarmed_permit_is_not_given_back_twice() {
    let limits = CircuitBreakerConfig {
        failure_threshold: 1,
        timeout_seconds: 0,
        ..Default::default()
    };
    let mut store = Store::new("gemini", limits, true);
    store.providers = vec![provider("p1", "P1")];
    let mut router = ProviderRouter::new();
    store.record(&mut router, "p1", false, None);

    let mut permit = router
        .allow_provider_request("p1", "gemini", &store.source("p1"))
        .permit
        .unwrap();
    router.disarm_permit(&mut permit);
    assert!(router.allow_provider_request("p1", "gemini", &store.source("p1")).allowed);
    router.drop_permit(permit);
    assert!(!router.allow_provider_request("p1", "gemini", &store.source("p1")).allowed);
}

#[test]
fn all_candidates_open() {
    let limits = CircuitBreakerConfig {
        failure_threshold: 1,
        ..Default::default()
    };
    let mut store = Store::new("gemini", limits, true);
    store.providers = vec![provider("a", "A"), provider("b", "B")];
    store.queue = vec!["a".to_string(), "b".to_string()];
    let mut router = ProviderRouter::new();
    store.record(&mut router, "a", false, None);
    store.record(&mut router, "b", false, None);
    assert!(matches!(
        store.select(&mut router),
        Err(AppError::AllProvidersCircuitOpen)
    ));
    let selected = router
        .select_providers_after("gemini", store.inputs(), &vec![59, 60])
        .unwrap();
    assert_eq!(ids(&selected), vec!["b"]);
}

#[test]
fn nothing_to_choose_from() {
    let mut store = Store::new("gemini", CircuitBreakerConfig::default(), true);
    let mut router = ProviderRouter::new();
    assert!(matches!(store.select(&mut router), Err(AppError::NoProvidersConfigured)));
    // An entry whose provider is gone does not count.
    store.queue = vec!["gone".to_string()];
    assert!(matches!(store.select(&mut router), Err(AppError::NoProvidersConfigured)));
    store.config.auto_failover_enabled = false;
    assert!(matches!(store.select(&mut router), Err(AppError::NoProvidersConfigured)));
}

#[test]
fn failing_reads() {
    let mut store = Store::new("gemini", CircuitBreakerConfig::default(), true);
    store.providers = vec![provider("a", "A")];
    store.current = Some("a".to_string());
    store.queue = vec!["a".to_string()];
    let mut router = ProviderRouter::new();

    let mut inputs = store.inputs();
    inputs.current_provider = Err(AppError::Database("current".to_string()));
    assert!(matches!(
        router.select_providers("gemini", inputs),
        Err(AppError::Database(text)) if text == "current"
    ));

    let mut inputs = store.inputs();
    inputs.all_providers = Err(AppError::Database("all".to_string()));
    assert!(matches!(
        router.select_providers("gemini", inputs),
        Err(AppError::Database(text)) if text == "all"
    ));

    let mut inputs = store.inputs();
    inputs.failover_queue = Err(AppError::Database("queue".to_string()));
    assert!(matches!(
        router.select_providers("gemini", inputs),
        Err(AppError::Database(text)) if text == "queue"
    ));

    // Settings that cannot be read leave failover off.
    let mut inputs = store.inputs();
    inputs.auto_failover_enabled = Err(AppError::Database("config".to_string()));
    inputs.failover_queue = Err(AppError::Database("queue".to_string()));
    assert_eq!(ids(&router.select_providers("gemini", inputs).unwrap()), vec!["a"]);
}

#[test]
fn current_id() {
    let stored = || Ok(Some("stored".to_string()));
    let some = |id: &str| Some(id.to_string());
    assert_eq!(resolve_current_id(Some(Ok(some("local"))), stored()), some("local"));
    assert_eq!(resolve_current_id(Some(Ok(None)), stored()), some("stored"));
    assert_eq!(resolve_current_id(None, stored()), some("stored"));
    assert_eq!(
        resolve_current_id(Some(Err(AppError::Database("x".to_string()))), stored()),
        some("stored")
    );
    assert_eq!(resolve_current_id(None, Err(AppError::Database("x".to_string()))), None);
    assert_eq!(resolve_current_id(None, Ok(None)), None);
}

#[test]
fn keys() {
    assert_eq!(circuit_key("codex", "p1"), "codex:p1");
    let parts = |key: &str| {
        let (app, id) = key_parts(key);
        vec![app, id]
    };
    assert_eq!(parts("codex:p1"), vec!["codex", "p1"]);
    assert_eq!(parts("codex"), vec!["codex", ""]);
    assert_eq!(parts("codex:p1:x"), vec!["codex", "p1:x"]);
    assert_eq!(parts(""), vec!["", ""]);
}

#[test]
fn failover_support() {
    assert!(!provider_supports_failover("codex", &managed_codex_official("o")));
    assert!(provider_supports_failover("gemini", &managed_codex_official("o")));
    assert!(provider_supports_failover("codex", &provider("p", "P")));
}

#[test]
fn health_updates() {
    let mut store = Store::new("gemini", CircuitBreakerConfig::default(), true);
    store.providers = vec![provider("a", "A")];
    let mut router = ProviderRouter::new();
    let update = store.record(&mut router, "a", false, Some("boom"));
    assert_eq!(update.provider_id, "a");
    assert_eq!(update.app_type, "gemini");
    assert!(!update.success);
    assert_eq!(update.error_msg, Some("boom".to_string()));
    assert_eq!(update.failure_threshold, 4);
    let update = router.record_result("a", "gemini", true, None, &None, &store.source("a"));
    assert!(update.success);
    assert_eq!(update.failure_threshold, 5);
}

#[test]
fn new_breakers_take_the_settings_of_the_app() {
    let limits = CircuitBreakerConfig {
        failure_threshold: 1,
        ..Default::default()
    };
    let mut store = Store::new("gemini", limits, true);
    store.providers = vec![provider("a", "A")];
    let mut router = ProviderRouter::new();
    assert!(router.get_circuit_breaker_stats("a", "gemini").is_none());
    store.record(&mut router, "a", false, None);
    let stats = router.get_circuit_breaker_stats("a", "gemini").unwrap();
    assert_eq!(stats.state, CircuitState::Open);
    let source = store.source("a");
    assert_eq!(router.get_or_create_circuit_breaker("gemini:a", &source).provider_name(), "A");
}

#[test]
fn resets() {
    let limits = CircuitBreakerConfig {
        failure_threshold: 1,
        ..Default::default()
    };
    let mut store = Store::new("gemini", limits, true);
    store.providers = vec![provider("a", "A"), provider("b", "B")];
    let mut router = ProviderRouter::new();
    store.record(&mut router, "a", false, None);
    store.record(&mut router, "b", false, None);
    router.reset_provider_breaker("a", "gemini");
    let state = |router: &ProviderRouter, id: &str| {
        router.get_circuit_breaker_stats(id, "gemini").unwrap().state
    };
    assert_eq!(state(&router, "a"), CircuitState::Closed);
    assert_eq!(state(&router, "b"), CircuitState::Open);
    router.reset_circuit_breaker("gemini:b");
    assert_eq!(state(&router, "b"), CircuitState::Closed);
    router.reset_circuit_breaker("gemini:c");
    assert!(router.get_circuit_breaker_stats("c", "gemini").is_none());
}

#[test]
fn new_limits_reach_the_breakers_of_one_app() {
    let mut router = ProviderRouter::new();
    let source = BreakerSource {
        config: None,
        provider_name: None,
    };
    let one_failure = CircuitBreakerConfig {
        failure_threshold: 1,
        error_rate_threshold: ErrorRate::Never,
        ..Default::default()
    };
    for key in ["codex:p", "gemini:p", "codexx:p"] {
        router.get_or_create_circuit_breaker(key, &source);
    }
    router.update_app_configs("codex", one_failure);
    for app in ["codex", "gemini", "codexx"] {
        router.record_result("p", app, false, None, &None, &source);
    }
    let state = |router: &ProviderRouter, app: &str| {
        router.get_circuit_breaker_stats("p", app).unwrap().state
    };
    assert_eq!(state(&router, "codex"), CircuitState::Open);
    assert_eq!(state(&router, "gemini"), CircuitState::Closed);
    assert_eq!(state(&router, "codexx"), CircuitState::Closed);
    router.update_all_configs(one_failure);
    for app in ["gemini", "codexx"] {
        router.record_result("p", app, false, None, &None, &source);
        assert_eq!(state(&router, app), CircuitState::Open);
    }
}

fn with_url(id: &str, url: &str, sort_index: Option<usize>) -> Provider {
    let mut p = provider(id, id);
    p.settings_config = format!("{{\"env\":{{\"ANTHROPIC_BASE_URL\":\"{}\"}}}}", url);
    p.sort_index = sort_index;
    p
}

#[test]
fn fallback_provider() {
    let find = |providers: Vec<Provider>, keyword: &str| {
        ProviderRouter::find_fallback_provider(Ok(providers), keyword)
            .unwrap()
            .map(|p| p.id)
    };
    let providers = || {
        vec![
            with_url("none", "https://api.MiniMax.example", None),
            with_url("two", "https://API.MINIMAX.example", Some(2)),
            with_url("one", "https://api.minimax.example", Some(1)),
            with_url("zero", "https://other.example", Some(0)),
            provider("plain", "no address"),
        ]
    };
    assert_eq!(find(providers(), "miniMAX"), Some("one".to_string()));
    assert_eq!(find(providers(), "other"), Some("zero".to_string()));
    assert_eq!(find(providers(), "absent"), None);
    assert_eq!(find(vec![], "minimax"), None);
    assert!(matches!(
        ProviderRouter::find_fallback_provider(Err(AppError::Database("x".to_string())), "m"),
        Err(AppError::Database(text)) if text == "x"
    ));
}

#[test]
fn fallback_provider_needs_a_text_at_the_address() {
    let find = |settings: &str| {
        let mut p = provider("p", "P");
        p.settings_config = settings.to_string();
        ProviderRouter::find_fallback_provider(Ok(vec![p]), "x").unwrap().is_some()
    };
    assert!(find("{\"env\":{\"ANTHROPIC_BASE_URL\":\"http://x\"}}"));
    assert!(!find("{\"env\":{\"ANTHROPIC_BASE_URL\":7}}"));
    assert!(!find("{\"env\":[\"http://x\"]}"));
    assert!(!find("{\"ANTHROPIC_BASE_URL\":\"http://x\"}"));
    assert!(!find("not json"));
}

#[test]
fn seconds_since_a_breaker_opened() {
    let limits = CircuitBreakerConfig {
        failure_threshold: 1,
        ..Default::default()
    };
    let mut store = Store::new("gemini", limits, true);
    store.providers = vec![provider("a", "A"), provider("b", "B")];
    let mut router = ProviderRouter::new();
    assert_eq!(router.open_secs("gemini:a"), 0);
    let failed_at = Instant::now().checked_sub(Duration::from_millis(40500)).unwrap();
    router.record_result_at(
        "a",
        "gemini",
        false,
        None,
        &Some(store.config),
        &store.source("a"),
        failed_at,
    );
    store.record(&mut router, "b", true, None);
    assert!(router.open_secs("gemini:a") >= 40);
    assert!(router.open_secs("gemini:a") < 70);
    assert_eq!(router.open_secs("gemini:b"), 0);
}
