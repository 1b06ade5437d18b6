use cc_switch::provider::Provider;
use cc_switch::provider_test::{
    advance, test_provider, CheckResult, TestEvent, TestProviderRequest, TestStep,
};
use cc_switch::reply::{Body, Reply};

type Step = TestStep<u8, u16, u32, u64>;
type Event = TestEvent<u8, u16, u32, u64>;

fn provider(id: &str, name: &str) -> Provider {
    Provider {
        id: id.to_string(),
        name: name.to_string(),
        settings_config: "{}".to_string(),
        sort_index: None,
        category: None,
        icon: None,
        icon_color: None,
        codex_official: false,
        usage_script_enabled: false,
        usage_template: None,
    }
}

fn request(id: &str) -> TestProviderRequest {
    TestProviderRequest {
        provider_id: id.to_string(),
        app_type: "Gemini".to_string(),
    }
}

fn result(status: Option<&str>) -> CheckResult {
    CheckResult {
        status: status.map(|s| s.to_string()),
        success: true,
        message: "fine".to_string(),
        response_time_ms: Some(12),
        http_status: Some(200),
        model_used: "m".to_string(),
        tested_at: 99,
        retry_count: 1,
        error_category: None,
    }
}

fn events(status: Option<&str>) -> Vec<Event> {
    vec![
        TestEvent::Config { config: 1 },
        TestEvent::Providers {
            providers: vec![provider("a", "A"), provider("p1", "P1")],
        },
        TestEvent::Auth { auth: 2 },
        TestEvent::BaseUrl { base_url: 3 },
        TestEvent::ApiFormat { api_format: 4 },
        TestEvent::Checked { result: result(status) },
    ]
}

fn run(body: &TestProviderRequest, events: Vec<Event>) -> Step {
    let app = Some("gemini".to_string());
    let mut step: Step = test_provider(true, body, &app);
    for event in events {
        step = advance(body, "gemini", step, event);
    }
    step
}

fn refusal(step: Step) -> String {
    match step {
        TestStep::Finished {
            reply: Reply { status: 200, body: Body::Failure { error } },
            log: None,
        } => error,
        other => panic!("not refused: {:?}", other),
    }
}

#[test]
fn refused_tests() {
    let app = Some("gemini".to_string());
    let stopped: Step = test_provider(false, &request("p1"), &app);
    assert!(matches!(
        &stopped,
        TestStep::Finished { reply: Reply { status: 503, body: Body::Failure { error } }, log: None }
            if error == "Server is stopped"
    ));
    assert_eq!(refusal(test_provider(true, &request(""), &app)), "Missing provider_id");
    assert_eq!(refusal(test_provider(true, &request("p1"), &None)), "无效的应用类型: Gemini");
    assert_eq!(
        refusal(run(&request("zz"), events(None).into_iter().take(2).collect())),
        "供应商 zz 不存在"
    );
}

#[test]
fn check_runs_on_what_was_gathered() {
    let step = run(&request("p1"), events(None).into_iter().take(5).collect());
    assert!(matches!(
        &step,
        TestStep::RunCheck { config: 1, provider, auth: 2, base_url: 3, api_format: 4 }
            if provider.id == "p1" && provider.name == "P1"
    ));
}

#[test]
fn report() {
    let step = run(&request("p1"), events(Some("\"operational\"")));
    let TestStep::Finished { reply, log } = step else {
        panic!("not finished");
    };
    let log = log.unwrap();
    assert_eq!(log.provider_id, "p1");
    assert_eq!(log.provider_name, "P1");
    assert_eq!(log.app_type, "gemini");
    assert_eq!(reply.status, 200);
    let Body::Tested { report } = reply.body else {
        panic!("not a report");
    };
    assert_eq!(report.status, "operational");
    assert!(report.success);
    assert!(report.operational);
    assert_eq!(report.message, "fine");
    assert_eq!(report.response_time_ms, Some(12));
    assert_eq!(report.http_status, Some(200));
    assert_eq!(report.model_used, "m");
    assert_eq!(report.tested_at, 99);
    assert_eq!(report.retry_count, 1);
    assert_eq!(report.error_category, None);
}

#[test]
fn status_without_text_is_unknown() {
    let step = run(&request("p1"), events(None));
    assert!(matches!(
        &step,
        TestStep::Finished { reply: Reply { body: Body::Tested { report }, .. }, .. }
            if report.status == "unknown"
    ));
}

#[test]
fn every_failed_step_is_answered() {
    for n in 0..6 {
        let mut some: Vec<Event> = events(None).into_iter().take(n).collect();
        some.push(TestEvent::Failed { error: format!("step {}", n) });
        assert_eq!(refusal(run(&request("p1"), some)), format!("step {}", n));
    }
}

#[test]
fn report_carries_the_success_of_the_check() {
    let mut some: Vec<Event> = events(None).into_iter().take(5).collect();
    let mut failed = result(Some("\"failed\""));
    failed.success = false;
    failed.message = "no answer".to_string();
    failed.http_status = Some(503);
    some.push(TestEvent::Checked { result: failed });
    let TestStep::Finished { reply, .. } = run(&request("p1"), some) else {
        panic!("not finished");
    };
    let Body::Tested { report } = reply.body else {
        panic!("not a report");
    };
    assert!(!report.success);
    assert!(!report.operational);
    assert_eq!(report.status, "failed");
    assert_eq!(report.message, "no answer");
    assert_eq!(report.response_time_ms, Some(12));
    assert_eq!(report.http_status, Some(503));
    assert_eq!(report.model_used, "m");
    assert_eq!(report.retry_count, 1);
}
