use cc_switch::error_rate::ErrorRate;
use cc_switch::failover::{
    advance, proxy_failover, FailoverEvent, FailoverStep, FailoverToggleRequest,
};
use cc_switch::provider::AppProxyConfig;
use cc_switch::reply::{Body, Reply};

fn request(enabled: bool) -> FailoverToggleRequest {
    FailoverToggleRequest {
        app_type: "gemini".to_string(),
        enabled,
    }
}

fn config(enabled: bool) -> AppProxyConfig {
    AppProxyConfig {
        auto_failover_enabled: enabled,
        circuit_failure_threshold: 4,
        circuit_success_threshold: 2,
        circuit_timeout_seconds: 60,
        circuit_error_rate_threshold: ErrorRate::Never,
        circuit_min_requests: 10,
    }
}

fn queue(ids: &[&str]) -> FailoverEvent {
    FailoverEvent::Queue {
        ids: ids.iter().map(|id| id.to_string()).collect(),
    }
}

fn current(id: Option<&str>) -> FailoverEvent {
    FailoverEvent::Current {
        provider_id: id.map(|id| id.to_string()),
    }
}

fn run(body: &FailoverToggleRequest, events: Vec<FailoverEvent>) -> FailoverStep {
    let mut step = proxy_failover(true, body);
    for event in events {
        step = advance(body, step, event);
    }
    step
}

fn refusal(step: FailoverStep) -> String {
    match step {
        FailoverStep::Refused {
            reply: Reply { status: 200, body: Body::Failure { error } },
        } => error,
        other => panic!("not refused: {:?}", other),
    }
}

#[test]
fn stopped_server_refuses() {
    let step = proxy_failover(false, &request(true));
    assert!(matches!(
        &step,
        FailoverStep::Refused { reply: Reply { status: 503, body: Body::Error { error } } }
            if error == "Server is stopped"
    ));
}

#[test]
fn switching_on_goes_to_the_head_of_the_queue() {
    let body = request(true);
    let step = run(&body, vec![queue(&["p1", "p2"])]);
    assert!(matches!(&step, FailoverStep::ReadConfig { target: Some(id) } if id == "p1"));
    let step = advance(&body, step, FailoverEvent::Config { config: config(false) });
    assert!(matches!(
        &step,
        FailoverStep::WriteConfig { target: Some(id), config: stored } if id == "p1" && *stored == config(true)
    ));
    let step = advance(&body, step, FailoverEvent::Done);
    assert!(matches!(&step, FailoverStep::SwitchTarget { provider_id } if provider_id == "p1"));
    let step = advance(&body, step, FailoverEvent::Done);
    assert!(matches!(
        &step,
        FailoverStep::Applied { reply: Reply { status: 200, body: Body::Success }, switched_to: Some(id) }
            if id == "p1"
    ));
}

#[test]
fn empty_queue_gets_the_current_provider() {
    let body = request(true);
    let step = run(&body, vec![queue(&[])]);
    assert!(matches!(step, FailoverStep::ReadCurrent));
    let step = advance(&body, step, current(Some("p3")));
    assert!(matches!(&step, FailoverStep::Enqueue { provider_id } if provider_id == "p3"));
    let step = advance(&body, step, FailoverEvent::Done);
    assert!(matches!(step, FailoverStep::ReadFilledQueue));
    let step = advance(&body, step, queue(&["p3"]));
    assert!(matches!(&step, FailoverStep::ReadConfig { target: Some(id) } if id == "p3"));
}

#[test]
fn switching_off_changes_no_provider() {
    let body = request(false);
    let step = run(&body, vec![]);
    assert!(matches!(step, FailoverStep::ReadConfig { target: None }));
    let step = advance(&body, step, FailoverEvent::Config { config: config(true) });
    assert!(matches!(
        &step,
        FailoverStep::WriteConfig { target: None, config: stored } if *stored == config(false)
    ));
    let step = advance(&body, step, FailoverEvent::Done);
    assert!(matches!(
        step,
        FailoverStep::Applied { reply: Reply { status: 200, body: Body::Success }, switched_to: None }
    ));
}

#[test]
fn refusals() {
    let body = request(true);
    assert_eq!(
        refusal(run(&body, vec![queue(&[]), FailoverEvent::UnknownApp])),
        "无效的应用类型: gemini"
    );
    assert_eq!(
        refusal(run(&body, vec![queue(&[]), current(None)])),
        "故障转移队列为空，且未设置当前供应商，无法开启故障转移"
    );
    assert_eq!(
        refusal(run(
            &body,
            vec![queue(&[]), current(Some("p")), FailoverEvent::Done, queue(&[])]
        )),
        "故障转移队列为空，无法开启故障转移"
    );
}

#[test]
fn every_failure_is_answered() {
    let body = request(true);
    let all = || {
        vec![
            queue(&[]),
            current(Some("p")),
            FailoverEvent::Done,
            queue(&["p"]),
            FailoverEvent::Config { config: config(false) },
            FailoverEvent::Done,
            FailoverEvent::Done,
        ]
    };
    for n in 0..all().len() {
        let mut events: Vec<FailoverEvent> = all().into_iter().take(n).collect();
        events.push(FailoverEvent::Failed { error: format!("step {}", n) });
        assert_eq!(refusal(run(&body, events)), format!("step {}", n));
    }
    assert!(matches!(
        run(&body, all()),
        FailoverStep::Applied { switched_to: Some(_), .. }
    ));
}
