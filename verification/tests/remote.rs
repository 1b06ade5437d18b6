use cc_switch::provider::Provider;
use cc_switch::remote::{
    finish_proxy_start, finish_proxy_stop, finish_proxy_takeover, finish_switch, get_current,
    get_providers, health_check, index, proxy_control, proxy_takeover, switch_provider,
    ProxyAction, ProxyControlRequest, ProxyInfo, ProxyTakeoverRequest, SwitchRequest,
};
use cc_switch::reply::{Body, Reply, Step};
use cc_switch::reorder::{finish_reorder, reorder_providers, ReorderRequest};

fn provider(id: &str, name: &str) -> Provider {
    Provider {
        id: id.to_string(),
        name: name.to_string(),
        settings_config: "{}".to_string(),
        sort_index: None,
        category: Some("custom".to_string()),
        icon: Some("openai".to_string()),
        icon_color: None,
        codex_official: false,
        usage_script_enabled: false,
        usage_template: None,
    }
}

fn is_stopped(reply: &Reply) -> bool {
    reply.status == 503 && matches!(&reply.body, Body::Error { error } if error == "Server is stopped")
}

fn failure_of(reply: &Reply) -> String {
    assert_eq!(reply.status, 200);
    match &reply.body {
        Body::Failure { error } => error.clone(),
        _ => panic!("not a failure"),
    }
}

fn is_success(reply: &Reply) -> bool {
    reply.status == 200 && matches!(reply.body, Body::Success)
}

fn answer<A>(step: Step<A>) -> Reply {
    match step {
        Step::Answer(reply) => reply,
        Step::Perform(_) => panic!("not an answer"),
    }
}

#[test]
fn page_and_health() {
    assert!(matches!(index(true), Reply { status: 200, body: Body::Page }));
    let stopped = index(false);
    assert_eq!(stopped.status, 503);
    assert!(matches!(&stopped.body, Body::Text(text) if text == "Remote server is stopped"));

    let well = health_check(true);
    assert_eq!(well.status, 200);
    assert!(matches!(
        &well.body,
        Body::Health { status, version: Some(version) } if status == "ok" && version == "1.0.0"
    ));
    let stopped = health_check(false);
    assert_eq!(stopped.status, 503);
    assert!(matches!(
        &stopped.body,
        Body::Health { status, version: None } if status == "stopped"
    ));
}

#[test]
fn list_marks_the_current_provider() {
    let list = || Ok(vec![provider("a", "A"), provider("b", "B")]);
    let reply = get_providers(true, list(), Ok("b".to_string()));
    assert_eq!(reply.status, 200);
    let Body::Providers { providers } = reply.body else {
        panic!("not a list");
    };
    assert_eq!(providers.len(), 2);
    assert_eq!(providers[0].id, "a");
    assert_eq!(providers[0].name, "A");
    assert!(!providers[0].is_current);
    assert!(providers[1].is_current);
    assert_eq!(providers[1].category, Some("custom".to_string()));
    assert_eq!(providers[1].icon, Some("openai".to_string()));
    assert_eq!(providers[1].icon_color, None);

    let unknown = get_providers(true, list(), Err("no settings".to_string()));
    let Body::Providers { providers } = unknown.body else {
        panic!("not a list");
    };
    assert!(providers.iter().all(|p| !p.is_current));

    assert!(is_stopped(&get_providers(false, list(), Ok("b".to_string()))));
    let failed = get_providers(true, Err("disk".to_string()), Ok("b".to_string()));
    assert_eq!(failed.status, 200);
    assert!(matches!(&failed.body, Body::Error { error } if error == "disk"));
}

#[test]
fn current_provider() {
    let list = || Ok(vec![provider("a", "A"), provider("b", "B")]);
    let current = |id: Result<String, String>, list: Result<Vec<Provider>, String>| {
        match get_current(true, id, list).body {
            Body::Current { current } => current.map(|c| vec![c.id, c.name]),
            _ => panic!("not the current provider"),
        }
    };
    assert_eq!(current(Ok("b".to_string()), list()), Some(vec!["b".to_string(), "B".to_string()]));
    assert_eq!(current(Ok("c".to_string()), list()), None);
    assert_eq!(current(Ok("".to_string()), list()), None);
    assert_eq!(current(Err("x".to_string()), list()), None);
    assert_eq!(current(Ok("b".to_string()), Err("x".to_string())), None);
    assert!(is_stopped(&get_current(false, Ok("b".to_string()), list())));
}

#[test]
fn switching() {
    let request = |id: &str| SwitchRequest { provider_id: id.to_string() };
    assert!(is_stopped(&answer(switch_provider(false, "gemini", &request("b")))));
    assert_eq!(
        failure_of(&answer(switch_provider(true, "gemini", &request("")))),
        "Missing provider_id"
    );
    let Step::Perform(target) = switch_provider(true, "gemini", &request("b")) else {
        panic!("not a change");
    };
    assert_eq!(target.app_type, "gemini");
    assert_eq!(target.provider_id, "b");

    let (reply, notice) = finish_switch(
        "gemini",
        &request("b"),
        Ok(vec!["careful".to_string()]),
        Ok(vec![provider("a", "A"), provider("b", "B")]),
    );
    assert_eq!(reply.status, 200);
    assert!(matches!(
        &reply.body,
        Body::Switched { name, warnings } if name == "B" && warnings == &vec!["careful".to_string()]
    ));
    let notice = notice.unwrap();
    assert_eq!(notice.app_type, "gemini");
    assert_eq!(notice.provider_id, "b");
    assert_eq!(notice.name, "B");

    let (reply, notice) = finish_switch("gemini", &request("z"), Ok(vec![]), Err("x".to_string()));
    assert!(matches!(&reply.body, Body::Switched { name, .. } if name.is_empty()));
    assert_eq!(notice.unwrap().name, "");

    let (reply, notice) =
        finish_switch("gemini", &request("b"), Err("locked".to_string()), Ok(vec![]));
    assert_eq!(failure_of(&reply), "locked");
    assert!(notice.is_none());
}

#[test]
fn proxy() {
    assert!(is_stopped(&answer(proxy_control(false, None))));
    assert!(!ProxyControlRequest::default().start);
    assert!(matches!(proxy_control(true, None), Step::Perform(ProxyAction::Stop)));
    assert!(matches!(
        proxy_control(true, Some(ProxyControlRequest { start: false })),
        Step::Perform(ProxyAction::Stop)
    ));
    assert!(matches!(
        proxy_control(true, Some(ProxyControlRequest { start: true })),
        Step::Perform(ProxyAction::Start)
    ));
    let started = finish_proxy_start(Ok(ProxyInfo {
        address: "127.0.0.1".to_string(),
        port: 15721,
    }));
    assert!(matches!(
        &started.body,
        Body::ProxyStarted { address, port: 15721 } if address == "127.0.0.1"
    ));
    let failed = finish_proxy_start(Err("busy".to_string()));
    assert!(matches!(
        &failed.body,
        Body::ProxyFailed { action, error } if action == "start" && error == "busy"
    ));
    assert!(matches!(finish_proxy_stop(Ok(())).body, Body::ProxyStopped));
    let failed = finish_proxy_stop(Err("stuck".to_string()));
    assert!(matches!(
        &failed.body,
        Body::ProxyFailed { action, error } if action == "stop" && error == "stuck"
    ));
}

#[test]
fn takeover() {
    let request = || ProxyTakeoverRequest {
        app_type: "codex".to_string(),
        enabled: true,
    };
    assert!(is_stopped(&answer(proxy_takeover(false, request()))));
    assert!(matches!(
        proxy_takeover(true, request()),
        Step::Perform(ProxyTakeoverRequest { app_type, enabled: true }) if app_type == "codex"
    ));
    assert!(is_success(&finish_proxy_takeover(Ok(()))));
    assert_eq!(failure_of(&finish_proxy_takeover(Err("no".to_string()))), "no");
}

fn placed(id: &str, sort_index: Option<usize>) -> Provider {
    let mut p = provider(id, id);
    p.sort_index = sort_index;
    p
}

fn reorder(list: Vec<Provider>, moved: &str, before: &str) -> Vec<String> {
    let body = ReorderRequest {
        moved_id: moved.to_string(),
        before_id: before.to_string(),
    };
    match reorder_providers(true, &body, Ok(list)) {
        Step::Perform(updates) => {
            for (i, update) in updates.iter().enumerate() {
                assert_eq!(update.sort_index, i);
            }
            updates.into_iter().map(|u| u.id).collect()
        }
        Step::Answer(reply) => vec![failure_of(&reply)],
    }
}

fn five() -> Vec<Provider> {
    vec![
        placed("x", None),
        placed("c", Some(7)),
        placed("a", Some(1)),
        placed("y", None),
        placed("b", Some(1)),
    ]
}

#[test]
fn reordering_sorts_first() {
    // a and b share an index and stay as they are; x and y have none.
    assert_eq!(reorder(five(), "a", "a"), vec!["a", "b", "c", "x", "y"]);
}

#[test]
fn reordering_moves_before_the_target() {
    assert_eq!(reorder(five(), "y", "b"), vec!["a", "y", "b", "c", "x"]);
    assert_eq!(reorder(five(), "a", "x"), vec!["b", "c", "a", "x", "y"]);
    assert_eq!(reorder(five(), "a", "b"), vec!["a", "b", "c", "x", "y"]);
    assert_eq!(reorder(five(), "c", "a"), vec!["c", "a", "b", "x", "y"]);
}

#[test]
fn reordering_moves_to_the_end() {
    assert_eq!(reorder(five(), "b", ""), vec!["a", "c", "x", "y", "b"]);
    assert_eq!(reorder(five(), "b", "gone"), vec!["a", "c", "x", "y", "b"]);
    assert_eq!(reorder(five(), "y", ""), vec!["a", "b", "c", "x", "y"]);
}

#[test]
fn what_was_arranged_is_seen() {
    let arranged = reorder(five(), "y", "b");
    let stored: Vec<Provider> = five()
        .into_iter()
        .map(|p| {
            let at = arranged.iter().position(|id| id == &p.id);
            placed(&p.id, at)
        })
        .collect();
    assert_eq!(reorder(stored, "x", ""), vec!["a", "y", "b", "c", "x"]);
}

#[test]
fn reordering_refuses() {
    assert_eq!(reorder(five(), "z", "a"), vec!["Provider 'z' not found"]);
    assert_eq!(reorder(five(), "", "a"), vec!["Missing moved_id"]);
    let body = ReorderRequest {
        moved_id: "a".to_string(),
        before_id: "".to_string(),
    };
    assert!(is_stopped(&answer(reorder_providers(false, &body, Ok(five())))));
    assert_eq!(
        failure_of(&answer(reorder_providers(true, &body, Err("disk".to_string())))),
        "disk"
    );
    assert!(is_success(&finish_reorder(Ok(()))));
    assert_eq!(failure_of(&finish_reorder(Err("full".to_string()))), "full");
}
