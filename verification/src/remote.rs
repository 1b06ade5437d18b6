//! The decisions of the management API: what each request is answered, and what
//! is to be done for it.
//!
//! The caller says whether the server is running, does what a `Step` or an
//! action asks for, and hands back what came of it.

use crate::provider::{find_provider, lemma_found_provider, provider_with_id, Provider};
use crate::reply::{
    failure, failure_reply, ok, ok_reply, stopped, stopped_reply, Body, BodyView, CurrentProvider,
    CurrentProviderView, ProviderItem, ProviderItemView, Reply, ReplyView, Step,
    SERVICE_UNAVAILABLE,
};
use crate::text::same_text;
use vstd::prelude::*;

verus! {

/// A request to change the current provider.
#[derive(Debug)]
pub struct SwitchRequest {
    pub provider_id: String,
}

/// A request to start or stop the proxy. By default it is stopped.
#[derive(Debug)]
pub struct ProxyControlRequest {
    /// Start the proxy and take the apps over; otherwise stop it and give them
    /// back.
    pub start: bool,
}

impl Default for ProxyControlRequest {
    fn default() -> (request: Self)
        ensures
            !request.start,
    {
        ProxyControlRequest { start: false }
    }
}

/// A request to let the proxy take over an app, or to give it back.
#[derive(Debug)]
pub struct ProxyTakeoverRequest {
    pub app_type: String,
    pub enabled: bool,
}

/// The management page.
pub fn index(running: bool) -> (reply: Reply)
    ensures
        reply@ == if running {
            ok_reply(BodyView::Page)
        } else {
            ReplyView {
                status: SERVICE_UNAVAILABLE,
                body: BodyView::Text("Remote server is stopped"@),
            }
        },
{
    if !running {
        return Reply {
            status: SERVICE_UNAVAILABLE,
            body: Body::Text("Remote server is stopped".to_string()),
        };
    }
    ok(Body::Page)
}

/// The health of the server.
pub fn health_check(running: bool) -> (reply: Reply)
    ensures
        reply@ == if running {
            ok_reply(BodyView::Health { status: "ok"@, version: Some("1.0.0"@) })
        } else {
            ReplyView {
                status: SERVICE_UNAVAILABLE,
                body: BodyView::Health { status: "stopped"@, version: None },
            }
        },
{
    if !running {
        return Reply {
            status: SERVICE_UNAVAILABLE,
            body: Body::Health { status: "stopped".to_string(), version: None },
        };
    }
    ok(Body::Health { status: "ok".to_string(), version: Some("1.0.0".to_string()) })
}

/// A provider as the list shows it, where `current_id` is the current one.
pub open spec fn list_item(provider: Provider, current_id: Seq<char>) -> ProviderItemView {
    ProviderItemView {
        id: provider.id@,
        name: provider.name@,
        is_current: provider.id@ == current_id,
        category: provider.category.deep_view(),
        icon: provider.icon.deep_view(),
        icon_color: provider.icon_color.deep_view(),
    }
}

/// The id of the current provider, empty where it is not known.
pub open spec fn known_id(current: Result<String, String>) -> Seq<char> {
    match current {
        Ok(id) => id@,
        Err(_) => Seq::empty(),
    }
}

/// The list of providers.
pub fn get_providers(
    running: bool,
    list: Result<Vec<Provider>, String>,
    current: Result<String, String>,
) -> (reply: Reply)
    ensures
        !running ==> reply@ == stopped_reply(),
        running ==> {
            &&& list matches Err(error) ==> reply@ == ok_reply(BodyView::Error { error: error@ })
            &&& list matches Ok(providers) ==> reply@ == ok_reply(
                BodyView::Providers {
                    providers: providers@.map_values(
                        |p: Provider| list_item(p, known_id(current)),
                    ),
                },
            )
        },
{
    if !running {
        return stopped();
    }
    let providers = match list {
        Ok(providers) => providers,
        Err(error) => return ok(Body::Error { error }),
    };
    let ghost shown = providers@.map_values(|p: Provider| list_item(p, known_id(current)));
    let current_id = match current {
        Ok(id) => id,
        Err(_) => String::new(),
    };
    let mut items: Vec<ProviderItem> = Vec::new();
    let mut i: usize = 0;
    while i < providers.len()
        invariant
            i <= providers.len(),
            current_id@ == known_id(current),
            shown == providers@.map_values(|p: Provider| list_item(p, known_id(current))),
            items@.len() == i,
            forall|j: int| 0 <= j < i ==> (#[trigger] items@[j]).deep_view() == shown[j],
        decreases providers.len() - i,
    {
        let provider = &providers[i];
        items.push(
            ProviderItem {
                id: provider.id.clone(),
                name: provider.name.clone(),
                is_current: same_text(provider.id.as_str(), current_id.as_str()),
                category: provider.category.clone(),
                icon: provider.icon.clone(),
                icon_color: provider.icon_color.clone(),
            },
        );
        i += 1;
    }
    assert(items.deep_view() =~= shown);
    ok(Body::Providers { providers: items })
}

/// The current provider of the list, where it is known and in the list.
pub open spec fn current_in(
    current: Result<String, String>,
    list: Result<Vec<Provider>, String>,
) -> Option<CurrentProviderView> {
    match (current, list) {
        (Ok(id), Ok(providers)) => if id@.len() == 0 {
            None
        } else {
            match provider_with_id(providers@, id@) {
                Some(provider) => Some(CurrentProviderView { id: id@, name: provider.name@ }),
                None => None,
            }
        },
        _ => None,
    }
}

/// The current provider.
pub fn get_current(
    running: bool,
    current: Result<String, String>,
    list: Result<Vec<Provider>, String>,
) -> (reply: Reply)
    ensures
        reply@ == if running {
            ok_reply(BodyView::Current { current: current_in(current, list) })
        } else {
            stopped_reply()
        },
{
    if !running {
        return stopped();
    }
    if let (Ok(id), Ok(providers)) = (current, list) {
        if !id.as_str().is_empty() {
            if let Some(provider) = find_provider(&providers, id.as_str()) {
                let name = provider.name.clone();
                return ok(Body::Current { current: Some(CurrentProvider { id, name }) });
            }
        }
    }
    ok(Body::Current { current: None })
}

/// The list and the current provider agree: what is named as current is marked
/// as current in the list, under the same name.
pub proof fn current_is_marked(id: String, providers: Vec<Provider>)
    ensures
        current_in(Ok(id), Ok(providers)) matches Some(current) ==> exists|i: int|
            0 <= i < providers@.len() && is_marked_as(#[trigger] providers@[i], id, current),
{
    lemma_found_provider(providers@, id@);
    if let Some(provider) = provider_with_id(providers@, id@) {
        let i = choose|i: int| 0 <= i < providers@.len() && providers@[i] == provider;
        if let Some(current) = current_in(Ok(id), Ok(providers)) {
            assert(is_marked_as(providers@[i], id, current));
        }
    }
}

/// The list shows the provider as the current one, under the given id and name.
pub open spec fn is_marked_as(
    provider: Provider,
    id: String,
    current: CurrentProviderView,
) -> bool {
    let item = list_item(provider, known_id(Ok(id)));
    item.is_current && item.id == current.id && item.name == current.name
}

/// A change of the current provider.
#[derive(Debug)]
pub struct SwitchTarget {
    /// The app whose provider is changed.
    pub app_type: String,
    /// The provider that becomes the current one.
    pub provider_id: String,
}

/// Looks at a request to change the current provider of the app that the API
/// manages. If nothing is wrong with it, the change is to be made and
/// `finish_switch` says the rest.
pub fn switch_provider(running: bool, app_type: &str, body: &SwitchRequest) -> (step: Step<
    SwitchTarget,
>)
    ensures
        !running ==> (step matches Step::Answer(reply) && reply@ == stopped_reply()),
        running && body.provider_id@.len() == 0 ==> (step matches Step::Answer(reply) && reply@
            == failure_reply("Missing provider_id"@)),
        running && body.provider_id@.len() > 0 ==> (step matches Step::Perform(target)
            && target.app_type@ == app_type@ && target.provider_id@ == body.provider_id@),
{
    if !running {
        return Step::Answer(stopped());
    }
    if body.provider_id.as_str().is_empty() {
        return Step::Answer(failure("Missing provider_id".to_string()));
    }
    Step::Perform(
        SwitchTarget { app_type: app_type.to_string(), provider_id: body.provider_id.clone() },
    )
}

/// What others are told of a change of the current provider.
#[derive(Debug)]
pub struct SwitchNotice {
    pub app_type: String,
    pub provider_id: String,
    pub name: String,
}

/// A `SwitchNotice` as the contracts see it.
pub struct SwitchNoticeView {
    pub app_type: Seq<char>,
    pub provider_id: Seq<char>,
    pub name: Seq<char>,
}

impl DeepView for SwitchNotice {
    type V = SwitchNoticeView;

    open spec fn deep_view(&self) -> SwitchNoticeView {
        SwitchNoticeView {
            app_type: self.app_type@,
            provider_id: self.provider_id@,
            name: self.name@,
        }
    }
}

/// The name of the provider with the given id, empty where it is not known.
pub open spec fn name_in(list: Result<Vec<Provider>, String>, id: Seq<char>) -> Seq<char> {
    match list {
        Ok(providers) => match provider_with_id(providers@, id) {
            Some(provider) => provider.name@,
            None => Seq::empty(),
        },
        Err(_) => Seq::empty(),
    }
}

/// The answer after the current provider was to be changed, and what others are
/// told. `app_type` is the app that the API manages, `switched` holds the
/// warnings of the change, `list` the providers after it.
pub fn finish_switch(
    app_type: &str,
    body: &SwitchRequest,
    switched: Result<Vec<String>, String>,
    list: Result<Vec<Provider>, String>,
) -> (done: (Reply, Option<SwitchNotice>))
    ensures
        switched matches Err(error) ==> {
            &&& done.0@ == failure_reply(error@)
            &&& done.1 is None
        },
        switched matches Ok(warnings) ==> {
            let name = name_in(list, body.provider_id@);
            &&& done.0@ == ok_reply(BodyView::Switched { name, warnings: warnings.deep_view() })
            &&& done.1.deep_view() == Some(
                SwitchNoticeView { app_type: app_type@, provider_id: body.provider_id@, name },
            )
        },
{
    match switched {
        Err(error) => (failure(error), None),
        Ok(warnings) => {
            let mut name = String::new();
            if let Ok(providers) = &list {
                if let Some(provider) = find_provider(providers, body.provider_id.as_str()) {
                    name = provider.name.clone();
                }
            }
            let notice = SwitchNotice {
                app_type: app_type.to_string(),
                provider_id: body.provider_id.clone(),
                name: name.clone(),
            };
            (ok(Body::Switched { name, warnings }), Some(notice))
        },
    }
}

/// What the proxy is to do.
#[derive(Debug, Clone, Copy, PartialEq, Eq, Structural)]
pub enum ProxyAction {
    /// Start and take over the apps.
    Start,
    /// Stop and give the apps back.
    Stop,
}

impl ProxyAction {
    /// The name of the action.
    pub open spec fn name(self) -> Seq<char> {
        match self {
            ProxyAction::Start => "start"@,
            ProxyAction::Stop => "stop"@,
        }
    }
}

/// Looks at a request to start or stop the proxy.
pub fn proxy_control(running: bool, body: Option<ProxyControlRequest>) -> (step: Step<ProxyAction>)
    ensures
        !running ==> (step matches Step::Answer(reply) && reply@ == stopped_reply()),
        running ==> step == Step::Perform(
            if body matches Some(request) && request.start {
                ProxyAction::Start
            } else {
                ProxyAction::Stop
            },
        ),
{
    if !running {
        return Step::Answer(stopped());
    }
    let start = match body {
        Some(request) => request.start,
        None => false,
    };
    if start {
        Step::Perform(ProxyAction::Start)
    } else {
        Step::Perform(ProxyAction::Stop)
    }
}

/// Where the proxy listens.
#[derive(Debug)]
pub struct ProxyInfo {
    pub address: String,
    pub port: u16,
}

/// The answer after the proxy was to be started.
pub fn finish_proxy_start(started: Result<ProxyInfo, String>) -> (reply: Reply)
    ensures
        reply@ == ok_reply(
            match started {
                Ok(info) => BodyView::ProxyStarted { address: info.address@, port: info.port },
                Err(error) => BodyView::ProxyFailed {
                    action: ProxyAction::Start.name(),
                    error: error@,
                },
            },
        ),
{
    match started {
        Ok(info) => ok(Body::ProxyStarted { address: info.address, port: info.port }),
        Err(error) => ok(Body::ProxyFailed { action: "start".to_string(), error }),
    }
}

/// The answer after the proxy was to be stopped.
pub fn finish_proxy_stop(stopped: Result<(), String>) -> (reply: Reply)
    ensures
        reply@ == ok_reply(
            match stopped {
                Ok(_) => BodyView::ProxyStopped,
                Err(error) => BodyView::ProxyFailed {
                    action: ProxyAction::Stop.name(),
                    error: error@,
                },
            },
        ),
{
    match stopped {
        Ok(_) => ok(Body::ProxyStopped),
        Err(error) => ok(Body::ProxyFailed { action: "stop".to_string(), error }),
    }
}

/// Looks at a request to let the proxy take over an app, or to give it back.
/// The takeover that it asks for is the request itself.
pub fn proxy_takeover(running: bool, body: ProxyTakeoverRequest) -> (step: Step<
    ProxyTakeoverRequest,
>)
    ensures
        !running ==> (step matches Step::Answer(reply) && reply@ == stopped_reply()),
        running ==> step == Step::Perform(body),
{
    if !running {
        return Step::Answer(stopped());
    }
    Step::Perform(body)
}

/// The answer after an app was to be taken over or given back.
pub fn finish_proxy_takeover(done: Result<(), String>) -> (reply: Reply)
    ensures
        reply@ == match done {
            Ok(_) => ok_reply(BodyView::Success),
            Err(error) => failure_reply(error@),
        },
{
    match done {
        Ok(_) => ok(Body::Success),
        Err(error) => failure(error),
    }
}

} // verus!
