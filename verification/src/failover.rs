//! Switching the automatic failover of an app on and off, one step at a time.
//!
//! A step says what is to be done next. The caller does it and hands back what
//! came of it as an event, until the request is refused or applied. When
//! failover is switched on, requests go at once to the head of the failover
//! queue, so a queue that is empty first gets the current provider.

use crate::provider::AppProxyConfig;
use crate::reply::{
    failure, failure_reply, ok, ok_reply, stopped, stopped_reply, Body, BodyView, Reply, ReplyView,
};
use crate::text::join2;
use vstd::prelude::*;

verus! {

/// A request to switch the automatic failover of an app on or off.
#[derive(Debug)]
pub struct FailoverToggleRequest {
    pub app_type: String,
    pub enabled: bool,
}

/// A `FailoverToggleRequest` as the contracts see it.
pub struct ToggleView {
    pub app_type: Seq<char>,
    pub enabled: bool,
}

impl View for FailoverToggleRequest {
    type V = ToggleView;

    open spec fn view(&self) -> ToggleView {
        ToggleView { app_type: self.app_type@, enabled: self.enabled }
    }
}

/// What is to be done next.
#[derive(Debug)]
pub enum FailoverStep {
    /// Read the ids of the failover queue of the app, in their order.
    ReadQueue,
    /// The queue is empty: find out the current provider of the app.
    ReadCurrent,
    /// Put the current provider into the queue.
    Enqueue { provider_id: String },
    /// Read the queue once more.
    ReadFilledQueue,
    /// Read the proxy settings of the app.
    ReadConfig { target: Option<String> },
    /// Store the proxy settings of the app.
    WriteConfig { target: Option<String>, config: AppProxyConfig },
    /// Send the requests of the app to a provider.
    SwitchTarget { provider_id: String },
    /// The request is refused with an answer.
    Refused { reply: Reply },
    /// The request is applied and answered. The menu is refreshed, and others
    /// are told of the provider that requests now go to.
    Applied { reply: Reply, switched_to: Option<String> },
}

/// A `FailoverStep` as the contracts see it.
pub enum StepView {
    ReadQueue,
    ReadCurrent,
    Enqueue { provider_id: Seq<char> },
    ReadFilledQueue,
    ReadConfig { target: Option<Seq<char>> },
    WriteConfig { target: Option<Seq<char>>, config: AppProxyConfig },
    SwitchTarget { provider_id: Seq<char> },
    Refused { reply: ReplyView },
    Applied { reply: ReplyView, switched_to: Option<Seq<char>> },
}

impl View for FailoverStep {
    type V = StepView;

    open spec fn view(&self) -> StepView {
        match self {
            FailoverStep::ReadQueue => StepView::ReadQueue,
            FailoverStep::ReadCurrent => StepView::ReadCurrent,
            FailoverStep::Enqueue { provider_id } => StepView::Enqueue {
                provider_id: provider_id@,
            },
            FailoverStep::ReadFilledQueue => StepView::ReadFilledQueue,
            FailoverStep::ReadConfig { target } => StepView::ReadConfig {
                target: target.deep_view(),
            },
            FailoverStep::WriteConfig { target, config } => StepView::WriteConfig {
                target: target.deep_view(),
                config: *config,
            },
            FailoverStep::SwitchTarget { provider_id } => StepView::SwitchTarget {
                provider_id: provider_id@,
            },
            FailoverStep::Refused { reply } => StepView::Refused { reply: reply@ },
            FailoverStep::Applied { reply, switched_to } => StepView::Applied {
                reply: reply@,
                switched_to: switched_to.deep_view(),
            },
        }
    }
}

/// What came of a step.
#[derive(Debug)]
pub enum FailoverEvent {
    /// The step failed.
    Failed { error: String },
    /// The ids of the failover queue, in their order.
    Queue { ids: Vec<String> },
    /// There is no such app.
    UnknownApp,
    /// The current provider of the app, if there is one.
    Current { provider_id: Option<String> },
    /// The proxy settings of the app.
    Config { config: AppProxyConfig },
    /// The step is done.
    Done,
}

/// A `FailoverEvent` as the contracts see it.
pub enum EventView {
    Failed { error: Seq<char> },
    Queue { ids: Seq<Seq<char>> },
    UnknownApp,
    Current { provider_id: Option<Seq<char>> },
    Config { config: AppProxyConfig },
    Done,
}

impl View for FailoverEvent {
    type V = EventView;

    open spec fn view(&self) -> EventView {
        match self {
            FailoverEvent::Failed { error } => EventView::Failed { error: error@ },
            FailoverEvent::Queue { ids } => EventView::Queue { ids: ids.deep_view() },
            FailoverEvent::UnknownApp => EventView::UnknownApp,
            FailoverEvent::Current { provider_id } => EventView::Current {
                provider_id: provider_id.deep_view(),
            },
            FailoverEvent::Config { config } => EventView::Config { config: *config },
            FailoverEvent::Done => EventView::Done,
        }
    }
}

/// The event is one that the step can have. Nothing comes after a request was
/// refused or applied.
pub open spec fn answers(event: EventView, step: StepView) -> bool {
    match step {
        StepView::ReadQueue => event is Failed || event is Queue,
        StepView::ReadCurrent => event is Failed || event is UnknownApp || event is Current,
        StepView::Enqueue { .. } => event is Failed || event is Done,
        StepView::ReadFilledQueue => event is Failed || event is Queue,
        StepView::ReadConfig { .. } => event is Failed || event is Config,
        StepView::WriteConfig { .. } => event is Failed || event is Done,
        StepView::SwitchTarget { .. } => event is Failed || event is Done,
        StepView::Refused { .. } => false,
        StepView::Applied { .. } => false,
    }
}

/// The request is refused, and why.
pub open spec fn refused(error: Seq<char>) -> StepView {
    StepView::Refused { reply: failure_reply(error) }
}

/// The request is applied.
pub open spec fn applied(switched_to: Option<Seq<char>>) -> StepView {
    StepView::Applied { reply: ok_reply(BodyView::Success), switched_to }
}

/// The first step.
pub open spec fn first_step(running: bool, body: ToggleView) -> StepView {
    if !running {
        StepView::Refused { reply: stopped_reply() }
    } else if body.enabled {
        StepView::ReadQueue
    } else {
        StepView::ReadConfig { target: None }
    }
}

/// The step after the given one, on what came of it.
pub open spec fn next_step(body: ToggleView, step: StepView, event: EventView) -> StepView {
    match (step, event) {
        (_, EventView::Failed { error }) => refused(error),
        (StepView::ReadQueue, EventView::Queue { ids }) => if ids.len() == 0 {
            StepView::ReadCurrent
        } else {
            StepView::ReadConfig { target: Some(ids[0]) }
        },
        (StepView::ReadCurrent, EventView::UnknownApp) => refused(
            "无效的应用类型: "@ + body.app_type,
        ),
        (StepView::ReadCurrent, EventView::Current { provider_id: None }) => refused(
            "故障转移队列为空，且未设置当前供应商，无法开启故障转移"@,
        ),
        (StepView::ReadCurrent, EventView::Current { provider_id: Some(provider_id) }) =>
        StepView::Enqueue { provider_id },
        (StepView::Enqueue { .. }, EventView::Done) => StepView::ReadFilledQueue,
        (StepView::ReadFilledQueue, EventView::Queue { ids }) => if ids.len() == 0 {
            refused("故障转移队列为空，无法开启故障转移"@)
        } else {
            StepView::ReadConfig { target: Some(ids[0]) }
        },
        (StepView::ReadConfig { target }, EventView::Config { config }) => StepView::WriteConfig {
            target,
            config: AppProxyConfig { auto_failover_enabled: body.enabled, ..config },
        },
        (StepView::WriteConfig { target: Some(provider_id), .. }, EventView::Done) =>
        StepView::SwitchTarget { provider_id },
        (StepView::WriteConfig { target: None, .. }, EventView::Done) => applied(None),
        (StepView::SwitchTarget { provider_id }, EventView::Done) => applied(Some(provider_id)),
        _ => step,
    }
}

/// Looks at a request to switch the automatic failover of an app on or off.
pub fn proxy_failover(running: bool, body: &FailoverToggleRequest) -> (step: FailoverStep)
    ensures
        step@ == first_step(running, body@),
{
    if !running {
        return FailoverStep::Refused { reply: stopped() };
    }
    if body.enabled {
        FailoverStep::ReadQueue
    } else {
        FailoverStep::ReadConfig { target: None }
    }
}

/// The head of a queue that is read before the proxy settings.
fn head_or(ids: Vec<String>, otherwise: FailoverStep) -> (step: FailoverStep)
    ensures
        step@ == if ids.deep_view().len() == 0 {
            otherwise@
        } else {
            StepView::ReadConfig { target: Some(ids.deep_view()[0]) }
        },
{
    if ids.len() == 0 {
        return otherwise;
    }
    FailoverStep::ReadConfig { target: Some(ids[0].clone()) }
}

/// The step after the given one, on what came of it.
pub fn advance(body: &FailoverToggleRequest, step: FailoverStep, event: FailoverEvent) -> (next:
    FailoverStep)
    requires
        answers(event@, step@),
    ensures
        next@ == next_step(body@, step@, event@),
{
    match (step, event) {
        (_, FailoverEvent::Failed { error }) => FailoverStep::Refused { reply: failure(error) },
        (FailoverStep::ReadQueue, FailoverEvent::Queue { ids }) => head_or(
            ids,
            FailoverStep::ReadCurrent,
        ),
        (FailoverStep::ReadCurrent, FailoverEvent::UnknownApp) => {
            FailoverStep::Refused {
                reply: failure(join2("无效的应用类型: ", body.app_type.as_str())),
            }
        },
        (FailoverStep::ReadCurrent, FailoverEvent::Current { provider_id }) => match provider_id {
            Some(provider_id) => FailoverStep::Enqueue { provider_id },
            None => FailoverStep::Refused {
                reply: failure(
                    "故障转移队列为空，且未设置当前供应商，无法开启故障转移".to_string(),
                ),
            },
        },
        (FailoverStep::Enqueue { .. }, FailoverEvent::Done) => FailoverStep::ReadFilledQueue,
        (FailoverStep::ReadFilledQueue, FailoverEvent::Queue { ids }) => head_or(
            ids,
            FailoverStep::Refused {
                reply: failure("故障转移队列为空，无法开启故障转移".to_string()),
            },
        ),
        (FailoverStep::ReadConfig { target }, FailoverEvent::Config { config }) => {
            FailoverStep::WriteConfig {
                target,
                config: AppProxyConfig { auto_failover_enabled: body.enabled, ..config },
            }
        },
        (FailoverStep::WriteConfig { target, .. }, FailoverEvent::Done) => match target {
            Some(provider_id) => FailoverStep::SwitchTarget { provider_id },
            None => FailoverStep::Applied { reply: ok(Body::Success), switched_to: None },
        },
        (FailoverStep::SwitchTarget { provider_id }, FailoverEvent::Done) => {
            FailoverStep::Applied { reply: ok(Body::Success), switched_to: Some(provider_id) }
        },
        (step, _) => step,
    }
}

/// Where a request stands after the given events, on a running server.
pub open spec fn run(body: ToggleView, events: Seq<EventView>) -> StepView
    decreases events.len(),
{
    if events.len() == 0 {
        first_step(true, body)
    } else {
        next_step(body, run(body, events.drop_last()), events.last())
    }
}

/// Each of the events is one that the step before it can have.
pub open spec fn can_happen(body: ToggleView, events: Seq<EventView>) -> bool {
    forall|k: int|
        0 <= k < events.len() ==> answers(#[trigger] events[k], run(body, events.take(k)))
}

/// The event brings a queue whose head is the given provider.
pub open spec fn has_head(event: EventView, provider_id: Seq<char>) -> bool {
    event matches EventView::Queue { ids } && ids.len() > 0 && ids[0] == provider_id
}

/// A queue was read whose head is the given provider.
pub open spec fn queue_head_was(events: Seq<EventView>, provider_id: Seq<char>) -> bool {
    exists|k: int| 0 <= k < events.len() && has_head(#[trigger] events[k], provider_id)
}

/// The step stores proxy settings with failover switched on or off as given.
pub open spec fn stores(step: StepView, enabled: bool) -> bool {
    step matches StepView::WriteConfig { config, .. } && config.auto_failover_enabled == enabled
}

/// The proxy settings were stored, with failover switched as the request says.
pub open spec fn config_was_stored(body: ToggleView, events: Seq<EventView>) -> bool {
    exists|k: int|
        0 <= k < events.len() && #[trigger] events[k] is Done && stores(
            run(body, events.take(k)),
            body.enabled,
        )
}

/// How many events can still come.
pub open spec fn events_left(step: StepView) -> nat {
    match step {
        StepView::ReadQueue => 7,
        StepView::ReadCurrent => 6,
        StepView::Enqueue { .. } => 5,
        StepView::ReadFilledQueue => 4,
        StepView::ReadConfig { .. } => 3,
        StepView::WriteConfig { .. } => 2,
        StepView::SwitchTarget { .. } => 1,
        StepView::Refused { .. } => 0,
        StepView::Applied { .. } => 0,
    }
}

/// Every request comes to an end: each event leaves fewer to come, and none can
/// come just when the request was refused or applied.
pub proof fn every_request_ends(body: ToggleView, step: StepView, event: EventView)
    ensures
        answers(event, step) ==> events_left(next_step(body, step, event)) < events_left(step),
        events_left(step) == 0 <==> step is Refused || step is Applied,
{
}

/// Whatever step fails, the request is refused with what it failed of.
pub proof fn failure_is_answered(body: ToggleView, step: StepView, error: Seq<char>)
    ensures
        next_step(body, step, EventView::Failed { error }) == refused(error),
{
}

/// What holds of every step that a request can come to.
proof fn lemma_run(body: ToggleView, events: Seq<EventView>)
    requires
        can_happen(body, events),
    ensures
        run(body, events) matches StepView::ReadConfig { target } ==> {
            &&& target is Some <==> body.enabled
            &&& target matches Some(id) ==> queue_head_was(events, id)
        },
        run(body, events) matches StepView::WriteConfig { target, config } ==> {
            &&& config.auto_failover_enabled == body.enabled
            &&& target is Some <==> body.enabled
            &&& target matches Some(id) ==> queue_head_was(events, id)
        },
        run(body, events) matches StepView::SwitchTarget { provider_id } ==> {
            &&& body.enabled
            &&& queue_head_was(events, provider_id)
            &&& config_was_stored(body, events)
        },
        run(body, events) matches StepView::Applied { reply, switched_to } ==> {
            &&& reply == ok_reply(BodyView::Success)
            &&& switched_to is Some <==> body.enabled
            &&& switched_to matches Some(id) ==> queue_head_was(events, id)
            &&& config_was_stored(body, events)
        },
        !body.enabled ==> !(run(body, events) is ReadQueue) && !(run(body, events) is ReadCurrent)
            && !(run(body, events) is Enqueue) && !(run(body, events) is ReadFilledQueue),
    decreases events.len(),
{
    if events.len() > 0 {
        let before = events.drop_last();
        let last = events.len() - 1;
        assert forall|k: int| 0 <= k < before.len() implies answers(
            #[trigger] before[k],
            run(body, before.take(k)),
        ) by {
            assert(answers(events[k], run(body, events.take(k))));
            assert(before.take(k) =~= events.take(k));
        }
        lemma_run(body, before);
        assert(events.take(last) =~= before);
        assert(answers(events[last], run(body, before)));
        assert forall|id: Seq<char>| queue_head_was(before, id) implies queue_head_was(events, id) by {
            let k = choose|k: int| 0 <= k < before.len() && has_head(#[trigger] before[k], id);
            assert(events[k] == before[k]);
        }
        if config_was_stored(body, before) {
            let k = choose|k: int|
                0 <= k < before.len() && #[trigger] before[k] is Done && stores(
                    run(body, before.take(k)),
                    body.enabled,
                );
            assert(before.take(k) =~= events.take(k));
            assert(events[k] == before[k]);
            assert(config_was_stored(body, events));
        }
        if run(body, before) is WriteConfig && events[last] is Done {
            assert(config_was_stored(body, events));
        }
        if let EventView::Queue { ids } = events[last] {
            if ids.len() > 0 {
                assert(queue_head_was(events, ids[0]));
            }
        }
    }
}

/// A request to switch failover on is applied only after the settings say so,
/// and requests then go to the head of a queue that was read and is not empty.
pub proof fn switched_on_goes_to_queue_head(body: ToggleView, events: Seq<EventView>)
    requires
        body.enabled,
        can_happen(body, events),
        run(body, events) is Applied,
    ensures
        run(body, events)->switched_to matches Some(id) && queue_head_was(events, id),
        config_was_stored(body, events),
{
    lemma_run(body, events);
}

/// The settings are not touched by a request to switch failover on before a
/// queue was read that is not empty.
pub proof fn settings_wait_for_the_queue(body: ToggleView, events: Seq<EventView>)
    requires
        body.enabled,
        can_happen(body, events),
        run(body, events) is WriteConfig,
    ensures
        run(body, events)->WriteConfig_target matches Some(id) && queue_head_was(events, id),
        run(body, events)->config.auto_failover_enabled,
{
    lemma_run(body, events);
}

/// A request to switch failover off reads no queue and changes no provider; it
/// is applied once the settings say so.
pub proof fn switched_off_changes_no_provider(body: ToggleView, events: Seq<EventView>)
    requires
        !body.enabled,
        can_happen(body, events),
    ensures
        run(body, events) is ReadConfig || run(body, events) is WriteConfig || run(
            body,
            events,
        ) is Refused || run(body, events) is Applied,
        run(body, events) is Applied ==> run(body, events)->switched_to is None
            && config_was_stored(body, events),
{
    lemma_run(body, events);
}

} // verus!
