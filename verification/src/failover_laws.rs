//! What becomes of a request to switch automatic failover, from its first step to
//! its answer.

use crate::failover::{
    answers, first_step, next_step, run, EventView, FailoverEvent, FailoverStep,
    FailoverToggleRequest, StepView, ToggleView,
};
use crate::provider::AppProxyConfig;
use crate::remote_laws::same_option;
use crate::reply::{BodyView, ReplyView};
use vstd::prelude::*;

verus! {

/// The request is refused with the given error and the status of success.
pub open spec fn is_refused_with(step: StepView, error: Seq<char>) -> bool {
    step == (StepView::Refused {
        reply: ReplyView { status: 200, body: BodyView::Failure { error } },
    })
}

/// The request is applied, and requests now go to the given provider, if any.
pub open spec fn is_applied_with(step: StepView, provider_id: Option<Seq<char>>) -> bool {
    step == (StepView::Applied {
        reply: ReplyView { status: 200, body: BodyView::Success },
        switched_to: provider_id,
    })
}

/// The settings are to be stored as they were read, but for failover being switched
/// on or off.
pub open spec fn stores_switched(
    step: StepView,
    config: AppProxyConfig,
    enabled: bool,
    provider_id: Option<Seq<char>>,
) -> bool {
    &&& step matches StepView::WriteConfig { target, config: stored }
    &&& target == provider_id
    &&& stored.auto_failover_enabled == enabled
    &&& stored.circuit_failure_threshold == config.circuit_failure_threshold
    &&& stored.circuit_success_threshold == config.circuit_success_threshold
    &&& stored.circuit_timeout_seconds == config.circuit_timeout_seconds
    &&& stored.circuit_error_rate_threshold == config.circuit_error_rate_threshold
    &&& stored.circuit_min_requests == config.circuit_min_requests
}

proof fn lemma_run_push(body: ToggleView, events: Seq<EventView>, event: EventView)
    ensures
        run(body, events.push(event)) == next_step(body, run(body, events), event),
{
    assert(events.push(event).drop_last() =~= events);
}

/// A stopped server refuses; a running one reads the queue to switch failover on,
/// and the settings to switch it off.
pub proof fn requests_begin(body: ToggleView)
    ensures
        first_step(false, body) == (StepView::Refused {
            reply: ReplyView {
                status: 503,
                body: BodyView::Error { error: "Server is stopped"@ },
            },
        }),
        body.enabled ==> first_step(true, body) == StepView::ReadQueue,
        !body.enabled ==> first_step(true, body) == (StepView::ReadConfig { target: None }),
        run(body, Seq::empty()) == first_step(true, body),
{
}

/// Switching on with a queue that is not empty: the settings are stored with
/// failover on, requests are sent to the head of the queue, and only then the
/// request is applied.
pub proof fn switching_on_with_a_queue(
    body: ToggleView,
    ids: Seq<Seq<char>>,
    config: AppProxyConfig,
)
    requires
        body.enabled,
        ids.len() > 0,
    ensures
        ({
            let read = Seq::empty().push(EventView::Queue { ids });
            let known = read.push(EventView::Config { config });
            let stored = known.push(EventView::Done);
            &&& run(body, read) == (StepView::ReadConfig { target: Some(ids[0]) })
            &&& stores_switched(run(body, known), config, true, Some(ids[0]))
            &&& run(body, stored) == (StepView::SwitchTarget { provider_id: ids[0] })
            &&& is_applied_with(run(body, stored.push(EventView::Done)), Some(ids[0]))
        }),
{
    let start = Seq::<EventView>::empty();
    let read = start.push(EventView::Queue { ids });
    let known = read.push(EventView::Config { config });
    let stored = known.push(EventView::Done);
    lemma_run_push(body, start, EventView::Queue { ids });
    lemma_run_push(body, read, EventView::Config { config });
    lemma_run_push(body, known, EventView::Done);
    lemma_run_push(body, stored, EventView::Done);
}

/// Switching on with an empty queue: the current provider is put into the queue,
/// the queue is read again, and its head then is what requests go to.
pub proof fn switching_on_with_an_empty_queue(
    body: ToggleView,
    current: Seq<char>,
    ids: Seq<Seq<char>>,
    config: AppProxyConfig,
)
    requires
        body.enabled,
        ids.len() > 0,
    ensures
        ({
            let empty = Seq::empty().push(EventView::Queue { ids: Seq::empty() });
            let asked = empty.push(EventView::Current { provider_id: Some(current) });
            let added = asked.push(EventView::Done);
            let read = added.push(EventView::Queue { ids });
            let known = read.push(EventView::Config { config });
            let stored = known.push(EventView::Done);
            &&& run(body, empty) == StepView::ReadCurrent
            &&& run(body, asked) == (StepView::Enqueue { provider_id: current })
            &&& run(body, added) == StepView::ReadFilledQueue
            &&& run(body, read) == (StepView::ReadConfig { target: Some(ids[0]) })
            &&& stores_switched(run(body, known), config, true, Some(ids[0]))
            &&& run(body, stored) == (StepView::SwitchTarget { provider_id: ids[0] })
            &&& is_applied_with(run(body, stored.push(EventView::Done)), Some(ids[0]))
        }),
{
    let start = Seq::<EventView>::empty();
    let none = EventView::Queue { ids: Seq::empty() };
    let empty = start.push(none);
    let asked = empty.push(EventView::Current { provider_id: Some(current) });
    let added = asked.push(EventView::Done);
    let read = added.push(EventView::Queue { ids });
    let known = read.push(EventView::Config { config });
    let stored = known.push(EventView::Done);
    lemma_run_push(body, start, none);
    lemma_run_push(body, empty, EventView::Current { provider_id: Some(current) });
    lemma_run_push(body, asked, EventView::Done);
    lemma_run_push(body, added, EventView::Queue { ids });
    lemma_run_push(body, read, EventView::Config { config });
    lemma_run_push(body, known, EventView::Done);
    lemma_run_push(body, stored, EventView::Done);
}

/// An empty queue that cannot be filled refuses the request: there is no such app,
/// no current provider, or the queue is empty still.
pub proof fn queue_that_stays_empty_refuses(body: ToggleView, current: Seq<char>)
    requires
        body.enabled,
    ensures
        ({
            let empty = Seq::empty().push(EventView::Queue { ids: Seq::empty() });
            let added = empty.push(EventView::Current { provider_id: Some(current) }).push(
                EventView::Done,
            );
            &&& is_refused_with(
                run(body, empty.push(EventView::UnknownApp)),
                "无效的应用类型: "@ + body.app_type,
            )
            &&& is_refused_with(
                run(body, empty.push(EventView::Current { provider_id: None })),
                "故障转移队列为空，且未设置当前供应商，无法开启故障转移"@,
            )
            &&& is_refused_with(
                run(body, added.push(EventView::Queue { ids: Seq::empty() })),
                "故障转移队列为空，无法开启故障转移"@,
            )
        }),
{
    let start = Seq::<EventView>::empty();
    let none = EventView::Queue { ids: Seq::empty() };
    let empty = start.push(none);
    let asked = empty.push(EventView::Current { provider_id: Some(current) });
    let added = asked.push(EventView::Done);
    lemma_run_push(body, start, none);
    lemma_run_push(body, empty, EventView::UnknownApp);
    lemma_run_push(body, empty, EventView::Current { provider_id: None });
    lemma_run_push(body, empty, EventView::Current { provider_id: Some(current) });
    lemma_run_push(body, asked, EventView::Done);
    lemma_run_push(body, added, none);
}

/// Switching off: the settings are stored with failover off, and that is all.
pub proof fn switching_off(body: ToggleView, config: AppProxyConfig)
    requires
        !body.enabled,
    ensures
        ({
            let known = Seq::empty().push(EventView::Config { config });
            &&& stores_switched(run(body, known), config, false, None)
            &&& is_applied_with(run(body, known.push(EventView::Done)), None)
        }),
{
    let start = Seq::<EventView>::empty();
    let known = start.push(EventView::Config { config });
    lemma_run_push(body, start, EventView::Config { config });
    lemma_run_push(body, known, EventView::Done);
}

/// A failure ends the request at once, whatever came before it, and the answer is
/// what failed.
pub proof fn failure_ends_the_request(body: ToggleView, events: Seq<EventView>, error: Seq<char>)
    ensures
        is_refused_with(run(body, events.push(EventView::Failed { error })), error),
{
    lemma_run_push(body, events, EventView::Failed { error });
}

/// What can come of each step: it fails, or it brings what it asks for. Nothing
/// comes of a request that was refused or applied.
pub proof fn steps_bring_what_they_ask_for(event: EventView, step: StepView)
    ensures
        answers(event, step) <==> match step {
            StepView::ReadQueue => event is Failed || event is Queue,
            StepView::ReadFilledQueue => event is Failed || event is Queue,
            StepView::ReadCurrent => event is Failed || event is UnknownApp || event is Current,
            StepView::ReadConfig { .. } => event is Failed || event is Config,
            StepView::Enqueue { .. } => event is Failed || event is Done,
            StepView::WriteConfig { .. } => event is Failed || event is Done,
            StepView::SwitchTarget { .. } => event is Failed || event is Done,
            StepView::Refused { .. } => false,
            StepView::Applied { .. } => false,
        },
{
}

/// The contracts see all of a request, of a step and of an event.
pub proof fn steps_and_events_are_seen_whole(
    body: FailoverToggleRequest,
    step: FailoverStep,
    event: FailoverEvent,
)
    ensures
        body@.app_type == body.app_type@,
        body@.enabled == body.enabled,
        match step {
            FailoverStep::ReadQueue => step@ == StepView::ReadQueue,
            FailoverStep::ReadCurrent => step@ == StepView::ReadCurrent,
            FailoverStep::Enqueue { provider_id } => step@ == (StepView::Enqueue {
                provider_id: provider_id@,
            }),
            FailoverStep::ReadFilledQueue => step@ == StepView::ReadFilledQueue,
            FailoverStep::ReadConfig { target } => step@ matches StepView::ReadConfig {
                target: seen,
            } && same_option(target, seen),
            FailoverStep::WriteConfig { target, config } => step@ matches StepView::WriteConfig {
                target: seen,
                config: seen_config,
            } && same_option(target, seen) && seen_config == config,
            FailoverStep::SwitchTarget { provider_id } => step@ == (StepView::SwitchTarget {
                provider_id: provider_id@,
            }),
            FailoverStep::Refused { reply } => step@ == (StepView::Refused { reply: reply@ }),
            FailoverStep::Applied { reply, switched_to } => step@ matches StepView::Applied {
                reply: seen_reply,
                switched_to: seen,
            } && seen_reply == reply@ && same_option(switched_to, seen),
        },
        match event {
            FailoverEvent::Failed { error } => event@ == (EventView::Failed { error: error@ }),
            FailoverEvent::Queue { ids } => event@ matches EventView::Queue { ids: seen }
                && seen.len() == ids@.len() && forall|i: int|
                0 <= i < seen.len() ==> #[trigger] seen[i] == ids@[i]@,
            FailoverEvent::UnknownApp => event@ == EventView::UnknownApp,
            FailoverEvent::Current { provider_id } => event@ matches EventView::Current {
                provider_id: seen,
            } && same_option(provider_id, seen),
            FailoverEvent::Config { config } => event@ == (EventView::Config { config }),
            FailoverEvent::Done => event@ == EventView::Done,
        },
{
}

} // verus!
