//! What the management API answers, field by field.

use crate::provider::{provider_with_id, Provider};
use crate::remote::{
    current_in, is_marked_as, known_id, list_item, name_in, ProxyAction, SwitchNotice,
};
use crate::reply::{
    failure_reply, ok_reply, stopped_reply, Body, BodyView, CurrentProvider, CurrentProviderView,
    ProviderItem, Reply, TestReport, INTERNAL_SERVER_ERROR, OK, SERVICE_UNAVAILABLE,
};
use vstd::prelude::*;

verus! {

/// The same text, or none on either side.
pub open spec fn same_option(text: Option<String>, seen: Option<Seq<char>>) -> bool {
    match (text, seen) {
        (Some(text), Some(seen)) => text@ == seen,
        (None, None) => true,
        _ => false,
    }
}

/// The statuses of the answers are those of HTTP.
pub proof fn statuses_are_those_of_http()
    ensures
        OK == 200,
        INTERNAL_SERVER_ERROR == 500,
        SERVICE_UNAVAILABLE == 503,
{
}

/// A stopped server answers every request alike, with a status of its own.
pub proof fn stopped_server_answers_alike()
    ensures
        stopped_reply().status == 503,
        stopped_reply().body == (BodyView::Error { error: "Server is stopped"@ }),
{
}

/// An answer of a running server has the status of success and says what it is
/// given, a failure its error.
pub proof fn answers_say_what_they_are_given(body: BodyView, error: Seq<char>)
    ensures
        ok_reply(body).status == 200,
        ok_reply(body).body == body,
        failure_reply(error).status == 200,
        failure_reply(error).body == (BodyView::Failure { error }),
{
}

/// The list shows each field of a provider, and marks just the current one.
pub proof fn list_shows_the_provider(provider: Provider, current_id: Seq<char>)
    ensures
        ({
            let item = list_item(provider, current_id);
            &&& item.id == provider.id@
            &&& item.name == provider.name@
            &&& item.is_current <==> provider.id@ == current_id
            &&& same_option(provider.category, item.category)
            &&& same_option(provider.icon, item.icon)
            &&& same_option(provider.icon_color, item.icon_color)
        }),
{
}

/// A current provider that is not known is no provider of the list with an id.
pub proof fn unknown_current_marks_nothing(current: Result<String, String>, provider: Provider)
    ensures
        current matches Ok(id) ==> known_id(current) == id@,
        current is Err && provider.id@.len() > 0 ==> !list_item(
            provider,
            known_id(current),
        ).is_current,
        current is Err ==> known_id(current).len() == 0,
{
}

/// The current provider is the one of the list with the current id: its id and its
/// name. There is none where the id or the list could not be read, where the id is
/// empty, and where the list has no such provider.
pub proof fn current_is_the_one_with_the_id(
    current: Result<String, String>,
    list: Result<Vec<Provider>, String>,
)
    ensures
        current_in(current, list) is Some <==> current is Ok && list is Ok
            && current->Ok_0@.len() > 0 && provider_with_id(
            list->Ok_0@,
            current->Ok_0@,
        ) is Some,
        current_in(current, list) matches Some(shown) ==> shown.id == current->Ok_0@ && shown.name
            == provider_with_id(list->Ok_0@, current->Ok_0@)->0.name@,
{
}

/// The name that a switch is told under is that of the provider in the list, and
/// empty where there is none.
pub proof fn switched_name_is_in_the_list(list: Result<Vec<Provider>, String>, id: Seq<char>)
    ensures
        list is Ok && provider_with_id(list->Ok_0@, id) is Some ==> name_in(list, id)
            == provider_with_id(list->Ok_0@, id)->0.name@,
        !(list is Ok && provider_with_id(list->Ok_0@, id) is Some) ==> name_in(list, id).len() == 0,
{
}

/// The names of what the proxy is to do.
pub proof fn proxy_actions_have_their_names()
    ensures
        ProxyAction::Start.name() == "start"@,
        ProxyAction::Stop.name() == "stop"@,
{
}

/// A mark in the list is of the provider with the id and the name that are shown as
/// current.
pub proof fn mark_is_of_the_current(
    provider: Provider,
    id: String,
    current: CurrentProviderView,
)
    ensures
        is_marked_as(provider, id, current) <==> provider.id@ == id@ && current.id == id@
            && current.name == provider.name@,
{
}

/// The contracts see every field of an item of the list, of the current provider
/// and of a notice.
pub proof fn items_are_seen_whole(
    item: ProviderItem,
    current: CurrentProvider,
    notice: SwitchNotice,
)
    ensures
        item.deep_view().id == item.id@,
        item.deep_view().name == item.name@,
        item.deep_view().is_current == item.is_current,
        same_option(item.category, item.deep_view().category),
        same_option(item.icon, item.deep_view().icon),
        same_option(item.icon_color, item.deep_view().icon_color),
        current.deep_view().id == current.id@,
        current.deep_view().name == current.name@,
        notice.deep_view().app_type == notice.app_type@,
        notice.deep_view().provider_id == notice.provider_id@,
        notice.deep_view().name == notice.name@,
{
}

/// The contracts see every field of a report.
pub proof fn report_is_seen_whole(report: TestReport)
    ensures
        report.deep_view().success == report.success,
        report.deep_view().status == report.status@,
        report.deep_view().operational == report.operational,
        report.deep_view().message == report.message@,
        report.deep_view().response_time_ms == report.response_time_ms,
        report.deep_view().http_status == report.http_status,
        report.deep_view().model_used == report.model_used@,
        report.deep_view().tested_at == report.tested_at,
        report.deep_view().retry_count == report.retry_count,
        same_option(report.error_category, report.deep_view().error_category),
{
}

/// The contracts see the status of an answer and all that it says.
pub proof fn answer_is_seen_whole(reply: Reply)
    ensures
        reply@.status == reply.status,
        match reply.body {
            Body::Text(text) => reply@.body == BodyView::Text(text@),
            Body::Page => reply@.body == BodyView::Page,
            Body::Health { status, version } => reply@.body matches BodyView::Health {
                status: seen,
                version: seen_version,
            } && seen == status@ && same_option(version, seen_version),
            Body::Error { error } => reply@.body == (BodyView::Error { error: error@ }),
            Body::Failure { error } => reply@.body == (BodyView::Failure { error: error@ }),
            Body::Success => reply@.body == BodyView::Success,
            Body::Providers { providers } => reply@.body matches BodyView::Providers {
                providers: seen,
            } && seen.len() == providers@.len() && forall|i: int|
                0 <= i < seen.len() ==> #[trigger] seen[i] == providers@[i].deep_view(),
            Body::Current { current } => reply@.body matches BodyView::Current { current: seen } && (
            match (current, seen) {
                (Some(current), Some(seen)) => seen == current.deep_view(),
                (None, None) => true,
                _ => false,
            }),
            Body::Switched { name, warnings } => reply@.body matches BodyView::Switched {
                name: seen,
                warnings: seen_warnings,
            } && seen == name@ && seen_warnings.len() == warnings@.len() && forall|i: int|
                0 <= i < seen_warnings.len() ==> #[trigger] seen_warnings[i] == warnings@[i]@,
            Body::ProxyStarted { address, port } => reply@.body == (BodyView::ProxyStarted {
                address: address@,
                port,
            }),
            Body::ProxyStopped => reply@.body == BodyView::ProxyStopped,
            Body::ProxyFailed { action, error } => reply@.body == (BodyView::ProxyFailed {
                action: action@,
                error: error@,
            }),
            Body::Tested { report } => reply@.body == (BodyView::Tested {
                report: report.deep_view(),
            }),
        },
{
}

} // verus!
