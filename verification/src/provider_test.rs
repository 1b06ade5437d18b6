//! Testing the connection to one provider, one step at a time.
//!
//! A step says what is to be done next. The caller does it and hands back what
//! came of it as an event, until the test is finished. The settings of the test
//! and what the steps resolve are carried along as they are: the types `C`
//! (the settings), `A` (the login), `U` (the address) and `F` (the API format)
//! are the caller's.

use crate::provider::{find_provider, provider_with_id, Provider};
use crate::reply::{
    failure, failure_reply, ok, ok_reply, Body, BodyView, Reply, ReplyView, TestReport,
    TestReportView, SERVICE_UNAVAILABLE,
};
use crate::text::{join2, join3, trim, trimmed};
use vstd::prelude::*;

verus! {

/// A request to test the connection to a provider.
#[derive(Debug)]
pub struct TestProviderRequest {
    pub provider_id: String,
    /// The app that the provider belongs to.
    pub app_type: String,
}

/// The outcome of a check.
#[derive(Debug)]
pub struct CheckResult {
    /// The status of the provider, a JSON text, where there is one.
    pub status: Option<String>,
    pub success: bool,
    pub message: String,
    pub response_time_ms: Option<u64>,
    pub http_status: Option<u16>,
    pub model_used: String,
    pub tested_at: i64,
    pub retry_count: u32,
    pub error_category: Option<String>,
}

/// Whose check is put on record.
#[derive(Debug)]
pub struct CheckLog {
    pub provider_id: String,
    pub provider_name: String,
    pub app_type: String,
}

/// A `CheckLog` as the contracts see it.
pub struct CheckLogView {
    pub provider_id: Seq<char>,
    pub provider_name: Seq<char>,
    pub app_type: Seq<char>,
}

impl DeepView for CheckLog {
    type V = CheckLogView;

    open spec fn deep_view(&self) -> CheckLogView {
        CheckLogView {
            provider_id: self.provider_id@,
            provider_name: self.provider_name@,
            app_type: self.app_type@,
        }
    }
}

/// What is to be done next.
#[derive(Debug)]
pub enum TestStep<C, A, U, F> {
    /// Read the settings of the test.
    LoadConfig,
    /// Read the providers of the app.
    LoadProviders { config: C },
    /// Find out the login of the provider.
    ResolveAuth { config: C, provider: Provider },
    /// Find out the address of the provider.
    ResolveBaseUrl { config: C, provider: Provider, auth: A },
    /// Find out the API format of the provider.
    ResolveApiFormat { config: C, provider: Provider, auth: A, base_url: U },
    /// Check the provider.
    RunCheck { config: C, provider: Provider, auth: A, base_url: U, api_format: F },
    /// The request is answered, and the check put on record if there was one.
    Finished { reply: Reply, log: Option<CheckLog> },
}

/// A `TestStep` as the contracts see it.
pub enum TestStepView<C, A, U, F> {
    LoadConfig,
    LoadProviders { config: C },
    ResolveAuth { config: C, provider: Provider },
    ResolveBaseUrl { config: C, provider: Provider, auth: A },
    ResolveApiFormat { config: C, provider: Provider, auth: A, base_url: U },
    RunCheck { config: C, provider: Provider, auth: A, base_url: U, api_format: F },
    Finished { reply: ReplyView, log: Option<CheckLogView> },
}

impl<C, A, U, F> View for TestStep<C, A, U, F> {
    type V = TestStepView<C, A, U, F>;

    open spec fn view(&self) -> TestStepView<C, A, U, F> {
        match *self {
            TestStep::LoadConfig => TestStepView::LoadConfig,
            TestStep::LoadProviders { config } => TestStepView::LoadProviders { config },
            TestStep::ResolveAuth { config, provider } => TestStepView::ResolveAuth {
                config,
                provider,
            },
            TestStep::ResolveBaseUrl { config, provider, auth } => TestStepView::ResolveBaseUrl {
                config,
                provider,
                auth,
            },
            TestStep::ResolveApiFormat { config, provider, auth, base_url } =>
            TestStepView::ResolveApiFormat { config, provider, auth, base_url },
            TestStep::RunCheck { config, provider, auth, base_url, api_format } =>
            TestStepView::RunCheck { config, provider, auth, base_url, api_format },
            TestStep::Finished { reply, log } => TestStepView::Finished {
                reply: reply@,
                log: log.deep_view(),
            },
        }
    }
}

/// What came of a step.
#[derive(Debug)]
pub enum TestEvent<C, A, U, F> {
    /// The step failed.
    Failed { error: String },
    /// The settings of the test.
    Config { config: C },
    /// The providers of the app.
    Providers { providers: Vec<Provider> },
    /// The login of the provider.
    Auth { auth: A },
    /// The address of the provider.
    BaseUrl { base_url: U },
    /// The API format of the provider.
    ApiFormat { api_format: F },
    /// The outcome of the check.
    Checked { result: CheckResult },
}

/// The event is one that the step can have. Nothing comes after the end.
pub open spec fn answers<C, A, U, F>(
    event: TestEvent<C, A, U, F>,
    step: TestStepView<C, A, U, F>,
) -> bool {
    match step {
        TestStepView::LoadConfig => event is Failed || event is Config,
        TestStepView::LoadProviders { .. } => event is Failed || event is Providers,
        TestStepView::ResolveAuth { .. } => event is Failed || event is Auth,
        TestStepView::ResolveBaseUrl { .. } => event is Failed || event is BaseUrl,
        TestStepView::ResolveApiFormat { .. } => event is Failed || event is ApiFormat,
        TestStepView::RunCheck { .. } => event is Failed || event is Checked,
        TestStepView::Finished { .. } => false,
    }
}

/// The test ends without a check.
pub open spec fn refused<C, A, U, F>(error: Seq<char>) -> TestStepView<C, A, U, F> {
    TestStepView::Finished { reply: failure_reply(error), log: None }
}

/// The status of a check without the quotes of its JSON text.
pub open spec fn status_label(status: Option<String>) -> Seq<char> {
    match status {
        Some(json) => trimmed(json@, '"'),
        None => "unknown"@,
    }
}

/// What a check is reported as.
pub open spec fn report_of(result: CheckResult) -> TestReportView {
    TestReportView {
        success: result.success,
        status: status_label(result.status),
        operational: result.success,
        message: result.message@,
        response_time_ms: result.response_time_ms,
        http_status: result.http_status,
        model_used: result.model_used@,
        tested_at: result.tested_at,
        retry_count: result.retry_count,
        error_category: result.error_category.deep_view(),
    }
}

/// The first step. `app` is the app that the request names, if there is such an
/// app.
pub open spec fn first_step<C, A, U, F>(
    running: bool,
    body: TestProviderRequest,
    app: Option<Seq<char>>,
) -> TestStepView<C, A, U, F> {
    if !running {
        TestStepView::Finished {
            reply: ReplyView {
                status: SERVICE_UNAVAILABLE,
                body: BodyView::Failure { error: "Server is stopped"@ },
            },
            log: None,
        }
    } else if body.provider_id@.len() == 0 {
        refused("Missing provider_id"@)
    } else if app is None {
        refused("无效的应用类型: "@ + body.app_type@)
    } else {
        TestStepView::LoadConfig
    }
}

/// The step after the given one, on what came of it. `app` is the app that the
/// provider belongs to.
pub open spec fn next_step<C, A, U, F>(
    body: TestProviderRequest,
    app: Seq<char>,
    step: TestStepView<C, A, U, F>,
    event: TestEvent<C, A, U, F>,
) -> TestStepView<C, A, U, F> {
    match (step, event) {
        (_, TestEvent::Failed { error }) => refused(error@),
        (TestStepView::LoadConfig, TestEvent::Config { config }) => TestStepView::LoadProviders {
            config,
        },
        (TestStepView::LoadProviders { config }, TestEvent::Providers { providers }) =>
        match provider_with_id(providers@, body.provider_id@) {
            Some(provider) => TestStepView::ResolveAuth { config, provider },
            None => refused("供应商 "@ + body.provider_id@ + " 不存在"@),
        },
        (TestStepView::ResolveAuth { config, provider }, TestEvent::Auth { auth }) =>
        TestStepView::ResolveBaseUrl { config, provider, auth },
        (
            TestStepView::ResolveBaseUrl { config, provider, auth },
            TestEvent::BaseUrl { base_url },
        ) => TestStepView::ResolveApiFormat { config, provider, auth, base_url },
        (
            TestStepView::ResolveApiFormat { config, provider, auth, base_url },
            TestEvent::ApiFormat { api_format },
        ) => TestStepView::RunCheck { config, provider, auth, base_url, api_format },
        (TestStepView::RunCheck { provider, .. }, TestEvent::Checked { result }) =>
        TestStepView::Finished {
            reply: ok_reply(BodyView::Tested { report: report_of(result) }),
            log: Some(
                CheckLogView {
                    provider_id: body.provider_id@,
                    provider_name: provider.name@,
                    app_type: app,
                },
            ),
        },
        _ => step,
    }
}

/// Looks at a request to test a provider. `app` is the app that the request
/// names, if there is such an app.
pub fn test_provider<C, A, U, F>(
    running: bool,
    body: &TestProviderRequest,
    app: &Option<String>,
) -> (step: TestStep<C, A, U, F>)
    ensures
        step@ == first_step::<C, A, U, F>(running, *body, app.deep_view()),
{
    if !running {
        return TestStep::Finished {
            reply: Reply {
                status: SERVICE_UNAVAILABLE,
                body: Body::Failure { error: "Server is stopped".to_string() },
            },
            log: None,
        };
    }
    if body.provider_id.as_str().is_empty() {
        return TestStep::Finished {
            reply: failure("Missing provider_id".to_string()),
            log: None,
        };
    }
    if app.is_none() {
        return TestStep::Finished {
            reply: failure(join2("无效的应用类型: ", body.app_type.as_str())),
            log: None,
        };
    }
    TestStep::LoadConfig
}

/// What a check is reported as.
fn report(result: CheckResult) -> (report: TestReport)
    ensures
        report.deep_view() == report_of(result),
{
    let status = match result.status {
        Some(json) => trim(json.as_str(), '"'),
        None => "unknown".to_string(),
    };
    TestReport {
        success: result.success,
        status,
        operational: result.success,
        message: result.message,
        response_time_ms: result.response_time_ms,
        http_status: result.http_status,
        model_used: result.model_used,
        tested_at: result.tested_at,
        retry_count: result.retry_count,
        error_category: result.error_category,
    }
}

/// The step after the given one, on what came of it. `app` is the app that the
/// provider belongs to.
pub fn advance<C, A, U, F>(
    body: &TestProviderRequest,
    app: &str,
    step: TestStep<C, A, U, F>,
    event: TestEvent<C, A, U, F>,
) -> (next: TestStep<C, A, U, F>)
    requires
        answers(event, step@),
    ensures
        next@ == next_step(*body, app@, step@, event),
{
    match (step, event) {
        (_, TestEvent::Failed { error }) => TestStep::Finished { reply: failure(error), log: None },
        (TestStep::LoadConfig, TestEvent::Config { config }) => TestStep::LoadProviders { config },
        (TestStep::LoadProviders { config }, TestEvent::Providers { providers }) => {
            match find_provider(&providers, body.provider_id.as_str()) {
                Some(provider) => TestStep::ResolveAuth { config, provider: provider.clone() },
                None => TestStep::Finished {
                    reply: failure(join3("供应商 ", body.provider_id.as_str(), " 不存在")),
                    log: None,
                },
            }
        },
        (TestStep::ResolveAuth { config, provider }, TestEvent::Auth { auth }) => {
            TestStep::ResolveBaseUrl { config, provider, auth }
        },
        (TestStep::ResolveBaseUrl { config, provider, auth }, TestEvent::BaseUrl { base_url }) => {
            TestStep::ResolveApiFormat { config, provider, auth, base_url }
        },
        (
            TestStep::ResolveApiFormat { config, provider, auth, base_url },
            TestEvent::ApiFormat { api_format },
        ) => TestStep::RunCheck { config, provider, auth, base_url, api_format },
        (TestStep::RunCheck { provider, .. }, TestEvent::Checked { result }) => TestStep::Finished {
            reply: ok(Body::Tested { report: report(result) }),
            log: Some(
                CheckLog {
                    provider_id: body.provider_id.clone(),
                    provider_name: provider.name,
                    app_type: app.to_string(),
                },
            ),
        },
        (step, _) => step,
    }
}

/// Where a test stands after the given events, once the request was looked at
/// and nothing found wrong with it.
pub open spec fn run<C, A, U, F>(
    body: TestProviderRequest,
    app: Seq<char>,
    events: Seq<TestEvent<C, A, U, F>>,
) -> TestStepView<C, A, U, F>
    decreases events.len(),
{
    if events.len() == 0 {
        TestStepView::LoadConfig
    } else {
        next_step(body, app, run(body, app, events.drop_last()), events.last())
    }
}

/// Each of the events is one that the step before it can have.
pub open spec fn can_happen<C, A, U, F>(
    body: TestProviderRequest,
    app: Seq<char>,
    events: Seq<TestEvent<C, A, U, F>>,
) -> bool {
    forall|k: int|
        0 <= k < events.len() ==> answers(#[trigger] events[k], run(body, app, events.take(k)))
}

/// How many events can still come.
pub open spec fn events_left<C, A, U, F>(step: TestStepView<C, A, U, F>) -> nat {
    match step {
        TestStepView::LoadConfig => 6,
        TestStepView::LoadProviders { .. } => 5,
        TestStepView::ResolveAuth { .. } => 4,
        TestStepView::ResolveBaseUrl { .. } => 3,
        TestStepView::ResolveApiFormat { .. } => 2,
        TestStepView::RunCheck { .. } => 1,
        TestStepView::Finished { .. } => 0,
    }
}

/// Every test comes to an end: each event leaves fewer to come, and none can come
/// just when the request was answered.
pub proof fn every_test_ends<C, A, U, F>(
    body: TestProviderRequest,
    app: Seq<char>,
    step: TestStepView<C, A, U, F>,
    event: TestEvent<C, A, U, F>,
)
    ensures
        answers(event, step) ==> events_left(next_step(body, app, step, event)) < events_left(step),
        events_left(step) == 0 <==> step is Finished,
{
}

/// Whatever step fails, the request is answered with what it failed of, and
/// nothing is put on record.
pub proof fn failure_is_answered<C, A, U, F>(
    body: TestProviderRequest,
    app: Seq<char>,
    step: TestStepView<C, A, U, F>,
    error: String,
)
    ensures
        next_step(body, app, step, TestEvent::Failed { error }) == refused::<C, A, U, F>(error@),
{
}

/// What the steps have brought so far is what the events say.
pub open spec fn gathered<C, A, U, F>(
    body: TestProviderRequest,
    step: TestStepView<C, A, U, F>,
    events: Seq<TestEvent<C, A, U, F>>,
) -> bool {
    let found = |config: C, provider: Provider|
        {
            &&& events.len() >= 2
            &&& events[0] == TestEvent::<C, A, U, F>::Config { config }
            &&& events[1] matches TestEvent::Providers { providers }
            &&& provider_with_id(providers@, body.provider_id@) == Some(provider)
        };
    match step {
        TestStepView::LoadConfig => events.len() == 0,
        TestStepView::LoadProviders { config } => events =~= seq![TestEvent::Config { config }],
        TestStepView::ResolveAuth { config, provider } => events.len() == 2 && found(
            config,
            provider,
        ),
        TestStepView::ResolveBaseUrl { config, provider, auth } => events.len() == 3 && found(
            config,
            provider,
        ) && events[2] == (TestEvent::<C, A, U, F>::Auth { auth }),
        TestStepView::ResolveApiFormat { config, provider, auth, base_url } => events.len() == 4
            && found(config, provider) && events[2] == (TestEvent::<C, A, U, F>::Auth { auth })
            && events[3] == (TestEvent::<C, A, U, F>::BaseUrl { base_url }),
        TestStepView::RunCheck { config, provider, auth, base_url, api_format } => events.len() == 5
            && found(config, provider) && events[2] == (TestEvent::<C, A, U, F>::Auth { auth })
            && events[3] == (TestEvent::<C, A, U, F>::BaseUrl { base_url }) && events[4] == (
        TestEvent::<C, A, U, F>::ApiFormat { api_format }),
        TestStepView::Finished { .. } => true,
    }
}

/// A check runs with just the settings, the login, the address and the API format
/// that the steps before it brought, on the provider that the request names.
pub proof fn check_runs_on_what_was_gathered<C, A, U, F>(
    body: TestProviderRequest,
    app: Seq<char>,
    events: Seq<TestEvent<C, A, U, F>>,
)
    requires
        can_happen(body, app, events),
    ensures
        gathered(body, run(body, app, events), events),
    decreases events.len(),
{
    if events.len() > 0 {
        lemma_can_happen_before(body, app, events);
        check_runs_on_what_was_gathered(body, app, events.drop_last());
    }
}

proof fn lemma_can_happen_before<C, A, U, F>(
    body: TestProviderRequest,
    app: Seq<char>,
    events: Seq<TestEvent<C, A, U, F>>,
)
    requires
        can_happen(body, app, events),
        events.len() > 0,
    ensures
        can_happen(body, app, events.drop_last()),
        answers(events.last(), run(body, app, events.drop_last())),
{
    let before = events.drop_last();
    assert forall|k: int| 0 <= k < before.len() implies answers(
        #[trigger] before[k],
        run(body, app, before.take(k)),
    ) by {
        assert(answers(events[k], run(body, app, events.take(k))));
        assert(before.take(k) =~= events.take(k));
    }
    let last = events.len() - 1;
    assert(answers(events[last], run(body, app, events.take(last))));
    assert(events.take(last) =~= before);
}

/// A check is put on record just when there was one: under the id that the
/// request names, with what the check brought as the answer.
pub proof fn record_follows_check<C, A, U, F>(
    body: TestProviderRequest,
    app: Seq<char>,
    events: Seq<TestEvent<C, A, U, F>>,
)
    requires
        can_happen(body, app, events),
        run(body, app, events) is Finished,
    ensures
        run(body, app, events)->log is Some <==> events.last() is Checked,
        run(body, app, events)->log matches Some(log) ==> log.provider_id == body.provider_id@
            && log.app_type == app,
        events.last() matches TestEvent::Checked { result } ==> run(body, app, events)->reply
            == ok_reply(BodyView::Tested { report: report_of(result) }),
{
    lemma_can_happen_before(body, app, events);
}

} // verus!
