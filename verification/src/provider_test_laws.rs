//! What a test of a provider is answered with, and on what it is made.

use crate::provider::{provider_with_id, Provider};
use crate::provider_test::{
    answers, can_happen, first_step, next_step, run, status_label, CheckLog, CheckResult,
    TestEvent, TestProviderRequest, TestStep, TestStepView,
};
use crate::remote_laws::same_option;
use crate::reply::{BodyView, ReplyView, TestReportView};
use crate::text_laws::{is_run_of, trimming_takes_off_both_runs};
use vstd::prelude::*;

verus! {

/// The test ends without a check, with the given status and error.
pub open spec fn ends_with_failure<C, A, U, F>(
    step: TestStepView<C, A, U, F>,
    status: u16,
    error: Seq<char>,
) -> bool {
    step == (TestStepView::<C, A, U, F>::Finished {
        reply: ReplyView { status, body: BodyView::Failure { error } },
        log: None,
    })
}

/// The report carries what the check found.
pub open spec fn carries(report: TestReportView, result: CheckResult) -> bool {
    &&& report.success == result.success
    &&& report.operational == result.success
    &&& report.message == result.message@
    &&& report.response_time_ms == result.response_time_ms
    &&& report.http_status == result.http_status
    &&& report.model_used == result.model_used@
    &&& report.tested_at == result.tested_at
    &&& report.retry_count == result.retry_count
    &&& same_option(result.error_category, report.error_category)
}

/// The label of a status is its JSON text without the quotes at both ends; a status
/// without a text is unknown.
pub proof fn status_loses_its_quotes(status: Option<String>)
    ensures
        status is None ==> status_label(status) == "unknown"@,
        status matches Some(json) ==> {
            &&& exists|a: Seq<char>, b: Seq<char>|
                is_run_of(a, '"') && is_run_of(b, '"') && json@ == #[trigger] (a + status_label(
                    status,
                ) + b)
            &&& status_label(status).len() > 0 ==> status_label(status)[0] != '"' && status_label(
                status,
            ).last() != '"'
        },
{
    if let Some(json) = status {
        trimming_takes_off_both_runs(json@, '"');
    }
}

/// A request is refused by a stopped server, without an id, and for an app that
/// there is not; otherwise it begins with the settings.
pub proof fn tests_begin<C, A, U, F>(
    running: bool,
    body: TestProviderRequest,
    app: Option<Seq<char>>,
)
    ensures
        ({
            let step = first_step::<C, A, U, F>(running, body, app);
            &&& !running ==> ends_with_failure(step, 503, "Server is stopped"@)
            &&& running && body.provider_id@.len() == 0 ==> ends_with_failure(
                step,
                200,
                "Missing provider_id"@,
            )
            &&& running && body.provider_id@.len() > 0 && app is None ==> ends_with_failure(
                step,
                200,
                "无效的应用类型: "@ + body.app_type@,
            )
            &&& running && body.provider_id@.len() > 0 && app is Some ==> step
                == TestStepView::<C, A, U, F>::LoadConfig
        }),
{
}

proof fn lemma_run_push<C, A, U, F>(
    body: TestProviderRequest,
    app: Seq<char>,
    events: Seq<TestEvent<C, A, U, F>>,
    event: TestEvent<C, A, U, F>,
)
    ensures
        run(body, app, events.push(event)) == next_step(body, app, run(body, app, events), event),
{
    assert(events.push(event).drop_last() =~= events);
}

/// A test that goes well: it is made with the settings, the login, the address and
/// the API format that were brought, on the provider of the list that the request
/// names, and answered with a report that carries what the check found. The check
/// is put on record under the id of the request, the name of the provider and the
/// app.
pub proof fn report_carries_what_the_check_found<C, A, U, F>(
    body: TestProviderRequest,
    app: Seq<char>,
    config: C,
    providers: Vec<Provider>,
    auth: A,
    base_url: U,
    api_format: F,
    result: CheckResult,
)
    requires
        provider_with_id(providers@, body.provider_id@) is Some,
    ensures
        ({
            let provider = provider_with_id(providers@, body.provider_id@)->0;
            let gathered = Seq::<TestEvent<C, A, U, F>>::empty().push(
                TestEvent::Config { config },
            ).push(TestEvent::Providers { providers }).push(TestEvent::Auth { auth }).push(
                TestEvent::BaseUrl { base_url },
            ).push(TestEvent::ApiFormat { api_format });
            &&& run(body, app, gathered) == (TestStepView::<C, A, U, F>::RunCheck {
                config,
                provider,
                auth,
                base_url,
                api_format,
            })
            &&& run(body, app, gathered.push(TestEvent::Checked { result }))
                matches TestStepView::Finished { reply, log }
            &&& reply.status == 200
            &&& reply.body matches BodyView::Tested { report }
            &&& carries(report, result)
            &&& report.status == status_label(result.status)
            &&& log matches Some(log)
            &&& log.provider_id == body.provider_id@
            &&& log.provider_name == provider.name@
            &&& log.app_type == app
        }),
{
    let e0 = Seq::<TestEvent<C, A, U, F>>::empty();
    let e1 = e0.push(TestEvent::Config { config });
    let e2 = e1.push(TestEvent::Providers { providers });
    let e3 = e2.push(TestEvent::Auth { auth });
    let e4 = e3.push(TestEvent::BaseUrl { base_url });
    let e5 = e4.push(TestEvent::ApiFormat { api_format });
    lemma_run_push(body, app, e0, TestEvent::Config { config });
    lemma_run_push(body, app, e1, TestEvent::Providers { providers });
    lemma_run_push(body, app, e2, TestEvent::Auth { auth });
    lemma_run_push(body, app, e3, TestEvent::BaseUrl { base_url });
    lemma_run_push(body, app, e4, TestEvent::ApiFormat { api_format });
    lemma_run_push(body, app, e5, TestEvent::Checked { result });
}

/// Whatever came before it, a check that ends a test is reported as it was found.
pub proof fn every_check_is_reported_as_found<C, A, U, F>(
    body: TestProviderRequest,
    app: Seq<char>,
    events: Seq<TestEvent<C, A, U, F>>,
    result: CheckResult,
)
    requires
        can_happen(body, app, events.push(TestEvent::Checked { result })),
    ensures
        ({
            let end = run(body, app, events.push(TestEvent::Checked { result }));
            &&& end matches TestStepView::Finished { reply, log }
            &&& reply.status == 200
            &&& reply.body matches BodyView::Tested { report }
            &&& carries(report, result)
            &&& log is Some
        }),
{
    let all = events.push(TestEvent::Checked { result });
    let last = events.len() as int;
    lemma_run_push(body, app, events, TestEvent::Checked { result });
    assert(answers(all[last], run(body, app, all.take(last))));
    assert(all.take(last) =~= events);
}

/// A provider that the list does not have is not tested.
pub proof fn unknown_provider_is_not_tested<C, A, U, F>(
    body: TestProviderRequest,
    app: Seq<char>,
    config: C,
    providers: Vec<Provider>,
)
    requires
        provider_with_id(providers@, body.provider_id@) is None,
    ensures
        ends_with_failure(
            run(
                body,
                app,
                Seq::<TestEvent<C, A, U, F>>::empty().push(TestEvent::Config { config }).push(
                    TestEvent::Providers { providers },
                ),
            ),
            200,
            "供应商 "@ + body.provider_id@ + " 不存在"@,
        ),
{
    let e0 = Seq::<TestEvent<C, A, U, F>>::empty();
    lemma_run_push(body, app, e0, TestEvent::Config { config });
    lemma_run_push(
        body,
        app,
        e0.push(TestEvent::Config { config }),
        TestEvent::Providers { providers },
    );
}

/// A failure ends the test at once, whatever came before it, and the answer is what
/// failed.
pub proof fn failure_ends_the_test<C, A, U, F>(
    body: TestProviderRequest,
    app: Seq<char>,
    events: Seq<TestEvent<C, A, U, F>>,
    error: String,
)
    ensures
        ends_with_failure(
            run(body, app, events.push(TestEvent::Failed { error })),
            200,
            error@,
        ),
{
    lemma_run_push(body, app, events, TestEvent::Failed { error });
}

/// What can come of each step: it fails, or it brings what it asks for. Nothing
/// comes of a test that is finished.
pub proof fn steps_bring_what_they_ask_for<C, A, U, F>(
    event: TestEvent<C, A, U, F>,
    step: TestStepView<C, A, U, F>,
)
    ensures
        answers(event, step) <==> !(step is Finished) && (event is Failed || match step {
            TestStepView::LoadConfig => event is Config,
            TestStepView::LoadProviders { .. } => event is Providers,
            TestStepView::ResolveAuth { .. } => event is Auth,
            TestStepView::ResolveBaseUrl { .. } => event is BaseUrl,
            TestStepView::ResolveApiFormat { .. } => event is ApiFormat,
            TestStepView::RunCheck { .. } => event is Checked,
            TestStepView::Finished { .. } => false,
        }),
{
}

/// The contracts see all of a step and of a record.
pub proof fn steps_and_records_are_seen_whole<C, A, U, F>(
    step: TestStep<C, A, U, F>,
    log: CheckLog,
)
    ensures
        log.deep_view().provider_id == log.provider_id@,
        log.deep_view().provider_name == log.provider_name@,
        log.deep_view().app_type == log.app_type@,
        match step {
            TestStep::LoadConfig => step@ == TestStepView::<C, A, U, F>::LoadConfig,
            TestStep::LoadProviders { config } => step@ == (TestStepView::<
                C,
                A,
                U,
                F,
            >::LoadProviders { config }),
            TestStep::ResolveAuth { config, provider } => step@ == (TestStepView::<
                C,
                A,
                U,
                F,
            >::ResolveAuth { config, provider }),
            TestStep::ResolveBaseUrl { config, provider, auth } => step@ == (TestStepView::<
                C,
                A,
                U,
                F,
            >::ResolveBaseUrl { config, provider, auth }),
            TestStep::ResolveApiFormat { config, provider, auth, base_url } => step@ == (
            TestStepView::<C, A, U, F>::ResolveApiFormat { config, provider, auth, base_url }),
            TestStep::RunCheck { config, provider, auth, base_url, api_format } => step@ == (
            TestStepView::<C, A, U, F>::RunCheck { config, provider, auth, base_url, api_format }),
            TestStep::Finished { reply, log } => step@ matches TestStepView::Finished {
                reply: seen_reply,
                log: seen,
            } && seen_reply == reply@ && (match (log, seen) {
                (Some(log), Some(seen)) => seen == log.deep_view(),
                (None, None) => true,
                _ => false,
            }),
        },
{
}

} // verus!
