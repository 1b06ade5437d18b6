//! The answers of the management API, as values. How they are written on the
//! wire is not decided here.

use vstd::prelude::*;

verus! {

/// The HTTP status of an answer that succeeded, or that says itself why not.
pub const OK: u16 = 200;

/// The HTTP status of an answer to a query that failed.
pub const INTERNAL_SERVER_ERROR: u16 = 500;

/// The HTTP status of an answer of a server that has been stopped.
pub const SERVICE_UNAVAILABLE: u16 = 503;

/// A provider in the list of providers.
#[derive(Debug)]
pub struct ProviderItem {
    pub id: String,
    pub name: String,
    pub is_current: bool,
    pub category: Option<String>,
    pub icon: Option<String>,
    pub icon_color: Option<String>,
}

/// A `ProviderItem` as the contracts see it.
pub struct ProviderItemView {
    pub id: Seq<char>,
    pub name: Seq<char>,
    pub is_current: bool,
    pub category: Option<Seq<char>>,
    pub icon: Option<Seq<char>>,
    pub icon_color: Option<Seq<char>>,
}

impl DeepView for ProviderItem {
    type V = ProviderItemView;

    open spec fn deep_view(&self) -> ProviderItemView {
        ProviderItemView {
            id: self.id@,
            name: self.name@,
            is_current: self.is_current,
            category: self.category.deep_view(),
            icon: self.icon.deep_view(),
            icon_color: self.icon_color.deep_view(),
        }
    }
}

/// The current provider.
#[derive(Debug)]
pub struct CurrentProvider {
    pub id: String,
    pub name: String,
}

/// A `CurrentProvider` as the contracts see it.
pub struct CurrentProviderView {
    pub id: Seq<char>,
    pub name: Seq<char>,
}

impl DeepView for CurrentProvider {
    type V = CurrentProviderView;

    open spec fn deep_view(&self) -> CurrentProviderView {
        CurrentProviderView { id: self.id@, name: self.name@ }
    }
}

/// The outcome of a connection test.
#[derive(Debug)]
pub struct TestReport {
    /// The provider passed the check.
    pub success: bool,
    pub status: String,
    /// The same as `success`.
    pub operational: bool,
    pub message: String,
    pub response_time_ms: Option<u64>,
    pub http_status: Option<u16>,
    pub model_used: String,
    pub tested_at: i64,
    pub retry_count: u32,
    pub error_category: Option<String>,
}

/// A `TestReport` as the contracts see it.
pub struct TestReportView {
    pub success: bool,
    pub status: Seq<char>,
    pub operational: bool,
    pub message: Seq<char>,
    pub response_time_ms: Option<u64>,
    pub http_status: Option<u16>,
    pub model_used: Seq<char>,
    pub tested_at: i64,
    pub retry_count: u32,
    pub error_category: Option<Seq<char>>,
}

impl DeepView for TestReport {
    type V = TestReportView;

    open spec fn deep_view(&self) -> TestReportView {
        TestReportView {
            success: self.success,
            status: self.status@,
            operational: self.operational,
            message: self.message@,
            response_time_ms: self.response_time_ms,
            http_status: self.http_status,
            model_used: self.model_used@,
            tested_at: self.tested_at,
            retry_count: self.retry_count,
            error_category: self.error_category.deep_view(),
        }
    }
}

/// What an answer says.
#[derive(Debug)]
pub enum Body {
    /// Plain text.
    Text(String),
    /// The management page.
    Page,
    /// The health of the server.
    Health { status: String, version: Option<String> },
    /// An error.
    Error { error: String },
    /// A request that was not carried out, and why.
    Failure { error: String },
    /// A request that was carried out.
    Success,
    /// The list of providers.
    Providers { providers: Vec<ProviderItem> },
    /// The current provider, if there is one.
    Current { current: Option<CurrentProvider> },
    /// The current provider was changed.
    Switched { name: String, warnings: Vec<String> },
    /// The proxy was started.
    ProxyStarted { address: String, port: u16 },
    /// The proxy was stopped.
    ProxyStopped,
    /// The proxy could not be started or stopped, as `action` says.
    ProxyFailed { action: String, error: String },
    /// The outcome of a connection test.
    Tested { report: TestReport },
}

/// A `Body` as the contracts see it.
pub enum BodyView {
    Text(Seq<char>),
    Page,
    Health { status: Seq<char>, version: Option<Seq<char>> },
    Error { error: Seq<char> },
    Failure { error: Seq<char> },
    Success,
    Providers { providers: Seq<ProviderItemView> },
    Current { current: Option<CurrentProviderView> },
    Switched { name: Seq<char>, warnings: Seq<Seq<char>> },
    ProxyStarted { address: Seq<char>, port: u16 },
    ProxyStopped,
    ProxyFailed { action: Seq<char>, error: Seq<char> },
    Tested { report: TestReportView },
}

impl View for Body {
    type V = BodyView;

    open spec fn view(&self) -> BodyView {
        match self {
            Body::Text(text) => BodyView::Text(text@),
            Body::Page => BodyView::Page,
            Body::Health { status, version } => BodyView::Health {
                status: status@,
                version: version.deep_view(),
            },
            Body::Error { error } => BodyView::Error { error: error@ },
            Body::Failure { error } => BodyView::Failure { error: error@ },
            Body::Success => BodyView::Success,
            Body::Providers { providers } => BodyView::Providers {
                providers: providers.deep_view(),
            },
            Body::Current { current } => BodyView::Current { current: current.deep_view() },
            Body::Switched { name, warnings } => BodyView::Switched {
                name: name@,
                warnings: warnings.deep_view(),
            },
            Body::ProxyStarted { address, port } => BodyView::ProxyStarted {
                address: address@,
                port: *port,
            },
            Body::ProxyStopped => BodyView::ProxyStopped,
            Body::ProxyFailed { action, error } => BodyView::ProxyFailed {
                action: action@,
                error: error@,
            },
            Body::Tested { report } => BodyView::Tested { report: report.deep_view() },
        }
    }
}

/// An answer.
#[derive(Debug)]
pub struct Reply {
    pub status: u16,
    pub body: Body,
}

/// A `Reply` as the contracts see it.
pub struct ReplyView {
    pub status: u16,
    pub body: BodyView,
}

impl View for Reply {
    type V = ReplyView;

    open spec fn view(&self) -> ReplyView {
        ReplyView { status: self.status, body: self.body@ }
    }
}

/// What to do with a request: answer it, or do something first.
pub enum Step<A> {
    /// The request is answered.
    Answer(Reply),
    /// The action comes first.
    Perform(A),
}

/// The answer of a server that has been stopped.
pub open spec fn stopped_reply() -> ReplyView {
    ReplyView {
        status: SERVICE_UNAVAILABLE,
        body: BodyView::Error { error: "Server is stopped"@ },
    }
}

/// An answer with the status of success.
pub open spec fn ok_reply(body: BodyView) -> ReplyView {
    ReplyView { status: OK, body }
}

/// The answer to a request that was not carried out.
pub open spec fn failure_reply(error: Seq<char>) -> ReplyView {
    ok_reply(BodyView::Failure { error })
}

/// The answer of a server that has been stopped.
pub(crate) fn stopped() -> (reply: Reply)
    ensures
        reply@ == stopped_reply(),
{
    Reply {
        status: SERVICE_UNAVAILABLE,
        body: Body::Error { error: "Server is stopped".to_string() },
    }
}

/// An answer with the status of success.
pub(crate) fn ok(body: Body) -> (reply: Reply)
    ensures
        reply@ == ok_reply(body@),
{
    Reply { status: OK, body }
}

/// The answer to a request that was not carried out.
pub(crate) fn failure(error: String) -> (reply: Reply)
    ensures
        reply@ == failure_reply(error@),
{
    ok(Body::Failure { error })
}

} // verus!
