//! The official usage of all providers whose usage is queried, as one list.
//!
//! The caller reads the providers of each app, asks those that `usage_query`
//! says, and stamps each answer. The numbers are the caller's: `N` is their
//! type, and `zero` stands where none is given.

use crate::clock::{is_stamp, local_now_rfc3339};
use crate::provider::Provider;
use crate::reply::{stopped, stopped_reply, Reply};
use crate::text::same_text;
use vstd::prelude::*;

verus! {

/// The usage of one tier of a provider.
#[derive(Debug, Clone)]
pub struct TierUsageDto<N> {
    pub name: String,
    pub used_percent: N,
    pub remaining: N,
    pub total: N,
    pub unit: String,
    pub resets_at: Option<String>,
}

/// A `TierUsageDto` as the contracts see it.
pub struct TierView<N> {
    pub name: Seq<char>,
    pub used_percent: N,
    pub remaining: N,
    pub total: N,
    pub unit: Seq<char>,
    pub resets_at: Option<Seq<char>>,
}

impl<N> DeepView for TierUsageDto<N> {
    type V = TierView<N>;

    open spec fn deep_view(&self) -> TierView<N> {
        TierView {
            name: self.name@,
            used_percent: self.used_percent,
            remaining: self.remaining,
            total: self.total,
            unit: self.unit@,
            resets_at: self.resets_at.deep_view(),
        }
    }
}

/// The usage of one provider.
#[derive(Debug, Clone)]
pub struct ProviderUsageDto<N> {
    pub provider: String,
    pub app_type: String,
    pub tiers: Vec<TierUsageDto<N>>,
    pub updated_at: Option<String>,
    /// The query succeeded.
    pub success: bool,
    /// Why the query failed.
    pub error: Option<String>,
}

/// A `ProviderUsageDto` as the contracts see it.
pub struct UsageView<N> {
    pub provider: Seq<char>,
    pub app_type: Seq<char>,
    pub tiers: Seq<TierView<N>>,
    pub updated_at: Option<Seq<char>>,
    pub success: bool,
    pub error: Option<Seq<char>>,
}

impl<N> DeepView for ProviderUsageDto<N> {
    type V = UsageView<N>;

    open spec fn deep_view(&self) -> UsageView<N> {
        UsageView {
            provider: self.provider@,
            app_type: self.app_type@,
            tiers: self.tiers.deep_view(),
            updated_at: self.updated_at.deep_view(),
            success: self.success,
            error: self.error.deep_view(),
        }
    }
}

/// What a usage query says of one plan.
#[derive(Debug)]
pub struct UsageData<N> {
    pub plan_name: Option<String>,
    pub used: Option<N>,
    pub remaining: Option<N>,
    pub total: Option<N>,
    pub unit: Option<String>,
    pub extra: Option<String>,
}

/// What a usage query says.
#[derive(Debug)]
pub struct UsageQueryResult<N> {
    pub success: bool,
    pub data: Option<Vec<UsageData<N>>>,
    pub error: Option<String>,
}

/// What came of asking a provider.
#[derive(Debug)]
pub struct UsageAnswer<N> {
    pub outcome: Result<UsageQueryResult<N>, String>,
    /// When the answer came.
    pub answered_at: String,
}

/// A provider of an app, and what came of asking it if it was asked.
#[derive(Debug)]
pub struct AskedProvider<N> {
    pub provider: Provider,
    /// There is a login for Copilot.
    pub signed_in: bool,
    pub answer: Option<UsageAnswer<N>>,
}

/// The providers of an app.
#[derive(Debug)]
pub struct AppUsage<N> {
    pub app_type: String,
    pub providers: Result<Vec<AskedProvider<N>>, String>,
}

/// Whether a provider is asked for its usage.
#[derive(Debug, Clone, Copy, PartialEq, Eq, Structural)]
pub enum UsageQuery {
    /// It is not.
    Never,
    /// It is, if there is a login for Copilot.
    IfSignedIn,
    /// It is.
    Always,
}

/// Whether a provider is asked for its usage.
pub open spec fn query_of(provider: Provider) -> UsageQuery {
    if !provider.usage_script_enabled {
        UsageQuery::Never
    } else if provider.usage_template.deep_view() == Some("github_copilot"@) {
        UsageQuery::IfSignedIn
    } else {
        UsageQuery::Always
    }
}

/// Whether a provider is asked for its usage.
pub fn usage_query(provider: &Provider) -> (query: UsageQuery)
    ensures
        query == query_of(*provider),
{
    if !provider.usage_script_enabled {
        return UsageQuery::Never;
    }
    match &provider.usage_template {
        Some(template) => if same_text(template.as_str(), "github_copilot") {
            UsageQuery::IfSignedIn
        } else {
            UsageQuery::Always
        },
        None => UsageQuery::Always,
    }
}

/// A provider with the given query is asked, where `signed_in` says whether there
/// is a login for Copilot.
pub open spec fn query_is_due(query: UsageQuery, signed_in: bool) -> bool {
    match query {
        UsageQuery::Never => false,
        UsageQuery::IfSignedIn => signed_in,
        UsageQuery::Always => true,
    }
}

/// Whether a provider with the given query is asked.
pub fn is_due(query: UsageQuery, signed_in: bool) -> (due: bool)
    ensures
        due == query_is_due(query, signed_in),
{
    match query {
        UsageQuery::Never => false,
        UsageQuery::IfSignedIn => signed_in,
        UsageQuery::Always => true,
    }
}

/// Stamps what came of asking a provider with the local time.
pub fn answer_now<N>(outcome: Result<UsageQueryResult<N>, String>) -> (answer: UsageAnswer<N>)
    ensures
        answer.outcome == outcome,
        is_stamp(answer.answered_at@),
{
    UsageAnswer { outcome, answered_at: local_now_rfc3339() }
}

/// A number, or what stands for it.
pub open spec fn number_or<N>(number: Option<N>, zero: N) -> N {
    match number {
        Some(number) => number,
        None => zero,
    }
}

/// A text, or the empty one.
pub open spec fn text_or_empty(text: Option<String>) -> Seq<char> {
    match text {
        Some(text) => text@,
        None => Seq::empty(),
    }
}

/// The tier that a plan is shown as.
pub open spec fn tier_of<N>(data: UsageData<N>, zero: N) -> TierView<N> {
    TierView {
        name: text_or_empty(data.plan_name),
        used_percent: number_or(data.used, zero),
        remaining: number_or(data.remaining, zero),
        total: number_or(data.total, zero),
        unit: text_or_empty(data.unit),
        resets_at: data.extra.deep_view(),
    }
}

/// A query that failed.
pub open spec fn failed_entry<N>(
    provider: Provider,
    app_type: Seq<char>,
    error: Option<Seq<char>>,
) -> UsageView<N> {
    UsageView {
        provider: provider.name@,
        app_type,
        tiers: Seq::empty(),
        updated_at: None,
        success: false,
        error,
    }
}

/// The entry of a provider that was asked. There is none where the query
/// succeeded without data.
pub open spec fn entry_of<N>(
    provider: Provider,
    app_type: Seq<char>,
    answer: UsageAnswer<N>,
    zero: N,
) -> Option<UsageView<N>> {
    match answer.outcome {
        Err(error) => Some(failed_entry(provider, app_type, Some(error@))),
        Ok(result) => if !result.success {
            Some(failed_entry(provider, app_type, result.error.deep_view()))
        } else {
            match result.data {
                Some(data) => if data@.len() == 0 {
                    None
                } else {
                    Some(
                        UsageView {
                            provider: provider.name@,
                            app_type,
                            tiers: data@.map_values(|d: UsageData<N>| tier_of(d, zero)),
                            updated_at: Some(answer.answered_at@),
                            success: true,
                            error: None,
                        },
                    )
                },
                None => None,
            }
        },
    }
}

/// The provider is asked for its usage.
pub open spec fn is_asked<N>(item: AskedProvider<N>) -> bool {
    query_is_due(query_of(item.provider), item.signed_in)
}

/// The entry of a provider, if it has one.
pub open spec fn item_entry<N>(app_type: Seq<char>, item: AskedProvider<N>, zero: N) -> Option<
    UsageView<N>,
> {
    match item.answer {
        Some(answer) => if is_asked(item) {
            entry_of(item.provider, app_type, answer, zero)
        } else {
            None
        },
        None => None,
    }
}

/// The entries of the providers of an app, in their order.
pub open spec fn entries<N>(app_type: Seq<char>, items: Seq<AskedProvider<N>>, zero: N) -> Seq<
    UsageView<N>,
>
    decreases items.len(),
{
    if items.len() == 0 {
        Seq::empty()
    } else {
        let before = entries(app_type, items.drop_last(), zero);
        match item_entry(app_type, items.last(), zero) {
            Some(entry) => before.push(entry),
            None => before,
        }
    }
}

/// The entries of an app. There are none where its providers could not be read.
pub open spec fn app_entries<N>(app: AppUsage<N>, zero: N) -> Seq<UsageView<N>> {
    match app.providers {
        Ok(items) => entries(app.app_type@, items@, zero),
        Err(_) => Seq::empty(),
    }
}

/// The entries of all apps, in their order.
pub open spec fn all_entries<N>(apps: Seq<AppUsage<N>>, zero: N) -> Seq<UsageView<N>>
    decreases apps.len(),
{
    if apps.len() == 0 {
        Seq::empty()
    } else {
        all_entries(apps.drop_last(), zero) + app_entries(apps.last(), zero)
    }
}

fn given_or<N: Copy>(number: Option<N>, zero: N) -> (out: N)
    ensures
        out == number_or(number, zero),
{
    match number {
        Some(number) => number,
        None => zero,
    }
}

fn given_text(text: &Option<String>) -> (out: String)
    ensures
        out@ == text_or_empty(*text),
{
    match text {
        Some(text) => text.clone(),
        None => String::new(),
    }
}

/// The tiers that the plans of a provider are shown as.
fn tiers_of<N: Copy>(data: &Vec<UsageData<N>>, zero: N) -> (tiers: Vec<TierUsageDto<N>>)
    ensures
        tiers.deep_view() == data@.map_values(|d: UsageData<N>| tier_of(d, zero)),
{
    let mut tiers: Vec<TierUsageDto<N>> = Vec::new();
    let mut i: usize = 0;
    while i < data.len()
        invariant
            i <= data.len(),
            tiers@.len() == i,
            forall|j: int|
                0 <= j < i ==> (#[trigger] tiers@[j]).deep_view() == tier_of(data@[j], zero),
        decreases data.len() - i,
    {
        let plan = &data[i];
        tiers.push(
            TierUsageDto {
                name: given_text(&plan.plan_name),
                used_percent: given_or(plan.used, zero),
                remaining: given_or(plan.remaining, zero),
                total: given_or(plan.total, zero),
                unit: given_text(&plan.unit),
                resets_at: plan.extra.clone(),
            },
        );
        i += 1;
    }
    assert(tiers.deep_view() =~= data@.map_values(|d: UsageData<N>| tier_of(d, zero)));
    tiers
}

/// The entry of a provider that was asked. There is none where the query
/// succeeded without data.
pub fn usage_entry<N: Copy>(
    provider: &Provider,
    app_type: &str,
    answer: &UsageAnswer<N>,
    zero: N,
) -> (entry: Option<ProviderUsageDto<N>>)
    ensures
        entry.deep_view() == entry_of(*provider, app_type@, *answer, zero),
{
    let error = match &answer.outcome {
        Err(error) => Some(error.clone()),
        Ok(result) => if result.success {
            return match &result.data {
                Some(data) => if data.len() == 0 {
                    None
                } else {
                    Some(
                        ProviderUsageDto {
                            provider: provider.name.clone(),
                            app_type: app_type.to_string(),
                            tiers: tiers_of(data, zero),
                            updated_at: Some(answer.answered_at.clone()),
                            success: true,
                            error: None,
                        },
                    )
                },
                None => None,
            };
        } else {
            result.error.clone()
        },
    };
    let tiers: Vec<TierUsageDto<N>> = Vec::new();
    assert(tiers.deep_view() =~= Seq::empty());
    Some(
        ProviderUsageDto {
            provider: provider.name.clone(),
            app_type: app_type.to_string(),
            tiers,
            updated_at: None,
            success: false,
            error,
        },
    )
}

/// The entry of a provider, if it has one.
fn find_entry<N: Copy>(app_type: &str, item: &AskedProvider<N>, zero: N) -> (entry: Option<
    ProviderUsageDto<N>,
>)
    ensures
        entry.deep_view() == item_entry(app_type@, *item, zero),
{
    let asked = is_due(usage_query(&item.provider), item.signed_in);
    match &item.answer {
        Some(answer) => if asked {
            usage_entry(&item.provider, app_type, answer, zero)
        } else {
            None
        },
        None => None,
    }
}

/// The usage of all providers that were asked, of all apps.
pub fn get_usage<N: Copy>(running: bool, apps: &Vec<AppUsage<N>>, zero: N) -> (reply: Result<
    Vec<ProviderUsageDto<N>>,
    Reply,
>)
    ensures
        !running ==> (reply matches Err(refusal) && refusal@ == stopped_reply()),
        running ==> (reply matches Ok(list) && list.deep_view() == all_entries(apps@, zero)),
{
    if !running {
        return Err(stopped());
    }
    let mut list: Vec<ProviderUsageDto<N>> = Vec::new();
    assert(list.deep_view() =~= Seq::empty());
    assert(all_entries(apps@.take(0), zero) =~= Seq::empty());
    let mut i: usize = 0;
    while i < apps.len()
        invariant
            i <= apps.len(),
            list.deep_view() == all_entries(apps@.take(i as int), zero),
        decreases apps.len() - i,
    {
        let app = &apps[i];
        let ghost done = all_entries(apps@.take(i as int), zero);
        if let Ok(items) = &app.providers {
            let mut j: usize = 0;
            assert(done + entries(app.app_type@, items@.take(0), zero) =~= done);
            while j < items.len()
                invariant
                    j <= items.len(),
                    list.deep_view() == done + entries(
                        app.app_type@,
                        items@.take(j as int),
                        zero,
                    ),
                decreases items.len() - j,
            {
                let ghost part = entries(app.app_type@, items@.take(j as int), zero);
                assert(items@.take(j + 1).drop_last() =~= items@.take(j as int));
                assert(items@.take(j + 1).last() == items@[j as int]);
                if let Some(entry) = find_entry(app.app_type.as_str(), &items[j], zero) {
                    let ghost before = list.deep_view();
                    list.push(entry);
                    assert(list.deep_view() =~= before.push(entry.deep_view()));
                    assert((done + part).push(entry.deep_view()) =~= done + part.push(
                        entry.deep_view(),
                    ));
                }
                j += 1;
            }
            assert(items@.take(j as int) =~= items@);
        } else {
            assert(done + Seq::<UsageView<N>>::empty() =~= done);
        }
        assert(apps@.take(i + 1).drop_last() =~= apps@.take(i as int));
        i += 1;
    }
    assert(apps@.take(i as int) =~= apps@);
    Ok(list)
}

/// An entry says what came of the query: one that succeeded has a tier and a
/// time and no error, one that failed has neither.
pub proof fn entries_say_what_came<N>(
    provider: Provider,
    app_type: Seq<char>,
    answer: UsageAnswer<N>,
    zero: N,
)
    ensures
        entry_of(provider, app_type, answer, zero) matches Some(entry) ==> {
            &&& entry.provider == provider.name@
            &&& entry.app_type == app_type
            &&& entry.success <==> entry.tiers.len() > 0
            &&& entry.success <==> entry.updated_at is Some
            &&& entry.success ==> entry.error is None
        },
{
}

/// A query that fails is not passed over: the provider has an entry that says so.
pub proof fn failures_are_listed<N>(
    provider: Provider,
    app_type: Seq<char>,
    answer: UsageAnswer<N>,
    zero: N,
)
    requires
        answer.outcome matches Ok(result) ==> !result.success,
    ensures
        entry_of(provider, app_type, answer, zero) matches Some(entry) && !entry.success,
{
}

/// The lists of two groups of apps, one after the other, are the list of both.
pub proof fn lists_are_joined<N>(a: Seq<AppUsage<N>>, b: Seq<AppUsage<N>>, zero: N)
    ensures
        all_entries(a + b, zero) == all_entries(a, zero) + all_entries(b, zero),
    decreases b.len(),
{
    if b.len() == 0 {
        assert(a + b =~= a);
        assert(all_entries(b, zero) =~= Seq::empty());
        assert(all_entries(a, zero) + all_entries(b, zero) =~= all_entries(a, zero));
    } else {
        lists_are_joined(a, b.drop_last(), zero);
        assert((a + b).drop_last() =~= a + b.drop_last());
        assert((a + b).last() == b.last());
        assert(all_entries(a + b, zero) =~= all_entries(a, zero) + all_entries(b, zero));
    }
}

/// An app whose providers could not be read is passed over, and the others are
/// listed as if it were not there.
pub proof fn unreadable_app_is_passed_over<N>(
    a: Seq<AppUsage<N>>,
    unreadable: AppUsage<N>,
    b: Seq<AppUsage<N>>,
    zero: N,
)
    requires
        unreadable.providers is Err,
    ensures
        all_entries(a.push(unreadable) + b, zero) == all_entries(a + b, zero),
{
    lists_are_joined(a.push(unreadable), b, zero);
    lists_are_joined(a, b, zero);
    assert(a.push(unreadable).drop_last() =~= a);
    assert(all_entries(a.push(unreadable), zero) =~= all_entries(a, zero));
}

/// A provider whose usage is not queried, or that needs a login that there is
/// not, has no entry, whatever it would have answered.
pub proof fn unasked_provider_has_no_entry<N>(
    app_type: Seq<char>,
    item: AskedProvider<N>,
    zero: N,
)
    requires
        !item.provider.usage_script_enabled || (item.provider.usage_template.deep_view() == Some(
            "github_copilot"@,
        ) && !item.signed_in),
    ensures
        item_entry(app_type, item, zero) is None,
{
}

} // verus!
