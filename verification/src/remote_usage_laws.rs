//! What the list of usage shows of each provider that was asked.

use crate::provider::Provider;
use crate::remote_laws::same_option;
use crate::remote_usage::{
    all_entries, app_entries, entries, entry_of, item_entry, query_is_due, query_of, AppUsage,
    AskedProvider, ProviderUsageDto, TierUsageDto, TierView, UsageAnswer, UsageData, UsageQuery,
    UsageQueryResult, UsageView,
};
use vstd::prelude::*;

verus! {

/// The tier shows the plan: its numbers, or zero, its texts, or the empty one, and
/// when it resets, if that is known.
pub open spec fn shows<N>(tier: TierView<N>, plan: UsageData<N>, zero: N) -> bool {
    &&& match plan.plan_name {
        Some(name) => tier.name == name@,
        None => tier.name.len() == 0,
    }
    &&& match plan.used {
        Some(used) => tier.used_percent == used,
        None => tier.used_percent == zero,
    }
    &&& match plan.remaining {
        Some(remaining) => tier.remaining == remaining,
        None => tier.remaining == zero,
    }
    &&& match plan.total {
        Some(total) => tier.total == total,
        None => tier.total == zero,
    }
    &&& match plan.unit {
        Some(unit) => tier.unit == unit@,
        None => tier.unit.len() == 0,
    }
    &&& same_option(plan.extra, tier.resets_at)
}

/// A query that succeeded with data has an entry with just as many tiers as there
/// are plans, and each tier shows the plan at its place.
pub proof fn every_plan_is_shown<N>(
    provider: Provider,
    app_type: Seq<char>,
    answer: UsageAnswer<N>,
    zero: N,
    result: UsageQueryResult<N>,
    data: Vec<UsageData<N>>,
)
    requires
        answer.outcome == Ok::<UsageQueryResult<N>, String>(result),
        result.success,
        result.data == Some(data),
        data@.len() > 0,
    ensures
        ({
            &&& entry_of(provider, app_type, answer, zero) matches Some(entry)
            &&& entry.provider == provider.name@
            &&& entry.app_type == app_type
            &&& entry.success
            &&& entry.error is None
            &&& entry.updated_at == Some(answer.answered_at@)
            &&& entry.tiers.len() == data@.len()
            &&& forall|i: int|
                0 <= i < data@.len() ==> shows(#[trigger] entry.tiers[i], data@[i], zero)
        }),
{
}

/// A query that succeeded without data has no entry.
pub proof fn nothing_to_show_is_not_listed<N>(
    provider: Provider,
    app_type: Seq<char>,
    answer: UsageAnswer<N>,
    zero: N,
    result: UsageQueryResult<N>,
)
    requires
        answer.outcome == Ok::<UsageQueryResult<N>, String>(result),
        result.success,
        result.data matches Some(data) ==> data@.len() == 0,
    ensures
        entry_of(provider, app_type, answer, zero) is None,
{
}

/// A query that failed has an entry without tiers and without a time, and with the
/// error that came.
pub proof fn failed_query_shows_its_error<N>(
    provider: Provider,
    app_type: Seq<char>,
    answer: UsageAnswer<N>,
    zero: N,
)
    requires
        answer.outcome matches Ok(result) ==> !result.success,
    ensures
        ({
            &&& entry_of(provider, app_type, answer, zero) matches Some(entry)
            &&& entry.provider == provider.name@
            &&& entry.app_type == app_type
            &&& !entry.success
            &&& entry.tiers.len() == 0
            &&& entry.updated_at is None
            &&& answer.outcome matches Err(error) ==> entry.error == Some(error@)
            &&& answer.outcome matches Ok(result) ==> same_option(result.error, entry.error)
        }),
{
}

/// A provider is asked just when its usage is queried, and one of Copilot only with
/// a login.
pub proof fn asked_when_enabled_and_signed_in(provider: Provider, signed_in: bool)
    ensures
        query_is_due(query_of(provider), signed_in) <==> provider.usage_script_enabled && (
        provider.usage_template matches Some(template) && template@ == "github_copilot"@
            ==> signed_in),
        query_of(provider) == UsageQuery::IfSignedIn <==> provider.usage_script_enabled && (
        provider.usage_template matches Some(template) && template@ == "github_copilot"@),
{
}

/// A provider that is to be asked and answered is listed as its answer says, and no
/// other is listed.
pub proof fn listed_when_asked<N>(app_type: Seq<char>, item: AskedProvider<N>, zero: N)
    ensures
        ({
            let asked = item.provider.usage_script_enabled && (
            item.provider.usage_template matches Some(template) && template@ == "github_copilot"@
                ==> item.signed_in);
            &&& asked && item.answer is Some ==> item_entry(app_type, item, zero) == entry_of(
                item.provider,
                app_type,
                item.answer->0,
                zero,
            )
            &&& !asked || item.answer is None ==> item_entry(app_type, item, zero) is None
        }),
{
}

/// The list of an app has an entry for each provider that has one, in their order:
/// that of one more provider is the list so far, and its entry.
pub proof fn entries_are_listed_in_order<N>(
    app_type: Seq<char>,
    items: Seq<AskedProvider<N>>,
    item: AskedProvider<N>,
    zero: N,
)
    ensures
        entries(app_type, Seq::<AskedProvider<N>>::empty(), zero).len() == 0,
        entries(app_type, items.push(item), zero) == match item_entry(app_type, item, zero) {
            Some(entry) => entries(app_type, items, zero).push(entry),
            None => entries(app_type, items, zero),
        },
{
    assert(items.push(item).drop_last() =~= items);
}

/// The whole list is that of the apps in their order: that of one more app is the
/// list so far, and the list of the app, which is empty where its providers could
/// not be read.
pub proof fn apps_are_listed_in_order<N>(apps: Seq<AppUsage<N>>, app: AppUsage<N>, zero: N)
    ensures
        all_entries(Seq::<AppUsage<N>>::empty(), zero).len() == 0,
        app.providers matches Ok(items) ==> all_entries(apps.push(app), zero) == all_entries(
            apps,
            zero,
        ) + entries(app.app_type@, items@, zero),
        app.providers is Err ==> all_entries(apps.push(app), zero) == all_entries(apps, zero),
        app.providers matches Ok(items) ==> app_entries(app, zero) == entries(
            app.app_type@,
            items@,
            zero,
        ),
{
    assert(apps.push(app).drop_last() =~= apps);
    assert(all_entries(apps, zero) + Seq::<UsageView<N>>::empty() =~= all_entries(apps, zero));
}

/// One provider that was asked and has data brings one entry, with a tier for each
/// plan that shows it.
pub proof fn one_provider_brings_one_entry<N>(
    app: AppUsage<N>,
    items: Vec<AskedProvider<N>>,
    answer: UsageAnswer<N>,
    result: UsageQueryResult<N>,
    data: Vec<UsageData<N>>,
    zero: N,
)
    requires
        app.providers == Ok::<Vec<AskedProvider<N>>, String>(items),
        items@.len() == 1,
        items@[0].provider.usage_script_enabled,
        items@[0].signed_in,
        items@[0].answer == Some(answer),
        answer.outcome == Ok::<UsageQueryResult<N>, String>(result),
        result.success,
        result.data == Some(data),
        data@.len() > 0,
    ensures
        ({
            let list = all_entries(Seq::<AppUsage<N>>::empty().push(app), zero);
            &&& list.len() == 1
            &&& list[0].provider == items@[0].provider.name@
            &&& list[0].app_type == app.app_type@
            &&& list[0].tiers.len() == data@.len()
            &&& forall|i: int|
                0 <= i < data@.len() ==> shows(#[trigger] list[0].tiers[i], data@[i], zero)
        }),
{
    let none = Seq::<AskedProvider<N>>::empty();
    apps_are_listed_in_order(Seq::<AppUsage<N>>::empty(), app, zero);
    entries_are_listed_in_order(app.app_type@, none, items@[0], zero);
    assert(items@ =~= none.push(items@[0]));
    every_plan_is_shown(items@[0].provider, app.app_type@, answer, zero, result, data);
}

/// The contracts see every field of a tier and of an entry.
pub proof fn entries_are_seen_whole<N>(tier: TierUsageDto<N>, entry: ProviderUsageDto<N>)
    ensures
        tier.deep_view().name == tier.name@,
        tier.deep_view().used_percent == tier.used_percent,
        tier.deep_view().remaining == tier.remaining,
        tier.deep_view().total == tier.total,
        tier.deep_view().unit == tier.unit@,
        same_option(tier.resets_at, tier.deep_view().resets_at),
        entry.deep_view().provider == entry.provider@,
        entry.deep_view().app_type == entry.app_type@,
        entry.deep_view().tiers.len() == entry.tiers@.len(),
        forall|i: int|
            0 <= i < entry.tiers@.len() ==> #[trigger] entry.deep_view().tiers[i]
                == entry.tiers@[i].deep_view(),
        same_option(entry.updated_at, entry.deep_view().updated_at),
        entry.deep_view().success == entry.success,
        same_option(entry.error, entry.deep_view().error),
{
}

} // verus!
