//! The usage API: the remaining quota of every provider whose usage is queried.
//! The numbers are the caller's: `N` is their type.

use crate::clock::{is_stamp, local_now_rfc3339};
use crate::reply::{Body, BodyView, Reply, ReplyView, INTERNAL_SERVER_ERROR};
use vstd::prelude::*;

verus! {

/// The remaining quota of a provider.
#[derive(Debug, Clone)]
pub struct UsageResult<N> {
    pub provider: String,
    pub remaining_5h: N,
    pub remaining_weekly: N,
    pub unit: String,
}

/// The remaining quota of a provider, and when it was found out.
#[derive(Debug, Clone)]
pub struct ProviderUsageDto<N> {
    pub provider: String,
    pub remaining_5h: N,
    pub remaining_weekly: N,
    pub unit: String,
    pub updated_at: String,
}

impl<N> ProviderUsageDto<N> {
    /// The entry says what `result` says.
    pub open spec fn says(self, result: UsageResult<N>) -> bool {
        &&& self.provider@ == result.provider@
        &&& self.remaining_5h == result.remaining_5h
        &&& self.remaining_weekly == result.remaining_weekly
        &&& self.unit@ == result.unit@
    }

    /// The entry of a result that was found out at the given time.
    pub fn from_result_at(result: UsageResult<N>, updated_at: String) -> (dto: Self)
        ensures
            dto.says(result),
            dto.updated_at@ == updated_at@,
    {
        ProviderUsageDto {
            provider: result.provider,
            remaining_5h: result.remaining_5h,
            remaining_weekly: result.remaining_weekly,
            unit: result.unit,
            updated_at,
        }
    }
}

impl<N: Default> Default for ProviderUsageDto<N> {
    /// An entry that says nothing, with the default number of `N` for its numbers.
    fn default() -> (dto: Self)
        ensures
            dto.provider@ == Seq::<char>::empty(),
            call_ensures(N::default, (), dto.remaining_5h),
            call_ensures(N::default, (), dto.remaining_weekly),
            dto.unit@ == Seq::<char>::empty(),
            dto.updated_at@ == Seq::<char>::empty(),
    {
        ProviderUsageDto {
            provider: String::new(),
            remaining_5h: N::default(),
            remaining_weekly: N::default(),
            unit: String::new(),
            updated_at: String::new(),
        }
    }
}

impl<N> From<UsageResult<N>> for ProviderUsageDto<N> {
    /// The entry of a result, found out now. The time is an RFC 3339 text.
    fn from(result: UsageResult<N>) -> (dto: Self)
        ensures
            dto.says(result),
            is_stamp(dto.updated_at@),
    {
        ProviderUsageDto::from_result_at(result, local_now_rfc3339())
    }
}

impl<N> vstd::std_specs::convert::FromSpecImpl<UsageResult<N>> for ProviderUsageDto<N> {
    open spec fn obeys_from_spec() -> bool {
        false
    }

    open spec fn from_spec(result: UsageResult<N>) -> Self {
        arbitrary()
    }
}

/// The list of what the providers whose usage is queried have answered: one
/// entry for each, in their order, stamped with the local time.
pub fn default_query_provider_usage_inner<N>(results: Vec<UsageResult<N>>) -> (list: Result<
    Vec<ProviderUsageDto<N>>,
    String,
>)
    ensures
        list matches Ok(l) && l@.len() == results@.len() && forall|i: int|
            0 <= i < l@.len() ==> (#[trigger] l@[i]).says(results@[i]) && is_stamp(
                l@[i].updated_at@,
            ),
{
    let mut list: Vec<ProviderUsageDto<N>> = Vec::new();
    for result in it: results
        invariant
            it.seq() == results@,
            list@.len() == it.index(),
            forall|i: int|
                0 <= i < list@.len() ==> (#[trigger] list@[i]).says(results@[i])
                    && is_stamp(list@[i].updated_at@),
    {
        list.push(ProviderUsageDto::from(result));
    }
    Ok(list)
}

/// The list of a usage query, or the answer that says why it failed.
pub fn get_providers_usage<N>(query: Result<Vec<ProviderUsageDto<N>>, String>) -> (reply: Result<
    Vec<ProviderUsageDto<N>>,
    Reply,
>)
    ensures
        match query {
            Ok(list) => reply == Ok::<Vec<ProviderUsageDto<N>>, Reply>(list),
            Err(error) => reply matches Err(refusal) && refusal@ == (ReplyView {
                status: INTERNAL_SERVER_ERROR,
                body: BodyView::Error { error: error@ },
            }),
        },
{
    match query {
        Ok(list) => Ok(list),
        Err(error) => Err(Reply { status: INTERNAL_SERVER_ERROR, body: Body::Error { error } }),
    }
}

/// An entry that says what a result says has its provider, both its quotas and its
/// unit.
pub proof fn entry_says_all_of_the_result<N>(dto: ProviderUsageDto<N>, result: UsageResult<N>)
    ensures
        dto.says(result) <==> {
            &&& dto.provider@ == result.provider@
            &&& dto.remaining_5h == result.remaining_5h
            &&& dto.remaining_weekly == result.remaining_weekly
            &&& dto.unit@ == result.unit@
        },
{
}

} // verus!
