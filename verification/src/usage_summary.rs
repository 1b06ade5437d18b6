//! The remaining quota of a provider in whole numbers, and what it comes to in a
//! week.

use crate::clock::{is_stamp, local_now_rfc3339};
use vstd::prelude::*;

verus! {

/// What the remaining quota is multiplied by for a week.
pub const WEEKLY_FACTOR: i64 = 7;

/// The remaining quota of a provider.
#[derive(Debug, Clone)]
pub struct UsageResult {
    pub provider: String,
    pub remaining: i64,
    pub unit: String,
}

/// The remaining quota of a provider, and when it was found out.
#[derive(Debug, Clone)]
pub struct ProviderUsageDto {
    pub provider: String,
    pub remaining_5h: i64,
    pub remaining_weekly: i64,
    pub unit: String,
    pub updated_at: String,
}

impl Default for ProviderUsageDto {
    fn default() -> (dto: Self)
        ensures
            dto.provider@ == Seq::<char>::empty(),
            dto.remaining_5h == 0,
            dto.remaining_weekly == 0,
            dto.unit@ == Seq::<char>::empty(),
            dto.updated_at@ == Seq::<char>::empty(),
    {
        ProviderUsageDto {
            provider: String::new(),
            remaining_5h: 0,
            remaining_weekly: 0,
            unit: String::new(),
            updated_at: String::new(),
        }
    }
}

impl ProviderUsageDto {
    /// The entry says what `result` says, and what it comes to in a week.
    pub open spec fn says(self, result: UsageResult) -> bool {
        &&& self.provider@ == result.provider@
        &&& self.remaining_5h == result.remaining
        &&& self.remaining_weekly == result.remaining * WEEKLY_FACTOR
        &&& self.unit@ == result.unit@
    }

    /// The entry of a result that was found out at the given time.
    pub fn from_result_at(result: UsageResult, updated_at: String) -> (dto: Self)
        requires
            i64::MIN <= result.remaining * WEEKLY_FACTOR <= i64::MAX,
        ensures
            dto.says(result),
            dto.updated_at@ == updated_at@,
    {
        ProviderUsageDto {
            provider: result.provider,
            remaining_5h: result.remaining,
            remaining_weekly: result.remaining * WEEKLY_FACTOR,
            unit: result.unit,
            updated_at,
        }
    }

    /// The entry of a result, found out now. The time is an RFC 3339 text.
    pub fn from(result: UsageResult) -> (dto: Self)
        requires
            i64::MIN <= result.remaining * WEEKLY_FACTOR <= i64::MAX,
        ensures
            dto.says(result),
            is_stamp(dto.updated_at@),
    {
        ProviderUsageDto::from_result_at(result, local_now_rfc3339())
    }
}

/// An entry that says what a result says has its provider, its quota, seven times
/// that quota for a week, and its unit.
pub proof fn entry_says_all_of_the_result(dto: ProviderUsageDto, result: UsageResult)
    ensures
        dto.says(result) <==> {
            &&& dto.provider@ == result.provider@
            &&& dto.remaining_5h == result.remaining
            &&& dto.remaining_weekly == 7 * result.remaining
            &&& dto.unit@ == result.unit@
        },
{
}

} // verus!
