use cc_switch::reply::{Body, INTERNAL_SERVER_ERROR};
use cc_switch::usage_api::{
    default_query_provider_usage_inner, get_providers_usage, ProviderUsageDto, UsageResult,
};
use cc_switch::usage_summary;

fn dto(provider: &str, remaining_5h: f64, remaining_weekly: f64, unit: &str) -> ProviderUsageDto<f64> {
    ProviderUsageDto {
        provider: provider.to_string(),
        remaining_5h,
        remaining_weekly,
        unit: unit.to_string(),
        updated_at: "2026-06-02T12:00:00+08:00".to_string(),
    }
}

#[test]
fn test_handler_success() {
    let result = get_providers_usage(Ok(vec![
        dto("copilot", 5000.0, 35000.0, "tokens"),
        dto("deepseek", 10.5, 100.0, "USD"),
    ]));
    assert!(result.is_ok());
    let dtos = result.unwrap();
    assert_eq!(dtos.len(), 2);
    assert_eq!(dtos[0].provider, "copilot");
    assert_eq!(dtos[0].remaining_5h, 5000.0);
    assert_eq!(dtos[0].remaining_weekly, 35000.0);
    assert_eq!(dtos[0].unit, "tokens");
    assert_eq!(dtos[1].provider, "deepseek");
    assert_eq!(dtos[1].remaining_5h, 10.5);
    assert_eq!(dtos[1].remaining_weekly, 100.0);
    assert_eq!(dtos[1].unit, "USD");
}

#[test]
fn test_handler_query_error() {
    let result: Result<Vec<ProviderUsageDto<f64>>, _> =
        get_providers_usage(Err("db connection failed".to_string()));
    assert!(result.is_err());
    let reply = result.unwrap_err();
    assert_eq!(reply.status, INTERNAL_SERVER_ERROR);
    assert_eq!(reply.status, 500);
    assert!(matches!(&reply.body, Body::Error { error } if error == "db connection failed"));
}

#[test]
fn test_handler_empty() {
    let result: Result<Vec<ProviderUsageDto<f64>>, _> = get_providers_usage(Ok(vec![]));
    assert!(result.is_ok());
    assert!(result.unwrap().is_empty());
}

#[test]
fn test_dto_from_usage_result_zero() {
    let result = UsageResult {
        provider: "copilot".to_string(),
        remaining_5h: 0.0,
        remaining_weekly: 0.0,
        unit: "tokens".to_string(),
    };
    let dto: ProviderUsageDto<f64> = result.into();
    assert_eq!(dto.provider, "copilot");
    assert_eq!(dto.remaining_5h, 0.0);
    assert_eq!(dto.remaining_weekly, 0.0);
    assert_eq!(dto.unit, "tokens");
    assert!(!dto.updated_at.is_empty());
}

#[test]
fn test_dto_from_usage_result_negative() {
    let result = UsageResult {
        provider: "deepseek".to_string(),
        remaining_5h: -1.0,
        remaining_weekly: -100.5,
        unit: "USD".to_string(),
    };
    let dto: ProviderUsageDto<f64> = result.into();
    assert_eq!(dto.remaining_5h, -1.0);
    assert_eq!(dto.remaining_weekly, -100.5);
}

#[test]
fn test_dto_from_usage_result_large() {
    let large = i64::MAX as f64;
    let result = UsageResult {
        provider: "gemini".to_string(),
        remaining_5h: large,
        remaining_weekly: large,
        unit: "requests".to_string(),
    };
    let dto: ProviderUsageDto<f64> = result.into();
    assert_eq!(dto.remaining_5h, large);
    assert_eq!(dto.remaining_weekly, large);
}

#[test]
fn test_dto_from_usage_result_empty_provider() {
    let result = UsageResult {
        provider: "".to_string(),
        remaining_5h: 100.0,
        remaining_weekly: 500.0,
        unit: "tokens".to_string(),
    };
    let dto: ProviderUsageDto<f64> = result.into();
    assert_eq!(dto.provider, "");
    assert_eq!(dto.remaining_5h, 100.0);
}

#[test]
fn test_handler_boundary_zero() {
    let dtos = get_providers_usage(Ok(vec![dto("copilot", 0.0, 0.0, "tokens")])).unwrap();
    assert_eq!(dtos.len(), 1);
    assert_eq!(dtos[0].remaining_5h, 0.0);
    assert_eq!(dtos[0].remaining_weekly, 0.0);
}

#[test]
fn test_handler_boundary_negative() {
    let dtos = get_providers_usage(Ok(vec![dto("deepseek", -1.0, -1.0, "USD")])).unwrap();
    assert_eq!(dtos[0].remaining_5h, -1.0);
    assert_eq!(dtos[0].remaining_weekly, -1.0);
}

#[test]
fn test_handler_boundary_large() {
    let large = i64::MAX as f64;
    let dtos = get_providers_usage(Ok(vec![dto("gemini", large, large, "requests")])).unwrap();
    assert_eq!(dtos[0].remaining_5h, large);
    assert_eq!(dtos[0].remaining_weekly, large);
}

#[test]
fn test_handler_empty_provider() {
    let dtos = get_providers_usage(Ok(vec![dto("", 100.0, 500.0, "tokens")])).unwrap();
    assert_eq!(dtos[0].provider, "");
}

#[test]
fn default_query_has_an_entry_for_each_result() {
    let none: Vec<ProviderUsageDto<f64>> = default_query_provider_usage_inner(vec![]).unwrap();
    assert!(none.is_empty());

    let result = |provider: &str, remaining_5h: f64, remaining_weekly: f64| UsageResult {
        provider: provider.to_string(),
        remaining_5h,
        remaining_weekly,
        unit: "tokens".to_string(),
    };
    let list = default_query_provider_usage_inner(vec![
        result("copilot", 5000.0, 35000.0),
        result("gemini", 1.5, -2.0),
    ])
    .unwrap();
    assert_eq!(list.len(), 2);
    assert_eq!(list[0].provider, "copilot");
    assert_eq!(list[0].remaining_5h, 5000.0);
    assert_eq!(list[0].remaining_weekly, 35000.0);
    assert_eq!(list[1].provider, "gemini");
    assert_eq!(list[1].remaining_5h, 1.5);
    assert_eq!(list[1].remaining_weekly, -2.0);
    assert_eq!(list[1].unit, "tokens");
    assert!(chrono::DateTime::parse_from_rfc3339(&list[1].updated_at).is_ok());
}

#[test]
fn default_entry_is_empty() {
    let entry: ProviderUsageDto<f64> = ProviderUsageDto::default();
    assert_eq!(entry.provider, "");
    assert_eq!(entry.remaining_5h, 0.0);
    assert_eq!(entry.remaining_weekly, 0.0);
    assert_eq!(entry.unit, "");
    assert_eq!(entry.updated_at, "");
}

#[test]
fn entry_is_stamped_with_the_local_time() {
    let entry = usage_summary::ProviderUsageDto::from(usage_summary::UsageResult {
        provider: "copilot".to_string(),
        remaining: 1000,
        unit: "tokens".to_string(),
    });
    let stamp = chrono::DateTime::parse_from_rfc3339(&entry.updated_at).unwrap();
    let age = chrono::Local::now().signed_duration_since(stamp);
    assert!(age.num_seconds() >= 0 && age.num_seconds() < 20);
}

#[test]
fn whole_quota_comes_to_seven_times_a_week() {
    let entry = usage_summary::ProviderUsageDto::from_result_at(
        usage_summary::UsageResult {
            provider: "copilot".to_string(),
            remaining: 1000,
            unit: "tokens".to_string(),
        },
        "2026-06-02T12:00:00+08:00".to_string(),
    );
    assert_eq!(entry.provider, "copilot");
    assert_eq!(entry.remaining_5h, 1000);
    assert_eq!(entry.remaining_weekly, 7000);
    assert_eq!(entry.unit, "tokens");
    assert_eq!(entry.updated_at, "2026-06-02T12:00:00+08:00");
}

#[test]
fn default_whole_entry_is_empty() {
    let entry = usage_summary::ProviderUsageDto::default();
    assert_eq!(entry.provider, "");
    assert_eq!(entry.remaining_5h, 0);
    assert_eq!(entry.remaining_weekly, 0);
    assert_eq!(entry.unit, "");
    assert_eq!(entry.updated_at, "");
}
