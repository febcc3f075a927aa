use aster_core::pagination::Page;
use aster_core::remote_pagination::collect_all;
use aster_core::report_pagination::{collect, empty_bundle, ReportBundlePage};
use aster_core::security_rate_limiter::SecurityRateLimiter;
use aster_core::write_limits::validate_line_count;

#[test]
fn aggregates_pages_without_exposing_cursor_to_callers() {
    let result = collect_all(|cursor| match cursor {
        None => Ok(Page {
            items: vec![1, 2],
            next_cursor: Some("next".to_string()),
        }),
        Some("next") => Ok(Page {
            items: vec![3],
            next_cursor: None,
        }),
        _ => unreachable!(),
    })
    .expect("collect pages");
    assert_eq!(result, vec![1, 2, 3]);
}

#[test]
fn aggregates_all_report_sections() {
    let bundle = collect("2026-06", |section, _| {
        Ok(ReportBundlePage {
            section: section.to_string(),
            bundle: empty_bundle::<u32>("2026-06"),
            next_cursor: None,
        })
    })
    .expect("bundle");
    assert_eq!(bundle.month, "2026-06");
}

#[test]
fn isolates_sources_and_rejects_attempts_over_limit() {
    let mut limiter = SecurityRateLimiter::default();
    for _ in 0..5 {
        limiter.check("login", "device-a").expect("allowed");
    }
    assert!(limiter.check("login", "device-a").is_err());
    assert!(limiter.check("login", "device-b").is_ok());
}

#[test]
fn successful_operation_can_clear_its_failure_window() {
    let mut limiter = SecurityRateLimiter::default();
    for _ in 0..5 {
        limiter.check("login", "device-a").expect("allowed");
    }
    limiter.clear("login", "device-a");
    assert!(limiter.check("login", "device-a").is_ok());
}

#[test]
fn accepts_limit_and_rejects_one_over() {
    assert!(validate_line_count(2_000, "单据").is_ok());
    assert!(validate_line_count(2_001, "单据").is_err());
}
