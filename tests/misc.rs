use compactor::{
    retention_period_ns, Config, ConfigError, JobEvent, JobState, QueryCompletedToken,
    ServiceProtectionLimits, ServiceProtectionLimitsArgs,
};

#[test]
fn job_lifecycle_transitions() {
    assert_eq!(JobState::Unclaimed.next(JobEvent::Claim), Some(JobState::Claimed));
    assert_eq!(JobState::Claimed.next(JobEvent::SubmitCommit), Some(JobState::Committing));
    assert_eq!(JobState::Committing.next(JobEvent::CommitApplied), Some(JobState::Done));
    assert_eq!(JobState::Claimed.next(JobEvent::Fail), Some(JobState::Failed));
    assert_eq!(JobState::Unclaimed.next(JobEvent::CommitApplied), None);
    assert_eq!(JobState::Done.next(JobEvent::Claim), None);
    assert!(JobState::Failed.is_terminal());
    assert!(!JobState::Committing.is_terminal());
}

#[test]
fn limits_absent_when_none_given() {
    let args = ServiceProtectionLimitsArgs { max_tables: None, max_columns_per_table: None };
    assert_eq!(args.limits(), None);
    let args = ServiceProtectionLimitsArgs { max_tables: Some(3), max_columns_per_table: None };
    assert_eq!(
        args.limits(),
        Some(ServiceProtectionLimits { max_tables: Some(3), max_columns_per_table: None })
    );
}

#[test]
fn retention_hours_to_nanoseconds() {
    assert_eq!(retention_period_ns(0), Ok(None));
    assert_eq!(retention_period_ns(1), Ok(Some(3_600_000_000_000)));
    assert_eq!(retention_period_ns(2562047), Ok(Some(2562047 * 3_600_000_000_000)));
    assert_eq!(retention_period_ns(2562048), Err(ConfigError::RetentionTooLong));
}

#[test]
fn config_builds_request() {
    let config = Config {
        namespace: "bananas".to_string(),
        retention_hours: 24,
        service_protection_limits: ServiceProtectionLimitsArgs {
            max_tables: None,
            max_columns_per_table: Some(200),
        },
    };
    let req = config.request().unwrap();
    assert_eq!(req.namespace, "bananas");
    assert_eq!(req.retention_period_ns, Some(24 * 3_600_000_000_000));
    assert_eq!(
        req.service_protection_limits,
        Some(ServiceProtectionLimits { max_tables: None, max_columns_per_table: Some(200) })
    );
}

#[test]
fn query_token_tracks_success() {
    let mut token = QueryCompletedToken::new();
    assert!(!token.succeeded());
    token.set_success();
    assert!(token.succeeded());
}
