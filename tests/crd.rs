use kube_devops::crd::{DevOpsPolicySpec, DevOpsPolicyStatus, Severity, SeverityOverrides};

#[test]
fn test_status_default() {
    let status = DevOpsPolicyStatus::default();
    assert_eq!(status.observed_generation, None);
    assert_eq!(status.healthy, None);
    assert_eq!(status.health_score, None);
    assert_eq!(status.violations, None);
    assert_eq!(status.last_evaluated, None);
    assert_eq!(status.message, None);
    assert_eq!(status.remediations_applied, None);
    assert_eq!(status.remediations_failed, None);
    assert_eq!(status.remediated_workloads, None);
}

#[test]
fn test_severity_default_is_medium() {
    let s = Severity::default();
    assert_eq!(s, Severity::Medium);
}

#[test]
fn test_severity_overrides_default_all_none() {
    let overrides = SeverityOverrides::default();
    assert_eq!(overrides.latest_tag, None);
    assert_eq!(overrides.missing_liveness, None);
    assert_eq!(overrides.missing_readiness, None);
    assert_eq!(overrides.high_restarts, None);
    assert_eq!(overrides.pending, None);
}

#[test]
fn test_spec_default_all_none() {
    let spec = DevOpsPolicySpec::default();
    assert_eq!(spec.forbid_latest_tag, None);
    assert_eq!(spec.require_liveness_probe, None);
    assert_eq!(spec.require_readiness_probe, None);
    assert_eq!(spec.max_restart_count, None);
    assert_eq!(spec.forbid_pending_duration, None);
    assert_eq!(spec.enforcement_mode, None);
    assert_eq!(spec.default_probe, None);
    assert_eq!(spec.default_resources, None);
    assert_eq!(spec.severity_overrides, None);
}
