
use kube_devops::admission::{
    build_admission_policy_for_validation, format_denial_message, validate_pod_admission,
};
#[allow(unused_imports)]
use kube_devops::crd::{DevOpsPolicySpec, Severity, SeverityOverrides};
#[allow(unused_imports)]
use kube_devops::pod::{ContainerInfo, ContainerStatusInfo, OwnerReference, PodInfo};

#[allow(dead_code)]
fn make_test_pod(
    name: &str,
    namespace: &str,
    image: &str,
    has_liveness: bool,
    has_readiness: bool,
    restart_count: i32,
    phase: &str,
) -> PodInfo {
    PodInfo {
        name: Some(name.to_string()),
        namespace: Some(namespace.to_string()),
        owner_references: vec![],
        containers: vec![ContainerInfo {
            name: "main".to_string(),
            image: Some(image.to_string()),
            has_liveness_probe: has_liveness,
            has_readiness_probe: has_readiness,
            has_resource_requests: false,
            has_resource_limits: false,
            ports: vec![],
        }],
        container_statuses: vec![ContainerStatusInfo { name: "main".to_string(), restart_count }],
        phase: Some(phase.to_string()),
    }
}

#[allow(dead_code)]
fn make_test_policy_with_severity(
    latest_tag: Severity,
    missing_liveness: Severity,
    missing_readiness: Severity,
) -> DevOpsPolicySpec {
    DevOpsPolicySpec {
        forbid_latest_tag: Some(true),
        require_liveness_probe: Some(true),
        require_readiness_probe: Some(true),
        max_restart_count: Some(3),
        forbid_pending_duration: Some(300),
        severity_overrides: Some(SeverityOverrides {
            latest_tag: Some(latest_tag),
            missing_liveness: Some(missing_liveness),
            missing_readiness: Some(missing_readiness),
            ..Default::default()
        }),
        ..Default::default()
    }
}

#[allow(dead_code)]
fn make_test_pod_with_owner(
    name: &str,
    namespace: &str,
    image: &str,
    owner_kind: &str,
    owner_name: &str,
    has_liveness: bool,
    has_readiness: bool,
) -> PodInfo {
    let mut pod = make_test_pod(name, namespace, image, has_liveness, has_readiness, 0, "Running");
    pod.owner_references = vec![OwnerReference { kind: owner_kind.to_string(), name: owner_name.to_string() }];
    pod
}


/* ============================= HELPERS ============================= */

fn all_enabled_policy() -> DevOpsPolicySpec {
    DevOpsPolicySpec {
        forbid_latest_tag: Some(true),
        require_liveness_probe: Some(true),
        require_readiness_probe: Some(true),
        max_restart_count: Some(3),
        forbid_pending_duration: Some(300),
        ..Default::default()
    }
}

fn empty_policy() -> DevOpsPolicySpec {
    DevOpsPolicySpec::default()
}

fn make_admission_pod(name: &str, namespace: &str, containers: Vec<ContainerInfo>) -> PodInfo {
    PodInfo {
        name: Some(name.to_string()),
        namespace: Some(namespace.to_string()),
        owner_references: vec![],
        containers,
        container_statuses: vec![],
        phase: None,
    }
}

fn container_with(name: &str, image: &str, has_liveness: bool, has_readiness: bool) -> ContainerInfo {
    ContainerInfo {
        name: name.to_string(),
        image: Some(image.to_string()),
        has_liveness_probe: has_liveness,
        has_readiness_probe: has_readiness,
        has_resource_requests: false,
        has_resource_limits: false,
        ports: vec![],
    }
}

/* ============================= FULL PIPELINE TESTS ============================= */

/// Simulate the full admission pipeline: build AdmissionReview JSON → validate → check response.
#[test]
fn test_full_admission_pipeline_allow() {
    let pod = make_admission_pod(
        "compliant-pod",
        "production",
        vec![container_with("nginx", "nginx:1.25", true, true)],
    );
    let policy = all_enabled_policy();

    let verdict = validate_pod_admission(&pod, &policy);

    assert!(verdict.allowed);
    assert!(verdict.message.is_none());
    assert!(verdict.violations.is_empty());
}

#[test]
fn test_full_admission_pipeline_deny_latest() {
    let pod = make_admission_pod(
        "bad-pod",
        "production",
        vec![container_with("nginx", "nginx:latest", true, true)],
    );
    let policy = all_enabled_policy();

    let verdict = validate_pod_admission(&pod, &policy);

    assert!(!verdict.allowed);
    assert_eq!(verdict.violations.len(), 1);
    assert!(verdict.violations[0].contains(":latest"));
    assert!(verdict.message.unwrap().starts_with("Denied by DevOpsPolicy:"));
}

#[test]
fn test_full_admission_pipeline_deny_missing_probes() {
    let pod = make_admission_pod(
        "no-probes",
        "production",
        vec![container_with("app", "myapp:v2", false, false)],
    );
    let policy = all_enabled_policy();

    let verdict = validate_pod_admission(&pod, &policy);

    assert!(!verdict.allowed);
    assert_eq!(verdict.violations.len(), 2);
    assert!(verdict.violations.iter().any(|v| v.contains("liveness")));
    assert!(verdict.violations.iter().any(|v| v.contains("readiness")));
}

#[test]
fn test_full_admission_pipeline_deny_multiple_violations() {
    let pod = make_admission_pod(
        "bad-pod",
        "production",
        vec![container_with("nginx", "nginx:latest", false, false)],
    );
    let policy = all_enabled_policy();

    let verdict = validate_pod_admission(&pod, &policy);

    assert!(!verdict.allowed);
    assert_eq!(verdict.violations.len(), 3);
    let msg = verdict.message.unwrap();
    assert!(msg.contains(":latest"));
    assert!(msg.contains("liveness"));
    assert!(msg.contains("readiness"));
}

#[test]
fn test_failopen_no_policy() {
    // Empty policy = all checks disabled → allow everything
    let pod = make_admission_pod(
        "anything",
        "production",
        vec![container_with("nginx", "nginx:latest", false, false)],
    );
    let verdict = validate_pod_admission(&pod, &empty_policy());

    assert!(verdict.allowed);
    assert!(verdict.violations.is_empty());
}

#[test]
fn test_allow_when_policy_disables_all_checks() {
    let policy = DevOpsPolicySpec {
        forbid_latest_tag: Some(false),
        require_liveness_probe: Some(false),
        require_readiness_probe: Some(false),
        ..Default::default()
    };
    let pod = make_admission_pod(
        "anything",
        "production",
        vec![container_with("nginx", "nginx:latest", false, false)],
    );
    let verdict = validate_pod_admission(&pod, &policy);

    assert!(verdict.allowed);
    assert!(verdict.violations.is_empty());
}

#[test]
fn test_runtime_checks_not_applied_at_admission() {
    // Even with restarts and pending checks enabled, they should be stripped
    let policy = DevOpsPolicySpec {
        max_restart_count: Some(3),
        forbid_pending_duration: Some(300),
        ..empty_policy()
    };
    let admission_policy = build_admission_policy_for_validation(&policy);
    assert!(admission_policy.max_restart_count.is_none());
    assert!(admission_policy.forbid_pending_duration.is_none());

    // Pod with high restarts and pending status should still be allowed
    let mut pod = make_admission_pod("runtime-pod", "default", vec![container_with("app", "app:v1", true, true)]);
    pod.phase = Some("Pending".to_string());
    let verdict = validate_pod_admission(&pod, &policy);
    assert!(verdict.allowed);
}

#[test]
fn test_multi_container_mixed_compliance() {
    let pod = make_admission_pod(
        "multi",
        "production",
        vec![
            container_with("good", "nginx:1.25", true, true),
            container_with("bad", "redis:latest", false, true),
        ],
    );
    let verdict = validate_pod_admission(&pod, &all_enabled_policy());

    assert!(!verdict.allowed);
    // bad container has: :latest + missing liveness = 2 violations
    assert_eq!(verdict.violations.len(), 2);
    assert!(verdict.violations.iter().all(|v| v.contains("bad")));
}

#[test]
fn test_denial_message_format() {
    let violations = vec![
        "container 'nginx' uses :latest tag".to_string(),
        "container 'nginx' missing liveness probe".to_string(),
    ];
    let msg = format_denial_message(&violations);
    assert_eq!(
        msg,
        "Denied by DevOpsPolicy: container 'nginx' uses :latest tag, container 'nginx' missing liveness probe"
    );
}

#[test]
fn test_pod_with_no_spec_failopen() {
    let pod = make_admission_pod("no-spec", "default", vec![]);
    let verdict = validate_pod_admission(&pod, &all_enabled_policy());
    assert!(verdict.allowed);
    assert!(verdict.violations.is_empty());
}

#[test]
fn test_verdict_fields_consistency() {
    // When allowed, message should be None and violations empty
    let pod = make_admission_pod(
        "good",
        "default",
        vec![container_with("app", "app:v1", true, true)],
    );
    let verdict = validate_pod_admission(&pod, &all_enabled_policy());
    assert!(verdict.allowed);
    assert!(verdict.message.is_none());
    assert!(verdict.violations.is_empty());

    // When denied, message should be Some and violations non-empty
    let bad_pod = make_admission_pod(
        "bad",
        "default",
        vec![container_with("app", "app:latest", false, false)],
    );
    let bad_verdict = validate_pod_admission(&bad_pod, &all_enabled_policy());
    assert!(!bad_verdict.allowed);
    assert!(bad_verdict.message.is_some());
    assert!(!bad_verdict.violations.is_empty());
}

#[test]
fn test_system_namespace_pod_evaluated_normally() {
    // The admission module itself doesn't filter system namespaces —
    // that's done at the HTTP handler level. The pure validation should
    // still detect violations regardless of namespace.
    let pod = make_admission_pod(
        "sys-pod",
        "kube-system",
        vec![container_with("app", "app:latest", false, false)],
    );
    let verdict = validate_pod_admission(&pod, &all_enabled_policy());
    // Pure validation still finds violations — system ns bypass is in the handler
    assert!(!verdict.allowed);
    assert_eq!(verdict.violations.len(), 3);
}
