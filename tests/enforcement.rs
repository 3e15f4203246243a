use kube_devops::crd::{DefaultProbeConfig, DefaultResourceConfig, DevOpsPolicySpec, EnforcementMode};
use kube_devops::enforcement::{
    build_container_patches, build_default_probe, build_default_resources, is_enforcement_enabled,
    is_protected_namespace, plan_remediation, resolve_owner, strip_replicaset_hash, ProbeSpec,
    RemediationAction, WorkloadRef, FIELD_MANAGER, PATCHED_BY_ANNOTATION,
};
use kube_devops::pod::{ContainerInfo, ContainerStatusInfo, OwnerReference, PodInfo};

fn make_enforce_policy() -> DevOpsPolicySpec {
    DevOpsPolicySpec {
        forbid_latest_tag: Some(true),
        require_liveness_probe: Some(true),
        require_readiness_probe: Some(true),
        max_restart_count: Some(3),
        forbid_pending_duration: Some(300),
        enforcement_mode: Some(EnforcementMode::Enforce),
        default_probe: Some(DefaultProbeConfig {
            tcp_port: None,
            initial_delay_seconds: Some(5),
            period_seconds: Some(10),
        }),
        default_resources: Some(DefaultResourceConfig {
            cpu_request: Some("100m".to_string()),
            cpu_limit: Some("500m".to_string()),
            memory_request: Some("128Mi".to_string()),
            memory_limit: Some("256Mi".to_string()),
        }),
        severity_overrides: None,
    }
}

fn make_audit_policy() -> DevOpsPolicySpec {
    DevOpsPolicySpec {
        forbid_latest_tag: Some(true),
        require_liveness_probe: Some(true),
        require_readiness_probe: Some(true),
        max_restart_count: Some(3),
        forbid_pending_duration: Some(300),
        enforcement_mode: Some(EnforcementMode::Audit),
        default_probe: None,
        default_resources: None,
        severity_overrides: None,
    }
}

fn container(name: &str, ports: Vec<i32>) -> ContainerInfo {
    ContainerInfo {
        name: name.to_string(),
        image: None,
        has_liveness_probe: false,
        has_readiness_probe: false,
        has_resource_requests: false,
        has_resource_limits: false,
        ports,
    }
}

fn make_pod_with_owner(
    name: &str,
    namespace: &str,
    image: &str,
    owner_kind: &str,
    owner_name: &str,
    has_liveness: bool,
    has_readiness: bool,
) -> PodInfo {
    PodInfo {
        name: Some(name.to_string()),
        namespace: Some(namespace.to_string()),
        owner_references: vec![OwnerReference {
            kind: owner_kind.to_string(),
            name: owner_name.to_string(),
        }],
        containers: vec![ContainerInfo {
            name: "main".to_string(),
            image: Some(image.to_string()),
            has_liveness_probe: has_liveness,
            has_readiness_probe: has_readiness,
            has_resource_requests: false,
            has_resource_limits: false,
            ports: vec![],
        }],
        container_statuses: vec![ContainerStatusInfo {
            name: "main".to_string(),
            restart_count: 0,
        }],
        phase: Some("Running".to_string()),
    }
}

// ── strip_replicaset_hash ──

#[test]
fn test_strip_hash_normal() {
    assert_eq!(strip_replicaset_hash("web-app-5d4f8b9c7f"), "web-app");
}

#[test]
fn test_strip_hash_multi_dash() {
    assert_eq!(strip_replicaset_hash("my-cool-app-abc123"), "my-cool-app");
}

#[test]
fn test_strip_hash_no_dash() {
    assert_eq!(strip_replicaset_hash("webapp"), "webapp");
}

#[test]
fn test_strip_hash_single_segment() {
    assert_eq!(strip_replicaset_hash("app-hash"), "app");
}

// ── resolve_owner ──

#[test]
fn test_resolve_owner_deployment() {
    let pod = make_pod_with_owner("p", "default", "img:1.0", "Deployment", "web-app", true, true);
    let owner = resolve_owner(&pod);
    assert!(owner.is_some());
    let owner = owner.unwrap();
    assert_eq!(owner.kind, "Deployment");
    assert_eq!(owner.name, "web-app");
    assert_eq!(owner.namespace, "default");
}

#[test]
fn test_resolve_owner_statefulset() {
    let pod = make_pod_with_owner("p", "db", "img:1.0", "StatefulSet", "mysql", true, true);
    let owner = resolve_owner(&pod).unwrap();
    assert_eq!(owner.kind, "StatefulSet");
    assert_eq!(owner.name, "mysql");
}

#[test]
fn test_resolve_owner_daemonset() {
    let pod = make_pod_with_owner("p", "mon", "img:1.0", "DaemonSet", "fluent-bit", true, true);
    let owner = resolve_owner(&pod).unwrap();
    assert_eq!(owner.kind, "DaemonSet");
    assert_eq!(owner.name, "fluent-bit");
}

#[test]
fn test_resolve_owner_replicaset_derives_deployment() {
    let pod = make_pod_with_owner("p", "default", "img:1.0", "ReplicaSet", "web-app-5d4f8b9c7f", true, true);
    let owner = resolve_owner(&pod).unwrap();
    assert_eq!(owner.kind, "Deployment");
    assert_eq!(owner.name, "web-app");
}

#[test]
fn test_resolve_owner_no_owners() {
    let pod = PodInfo {
        name: Some("orphan".to_string()),
        namespace: Some("default".to_string()),
        owner_references: vec![],
        containers: vec![],
        container_statuses: vec![],
        phase: None,
    };
    assert!(resolve_owner(&pod).is_none());
}

#[test]
fn test_resolve_owner_unknown_kind() {
    let pod = make_pod_with_owner("p", "default", "img:1.0", "Job", "batch-job", true, true);
    assert!(resolve_owner(&pod).is_none());
}

// ── is_enforcement_enabled ──

#[test]
fn test_enforcement_enabled_when_enforce() {
    let policy = make_enforce_policy();
    assert!(is_enforcement_enabled(&policy));
}

#[test]
fn test_enforcement_disabled_when_audit() {
    let policy = make_audit_policy();
    assert!(!is_enforcement_enabled(&policy));
}

#[test]
fn test_enforcement_disabled_when_none() {
    let policy = DevOpsPolicySpec {
        enforcement_mode: None,
        forbid_latest_tag: None,
        require_liveness_probe: None,
        require_readiness_probe: None,
        max_restart_count: None,
        forbid_pending_duration: None,
        default_probe: None,
        default_resources: None,
        severity_overrides: None,
    };
    assert!(!is_enforcement_enabled(&policy));
}

// ── is_protected_namespace ──

#[test]
fn test_protected_kube_system() {
    assert!(is_protected_namespace("kube-system"));
}

#[test]
fn test_protected_cert_manager() {
    assert!(is_protected_namespace("cert-manager"));
}

#[test]
fn test_protected_kube_prefix() {
    assert!(is_protected_namespace("kube-flannel"));
}

#[test]
fn test_not_protected_default() {
    assert!(!is_protected_namespace("default"));
}

#[test]
fn test_not_protected_production() {
    assert!(!is_protected_namespace("production"));
}

// ── build_default_probe ──

#[test]
fn test_probe_uses_config_port() {
    let container = container("main", vec![]);
    let config = DefaultProbeConfig {
        tcp_port: Some(3000),
        initial_delay_seconds: Some(10),
        period_seconds: Some(15),
    };
    let probe = build_default_probe(&container, &config);
    assert_eq!(probe.tcp_port, 3000);
    assert_eq!(probe.initial_delay_seconds, 10);
    assert_eq!(probe.period_seconds, 15);
}

#[test]
fn test_probe_uses_container_port() {
    let container = container("main", vec![9090]);
    let config = DefaultProbeConfig {
        tcp_port: None,
        initial_delay_seconds: None,
        period_seconds: None,
    };
    let probe = build_default_probe(&container, &config);
    assert_eq!(probe.tcp_port, 9090);
}

#[test]
fn test_probe_fallback_8080() {
    let container = container("main", vec![]);
    let config = DefaultProbeConfig {
        tcp_port: None,
        initial_delay_seconds: None,
        period_seconds: None,
    };
    let probe = build_default_probe(&container, &config);
    assert_eq!(probe.tcp_port, 8080);
    assert_eq!(probe.initial_delay_seconds, 5);
    assert_eq!(probe.period_seconds, 10);
}

// ── build_default_resources ──

#[test]
fn test_resources_from_config() {
    let config = DefaultResourceConfig {
        cpu_request: Some("200m".to_string()),
        cpu_limit: Some("1".to_string()),
        memory_request: Some("256Mi".to_string()),
        memory_limit: Some("512Mi".to_string()),
    };
    let resources = build_default_resources(&config);
    assert_eq!(resources.cpu_request, "200m");
    assert_eq!(resources.memory_limit, "512Mi");
}

#[test]
fn test_resources_defaults() {
    let config = DefaultResourceConfig {
        cpu_request: None,
        cpu_limit: None,
        memory_request: None,
        memory_limit: None,
    };
    let resources = build_default_resources(&config);
    assert_eq!(resources.cpu_request, "100m");
    assert_eq!(resources.memory_request, "128Mi");
    assert_eq!(resources.cpu_limit, "500m");
    assert_eq!(resources.memory_limit, "256Mi");
}

// ── plan_remediation ──

#[test]
fn test_plan_missing_probes() {
    let pod = make_pod_with_owner("p", "prod", "img:1.0", "ReplicaSet", "web-abc123", false, false);
    let policy = make_enforce_policy();
    let plan = plan_remediation(&pod, &policy);
    assert!(plan.is_some());
    let plan = plan.unwrap();
    assert_eq!(plan.workload.kind, "Deployment");
    assert_eq!(plan.workload.name, "web");
    assert!(plan.actions.iter().any(|a| matches!(a, RemediationAction::InjectLivenessProbe { .. })));
    assert!(plan.actions.iter().any(|a| matches!(a, RemediationAction::InjectReadinessProbe { .. })));
}

#[test]
fn test_plan_missing_resources() {
    let pod = make_pod_with_owner("p", "prod", "img:1.0", "Deployment", "api", true, true);
    let policy = make_enforce_policy();
    let plan = plan_remediation(&pod, &policy);
    assert!(plan.is_some());
    let plan = plan.unwrap();
    assert!(plan.actions.iter().any(|a| matches!(a, RemediationAction::InjectResources { .. })));
}

#[test]
fn test_plan_compliant_pod_returns_none() {
    let mut pod = make_pod_with_owner("p", "prod", "img:1.0", "Deployment", "api", true, true);
    // Add resources so the pod is fully compliant
    pod.containers[0].has_resource_requests = true;
    pod.containers[0].has_resource_limits = true;
    let policy = make_enforce_policy();
    let plan = plan_remediation(&pod, &policy);
    assert!(plan.is_none());
}

#[test]
fn test_plan_audit_mode_returns_none() {
    let pod = make_pod_with_owner("p", "prod", "img:1.0", "Deployment", "api", false, false);
    let policy = make_audit_policy();
    let plan = plan_remediation(&pod, &policy);
    assert!(plan.is_none());
}

#[test]
fn test_plan_protected_namespace_returns_none() {
    let pod = make_pod_with_owner("p", "kube-system", "img:1.0", "DaemonSet", "kube-proxy", false, false);
    let policy = make_enforce_policy();
    let plan = plan_remediation(&pod, &policy);
    assert!(plan.is_none());
}

#[test]
fn test_plan_no_owner_returns_none() {
    let mut pod = make_pod_with_owner("orphan", "prod", "img:1.0", "Deployment", "x", false, false);
    pod.owner_references = vec![];
    let policy = make_enforce_policy();
    let plan = plan_remediation(&pod, &policy);
    assert!(plan.is_none());
}

#[test]
fn test_plan_latest_tag_not_patchable() {
    // Pod only has :latest tag violation (probes present, resources set)
    let mut pod = make_pod_with_owner("p", "prod", "img:latest", "Deployment", "api", true, true);
    pod.containers[0].has_resource_requests = true;
    pod.containers[0].has_resource_limits = true;
    let policy = DevOpsPolicySpec {
        forbid_latest_tag: Some(true),
        require_liveness_probe: Some(true),
        require_readiness_probe: Some(true),
        max_restart_count: None,
        forbid_pending_duration: None,
        enforcement_mode: Some(EnforcementMode::Enforce),
        default_probe: None,
        default_resources: None,
        severity_overrides: None,
    };
    let plan = plan_remediation(&pod, &policy);
    // :latest is not patchable, and probes are present → no remediation plan
    assert!(plan.is_none());
}

// ── build_container_patches ──

#[test]
fn test_patch_includes_annotation() {
    let containers = vec![container("main", vec![])];
    let actions = vec![RemediationAction::InjectLivenessProbe { container_index: 0 }];
    let policy = make_enforce_policy();
    let patch = build_container_patches(&actions, &containers, &policy);
    assert_eq!(PATCHED_BY_ANNOTATION, "devops.stochastic.io/patched-by");
    assert_eq!(patch.patched_by, "kube-devops-operator");
}

#[test]
fn test_patch_includes_liveness_probe() {
    let containers = vec![container("main", vec![])];
    let actions = vec![RemediationAction::InjectLivenessProbe { container_index: 0 }];
    let policy = make_enforce_policy();
    let patch = build_container_patches(&actions, &containers, &policy);
    let container_patch = &patch.containers[0];
    assert!(container_patch.liveness_probe.is_some());
    assert_eq!(container_patch.name, "main");
}

#[test]
fn test_patch_includes_resources() {
    let containers = vec![container("app", vec![])];
    let actions = vec![RemediationAction::InjectResources { container_index: 0 }];
    let policy = make_enforce_policy();
    let patch = build_container_patches(&actions, &containers, &policy);
    let container_patch = &patch.containers[0];
    assert!(container_patch.resources.is_some());
}

#[test]
fn test_patch_multiple_actions() {
    let containers = vec![container("main", vec![])];
    let actions = vec![
        RemediationAction::InjectLivenessProbe { container_index: 0 },
        RemediationAction::InjectReadinessProbe { container_index: 0 },
        RemediationAction::InjectResources { container_index: 0 },
    ];
    let policy = make_enforce_policy();
    let patch = build_container_patches(&actions, &containers, &policy);
    let container_patch = &patch.containers[0];
    assert!(container_patch.liveness_probe.is_some());
    assert!(container_patch.readiness_probe.is_some());
    assert!(container_patch.resources.is_some());
}

// ── WorkloadRef ──

#[test]
fn test_workload_ref_key() {
    let wr = WorkloadRef {
        kind: "Deployment".to_string(),
        name: "web-app".to_string(),
        namespace: "production".to_string(),
    };
    assert_eq!(wr.key(), "deployment/production/web-app");
}

#[test]
fn test_workload_ref_equality() {
    let a = WorkloadRef {
        kind: "Deployment".to_string(),
        name: "app".to_string(),
        namespace: "default".to_string(),
    };
    let b = a.clone();
    assert_eq!(a, b);
}

// ── further cases ──

#[test]
fn test_strip_hash_leading_dash_only() {
    assert_eq!(strip_replicaset_hash("-abc"), "-abc");
    assert_eq!(strip_replicaset_hash(""), "");
    assert_eq!(strip_replicaset_hash("a-"), "a");
}

#[test]
fn test_resolve_owner_first_recognised_wins() {
    let mut pod = make_pod_with_owner("p", "prod", "img:1.0", "Job", "batch", true, true);
    pod.owner_references.push(OwnerReference { kind: "StatefulSet".to_string(), name: "db".to_string() });
    pod.owner_references.push(OwnerReference { kind: "Deployment".to_string(), name: "web".to_string() });
    let owner = resolve_owner(&pod).unwrap();
    assert_eq!(owner.kind, "StatefulSet");
    assert_eq!(owner.name, "db");
    assert_eq!(owner.namespace, "prod");
}

#[test]
fn test_resolve_owner_without_namespace() {
    let mut pod = make_pod_with_owner("p", "prod", "img:1.0", "Deployment", "web", true, true);
    pod.namespace = None;
    assert_eq!(resolve_owner(&pod).unwrap().namespace, "");
}

#[test]
fn test_plan_exact_actions_for_replicaset_pod() {
    let pod = make_pod_with_owner("p", "production", "img:1.0", "ReplicaSet", "web-app-5d4f8b9c7f", false, false);
    let plan = plan_remediation(&pod, &make_enforce_policy()).unwrap();
    assert_eq!(plan.workload.key(), "deployment/production/web-app");
    assert_eq!(
        plan.actions,
        vec![
            RemediationAction::InjectLivenessProbe { container_index: 0 },
            RemediationAction::InjectReadinessProbe { container_index: 0 },
            RemediationAction::InjectResources { container_index: 0 },
        ]
    );
}

#[test]
fn test_plan_indexes_second_container() {
    let mut pod = make_pod_with_owner("p", "prod", "img:1.0", "Deployment", "api", true, true);
    pod.containers[0].has_resource_requests = true;
    let mut second = container("sidecar", vec![]);
    second.has_liveness_probe = true;
    second.has_readiness_probe = true;
    pod.containers.push(second);
    let plan = plan_remediation(&pod, &make_enforce_policy()).unwrap();
    assert_eq!(plan.actions, vec![RemediationAction::InjectResources { container_index: 1 }]);
}

#[test]
fn test_plan_resources_without_policy_defaults() {
    let pod = make_pod_with_owner("p", "prod", "img:1.0", "Deployment", "api", true, true);
    let mut policy = make_enforce_policy();
    policy.default_resources = None;
    let plan = plan_remediation(&pod, &policy).unwrap();
    assert_eq!(plan.actions, vec![RemediationAction::InjectResources { container_index: 0 }]);
    // the injected quantities fall back to the built-in defaults
    let patch = build_container_patches(&plan.actions, &pod.containers, &policy);
    let resources = patch.containers[0].resources.as_ref().unwrap();
    assert_eq!(resources.cpu_request, "100m");
    assert_eq!(resources.cpu_limit, "500m");
    assert_eq!(resources.memory_request, "128Mi");
    assert_eq!(resources.memory_limit, "256Mi");
}

#[test]
fn test_plan_protected_even_without_system_name() {
    let pod = make_pod_with_owner("p", "kube-flannel", "img:1.0", "DaemonSet", "flannel", false, false);
    assert!(plan_remediation(&pod, &make_enforce_policy()).is_none());
    assert!(is_protected_namespace("longhorn-system"));
    assert!(is_protected_namespace("observability"));
    assert!(is_protected_namespace("argocd"));
}

#[test]
fn test_patch_values_follow_policy() {
    let containers = vec![container("main", vec![7000]), container("side", vec![])];
    let actions = vec![
        RemediationAction::InjectReadinessProbe { container_index: 1 },
        RemediationAction::InjectResources { container_index: 0 },
        RemediationAction::InjectLivenessProbe { container_index: 5 },
    ];
    let policy = make_enforce_policy();
    let patch = build_container_patches(&actions, &containers, &policy);
    assert_eq!(patch.containers.len(), 2);
    assert_eq!(patch.containers[0].name, "main");
    assert_eq!(patch.containers[0].liveness_probe, None);
    assert_eq!(patch.containers[0].resources.as_ref().unwrap().memory_request, "128Mi");
    assert_eq!(patch.containers[1].name, "side");
    assert_eq!(
        patch.containers[1].readiness_probe,
        Some(ProbeSpec { tcp_port: 8080, initial_delay_seconds: 5, period_seconds: 10 })
    );
    assert_eq!(patch.containers[1].resources, None);
    assert_eq!(FIELD_MANAGER, "kube-devops-operator");
}

#[test]
fn test_workload_ref_key_lowercases_kind() {
    let wr = WorkloadRef {
        kind: "StatefulSet".to_string(),
        name: "DB".to_string(),
        namespace: "Data".to_string(),
    };
    assert_eq!(wr.key(), "statefulset/Data/DB");
}

#[test]
fn test_two_pods_same_owner_same_key() {
    let a = make_pod_with_owner("web-pod-a", "prod", "img:1.0", "ReplicaSet", "web-app-abc123", false, true);
    let b = make_pod_with_owner("web-pod-b", "prod", "img:1.0", "ReplicaSet", "web-app-abc123", false, true);
    let pa = plan_remediation(&a, &make_enforce_policy()).unwrap();
    let pb = plan_remediation(&b, &make_enforce_policy()).unwrap();
    assert_eq!(pa.workload.key(), pb.workload.key());
    assert_eq!(pa.workload.key(), "deployment/prod/web-app");
}
