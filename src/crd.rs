//! The policy resource, its status, and the audit-result record.

use vstd::prelude::*;

verus! {

/// Severity level of a policy violation.
#[derive(Debug, Clone, Copy, PartialEq, Eq, Structural)]
pub enum Severity {
    Critical,
    High,
    Medium,
    Low,
}

impl Default for Severity {
    fn default() -> (r: Severity)
        ensures
            r == Severity::Medium,
    {
        Severity::Medium
    }
}

/// Per-check severity overrides; an unset entry keeps the check's default.
#[derive(Debug, Clone, Copy, PartialEq, Eq, Structural)]
pub struct SeverityOverrides {
    pub latest_tag: Option<Severity>,
    pub missing_liveness: Option<Severity>,
    pub missing_readiness: Option<Severity>,
    pub high_restarts: Option<Severity>,
    pub pending: Option<Severity>,
}

impl Default for SeverityOverrides {
    fn default() -> (r: SeverityOverrides)
        ensures
            r.latest_tag is None,
            r.missing_liveness is None,
            r.missing_readiness is None,
            r.high_restarts is None,
            r.pending is None,
    {
        SeverityOverrides {
            latest_tag: None,
            missing_liveness: None,
            missing_readiness: None,
            high_restarts: None,
            pending: None,
        }
    }
}

/// A single violation recorded in an audit result.
#[derive(Debug, Clone, PartialEq)]
pub struct AuditViolation {
    pub pod_name: String,
    pub container_name: String,
    pub violation_type: String,
    pub severity: Severity,
    pub message: String,
}

/// Whether a policy only reports (`Audit`) or also patches workloads (`Enforce`).
#[derive(Debug, Clone, Copy, PartialEq, Eq, Structural)]
pub enum EnforcementMode {
    Audit,
    Enforce,
}

/// Probe settings used when a missing probe is injected.
#[derive(Debug, Clone, Copy, PartialEq, Eq, Structural)]
pub struct DefaultProbeConfig {
    /// TCP port to probe; falls back to the container's first port, then 8080.
    pub tcp_port: Option<u16>,
    /// Seconds before the first probe after container start.
    pub initial_delay_seconds: Option<i32>,
    /// Seconds between consecutive probes.
    pub period_seconds: Option<i32>,
}

/// Resource requests and limits used when a container declares none.
#[derive(Debug, Clone, PartialEq)]
pub struct DefaultResourceConfig {
    pub cpu_request: Option<String>,
    pub cpu_limit: Option<String>,
    pub memory_request: Option<String>,
    pub memory_limit: Option<String>,
}

/// The settable checks and remediation settings of a governance policy.
/// An unset check is disabled.
#[derive(Debug, Clone, PartialEq)]
pub struct DevOpsPolicySpec {
    /// Forbid container images tagged `:latest`.
    pub forbid_latest_tag: Option<bool>,
    /// Require a liveness probe on every container.
    pub require_liveness_probe: Option<bool>,
    /// Require a readiness probe on every container.
    pub require_readiness_probe: Option<bool>,
    /// A restart count strictly above this is a violation.
    pub max_restart_count: Option<i32>,
    /// When present, a pod in the Pending phase is a violation; the value is a
    /// grace duration in seconds kept for runtime use.
    pub forbid_pending_duration: Option<u64>,
    pub enforcement_mode: Option<EnforcementMode>,
    pub default_probe: Option<DefaultProbeConfig>,
    pub default_resources: Option<DefaultResourceConfig>,
    pub severity_overrides: Option<SeverityOverrides>,
}

impl Default for DevOpsPolicySpec {
    fn default() -> (r: DevOpsPolicySpec)
        ensures
            r.forbid_latest_tag is None,
            r.require_liveness_probe is None,
            r.require_readiness_probe is None,
            r.max_restart_count is None,
            r.forbid_pending_duration is None,
            r.enforcement_mode is None,
            r.default_probe is None,
            r.default_resources is None,
            r.severity_overrides is None,
    {
        DevOpsPolicySpec {
            forbid_latest_tag: None,
            require_liveness_probe: None,
            require_readiness_probe: None,
            max_restart_count: None,
            forbid_pending_duration: None,
            enforcement_mode: None,
            default_probe: None,
            default_resources: None,
            severity_overrides: None,
        }
    }
}

/// The observed compliance state written back to a policy.
#[derive(Debug, Clone, PartialEq)]
pub struct DevOpsPolicyStatus {
    pub observed_generation: Option<i64>,
    /// Whether the health score is at least 80.
    pub healthy: Option<bool>,
    pub health_score: Option<u32>,
    pub violations: Option<u32>,
    /// ISO 8601 time of the last evaluation.
    pub last_evaluated: Option<String>,
    pub message: Option<String>,
    pub remediations_applied: Option<u32>,
    pub remediations_failed: Option<u32>,
    /// Keys of the workloads that were patched.
    pub remediated_workloads: Option<Vec<String>>,
}

impl Default for DevOpsPolicyStatus {
    fn default() -> (r: DevOpsPolicyStatus)
        ensures
            r.observed_generation is None,
            r.healthy is None,
            r.health_score is None,
            r.violations is None,
            r.last_evaluated is None,
            r.message is None,
            r.remediations_applied is None,
            r.remediations_failed is None,
            r.remediated_workloads is None,
    {
        DevOpsPolicyStatus {
            observed_generation: None,
            healthy: None,
            health_score: None,
            violations: None,
            last_evaluated: None,
            message: None,
            remediations_applied: None,
            remediations_failed: None,
            remediated_workloads: None,
        }
    }
}

/// The outcome of one evaluation cycle, stored as its own record.
#[derive(Debug, Clone, PartialEq)]
pub struct PolicyAuditResultSpec {
    pub policy_name: String,
    pub cluster_name: Option<String>,
    /// ISO 8601 time of the evaluation.
    pub timestamp: String,
    pub health_score: u32,
    pub total_violations: u32,
    pub total_pods: u32,
    pub classification: String,
    pub violations: Vec<AuditViolation>,
}

} // verus!
