//! The built-in policy bundles.

use vstd::prelude::*;

use crate::crd::{
    DefaultProbeConfig, DefaultResourceConfig, DevOpsPolicySpec, EnforcementMode, Severity,
    SeverityOverrides,
};
use crate::text::{lower_of, lowercase, str_eq};

verus! {

/// A named policy template.
#[derive(Debug, Clone)]
pub struct PolicyBundle {
    pub name: String,
    pub description: String,
    pub spec: DevOpsPolicySpec,
}

/// An optional string holds the given text.
pub open spec fn holds(q: Option<String>, v: Seq<char>) -> bool {
    q matches Some(s) && s@ == v
}

/// `baseline`: forbid `:latest` and require readiness probes, in audit mode.
pub open spec fn is_baseline(p: DevOpsPolicySpec) -> bool {
    &&& p.forbid_latest_tag == Some(true)
    &&& p.require_liveness_probe is None
    &&& p.require_readiness_probe == Some(true)
    &&& p.max_restart_count is None
    &&& p.forbid_pending_duration is None
    &&& p.enforcement_mode == Some(EnforcementMode::Audit)
    &&& p.default_probe is None
    &&& p.default_resources is None
    &&& p.severity_overrides is None
}

/// `restricted`: every check on with strict thresholds, enforce mode,
/// default probe and resources set, severe overrides.
pub open spec fn is_restricted(p: DevOpsPolicySpec) -> bool {
    &&& p.forbid_latest_tag == Some(true)
    &&& p.require_liveness_probe == Some(true)
    &&& p.require_readiness_probe == Some(true)
    &&& p.max_restart_count == Some(3i32)
    &&& p.forbid_pending_duration == Some(300u64)
    &&& p.enforcement_mode == Some(EnforcementMode::Enforce)
    &&& p.default_probe == Some(
        DefaultProbeConfig {
            tcp_port: None,
            initial_delay_seconds: Some(5i32),
            period_seconds: Some(10i32),
        },
    )
    &&& p.default_resources matches Some(r) && holds(r.cpu_request, "100m"@) && holds(
        r.cpu_limit,
        "500m"@,
    ) && holds(r.memory_request, "128Mi"@) && holds(r.memory_limit, "256Mi"@)
    &&& p.severity_overrides == Some(
        SeverityOverrides {
            latest_tag: Some(Severity::Critical),
            missing_liveness: Some(Severity::High),
            missing_readiness: Some(Severity::High),
            high_restarts: Some(Severity::Critical),
            pending: Some(Severity::High),
        },
    )
}

/// `permissive`: every check on with lenient thresholds, audit mode, mild
/// overrides.
pub open spec fn is_permissive(p: DevOpsPolicySpec) -> bool {
    &&& p.forbid_latest_tag == Some(true)
    &&& p.require_liveness_probe == Some(true)
    &&& p.require_readiness_probe == Some(true)
    &&& p.max_restart_count == Some(10i32)
    &&& p.forbid_pending_duration == Some(600u64)
    &&& p.enforcement_mode == Some(EnforcementMode::Audit)
    &&& p.default_probe is None
    &&& p.default_resources is None
    &&& p.severity_overrides == Some(
        SeverityOverrides {
            latest_tag: Some(Severity::Low),
            missing_liveness: Some(Severity::Low),
            missing_readiness: Some(Severity::Low),
            high_restarts: Some(Severity::Medium),
            pending: Some(Severity::Low),
        },
    )
}

/// The bundle is the built-in bundle with the given name.
pub open spec fn is_bundle_named(b: PolicyBundle, name: Seq<char>) -> bool {
    &&& b.name@ == name
    &&& (name == "baseline"@ ==> is_baseline(b.spec))
    &&& (name == "restricted"@ ==> is_restricted(b.spec))
    &&& (name == "permissive"@ ==> is_permissive(b.spec))
}

/// A name of a built-in bundle.
pub open spec fn bundle_name(name: Seq<char>) -> bool {
    name == "baseline"@ || name == "restricted"@ || name == "permissive"@
}

fn baseline_bundle() -> (r: PolicyBundle)
    ensures
        r.name@ == "baseline"@,
        is_baseline(r.spec),
{
    PolicyBundle {
        name: String::from_str("baseline"),
        description: String::from_str(
            "Forbid :latest tags and require readiness probes. Audit mode.",
        ),
        spec: DevOpsPolicySpec {
            forbid_latest_tag: Some(true),
            require_liveness_probe: None,
            require_readiness_probe: Some(true),
            max_restart_count: None,
            forbid_pending_duration: None,
            enforcement_mode: Some(EnforcementMode::Audit),
            default_probe: None,
            default_resources: None,
            severity_overrides: None,
        },
    }
}

fn restricted_bundle() -> (r: PolicyBundle)
    ensures
        r.name@ == "restricted"@,
        is_restricted(r.spec),
{
    PolicyBundle {
        name: String::from_str("restricted"),
        description: String::from_str("All checks enabled with strict thresholds. Enforce mode."),
        spec: DevOpsPolicySpec {
            forbid_latest_tag: Some(true),
            require_liveness_probe: Some(true),
            require_readiness_probe: Some(true),
            max_restart_count: Some(3),
            forbid_pending_duration: Some(300),
            enforcement_mode: Some(EnforcementMode::Enforce),
            default_probe: Some(
                DefaultProbeConfig {
                    tcp_port: None,
                    initial_delay_seconds: Some(5),
                    period_seconds: Some(10),
                },
            ),
            default_resources: Some(
                DefaultResourceConfig {
                    cpu_request: Some(String::from_str("100m")),
                    cpu_limit: Some(String::from_str("500m")),
                    memory_request: Some(String::from_str("128Mi")),
                    memory_limit: Some(String::from_str("256Mi")),
                },
            ),
            severity_overrides: Some(
                SeverityOverrides {
                    latest_tag: Some(Severity::Critical),
                    missing_liveness: Some(Severity::High),
                    missing_readiness: Some(Severity::High),
                    high_restarts: Some(Severity::Critical),
                    pending: Some(Severity::High),
                },
            ),
        },
    }
}

fn permissive_bundle() -> (r: PolicyBundle)
    ensures
        r.name@ == "permissive"@,
        is_permissive(r.spec),
{
    PolicyBundle {
        name: String::from_str("permissive"),
        description: String::from_str("All checks enabled with lenient thresholds. Audit mode."),
        spec: DevOpsPolicySpec {
            forbid_latest_tag: Some(true),
            require_liveness_probe: Some(true),
            require_readiness_probe: Some(true),
            max_restart_count: Some(10),
            forbid_pending_duration: Some(600),
            enforcement_mode: Some(EnforcementMode::Audit),
            default_probe: None,
            default_resources: None,
            severity_overrides: Some(
                SeverityOverrides {
                    latest_tag: Some(Severity::Low),
                    missing_liveness: Some(Severity::Low),
                    missing_readiness: Some(Severity::Low),
                    high_restarts: Some(Severity::Medium),
                    pending: Some(Severity::Low),
                },
            ),
        },
    }
}

proof fn lemma_bundle_names_distinct()
    ensures
        "baseline"@ != "restricted"@,
        "baseline"@ != "permissive"@,
        "restricted"@ != "permissive"@,
{
    reveal_strlit("baseline");
    reveal_strlit("restricted");
    reveal_strlit("permissive");
    assert("baseline"@.len() != "restricted"@.len());
    assert("baseline"@.len() != "permissive"@.len());
    assert("restricted"@[0] != "permissive"@[0]);
}

/// The built-in bundles: baseline, restricted, permissive.
pub fn all_bundles() -> (r: Vec<PolicyBundle>)
    ensures
        r@.len() == 3,
        is_bundle_named(r@[0], "baseline"@),
        is_bundle_named(r@[1], "restricted"@),
        is_bundle_named(r@[2], "permissive"@),
{
    proof {
        lemma_bundle_names_distinct();
    }
    vec![baseline_bundle(), restricted_bundle(), permissive_bundle()]
}

/// Looks a bundle up by name, ignoring case.
pub fn get_bundle(name: &str) -> (r: Option<PolicyBundle>)
    ensures
        r is Some <==> bundle_name(lower_of(name@)),
        r matches Some(b) ==> is_bundle_named(b, lower_of(name@)),
{
    proof {
        lemma_bundle_names_distinct();
    }
    let lower = lowercase(name);
    let mut bundles = all_bundles();
    let ghost all = bundles@;
    let mut i: usize = 0;
    while i < bundles.len()
        invariant
            bundles@ == all,
            lower@ == lower_of(name@),
            all.len() == 3,
            is_bundle_named(all[0], "baseline"@),
            is_bundle_named(all[1], "restricted"@),
            is_bundle_named(all[2], "permissive"@),
            i <= 3,
            forall|j: int| 0 <= j < i ==> all[j].name@ != lower@,
        decreases 3 - i,
    {
        if str_eq(bundles[i].name.as_str(), lower.as_str()) {
            let b = bundles.remove(i);
            assert(b == all[i as int]);
            proof {
                assert(b.name@ == lower@);
                if i == 0 {
                    assert(is_bundle_named(b, "baseline"@));
                } else if i == 1 {
                    assert(is_bundle_named(b, "restricted"@));
                } else {
                    assert(is_bundle_named(b, "permissive"@));
                }
            }
            return Some(b);
        }
        i += 1;
    }
    None
}

} // verus!
