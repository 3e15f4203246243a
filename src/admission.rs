//! Admission-time validation of a pod against its namespace's policy.

use vstd::prelude::*;

use crate::crd::{DefaultResourceConfig, DevOpsPolicySpec, Severity};
use crate::governance::{detect_violations_detailed, detailed_violations, is_system_namespace, system_namespace, Violation, violation_views};
use crate::pod::PodInfo;

verus! {

/* ============================= TYPES ============================= */

/// The verdict on a pod: allowed, or denied with the reasons.
#[derive(Debug, Clone)]
pub struct AdmissionVerdict {
    pub allowed: bool,
    pub message: Option<String>,
    pub violations: Vec<String>,
}

/* ============================= POLICY ============================= */

/// The policy with its runtime-only checks (restart count, Pending phase)
/// cleared.
pub open spec fn admission_policy(p: DevOpsPolicySpec) -> DevOpsPolicySpec {
    DevOpsPolicySpec { max_restart_count: None, forbid_pending_duration: None, ..p }
}

fn clone_resources(c: &DefaultResourceConfig) -> (r: DefaultResourceConfig)
    ensures
        r == *c,
{
    DefaultResourceConfig {
        cpu_request: c.cpu_request.clone(),
        cpu_limit: c.cpu_limit.clone(),
        memory_request: c.memory_request.clone(),
        memory_limit: c.memory_limit.clone(),
    }
}

/// A copy of the policy for admission: `max_restart_count` and
/// `forbid_pending_duration` cleared, every other field kept.
pub fn build_admission_policy_for_validation(policy: &DevOpsPolicySpec) -> (r: DevOpsPolicySpec)
    ensures
        r == admission_policy(*policy),
        r.max_restart_count is None,
        r.forbid_pending_duration is None,
        r.forbid_latest_tag == policy.forbid_latest_tag,
        r.require_liveness_probe == policy.require_liveness_probe,
        r.require_readiness_probe == policy.require_readiness_probe,
        r.enforcement_mode == policy.enforcement_mode,
        r.default_probe == policy.default_probe,
        r.default_resources == policy.default_resources,
        r.severity_overrides == policy.severity_overrides,
{
    let resources = match &policy.default_resources {
        Some(c) => Some(clone_resources(c)),
        None => None,
    };
    DevOpsPolicySpec {
        forbid_latest_tag: policy.forbid_latest_tag,
        require_liveness_probe: policy.require_liveness_probe,
        require_readiness_probe: policy.require_readiness_probe,
        max_restart_count: None,
        forbid_pending_duration: None,
        enforcement_mode: policy.enforcement_mode,
        default_probe: policy.default_probe,
        default_resources: resources,
        severity_overrides: policy.severity_overrides,
    }
}

/* ============================= MESSAGES ============================= */

/// The strings of a list, joined with `sep`.
pub open spec fn joined(vs: Seq<Seq<char>>, sep: Seq<char>) -> Seq<char>
    decreases vs.len(),
{
    if vs.len() == 0 {
        Seq::empty()
    } else if vs.len() == 1 {
        vs[0]
    } else {
        joined(vs.drop_last(), sep) + sep + vs.last()
    }
}

/// The contents of a list of strings.
pub open spec fn string_views(vs: Seq<String>) -> Seq<Seq<char>> {
    vs.map_values(|v: String| v@)
}

/// The denial message for a list of reasons.
pub open spec fn denial_message(vs: Seq<Seq<char>>) -> Seq<char> {
    "Denied by DevOpsPolicy: "@ + joined(vs, ", "@)
}

/// Formats the denial message: the prefix, then the reasons joined by `, `.
pub fn format_denial_message(violations: &[String]) -> (r: String)
    ensures
        r@ == denial_message(string_views(violations@)),
{
    let mut s = String::from_str("Denied by DevOpsPolicy: ");
    let ghost vs = string_views(violations@);
    let mut i: usize = 0;
    while i < violations.len()
        invariant
            vs == string_views(violations@),
            i <= violations@.len(),
            s@ == "Denied by DevOpsPolicy: "@ + joined(vs.subrange(0, i as int), ", "@),
        decreases violations@.len() - i,
    {
        proof {
            assert(vs.subrange(0, i + 1).drop_last() =~= vs.subrange(0, i as int));
            assert(vs.subrange(0, i + 1).last() == violations@[i as int]@);
        }
        if i > 0 {
            s.append(", ");
        }
        s.append(violations[i].as_str());
        proof {
            if i == 0 {
                assert(vs.subrange(0, 1) =~= seq![vs[0]]);
            }
        }
        assert(s@ =~= "Denied by DevOpsPolicy: "@ + joined(vs.subrange(0, i + 1), ", "@));
        i += 1;
    }
    assert(vs.subrange(0, violations@.len() as int) =~= vs);
    s
}

/* ============================= SEVERITY ============================= */

/// The rank of a severity: Low 1, Medium 2, High 3, Critical 4.
pub open spec fn rank(s: Severity) -> int {
    match s {
        Severity::Low => 1,
        Severity::Medium => 2,
        Severity::High => 3,
        Severity::Critical => 4,
    }
}

fn severity_rank(severity: &Severity) -> (r: u8)
    ensures
        r == rank(*severity),
{
    match severity {
        Severity::Low => 1,
        Severity::Medium => 2,
        Severity::High => 3,
        Severity::Critical => 4,
    }
}

/// The messages of the violations at or above a rank, in order.
pub open spec fn messages_at_least(vs: Seq<Violation>, min_rank: int) -> Seq<Seq<char>>
    decreases vs.len(),
{
    if vs.len() == 0 {
        Seq::empty()
    } else {
        messages_at_least(vs.drop_last(), min_rank) + if rank(vs.last().severity) >= min_rank {
            seq![vs.last().message]
        } else {
            Seq::empty()
        }
    }
}

/// The denial reasons for a pod: the messages of its admission-time
/// violations whose severity reaches the threshold.
pub open spec fn denial_reasons(pod: PodInfo, policy: DevOpsPolicySpec, min_rank: int) -> Seq<
    Seq<char>,
> {
    messages_at_least(detailed_violations(pod, admission_policy(policy)), min_rank)
}

/// The verdict carries exactly the given reasons: allowed when there are
/// none, denied with the formatted message otherwise.
pub open spec fn verdict_for(v: AdmissionVerdict, reasons: Seq<Seq<char>>) -> bool {
    &&& string_views(v.violations@) == reasons
    &&& v.allowed == (reasons.len() == 0)
    &&& match v.message {
        Some(m) => reasons.len() > 0 && m@ == denial_message(reasons),
        None => reasons.len() == 0,
    }
}

fn verdict_from(pod: &PodInfo, policy: &DevOpsPolicySpec, min_rank: u8) -> (r: AdmissionVerdict)
    ensures
        verdict_for(r, denial_reasons(*pod, *policy, min_rank as int)),
{
    let admission = build_admission_policy_for_validation(policy);
    let details = detect_violations_detailed(pod, &admission);
    let ghost dv = detailed_violations(*pod, admission_policy(*policy));
    let mut reasons: Vec<String> = Vec::new();
    let mut i: usize = 0;
    while i < details.len()
        invariant
            violation_views(details@) == dv,
            i <= details@.len(),
            string_views(reasons@) == messages_at_least(dv.subrange(0, i as int), min_rank as int),
        decreases details@.len() - i,
    {
        let ghost prev = reasons@;
        proof {
            assert(dv.subrange(0, i + 1).drop_last() =~= dv.subrange(0, i as int));
            assert(dv.subrange(0, i + 1).last() == details@[i as int]@);
        }
        if severity_rank(&details[i].severity) >= min_rank {
            reasons.push(details[i].message.clone());
        }
        assert(string_views(reasons@) =~= messages_at_least(dv.subrange(0, i + 1), min_rank as int));
        i += 1;
    }
    assert(dv.subrange(0, details@.len() as int) =~= dv);
    if reasons.len() == 0 {
        AdmissionVerdict { allowed: true, message: None, violations: reasons }
    } else {
        let message = format_denial_message(reasons.as_slice());
        AdmissionVerdict { allowed: false, message: Some(message), violations: reasons }
    }
}

/// Validates a pod at admission: every enabled container check (latest tag,
/// liveness, readiness) that fails is a reason to deny; restart and Pending
/// checks are skipped.
pub fn validate_pod_admission(pod: &PodInfo, policy: &DevOpsPolicySpec) -> (r: AdmissionVerdict)
    ensures
        verdict_for(r, denial_reasons(*pod, *policy, 1)),
{
    verdict_from(pod, policy, 1)
}

/// Validates a pod at admission, denying only for violations whose severity
/// is at least `min_deny_severity`.
pub fn validate_pod_admission_with_severity(
    pod: &PodInfo,
    policy: &DevOpsPolicySpec,
    min_deny_severity: &Severity,
) -> (r: AdmissionVerdict)
    ensures
        verdict_for(r, denial_reasons(*pod, *policy, rank(*min_deny_severity))),
{
    verdict_from(pod, policy, severity_rank(min_deny_severity))
}

/* ============================= ADMISSION REVIEW ============================= */

/// The answer to an admission review.
#[derive(Debug, Clone, PartialEq)]
pub struct AdmissionResponse {
    /// The request's uid, echoed.
    pub uid: String,
    pub allowed: bool,
    /// The denial message, on denial.
    pub message: Option<String>,
}

/// The reasons an admission review is denied for: none in a system
/// namespace, without a policy or without a readable pod; otherwise the
/// reasons at or above the threshold (every reason without one).
pub open spec fn review_reasons(
    namespace: Seq<char>,
    policy: Option<DevOpsPolicySpec>,
    pod: Option<PodInfo>,
    threshold: Option<Severity>,
) -> Seq<Seq<char>> {
    if system_namespace(namespace) {
        Seq::empty()
    } else {
        match (policy, pod) {
            (Some(p), Some(q)) => denial_reasons(
                q,
                p,
                match threshold {
                    Some(t) => rank(t),
                    None => 1,
                },
            ),
            _ => Seq::empty(),
        }
    }
}

/// Answers an admission review for a pod in `namespace`. `policy` is the
/// namespace's policy, if one was found; `pod` is the decoded pod, if the
/// payload could be read. Every failure to evaluate allows the pod.
pub fn review_admission(
    uid: &str,
    namespace: &str,
    policy: Option<&DevOpsPolicySpec>,
    pod: Option<&PodInfo>,
    threshold: Option<Severity>,
) -> (r: AdmissionResponse)
    ensures
        r.uid@ == uid@,
        ({
            let reasons = review_reasons(
                namespace@,
                match policy {
                    Some(p) => Some(*p),
                    None => None,
                },
                match pod {
                    Some(q) => Some(*q),
                    None => None,
                },
                threshold,
            );
            &&& r.allowed == (reasons.len() == 0)
            &&& match r.message {
                Some(m) => reasons.len() > 0 && m@ == denial_message(reasons),
                None => reasons.len() == 0,
            }
        }),
{
    let echoed = uid.to_owned();
    if is_system_namespace(namespace) {
        return AdmissionResponse { uid: echoed, allowed: true, message: None };
    }
    match (policy, pod) {
        (Some(p), Some(q)) => {
            let min_rank = match threshold {
                Some(t) => severity_rank(&t),
                None => 1,
            };
            let verdict = verdict_from(q, p, min_rank);
            AdmissionResponse { uid: echoed, allowed: verdict.allowed, message: verdict.message }
        },
        _ => AdmissionResponse { uid: echoed, allowed: true, message: None },
    }
}

} // verus!
