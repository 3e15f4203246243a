//! The decisions of one reconcile cycle: which step to take, which plans to
//! apply, the status to write, and which audit results to evict.

use vstd::prelude::*;

use crate::crd::{AuditViolation, DevOpsPolicySpec, DevOpsPolicyStatus, PolicyAuditResultSpec};
use crate::enforcement::{
    no_plan, plan_remediation, planned_actions, resolved_owner, workload_key, RemediationAction,
    RemediationPlan, RemediationResult, WorkloadModel,
};
use crate::governance::{
    classification, classify_health, is_system_namespace, set_violations, system_namespace,
    violation_views, Violation,
};
use crate::pod::{namespace_of, PodInfo};
use crate::text::{push_decimal, push_signed_decimal, decimal, signed_decimal, str_eq};

verus! {

/// The finalizer that guards policy deletion.
pub const FINALIZER: &'static str = "devops.stochastic.io/cleanup";

/// Seconds until the next cycle after a normal cycle.
pub const REQUEUE_SECONDS: u64 = 30;

/// Seconds until the next cycle after a failed cycle.
pub const ERROR_REQUEUE_SECONDS: u64 = 60;

/// Audit results kept per policy.
pub const AUDIT_RETENTION: usize = 10;

/* ============================= STEP ============================= */

/// The list holds the cleanup finalizer.
pub open spec fn holds_finalizer(fs: Seq<String>) -> bool {
    exists|i: int| 0 <= i < fs.len() && (#[trigger] fs[i])@ == FINALIZER@
}

/// Whether the cleanup finalizer is among the policy's finalizers.
pub fn has_finalizer(finalizers: &[String]) -> (r: bool)
    ensures
        r == holds_finalizer(finalizers@),
{
    let mut i: usize = 0;
    while i < finalizers.len()
        invariant
            i <= finalizers@.len(),
            forall|j: int| 0 <= j < i ==> (#[trigger] finalizers@[j])@ != FINALIZER@,
        decreases finalizers@.len() - i,
    {
        if str_eq(finalizers[i].as_str(), FINALIZER) {
            return true;
        }
        i += 1;
    }
    false
}

/// What one reconcile cycle does for a policy.
#[derive(Debug, Clone, Copy, PartialEq, Eq, Structural)]
pub struct ReconcileStep {
    /// Clear the policy's metrics and strip the finalizer; nothing else.
    pub handle_deletion: bool,
    /// Attach the cleanup finalizer.
    pub add_finalizer: bool,
    /// List, evaluate, (enforce,) write status and emit an audit result.
    pub evaluate: bool,
}

/// Decides a cycle: a policy being deleted is only cleaned up; otherwise the
/// finalizer is attached when missing, and the policy is evaluated unless its
/// status already reflects its generation.
pub fn plan_reconcile(
    deleting: bool,
    finalizer_present: bool,
    observed_generation: Option<i64>,
    generation: Option<i64>,
) -> (r: ReconcileStep)
    ensures
        r.handle_deletion == deleting,
        r.add_finalizer == (!deleting && !finalizer_present),
        r.evaluate == (!deleting && observed_generation != generation),
{
    if deleting {
        return ReconcileStep { handle_deletion: true, add_finalizer: false, evaluate: false };
    }
    ReconcileStep {
        handle_deletion: false,
        add_finalizer: !finalizer_present,
        evaluate: observed_generation != generation,
    }
}

/// Seconds until the next cycle: 30 after success, 60 after an error.
pub fn requeue_after_seconds(failed: bool) -> (r: u64)
    ensures
        r == if failed { 60u64 } else { 30u64 },
{
    if failed {
        ERROR_REQUEUE_SECONDS
    } else {
        REQUEUE_SECONDS
    }
}

/* ============================= ENFORCEMENT ============================= */

/// The content of a `RemediationPlan`.
pub struct PlanModel {
    pub workload: WorkloadModel,
    pub actions: Seq<RemediationAction>,
}

impl View for RemediationPlan {
    type V = PlanModel;

    open spec fn view(&self) -> PlanModel {
        PlanModel { workload: self.workload@, actions: self.actions@ }
    }
}

/// The contents of a list of plans.
pub open spec fn plan_views(ps: Seq<RemediationPlan>) -> Seq<PlanModel> {
    ps.map_values(|p: RemediationPlan| p@)
}

/// The plan made for each pod of a list that gets one, in order.
pub open spec fn pod_plans(pods: Seq<PodInfo>, policy: DevOpsPolicySpec) -> Seq<PlanModel>
    decreases pods.len(),
{
    if pods.len() == 0 {
        Seq::empty()
    } else if no_plan(pods.last(), policy) {
        pod_plans(pods.drop_last(), policy)
    } else {
        pod_plans(pods.drop_last(), policy).push(
            PlanModel {
                workload: resolved_owner(pods.last()).unwrap(),
                actions: planned_actions(pods.last().containers@, policy),
            },
        )
    }
}

/// Some plan of the list targets the workload with key `k`.
pub open spec fn has_key(ps: Seq<PlanModel>, k: Seq<char>) -> bool {
    exists|i: int| 0 <= i < ps.len() && workload_key((#[trigger] ps[i]).workload) == k
}

/// The first plan for each workload key, in order.
pub open spec fn first_per_key(ps: Seq<PlanModel>) -> Seq<PlanModel>
    decreases ps.len(),
{
    if ps.len() == 0 {
        Seq::empty()
    } else if has_key(first_per_key(ps.drop_last()), workload_key(ps.last().workload)) {
        first_per_key(ps.drop_last())
    } else {
        first_per_key(ps.drop_last()).push(ps.last())
    }
}

/// The plans one cycle applies: for each pod with a plan, in order, the
/// first plan per workload key. Pods of one workload yield one patch.
pub fn plan_cycle_remediations(pods: &[PodInfo], policy: &DevOpsPolicySpec) -> (r: Vec<
    RemediationPlan,
>)
    ensures
        plan_views(r@) == first_per_key(pod_plans(pods@, *policy)),
{
    let mut out: Vec<RemediationPlan> = Vec::new();
    let mut keys: Vec<String> = Vec::new();
    let mut i: usize = 0;
    while i < pods.len()
        invariant
            i <= pods@.len(),
            plan_views(out@) == first_per_key(pod_plans(pods@.subrange(0, i as int), *policy)),
            keys@.len() == out@.len(),
            forall|j: int| 0 <= j < keys@.len() ==> (#[trigger] keys@[j])@ == workload_key(out@[j].workload@),
        decreases pods@.len() - i,
    {
        let ghost prefix = pods@.subrange(0, i as int);
        proof {
            assert(pods@.subrange(0, i + 1).drop_last() =~= prefix);
            assert(pods@.subrange(0, i + 1).last() == pods@[i as int]);
        }
        let pod = &pods[i];
        let ghost before = plan_views(out@);
        if !is_system_namespace(pod.namespace_or_empty()) {
            match plan_remediation(pod, policy) {
                Some(plan) => {
                    let key = plan.workload.key();
                    let mut seen = false;
                    let mut j: usize = 0;
                    while j < keys.len()
                        invariant
                            j <= keys@.len(),
                            keys@.len() == out@.len(),
                            before == plan_views(out@),
                            forall|q: int| 0 <= q < keys@.len() ==> (#[trigger] keys@[q])@ == workload_key(out@[q].workload@),
                            seen ==> has_key(before, key@),
                            !seen ==> forall|q: int| 0 <= q < j ==> workload_key((#[trigger] before[q]).workload) != key@,
                        decreases keys@.len() - j,
                    {
                        if !seen && str_eq(keys[j].as_str(), key.as_str()) {
                            assert(before[j as int] == out@[j as int]@);
                            seen = true;
                        }
                        j += 1;
                    }
                    proof {
                        if !seen {
                            assert forall|q: int| 0 <= q < before.len() implies workload_key(
                                (#[trigger] before[q]).workload,
                            ) != key@ by {
                                assert(q < j);
                            }
                        }
                    }
                    let ghost pv = plan@;
                    proof {
                        let pp = pod_plans(pods@.subrange(0, i + 1), *policy);
                        assert(!no_plan(pods@[i as int], *policy));
                        assert(pp == pod_plans(prefix, *policy).push(pv));
                        assert(pp.drop_last() =~= pod_plans(prefix, *policy));
                        assert(pp.last() == pv);
                    }
                    if !seen {
                        keys.push(key);
                        out.push(plan);
                        assert(plan_views(out@) =~= before.push(pv));
                    }
                },
                None => {
                    assert(pod_plans(pods@.subrange(0, i + 1), *policy) == pod_plans(prefix, *policy));
                },
            }
        } else {
            proof {
                crate::enforcement::law_protected_namespace_never_planned(*pod, *policy);
                assert(system_namespace(namespace_of(*pod)));
                assert(pod_plans(pods@.subrange(0, i + 1), *policy) == pod_plans(prefix, *policy));
            }
        }
        i += 1;
    }
    assert(pods@.subrange(0, pods@.len() as int) =~= pods@);
    out
}

/* ============================= STATUS ============================= */

/// The status message: `{v} violations across {p} pods — {class} ({score})`.
pub open spec fn status_text(violations: nat, pods: nat, score: nat) -> Seq<char> {
    decimal(violations) + " violations across "@ + decimal(pods) + " pods — "@ + classification(
        score as int,
    ) + " ("@ + decimal(score) + ")"@
}

/// Formats the status message of a cycle.
pub fn status_message(total_violations: u32, total_pods: u32, health_score: u32) -> (r: String)
    ensures
        r@ == status_text(total_violations as nat, total_pods as nat, health_score as nat),
{
    let mut s = String::new();
    push_decimal(&mut s, total_violations as u64);
    s.append(" violations across ");
    push_decimal(&mut s, total_pods as u64);
    s.append(" pods — ");
    s.append(classify_health(health_score));
    s.append(" (");
    push_decimal(&mut s, health_score as u64);
    s.append(")");
    assert(s@ =~= status_text(total_violations as nat, total_pods as nat, health_score as nat));
    s
}

/// How many results succeeded.
pub open spec fn successes(rs: Seq<RemediationResult>) -> nat
    decreases rs.len(),
{
    if rs.len() == 0 {
        0
    } else {
        successes(rs.drop_last()) + if rs.last().success {
            1nat
        } else {
            0nat
        }
    }
}

/// The keys of the workloads that were patched successfully, in order.
pub open spec fn patched_keys(rs: Seq<RemediationResult>) -> Seq<Seq<char>>
    decreases rs.len(),
{
    if rs.len() == 0 {
        Seq::empty()
    } else if rs.last().success {
        patched_keys(rs.drop_last()).push(workload_key(rs.last().workload@))
    } else {
        patched_keys(rs.drop_last())
    }
}

proof fn lemma_successes_bound(rs: Seq<RemediationResult>)
    ensures
        successes(rs) <= rs.len(),
        patched_keys(rs).len() == successes(rs),
    decreases rs.len(),
{
    if rs.len() > 0 {
        lemma_successes_bound(rs.drop_last());
    }
}

/// The contents of a list of strings.
pub open spec fn text_views(vs: Seq<String>) -> Seq<Seq<char>> {
    vs.map_values(|v: String| v@)
}

/// Builds the status written after an evaluation: the observed generation,
/// the score and whether it is at least 80, the violation count, the time,
/// the message, and in enforce mode the remediation counts; the patched
/// workloads when there are any.
pub fn build_status(
    generation: Option<i64>,
    health_score: u32,
    total_violations: u32,
    total_pods: u32,
    last_evaluated: String,
    enforce: bool,
    results: &[RemediationResult],
) -> (r: DevOpsPolicyStatus)
    requires
        results@.len() <= u32::MAX,
    ensures
        r.observed_generation == generation,
        r.healthy == Some(health_score >= 80),
        r.health_score == Some(health_score),
        r.violations == Some(total_violations),
        r.last_evaluated matches Some(t) && t@ == last_evaluated@,
        r.message matches Some(m) && m@ == status_text(
            total_violations as nat,
            total_pods as nat,
            health_score as nat,
        ),
        r.remediations_applied == if enforce {
            Some(successes(results@) as u32)
        } else {
            None
        },
        r.remediations_failed == if enforce {
            Some((results@.len() - successes(results@)) as u32)
        } else {
            None
        },
        match r.remediated_workloads {
            Some(ws) => patched_keys(results@).len() > 0 && text_views(ws@) == patched_keys(results@),
            None => patched_keys(results@).len() == 0,
        },
{
    let mut applied: u32 = 0;
    let mut workloads: Vec<String> = Vec::new();
    let mut i: usize = 0;
    while i < results.len()
        invariant
            results@.len() <= u32::MAX,
            i <= results@.len(),
            applied == successes(results@.subrange(0, i as int)),
            text_views(workloads@) == patched_keys(results@.subrange(0, i as int)),
        decreases results@.len() - i,
    {
        proof {
            assert(results@.subrange(0, i + 1).drop_last() =~= results@.subrange(0, i as int));
            assert(results@.subrange(0, i + 1).last() == results@[i as int]);
            lemma_successes_bound(results@.subrange(0, i as int));
        }
        if results[i].success {
            let ghost prev = workloads@;
            applied = applied + 1;
            workloads.push(results[i].workload.key());
            assert(text_views(workloads@) =~= text_views(prev).push(workloads@.last()@));
        }
        i += 1;
    }
    proof {
        assert(results@.subrange(0, results@.len() as int) =~= results@);
        lemma_successes_bound(results@);
    }
    let failed = (results.len() as u32) - applied;
    let message = status_message(total_violations, total_pods, health_score);
    DevOpsPolicyStatus {
        observed_generation: generation,
        healthy: Some(health_score >= 80),
        health_score: Some(health_score),
        violations: Some(total_violations),
        last_evaluated: Some(last_evaluated),
        message: Some(message),
        remediations_applied: if enforce {
            Some(applied)
        } else {
            None
        },
        remediations_failed: if enforce {
            Some(failed)
        } else {
            None
        },
        remediated_workloads: if workloads.len() == 0 {
            None
        } else {
            Some(workloads)
        },
    }
}

/* ============================= AUDIT ============================= */

/// The object name of an audit result: `{policy}-{millis}`.
pub fn audit_result_name(policy_name: &str, millis: i64) -> (r: String)
    ensures
        r@ == policy_name@ + "-"@ + signed_decimal(millis as int),
{
    let mut s = policy_name.to_owned();
    s.append("-");
    push_signed_decimal(&mut s, millis);
    s
}

/// The audit record of a violation carries its fields.
pub open spec fn audit_matches(a: AuditViolation, v: Violation) -> bool {
    &&& a.pod_name@ == v.pod_name
    &&& a.container_name@ == v.container_name
    &&& a.violation_type@ == v.violation_type
    &&& a.severity == v.severity
    &&& a.message@ == v.message
}

/// Builds the audit record of a cycle from its pods: every violation of
/// the non-system pods, and their number.
pub fn build_audit_result(
    policy_name: &str,
    timestamp: &str,
    health_score: u32,
    total_violations: u32,
    pods: &[PodInfo],
    policy: &DevOpsPolicySpec,
) -> (r: PolicyAuditResultSpec)
    requires
        pods@.len() <= u32::MAX,
    ensures
        r.policy_name@ == policy_name@,
        r.cluster_name is None,
        r.timestamp@ == timestamp@,
        r.health_score == health_score,
        r.total_violations == total_violations,
        r.total_pods == crate::governance::non_system_count(pods@),
        r.classification@ == classification(health_score as int),
        r.violations@.len() == set_violations(pods@, *policy).len(),
        forall|k: int|
            0 <= k < r.violations@.len() ==> audit_matches(
                #[trigger] r.violations@[k],
                set_violations(pods@, *policy)[k],
            ),
{
    let mut violations: Vec<AuditViolation> = Vec::new();
    let mut total_pods: u32 = 0;
    let mut i: usize = 0;
    while i < pods.len()
        invariant
            pods@.len() <= u32::MAX,
            i <= pods@.len(),
            total_pods == crate::governance::non_system_count(pods@.subrange(0, i as int)),
            total_pods <= i,
            violations@.len() == set_violations(pods@.subrange(0, i as int), *policy).len(),
            forall|k: int|
                0 <= k < violations@.len() ==> audit_matches(
                    #[trigger] violations@[k],
                    set_violations(pods@.subrange(0, i as int), *policy)[k],
                ),
        decreases pods@.len() - i,
    {
        proof {
            assert(pods@.subrange(0, i + 1).drop_last() =~= pods@.subrange(0, i as int));
            assert(pods@.subrange(0, i + 1).last() == pods@[i as int]);
        }
        let pod = &pods[i];
        if !is_system_namespace(pod.namespace_or_empty()) {
            total_pods = total_pods + 1;
            let details = crate::governance::detect_violations_detailed(pod, policy);
            let ghost start = violations@.len();
            let ghost before = set_violations(pods@.subrange(0, i as int), *policy);
            let ghost dv = violation_views(details@);
            let mut j: usize = 0;
            while j < details.len()
                invariant
                    j <= details@.len(),
                    dv == violation_views(details@),
                    start == before.len(),
                    violations@.len() == start + j,
                    forall|k: int|
                        0 <= k < violations@.len() ==> audit_matches(
                            #[trigger] violations@[k],
                            (before + dv)[k],
                        ),
                decreases details@.len() - j,
            {
                let d = &details[j];
                violations.push(
                    AuditViolation {
                        pod_name: d.pod_name.clone(),
                        container_name: d.container_name.clone(),
                        violation_type: d.violation_type.clone(),
                        severity: d.severity,
                        message: d.message.clone(),
                    },
                );
                assert(dv[j as int] == details@[j as int]@);
                j += 1;
            }
            assert(set_violations(pods@.subrange(0, i + 1), *policy) =~= before + dv);
        } else {
            assert(set_violations(pods@.subrange(0, i + 1), *policy) == set_violations(
                pods@.subrange(0, i as int),
                *policy,
            ));
        }
        i += 1;
    }
    assert(pods@.subrange(0, pods@.len() as int) =~= pods@);
    PolicyAuditResultSpec {
        policy_name: policy_name.to_owned(),
        cluster_name: None,
        timestamp: timestamp.to_owned(),
        health_score,
        total_violations,
        total_pods,
        classification: classify_health(health_score).to_owned(),
        violations,
    }
}

/// The indices, in order, of the names equal to `policy_name`.
pub open spec fn indices_named(names: Seq<String>, policy_name: Seq<char>) -> Seq<usize>
    decreases names.len(),
{
    if names.len() == 0 {
        Seq::empty()
    } else if names.last()@ == policy_name {
        indices_named(names.drop_last(), policy_name).push((names.len() - 1) as usize)
    } else {
        indices_named(names.drop_last(), policy_name)
    }
}

/// Picks the audit results of one policy, given the policy name of each
/// listed result: their indices, in list order.
pub fn results_of_policy(policy_names: &[String], policy_name: &str) -> (r: Vec<usize>)
    ensures
        r@ == indices_named(policy_names@, policy_name@),
{
    let mut out: Vec<usize> = Vec::new();
    let mut i: usize = 0;
    while i < policy_names.len()
        invariant
            i <= policy_names@.len(),
            out@ == indices_named(policy_names@.subrange(0, i as int), policy_name@),
        decreases policy_names@.len() - i,
    {
        proof {
            assert(policy_names@.subrange(0, i + 1).drop_last() =~= policy_names@.subrange(0, i as int));
            assert(policy_names@.subrange(0, i + 1).last() == policy_names@[i as int]);
        }
        if str_eq(policy_names[i].as_str(), policy_name) {
            out.push(i);
        }
        i += 1;
    }
    assert(policy_names@.subrange(0, policy_names@.len() as int) =~= policy_names@);
    out
}

/* ============================= RETENTION ============================= */

/// Lexicographic order on strings by character code.
pub open spec fn lex_le(a: Seq<char>, b: Seq<char>) -> bool
    decreases a.len(),
{
    if a.len() == 0 {
        true
    } else if b.len() == 0 {
        false
    } else if (a[0] as u32) < (b[0] as u32) {
        true
    } else if (a[0] as u32) > (b[0] as u32) {
        false
    } else {
        lex_le(a.drop_first(), b.drop_first())
    }
}

proof fn lemma_lex_total(a: Seq<char>, b: Seq<char>)
    ensures
        lex_le(a, b) || lex_le(b, a),
    decreases a.len(),
{
    if a.len() > 0 && b.len() > 0 && a[0] as u32 == b[0] as u32 {
        lemma_lex_total(a.drop_first(), b.drop_first());
    }
}

proof fn lemma_lex_trans(a: Seq<char>, b: Seq<char>, c: Seq<char>)
    requires
        lex_le(a, b),
        lex_le(b, c),
    ensures
        lex_le(a, c),
    decreases a.len(),
{
    if a.len() > 0 && b.len() > 0 && c.len() > 0 && a[0] as u32 == b[0] as u32 && b[0] as u32
        == c[0] as u32 {
        lemma_lex_trans(a.drop_first(), b.drop_first(), c.drop_first());
    }
}

fn str_le(a: &str, b: &str) -> (r: bool)
    ensures
        r == lex_le(a@, b@),
{
    let n = a.unicode_len();
    let m = b.unicode_len();
    let mut i: usize = 0;
    assert(a@.subrange(0, n as int) =~= a@);
    assert(b@.subrange(0, m as int) =~= b@);
    while i < n && i < m
        invariant
            n == a@.len(),
            m == b@.len(),
            i <= n,
            i <= m,
            lex_le(a@, b@) == lex_le(a@.subrange(i as int, n as int), b@.subrange(i as int, m as int)),
        decreases n - i,
    {
        let x = a.get_char(i);
        let y = b.get_char(i);
        let ghost sa = a@.subrange(i as int, n as int);
        let ghost sb = b@.subrange(i as int, m as int);
        assert(sa[0] == x && sb[0] == y);
        if (x as u32) < (y as u32) {
            return true;
        }
        if (x as u32) > (y as u32) {
            return false;
        }
        assert(sa.drop_first() =~= a@.subrange(i + 1, n as int));
        assert(sb.drop_first() =~= b@.subrange(i + 1, m as int));
        i += 1;
    }
    let ghost sa = a@.subrange(i as int, n as int);
    let ghost sb = b@.subrange(i as int, m as int);
    if i == n {
        assert(sa.len() == 0);
        true
    } else {
        assert(sb.len() == 0 && sa.len() > 0);
        false
    }
}

/// The contents of a list of timestamps.
pub open spec fn stamp_views(ts: Seq<String>) -> Seq<Seq<char>> {
    ts.map_values(|t: String| t@)
}

/// Position `x` occurs among the first `n` entries of `perm`.
pub open spec fn covers(perm: Seq<usize>, n: int, x: int) -> bool {
    exists|p: int| 0 <= p < n && perm[p] == x
}

/// How many results exceed the retention bound.
pub open spec fn excess(n: int) -> int {
    if n > AUDIT_RETENTION {
        n - AUDIT_RETENTION
    } else {
        0
    }
}

/// Picks the audit results to delete so that at most ten remain: the
/// indices (into `timestamps`) of the oldest results, oldest first. Every
/// deleted result is no newer than every kept one.
pub fn audit_results_to_delete(timestamps: &[String]) -> (r: Vec<usize>)
    ensures
        r@.len() == excess(timestamps@.len() as int),
        forall|i: int| 0 <= i < r@.len() ==> (#[trigger] r@[i]) < timestamps@.len(),
        forall|i: int, j: int| 0 <= i < j < r@.len() ==> r@[i] != r@[j],
        forall|i: int, k: int|
            0 <= i < r@.len() && 0 <= k < timestamps@.len() && !r@.contains(k as usize) ==> #[trigger] lex_le(
                timestamps@[r@[i] as int]@,
                timestamps@[k]@,
            ),
        forall|i: int, j: int| 0 <= i < j < r@.len() ==> lex_le(
            timestamps@[r@[i] as int]@,
            timestamps@[r@[j] as int]@,
        ),
{
    let n = timestamps.len();
    let count: usize = if n > AUDIT_RETENTION {
        n - AUDIT_RETENTION
    } else {
        0
    };
    let ghost ts = timestamps@;
    let mut perm: Vec<usize> = Vec::new();
    let mut k: usize = 0;
    while k < n
        invariant
            n == ts.len(),
            k <= n,
            perm@.len() == k,
            forall|p: int| 0 <= p < k ==> perm@[p] == p,
        decreases n - k,
    {
        perm.push(k);
        k += 1;
    }
    proof {
        assert forall|x: int| 0 <= x < n implies #[trigger] covers(perm@, n as int, x) by {
            assert(perm@[x] == x);
        }
    }
    let mut t: usize = 0;
    while t < count
        invariant
            n == ts.len(),
            ts == timestamps@,
            count <= n,
            t <= count,
            perm@.len() == n,
            forall|p: int| 0 <= p < n ==> (#[trigger] perm@[p]) < n,
            forall|p: int, q: int| 0 <= p < q < n ==> perm@[p] != perm@[q],
            forall|x: int| 0 <= x < n ==> #[trigger] covers(perm@, n as int, x),
            forall|p: int, q: int|
                0 <= p < t && p < q < n ==> lex_le(ts[perm@[p] as int]@, ts[perm@[q] as int]@),
        decreases count - t,
    {
        let mut best: usize = t;
        let mut q: usize = t + 1;
        proof {
            lemma_lex_total(ts[perm@[t as int] as int]@, ts[perm@[t as int] as int]@);
        }
        while q < n
            invariant
                n == ts.len(),
                ts == timestamps@,
                perm@.len() == n,
                forall|p: int| 0 <= p < n ==> (#[trigger] perm@[p]) < n,
                t < n,
                t <= best < n,
                best < q <= n,
                forall|p: int| t <= p < q ==> lex_le(ts[perm@[best as int] as int]@, ts[perm@[p] as int]@),
            decreases n - q,
        {
            let cand = perm[q];
            let cur = perm[best];
            if !str_le(timestamps[cur].as_str(), timestamps[cand].as_str()) {
                proof {
                    lemma_lex_total(ts[cur as int]@, ts[cand as int]@);
                    assert forall|p: int| t <= p < q + 1 implies lex_le(
                        ts[cand as int]@,
                        ts[perm@[p] as int]@,
                    ) by {
                        if p < q {
                            lemma_lex_trans(ts[cand as int]@, ts[cur as int]@, ts[perm@[p] as int]@);
                        }
                        lemma_lex_total(ts[cand as int]@, ts[cand as int]@);
                    }
                }
                best = q;
            } else {
                proof {
                    lemma_lex_total(ts[cur as int]@, ts[cur as int]@);
                }
            }
            q += 1;
        }
        proof {
            lemma_lex_total(ts[perm@[best as int] as int]@, ts[perm@[best as int] as int]@);
        }
        let a = perm[t];
        let b = perm[best];
        let ghost old_perm = perm@;
        perm.set(t, b);
        perm.set(best, a);
        proof {
            assert forall|x: int| 0 <= x < n implies #[trigger] covers(perm@, n as int, x) by {
                assert(covers(old_perm, n as int, x));
                let p0 = choose|p: int| 0 <= p < n && old_perm[p] == x;
                if p0 == t {
                    assert(perm@[best as int] == x);
                } else if p0 == best {
                    assert(perm@[t as int] == x);
                } else {
                    assert(perm@[p0] == x);
                }
            }
            assert forall|p: int, q: int| 0 <= p < q < n implies perm@[p] != perm@[q] by {
                let op = if p == t { best as int } else if p == best { t as int } else { p };
                let oq = if q == t { best as int } else if q == best { t as int } else { q };
                assert(perm@[p] == old_perm[op]);
                assert(perm@[q] == old_perm[oq]);
                assert(op != oq);
            }
            assert forall|p: int, q: int|
                0 <= p < t + 1 && p < q < n implies lex_le(ts[perm@[p] as int]@, ts[perm@[q] as int]@) by {
                if p < t {
                    let oq = if q == t { best as int } else if q == best { t as int } else { q };
                    assert(perm@[q] == old_perm[oq]);
                    assert(p < oq);
                } else {
                    let oq = if q == best { t as int } else { q };
                    assert(perm@[q] == old_perm[oq]);
                    assert(t <= oq < n);
                }
            }
        }
        t += 1;
    }
    let mut out: Vec<usize> = Vec::new();
    let mut i: usize = 0;
    while i < count
        invariant
            n == ts.len(),
            ts == timestamps@,
            count <= n,
            count == excess(n as int),
            i <= count,
            perm@.len() == n,
            out@ == perm@.subrange(0, i as int),
        decreases count - i,
    {
        out.push(perm[i]);
        assert(out@ =~= perm@.subrange(0, i + 1));
        i += 1;
    }
    proof {
        assert forall|j: int, k: int|
            0 <= j < out@.len() && 0 <= k < n && !out@.contains(k as usize) implies #[trigger] lex_le(
            ts[out@[j] as int]@,
            ts[k]@,
        ) by {
            assert(covers(perm@, n as int, k));
            let p = choose|p: int| 0 <= p < n && perm@[p] == k;
            if p < count {
                assert(out@[p] == k as usize);
            }
            assert(p >= count);
        }
    }
    out
}

} // verus!
