//! Evaluation across clusters and the pod-weighted aggregate.

use vstd::prelude::*;

use crate::crd::DevOpsPolicySpec;
use crate::governance::{
    all_within_limits, calculate_health_score, classification, classify_health, evaluate_pod_set,
    health_score, set_total, set_violations, violation_views, ViolationDetail,
};
use crate::pod::PodInfo;

verus! {

/// The evaluation of one cluster.
#[derive(Debug, Clone)]
pub struct ClusterEvaluation {
    pub context_name: String,
    pub health_score: u32,
    pub classification: String,
    pub total_pods: u32,
    pub total_violations: u32,
    pub violations: Vec<ViolationDetail>,
}

/// The evaluations of several clusters and their aggregate.
#[derive(Debug, Clone)]
pub struct MultiClusterReport {
    pub clusters: Vec<ClusterEvaluation>,
    pub aggregate_score: u32,
    pub aggregate_classification: String,
}

/// The pods of all clusters.
pub open spec fn sum_pods(cs: Seq<ClusterEvaluation>) -> int
    decreases cs.len(),
{
    if cs.len() == 0 {
        0
    } else {
        sum_pods(cs.drop_last()) + cs.last().total_pods
    }
}

/// The sum of each cluster's score times its pods.
pub open spec fn weighted_sum(cs: Seq<ClusterEvaluation>) -> int
    decreases cs.len(),
{
    if cs.len() == 0 {
        0
    } else {
        weighted_sum(cs.drop_last()) + cs.last().health_score * cs.last().total_pods
    }
}

/// The pod-weighted mean score, floored; 100 when there are no pods.
pub open spec fn aggregate_score_of(cs: Seq<ClusterEvaluation>) -> int {
    if sum_pods(cs) == 0 {
        100
    } else {
        weighted_sum(cs) / sum_pods(cs)
    }
}

/// Every cluster score lies in `0..=100`.
pub open spec fn scores_in_range(cs: Seq<ClusterEvaluation>) -> bool {
    forall|i: int| 0 <= i < cs.len() ==> (#[trigger] cs[i]).health_score <= 100
}

proof fn lemma_sums_bounded(cs: Seq<ClusterEvaluation>)
    requires
        scores_in_range(cs),
    ensures
        0 <= sum_pods(cs),
        0 <= weighted_sum(cs) <= 100 * sum_pods(cs),
    decreases cs.len(),
{
    if cs.len() > 0 {
        lemma_sums_bounded(cs.drop_last());
        let c = cs.last();
        assert(c.health_score <= 100);
        assert(c.health_score * c.total_pods <= 100 * c.total_pods) by (nonlinear_arith)
            requires
                c.health_score <= 100,
                c.total_pods >= 0,
        ;
        assert(0 <= c.health_score * c.total_pods) by (nonlinear_arith)
            requires
                c.health_score >= 0,
                c.total_pods >= 0,
        ;
    }
}

proof fn lemma_weighted_bounded(cs: Seq<ClusterEvaluation>)
    ensures
        0 <= sum_pods(cs),
        0 <= weighted_sum(cs) <= u32::MAX * sum_pods(cs),
    decreases cs.len(),
{
    if cs.len() > 0 {
        lemma_weighted_bounded(cs.drop_last());
        let c = cs.last();
        assert(c.health_score * c.total_pods <= u32::MAX * c.total_pods) by (nonlinear_arith)
            requires
                c.health_score <= u32::MAX,
                c.total_pods >= 0,
        ;
        assert(0 <= c.health_score * c.total_pods) by (nonlinear_arith)
            requires
                c.health_score >= 0,
                c.total_pods >= 0,
        ;
    }
}

proof fn lemma_sums_grow(cs: Seq<ClusterEvaluation>, i: int)
    requires
        0 <= i <= cs.len(),
    ensures
        sum_pods(cs.subrange(0, i)) <= sum_pods(cs),
    decreases cs.len(),
{
    if cs.len() > 0 {
        if i == cs.len() {
            assert(cs.subrange(0, i) =~= cs);
        } else {
            assert(cs.drop_last().subrange(0, i) =~= cs.subrange(0, i));
            lemma_sums_grow(cs.drop_last(), i);
        }
    }
}

/// Combines cluster evaluations: the aggregate score is the pod-weighted
/// mean of the cluster scores, floored, or 100 when there are no pods.
pub fn aggregate_report(evaluations: Vec<ClusterEvaluation>) -> (r: MultiClusterReport)
    requires
        sum_pods(evaluations@) <= u32::MAX,
    ensures
        r.clusters@ == evaluations@,
        r.aggregate_score == aggregate_score_of(evaluations@),
        r.aggregate_classification@ == classification(r.aggregate_score as int),
{
    let ghost cs = evaluations@;
    let mut total: u64 = 0;
    let mut weighted: u64 = 0;
    let mut i: usize = 0;
    while i < evaluations.len()
        invariant
            cs == evaluations@,
            sum_pods(cs) <= u32::MAX,
            i <= cs.len(),
            total == sum_pods(cs.subrange(0, i as int)),
            weighted == weighted_sum(cs.subrange(0, i as int)),
        decreases cs.len() - i,
    {
        proof {
            assert(cs.subrange(0, i + 1).drop_last() =~= cs.subrange(0, i as int));
            assert(cs.subrange(0, i + 1).last() == cs[i as int]);
            lemma_sums_grow(cs, i + 1);
            lemma_weighted_bounded(cs.subrange(0, i + 1));
            let t = sum_pods(cs.subrange(0, i + 1));
            assert(u32::MAX * t <= u32::MAX * u32::MAX) by (nonlinear_arith)
                requires
                    0 <= t <= u32::MAX,
            ;
        }
        let e = &evaluations[i];
        total = total + e.total_pods as u64;
        weighted = weighted + e.health_score as u64 * e.total_pods as u64;
        i += 1;
    }
    assert(cs.subrange(0, cs.len() as int) =~= cs);
    let aggregate_score: u32 = if total == 0 {
        100
    } else {
        proof {
            lemma_weighted_bounded(cs);
            vstd::arithmetic::div_mod::lemma_div_is_ordered(
                weighted as int,
                u32::MAX * total,
                total as int,
            );
            vstd::arithmetic::div_mod::lemma_div_multiples_vanish(u32::MAX as int, total as int);
        }
        (weighted / total) as u32
    };
    let aggregate_classification = classify_health(aggregate_score).to_owned();
    MultiClusterReport { clusters: evaluations, aggregate_score, aggregate_classification }
}

/// Evaluates one cluster's pods under a policy: pods in system namespaces
/// are skipped. `None` exactly when a summed counter, or the number of
/// violations, would not fit in 32 bits.
pub fn evaluate_cluster_pods(
    context_name: &str,
    pods: &[PodInfo],
    policy: &DevOpsPolicySpec,
) -> (r: Option<ClusterEvaluation>)
    requires
        all_within_limits(pods@),
    ensures
        r is Some <==> set_total(pods@, *policy).fits_u32() && set_violations(pods@, *policy).len()
            <= u32::MAX,
        r matches Some(e) ==> {
            &&& e.context_name@ == context_name@
            &&& e.health_score == health_score(set_total(pods@, *policy))
            &&& e.classification@ == classification(e.health_score as int)
            &&& e.total_pods == set_total(pods@, *policy).total_pods
            &&& e.total_violations == set_violations(pods@, *policy).len()
            &&& violation_views(e.violations@) == set_violations(pods@, *policy)
        },
{
    let evaluation = match evaluate_pod_set(pods, policy) {
        Some(e) => e,
        None => return None,
    };
    if evaluation.violations.len() > 4294967295usize {
        return None;
    }
    let health_score = calculate_health_score(&evaluation.metrics);
    Some(
        ClusterEvaluation {
            context_name: context_name.to_owned(),
            health_score,
            classification: classify_health(health_score).to_owned(),
            total_pods: evaluation.metrics.total_pods,
            total_violations: evaluation.violations.len() as u32,
            violations: evaluation.violations,
        },
    )
}

/// The aggregate score is the floor of the pod-weighted mean: it times the
/// pod total is at most the weighted sum, and one more would exceed it. With
/// no pods it is 100. When every cluster score lies in `0..=100`, so does
/// the aggregate.
pub proof fn law_aggregate_is_weighted_mean(cs: Seq<ClusterEvaluation>)
    ensures
        sum_pods(cs) == 0 ==> aggregate_score_of(cs) == 100,
        sum_pods(cs) > 0 ==> aggregate_score_of(cs) * sum_pods(cs) <= weighted_sum(cs) < (
        aggregate_score_of(cs) + 1) * sum_pods(cs),
        scores_in_range(cs) ==> 0 <= aggregate_score_of(cs) <= 100,
{
    lemma_weighted_bounded(cs);
    let t = sum_pods(cs);
    let w = weighted_sum(cs);
    if t > 0 {
        vstd::arithmetic::div_mod::lemma_fundamental_div_mod(w, t);
        vstd::arithmetic::div_mod::lemma_mod_bound(w, t);
        vstd::arithmetic::div_mod::lemma_div_pos_is_pos(w, t);
        assert((w / t) * t <= w < (w / t + 1) * t) by (nonlinear_arith)
            requires
                w == t * (w / t) + w % t,
                0 <= w % t < t,
        ;
        if scores_in_range(cs) {
            lemma_sums_bounded(cs);
            vstd::arithmetic::div_mod::lemma_div_is_ordered(w, 100 * t, t);
            vstd::arithmetic::div_mod::lemma_div_multiples_vanish(100, t);
        }
    }
}

} // verus!
