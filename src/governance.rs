//! Pod evaluation against a policy: counters, detailed violations, scoring
//! and classification.

use vstd::prelude::*;

use crate::crd::{DevOpsPolicySpec, Severity, SeverityOverrides};
use crate::pod::{namespace_of, pod_within_limits, ContainerInfo, ContainerStatusInfo, PodInfo};
use crate::text::{
    ends_with, has_prefix, has_suffix, push_signed_decimal, signed_decimal, starts_with, str_eq,
};

verus! {

/* ============================= WEIGHTS ============================= */

/// Base penalty per occurrence of each check.
pub struct ScoringWeights {
    pub latest_tag: u32,
    pub missing_liveness: u32,
    pub missing_readiness: u32,
    pub high_restarts: u32,
    pub pending: u32,
}

impl Default for ScoringWeights {
    fn default() -> (r: ScoringWeights)
        ensures
            r.latest_tag == 5,
            r.missing_liveness == 3,
            r.missing_readiness == 2,
            r.high_restarts == 6,
            r.pending == 4,
    {
        ScoringWeights {
            latest_tag: 5,
            missing_liveness: 3,
            missing_readiness: 2,
            high_restarts: 6,
            pending: 4,
        }
    }
}

/* ============================= METRICS ============================= */

/// Additive counters of pods and of check failures.
#[derive(Debug, Clone, Copy, PartialEq, Eq, Structural)]
pub struct PodMetrics {
    pub total_pods: u32,
    pub latest_tag: u32,
    pub missing_liveness: u32,
    pub missing_readiness: u32,
    pub high_restarts: u32,
    pub pending: u32,
}

/// The counters of a `PodMetrics` as mathematical integers.
pub struct MetricsModel {
    pub total_pods: int,
    pub latest_tag: int,
    pub missing_liveness: int,
    pub missing_readiness: int,
    pub high_restarts: int,
    pub pending: int,
}

impl MetricsModel {
    pub open spec fn zero() -> MetricsModel {
        MetricsModel {
            total_pods: 0,
            latest_tag: 0,
            missing_liveness: 0,
            missing_readiness: 0,
            high_restarts: 0,
            pending: 0,
        }
    }

    /// Field-wise sum.
    pub open spec fn plus(self, o: MetricsModel) -> MetricsModel {
        MetricsModel {
            total_pods: self.total_pods + o.total_pods,
            latest_tag: self.latest_tag + o.latest_tag,
            missing_liveness: self.missing_liveness + o.missing_liveness,
            missing_readiness: self.missing_readiness + o.missing_readiness,
            high_restarts: self.high_restarts + o.high_restarts,
            pending: self.pending + o.pending,
        }
    }

    /// Field-wise difference, floored at zero.
    pub open spec fn minus_saturating(self, o: MetricsModel) -> MetricsModel {
        MetricsModel {
            total_pods: sat_sub(self.total_pods, o.total_pods),
            latest_tag: sat_sub(self.latest_tag, o.latest_tag),
            missing_liveness: sat_sub(self.missing_liveness, o.missing_liveness),
            missing_readiness: sat_sub(self.missing_readiness, o.missing_readiness),
            high_restarts: sat_sub(self.high_restarts, o.high_restarts),
            pending: sat_sub(self.pending, o.pending),
        }
    }

    /// Every counter is at least zero.
    pub open spec fn nonneg(self) -> bool {
        &&& self.total_pods >= 0
        &&& self.latest_tag >= 0
        &&& self.missing_liveness >= 0
        &&& self.missing_readiness >= 0
        &&& self.high_restarts >= 0
        &&& self.pending >= 0
    }

    /// Every counter fits in a `u32`.
    pub open spec fn fits_u32(self) -> bool {
        &&& self.nonneg()
        &&& self.total_pods <= u32::MAX
        &&& self.latest_tag <= u32::MAX
        &&& self.missing_liveness <= u32::MAX
        &&& self.missing_readiness <= u32::MAX
        &&& self.high_restarts <= u32::MAX
        &&& self.pending <= u32::MAX
    }

    /// All violation counters are zero.
    pub open spec fn no_violations(self) -> bool {
        &&& self.latest_tag == 0
        &&& self.missing_liveness == 0
        &&& self.missing_readiness == 0
        &&& self.high_restarts == 0
        &&& self.pending == 0
    }
}

pub open spec fn sat_sub(a: int, b: int) -> int {
    if a >= b {
        a - b
    } else {
        0
    }
}

impl View for PodMetrics {
    type V = MetricsModel;

    open spec fn view(&self) -> MetricsModel {
        MetricsModel {
            total_pods: self.total_pods as int,
            latest_tag: self.latest_tag as int,
            missing_liveness: self.missing_liveness as int,
            missing_readiness: self.missing_readiness as int,
            high_restarts: self.high_restarts as int,
            pending: self.pending as int,
        }
    }
}

impl Default for PodMetrics {
    fn default() -> (r: PodMetrics)
        ensures
            r@ == MetricsModel::zero(),
    {
        PodMetrics {
            total_pods: 0,
            latest_tag: 0,
            missing_liveness: 0,
            missing_readiness: 0,
            high_restarts: 0,
            pending: 0,
        }
    }
}

/// Adds the counters of `pod` into `cluster`.
pub fn add_metrics(cluster: &mut PodMetrics, pod: &PodMetrics)
    requires
        old(cluster)@.plus(pod@).fits_u32(),
    ensures
        final(cluster)@ == old(cluster)@.plus(pod@),
{
    cluster.total_pods = cluster.total_pods + pod.total_pods;
    cluster.latest_tag = cluster.latest_tag + pod.latest_tag;
    cluster.missing_liveness = cluster.missing_liveness + pod.missing_liveness;
    cluster.missing_readiness = cluster.missing_readiness + pod.missing_readiness;
    cluster.high_restarts = cluster.high_restarts + pod.high_restarts;
    cluster.pending = cluster.pending + pod.pending;
}

/// Subtracts the counters of `pod` from `cluster`, never going below zero.
pub fn subtract_metrics(cluster: &mut PodMetrics, pod: &PodMetrics)
    ensures
        final(cluster)@ == old(cluster)@.minus_saturating(pod@),
{
    cluster.total_pods = cluster.total_pods.saturating_sub(pod.total_pods);
    cluster.latest_tag = cluster.latest_tag.saturating_sub(pod.latest_tag);
    cluster.missing_liveness = cluster.missing_liveness.saturating_sub(pod.missing_liveness);
    cluster.missing_readiness = cluster.missing_readiness.saturating_sub(pod.missing_readiness);
    cluster.high_restarts = cluster.high_restarts.saturating_sub(pod.high_restarts);
    cluster.pending = cluster.pending.saturating_sub(pod.pending);
}

/* ============================= CHECKS ============================= */

/// The closed set of checks a policy can enable.
#[derive(Debug, Clone, Copy, PartialEq, Eq, Structural)]
pub enum ViolationKind {
    LatestTag,
    MissingLiveness,
    MissingReadiness,
    HighRestarts,
    Pending,
}

/// The label of a check kind.
pub open spec fn kind_name(k: ViolationKind) -> Seq<char> {
    match k {
        ViolationKind::LatestTag => "latest_tag"@,
        ViolationKind::MissingLiveness => "missing_liveness"@,
        ViolationKind::MissingReadiness => "missing_readiness"@,
        ViolationKind::HighRestarts => "high_restarts"@,
        ViolationKind::Pending => "pending"@,
    }
}

/// The check kind with the given label, if any.
pub open spec fn kind_of_name(t: Seq<char>) -> Option<ViolationKind> {
    if t == "latest_tag"@ {
        Some(ViolationKind::LatestTag)
    } else if t == "missing_liveness"@ {
        Some(ViolationKind::MissingLiveness)
    } else if t == "missing_readiness"@ {
        Some(ViolationKind::MissingReadiness)
    } else if t == "high_restarts"@ {
        Some(ViolationKind::HighRestarts)
    } else if t == "pending"@ {
        Some(ViolationKind::Pending)
    } else {
        None
    }
}

impl ViolationKind {
    /// The label of this check kind.
    pub fn name(&self) -> (r: &'static str)
        ensures
            r@ == kind_name(*self),
    {
        match self {
            ViolationKind::LatestTag => "latest_tag",
            ViolationKind::MissingLiveness => "missing_liveness",
            ViolationKind::MissingReadiness => "missing_readiness",
            ViolationKind::HighRestarts => "high_restarts",
            ViolationKind::Pending => "pending",
        }
    }

    /// The check kind with the given label, if any.
    pub fn from_name(t: &str) -> (r: Option<ViolationKind>)
        ensures
            r == kind_of_name(t@),
    {
        if str_eq(t, "latest_tag") {
            Some(ViolationKind::LatestTag)
        } else if str_eq(t, "missing_liveness") {
            Some(ViolationKind::MissingLiveness)
        } else if str_eq(t, "missing_readiness") {
            Some(ViolationKind::MissingReadiness)
        } else if str_eq(t, "high_restarts") {
            Some(ViolationKind::HighRestarts)
        } else if str_eq(t, "pending") {
            Some(ViolationKind::Pending)
        } else {
            None
        }
    }
}

/// A boolean policy switch is on only when set to `true`.
pub open spec fn enabled(flag: Option<bool>) -> bool {
    flag == Some(true)
}

/// The container's image ends in `:latest`.
pub open spec fn is_latest_image(c: ContainerInfo) -> bool {
    match c.image {
        Some(img) => has_suffix(img@, ":latest"@),
        None => false,
    }
}

/// The container fails a per-container check of the given kind.
pub open spec fn container_fails(c: ContainerInfo, k: ViolationKind) -> bool {
    match k {
        ViolationKind::LatestTag => is_latest_image(c),
        ViolationKind::MissingLiveness => !c.has_liveness_probe,
        ViolationKind::MissingReadiness => !c.has_readiness_probe,
        _ => false,
    }
}

/// How many containers fail a check.
pub open spec fn count_failing(cs: Seq<ContainerInfo>, k: ViolationKind) -> nat
    decreases cs.len(),
{
    if cs.len() == 0 {
        0
    } else {
        count_failing(cs.drop_last(), k) + if container_fails(cs.last(), k) {
            1nat
        } else {
            0nat
        }
    }
}

/// The restart points of one container: its restart count clamped to `0..=5`.
pub open spec fn restart_points(rc: i32) -> nat {
    if rc <= 0 {
        0
    } else if rc >= 5 {
        5
    } else {
        rc as nat
    }
}

/// Restart points of the containers whose restart count exceeds `threshold`.
pub open spec fn restart_sum(ss: Seq<ContainerStatusInfo>, threshold: int) -> nat
    decreases ss.len(),
{
    if ss.len() == 0 {
        0
    } else {
        restart_sum(ss.drop_last(), threshold) + if ss.last().restart_count > threshold {
            restart_points(ss.last().restart_count)
        } else {
            0nat
        }
    }
}

/// The pod reports the Pending phase.
pub open spec fn is_pending(pod: PodInfo) -> bool {
    match pod.phase {
        Some(p) => p@ == "Pending"@,
        None => false,
    }
}

/// The counters one pod contributes, given which checks are on.
pub open spec fn contribution(
    pod: PodInfo,
    latest: bool,
    liveness: bool,
    readiness: bool,
    threshold: Option<i32>,
    pending: bool,
) -> MetricsModel {
    MetricsModel {
        total_pods: 1,
        latest_tag: if latest {
            count_failing(pod.containers@, ViolationKind::LatestTag) as int
        } else {
            0
        },
        missing_liveness: if liveness {
            count_failing(pod.containers@, ViolationKind::MissingLiveness) as int
        } else {
            0
        },
        missing_readiness: if readiness {
            count_failing(pod.containers@, ViolationKind::MissingReadiness) as int
        } else {
            0
        },
        high_restarts: match threshold {
            Some(t) => restart_sum(pod.container_statuses@, t as int) as int,
            None => 0,
        },
        pending: if pending && is_pending(pod) {
            1
        } else {
            0
        },
    }
}

/// The counters one pod contributes under a policy.
pub open spec fn policy_contribution(pod: PodInfo, policy: DevOpsPolicySpec) -> MetricsModel {
    contribution(
        pod,
        enabled(policy.forbid_latest_tag),
        enabled(policy.require_liveness_probe),
        enabled(policy.require_readiness_probe),
        policy.max_restart_count,
        policy.forbid_pending_duration is Some,
    )
}

/// The counters one pod contributes under the built-in checks: every check
/// on, with a restart threshold of 3.
pub open spec fn builtin_contribution(pod: PodInfo) -> MetricsModel {
    contribution(pod, true, true, true, Some(3i32), true)
}

proof fn lemma_count_failing_bound(cs: Seq<ContainerInfo>, k: ViolationKind)
    ensures
        count_failing(cs, k) <= cs.len(),
    decreases cs.len(),
{
    if cs.len() > 0 {
        lemma_count_failing_bound(cs.drop_last(), k);
    }
}

proof fn lemma_restart_sum_bound(ss: Seq<ContainerStatusInfo>, t: int)
    ensures
        restart_sum(ss, t) <= 5 * ss.len(),
    decreases ss.len(),
{
    if ss.len() > 0 {
        lemma_restart_sum_bound(ss.drop_last(), t);
    }
}

fn image_is_latest(c: &ContainerInfo) -> (r: bool)
    ensures
        r == is_latest_image(*c),
{
    match &c.image {
        Some(img) => ends_with(img.as_str(), ":latest"),
        None => false,
    }
}

fn pod_is_pending(pod: &PodInfo) -> (r: bool)
    ensures
        r == is_pending(*pod),
{
    match &pod.phase {
        Some(p) => str_eq(p.as_str(), "Pending"),
        None => false,
    }
}

fn restart_points_of(rc: i32) -> (r: u32)
    ensures
        r == restart_points(rc),
{
    if rc <= 0 {
        0
    } else if rc >= 5 {
        5
    } else {
        rc as u32
    }
}

fn count_contribution(
    pod: &PodInfo,
    latest: bool,
    liveness: bool,
    readiness: bool,
    threshold: Option<i32>,
    pending: bool,
) -> (m: PodMetrics)
    requires
        pod_within_limits(*pod),
    ensures
        m@ == contribution(*pod, latest, liveness, readiness, threshold, pending),
{
    let mut m = PodMetrics {
        total_pods: 1,
        latest_tag: 0,
        missing_liveness: 0,
        missing_readiness: 0,
        high_restarts: 0,
        pending: 0,
    };
    let ghost cs = pod.containers@;
    let n = pod.containers.len();
    let mut i: usize = 0;
    while i < n
        invariant
            cs == pod.containers@,
            n == cs.len(),
            n <= u32::MAX,
            i <= n,
            m.total_pods == 1,
            m.high_restarts == 0,
            m.pending == 0,
            m.latest_tag == (if latest { count_failing(cs.subrange(0, i as int), ViolationKind::LatestTag) } else { 0 }),
            m.missing_liveness == (if liveness { count_failing(cs.subrange(0, i as int), ViolationKind::MissingLiveness) } else { 0 }),
            m.missing_readiness == (if readiness { count_failing(cs.subrange(0, i as int), ViolationKind::MissingReadiness) } else { 0 }),
        decreases n - i,
    {
        let c = &pod.containers[i];
        proof {
            assert(cs.subrange(0, i + 1).drop_last() =~= cs.subrange(0, i as int));
            assert(cs.subrange(0, i + 1).last() == cs[i as int]);
            lemma_count_failing_bound(cs.subrange(0, i as int), ViolationKind::LatestTag);
            lemma_count_failing_bound(cs.subrange(0, i as int), ViolationKind::MissingLiveness);
            lemma_count_failing_bound(cs.subrange(0, i as int), ViolationKind::MissingReadiness);
        }
        if latest && image_is_latest(c) {
            m.latest_tag = m.latest_tag + 1;
        }
        if liveness && !c.has_liveness_probe {
            m.missing_liveness = m.missing_liveness + 1;
        }
        if readiness && !c.has_readiness_probe {
            m.missing_readiness = m.missing_readiness + 1;
        }
        i += 1;
    }
    assert(cs.subrange(0, n as int) =~= cs);
    if let Some(t) = threshold {
        let ghost ss = pod.container_statuses@;
        let k = pod.container_statuses.len();
        let ghost before = m;
        let mut j: usize = 0;
        while j < k
            invariant
                ss == pod.container_statuses@,
                m.total_pods == before.total_pods,
                m.latest_tag == before.latest_tag,
                m.missing_liveness == before.missing_liveness,
                m.missing_readiness == before.missing_readiness,
                m.pending == before.pending,
                k == ss.len(),
                5 * k <= u32::MAX,
                j <= k,
                m.high_restarts == restart_sum(ss.subrange(0, j as int), t as int),
            decreases k - j,
        {
            let s = &pod.container_statuses[j];
            proof {
                assert(ss.subrange(0, j + 1).drop_last() =~= ss.subrange(0, j as int));
                assert(ss.subrange(0, j + 1).last() == ss[j as int]);
                lemma_restart_sum_bound(ss.subrange(0, j as int), t as int);
            }
            if s.restart_count > t {
                m.high_restarts = m.high_restarts + restart_points_of(s.restart_count);
            }
            j += 1;
        }
        assert(ss.subrange(0, k as int) =~= ss);
    }
    if pending && pod_is_pending(pod) {
        m.pending = 1;
    }
    m
}

/// The counters a pod contributes under the built-in checks.
pub fn evaluate_pod(pod: &PodInfo) -> (m: PodMetrics)
    requires
        pod_within_limits(*pod),
    ensures
        m@ == builtin_contribution(*pod),
{
    count_contribution(pod, true, true, true, Some(3), true)
}

/// The counters a pod contributes under a policy: only enabled checks count.
pub fn evaluate_pod_with_policy(pod: &PodInfo, policy: &DevOpsPolicySpec) -> (m: PodMetrics)
    requires
        pod_within_limits(*pod),
    ensures
        m@ == policy_contribution(*pod, *policy),
{
    let latest = matches!(policy.forbid_latest_tag, Some(true));
    let liveness = matches!(policy.require_liveness_probe, Some(true));
    let readiness = matches!(policy.require_readiness_probe, Some(true));
    let pending = policy.forbid_pending_duration.is_some();
    count_contribution(pod, latest, liveness, readiness, policy.max_restart_count, pending)
}

/* ============================= NAMESPACE FILTER ============================= */

/// Namespaces that belong to the platform rather than to workloads.
pub open spec fn system_namespace(ns: Seq<char>) -> bool {
    ||| has_prefix(ns, "kube-"@)
    ||| has_suffix(ns, "-system"@)
    ||| ns == "cert-manager"@
    ||| ns == "istio-system"@
    ||| ns == "monitoring"@
    ||| ns == "observability"@
    ||| ns == "argocd"@
}

/// Whether a namespace is a system namespace, whose pods are not evaluated.
pub fn is_system_namespace(ns: &str) -> (r: bool)
    ensures
        r == system_namespace(ns@),
{
    starts_with(ns, "kube-") || ends_with(ns, "-system") || str_eq(ns, "cert-manager") || str_eq(
        ns,
        "istio-system",
    ) || str_eq(ns, "monitoring") || str_eq(ns, "observability") || str_eq(ns, "argocd")
}

/* ============================= SCORING ============================= */

/// The weighted penalty of a set of counters, with a multiplier per check.
pub open spec fn penalty(
    m: MetricsModel,
    lt: int,
    lv: int,
    rd: int,
    hr: int,
    pd: int,
) -> int {
    m.latest_tag * 5 * lt + m.missing_liveness * 3 * lv + m.missing_readiness * 2 * rd
        + m.high_restarts * 6 * hr + m.pending * 4 * pd
}

/// The score for a total penalty spread over `total` pods.
pub open spec fn score_of(raw: int, total: int) -> int {
    if total == 0 {
        100
    } else if raw / total >= 100 {
        0
    } else {
        100 - raw / total
    }
}

/// The plain health score of a set of counters.
pub open spec fn health_score(m: MetricsModel) -> int {
    score_of(penalty(m, 1, 1, 1, 1, 1), m.total_pods)
}

fn weighted(count: u32, weight: u64, mult: u64) -> (r: u64)
    requires
        weight <= 6,
        mult <= 3,
    ensures
        r == count * weight * mult,
        r <= 18 * u32::MAX,
{
    proof {
        assert(count * weight <= u32::MAX * 6) by (nonlinear_arith)
            requires
                count <= u32::MAX,
                weight <= 6,
        ;
        assert(count * weight * mult <= 18 * u32::MAX) by (nonlinear_arith)
            requires
                count * weight <= u32::MAX * 6,
                0 <= count * weight,
                mult <= 3,
        ;
    }
    count as u64 * weight * mult
}

fn score_from(raw: u64, total: u32) -> (r: u32)
    ensures
        r == score_of(raw as int, total as int),
{
    if total == 0 {
        return 100;
    }
    let per_pod = raw / (total as u64);
    if per_pod >= 100 {
        0
    } else {
        (100 - per_pod) as u32
    }
}

/// The health score: 100 minus the per-pod penalty, capped to `0..=100`.
pub fn calculate_health_score(metrics: &PodMetrics) -> (r: u32)
    ensures
        r == health_score(metrics@),
{
    let raw = weighted(metrics.latest_tag, 5, 1) + weighted(metrics.missing_liveness, 3, 1)
        + weighted(metrics.missing_readiness, 2, 1) + weighted(metrics.high_restarts, 6, 1)
        + weighted(metrics.pending, 4, 1);
    score_from(raw, metrics.total_pods)
}

/// The classification of a score.
pub open spec fn classification(score: int) -> Seq<char> {
    if score >= 80 {
        "Healthy"@
    } else if 60 <= score <= 79 {
        "Stable"@
    } else if 40 <= score <= 59 {
        "Degraded"@
    } else {
        "Critical"@
    }
}

/// Classifies a score: 80 and above Healthy, 60..=79 Stable, 40..=59
/// Degraded, anything lower Critical.
pub fn classify_health(score: u32) -> (r: &'static str)
    ensures
        r@ == classification(score as int),
{
    if score >= 80 {
        "Healthy"
    } else if 60 <= score && score <= 79 {
        "Stable"
    } else if 40 <= score && score <= 59 {
        "Degraded"
    } else {
        "Critical"
    }
}

/* ============================= SEVERITY ============================= */

/// The default severity of a check kind.
pub open spec fn kind_default_severity(k: ViolationKind) -> Severity {
    match k {
        ViolationKind::LatestTag => Severity::High,
        ViolationKind::MissingLiveness => Severity::Medium,
        ViolationKind::MissingReadiness => Severity::Low,
        ViolationKind::HighRestarts => Severity::Critical,
        ViolationKind::Pending => Severity::Medium,
    }
}

/// The default severity for a violation label; unknown labels are Medium.
pub open spec fn default_severity_of(t: Seq<char>) -> Severity {
    match kind_of_name(t) {
        Some(k) => kind_default_severity(k),
        None => Severity::Medium,
    }
}

/// The override set for a check kind, if any.
pub open spec fn override_for(k: ViolationKind, o: SeverityOverrides) -> Option<Severity> {
    match k {
        ViolationKind::LatestTag => o.latest_tag,
        ViolationKind::MissingLiveness => o.missing_liveness,
        ViolationKind::MissingReadiness => o.missing_readiness,
        ViolationKind::HighRestarts => o.high_restarts,
        ViolationKind::Pending => o.pending,
    }
}

/// The severity of a check kind: its override if set, else its default.
pub open spec fn kind_severity(k: ViolationKind, o: Option<SeverityOverrides>) -> Severity {
    match o {
        Some(ovr) => match override_for(k, ovr) {
            Some(s) => s,
            None => kind_default_severity(k),
        },
        None => kind_default_severity(k),
    }
}

/// The effective severity for a violation label.
pub open spec fn effective_severity_of(t: Seq<char>, o: Option<SeverityOverrides>) -> Severity {
    match kind_of_name(t) {
        Some(k) => kind_severity(k, o),
        None => Severity::Medium,
    }
}

/// The scoring multiplier of a severity.
pub open spec fn multiplier(s: Severity) -> int {
    match s {
        Severity::Critical => 3,
        Severity::High => 2,
        Severity::Medium => 1,
        Severity::Low => 1,
    }
}

fn kind_default(k: ViolationKind) -> (r: Severity)
    ensures
        r == kind_default_severity(k),
{
    match k {
        ViolationKind::LatestTag => Severity::High,
        ViolationKind::MissingLiveness => Severity::Medium,
        ViolationKind::MissingReadiness => Severity::Low,
        ViolationKind::HighRestarts => Severity::Critical,
        ViolationKind::Pending => Severity::Medium,
    }
}

/// The default severity for a violation label.
pub fn default_severity(violation_type: &str) -> (r: Severity)
    ensures
        r == default_severity_of(violation_type@),
{
    match ViolationKind::from_name(violation_type) {
        Some(k) => kind_default(k),
        None => Severity::Medium,
    }
}

/// The scoring multiplier of a severity: Critical 3, High 2, Medium and Low 1.
pub fn severity_multiplier(severity: &Severity) -> (r: u32)
    ensures
        r == multiplier(*severity),
{
    match severity {
        Severity::Critical => 3,
        Severity::High => 2,
        Severity::Medium => 1,
        Severity::Low => 1,
    }
}

fn severity_of_kind(k: ViolationKind, overrides: Option<&SeverityOverrides>) -> (r: Severity)
    ensures
        r == kind_severity(
            k,
            match overrides {
                Some(o) => Some(*o),
                None => None,
            },
        ),
{
    if let Some(ovr) = overrides {
        let specific = match k {
            ViolationKind::LatestTag => ovr.latest_tag,
            ViolationKind::MissingLiveness => ovr.missing_liveness,
            ViolationKind::MissingReadiness => ovr.missing_readiness,
            ViolationKind::HighRestarts => ovr.high_restarts,
            ViolationKind::Pending => ovr.pending,
        };
        if let Some(s) = specific {
            return s;
        }
    }
    kind_default(k)
}

/// The override set, seen through a borrowed option.
pub open spec fn deref_overrides(o: Option<&SeverityOverrides>) -> Option<SeverityOverrides> {
    match o {
        Some(v) => Some(*v),
        None => None,
    }
}

/// The effective severity for a violation label: the override when one is
/// set for a known label, else the default.
pub fn effective_severity(violation_type: &str, overrides: Option<&SeverityOverrides>) -> (r:
    Severity)
    ensures
        r == effective_severity_of(violation_type@, deref_overrides(overrides)),
{
    match ViolationKind::from_name(violation_type) {
        Some(k) => severity_of_kind(k, overrides),
        None => Severity::Medium,
    }
}

/// The severity-weighted health score of a set of counters.
pub open spec fn severity_health_score(m: MetricsModel, o: Option<SeverityOverrides>) -> int {
    score_of(
        penalty(
            m,
            multiplier(kind_severity(ViolationKind::LatestTag, o)),
            multiplier(kind_severity(ViolationKind::MissingLiveness, o)),
            multiplier(kind_severity(ViolationKind::MissingReadiness, o)),
            multiplier(kind_severity(ViolationKind::HighRestarts, o)),
            multiplier(kind_severity(ViolationKind::Pending, o)),
        ),
        m.total_pods,
    )
}

/// The health score with each check's weight multiplied by its severity.
pub fn calculate_health_score_with_severity(
    metrics: &PodMetrics,
    overrides: Option<&SeverityOverrides>,
) -> (r: u32)
    ensures
        r == severity_health_score(metrics@, deref_overrides(overrides)),
{
    let ml = severity_multiplier(&severity_of_kind(ViolationKind::LatestTag, overrides)) as u64;
    let mv = severity_multiplier(&severity_of_kind(ViolationKind::MissingLiveness, overrides)) as u64;
    let mr = severity_multiplier(&severity_of_kind(ViolationKind::MissingReadiness, overrides)) as u64;
    let mh = severity_multiplier(&severity_of_kind(ViolationKind::HighRestarts, overrides)) as u64;
    let mp = severity_multiplier(&severity_of_kind(ViolationKind::Pending, overrides)) as u64;
    let raw = weighted(metrics.latest_tag, 5, ml) + weighted(metrics.missing_liveness, 3, mv)
        + weighted(metrics.missing_readiness, 2, mr) + weighted(metrics.high_restarts, 6, mh)
        + weighted(metrics.pending, 4, mp);
    score_from(raw, metrics.total_pods)
}


/* ============================= DETAILED VIOLATIONS ============================= */

/// One failing check of one pod, with its severity and a readable message.
#[derive(Debug, Clone, PartialEq)]
pub struct ViolationDetail {
    pub violation_type: String,
    pub severity: Severity,
    pub pod_name: String,
    pub namespace: String,
    pub container_name: String,
    pub message: String,
}

/// The content of a `ViolationDetail`.
pub struct Violation {
    pub violation_type: Seq<char>,
    pub severity: Severity,
    pub pod_name: Seq<char>,
    pub namespace: Seq<char>,
    pub container_name: Seq<char>,
    pub message: Seq<char>,
}

impl View for ViolationDetail {
    type V = Violation;

    open spec fn view(&self) -> Violation {
        Violation {
            violation_type: self.violation_type@,
            severity: self.severity,
            pod_name: self.pod_name@,
            namespace: self.namespace@,
            container_name: self.container_name@,
            message: self.message@,
        }
    }
}

/// The contents of a list of violations.
pub open spec fn violation_views(vs: Seq<ViolationDetail>) -> Seq<Violation> {
    vs.map_values(|v: ViolationDetail| v@)
}

/// The contents of a list of labels.
pub open spec fn label_views(vs: Seq<&'static str>) -> Seq<Seq<char>> {
    vs.map_values(|v: &'static str| v@)
}

/// The pod name used in reports, `unknown` when unset.
pub open spec fn pod_name_of(pod: PodInfo) -> Seq<char> {
    match pod.name {
        Some(n) => n@,
        None => "unknown"@,
    }
}

/// The namespace used in reports, `default` when unset.
pub open spec fn namespace_label_of(pod: PodInfo) -> Seq<char> {
    match pod.namespace {
        Some(ns) => ns@,
        None => "default"@,
    }
}

/// A message about one container.
pub open spec fn container_message(name: Seq<char>, tail: Seq<char>) -> Seq<char> {
    "container '"@ + name + tail
}

/// The message of a restart-count violation.
pub open spec fn restart_message(name: Seq<char>, rc: int, threshold: int) -> Seq<char> {
    "container '"@ + name + "' has "@ + signed_decimal(rc) + " restarts (threshold: "@
        + signed_decimal(threshold) + ")"@
}

pub open spec fn make_violation(
    k: ViolationKind,
    pod: PodInfo,
    policy: DevOpsPolicySpec,
    container: Seq<char>,
    message: Seq<char>,
) -> Violation {
    Violation {
        violation_type: kind_name(k),
        severity: kind_severity(k, policy.severity_overrides),
        pod_name: pod_name_of(pod),
        namespace: namespace_label_of(pod),
        container_name: container,
        message,
    }
}

/// The violations of one container, in check order.
pub open spec fn container_violations(
    c: ContainerInfo,
    pod: PodInfo,
    policy: DevOpsPolicySpec,
) -> Seq<Violation> {
    (if enabled(policy.forbid_latest_tag) && is_latest_image(c) {
        seq![make_violation(ViolationKind::LatestTag, pod, policy, c.name@, container_message(c.name@, "' uses :latest tag"@))]
    } else {
        Seq::empty()
    }) + (if enabled(policy.require_liveness_probe) && !c.has_liveness_probe {
        seq![make_violation(ViolationKind::MissingLiveness, pod, policy, c.name@, container_message(c.name@, "' missing liveness probe"@))]
    } else {
        Seq::empty()
    }) + (if enabled(policy.require_readiness_probe) && !c.has_readiness_probe {
        seq![make_violation(ViolationKind::MissingReadiness, pod, policy, c.name@, container_message(c.name@, "' missing readiness probe"@))]
    } else {
        Seq::empty()
    })
}

/// The violations of a list of containers, container by container.
pub open spec fn containers_violations(
    cs: Seq<ContainerInfo>,
    pod: PodInfo,
    policy: DevOpsPolicySpec,
) -> Seq<Violation>
    decreases cs.len(),
{
    if cs.len() == 0 {
        Seq::empty()
    } else {
        containers_violations(cs.drop_last(), pod, policy) + container_violations(cs.last(), pod, policy)
    }
}

/// The restart-count violations of a list of container statuses.
pub open spec fn status_violations(
    ss: Seq<ContainerStatusInfo>,
    pod: PodInfo,
    policy: DevOpsPolicySpec,
    threshold: i32,
) -> Seq<Violation>
    decreases ss.len(),
{
    if ss.len() == 0 {
        Seq::empty()
    } else {
        status_violations(ss.drop_last(), pod, policy, threshold) + if ss.last().restart_count
            > threshold {
            seq![make_violation(ViolationKind::HighRestarts, pod, policy, ss.last().name@, restart_message(ss.last().name@, ss.last().restart_count as int, threshold as int))]
        } else {
            Seq::empty()
        }
    }
}

/// Every violation of a pod under a policy: container checks, then restart
/// counts, then the Pending phase.
pub open spec fn detailed_violations(pod: PodInfo, policy: DevOpsPolicySpec) -> Seq<Violation> {
    containers_violations(pod.containers@, pod, policy) + match policy.max_restart_count {
        Some(t) => status_violations(pod.container_statuses@, pod, policy, t),
        None => Seq::empty(),
    } + if policy.forbid_pending_duration is Some && is_pending(pod) {
        seq![make_violation(ViolationKind::Pending, pod, policy, Seq::empty(), "pod is in Pending phase"@)]
    } else {
        Seq::empty()
    }
}

/// The labels of the built-in container checks that one container fails.
pub open spec fn builtin_container_labels(c: ContainerInfo) -> Seq<Seq<char>> {
    (if is_latest_image(c) {
        seq!["latest_tag"@]
    } else {
        Seq::empty()
    }) + (if !c.has_liveness_probe {
        seq!["missing_liveness"@]
    } else {
        Seq::empty()
    }) + (if !c.has_readiness_probe {
        seq!["missing_readiness"@]
    } else {
        Seq::empty()
    })
}

/// The labels of the built-in container checks over a list of containers.
pub open spec fn builtin_labels(cs: Seq<ContainerInfo>) -> Seq<Seq<char>>
    decreases cs.len(),
{
    if cs.len() == 0 {
        Seq::empty()
    } else {
        builtin_labels(cs.drop_last()) + builtin_container_labels(cs.last())
    }
}

/// Every check label names its kind.
pub proof fn lemma_kind_name_round_trip(k: ViolationKind)
    ensures
        kind_of_name(kind_name(k)) == Some(k),
{
    reveal_strlit("latest_tag");
    reveal_strlit("missing_liveness");
    reveal_strlit("missing_readiness");
    reveal_strlit("high_restarts");
    reveal_strlit("pending");
    assert("latest_tag"@.len() == 10);
    assert("missing_liveness"@.len() == 16);
    assert("missing_readiness"@.len() == 17);
    assert("high_restarts"@.len() == 13);
    assert("pending"@.len() == 7);
}

/// Every violation in the list carries the label of a check kind.
pub open spec fn labelled(vs: Seq<Violation>) -> bool {
    forall|j: int| 0 <= j < vs.len() ==> (#[trigger] kind_of_name(vs[j].violation_type)) is Some
}

proof fn lemma_labelled_concat(a: Seq<Violation>, b: Seq<Violation>)
    requires
        labelled(a),
        labelled(b),
    ensures
        labelled(a + b),
{
    assert forall|j: int| 0 <= j < (a + b).len() implies (#[trigger] kind_of_name(
        (a + b)[j].violation_type,
    )) is Some by {
        if j < a.len() {
            assert((a + b)[j] == a[j]);
        } else {
            assert((a + b)[j] == b[j - a.len()]);
        }
    }
}

proof fn lemma_labelled_one(k: ViolationKind, pod: PodInfo, policy: DevOpsPolicySpec, c: Seq<char>, m: Seq<char>)
    ensures
        labelled(seq![make_violation(k, pod, policy, c, m)]),
{
    lemma_kind_name_round_trip(k);
}

proof fn lemma_labelled_containers(cs: Seq<ContainerInfo>, pod: PodInfo, policy: DevOpsPolicySpec)
    ensures
        labelled(containers_violations(cs, pod, policy)),
    decreases cs.len(),
{
    if cs.len() > 0 {
        lemma_labelled_containers(cs.drop_last(), pod, policy);
        let c = cs.last();
        lemma_labelled_one(ViolationKind::LatestTag, pod, policy, c.name@, container_message(c.name@, "' uses :latest tag"@));
        lemma_labelled_one(ViolationKind::MissingLiveness, pod, policy, c.name@, container_message(c.name@, "' missing liveness probe"@));
        lemma_labelled_one(ViolationKind::MissingReadiness, pod, policy, c.name@, container_message(c.name@, "' missing readiness probe"@));
        let a = if enabled(policy.forbid_latest_tag) && is_latest_image(c) {
            seq![make_violation(ViolationKind::LatestTag, pod, policy, c.name@, container_message(c.name@, "' uses :latest tag"@))]
        } else {
            Seq::empty()
        };
        let b = if enabled(policy.require_liveness_probe) && !c.has_liveness_probe {
            seq![make_violation(ViolationKind::MissingLiveness, pod, policy, c.name@, container_message(c.name@, "' missing liveness probe"@))]
        } else {
            Seq::empty()
        };
        let d = if enabled(policy.require_readiness_probe) && !c.has_readiness_probe {
            seq![make_violation(ViolationKind::MissingReadiness, pod, policy, c.name@, container_message(c.name@, "' missing readiness probe"@))]
        } else {
            Seq::empty()
        };
        lemma_labelled_concat(a, b);
        lemma_labelled_concat(a + b, d);
        lemma_labelled_concat(containers_violations(cs.drop_last(), pod, policy), a + b + d);
    }
}

proof fn lemma_labelled_statuses(ss: Seq<ContainerStatusInfo>, pod: PodInfo, policy: DevOpsPolicySpec, t: i32)
    ensures
        labelled(status_violations(ss, pod, policy, t)),
    decreases ss.len(),
{
    if ss.len() > 0 {
        lemma_labelled_statuses(ss.drop_last(), pod, policy, t);
        let s = ss.last();
        let m = restart_message(s.name@, s.restart_count as int, t as int);
        lemma_labelled_one(ViolationKind::HighRestarts, pod, policy, s.name@, m);
        let a = if s.restart_count > t {
            seq![make_violation(ViolationKind::HighRestarts, pod, policy, s.name@, m)]
        } else {
            Seq::empty()
        };
        lemma_labelled_concat(status_violations(ss.drop_last(), pod, policy, t), a);
    }
}

/// Every detected violation carries the label of a check kind.
pub proof fn lemma_labelled_detailed(pod: PodInfo, policy: DevOpsPolicySpec)
    ensures
        labelled(detailed_violations(pod, policy)),
{
    lemma_labelled_containers(pod.containers@, pod, policy);
    let b = match policy.max_restart_count {
        Some(t) => status_violations(pod.container_statuses@, pod, policy, t),
        None => Seq::empty(),
    };
    if let Some(t) = policy.max_restart_count {
        lemma_labelled_statuses(pod.container_statuses@, pod, policy, t);
    }
    lemma_labelled_one(ViolationKind::Pending, pod, policy, Seq::empty(), "pod is in Pending phase"@);
    let c = if policy.forbid_pending_duration is Some && is_pending(pod) {
        seq![make_violation(ViolationKind::Pending, pod, policy, Seq::empty(), "pod is in Pending phase"@)]
    } else {
        Seq::empty()
    };
    lemma_labelled_concat(containers_violations(pod.containers@, pod, policy), b);
    lemma_labelled_concat(containers_violations(pod.containers@, pod, policy) + b, c);
}

fn container_text(name: &String, tail: &str) -> (r: String)
    ensures
        r@ == container_message(name@, tail@),
{
    let mut s = String::from_str("container '");
    s.append(name.as_str());
    s.append(tail);
    s
}

fn make_detail(
    k: ViolationKind,
    overrides: Option<&SeverityOverrides>,
    pod_name: &String,
    namespace: &String,
    container: &String,
    message: String,
) -> (r: ViolationDetail)
    ensures
        r@.violation_type == kind_name(k),
        r@.severity == kind_severity(k, deref_overrides(overrides)),
        r@.pod_name == pod_name@,
        r@.namespace == namespace@,
        r@.container_name == container@,
        r@.message == message@,
{
    ViolationDetail {
        violation_type: String::from_str(k.name()),
        severity: severity_of_kind(k, overrides),
        pod_name: pod_name.clone(),
        namespace: namespace.clone(),
        container_name: container.clone(),
        message,
    }
}

proof fn lemma_views_push(vs: Seq<ViolationDetail>, v: ViolationDetail)
    ensures
        violation_views(vs.push(v)) == violation_views(vs).push(v@),
{
    assert(violation_views(vs.push(v)) =~= violation_views(vs).push(v@));
}

fn pod_labels(pod: &PodInfo) -> (r: (String, String))
    ensures
        r.0@ == pod_name_of(*pod),
        r.1@ == namespace_label_of(*pod),
{
    let name = match &pod.name {
        Some(n) => n.clone(),
        None => String::from_str("unknown"),
    };
    let ns = match &pod.namespace {
        Some(n) => n.clone(),
        None => String::from_str("default"),
    };
    (name, ns)
}

/// Every violation of a pod under a policy, one entry per container and
/// failing check, with its effective severity.
pub fn detect_violations_detailed(pod: &PodInfo, policy: &DevOpsPolicySpec) -> (r: Vec<
    ViolationDetail,
>)
    ensures
        violation_views(r@) == detailed_violations(*pod, *policy),
{
    let mut out: Vec<ViolationDetail> = Vec::new();
    let (pod_name, namespace) = pod_labels(pod);
    let overrides = policy.severity_overrides.as_ref();
    assert(deref_overrides(overrides) == policy.severity_overrides);
    let latest = matches!(policy.forbid_latest_tag, Some(true));
    let liveness = matches!(policy.require_liveness_probe, Some(true));
    let readiness = matches!(policy.require_readiness_probe, Some(true));

    let ghost cs = pod.containers@;
    let n = pod.containers.len();
    let mut i: usize = 0;
    while i < n
        invariant
            cs == pod.containers@,
            n == cs.len(),
            i <= n,
            pod_name@ == pod_name_of(*pod),
            namespace@ == namespace_label_of(*pod),
            deref_overrides(overrides) == policy.severity_overrides,
            latest == enabled(policy.forbid_latest_tag),
            liveness == enabled(policy.require_liveness_probe),
            readiness == enabled(policy.require_readiness_probe),
            violation_views(out@) == containers_violations(cs.subrange(0, i as int), *pod, *policy),
        decreases n - i,
    {
        let c = &pod.containers[i];
        let ghost prev = out@;
        proof {
            assert(cs.subrange(0, i + 1).drop_last() =~= cs.subrange(0, i as int));
            assert(cs.subrange(0, i + 1).last() == cs[i as int]);
        }
        if latest && image_is_latest(c) {
            let d = make_detail(
                ViolationKind::LatestTag,
                overrides,
                &pod_name,
                &namespace,
                &c.name,
                container_text(&c.name, "' uses :latest tag"),
            );
            proof { lemma_views_push(out@, d); }
            out.push(d);
        }
        let ghost after_latest = out@;
        if liveness && !c.has_liveness_probe {
            let d = make_detail(
                ViolationKind::MissingLiveness,
                overrides,
                &pod_name,
                &namespace,
                &c.name,
                container_text(&c.name, "' missing liveness probe"),
            );
            proof { lemma_views_push(out@, d); }
            out.push(d);
        }
        let ghost after_liveness = out@;
        if readiness && !c.has_readiness_probe {
            let d = make_detail(
                ViolationKind::MissingReadiness,
                overrides,
                &pod_name,
                &namespace,
                &c.name,
                container_text(&c.name, "' missing readiness probe"),
            );
            proof { lemma_views_push(out@, d); }
            out.push(d);
        }
        proof {
            let cv = container_violations(*c, *pod, *policy);
            assert(violation_views(out@) =~= violation_views(prev) + cv);
        }
        i += 1;
    }
    assert(cs.subrange(0, n as int) =~= cs);
    let ghost after_containers = out@;

    if let Some(t) = policy.max_restart_count {
        let ghost ss = pod.container_statuses@;
        let k = pod.container_statuses.len();
        let mut j: usize = 0;
        while j < k
            invariant
                ss == pod.container_statuses@,
                k == ss.len(),
                j <= k,
                policy.max_restart_count == Some(t),
                pod_name@ == pod_name_of(*pod),
                namespace@ == namespace_label_of(*pod),
                deref_overrides(overrides) == policy.severity_overrides,
                violation_views(out@) == violation_views(after_containers) + status_violations(
                    ss.subrange(0, j as int),
                    *pod,
                    *policy,
                    t,
                ),
            decreases k - j,
        {
            let s = &pod.container_statuses[j];
            let ghost prev = out@;
            proof {
                assert(ss.subrange(0, j + 1).drop_last() =~= ss.subrange(0, j as int));
                assert(ss.subrange(0, j + 1).last() == ss[j as int]);
            }
            if s.restart_count > t {
                let mut msg = String::from_str("container '");
                msg.append(s.name.as_str());
                msg.append("' has ");
                push_signed_decimal(&mut msg, s.restart_count as i64);
                msg.append(" restarts (threshold: ");
                push_signed_decimal(&mut msg, t as i64);
                msg.append(")");
                let d = make_detail(
                    ViolationKind::HighRestarts,
                    overrides,
                    &pod_name,
                    &namespace,
                    &s.name,
                    msg,
                );
                proof {
                    lemma_views_push(out@, d);
                    assert(d@.message =~= restart_message(s.name@, s.restart_count as int, t as int));
                }
                out.push(d);
            }
            proof {
                assert(violation_views(out@) =~= violation_views(after_containers) + status_violations(
                    ss.subrange(0, j + 1),
                    *pod,
                    *policy,
                    t,
                ));
            }
            j += 1;
        }
        assert(ss.subrange(0, k as int) =~= ss);
    }
    let ghost after_status = out@;
    if policy.forbid_pending_duration.is_some() && pod_is_pending(pod) {
        let empty = String::new();
        let d = make_detail(
            ViolationKind::Pending,
            overrides,
            &pod_name,
            &namespace,
            &empty,
            String::from_str("pod is in Pending phase"),
        );
        proof {
            lemma_views_push(out@, d);
            assert(d@.container_name =~= Seq::<char>::empty());
        }
        out.push(d);
    }
    assert(violation_views(out@) =~= detailed_violations(*pod, *policy));
    out
}

/// The labels of every violation of a pod under a policy, in the order of
/// `detect_violations_detailed`.
pub fn detect_violations_with_policy(pod: &PodInfo, policy: &DevOpsPolicySpec) -> (r: Vec<
    &'static str,
>)
    ensures
        r@.len() == detailed_violations(*pod, *policy).len(),
        forall|i: int|
            0 <= i < r@.len() ==> #[trigger] r@[i]@ == detailed_violations(
                *pod,
                *policy,
            )[i].violation_type,
{
    let details = detect_violations_detailed(pod, policy);
    let ghost dv = detailed_violations(*pod, *policy);
    let mut out: Vec<&'static str> = Vec::new();
    proof {
        lemma_labelled_detailed(*pod, *policy);
    }
    let mut i: usize = 0;
    while i < details.len()
        invariant
            violation_views(details@) == dv,
            i <= details@.len(),
            out@.len() == i,
            forall|j: int| 0 <= j < i ==> #[trigger] out@[j]@ == dv[j].violation_type,
            labelled(dv),
        decreases details.len() - i,
    {
        assert(dv[i as int] == details@[i as int]@);
        assert(kind_of_name(dv[i as int].violation_type) is Some);
        match ViolationKind::from_name(details[i].violation_type.as_str()) {
            Some(k) => {
                proof { lemma_kind_name_round_trip(k); }
                out.push(k.name());
            },
            None => {
                out.push("");
            },
        }
        i += 1;
    }
    out
}

/// The labels of the built-in container checks a pod fails.
pub fn detect_violations(pod: &PodInfo) -> (r: Vec<&'static str>)
    ensures
        label_views(r@) == builtin_labels(pod.containers@),
{
    let mut out: Vec<&'static str> = Vec::new();
    let ghost cs = pod.containers@;
    let n = pod.containers.len();
    let mut i: usize = 0;
    while i < n
        invariant
            cs == pod.containers@,
            n == cs.len(),
            i <= n,
            label_views(out@) == builtin_labels(cs.subrange(0, i as int)),
        decreases n - i,
    {
        let c = &pod.containers[i];
        let ghost prev = out@;
        proof {
            assert(cs.subrange(0, i + 1).drop_last() =~= cs.subrange(0, i as int));
            assert(cs.subrange(0, i + 1).last() == cs[i as int]);
        }
        if image_is_latest(c) {
            out.push("latest_tag");
        }
        if !c.has_liveness_probe {
            out.push("missing_liveness");
        }
        if !c.has_readiness_probe {
            out.push("missing_readiness");
        }
        assert(label_views(out@) =~= label_views(prev) + builtin_container_labels(*c));
        i += 1;
    }
    assert(cs.subrange(0, n as int) =~= cs);
    out
}


/* ============================= POD SETS ============================= */

/// The counters of a checked pod set, and every violation found in it.
#[derive(Debug, Clone)]
pub struct PodSetEvaluation {
    pub metrics: PodMetrics,
    pub violations: Vec<ViolationDetail>,
}

/// The summed counters of the non-system pods of a list under a policy.
pub open spec fn set_total(pods: Seq<PodInfo>, policy: DevOpsPolicySpec) -> MetricsModel
    decreases pods.len(),
{
    if pods.len() == 0 {
        MetricsModel::zero()
    } else if system_namespace(namespace_of(pods.last())) {
        set_total(pods.drop_last(), policy)
    } else {
        set_total(pods.drop_last(), policy).plus(policy_contribution(pods.last(), policy))
    }
}

/// The violations of the non-system pods of a list, pod by pod.
pub open spec fn set_violations(pods: Seq<PodInfo>, policy: DevOpsPolicySpec) -> Seq<Violation>
    decreases pods.len(),
{
    if pods.len() == 0 {
        Seq::empty()
    } else if system_namespace(namespace_of(pods.last())) {
        set_violations(pods.drop_last(), policy)
    } else {
        set_violations(pods.drop_last(), policy) + detailed_violations(pods.last(), policy)
    }
}

/// How many pods of a list are outside system namespaces.
pub open spec fn non_system_count(pods: Seq<PodInfo>) -> nat
    decreases pods.len(),
{
    if pods.len() == 0 {
        0
    } else {
        non_system_count(pods.drop_last()) + if system_namespace(namespace_of(pods.last())) {
            0nat
        } else {
            1nat
        }
    }
}

/// Every pod of the list is within limits.
pub open spec fn all_within_limits(pods: Seq<PodInfo>) -> bool {
    forall|i: int| 0 <= i < pods.len() ==> pod_within_limits(#[trigger] pods[i])
}

/// Field-wise `a <= b`.
pub open spec fn metrics_le(a: MetricsModel, b: MetricsModel) -> bool {
    &&& a.total_pods <= b.total_pods
    &&& a.latest_tag <= b.latest_tag
    &&& a.missing_liveness <= b.missing_liveness
    &&& a.missing_readiness <= b.missing_readiness
    &&& a.high_restarts <= b.high_restarts
    &&& a.pending <= b.pending
}

proof fn lemma_contribution_nonneg(pod: PodInfo, policy: DevOpsPolicySpec)
    ensures
        policy_contribution(pod, policy).nonneg(),
{
}

proof fn lemma_set_total_grows(pods: Seq<PodInfo>, policy: DevOpsPolicySpec, i: int)
    requires
        0 <= i <= pods.len(),
    ensures
        metrics_le(set_total(pods.subrange(0, i), policy), set_total(pods, policy)),
        set_total(pods, policy).nonneg(),
    decreases pods.len(),
{
    if pods.len() > 0 {
        lemma_contribution_nonneg(pods.last(), policy);
        if i == pods.len() {
            assert(pods.subrange(0, i) =~= pods);
            lemma_set_total_grows(pods.drop_last(), policy, 0);
        } else {
            lemma_set_total_grows(pods.drop_last(), policy, i);
            assert(pods.drop_last().subrange(0, i) =~= pods.subrange(0, i));
        }
    }
}

pub(crate) fn checked_add(a: &PodMetrics, b: &PodMetrics) -> (r: Option<PodMetrics>)
    requires
        a@.nonneg(),
        b@.nonneg(),
    ensures
        r is Some <==> a@.plus(b@).fits_u32(),
        r matches Some(m) ==> m@ == a@.plus(b@),
{
    if a.total_pods as u64 + b.total_pods as u64 > 4294967295u64 || a.latest_tag as u64
        + b.latest_tag as u64 > 4294967295u64 || a.missing_liveness as u64
        + b.missing_liveness as u64 > 4294967295u64 || a.missing_readiness as u64
        + b.missing_readiness as u64 > 4294967295u64 || a.high_restarts as u64
        + b.high_restarts as u64 > 4294967295u64 || a.pending as u64 + b.pending as u64
        > 4294967295u64 {
        return None;
    }
    let mut m = *a;
    add_metrics(&mut m, b);
    Some(m)
}

/// Evaluates every non-system pod of a list under a policy: the summed
/// counters and every violation, pod by pod. `None` exactly when a summed
/// counter would not fit in 32 bits.
pub fn evaluate_pod_set(pods: &[PodInfo], policy: &DevOpsPolicySpec) -> (r: Option<
    PodSetEvaluation,
>)
    requires
        all_within_limits(pods@),
    ensures
        r is Some <==> set_total(pods@, *policy).fits_u32(),
        r matches Some(e) ==> e.metrics@ == set_total(pods@, *policy) && violation_views(
            e.violations@,
        ) == set_violations(pods@, *policy),
{
    let mut total = PodMetrics::default();
    let mut violations: Vec<ViolationDetail> = Vec::new();
    let mut i: usize = 0;
    while i < pods.len()
        invariant
            all_within_limits(pods@),
            i <= pods@.len(),
            total@ == set_total(pods@.subrange(0, i as int), *policy),
            violation_views(violations@) == set_violations(pods@.subrange(0, i as int), *policy),
        decreases pods@.len() - i,
    {
        let pod = &pods[i];
        proof {
            assert(pods@.subrange(0, i + 1).drop_last() =~= pods@.subrange(0, i as int));
            assert(pods@.subrange(0, i + 1).last() == pods@[i as int]);
            assert(pod_within_limits(pods@[i as int]));
            lemma_set_total_grows(pods@.subrange(0, i as int), *policy, 0);
        }
        if !is_system_namespace(pod.namespace_or_empty()) {
            let contribution = evaluate_pod_with_policy(pod, policy);
            match checked_add(&total, &contribution) {
                Some(m) => {
                    total = m;
                },
                None => {
                    proof {
                        lemma_set_total_grows(pods@, *policy, i + 1);
                    }
                    return None;
                },
            }
            let mut details = detect_violations_detailed(pod, policy);
            let ghost prev = violations@;
            violations.append(&mut details);
            assert(violation_views(violations@) =~= violation_views(prev) + detailed_violations(
                *pod,
                *policy,
            ));
        }
        i += 1;
    }
    assert(pods@.subrange(0, pods@.len() as int) =~= pods@);
    Some(PodSetEvaluation { metrics: total, violations })
}

/// The summed built-in counters of the non-system pods of a list.
pub open spec fn builtin_total(pods: Seq<PodInfo>) -> MetricsModel
    decreases pods.len(),
{
    if pods.len() == 0 {
        MetricsModel::zero()
    } else if system_namespace(namespace_of(pods.last())) {
        builtin_total(pods.drop_last())
    } else {
        builtin_total(pods.drop_last()).plus(builtin_contribution(pods.last()))
    }
}

proof fn lemma_builtin_total_grows(pods: Seq<PodInfo>, i: int)
    requires
        0 <= i <= pods.len(),
    ensures
        metrics_le(builtin_total(pods.subrange(0, i)), builtin_total(pods)),
        builtin_total(pods).nonneg(),
    decreases pods.len(),
{
    if pods.len() > 0 {
        if i == pods.len() {
            assert(pods.subrange(0, i) =~= pods);
            lemma_builtin_total_grows(pods.drop_last(), 0);
        } else {
            lemma_builtin_total_grows(pods.drop_last(), i);
            assert(pods.drop_last().subrange(0, i) =~= pods.subrange(0, i));
        }
    }
}

/// Sums the built-in counters over the non-system pods of a list, for a
/// one-shot cluster analysis. `None` exactly when a sum would not fit in 32
/// bits.
pub fn analyze_pods(pods: &[PodInfo]) -> (r: Option<PodMetrics>)
    requires
        all_within_limits(pods@),
    ensures
        r is Some <==> builtin_total(pods@).fits_u32(),
        r matches Some(m) ==> m@ == builtin_total(pods@),
{
    let mut total = PodMetrics::default();
    let mut i: usize = 0;
    while i < pods.len()
        invariant
            all_within_limits(pods@),
            i <= pods@.len(),
            total@ == builtin_total(pods@.subrange(0, i as int)),
        decreases pods@.len() - i,
    {
        let pod = &pods[i];
        proof {
            assert(pods@.subrange(0, i + 1).drop_last() =~= pods@.subrange(0, i as int));
            assert(pods@.subrange(0, i + 1).last() == pods@[i as int]);
            assert(pod_within_limits(pods@[i as int]));
            lemma_builtin_total_grows(pods@.subrange(0, i as int), 0);
        }
        if !is_system_namespace(pod.namespace_or_empty()) {
            let contribution = evaluate_pod(pod);
            match checked_add(&total, &contribution) {
                Some(m) => {
                    total = m;
                },
                None => {
                    proof {
                        lemma_builtin_total_grows(pods@, i + 1);
                    }
                    return None;
                },
            }
        }
        i += 1;
    }
    assert(pods@.subrange(0, pods@.len() as int) =~= pods@);
    Some(total)
}

/* ============================= LAWS ============================= */

impl MetricsModel {
    /// The counters with one more failure of check `k`.
    pub open spec fn bump(self, k: ViolationKind) -> MetricsModel {
        match k {
            ViolationKind::LatestTag => MetricsModel { latest_tag: self.latest_tag + 1, ..self },
            ViolationKind::MissingLiveness => MetricsModel {
                missing_liveness: self.missing_liveness + 1,
                ..self
            },
            ViolationKind::MissingReadiness => MetricsModel {
                missing_readiness: self.missing_readiness + 1,
                ..self
            },
            ViolationKind::HighRestarts => MetricsModel {
                high_restarts: self.high_restarts + 1,
                ..self
            },
            ViolationKind::Pending => MetricsModel { pending: self.pending + 1, ..self },
        }
    }
}

/// The base weight of a check kind.
pub open spec fn base_weight(k: ViolationKind) -> int {
    match k {
        ViolationKind::LatestTag => 5,
        ViolationKind::MissingLiveness => 3,
        ViolationKind::MissingReadiness => 2,
        ViolationKind::HighRestarts => 6,
        ViolationKind::Pending => 4,
    }
}

/// Adding a set of counters and then subtracting the same set restores the
/// starting counters; saturating subtraction never yields a negative counter.
pub proof fn law_add_then_subtract(m: MetricsModel, d: MetricsModel)
    requires
        m.nonneg(),
        d.nonneg(),
    ensures
        m.plus(d).minus_saturating(d) == m,
        m.minus_saturating(d).nonneg(),
{
}

/// The health score always lies in `0..=100`.
pub proof fn law_score_in_range(m: MetricsModel)
    requires
        m.nonneg(),
    ensures
        0 <= health_score(m) <= 100,
{
    if m.total_pods > 0 {
        assert(penalty(m, 1, 1, 1, 1, 1) >= 0);
        vstd::arithmetic::div_mod::lemma_div_is_ordered(0, penalty(m, 1, 1, 1, 1, 1), m.total_pods);
    }
}

/// The score is 100 exactly when there are no pods or no violations, for
/// every set of counters whose penalty is zero or at least one point per pod
/// (a smaller penalty rounds down to a perfect score).
pub proof fn law_score_perfect(m: MetricsModel)
    requires
        m.nonneg(),
        m.total_pods == 0 || m.no_violations() || penalty(m, 1, 1, 1, 1, 1) >= m.total_pods,
    ensures
        (health_score(m) == 100) <==> (m.total_pods == 0 || m.no_violations()),
{
    let raw = penalty(m, 1, 1, 1, 1, 1);
    if m.total_pods > 0 {
        if m.no_violations() {
            assert(raw == 0);
        } else {
            assert(raw > 0);
            vstd::arithmetic::div_mod::lemma_div_is_ordered(m.total_pods, raw, m.total_pods);
            vstd::arithmetic::div_mod::lemma_div_plus_one(0, m.total_pods);
        }
    }
}

/// One more failure of any check never raises the score; it lowers the score
/// by at least one point when the score is above zero and the check's weight
/// is at least the number of pods (smaller weights may round away).
pub proof fn law_score_decreasing(m: MetricsModel, k: ViolationKind)
    requires
        m.nonneg(),
    ensures
        health_score(m.bump(k)) <= health_score(m),
        m.total_pods > 0 && base_weight(k) >= m.total_pods && health_score(m) > 0
            ==> health_score(m.bump(k)) < health_score(m),
{
    let raw = penalty(m, 1, 1, 1, 1, 1);
    let raw2 = penalty(m.bump(k), 1, 1, 1, 1, 1);
    assert(raw2 == raw + base_weight(k));
    if m.total_pods > 0 {
        vstd::arithmetic::div_mod::lemma_div_is_ordered(raw, raw2, m.total_pods);
        if base_weight(k) >= m.total_pods {
            vstd::arithmetic::div_mod::lemma_div_is_ordered(raw + m.total_pods, raw2, m.total_pods);
            vstd::arithmetic::div_mod::lemma_div_plus_one(raw, m.total_pods);
            assert(m.total_pods + raw == raw + m.total_pods);
        }
    }
}

/// Evaluating a pod set counts exactly its pods outside system namespaces.
pub proof fn law_set_counts_non_system_pods(pods: Seq<PodInfo>, policy: DevOpsPolicySpec)
    ensures
        set_total(pods, policy).total_pods == non_system_count(pods),
    decreases pods.len(),
{
    if pods.len() > 0 {
        law_set_counts_non_system_pods(pods.drop_last(), policy);
    }
}

} // verus!
