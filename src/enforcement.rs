//! Remediation planning: the parent workload of a pod, which defects can be
//! patched, and the pod-template patch that fixes them.

use vstd::prelude::*;

use crate::crd::{DefaultProbeConfig, DefaultResourceConfig, DevOpsPolicySpec, EnforcementMode};
use crate::governance::enabled;
use crate::pod::{namespace_of, ContainerInfo, OwnerReference, PodInfo};
use crate::text::{ends_with, has_prefix, has_suffix, lower_of, lowercase, starts_with, str_eq};

verus! {

/* ============================= TYPES ============================= */

/// A parent workload: a Deployment, StatefulSet or DaemonSet.
#[derive(Debug, Clone, PartialEq, Eq, Hash)]
pub struct WorkloadRef {
    pub kind: String,
    pub name: String,
    pub namespace: String,
}

/// The content of a `WorkloadRef`.
pub struct WorkloadModel {
    pub kind: Seq<char>,
    pub name: Seq<char>,
    pub namespace: Seq<char>,
}

impl View for WorkloadRef {
    type V = WorkloadModel;

    open spec fn view(&self) -> WorkloadModel {
        WorkloadModel { kind: self.kind@, name: self.name@, namespace: self.namespace@ }
    }
}

/// The deduplication key of a workload: `lower(kind)/namespace/name`.
pub open spec fn workload_key(w: WorkloadModel) -> Seq<char> {
    lower_of(w.kind) + "/"@ + w.namespace + "/"@ + w.name
}

impl WorkloadRef {
    /// The canonical key used to deduplicate workloads.
    pub fn key(&self) -> (r: String)
        ensures
            r@ == workload_key(self@),
    {
        let mut s = lowercase(self.kind.as_str());
        s.append("/");
        s.append(self.namespace.as_str());
        s.append("/");
        s.append(self.name.as_str());
        s
    }
}

/// A single remediation on one container of the pod template.
#[derive(Debug, Clone, Copy, PartialEq, Eq, Structural)]
pub enum RemediationAction {
    InjectLivenessProbe { container_index: usize },
    InjectReadinessProbe { container_index: usize },
    InjectResources { container_index: usize },
}

/// All remediations for one workload.
#[derive(Debug, Clone)]
pub struct RemediationPlan {
    pub workload: WorkloadRef,
    pub actions: Vec<RemediationAction>,
}

/// The outcome of applying a plan.
#[derive(Debug, Clone)]
pub struct RemediationResult {
    pub workload: WorkloadRef,
    pub success: bool,
    pub message: String,
}

/* ============================= PROTECTED NAMESPACES ============================= */

/// Namespaces that are never patched.
pub open spec fn protected_namespace(ns: Seq<char>) -> bool {
    ||| ns == "kube-system"@
    ||| ns == "kube-public"@
    ||| ns == "kube-node-lease"@
    ||| ns == "kube-flannel"@
    ||| ns == "cert-manager"@
    ||| ns == "istio-system"@
    ||| ns == "monitoring"@
    ||| ns == "observability"@
    ||| ns == "argocd"@
    ||| has_prefix(ns, "kube-"@)
    ||| has_suffix(ns, "-system"@)
}

/// Whether enforcement must never touch the namespace.
pub fn is_protected_namespace(ns: &str) -> (r: bool)
    ensures
        r == protected_namespace(ns@),
{
    str_eq(ns, "kube-system") || str_eq(ns, "kube-public") || str_eq(ns, "kube-node-lease")
        || str_eq(ns, "kube-flannel") || str_eq(ns, "cert-manager") || str_eq(ns, "istio-system")
        || str_eq(ns, "monitoring") || str_eq(ns, "observability") || str_eq(ns, "argocd")
        || starts_with(ns, "kube-") || ends_with(ns, "-system")
}

/// The policy asks for enforcement.
pub open spec fn enforcing(policy: DevOpsPolicySpec) -> bool {
    policy.enforcement_mode == Some(EnforcementMode::Enforce)
}

/// Whether the policy's mode is `Enforce`.
pub fn is_enforcement_enabled(policy: &DevOpsPolicySpec) -> (r: bool)
    ensures
        r == enforcing(*policy),
{
    matches!(policy.enforcement_mode, Some(EnforcementMode::Enforce))
}

/* ============================= OWNER RESOLUTION ============================= */

/// The index of the last `c` in `s`, or -1.
pub open spec fn last_index_of(s: Seq<char>, c: char) -> int
    decreases s.len(),
{
    if s.len() == 0 {
        -1
    } else if s.last() == c {
        s.len() - 1
    } else {
        last_index_of(s.drop_last(), c)
    }
}

proof fn lemma_last_index_bounds(s: Seq<char>, c: char)
    ensures
        -1 <= last_index_of(s, c) < s.len(),
        last_index_of(s, c) >= 0 ==> s[last_index_of(s, c)] == c,
        forall|j: int| last_index_of(s, c) < j < s.len() ==> s[j] != c,
    decreases s.len(),
{
    if s.len() > 0 && s.last() != c {
        lemma_last_index_bounds(s.drop_last(), c);
        assert forall|j: int| last_index_of(s, c) < j < s.len() implies s[j] != c by {
            if j < s.len() - 1 {
                assert(s.drop_last()[j] == s[j]);
            }
        }
    }
}

/// A ReplicaSet name without its final `-suffix`; unchanged when the only
/// dash is the first character or there is none.
pub open spec fn stripped_name(s: Seq<char>) -> Seq<char> {
    if last_index_of(s, '-') > 0 {
        s.subrange(0, last_index_of(s, '-'))
    } else {
        s
    }
}

/// Derives a Deployment name from a ReplicaSet name (`web-app-5d4f8b9c7f`
/// becomes `web-app`).
pub fn strip_replicaset_hash(rs_name: &str) -> (r: String)
    ensures
        r@ == stripped_name(rs_name@),
{
    let n = rs_name.unicode_len();
    let mut i: usize = n;
    proof {
        lemma_last_index_bounds(rs_name@, '-');
    }
    while i > 0
        invariant
            n == rs_name@.len(),
            i <= n,
            forall|j: int| i <= j < n ==> rs_name@[j] != '-',
        decreases i,
    {
        if rs_name.get_char(i - 1) == '-' {
            let pos = i - 1;
            proof {
                lemma_last_index_bounds(rs_name@, '-');
                let li = last_index_of(rs_name@, '-');
                assert(li == pos) by {
                    if li < pos {
                    } else if li > pos {
                    }
                }
            }
            if pos > 0 {
                return rs_name.substring_char(0, pos).to_owned();
            } else {
                return rs_name.to_owned();
            }
        }
        i -= 1;
    }
    proof {
        lemma_last_index_bounds(rs_name@, '-');
        let li = last_index_of(rs_name@, '-');
        if li >= 0 {
            assert(rs_name@[li] == '-');
        }
    }
    rs_name.to_owned()
}

/// The owner kind names a workload that can be remediated, directly or
/// through its ReplicaSet.
pub open spec fn recognised_owner(kind: Seq<char>) -> bool {
    kind == "Deployment"@ || kind == "StatefulSet"@ || kind == "DaemonSet"@ || kind
        == "ReplicaSet"@
}

/// The index of the first recognised owner, if any.
pub open spec fn first_recognised(owners: Seq<OwnerReference>) -> Option<int>
    decreases owners.len(),
{
    if owners.len() == 0 {
        None
    } else {
        match first_recognised(owners.drop_last()) {
            Some(i) => Some(i),
            None => if recognised_owner(owners.last().kind@) {
                Some(owners.len() - 1)
            } else {
                None
            },
        }
    }
}

proof fn lemma_first_recognised(owners: Seq<OwnerReference>, i: int)
    requires
        0 <= i < owners.len(),
        forall|j: int| 0 <= j < i ==> !recognised_owner(#[trigger] owners[j].kind@),
    ensures
        first_recognised(owners.subrange(0, i)) is None,
        recognised_owner(owners[i].kind@) ==> first_recognised(owners.subrange(0, i + 1))
            == Some(i),
        !recognised_owner(owners[i].kind@) ==> first_recognised(owners.subrange(0, i + 1)) is None,
    decreases i,
{
    if i > 0 {
        lemma_first_recognised(owners, i - 1);
        assert(owners.subrange(0, i).drop_last() =~= owners.subrange(0, i - 1));
    }
    assert(owners.subrange(0, i + 1).drop_last() =~= owners.subrange(0, i));
}

/// The workload an owner reference designates.
pub open spec fn owner_workload(o: OwnerReference, ns: Seq<char>) -> WorkloadModel {
    if o.kind@ == "ReplicaSet"@ {
        WorkloadModel { kind: "Deployment"@, name: stripped_name(o.name@), namespace: ns }
    } else {
        WorkloadModel { kind: o.kind@, name: o.name@, namespace: ns }
    }
}

/// The parent workload of a pod, from its first recognised owner.
pub open spec fn resolved_owner(pod: PodInfo) -> Option<WorkloadModel> {
    match first_recognised(pod.owner_references@) {
        Some(i) => Some(owner_workload(pod.owner_references@[i], namespace_of(pod))),
        None => None,
    }
}

/// Finds the parent workload of a pod from its owner references; a
/// ReplicaSet owner yields the Deployment named by stripping its hash.
pub fn resolve_owner(pod: &PodInfo) -> (r: Option<WorkloadRef>)
    ensures
        match r {
            Some(w) => resolved_owner(*pod) == Some(w@),
            None => resolved_owner(*pod) is None,
        },
{
    let ghost os = pod.owner_references@;
    let n = pod.owner_references.len();
    let mut i: usize = 0;
    while i < n
        invariant
            os == pod.owner_references@,
            n == os.len(),
            i <= n,
            forall|j: int| 0 <= j < i ==> !recognised_owner(#[trigger] os[j].kind@),
        decreases n - i,
    {
        let owner = &pod.owner_references[i];
        proof {
            lemma_first_recognised(os, i as int);
        }
        let kind = owner.kind.as_str();
        if str_eq(kind, "Deployment") || str_eq(kind, "StatefulSet") || str_eq(kind, "DaemonSet") {
            proof {
                reveal_strlit("ReplicaSet");
                reveal_strlit("Deployment");
                reveal_strlit("StatefulSet");
                reveal_strlit("DaemonSet");
                assert(first_recognised(os.subrange(0, i + 1)) == Some(i as int));
                lemma_prefix_decides(os, i as int);
                assert(owner.kind@ != "ReplicaSet"@) by {
                    assert("ReplicaSet"@.len() == 10);
                    assert("DaemonSet"@.len() == 9);
                    assert("StatefulSet"@.len() == 11);
                    assert("Deployment"@[0] != "ReplicaSet"@[0]);
                }
            }
            return Some(
                WorkloadRef {
                    kind: owner.kind.clone(),
                    name: owner.name.clone(),
                    namespace: pod.namespace_or_empty().to_owned(),
                },
            );
        }
        if str_eq(kind, "ReplicaSet") {
            proof {
                assert(first_recognised(os.subrange(0, i + 1)) == Some(i as int));
                lemma_prefix_decides(os, i as int);
            }
            return Some(
                WorkloadRef {
                    kind: String::from_str("Deployment"),
                    name: strip_replicaset_hash(owner.name.as_str()),
                    namespace: pod.namespace_or_empty().to_owned(),
                },
            );
        }
        i += 1;
    }
    proof {
        if n > 0 {
            lemma_first_recognised(os, n - 1);
        }
        assert(os.subrange(0, n as int) =~= os);
    }
    None
}

proof fn lemma_prefix_decides(owners: Seq<OwnerReference>, i: int)
    requires
        0 <= i < owners.len(),
        first_recognised(owners.subrange(0, i + 1)) == Some(i),
    ensures
        first_recognised(owners) == Some(i),
    decreases owners.len(),
{
    if owners.len() > i + 1 {
        assert(owners.drop_last().subrange(0, i + 1) =~= owners.subrange(0, i + 1));
        lemma_prefix_decides(owners.drop_last(), i);
    } else {
        assert(owners.subrange(0, i + 1) =~= owners);
    }
}

/* ============================= PROBES AND RESOURCES ============================= */

/// A TCP socket probe to inject.
#[derive(Debug, Clone, Copy, PartialEq, Eq, Structural)]
pub struct ProbeSpec {
    pub tcp_port: i32,
    pub initial_delay_seconds: i32,
    pub period_seconds: i32,
}

/// The probe injected into a container: port from the config, else the
/// container's first port, else 8080; delays 5 s and 10 s unless configured.
pub open spec fn probe_for(c: ContainerInfo, config: DefaultProbeConfig) -> ProbeSpec {
    ProbeSpec {
        tcp_port: match config.tcp_port {
            Some(p) => p as i32,
            None => if c.ports@.len() > 0 {
                c.ports@[0]
            } else {
                8080i32
            },
        },
        initial_delay_seconds: match config.initial_delay_seconds {
            Some(d) => d,
            None => 5i32,
        },
        period_seconds: match config.period_seconds {
            Some(p) => p,
            None => 10i32,
        },
    }
}

/// Builds the default TCP probe for a container.
pub fn build_default_probe(container: &ContainerInfo, config: &DefaultProbeConfig) -> (r: ProbeSpec)
    ensures
        r == probe_for(*container, *config),
{
    let port: i32 = match config.tcp_port {
        Some(p) => p as i32,
        None => if container.ports.len() > 0 {
            container.ports[0]
        } else {
            8080
        },
    };
    let initial = match config.initial_delay_seconds {
        Some(d) => d,
        None => 5,
    };
    let period = match config.period_seconds {
        Some(p) => p,
        None => 10,
    };
    ProbeSpec { tcp_port: port, initial_delay_seconds: initial, period_seconds: period }
}

/// Resource requests and limits to inject.
#[derive(Debug, Clone, PartialEq)]
pub struct ResourceSpec {
    pub cpu_request: String,
    pub cpu_limit: String,
    pub memory_request: String,
    pub memory_limit: String,
}

/// The content of a `ResourceSpec`.
pub struct ResourceModel {
    pub cpu_request: Seq<char>,
    pub cpu_limit: Seq<char>,
    pub memory_request: Seq<char>,
    pub memory_limit: Seq<char>,
}

impl View for ResourceSpec {
    type V = ResourceModel;

    open spec fn view(&self) -> ResourceModel {
        ResourceModel {
            cpu_request: self.cpu_request@,
            cpu_limit: self.cpu_limit@,
            memory_request: self.memory_request@,
            memory_limit: self.memory_limit@,
        }
    }
}

/// A configured quantity, or its fallback.
pub open spec fn quantity_or(q: Option<String>, fallback: Seq<char>) -> Seq<char> {
    match q {
        Some(v) => v@,
        None => fallback,
    }
}

/// The resources injected: the configured values, with fallbacks
/// cpu 100m/500m and memory 128Mi/256Mi.
pub open spec fn resources_for(config: DefaultResourceConfig) -> ResourceModel {
    ResourceModel {
        cpu_request: quantity_or(config.cpu_request, "100m"@),
        cpu_limit: quantity_or(config.cpu_limit, "500m"@),
        memory_request: quantity_or(config.memory_request, "128Mi"@),
        memory_limit: quantity_or(config.memory_limit, "256Mi"@),
    }
}

fn quantity(q: &Option<String>, fallback: &str) -> (r: String)
    ensures
        r@ == quantity_or(*q, fallback@),
{
    match q {
        Some(v) => v.clone(),
        None => fallback.to_owned(),
    }
}

/// Builds the default resource requests and limits.
pub fn build_default_resources(config: &DefaultResourceConfig) -> (r: ResourceSpec)
    ensures
        r@ == resources_for(*config),
{
    ResourceSpec {
        cpu_request: quantity(&config.cpu_request, "100m"),
        cpu_limit: quantity(&config.cpu_limit, "500m"),
        memory_request: quantity(&config.memory_request, "128Mi"),
        memory_limit: quantity(&config.memory_limit, "256Mi"),
    }
}

/* ============================= PLANNING ============================= */

/// The container declares neither resource requests nor limits.
pub open spec fn lacks_resources(c: ContainerInfo) -> bool {
    !c.has_resource_requests && !c.has_resource_limits
}

/// The actions for container `i`, in order: liveness, readiness, resources.
pub open spec fn container_actions(c: ContainerInfo, i: int, policy: DevOpsPolicySpec) -> Seq<
    RemediationAction,
> {
    (if enabled(policy.require_liveness_probe) && !c.has_liveness_probe {
        seq![RemediationAction::InjectLivenessProbe { container_index: i as usize }]
    } else {
        Seq::empty()
    }) + (if enabled(policy.require_readiness_probe) && !c.has_readiness_probe {
        seq![RemediationAction::InjectReadinessProbe { container_index: i as usize }]
    } else {
        Seq::empty()
    }) + (if lacks_resources(c) {
        seq![RemediationAction::InjectResources { container_index: i as usize }]
    } else {
        Seq::empty()
    })
}

/// The patchable actions for a list of containers, container by container.
pub open spec fn planned_actions(cs: Seq<ContainerInfo>, policy: DevOpsPolicySpec) -> Seq<
    RemediationAction,
>
    decreases cs.len(),
{
    if cs.len() == 0 {
        Seq::empty()
    } else {
        planned_actions(cs.drop_last(), policy) + container_actions(
            cs.last(),
            cs.len() - 1,
            policy,
        )
    }
}

/// No plan is made for the pod under the policy.
pub open spec fn no_plan(pod: PodInfo, policy: DevOpsPolicySpec) -> bool {
    ||| protected_namespace(namespace_of(pod))
    ||| !enforcing(policy)
    ||| resolved_owner(pod) is None
    ||| planned_actions(pod.containers@, policy).len() == 0
}

/// Plans the remediation of a pod's patchable violations on its parent
/// workload. No plan in a protected namespace, outside enforce mode, without
/// a parent workload, or with nothing to patch.
pub fn plan_remediation(pod: &PodInfo, policy: &DevOpsPolicySpec) -> (r: Option<RemediationPlan>)
    ensures
        r is None <==> no_plan(*pod, *policy),
        r matches Some(p) ==> resolved_owner(*pod) == Some(p.workload@) && p.actions@
            == planned_actions(pod.containers@, *policy),
{
    if is_protected_namespace(pod.namespace_or_empty()) {
        return None;
    }
    if !is_enforcement_enabled(policy) {
        return None;
    }
    let workload = match resolve_owner(pod) {
        Some(w) => w,
        None => return None,
    };
    let liveness = matches!(policy.require_liveness_probe, Some(true));
    let readiness = matches!(policy.require_readiness_probe, Some(true));
    let mut actions: Vec<RemediationAction> = Vec::new();
    let ghost cs = pod.containers@;
    let n = pod.containers.len();
    let mut i: usize = 0;
    while i < n
        invariant
            cs == pod.containers@,
            n == cs.len(),
            i <= n,
            liveness == enabled(policy.require_liveness_probe),
            readiness == enabled(policy.require_readiness_probe),
            actions@ == planned_actions(cs.subrange(0, i as int), *policy),
        decreases n - i,
    {
        let c = &pod.containers[i];
        let ghost prev = actions@;
        proof {
            assert(cs.subrange(0, i + 1).drop_last() =~= cs.subrange(0, i as int));
            assert(cs.subrange(0, i + 1).last() == cs[i as int]);
        }
        if liveness && !c.has_liveness_probe {
            actions.push(RemediationAction::InjectLivenessProbe { container_index: i });
        }
        if readiness && !c.has_readiness_probe {
            actions.push(RemediationAction::InjectReadinessProbe { container_index: i });
        }
        if !c.has_resource_requests && !c.has_resource_limits {
            actions.push(RemediationAction::InjectResources { container_index: i });
        }
        assert(actions@ =~= prev + container_actions(*c, i as int, *policy));
        i += 1;
    }
    assert(cs.subrange(0, n as int) =~= cs);
    if actions.len() == 0 {
        return None;
    }
    Some(RemediationPlan { workload, actions })
}


/* ============================= PATCH ============================= */

/// The annotation set on every patched pod template.
pub const PATCHED_BY_ANNOTATION: &'static str = "devops.stochastic.io/patched-by";

/// The field manager and annotation value used when patching.
pub const FIELD_MANAGER: &'static str = "kube-devops-operator";

/// The patch for one container of the pod template, keyed by its name.
#[derive(Debug, Clone, PartialEq)]
pub struct ContainerPatch {
    pub name: String,
    pub liveness_probe: Option<ProbeSpec>,
    pub readiness_probe: Option<ProbeSpec>,
    pub resources: Option<ResourceSpec>,
}

/// A strategic-merge patch of a workload's pod template: the `patched-by`
/// annotation and one entry per container.
#[derive(Debug, Clone, PartialEq)]
pub struct TemplatePatch {
    /// Value of the `devops.stochastic.io/patched-by` annotation.
    pub patched_by: String,
    pub containers: Vec<ContainerPatch>,
}

/// The probe settings a policy injects with.
pub open spec fn probe_config_of(policy: DevOpsPolicySpec) -> DefaultProbeConfig {
    match policy.default_probe {
        Some(c) => c,
        None => DefaultProbeConfig {
            tcp_port: None,
            initial_delay_seconds: None,
            period_seconds: None,
        },
    }
}

/// The resource settings a policy injects with.
pub open spec fn resource_config_of(policy: DevOpsPolicySpec) -> DefaultResourceConfig {
    match policy.default_resources {
        Some(c) => c,
        None => DefaultResourceConfig {
            cpu_request: None,
            cpu_limit: None,
            memory_request: None,
            memory_limit: None,
        },
    }
}

/// The patch of container `j` carries exactly what the actions ask for it.
pub open spec fn patch_matches(
    p: ContainerPatch,
    c: ContainerInfo,
    j: int,
    actions: Seq<RemediationAction>,
    policy: DevOpsPolicySpec,
) -> bool {
    &&& p.name@ == c.name@
    &&& p.liveness_probe == if actions.contains(
        RemediationAction::InjectLivenessProbe { container_index: j as usize },
    ) {
        Some(probe_for(c, probe_config_of(policy)))
    } else {
        None
    }
    &&& p.readiness_probe == if actions.contains(
        RemediationAction::InjectReadinessProbe { container_index: j as usize },
    ) {
        Some(probe_for(c, probe_config_of(policy)))
    } else {
        None
    }
    &&& (p.resources is Some <==> actions.contains(
        RemediationAction::InjectResources { container_index: j as usize },
    ))
    &&& (p.resources matches Some(rs) ==> rs@ == resources_for(resource_config_of(policy)))
}

fn contains_action(actions: &[RemediationAction], a: RemediationAction) -> (r: bool)
    ensures
        r == actions@.contains(a),
{
    let mut i: usize = 0;
    while i < actions.len()
        invariant
            i <= actions@.len(),
            forall|j: int| 0 <= j < i ==> actions@[j] != a,
        decreases actions@.len() - i,
    {
        if actions[i] == a {
            assert(actions@[i as int] == a);
            return true;
        }
        i += 1;
    }
    false
}

/// Builds the patch of a workload's pod template: the `patched-by`
/// annotation, and one entry per container, in order, carrying the probes
/// and resources the actions ask for. Actions for containers that do not
/// exist are ignored.
pub fn build_container_patches(
    actions: &[RemediationAction],
    containers: &[ContainerInfo],
    policy: &DevOpsPolicySpec,
) -> (r: TemplatePatch)
    ensures
        r.patched_by@ == FIELD_MANAGER@,
        r.containers@.len() == containers@.len(),
        forall|j: int|
            0 <= j < r.containers@.len() ==> patch_matches(
                #[trigger] r.containers@[j],
                containers@[j],
                j,
                actions@,
                *policy,
            ),
{
    let probe_config = match policy.default_probe {
        Some(c) => c,
        None => DefaultProbeConfig { tcp_port: None, initial_delay_seconds: None, period_seconds: None },
    };
    let empty = DefaultResourceConfig {
        cpu_request: None,
        cpu_limit: None,
        memory_request: None,
        memory_limit: None,
    };
    let resource_config = match &policy.default_resources {
        Some(c) => c,
        None => &empty,
    };
    let mut out: Vec<ContainerPatch> = Vec::new();
    let mut j: usize = 0;
    while j < containers.len()
        invariant
            j <= containers@.len(),
            out@.len() == j,
            probe_config == probe_config_of(*policy),
            *resource_config == resource_config_of(*policy),
            forall|k: int| 0 <= k < j ==> patch_matches(#[trigger] out@[k], containers@[k], k, actions@, *policy),
        decreases containers@.len() - j,
    {
        let c = &containers[j];
        let liveness = if contains_action(
            actions,
            RemediationAction::InjectLivenessProbe { container_index: j },
        ) {
            Some(build_default_probe(c, &probe_config))
        } else {
            None
        };
        let readiness = if contains_action(
            actions,
            RemediationAction::InjectReadinessProbe { container_index: j },
        ) {
            Some(build_default_probe(c, &probe_config))
        } else {
            None
        };
        let resources = if contains_action(
            actions,
            RemediationAction::InjectResources { container_index: j },
        ) {
            Some(build_default_resources(resource_config))
        } else {
            None
        };
        out.push(
            ContainerPatch {
                name: c.name.clone(),
                liveness_probe: liveness,
                readiness_probe: readiness,
                resources,
            },
        );
        j += 1;
    }
    TemplatePatch { patched_by: FIELD_MANAGER.to_owned(), containers: out }
}

/* ============================= LAWS ============================= */

/// Pods in a protected namespace never get a plan, whatever the policy.
pub proof fn law_protected_namespace_never_planned(pod: PodInfo, policy: DevOpsPolicySpec)
    requires
        protected_namespace(namespace_of(pod)),
    ensures
        no_plan(pod, policy),
{
}

/// A policy in audit mode, or with no mode, never yields a plan.
pub proof fn law_audit_mode_never_planned(pod: PodInfo, policy: DevOpsPolicySpec)
    requires
        policy.enforcement_mode is None || policy.enforcement_mode == Some(EnforcementMode::Audit),
    ensures
        no_plan(pod, policy),
{
}

/// Two pods in one namespace whose first recognised owners are the same
/// object resolve to the same workload, so their plans share one key.
pub proof fn law_same_owner_same_key(p1: PodInfo, p2: PodInfo)
    requires
        namespace_of(p1) == namespace_of(p2),
        first_recognised(p1.owner_references@) matches Some(i)
            && first_recognised(p2.owner_references@) matches Some(j)
            && p1.owner_references@[i].kind@ == p2.owner_references@[j].kind@
            && p1.owner_references@[i].name@ == p2.owner_references@[j].name@,
    ensures
        resolved_owner(p1) == resolved_owner(p2),
        resolved_owner(p1) matches Some(w1) && resolved_owner(p2) matches Some(w2) && workload_key(w1)
            == workload_key(w2),
{
}

} // verus!
