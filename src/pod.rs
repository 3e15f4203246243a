//! What the evaluation reads of a pod.

use vstd::prelude::*;

verus! {

/// One container of a pod's spec.
#[derive(Debug, Clone, PartialEq)]
pub struct ContainerInfo {
    pub name: String,
    pub image: Option<String>,
    pub has_liveness_probe: bool,
    pub has_readiness_probe: bool,
    /// The container declares resource requests.
    pub has_resource_requests: bool,
    /// The container declares resource limits.
    pub has_resource_limits: bool,
    /// Declared container ports, in order.
    pub ports: Vec<i32>,
}

/// The runtime status of one container.
#[derive(Debug, Clone, PartialEq)]
pub struct ContainerStatusInfo {
    pub name: String,
    pub restart_count: i32,
}

/// A reference from a pod to an object that owns it.
#[derive(Debug, Clone, PartialEq)]
pub struct OwnerReference {
    pub kind: String,
    pub name: String,
}

/// A pod as the governance engine sees it.
#[derive(Debug, Clone, PartialEq)]
pub struct PodInfo {
    pub name: Option<String>,
    pub namespace: Option<String>,
    pub owner_references: Vec<OwnerReference>,
    pub containers: Vec<ContainerInfo>,
    pub container_statuses: Vec<ContainerStatusInfo>,
    /// The pod phase (`Pending`, `Running`, ...), when reported.
    pub phase: Option<String>,
}

/// The namespace of a pod, empty when unset.
pub open spec fn namespace_of(pod: PodInfo) -> Seq<char> {
    match pod.namespace {
        Some(ns) => ns@,
        None => Seq::empty(),
    }
}

/// The pod's counters fit in 32 bits: one per container and check, and at
/// most five restart points per container status.
pub open spec fn pod_within_limits(pod: PodInfo) -> bool {
    &&& pod.containers@.len() <= u32::MAX
    &&& 5 * pod.container_statuses@.len() <= u32::MAX
}

impl PodInfo {
    /// The namespace of the pod, empty when unset.
    pub fn namespace_or_empty(&self) -> (r: &str)
        ensures
            r@ == namespace_of(*self),
    {
        match &self.namespace {
            Some(ns) => ns.as_str(),
            None => {
                proof {
                    reveal_strlit("");
                }
                ""
            },
        }
    }

    /// Whether the pod's counters fit in 32 bits.
    pub fn within_limits(&self) -> (r: bool)
        ensures
            r == pod_within_limits(*self),
    {
        self.containers.len() <= 4294967295usize && self.container_statuses.len() <= 858993459usize
    }
}

} // verus!
