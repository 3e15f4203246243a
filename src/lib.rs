//! Governance engine for Kubernetes workloads: policy model, pod evaluation
//! and scoring, remediation planning, admission decisions, reconcile
//! decisions, watch aggregation and multi-cluster reporting.

pub mod text;
pub mod crd;
pub mod pod;
pub mod governance;
pub mod enforcement;
pub mod admission;
pub mod multi_cluster;
pub mod bundles;
pub mod reconcile;
pub mod deploy;
pub mod observability;
pub mod watch;
