use kube_devops::crd::DevOpsPolicySpec;
use kube_devops::governance;
use kube_devops::multi_cluster::{aggregate_report, evaluate_cluster_pods, ClusterEvaluation};
use kube_devops::pod::{ContainerInfo, PodInfo};

fn make_evaluation(name: &str, score: u32, pods: u32, violations: u32) -> ClusterEvaluation {
    ClusterEvaluation {
        context_name: name.to_string(),
        health_score: score,
        classification: governance::classify_health(score).to_string(),
        total_pods: pods,
        total_violations: violations,
        violations: vec![],
    }
}

#[test]
fn test_aggregate_empty_clusters() {
    let report = aggregate_report(vec![]);
    assert_eq!(report.aggregate_score, 100);
    assert_eq!(report.aggregate_classification, "Healthy");
    assert!(report.clusters.is_empty());
}

#[test]
fn test_aggregate_single_cluster() {
    let eval = make_evaluation("cluster-1", 85, 10, 3);
    let report = aggregate_report(vec![eval]);
    assert_eq!(report.aggregate_score, 85);
    assert_eq!(report.aggregate_classification, "Healthy");
    assert_eq!(report.clusters.len(), 1);
}

#[test]
fn test_aggregate_weighted_average() {
    // cluster-1: score 100, 10 pods
    // cluster-2: score 50, 10 pods
    // weighted average: (100*10 + 50*10) / 20 = 75
    let evals = vec![
        make_evaluation("cluster-1", 100, 10, 0),
        make_evaluation("cluster-2", 50, 10, 5),
    ];
    let report = aggregate_report(evals);
    assert_eq!(report.aggregate_score, 75);
    assert_eq!(report.aggregate_classification, "Stable");
}

#[test]
fn test_aggregate_weighted_by_pod_count() {
    // cluster-1: score 90, 100 pods (large)
    // cluster-2: score 20, 1 pod (small)
    // weighted average heavily weighted toward cluster-1
    let evals = vec![
        make_evaluation("cluster-1", 90, 100, 10),
        make_evaluation("cluster-2", 20, 1, 5),
    ];
    let report = aggregate_report(evals);
    // (90*100 + 20*1) / 101 = 9020/101 = 89
    assert_eq!(report.aggregate_score, 89);
    assert_eq!(report.aggregate_classification, "Healthy");
}

#[test]
fn test_aggregate_all_zero_pods() {
    let evals = vec![
        make_evaluation("cluster-1", 100, 0, 0),
        make_evaluation("cluster-2", 100, 0, 0),
    ];
    let report = aggregate_report(evals);
    assert_eq!(report.aggregate_score, 100);
}

#[test]
fn test_aggregate_three_clusters() {
    let evals = vec![
        make_evaluation("prod", 95, 50, 5),
        make_evaluation("staging", 60, 20, 15),
        make_evaluation("dev", 40, 10, 25),
    ];
    let report = aggregate_report(evals);
    // (95*50 + 60*20 + 40*10) / 80 = (4750 + 1200 + 400) / 80 = 6350/80 = 79
    assert_eq!(report.aggregate_score, 79);
    assert_eq!(report.aggregate_classification, "Stable");
    assert_eq!(report.clusters.len(), 3);
}

#[test]
fn test_cluster_evaluation_fields() {
    let eval = make_evaluation("test-cluster", 72, 15, 8);
    assert_eq!(eval.context_name, "test-cluster");
    assert_eq!(eval.health_score, 72);
    assert_eq!(eval.classification, "Stable");
    assert_eq!(eval.total_pods, 15);
    assert_eq!(eval.total_violations, 8);
}

#[test]
fn test_report_classification_matches_score() {
    let evals = vec![make_evaluation("cluster", 35, 10, 20)];
    let report = aggregate_report(evals);
    assert_eq!(report.aggregate_score, 35);
    assert_eq!(report.aggregate_classification, "Critical");
}

#[test]
fn test_aggregate_floors_weighted_mean() {
    // (81*2 + 80*1) / 3 = 242 / 3 = 80.67 → 80
    let evals = vec![make_evaluation("a", 81, 2, 0), make_evaluation("b", 80, 1, 0)];
    assert_eq!(aggregate_report(evals).aggregate_score, 80);
}

#[test]
fn test_evaluate_cluster_pods_counts_and_scores() {
    let pod = |name: &str, ns: &str, image: &str| PodInfo {
        name: Some(name.to_string()),
        namespace: Some(ns.to_string()),
        owner_references: vec![],
        containers: vec![ContainerInfo {
            name: "c".to_string(),
            image: Some(image.to_string()),
            has_liveness_probe: true,
            has_readiness_probe: true,
            has_resource_requests: true,
            has_resource_limits: true,
            ports: vec![],
        }],
        container_statuses: vec![],
        phase: Some("Running".to_string()),
    };
    let pods = vec![pod("a", "prod", "x:latest"), pod("b", "prod", "x:1"), pod("c", "kube-system", "x:latest")];
    let policy = DevOpsPolicySpec { forbid_latest_tag: Some(true), ..Default::default() };
    let e = evaluate_cluster_pods("ctx", &pods, &policy).unwrap();
    assert_eq!(e.context_name, "ctx");
    assert_eq!(e.total_pods, 2);
    assert_eq!(e.total_violations, 1);
    // raw 5 over 2 pods → 2 → 98
    assert_eq!(e.health_score, 98);
    assert_eq!(e.classification, "Healthy");
}

#[test]
fn test_aggregate_large_scores_do_not_overflow() {
    let evals = vec![make_evaluation("a", u32::MAX, 3, 0), make_evaluation("b", u32::MAX, 1, 0)];
    assert_eq!(aggregate_report(evals).aggregate_score, u32::MAX);
}
