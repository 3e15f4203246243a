use kube_devops::observability::{
    generate_service, generate_service_monitor, generate_service_monitor_reconcile,
    generate_service_monitor_watch, generate_service_monitor_webhook, generate_service_monitors,
    generate_service_reconcile, generate_service_watch, generate_service_webhook,
};

#[test]
fn test_service_watch_fields() {
    let yaml = generate_service_watch();
    let doc: serde_yaml::Value = serde_yaml::from_str(&yaml).expect("valid YAML");

    assert_eq!(doc["kind"], "Service");
    assert_eq!(doc["metadata"]["name"], "kube-devops-watch");
    assert_eq!(doc["metadata"]["namespace"], "kube-devops");
    assert_eq!(doc["metadata"]["labels"]["app.kubernetes.io/name"], "kube-devops");
    assert_eq!(doc["metadata"]["labels"]["app.kubernetes.io/component"], "watch");
    assert_eq!(doc["spec"]["ports"][0]["port"], 8080);
}

#[test]
fn test_service_reconcile_fields() {
    let yaml = generate_service_reconcile();
    let doc: serde_yaml::Value = serde_yaml::from_str(&yaml).expect("valid YAML");

    assert_eq!(doc["kind"], "Service");
    assert_eq!(doc["metadata"]["name"], "kube-devops-reconcile");
    assert_eq!(doc["metadata"]["labels"]["app.kubernetes.io/component"], "reconcile");
    assert_eq!(doc["spec"]["ports"][0]["port"], 9090);
}

#[test]
fn test_service_webhook_fields() {
    let yaml = generate_service_webhook();
    let doc: serde_yaml::Value = serde_yaml::from_str(&yaml).expect("valid YAML");

    assert_eq!(doc["kind"], "Service");
    assert_eq!(doc["metadata"]["name"], "kube-devops-webhook");
    assert_eq!(doc["metadata"]["labels"]["app.kubernetes.io/component"], "webhook");
    assert_eq!(doc["spec"]["ports"][0]["port"], 8443);
}

// ── ServiceMonitor tests ──

#[test]
fn test_service_monitor_watch_fields() {
    let yaml = generate_service_monitor_watch();
    let doc: serde_yaml::Value = serde_yaml::from_str(&yaml).expect("valid YAML");

    assert_eq!(doc["kind"], "ServiceMonitor");
    assert_eq!(doc["metadata"]["name"], "kube-devops-watch");
    assert_eq!(doc["spec"]["endpoints"][0]["path"], "/metrics");
    assert_eq!(doc["spec"]["endpoints"][0]["interval"], "15s");
    assert_eq!(doc["spec"]["endpoints"][0]["scheme"], "http");
    assert_eq!(
        doc["spec"]["selector"]["matchLabels"]["app.kubernetes.io/component"],
        "watch"
    );
}

#[test]
fn test_service_monitor_reconcile_fields() {
    let yaml = generate_service_monitor_reconcile();
    let doc: serde_yaml::Value = serde_yaml::from_str(&yaml).expect("valid YAML");

    assert_eq!(doc["kind"], "ServiceMonitor");
    assert_eq!(doc["metadata"]["name"], "kube-devops-reconcile");
    assert_eq!(doc["spec"]["endpoints"][0]["scheme"], "http");
}

#[test]
fn test_service_monitor_webhook_uses_https() {
    let yaml = generate_service_monitor_webhook();
    let doc: serde_yaml::Value = serde_yaml::from_str(&yaml).expect("valid YAML");

    assert_eq!(doc["kind"], "ServiceMonitor");
    assert_eq!(doc["metadata"]["name"], "kube-devops-webhook");
    assert_eq!(doc["spec"]["endpoints"][0]["scheme"], "https");
    assert_eq!(
        doc["spec"]["endpoints"][0]["tlsConfig"]["insecureSkipVerify"],
        true
    );
}

#[test]
fn test_all_services_parseable_yaml() {
    for yaml in [
        generate_service_watch(),
        generate_service_reconcile(),
        generate_service_webhook(),
    ] {
        let _: serde_yaml::Value = serde_yaml::from_str(&yaml)
            .expect("service YAML should be parseable");
    }
}

#[test]
fn test_all_service_monitors_parseable_yaml() {
    for yaml in [
        generate_service_monitor_watch(),
        generate_service_monitor_reconcile(),
        generate_service_monitor_webhook(),
    ] {
        let _: serde_yaml::Value = serde_yaml::from_str(&yaml)
            .expect("ServiceMonitor YAML should be parseable");
    }
}

#[test]
fn test_service_monitors_three_docs() {
    let output = generate_service_monitors();
    assert_eq!(output.split("---\n").count(), 3);
    assert!(generate_service_monitor("x", 8443).ends_with("      tlsConfig:\n        insecureSkipVerify: true\n"));
    assert!(generate_service("x", 7).contains("      port: 7\n      targetPort: 7\n"));
}
