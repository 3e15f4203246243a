//! Manifests that expose the controller's metrics: Services and
//! ServiceMonitors, as YAML text.

use vstd::prelude::*;

use crate::deploy::SEPARATOR;
use crate::text::{decimal, push_decimal};

verus! {

/// The metrics Service of one controller component.
pub open spec fn service_yaml(component: Seq<char>, port: nat) -> Seq<char> {
    "apiVersion: v1\nkind: Service\nmetadata:\n  name: kube-devops-"@ + component + "\n  namespace: kube-devops\n  labels:\n    app.kubernetes.io/name: kube-devops\n    app.kubernetes.io/component: "@ + component + "\nspec:\n  selector:\n    app.kubernetes.io/name: kube-devops\n    app.kubernetes.io/component: "@ + component + "\n  ports:\n    - name: metrics\n      port: "@ + decimal(port as nat) + "\n      targetPort: "@ + decimal(port as nat) + "\n      protocol: TCP\n"@
}

/// The metrics Service of one controller component on `port`.
pub fn generate_service(component: &str, port: u16) -> (r: String)
    ensures
        r@ == service_yaml(component@, port as nat),
{
    let mut s = String::new();
    s.append("apiVersion: v1\nkind: Service\nmetadata:\n  name: kube-devops-");
    s.append(component);
    s.append("\n  namespace: kube-devops\n  labels:\n    app.kubernetes.io/name: kube-devops\n    app.kubernetes.io/component: ");
    s.append(component);
    s.append("\nspec:\n  selector:\n    app.kubernetes.io/name: kube-devops\n    app.kubernetes.io/component: ");
    s.append(component);
    s.append("\n  ports:\n    - name: metrics\n      port: ");
    push_decimal(&mut s, port as u64);
    s.append("\n      targetPort: ");
    push_decimal(&mut s, port as u64);
    s.append("\n      protocol: TCP\n");
    assert(s@ =~= service_yaml(component@, port as nat));
    s
}

/// The metrics Service of the `watch` component.
pub fn generate_service_watch() -> (r: String)
    ensures
        r@ == service_yaml("watch"@, 8080),
{
    generate_service("watch", 8080)
}

/// The metrics Service of the `reconcile` component.
pub fn generate_service_reconcile() -> (r: String)
    ensures
        r@ == service_yaml("reconcile"@, 9090),
{
    generate_service("reconcile", 9090)
}

/// The metrics Service of the `webhook` component.
pub fn generate_service_webhook() -> (r: String)
    ensures
        r@ == service_yaml("webhook"@, 8443),
{
    generate_service("webhook", 8443)
}

/// The scrape scheme for a port: `https` on 8443, else `http`.
pub open spec fn scheme_for(port: nat) -> Seq<char> {
    if port == 8443 {
        "https"@
    } else {
        "http"@
    }
}

/// The ServiceMonitor of one controller component; on port 8443 it scrapes
/// over TLS without verifying the certificate.
pub open spec fn service_monitor_yaml(component: Seq<char>, port: nat) -> Seq<char> {
    let scheme = scheme_for(port);
    "apiVersion: monitoring.coreos.com/v1\nkind: ServiceMonitor\nmetadata:\n  name: kube-devops-"@ + component + "\n  namespace: kube-devops\n  labels:\n    app.kubernetes.io/name: kube-devops\n    app.kubernetes.io/component: "@ + component + "\n    release: stable\nspec:\n  selector:\n    matchLabels:\n      app.kubernetes.io/name: kube-devops\n      app.kubernetes.io/component: "@ + component + "\n  endpoints:\n    - port: metrics\n      path: /metrics\n      interval: 15s\n      scheme: "@ + scheme + "\n"@ + if port == 8443 {
        "      tlsConfig:\n        insecureSkipVerify: true\n"@
    } else {
        Seq::empty()
    }
}

/// The ServiceMonitor of one controller component on `port`.
pub fn generate_service_monitor(component: &str, port: u16) -> (r: String)
    ensures
        r@ == service_monitor_yaml(component@, port as nat),
{
    let scheme = if port == 8443 {
        "https"
    } else {
        "http"
    };
    let mut s = String::new();
    s.append("apiVersion: monitoring.coreos.com/v1\nkind: ServiceMonitor\nmetadata:\n  name: kube-devops-");
    s.append(component);
    s.append("\n  namespace: kube-devops\n  labels:\n    app.kubernetes.io/name: kube-devops\n    app.kubernetes.io/component: ");
    s.append(component);
    s.append("\n    release: stable\nspec:\n  selector:\n    matchLabels:\n      app.kubernetes.io/name: kube-devops\n      app.kubernetes.io/component: ");
    s.append(component);
    s.append("\n  endpoints:\n    - port: metrics\n      path: /metrics\n      interval: 15s\n      scheme: ");
    s.append(scheme);
    s.append("\n");
    if port == 8443 {
        s.append("      tlsConfig:\n        insecureSkipVerify: true\n");
    }
    assert(s@ =~= service_monitor_yaml(component@, port as nat));
    s
}

/// The ServiceMonitor of the `watch` component.
pub fn generate_service_monitor_watch() -> (r: String)
    ensures
        r@ == service_monitor_yaml("watch"@, 8080),
{
    generate_service_monitor("watch", 8080)
}

/// The ServiceMonitor of the `reconcile` component.
pub fn generate_service_monitor_reconcile() -> (r: String)
    ensures
        r@ == service_monitor_yaml("reconcile"@, 9090),
{
    generate_service_monitor("reconcile", 9090)
}

/// The ServiceMonitor of the `webhook` component.
pub fn generate_service_monitor_webhook() -> (r: String)
    ensures
        r@ == service_monitor_yaml("webhook"@, 8443),
{
    generate_service_monitor("webhook", 8443)
}

/// The three ServiceMonitors, separated by document markers.
pub fn generate_service_monitors() -> (r: String)
    ensures
        r@ == service_monitor_yaml("watch"@, 8080) + SEPARATOR@ + service_monitor_yaml(
            "reconcile"@,
            9090,
        ) + SEPARATOR@ + service_monitor_yaml("webhook"@, 8443),
{
    let mut s = generate_service_monitor_watch();
    s.append(SEPARATOR);
    let part = generate_service_monitor_reconcile();
    s.append(part.as_str());
    s.append(SEPARATOR);
    let part = generate_service_monitor_webhook();
    s.append(part.as_str());
    s
}

} // verus!
