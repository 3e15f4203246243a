//! Manifests that deploy the controller: namespace, RBAC, Deployments and
//! PodDisruptionBudgets, as YAML text.

use vstd::prelude::*;

use crate::text::{decimal, push_decimal};

verus! {

/// The document separator between manifests.
pub const SEPARATOR: &'static str = "---\n";

/// The controller namespace.
pub open spec fn namespace_yaml() -> Seq<char> {
    "apiVersion: v1\nkind: Namespace\nmetadata:\n  name: kube-devops\n  labels:\n    app.kubernetes.io/name: kube-devops\n"@
}

/// The controller namespace.
pub fn generate_namespace() -> (r: String)
    ensures
        r@ == namespace_yaml(),
{
    String::from_str("apiVersion: v1\nkind: Namespace\nmetadata:\n  name: kube-devops\n  labels:\n    app.kubernetes.io/name: kube-devops\n")
}

/// The controller service account.
pub open spec fn service_account_yaml() -> Seq<char> {
    "apiVersion: v1\nkind: ServiceAccount\nmetadata:\n  name: kube-devops\n  namespace: kube-devops\n  labels:\n    app.kubernetes.io/name: kube-devops\n"@
}

/// The controller service account.
pub fn generate_service_account() -> (r: String)
    ensures
        r@ == service_account_yaml(),
{
    String::from_str("apiVersion: v1\nkind: ServiceAccount\nmetadata:\n  name: kube-devops\n  namespace: kube-devops\n  labels:\n    app.kubernetes.io/name: kube-devops\n")
}

/// The cluster role the controller needs.
pub open spec fn cluster_role_yaml() -> Seq<char> {
    "apiVersion: rbac.authorization.k8s.io/v1\nkind: ClusterRole\nmetadata:\n  name: kube-devops\n  labels:\n    app.kubernetes.io/name: kube-devops\nrules:\n  - apiGroups: [\"devops.stochastic.io\"]\n    resources: [\"devopspolicies\"]\n    verbs: [\"get\", \"list\", \"watch\"]\n  - apiGroups: [\"devops.stochastic.io\"]\n    resources: [\"devopspolicies/status\"]\n    verbs: [\"patch\"]\n  - apiGroups: [\"\"]\n    resources: [\"pods\"]\n    verbs: [\"get\", \"list\", \"watch\"]\n  - apiGroups: [\"apps\"]\n    resources: [\"deployments\", \"statefulsets\", \"daemonsets\"]\n    verbs: [\"get\", \"list\", \"patch\"]\n  - apiGroups: [\"coordination.k8s.io\"]\n    resources: [\"leases\"]\n    verbs: [\"get\", \"create\", \"update\", \"patch\"]\n  - apiGroups: [\"admissionregistration.k8s.io\"]\n    resources: [\"validatingwebhookconfigurations\"]\n    verbs: [\"get\", \"list\", \"create\", \"update\"]\n"@
}

/// The cluster role the controller needs.
pub fn generate_cluster_role() -> (r: String)
    ensures
        r@ == cluster_role_yaml(),
{
    String::from_str("apiVersion: rbac.authorization.k8s.io/v1\nkind: ClusterRole\nmetadata:\n  name: kube-devops\n  labels:\n    app.kubernetes.io/name: kube-devops\nrules:\n  - apiGroups: [\"devops.stochastic.io\"]\n    resources: [\"devopspolicies\"]\n    verbs: [\"get\", \"list\", \"watch\"]\n  - apiGroups: [\"devops.stochastic.io\"]\n    resources: [\"devopspolicies/status\"]\n    verbs: [\"patch\"]\n  - apiGroups: [\"\"]\n    resources: [\"pods\"]\n    verbs: [\"get\", \"list\", \"watch\"]\n  - apiGroups: [\"apps\"]\n    resources: [\"deployments\", \"statefulsets\", \"daemonsets\"]\n    verbs: [\"get\", \"list\", \"patch\"]\n  - apiGroups: [\"coordination.k8s.io\"]\n    resources: [\"leases\"]\n    verbs: [\"get\", \"create\", \"update\", \"patch\"]\n  - apiGroups: [\"admissionregistration.k8s.io\"]\n    resources: [\"validatingwebhookconfigurations\"]\n    verbs: [\"get\", \"list\", \"create\", \"update\"]\n")
}

/// The binding of the cluster role to the service account.
pub open spec fn cluster_role_binding_yaml() -> Seq<char> {
    "apiVersion: rbac.authorization.k8s.io/v1\nkind: ClusterRoleBinding\nmetadata:\n  name: kube-devops\n  labels:\n    app.kubernetes.io/name: kube-devops\nroleRef:\n  apiGroup: rbac.authorization.k8s.io\n  kind: ClusterRole\n  name: kube-devops\nsubjects:\n  - kind: ServiceAccount\n    name: kube-devops\n    namespace: kube-devops\n"@
}

/// The binding of the cluster role to the service account.
pub fn generate_cluster_role_binding() -> (r: String)
    ensures
        r@ == cluster_role_binding_yaml(),
{
    String::from_str("apiVersion: rbac.authorization.k8s.io/v1\nkind: ClusterRoleBinding\nmetadata:\n  name: kube-devops\n  labels:\n    app.kubernetes.io/name: kube-devops\nroleRef:\n  apiGroup: rbac.authorization.k8s.io\n  kind: ClusterRole\n  name: kube-devops\nsubjects:\n  - kind: ServiceAccount\n    name: kube-devops\n    namespace: kube-devops\n")
}

/// One line per container argument.
pub open spec fn args_text(args: Seq<Seq<char>>) -> Seq<char>
    decreases args.len(),
{
    if args.len() == 0 {
        Seq::empty()
    } else {
        args_text(args.drop_last()) + "            - \""@ + args.last() + "\"\n"@
    }
}

/// A section with a header line, left out when its body is empty.
pub open spec fn section(header: Seq<char>, body: Seq<char>) -> Seq<char> {
    if body.len() == 0 {
        Seq::empty()
    } else {
        header + body
    }
}

/// The contents of a list of string slices.
pub open spec fn str_views(args: Seq<&str>) -> Seq<Seq<char>> {
    args.map_values(|a: &str| a@)
}

/// The Deployment of one controller component.
pub open spec fn deployment_yaml(
    component: Seq<char>,
    port: nat,
    args: Seq<Seq<char>>,
    volume_mounts: Seq<char>,
    volumes: Seq<char>,
    probe_scheme: Seq<char>,
) -> Seq<char> {
    let args_yaml = args_text(args);
    let volume_mounts_section = section("          volumeMounts:\n"@, volume_mounts);
    let volumes_section = section("      volumes:\n"@, volumes);
    "apiVersion: apps/v1\nkind: Deployment\nmetadata:\n  name: kube-devops-"@ + component + "\n  namespace: kube-devops\n  labels:\n    app.kubernetes.io/name: kube-devops\n    app.kubernetes.io/component: "@ + component + "\nspec:\n  replicas: 2\n  selector:\n    matchLabels:\n      app.kubernetes.io/name: kube-devops\n      app.kubernetes.io/component: "@ + component + "\n  template:\n    metadata:\n      labels:\n        app.kubernetes.io/name: kube-devops\n        app.kubernetes.io/component: "@ + component + "\n    spec:\n      serviceAccountName: kube-devops\n      containers:\n        - name: kube-devops\n          image: 192.168.1.68:5000/kube-devops:v0.1.2\n          imagePullPolicy: IfNotPresent\n          args:\n"@ + args_yaml + "          ports:\n            - containerPort: "@ + decimal(port as nat) + "\n              protocol: TCP\n          livenessProbe:\n            httpGet:\n              path: /healthz\n              port: "@ + decimal(port as nat) + "\n              scheme: "@ + probe_scheme + "\n            initialDelaySeconds: 5\n            periodSeconds: 10\n          readinessProbe:\n            httpGet:\n              path: /readyz\n              port: "@ + decimal(port as nat) + "\n              scheme: "@ + probe_scheme + "\n            initialDelaySeconds: 3\n            periodSeconds: 5\n          resources:\n            requests:\n              memory: \"64Mi\"\n              cpu: \"100m\"\n            limits:\n              memory: \"128Mi\"\n              cpu: \"250m\"\n          securityContext:\n            runAsNonRoot: true\n            readOnlyRootFilesystem: true\n"@ + volume_mounts_section + volumes_section
}

fn push_section(s: &mut String, header: &str, body: &str)
    ensures
        final(s)@ == old(s)@ + section(header@, body@),
{
    if body.unicode_len() != 0 {
        s.append(header);
        s.append(body);
    }
    assert(final(s)@ =~= old(s)@ + section(header@, body@));
}

/// The Deployment of one controller component: its container listens on
/// `port`, runs with `args`, and is probed over `probe_scheme`; the volume
/// sections appear only when given.
pub fn generate_deployment(
    component: &str,
    port: u16,
    args: &[&str],
    volume_mounts: &str,
    volumes: &str,
    probe_scheme: &str,
) -> (r: String)
    ensures
        r@ == deployment_yaml(
            component@,
            port as nat,
            str_views(args@),
            volume_mounts@,
            volumes@,
            probe_scheme@,
        ),
{
    let mut args_yaml = String::new();
    let mut i: usize = 0;
    while i < args.len()
        invariant
            i <= args@.len(),
            args_yaml@ == args_text(str_views(args@.subrange(0, i as int))),
        decreases args@.len() - i,
    {
        assert(str_views(args@.subrange(0, i + 1)).drop_last() =~= str_views(args@.subrange(0, i as int)));
        args_yaml.append("            - \"");
        args_yaml.append(args[i]);
        args_yaml.append("\"\n");
        assert(args_yaml@ =~= args_text(str_views(args@.subrange(0, i + 1))));
        i += 1;
    }
    assert(args@.subrange(0, args@.len() as int) =~= args@);
    let mut volume_mounts_section = String::new();
    push_section(&mut volume_mounts_section, "          volumeMounts:\n", volume_mounts);
    let mut volumes_section = String::new();
    push_section(&mut volumes_section, "      volumes:\n", volumes);
    assert(volume_mounts_section@ =~= section("          volumeMounts:\n"@, volume_mounts@));
    assert(volumes_section@ =~= section("      volumes:\n"@, volumes@));
    let args_yaml = args_yaml.as_str();
    let volume_mounts_section = volume_mounts_section.as_str();
    let volumes_section = volumes_section.as_str();
    let mut s = String::new();
    s.append("apiVersion: apps/v1\nkind: Deployment\nmetadata:\n  name: kube-devops-");
    s.append(component);
    s.append("\n  namespace: kube-devops\n  labels:\n    app.kubernetes.io/name: kube-devops\n    app.kubernetes.io/component: ");
    s.append(component);
    s.append("\nspec:\n  replicas: 2\n  selector:\n    matchLabels:\n      app.kubernetes.io/name: kube-devops\n      app.kubernetes.io/component: ");
    s.append(component);
    s.append("\n  template:\n    metadata:\n      labels:\n        app.kubernetes.io/name: kube-devops\n        app.kubernetes.io/component: ");
    s.append(component);
    s.append("\n    spec:\n      serviceAccountName: kube-devops\n      containers:\n        - name: kube-devops\n          image: 192.168.1.68:5000/kube-devops:v0.1.2\n          imagePullPolicy: IfNotPresent\n          args:\n");
    s.append(args_yaml);
    s.append("          ports:\n            - containerPort: ");
    push_decimal(&mut s, port as u64);
    s.append("\n              protocol: TCP\n          livenessProbe:\n            httpGet:\n              path: /healthz\n              port: ");
    push_decimal(&mut s, port as u64);
    s.append("\n              scheme: ");
    s.append(probe_scheme);
    s.append("\n            initialDelaySeconds: 5\n            periodSeconds: 10\n          readinessProbe:\n            httpGet:\n              path: /readyz\n              port: ");
    push_decimal(&mut s, port as u64);
    s.append("\n              scheme: ");
    s.append(probe_scheme);
    s.append("\n            initialDelaySeconds: 3\n            periodSeconds: 5\n          resources:\n            requests:\n              memory: \"64Mi\"\n              cpu: \"100m\"\n            limits:\n              memory: \"128Mi\"\n              cpu: \"250m\"\n          securityContext:\n            runAsNonRoot: true\n            readOnlyRootFilesystem: true\n");
    s.append(volume_mounts_section);
    s.append(volumes_section);
    assert(s@ =~= deployment_yaml(
        component@,
        port as nat,
        str_views(args@),
        volume_mounts@,
        volumes@,
        probe_scheme@,
    ));
    s
}

/// The Deployment of the `watch` component.
pub fn generate_deployment_watch() -> (r: String)
    ensures
        r@ == deployment_yaml("watch"@, 8080, seq!["watch"@], ""@, ""@, "HTTP"@),
{
    let args: Vec<&str> = vec!["watch"];
    assert(str_views(args@) =~= seq!["watch"@]);
    generate_deployment("watch", 8080, args.as_slice(), "", "", "HTTP")
}

/// The Deployment of the `reconcile` component.
pub fn generate_deployment_reconcile() -> (r: String)
    ensures
        r@ == deployment_yaml("reconcile"@, 9090, seq!["reconcile"@], ""@, ""@, "HTTP"@),
{
    let args: Vec<&str> = vec!["reconcile"];
    assert(str_views(args@) =~= seq!["reconcile"@]);
    generate_deployment("reconcile", 9090, args.as_slice(), "", "", "HTTP")
}

/// The Deployment of the `webhook` component.
pub fn generate_deployment_webhook() -> (r: String)
    ensures
        r@ == deployment_yaml("webhook"@, 8443, seq!["webhook"@, "serve"@, "--tls-cert"@, "/tls/tls.crt"@, "--tls-key"@, "/tls/tls.key"@], "            - name: tls-certs\n              mountPath: /tls\n              readOnly: true\n"@, "        - name: tls-certs\n          secret:\n            secretName: kube-devops-webhook-tls\n"@, "HTTPS"@),
{
    let args: Vec<&str> = vec!["webhook", "serve", "--tls-cert", "/tls/tls.crt", "--tls-key", "/tls/tls.key"];
    assert(str_views(args@) =~= seq!["webhook"@, "serve"@, "--tls-cert"@, "/tls/tls.crt"@, "--tls-key"@, "/tls/tls.key"@]);
    generate_deployment("webhook", 8443, args.as_slice(), "            - name: tls-certs\n              mountPath: /tls\n              readOnly: true\n", "        - name: tls-certs\n          secret:\n            secretName: kube-devops-webhook-tls\n", "HTTPS")
}

/// The PodDisruptionBudget of one controller component.
pub open spec fn pdb_yaml(component: Seq<char>) -> Seq<char> {
    "apiVersion: policy/v1\nkind: PodDisruptionBudget\nmetadata:\n  name: kube-devops-"@ + component + "\n  namespace: kube-devops\n  labels:\n    app.kubernetes.io/name: kube-devops\n    app.kubernetes.io/component: "@ + component + "\nspec:\n  minAvailable: 1\n  selector:\n    matchLabels:\n      app.kubernetes.io/name: kube-devops\n      app.kubernetes.io/component: "@ + component + "\n"@
}

/// The PodDisruptionBudget of one controller component: at least one
/// replica stays available.
pub fn generate_pdb(component: &str) -> (r: String)
    ensures
        r@ == pdb_yaml(component@),
{
    let mut s = String::new();
    s.append("apiVersion: policy/v1\nkind: PodDisruptionBudget\nmetadata:\n  name: kube-devops-");
    s.append(component);
    s.append("\n  namespace: kube-devops\n  labels:\n    app.kubernetes.io/name: kube-devops\n    app.kubernetes.io/component: ");
    s.append(component);
    s.append("\nspec:\n  minAvailable: 1\n  selector:\n    matchLabels:\n      app.kubernetes.io/name: kube-devops\n      app.kubernetes.io/component: ");
    s.append(component);
    s.append("\n");
    assert(s@ =~= pdb_yaml(component@));
    s
}

/// The PodDisruptionBudget of the `watch` component.
pub fn generate_pdb_watch() -> (r: String)
    ensures
        r@ == pdb_yaml("watch"@),
{
    generate_pdb("watch")
}

/// The PodDisruptionBudget of the `reconcile` component.
pub fn generate_pdb_reconcile() -> (r: String)
    ensures
        r@ == pdb_yaml("reconcile"@),
{
    generate_pdb("reconcile")
}

/// The PodDisruptionBudget of the `webhook` component.
pub fn generate_pdb_webhook() -> (r: String)
    ensures
        r@ == pdb_yaml("webhook"@),
{
    generate_pdb("webhook")
}

/// Every manifest, separated by document markers.
pub fn generate_all() -> (r: String)
    ensures
        r@ == namespace_yaml() + SEPARATOR@ + service_account_yaml() + SEPARATOR@ + cluster_role_yaml() + SEPARATOR@ + cluster_role_binding_yaml() + SEPARATOR@ + deployment_yaml("watch"@, 8080, seq!["watch"@], ""@, ""@, "HTTP"@) + SEPARATOR@ + deployment_yaml("reconcile"@, 9090, seq!["reconcile"@], ""@, ""@, "HTTP"@) + SEPARATOR@ + deployment_yaml("webhook"@, 8443, seq!["webhook"@, "serve"@, "--tls-cert"@, "/tls/tls.crt"@, "--tls-key"@, "/tls/tls.key"@], "            - name: tls-certs\n              mountPath: /tls\n              readOnly: true\n"@, "        - name: tls-certs\n          secret:\n            secretName: kube-devops-webhook-tls\n"@, "HTTPS"@) + SEPARATOR@ + pdb_yaml("watch"@) + SEPARATOR@ + pdb_yaml("reconcile"@) + SEPARATOR@ + pdb_yaml("webhook"@),
{
    let mut s = generate_namespace();
    s.append(SEPARATOR);
    let part = generate_service_account();
    s.append(part.as_str());
    s.append(SEPARATOR);
    let part = generate_cluster_role();
    s.append(part.as_str());
    s.append(SEPARATOR);
    let part = generate_cluster_role_binding();
    s.append(part.as_str());
    s.append(SEPARATOR);
    let part = generate_deployment_watch();
    s.append(part.as_str());
    s.append(SEPARATOR);
    let part = generate_deployment_reconcile();
    s.append(part.as_str());
    s.append(SEPARATOR);
    let part = generate_deployment_webhook();
    s.append(part.as_str());
    s.append(SEPARATOR);
    let part = generate_pdb_watch();
    s.append(part.as_str());
    s.append(SEPARATOR);
    let part = generate_pdb_reconcile();
    s.append(part.as_str());
    s.append(SEPARATOR);
    let part = generate_pdb_webhook();
    s.append(part.as_str());
    s
}

/// The service account, cluster role and binding.
pub fn generate_rbac() -> (r: String)
    ensures
        r@ == service_account_yaml() + SEPARATOR@ + cluster_role_yaml() + SEPARATOR@ + cluster_role_binding_yaml(),
{
    let mut s = generate_service_account();
    s.append(SEPARATOR);
    let part = generate_cluster_role();
    s.append(part.as_str());
    s.append(SEPARATOR);
    let part = generate_cluster_role_binding();
    s.append(part.as_str());
    s
}

/// The three component Deployments.
pub fn generate_deployments() -> (r: String)
    ensures
        r@ == deployment_yaml("watch"@, 8080, seq!["watch"@], ""@, ""@, "HTTP"@) + SEPARATOR@ + deployment_yaml("reconcile"@, 9090, seq!["reconcile"@], ""@, ""@, "HTTP"@) + SEPARATOR@ + deployment_yaml("webhook"@, 8443, seq!["webhook"@, "serve"@, "--tls-cert"@, "/tls/tls.crt"@, "--tls-key"@, "/tls/tls.key"@], "            - name: tls-certs\n              mountPath: /tls\n              readOnly: true\n"@, "        - name: tls-certs\n          secret:\n            secretName: kube-devops-webhook-tls\n"@, "HTTPS"@),
{
    let mut s = generate_deployment_watch();
    s.append(SEPARATOR);
    let part = generate_deployment_reconcile();
    s.append(part.as_str());
    s.append(SEPARATOR);
    let part = generate_deployment_webhook();
    s.append(part.as_str());
    s
}

} // verus!
