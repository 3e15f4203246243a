//! The watch aggregator: per-namespace counters kept up to date from a
//! stream of pod events, and the lease rule for electing its leader.

use vstd::prelude::*;

use crate::governance::{
    builtin_contribution, calculate_health_score, evaluate_pod, health_score, is_system_namespace,
    system_namespace, MetricsModel, PodMetrics,
};
use crate::pod::{namespace_of, pod_within_limits, PodInfo};
use crate::text::str_eq;

verus! {

/* ============================= MAP MODEL ============================= */

/// The map from keys to values that a list of distinct-keyed entries holds.
pub open spec fn entries_map<V>(s: Seq<(Seq<char>, V)>) -> Map<Seq<char>, V>
    decreases s.len(),
{
    if s.len() == 0 {
        Map::empty()
    } else {
        entries_map(s.drop_last()).insert(s.last().0, s.last().1)
    }
}

/// No two entries share a key.
pub open spec fn distinct_keys<V>(s: Seq<(Seq<char>, V)>) -> bool {
    forall|i: int, j: int| 0 <= i < j < s.len() ==> (#[trigger] s[i]).0 != (#[trigger] s[j]).0
}

proof fn lemma_entries_lookup<V>(s: Seq<(Seq<char>, V)>, k: Seq<char>)
    requires
        distinct_keys(s),
    ensures
        entries_map(s).contains_key(k) <==> exists|i: int| 0 <= i < s.len() && (#[trigger] s[i]).0 == k,
        forall|i: int| 0 <= i < s.len() && (#[trigger] s[i]).0 == k ==> entries_map(s)[k] == s[i].1,
    decreases s.len(),
{
    if s.len() > 0 {
        let t = s.drop_last();
        assert(distinct_keys(t)) by {
            assert forall|i: int, j: int| 0 <= i < j < t.len() implies (#[trigger] t[i]).0 != (#[trigger] t[j]).0 by {
                assert(t[i] == s[i] && t[j] == s[j]);
            }
        }
        lemma_entries_lookup(t, k);
        if entries_map(s).contains_key(k) && k != s.last().0 {
            let i = choose|i: int| 0 <= i < t.len() && (#[trigger] t[i]).0 == k;
            assert(s[i] == t[i]);
        }
        if exists|i: int| 0 <= i < s.len() && (#[trigger] s[i]).0 == k {
            let i = choose|i: int| 0 <= i < s.len() && (#[trigger] s[i]).0 == k;
            if i < s.len() - 1 {
                assert(t[i] == s[i]);
            }
        }
        assert forall|i: int| 0 <= i < s.len() && (#[trigger] s[i]).0 == k implies entries_map(s)[k] == s[i].1 by {
            if i < s.len() - 1 {
                assert(t[i] == s[i]);
                assert(s[i].0 != s.last().0);
            }
        }
    }
}

proof fn lemma_entries_update<V>(s: Seq<(Seq<char>, V)>, i: int, v: V)
    requires
        distinct_keys(s),
        0 <= i < s.len(),
    ensures
        entries_map(s.update(i, (s[i].0, v))) == entries_map(s).insert(s[i].0, v),
        distinct_keys(s.update(i, (s[i].0, v))),
    decreases s.len(),
{
    let u = s.update(i, (s[i].0, v));
    assert(distinct_keys(u)) by {
        assert forall|a: int, b: int| 0 <= a < b < u.len() implies (#[trigger] u[a]).0 != (#[trigger] u[b]).0 by {
            assert(u[a].0 == s[a].0 && u[b].0 == s[b].0);
        }
    }
    let t = s.drop_last();
    assert(distinct_keys(t)) by {
        assert forall|a: int, b: int| 0 <= a < b < t.len() implies (#[trigger] t[a]).0 != (#[trigger] t[b]).0 by {
            assert(t[a] == s[a] && t[b] == s[b]);
        }
    }
    if i == s.len() - 1 {
        assert(u.drop_last() =~= t);
        assert(entries_map(u) =~= entries_map(s).insert(s[i].0, v));
    } else {
        lemma_entries_update(t, i, v);
        assert(u.drop_last() =~= t.update(i, (t[i].0, v)));
        assert(s.last().0 != s[i].0);
        assert(entries_map(u) =~= entries_map(s).insert(s[i].0, v));
    }
}

proof fn lemma_entries_remove<V>(s: Seq<(Seq<char>, V)>, i: int)
    requires
        distinct_keys(s),
        0 <= i < s.len(),
    ensures
        entries_map(s.remove(i)) == entries_map(s).remove(s[i].0),
        distinct_keys(s.remove(i)),
    decreases s.len(),
{
    let r = s.remove(i);
    assert(distinct_keys(r)) by {
        assert forall|a: int, b: int| 0 <= a < b < r.len() implies (#[trigger] r[a]).0 != (#[trigger] r[b]).0 by {
            let oa = if a < i { a } else { a + 1 };
            let ob = if b < i { b } else { b + 1 };
            assert(r[a] == s[oa] && r[b] == s[ob]);
        }
    }
    let t = s.drop_last();
    assert(distinct_keys(t)) by {
        assert forall|a: int, b: int| 0 <= a < b < t.len() implies (#[trigger] t[a]).0 != (#[trigger] t[b]).0 by {
            assert(t[a] == s[a] && t[b] == s[b]);
        }
    }
    lemma_entries_lookup(t, s[i].0);
    if i == s.len() - 1 {
        assert(r =~= t);
        assert forall|j: int| 0 <= j < t.len() implies (#[trigger] t[j]).0 != s[i].0 by {
            assert(t[j] == s[j]);
        }
        assert(entries_map(r) =~= entries_map(s).remove(s[i].0));
    } else {
        lemma_entries_remove(t, i);
        assert(r.drop_last() =~= t.remove(i));
        assert(r.last() == s.last());
        assert(s.last().0 != s[i].0);
        assert(entries_map(r) =~= entries_map(s).remove(s[i].0));
    }
}

proof fn lemma_entries_push<V>(s: Seq<(Seq<char>, V)>, k: Seq<char>, v: V)
    requires
        distinct_keys(s),
        !entries_map(s).contains_key(k),
    ensures
        entries_map(s.push((k, v))) == entries_map(s).insert(k, v),
        distinct_keys(s.push((k, v))),
{
    lemma_entries_lookup(s, k);
    let p = s.push((k, v));
    assert(p.drop_last() =~= s);
    assert(distinct_keys(p)) by {
        assert forall|a: int, b: int| 0 <= a < b < p.len() implies (#[trigger] p[a]).0 != (#[trigger] p[b]).0 by {
            if b == s.len() {
                assert(p[a] == s[a]);
            } else {
                assert(p[a] == s[a] && p[b] == s[b]);
            }
        }
    }
}

/* ============================= STATE ============================= */

/// A pod being tracked: its key, its namespace and its contribution.
#[derive(Debug, Clone)]
pub struct TrackedPod {
    pub key: String,
    pub namespace: String,
    pub metrics: PodMetrics,
}

/// The summed counters of one namespace.
#[derive(Debug, Clone)]
pub struct NamespaceTotals {
    pub namespace: String,
    pub metrics: PodMetrics,
}

/// The aggregator's state: tracked pods and per-namespace totals.
#[derive(Debug, Clone)]
pub struct WatchState {
    pub pods: Vec<TrackedPod>,
    pub namespaces: Vec<NamespaceTotals>,
    /// An event has been processed.
    pub ready: bool,
}

/// The tracked pods as keyed entries.
pub open spec fn pod_entries(ps: Seq<TrackedPod>) -> Seq<(Seq<char>, (Seq<char>, MetricsModel))> {
    ps.map_values(|p: TrackedPod| (p.key@, (p.namespace@, p.metrics@)))
}

/// The namespace totals as keyed entries.
pub open spec fn namespace_entries(ns: Seq<NamespaceTotals>) -> Seq<(Seq<char>, MetricsModel)> {
    ns.map_values(|n: NamespaceTotals| (n.namespace@, n.metrics@))
}

/// Pods by key: their namespace and contribution.
pub type PodMap = Map<Seq<char>, (Seq<char>, MetricsModel)>;

/// Namespace totals by namespace.
pub type NamespaceMap = Map<Seq<char>, MetricsModel>;

/// The outcome of an event on the two maps.
pub struct WatchModel {
    pub pods: PodMap,
    pub namespaces: NamespaceMap,
    /// Every counter fitted; otherwise the pod whose counters did not fit
    /// is no longer tracked.
    pub ok: bool,
}

impl WatchState {
    /// Pods by key.
    pub open spec fn pod_map(&self) -> PodMap {
        entries_map(pod_entries(self.pods@))
    }

    /// Totals by namespace.
    pub open spec fn namespace_map(&self) -> NamespaceMap {
        entries_map(namespace_entries(self.namespaces@))
    }

    /// The state's invariant: keys are unique in both tables, every
    /// namespace total is the sum of the contributions of the tracked pods in
    /// that namespace, and every tracked pod's namespace has a total.
    pub open spec fn wf(&self) -> bool {
        &&& self.tables_wf()
        &&& self.consistent()
    }

    /// Each namespace total is the sum of its tracked pods' contributions,
    /// and every tracked pod's namespace has a total.
    pub open spec fn consistent(&self) -> bool {
        &&& forall|n: Seq<char>|
            #[trigger] self.namespace_map().contains_key(n) ==> self.namespace_map()[n]
                == namespace_sum(self.pods@, n)
        &&& forall|i: int|
            0 <= i < self.pods@.len() ==> self.namespace_map().contains_key(
                (#[trigger] self.pods@[i]).namespace@,
            )
    }

    /// Keys are unique in both tables and no counter is negative.
    pub open spec fn tables_wf(&self) -> bool {
        &&& distinct_keys(pod_entries(self.pods@))
        &&& distinct_keys(namespace_entries(self.namespaces@))
        &&& forall|i: int| 0 <= i < self.namespaces@.len() ==> (#[trigger] self.namespaces@[i]).metrics@.nonneg()
        &&& forall|i: int| 0 <= i < self.pods@.len() ==> (#[trigger] self.pods@[i]).metrics@.nonneg()
    }
}

/// The summed contributions of the tracked pods in namespace `n`.
pub open spec fn namespace_sum(ps: Seq<TrackedPod>, n: Seq<char>) -> MetricsModel
    decreases ps.len(),
{
    if ps.len() == 0 {
        MetricsModel::zero()
    } else if ps.last().namespace@ == n {
        namespace_sum(ps.drop_last(), n).plus(ps.last().metrics@)
    } else {
        namespace_sum(ps.drop_last(), n)
    }
}

proof fn lemma_namespace_sum_nonneg(ps: Seq<TrackedPod>, n: Seq<char>)
    ensures
        namespace_sum(ps, n).nonneg(),
    decreases ps.len(),
{
    if ps.len() > 0 {
        lemma_namespace_sum_nonneg(ps.drop_last(), n);
    }
}

proof fn lemma_namespace_sum_absent(ps: Seq<TrackedPod>, n: Seq<char>)
    requires
        forall|k: int| 0 <= k < ps.len() ==> (#[trigger] ps[k]).namespace@ != n,
    ensures
        namespace_sum(ps, n) == MetricsModel::zero(),
    decreases ps.len(),
{
    if ps.len() > 0 {
        let q = ps.drop_last();
        assert forall|k: int| 0 <= k < q.len() implies (#[trigger] q[k]).namespace@ != n by {
            assert(q[k] == ps[k]);
        }
        lemma_namespace_sum_absent(q, n);
    }
}

/// The contribution of a pod to namespace `n`.
pub open spec fn share(p: TrackedPod, n: Seq<char>) -> MetricsModel {
    if p.namespace@ == n {
        p.metrics@
    } else {
        MetricsModel::zero()
    }
}

proof fn lemma_namespace_sum_remove(ps: Seq<TrackedPod>, i: int, n: Seq<char>)
    requires
        0 <= i < ps.len(),
    ensures
        namespace_sum(ps, n) == namespace_sum(ps.remove(i), n).plus(share(ps[i], n)),
    decreases ps.len(),
{
    let q = ps.drop_last();
    if i == ps.len() - 1 {
        assert(ps.remove(i) =~= q);
    } else {
        lemma_namespace_sum_remove(q, i, n);
        assert(ps.remove(i).drop_last() =~= q.remove(i));
        assert(ps.remove(i).last() == ps.last());
        assert(q[i] == ps[i]);
    }
}

proof fn lemma_forget_consistent(s0: WatchState, s1: WatchState, i: int)
    requires
        s0.wf(),
        0 <= i < s0.pods@.len(),
        s1.pods@ == s0.pods@.remove(i),
        s1.namespace_map() == subtract_at(
            s0.namespace_map(),
            s0.pods@[i].namespace@,
            s0.pods@[i].metrics@,
        ),
    ensures
        s1.consistent(),
{
    let big_n = s0.pods@[i].namespace@;
    assert forall|n: Seq<char>| #[trigger] s1.namespace_map().contains_key(n) implies s1.namespace_map()[n]
        == namespace_sum(s1.pods@, n) by {
        lemma_namespace_sum_remove(s0.pods@, i, n);
        lemma_namespace_sum_nonneg(s1.pods@, n);
        assert(s0.namespace_map().contains_key(n));
    }
    assert forall|k: int| 0 <= k < s1.pods@.len() implies s1.namespace_map().contains_key(
        (#[trigger] s1.pods@[k]).namespace@,
    ) by {
        let k0 = if k < i { k } else { k + 1 };
        assert(s1.pods@[k] == s0.pods@[k0]);
        assert(s0.namespace_map().contains_key(s0.pods@[k0].namespace@));
    }
}

proof fn lemma_add_consistent(s1: WatchState, s3: WatchState, p: TrackedPod)
    requires
        s1.wf(),
        s3.pods@ == s1.pods@.push(p),
        s3.namespace_map() == s1.namespace_map().insert(
            p.namespace@,
            (if s1.namespace_map().contains_key(p.namespace@) {
                s1.namespace_map()[p.namespace@]
            } else {
                MetricsModel::zero()
            }).plus(p.metrics@),
        ),
    ensures
        s3.consistent(),
{
    let ns = p.namespace@;
    assert(s3.pods@.drop_last() =~= s1.pods@);
    if !s1.namespace_map().contains_key(ns) {
        assert forall|k: int| 0 <= k < s1.pods@.len() implies (#[trigger] s1.pods@[k]).namespace@ != ns by {
            assert(s1.namespace_map().contains_key(s1.pods@[k].namespace@));
        }
        lemma_namespace_sum_absent(s1.pods@, ns);
    }
    assert forall|n: Seq<char>| #[trigger] s3.namespace_map().contains_key(n) implies s3.namespace_map()[n]
        == namespace_sum(s3.pods@, n) by {
        if n != ns {
            assert(s1.namespace_map().contains_key(n));
        }
    }
    assert forall|k: int| 0 <= k < s3.pods@.len() implies s3.namespace_map().contains_key(
        (#[trigger] s3.pods@[k]).namespace@,
    ) by {
        if k < s1.pods@.len() {
            assert(s3.pods@[k] == s1.pods@[k]);
            assert(s1.namespace_map().contains_key(s1.pods@[k].namespace@));
        }
    }
}

/// Totals for `ns` with `d` taken out, when `ns` is known.
pub open spec fn subtract_at(m: NamespaceMap, ns: Seq<char>, d: MetricsModel) -> NamespaceMap {
    if m.contains_key(ns) {
        m.insert(ns, m[ns].minus_saturating(d))
    } else {
        m
    }
}

/// The key of a pod: `namespace/name`, each empty when unset.
pub open spec fn pod_key(pod: PodInfo) -> Seq<char> {
    namespace_of(pod) + "/"@ + match pod.name {
        Some(n) => n@,
        None => Seq::empty(),
    }
}

/// The maps with the pod's tracked contribution, if any, taken out.
pub open spec fn forget(pods: PodMap, nss: NamespaceMap, key: Seq<char>) -> (PodMap, NamespaceMap) {
    if pods.contains_key(key) {
        (pods.remove(key), subtract_at(nss, pods[key].0, pods[key].1))
    } else {
        (pods, nss)
    }
}

/// An applied pod: pods in system namespaces are ignored; otherwise its old
/// contribution is taken out and its new one added under its namespace.
pub open spec fn watch_apply(pods: PodMap, nss: NamespaceMap, pod: PodInfo) -> WatchModel {
    let ns = namespace_of(pod);
    if system_namespace(ns) {
        WatchModel { pods, namespaces: nss, ok: true }
    } else {
        let key = pod_key(pod);
        let (p1, n1) = forget(pods, nss, key);
        let c = builtin_contribution(pod);
        let base = if n1.contains_key(ns) {
            n1[ns]
        } else {
            MetricsModel::zero()
        };
        if base.plus(c).fits_u32() {
            WatchModel { pods: p1.insert(key, (ns, c)), namespaces: n1.insert(ns, base.plus(c)), ok: true }
        } else {
            WatchModel { pods: p1, namespaces: n1, ok: false }
        }
    }
}

/// Pods applied one after the other.
pub open spec fn watch_apply_all(pods: PodMap, nss: NamespaceMap, list: Seq<PodInfo>) -> WatchModel
    decreases list.len(),
{
    if list.len() == 0 {
        WatchModel { pods, namespaces: nss, ok: true }
    } else {
        let before = watch_apply_all(pods, nss, list.drop_last());
        let after = watch_apply(before.pods, before.namespaces, list.last());
        WatchModel { pods: after.pods, namespaces: after.namespaces, ok: before.ok && after.ok }
    }
}

impl WatchState {
    /// An empty state, not yet ready.
    pub fn new() -> (r: WatchState)
        ensures
            r.wf(),
            r.pod_map() == PodMap::empty(),
            r.namespace_map() == NamespaceMap::empty(),
            !r.ready,
    {
        let r = WatchState { pods: Vec::new(), namespaces: Vec::new(), ready: false };
        assert(pod_entries(r.pods@) =~= Seq::empty());
        assert(namespace_entries(r.namespaces@) =~= Seq::empty());
        r
    }

    fn find_pod(&self, key: &str) -> (r: Option<usize>)
        requires
            self.tables_wf(),
        ensures
            match r {
                Some(i) => i < self.pods@.len() && self.pods@[i as int].key@ == key@,
                None => !self.pod_map().contains_key(key@),
            },
    {
        let mut i: usize = 0;
        while i < self.pods.len()
            invariant
                i <= self.pods@.len(),
                forall|j: int| 0 <= j < i ==> (#[trigger] self.pods@[j]).key@ != key@,
            decreases self.pods@.len() - i,
        {
            if str_eq(self.pods[i].key.as_str(), key) {
                return Some(i);
            }
            i += 1;
        }
        proof {
            let es = pod_entries(self.pods@);
            lemma_entries_lookup(es, key@);
            assert forall|j: int| 0 <= j < es.len() implies (#[trigger] es[j]).0 != key@ by {
                assert(es[j].0 == self.pods@[j].key@);
            }
        }
        None
    }

    fn find_namespace(&self, ns: &str) -> (r: Option<usize>)
        requires
            self.tables_wf(),
        ensures
            match r {
                Some(i) => i < self.namespaces@.len() && self.namespaces@[i as int].namespace@ == ns@,
                None => !self.namespace_map().contains_key(ns@),
            },
    {
        let mut i: usize = 0;
        while i < self.namespaces.len()
            invariant
                i <= self.namespaces@.len(),
                forall|j: int| 0 <= j < i ==> (#[trigger] self.namespaces@[j]).namespace@ != ns@,
            decreases self.namespaces@.len() - i,
        {
            if str_eq(self.namespaces[i].namespace.as_str(), ns) {
                return Some(i);
            }
            i += 1;
        }
        proof {
            let es = namespace_entries(self.namespaces@);
            lemma_entries_lookup(es, ns@);
            assert forall|j: int| 0 <= j < es.len() implies (#[trigger] es[j]).0 != ns@ by {
                assert(es[j].0 == self.namespaces@[j].namespace@);
            }
        }
        None
    }

    /// Stops tracking the pod with `key`, taking its contribution out of its
    /// namespace's totals.
    fn forget_key(&mut self, key: &str)
        requires
            old(self).wf(),
        ensures
            final(self).wf(),
            final(self).ready == old(self).ready,
            (final(self).pod_map(), final(self).namespace_map()) == forget(
                old(self).pod_map(),
                old(self).namespace_map(),
                key@,
            ),
    {
        let ghost s0 = *self;
        match self.find_pod(key) {
            None => {},
            Some(i) => {
                let ghost pes = pod_entries(self.pods@);
                proof {
                    lemma_entries_lookup(pes, key@);
                    assert(pes[i as int].0 == key@);
                }
                let tracked_pod = self.pods.remove(i);
                proof {
                    lemma_entries_remove(pes, i as int);
                    assert(pod_entries(self.pods@) =~= pes.remove(i as int));
                }
                assert(tracked_pod == s0.pods@[i as int]);
                match self.find_namespace(tracked_pod.namespace.as_str()) {
                    None => {},
                    Some(j) => {
                        let ghost nes = namespace_entries(self.namespaces@);
                        assert(entries_map(nes) == s0.namespace_map());
                        let mut m = self.namespaces[j].metrics;
                        subtract_metrics_into(&mut m, &tracked_pod.metrics);
                        let ns = self.namespaces[j].namespace.clone();
                        self.namespaces.set(j, NamespaceTotals { namespace: ns, metrics: m });
                        proof {
                            lemma_entries_lookup(nes, tracked_pod.namespace@);
                            lemma_entries_update(nes, j as int, m@);
                            assert(namespace_entries(self.namespaces@) =~= nes.update(j as int, (nes[j as int].0, m@)));
                            assert(nes[j as int].0 == tracked_pod.namespace@);
                            assert(entries_map(nes).contains_key(tracked_pod.namespace@));
                        }
                    },
                }
                proof {
                    lemma_forget_consistent(s0, *self, i as int);
                }
            },
        }
    }

    /// Applies a pod: see `watch_apply`. Returns whether every counter fitted.
    pub fn apply_pod(&mut self, pod: &PodInfo) -> (ok: bool)
        requires
            old(self).wf(),
            pod_within_limits(*pod),
        ensures
            final(self).wf(),
            ({
                let m = watch_apply(old(self).pod_map(), old(self).namespace_map(), *pod);
                &&& final(self).pod_map() == m.pods
                &&& final(self).namespace_map() == m.namespaces
                &&& ok == m.ok
            }),
            final(self).ready == (old(self).ready || !system_namespace(namespace_of(*pod))),
    {
        let ns = pod.namespace_or_empty();
        if is_system_namespace(ns) {
            return true;
        }
        let mut key = ns.to_owned();
        key.append("/");
        match &pod.name {
            Some(n) => key.append(n.as_str()),
            None => {},
        }
        assert(key@ =~= pod_key(*pod));
        self.forget_key(key.as_str());
        let ghost s1 = *self;
        let contribution = evaluate_pod(pod);
        let ok = self.add_to_namespace(ns, &contribution);
        if ok {
            let ghost pes = pod_entries(self.pods@);
            proof {
                lemma_entries_push(pes, key@, (ns@, contribution@));
            }
            let tracked_pod = TrackedPod { key, namespace: ns.to_owned(), metrics: contribution };
            let ghost p = tracked_pod;
            self.pods.push(tracked_pod);
            assert(pod_entries(self.pods@) =~= pes.push((pod_key(*pod), (ns@, contribution@))));
            proof {
                lemma_add_consistent(s1, *self, p);
            }
        }
        self.ready = true;
        ok
    }

    /// Adds `d` to the totals of `ns` (creating them); leaves the state as it
    /// is and returns false when a total would not fit.
    fn add_to_namespace(&mut self, ns: &str, d: &PodMetrics) -> (ok: bool)
        requires
            old(self).tables_wf(),
            d@.nonneg(),
        ensures
            final(self).tables_wf(),
            final(self).pods@ == old(self).pods@,
            final(self).ready == old(self).ready,
            final(self).pod_map() == old(self).pod_map(),
            ({
                let base = if old(self).namespace_map().contains_key(ns@) {
                    old(self).namespace_map()[ns@]
                } else {
                    MetricsModel::zero()
                };
                &&& ok == base.plus(d@).fits_u32()
                &&& ok ==> final(self).namespace_map() == old(self).namespace_map().insert(ns@, base.plus(d@))
                &&& !ok ==> final(self).namespace_map() == old(self).namespace_map()
            }),
    {
        let ghost nes = namespace_entries(self.namespaces@);
        match self.find_namespace(ns) {
            Some(j) => {
                proof {
                    lemma_entries_lookup(nes, ns@);
                    assert(nes[j as int].0 == ns@);
                    assert(self.namespaces@[j as int].metrics@.nonneg());
                }
                let cur = self.namespaces[j].metrics;
                match crate::governance::checked_add(&cur, d) {
                    None => false,
                    Some(m) => {
                        let name = self.namespaces[j].namespace.clone();
                        self.namespaces.set(j, NamespaceTotals { namespace: name, metrics: m });
                        proof {
                            lemma_entries_update(nes, j as int, m@);
                            assert(namespace_entries(self.namespaces@) =~= nes.update(j as int, (nes[j as int].0, m@)));
                        }
                        true
                    },
                }
            },
            None => {
                let zero = PodMetrics::default();
                match crate::governance::checked_add(&zero, d) {
                    None => false,
                    Some(m) => {
                        proof {
                            lemma_entries_push(nes, ns@, m@);
                        }
                        self.namespaces.push(NamespaceTotals { namespace: ns.to_owned(), metrics: m });
                        assert(namespace_entries(self.namespaces@) =~= nes.push((ns@, m@)));
                        true
                    },
                }
            },
        }
    }

    /// Handles a deleted pod: its tracked contribution, if any, is taken out.
    pub fn delete_pod(&mut self, pod: &PodInfo)
        requires
            old(self).wf(),
        ensures
            final(self).wf(),
            final(self).ready == old(self).ready,
            (final(self).pod_map(), final(self).namespace_map()) == forget(
                old(self).pod_map(),
                old(self).namespace_map(),
                pod_key(*pod),
            ),
    {
        let mut key = pod.namespace_or_empty().to_owned();
        key.append("/");
        match &pod.name {
            Some(n) => key.append(n.as_str()),
            None => {},
        }
        assert(key@ =~= pod_key(*pod));
        self.forget_key(key.as_str());
    }

    /// Handles a relist: both tables are cleared and every pod is applied in
    /// order. Returns whether every counter fitted.
    pub fn restart(&mut self, pods: &[PodInfo]) -> (ok: bool)
        requires
            forall|i: int| 0 <= i < pods@.len() ==> pod_within_limits(#[trigger] pods@[i]),
        ensures
            final(self).wf(),
            final(self).ready,
            ({
                let m = watch_apply_all(PodMap::empty(), NamespaceMap::empty(), pods@);
                &&& final(self).pod_map() == m.pods
                &&& final(self).namespace_map() == m.namespaces
                &&& ok == m.ok
            }),
    {
        *self = WatchState::new();
        let mut ok = true;
        let mut i: usize = 0;
        while i < pods.len()
            invariant
                forall|k: int| 0 <= k < pods@.len() ==> pod_within_limits(#[trigger] pods@[k]),
                i <= pods@.len(),
                self.wf(),
                ({
                    let m = watch_apply_all(PodMap::empty(), NamespaceMap::empty(), pods@.subrange(0, i as int));
                    &&& self.pod_map() == m.pods
                    &&& self.namespace_map() == m.namespaces
                    &&& ok == m.ok
                }),
            decreases pods@.len() - i,
        {
            proof {
                assert(pods@.subrange(0, i + 1).drop_last() =~= pods@.subrange(0, i as int));
                assert(pods@.subrange(0, i + 1).last() == pods@[i as int]);
            }
            let applied = self.apply_pod(&pods[i]);
            ok = ok && applied;
            i += 1;
        }
        assert(pods@.subrange(0, pods@.len() as int) =~= pods@);
        self.ready = true;
        ok
    }

    /// The health score of each namespace, in table order.
    pub fn namespace_scores(&self) -> (r: Vec<(String, u32)>)
        ensures
            r@.len() == self.namespaces@.len(),
            forall|i: int|
                0 <= i < r@.len() ==> (#[trigger] r@[i]).0@ == self.namespaces@[i].namespace@ && r@[i].1
                    == health_score(self.namespaces@[i].metrics@),
    {
        let mut out: Vec<(String, u32)> = Vec::new();
        let mut i: usize = 0;
        while i < self.namespaces.len()
            invariant
                i <= self.namespaces@.len(),
                out@.len() == i,
                forall|k: int|
                    0 <= k < i ==> (#[trigger] out@[k]).0@ == self.namespaces@[k].namespace@ && out@[k].1
                        == health_score(self.namespaces@[k].metrics@),
            decreases self.namespaces@.len() - i,
        {
            let n = &self.namespaces[i];
            out.push((n.namespace.clone(), calculate_health_score(&n.metrics)));
            i += 1;
        }
        out
    }

    /// The cluster score: the unweighted mean of the namespace scores, floored;
    /// `None` without namespaces.
    pub fn cluster_score(&self) -> (r: Option<u32>)
        ensures
            self.namespaces@.len() == 0 ==> r is None,
            self.namespaces@.len() > 0 ==> r == Some(
                (score_sum(self.namespaces@) / self.namespaces@.len() as int) as u32,
            ),
    {
        let n = self.namespaces.len();
        if n == 0 {
            return None;
        }
        let mut total: u128 = 0;
        let mut i: usize = 0;
        while i < n
            invariant
                n == self.namespaces@.len(),
                i <= n,
                total == score_sum(self.namespaces@.subrange(0, i as int)),
                total <= 100 * i,
            decreases n - i,
        {
            proof {
                assert(self.namespaces@.subrange(0, i + 1).drop_last() =~= self.namespaces@.subrange(0, i as int));
                assert(self.namespaces@.subrange(0, i + 1).last() == self.namespaces@[i as int]);
                crate::governance::law_score_in_range(self.namespaces@[i as int].metrics@);
            }
            total = total + calculate_health_score(&self.namespaces[i].metrics) as u128;
            i += 1;
        }
        assert(self.namespaces@.subrange(0, n as int) =~= self.namespaces@);
        proof {
            vstd::arithmetic::div_mod::lemma_div_is_ordered(total as int, 100 * n, n as int);
            vstd::arithmetic::div_mod::lemma_div_multiples_vanish(100, n as int);
        }
        Some((total / n as u128) as u32)
    }
}

/// The sum of the namespace scores.
pub open spec fn score_sum(ns: Seq<NamespaceTotals>) -> int
    decreases ns.len(),
{
    if ns.len() == 0 {
        0
    } else {
        score_sum(ns.drop_last()) + health_score(ns.last().metrics@)
    }
}

fn subtract_metrics_into(m: &mut PodMetrics, d: &PodMetrics)
    ensures
        final(m)@ == old(m)@.minus_saturating(d@),
        final(m)@.nonneg(),
{
    crate::governance::subtract_metrics(m, d);
}

/* ============================= LEADER LEASE ============================= */

/// The lease name contenders compete for.
pub const LEASE_NAME: &'static str = "kube-devops-leader";

/// The lease duration, in seconds.
pub const LEASE_DURATION_SECONDS: i32 = 15;

/// Seconds between renewals by the holder.
pub const LEASE_RENEW_SECONDS: u64 = 5;

/// A lease may be taken when we hold it, when it was never renewed, or when
/// its last renewal is older than its duration (15 s when unset).
pub open spec fn lease_takeable_spec(
    holder: Option<Seq<char>>,
    me: Seq<char>,
    seconds_since_renewal: Option<i64>,
    duration_seconds: Option<i32>,
) -> bool {
    ||| holder == Some(me)
    ||| match seconds_since_renewal {
        None => true,
        Some(age) => age > match duration_seconds {
            Some(d) => d as int,
            None => 15,
        },
    }
}

/// Whether an existing lease can be taken over by `me`.
pub fn lease_takeable(
    holder: Option<&str>,
    me: &str,
    seconds_since_renewal: Option<i64>,
    duration_seconds: Option<i32>,
) -> (r: bool)
    ensures
        r == lease_takeable_spec(
            match holder {
                Some(h) => Some(h@),
                None => None,
            },
            me@,
            seconds_since_renewal,
            duration_seconds,
        ),
{
    let ours = match holder {
        Some(h) => str_eq(h, me),
        None => false,
    };
    let expired = match seconds_since_renewal {
        None => true,
        Some(age) => {
            let d: i64 = match duration_seconds {
                Some(d) => d as i64,
                None => 15,
            };
            age > d
        },
    };
    ours || expired
}

} // verus!
