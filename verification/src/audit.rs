//! Anomaly registry: recent and chronic anomalies, counted by key.
//!
//! The registry is stored as a JSON document by the application; here stands
//! what recording an anomaly does to its contents.

use vstd::prelude::*;

use crate::clock::now_iso;
use crate::text::{owned, push_str, str_eq};

verus! {

/// A detected anomaly.
#[derive(Debug, Clone)]
pub struct Anomaly {
    pub anomaly_id: String,
    pub anomaly_type: String,
    pub severity: String,
    pub node_id: Option<String>,
    pub edge: Option<(String, String)>,
    pub description: String,
    pub detected_at: String,
    pub suggested_action: String,
    pub domain: String,
}

impl Anomaly {
    /// An anomaly detected at the given time.
    pub fn new_at(
        anomaly_id: &str,
        anomaly_type: &str,
        severity: &str,
        node_id: Option<String>,
        edge: Option<(String, String)>,
        description: &str,
        suggested_action: &str,
        domain: &str,
        detected_at: String,
    ) -> (a: Self)
        ensures
            a.anomaly_id@ == anomaly_id@,
            a.anomaly_type@ == anomaly_type@,
            a.severity@ == severity@,
            a.node_id == node_id,
            a.edge == edge,
            a.description@ == description@,
            a.detected_at@ == detected_at@,
            a.suggested_action@ == suggested_action@,
            a.domain@ == domain@,
    {
        Anomaly {
            anomaly_id: owned(anomaly_id),
            anomaly_type: owned(anomaly_type),
            severity: owned(severity),
            node_id,
            edge,
            description: owned(description),
            detected_at,
            suggested_action: owned(suggested_action),
            domain: owned(domain),
        }
    }

    /// An anomaly detected now.
    pub fn new(
        anomaly_id: &str,
        anomaly_type: &str,
        severity: &str,
        node_id: Option<String>,
        edge: Option<(String, String)>,
        description: &str,
        suggested_action: &str,
        domain: &str,
    ) -> (a: Self)
        ensures
            a.anomaly_id@ == anomaly_id@,
            a.anomaly_type@ == anomaly_type@,
            a.severity@ == severity@,
            a.node_id == node_id,
            a.edge == edge,
            a.description@ == description@,
            a.suggested_action@ == suggested_action@,
            a.domain@ == domain@,
    {
        Self::new_at(anomaly_id, anomaly_type, severity, node_id, edge, description, suggested_action, domain, now_iso())
    }
}

/// An entry of the registry.
#[derive(Debug, Clone)]
pub struct RegistryEntry {
    pub key: String,
    pub anomaly_type: String,
    pub severity: String,
    pub node_id: String,
    pub description: String,
    pub detected_at: String,
    pub suggested_action: String,
    pub count: u32,
}

/// A registry entry as a mathematical value.
pub struct EntryView {
    pub key: Seq<char>,
    pub anomaly_type: Seq<char>,
    pub severity: Seq<char>,
    pub node_id: Seq<char>,
    pub description: Seq<char>,
    pub detected_at: Seq<char>,
    pub suggested_action: Seq<char>,
    pub count: nat,
}

impl View for RegistryEntry {
    type V = EntryView;

    open spec fn view(&self) -> EntryView {
        EntryView {
            key: self.key@,
            anomaly_type: self.anomaly_type@,
            severity: self.severity@,
            node_id: self.node_id@,
            description: self.description@,
            detected_at: self.detected_at@,
            suggested_action: self.suggested_action@,
            count: self.count as nat,
        }
    }
}

/// The contents of the registry: the most recent anomalies (newest first,
/// one entry per key) and the chronic ones.
#[derive(Debug, Clone)]
pub struct RegistryState {
    pub recent: Vec<RegistryEntry>,
    pub chronic: Vec<RegistryEntry>,
    pub updated: String,
}

/// Most recent entries kept.
pub const MAX_RECENT: usize = 100;
/// Chronic entries kept.
pub const MAX_CHRONIC: usize = 20;
/// Occurrences after which an anomaly is chronic.
pub const CHRONIC_THRESHOLD: u32 = 3;

pub open spec fn entries_view(v: Seq<RegistryEntry>) -> Seq<EntryView> {
    v.map_values(|e: RegistryEntry| e@)
}

/// The registry key of an anomaly: its type and node.
pub open spec fn anomaly_key(a: Anomaly) -> Seq<char> {
    a.anomaly_type@ + ":"@ + node_of(a)
}

pub open spec fn node_of(a: Anomaly) -> Seq<char> {
    match a.node_id {
        Some(n) => n@,
        None => Seq::<char>::empty(),
    }
}

/// The count of the first entry with key `k`, or 0.
pub open spec fn count_of(v: Seq<EntryView>, k: Seq<char>) -> nat
    decreases v.len(),
{
    if v.len() == 0 {
        0
    } else if v[0].key == k {
        v[0].count
    } else {
        count_of(v.drop_first(), k)
    }
}

pub open spec fn has_key(v: Seq<EntryView>, k: Seq<char>) -> bool {
    exists|i: int| 0 <= i < v.len() && #[trigger] v[i].key == k
}

pub open spec fn without_key(v: Seq<EntryView>, k: Seq<char>) -> Seq<EntryView> {
    v.filter(|e: EntryView| e.key != k)
}

pub open spec fn bounded(v: Seq<EntryView>, n: nat) -> Seq<EntryView> {
    if v.len() > n { v.take(n as int) } else { v }
}

/// The entry recording an anomaly that had been seen `previous` times.
pub open spec fn entry_for(a: Anomaly, previous: nat) -> EntryView {
    EntryView {
        key: anomaly_key(a),
        anomaly_type: a.anomaly_type@,
        severity: a.severity@,
        node_id: node_of(a),
        description: a.description@,
        detected_at: a.detected_at@,
        suggested_action: a.suggested_action@,
        count: previous + 1,
    }
}

/// The new recent list after recording an anomaly.
pub open spec fn recorded_recent(recent: Seq<EntryView>, a: Anomaly) -> Seq<EntryView> {
    let k = anomaly_key(a);
    bounded(seq![entry_for(a, count_of(recent, k))] + without_key(recent, k), 100)
}

/// The new chronic list after recording an anomaly.
pub open spec fn recorded_chronic(recent: Seq<EntryView>, chronic: Seq<EntryView>, a: Anomaly) -> Seq<EntryView> {
    let k = anomaly_key(a);
    let e = entry_for(a, count_of(recent, k));
    if e.count >= 3 && !has_key(chronic, k) {
        bounded(seq![e] + chronic, 20)
    } else {
        chronic
    }
}

/// No two entries share a key.
pub open spec fn unique_keys(v: Seq<EntryView>) -> bool {
    forall|i: int, j: int| 0 <= i < j < v.len() ==> #[trigger] v[i].key != #[trigger] v[j].key
}

proof fn lemma_without_key_members(v: Seq<EntryView>, k: Seq<char>)
    ensures
        forall|i: int| 0 <= i < without_key(v, k).len() ==> (#[trigger] without_key(v, k)[i]).key != k
            && v.contains(without_key(v, k)[i]),
        unique_keys(v) ==> unique_keys(without_key(v, k)),
    decreases v.len(),
{
    reveal_with_fuel(Seq::filter, 1);
    if v.len() > 0 {
        let d = v.drop_last();
        lemma_without_key_members(d, k);
        let w = without_key(v, k);
        let wd = without_key(d, k);
        assert forall|i: int| 0 <= i < w.len() implies (#[trigger] w[i]).key != k && v.contains(w[i]) by {
            if i < wd.len() {
                assert(w[i] == wd[i]);
                let j = choose|j: int| 0 <= j < d.len() && d[j] == wd[i];
                assert(v[j] == d[j]);
            } else {
                assert(w[i] == v.last());
                assert(v[v.len() - 1] == v.last());
            }
        }
        if unique_keys(v) {
            assert(unique_keys(d)) by {
                assert forall|i: int, j: int| 0 <= i < j < d.len() implies #[trigger] d[i].key != #[trigger] d[j].key by {
                    assert(v[i] == d[i] && v[j] == d[j]);
                }
            }
            assert forall|i: int, j: int| 0 <= i < j < w.len() implies #[trigger] w[i].key != #[trigger] w[j].key by {
                if j < wd.len() {
                    assert(w[i] == wd[i] && w[j] == wd[j]);
                } else {
                    assert(w[j] == v.last());
                    assert(w[i] == wd[i]);
                    let m = choose|m: int| 0 <= m < d.len() && d[m] == wd[i];
                    assert(v[m] == d[m]);
                    assert(v[v.len() - 1] == v.last());
                }
            }
        }
    }
}

/// Recording an anomaly puts its entry first in the recent list, counting
/// one more occurrence of its key than before; the recent list keeps one
/// entry per key and at most 100 entries, and the chronic list at most 20.
pub proof fn lemma_record_recent(recent: Seq<EntryView>, chronic: Seq<EntryView>, a: Anomaly)
    requires
        unique_keys(recent),
        chronic.len() <= 20,
    ensures
        recorded_recent(recent, a)[0] == entry_for(a, count_of(recent, anomaly_key(a))),
        count_of(recorded_recent(recent, a), anomaly_key(a)) == count_of(recent, anomaly_key(a)) + 1,
        unique_keys(recorded_recent(recent, a)),
        recorded_recent(recent, a).len() <= 100,
        recorded_chronic(recent, chronic, a).len() <= 20,
{
    let k = anomaly_key(a);
    let e = entry_for(a, count_of(recent, k));
    let w = without_key(recent, k);
    lemma_without_key_members(recent, k);
    let full = seq![e] + w;
    assert(full[0] == e);
    assert(unique_keys(full)) by {
        assert forall|i: int, j: int| 0 <= i < j < full.len() implies #[trigger] full[i].key != #[trigger] full[j].key by {
            if i == 0 {
                assert(full[j] == w[j - 1]);
            } else {
                assert(full[i] == w[i - 1] && full[j] == w[j - 1]);
            }
        }
    }
    let r = recorded_recent(recent, a);
    assert(r.len() > 0 && r[0] == e);
    assert(r.drop_first().len() >= 0);
    assert(count_of(r, k) == e.count);
    assert(unique_keys(r)) by {
        assert forall|i: int, j: int| 0 <= i < j < r.len() implies #[trigger] r[i].key != #[trigger] r[j].key by {
            assert(r[i] == full[i] && r[j] == full[j]);
        }
    }
}

/// Once a key has been seen three times, recording it leaves it in the
/// chronic list.
pub proof fn lemma_record_chronic(recent: Seq<EntryView>, chronic: Seq<EntryView>, a: Anomaly)
    requires
        count_of(recent, anomaly_key(a)) + 1 >= 3,
    ensures
        has_key(recorded_chronic(recent, chronic, a), anomaly_key(a)),
{
    let k = anomaly_key(a);
    let c = recorded_chronic(recent, chronic, a);
    if !has_key(chronic, k) {
        assert(c[0].key == k);
    }
}

/// Recording an anomaly keeps the other recent entries in their order after
/// the new first entry (the oldest dropped past 100); the chronic list is
/// unchanged until the key has been seen three times, and keeps one entry
/// per key.
pub proof fn lemma_record_keeps_order(recent: Seq<EntryView>, chronic: Seq<EntryView>, a: Anomaly)
    ensures
        recorded_recent(recent, a).skip(1) == bounded(without_key(recent, anomaly_key(a)), 99),
        count_of(recent, anomaly_key(a)) + 1 < 3 ==> recorded_chronic(recent, chronic, a) == chronic,
        unique_keys(chronic) ==> unique_keys(recorded_chronic(recent, chronic, a)),
{
    let k = anomaly_key(a);
    let e = entry_for(a, count_of(recent, k));
    let w = without_key(recent, k);
    let full = seq![e] + w;
    if full.len() > 100 {
        assert(full.take(100).skip(1) =~= w.take(99));
    } else {
        assert(full.skip(1) =~= w);
    }
    if unique_keys(chronic) && e.count >= 3 && !has_key(chronic, k) {
        let c = seq![e] + chronic;
        assert(unique_keys(c)) by {
            assert forall|i: int, j: int| 0 <= i < j < c.len() implies #[trigger] c[i].key != #[trigger] c[j].key by {
                if i == 0 {
                    assert(c[j] == chronic[j - 1]);
                } else {
                    assert(c[i] == chronic[i - 1] && c[j] == chronic[j - 1]);
                }
            }
        }
        let r = recorded_chronic(recent, chronic, a);
        assert(unique_keys(r)) by {
            assert forall|i: int, j: int| 0 <= i < j < r.len() implies #[trigger] r[i].key != #[trigger] r[j].key by {
                assert(r[i] == c[i] && r[j] == c[j]);
            }
        }
    }
}

/// An empty registry that records the same anomaly three times holds it in
/// the chronic list as its only entry, counted three times.
pub proof fn lemma_three_records_chronic(a: Anomaly)
    ensures ({
        let r1 = recorded_recent(seq![], a);
        let c1 = recorded_chronic(seq![], seq![], a);
        let r2 = recorded_recent(r1, a);
        let c2 = recorded_chronic(r1, c1, a);
        let c3 = recorded_chronic(r2, c2, a);
        &&& c3.len() == 1
        &&& c3[0].key == anomaly_key(a)
        &&& c3[0].count == 3
    }),
{
    reveal_with_fuel(Seq::filter, 2);
    let k = anomaly_key(a);
    let r0 = Seq::<EntryView>::empty();
    assert(count_of(r0, k) == 0);
    assert(without_key(r0, k) =~= r0);
    let r1 = recorded_recent(r0, a);
    assert(r1 =~= seq![entry_for(a, 0)]);
    let c1 = recorded_chronic(r0, r0, a);
    assert(c1 =~= r0);
    assert(count_of(r1, k) == 1);
    let w1 = without_key(r1, k);
    assert(r1.drop_last() =~= r0);
    assert(w1 =~= r0);
    let r2 = recorded_recent(r1, a);
    assert(r2 =~= seq![entry_for(a, 1)]);
    let c2 = recorded_chronic(r1, c1, a);
    assert(c2 =~= r0);
    assert(count_of(r2, k) == 2);
    assert(!has_key(c2, k));
    let c3 = recorded_chronic(r2, c2, a);
    assert(c3 =~= seq![entry_for(a, 2)]);
}

/// The key of an anomaly.
pub fn key_of(a: &Anomaly) -> (k: String)
    ensures
        k@ == anomaly_key(*a),
{
    let mut k = owned(a.anomaly_type.as_str());
    push_str(&mut k, ":");
    match &a.node_id {
        Some(n) => push_str(&mut k, n.as_str()),
        None => {},
    }
    assert(k@ =~= anomaly_key(*a));
    k
}

/// The count of the first entry with the given key, or 0.
pub fn count_for_key(entries: &Vec<RegistryEntry>, key: &str) -> (c: u32)
    ensures
        c as nat == count_of(entries_view(entries@), key@),
{
    let ghost ev = entries_view(entries@);
    let mut i: usize = 0;
    assert(ev.skip(0) =~= ev);
    while i < entries.len()
        invariant
            ev == entries_view(entries@),
            i <= entries@.len(),
            count_of(ev, key@) == count_of(ev.skip(i as int), key@),
        decreases entries.len() - i,
    {
        let ghost rest = ev.skip(i as int);
        assert(rest[0] == entries@[i as int]@);
        if str_eq(entries[i].key.as_str(), key) {
            return entries[i].count;
        }
        assert(rest.drop_first() =~= ev.skip(i + 1));
        i = i + 1;
    }
    0
}

/// Whether some entry has the given key.
pub fn contains_key(entries: &Vec<RegistryEntry>, key: &str) -> (b: bool)
    ensures
        b == has_key(entries_view(entries@), key@),
{
    let ghost ev = entries_view(entries@);
    let mut i: usize = 0;
    while i < entries.len()
        invariant
            ev == entries_view(entries@),
            i <= entries@.len(),
            forall|j: int| 0 <= j < i ==> #[trigger] ev[j].key != key@,
        decreases entries.len() - i,
    {
        assert(ev[i as int] == entries@[i as int]@);
        if str_eq(entries[i].key.as_str(), key) {
            assert(ev[i as int].key == key@);
            return true;
        }
        i = i + 1;
    }
    false
}

/// The registry.
pub struct AnomalyRegistry {
    path: String,
}

impl AnomalyRegistry {
    /// A registry stored at `path`.
    pub fn new(path: &str) -> (r: Self)
        ensures
            r.path()@ == path@,
    {
        AnomalyRegistry { path: owned(path) }
    }

    pub closed spec fn path(&self) -> String {
        self.path
    }

    /// Where the registry is stored.
    pub fn location(&self) -> (p: &str)
        ensures
            p@ == self.path()@,
    {
        self.path.as_str()
    }

    /// Record an anomaly in the registry contents, stamped `updated`.
    ///
    /// The anomaly's entry, counting one more occurrence of its key, moves to
    /// the front of the recent list (at most 100 entries, one per key); once
    /// a key has been seen three times it is added to the front of the
    /// chronic list (at most 20 entries) unless already there.
    pub fn record_into(state: RegistryState, a: &Anomaly, updated: String) -> (r: RegistryState)
        requires
            count_of(entries_view(state.recent@), anomaly_key(*a)) < u32::MAX,
        ensures
            entries_view(r.recent@) == recorded_recent(entries_view(state.recent@), *a),
            entries_view(r.chronic@) == recorded_chronic(entries_view(state.recent@), entries_view(state.chronic@), *a),
            r.updated@ == updated@,
    {
        let key = key_of(a);
        let existing = count_for_key(&state.recent, key.as_str());
        let node_id = match &a.node_id {
            Some(n) => owned(n.as_str()),
            None => String::new(),
        };
        let count = existing + 1;
        let ghost rv = entries_view(state.recent@);
        let ghost cv = entries_view(state.chronic@);
        let ghost k = anomaly_key(*a);
        let ghost e = entry_for(*a, count_of(rv, k));

        // recent: the new entry, then the others with a different key, at most 100.
        let mut recent: Vec<RegistryEntry> = Vec::new();
        recent.push(RegistryEntry {
            key: owned(key.as_str()),
            anomaly_type: owned(a.anomaly_type.as_str()),
            severity: owned(a.severity.as_str()),
            node_id: owned(node_id.as_str()),
            description: owned(a.description.as_str()),
            detected_at: owned(a.detected_at.as_str()),
            suggested_action: owned(a.suggested_action.as_str()),
            count,
        });
        assert(entries_view(recent@) =~= seq![e]);
        let ghost full = seq![e] + without_key(rv, k);
        let mut old_recent = state.recent;
        let ghost orig = old_recent@;
        let ghost mut taken: int = 0;
        assert(orig.skip(0) =~= orig);
        while old_recent.len() > 0
            invariant
                0 <= taken <= orig.len(),
                rv == entries_view(orig),
                old_recent@ == orig.skip(taken),
                full == seq![e] + without_key(rv, k),
                key@ == k,
                entries_view(recent@) == bounded(seq![e] + without_key(rv.take(taken), k), 100),
                recent@.len() <= 100,
                recent@.len() >= 1,
            decreases old_recent.len(),
        {
            reveal_with_fuel(Seq::filter, 1);
            let item = old_recent.remove(0);
            assert(item == orig[taken]);
            assert(rv.take(taken + 1).drop_last() =~= rv.take(taken));
            assert(rv.take(taken + 1).last() == item@);
            let ghost before = entries_view(recent@);
            let ghost prev_full = seq![e] + without_key(rv.take(taken), k);
            let ghost next_full = seq![e] + without_key(rv.take(taken + 1), k);
            let ghost s1 = rv.take(taken + 1);
            assert(s1.len() > 0);
            assert(s1.drop_last() =~= rv.take(taken));
            assert(s1.last() == item@);
            assert(without_key(s1, k) == if s1.last().key != k {
                without_key(s1.drop_last(), k).push(s1.last())
            } else {
                without_key(s1.drop_last(), k)
            });
            if !str_eq(item.key.as_str(), key.as_str()) {
                assert(item@.key != k);
                assert(without_key(s1, k) == without_key(rv.take(taken), k).push(item@));
                assert(next_full =~= prev_full.push(item@));
                if recent.len() < 100 {
                    recent.push(item);
                    assert(entries_view(recent@) =~= before.push(item@));
                    assert(entries_view(recent@) =~= bounded(next_full, 100));
                } else {
                    assert(prev_full.len() >= 100);
                    assert(next_full.take(100) =~= prev_full.take(100));
                }
            } else {
                assert(item@.key == k);
                assert(without_key(s1, k) == without_key(rv.take(taken), k));
                assert(next_full =~= prev_full);
            }
            proof { taken = taken + 1; }
            assert(old_recent@ =~= orig.skip(taken));
        }
        assert(rv.take(taken) =~= rv);

        // chronic: prepend once the key is chronic and not yet listed.
        let already = contains_key(&state.chronic, key.as_str());
        let chronic = if count >= 3 && !already {
            let mut c: Vec<RegistryEntry> = Vec::new();
            c.push(RegistryEntry {
                key: owned(key.as_str()),
                anomaly_type: owned(a.anomaly_type.as_str()),
                severity: owned(a.severity.as_str()),
                node_id: owned(node_id.as_str()),
                description: owned(a.description.as_str()),
                detected_at: owned(a.detected_at.as_str()),
                suggested_action: owned(a.suggested_action.as_str()),
                count,
            });
            let mut old_chronic = state.chronic;
            let ghost corig = old_chronic@;
            let ghost mut ct: int = 0;
            assert(corig.skip(0) =~= corig);
            assert(entries_view(c@) =~= bounded(seq![e] + cv.take(0), 20));
            while old_chronic.len() > 0
                invariant
                    0 <= ct <= corig.len(),
                    cv == entries_view(corig),
                    old_chronic@ == corig.skip(ct),
                    entries_view(c@) == bounded(seq![e] + cv.take(ct), 20),
                    c@.len() <= 20,
                decreases old_chronic.len(),
            {
                let item = old_chronic.remove(0);
                assert(item == corig[ct]);
                let ghost before = entries_view(c@);
                let ghost prev_full = seq![e] + cv.take(ct);
                let ghost next_full = seq![e] + cv.take(ct + 1);
                assert(next_full =~= prev_full.push(item@));
                if c.len() < 20 {
                    c.push(item);
                    assert(entries_view(c@) =~= before.push(item@));
                    assert(entries_view(c@) =~= bounded(next_full, 20));
                } else {
                    assert(next_full.take(20) =~= prev_full.take(20));
                }
                proof { ct = ct + 1; }
                assert(old_chronic@ =~= corig.skip(ct));
            }
            assert(cv.take(ct) =~= cv);
            c
        } else {
            state.chronic
        };
        RegistryState { recent, chronic, updated }
    }

    /// Record an anomaly in the registry contents, stamped with the current time.
    pub fn record_now(state: RegistryState, a: &Anomaly) -> (r: RegistryState)
        requires
            count_of(entries_view(state.recent@), anomaly_key(*a)) < u32::MAX,
        ensures
            entries_view(r.recent@) == recorded_recent(entries_view(state.recent@), *a),
            entries_view(r.chronic@) == recorded_chronic(entries_view(state.recent@), entries_view(state.chronic@), *a),
    {
        Self::record_into(state, a, now_iso())
    }
}

/// The overall health of the graph.
#[derive(Debug, Clone)]
pub struct HealthStatus {
    pub status: String,
    pub issues: Vec<String>,
}

/// The issues an audit bundle reports: integrity violations, then
/// persistence inconsistency.
pub open spec fn health_issues(integrity_healthy: bool, persistence_consistent: bool) -> Seq<Seq<char>> {
    (if !integrity_healthy { seq!["Graph integrity violations"@] } else { seq![] })
        + (if !persistence_consistent { seq!["Persistence inconsistency"@] } else { seq![] })
}

/// The overall status for a number of issues.
pub open spec fn health_status_of(issue_count: nat) -> Seq<char> {
    if issue_count == 0 {
        "healthy"@
    } else if issue_count < 2 {
        "degraded"@
    } else {
        "unhealthy"@
    }
}

impl HealthStatus {
    /// The overall health from the integrity and persistence reports: healthy
    /// with no issue, degraded with one, unhealthy with two.
    pub fn assess(integrity_healthy: bool, persistence_consistent: bool) -> (h: HealthStatus)
        ensures
            h.issues@.map_values(|s: String| s@) == health_issues(integrity_healthy, persistence_consistent),
            h.status@ == health_status_of(health_issues(integrity_healthy, persistence_consistent).len()),
    {
        let mut issues: Vec<String> = Vec::new();
        if !integrity_healthy {
            issues.push(owned("Graph integrity violations"));
        }
        if !persistence_consistent {
            issues.push(owned("Persistence inconsistency"));
        }
        assert(issues@.map_values(|s: String| s@) =~= health_issues(integrity_healthy, persistence_consistent));
        let status = if issues.len() == 0 {
            owned("healthy")
        } else if issues.len() < 2 {
            owned("degraded")
        } else {
            owned("unhealthy")
        };
        HealthStatus { status, issues }
    }
}

/// The graph is healthy exactly when both reports are clean, and unhealthy
/// exactly when both fail.
pub proof fn lemma_health_levels(integrity_healthy: bool, persistence_consistent: bool)
    ensures
        (health_status_of(health_issues(integrity_healthy, persistence_consistent).len()) == "healthy"@)
            <== (integrity_healthy && persistence_consistent),
        health_issues(integrity_healthy, persistence_consistent).len()
            == (if integrity_healthy { 0nat } else { 1nat }) + (if persistence_consistent { 0nat } else { 1nat }),
{
}

// ─── Capability health ───────────────────────────────────────────────────────

/// What the capability report reads of one capability: its stored
/// availability (if any), how many DEPENDS_ON edges reach it, and the types
/// of the edges leaving it.
#[derive(Debug, Clone)]
pub struct CapabilityFacts {
    pub id: String,
    pub name: String,
    pub availability: Option<String>,
    pub dependents: usize,
    pub outgoing_edge_types: Vec<String>,
}

/// One capability's line in the report.
#[derive(Debug, Clone)]
pub struct CapabilityDetail {
    pub id: String,
    pub name: String,
    pub availability: String,
    pub is_broken: bool,
    pub used: bool,
    pub dependents: usize,
    pub enables: usize,
}

/// The capability health report: counts and the capabilities, broken ones
/// first.
#[derive(Debug, Clone)]
pub struct CapabilityHealth {
    pub total: usize,
    pub broken: usize,
    pub unused: usize,
    pub healthy: usize,
    pub details: Vec<CapabilityDetail>,
}

/// Availabilities that mark a capability as broken.
pub open spec fn broken_availability(a: Seq<char>) -> bool {
    a == "unavailable"@ || a == "broken"@ || a == "not_configured"@ || a == "expired"@ || a == "broken_no_tokens"@
}

/// Edge types through which a capability serves something.
pub open spec fn enabling_edge(t: Seq<char>) -> bool {
    t == "SUPPORTS"@ || t == "ENABLES"@ || t == "REALIZES"@
}

/// How many of the edge types enable something.
pub open spec fn enabling_count(ts: Seq<Seq<char>>) -> nat
    decreases ts.len(),
{
    if ts.len() == 0 {
        0
    } else {
        enabling_count(ts.drop_last()) + if enabling_edge(ts.last()) { 1nat } else { 0nat }
    }
}

pub struct DetailView {
    pub id: Seq<char>,
    pub name: Seq<char>,
    pub availability: Seq<char>,
    pub is_broken: bool,
    pub used: bool,
    pub dependents: nat,
    pub enables: nat,
}

pub open spec fn detail_view(d: CapabilityDetail) -> DetailView {
    DetailView {
        id: d.id@,
        name: d.name@,
        availability: d.availability@,
        is_broken: d.is_broken,
        used: d.used,
        dependents: d.dependents as nat,
        enables: d.enables as nat,
    }
}

/// The report line of a capability: availability "unknown" when none is
/// stored; used when something depends on it or it enables something.
pub open spec fn detail_of(f: CapabilityFacts) -> DetailView {
    let avail = match f.availability { Some(a) => a@, None => "unknown"@ };
    let enables = enabling_count(crate::text::string_views(f.outgoing_edge_types@));
    DetailView {
        id: f.id@,
        name: f.name@,
        availability: avail,
        is_broken: broken_availability(avail),
        used: f.dependents > 0 || enables > 0,
        dependents: f.dependents as nat,
        enables,
    }
}

pub open spec fn details_of(fs: Seq<CapabilityFacts>) -> Seq<DetailView> {
    fs.map_values(|f: CapabilityFacts| detail_of(f))
}

/// The report's lines: the broken capabilities, then the others, each group
/// in the order given (a stable sort, broken first).
pub open spec fn ordered_details(fs: Seq<CapabilityFacts>) -> Seq<DetailView> {
    details_of(fs).filter(|d: DetailView| d.is_broken) + details_of(fs).filter(|d: DetailView| !d.is_broken)
}

fn count_enabling(ts: &Vec<String>) -> (n: usize)
    ensures
        n == enabling_count(crate::text::string_views(ts@)),
{
    let ghost v = crate::text::string_views(ts@);
    let mut n: usize = 0;
    let mut i: usize = 0;
    while i < ts.len()
        invariant
            v == crate::text::string_views(ts@),
            i <= ts@.len(),
            n == enabling_count(v.take(i as int)),
            n <= i,
        decreases ts.len() - i,
    {
        assert(v.take(i + 1).drop_last() =~= v.take(i as int));
        assert(v.take(i + 1).last() == ts@[i as int]@);
        let t = ts[i].as_str();
        if str_eq(t, "SUPPORTS") || str_eq(t, "ENABLES") || str_eq(t, "REALIZES") {
            n = n + 1;
        }
        i = i + 1;
    }
    assert(v.take(ts.len() as int) =~= v);
    n
}

fn capability_detail(f: &CapabilityFacts) -> (d: CapabilityDetail)
    ensures
        detail_view(d) == detail_of(*f),
{
    let availability = match &f.availability {
        Some(a) => owned(a.as_str()),
        None => owned("unknown"),
    };
    let a = availability.as_str();
    let is_broken = str_eq(a, "unavailable") || str_eq(a, "broken") || str_eq(a, "not_configured")
        || str_eq(a, "expired") || str_eq(a, "broken_no_tokens");
    let enables = count_enabling(&f.outgoing_edge_types);
    CapabilityDetail {
        id: owned(f.id.as_str()),
        name: owned(f.name.as_str()),
        availability,
        is_broken,
        used: f.dependents > 0 || enables > 0,
        dependents: f.dependents,
        enables,
    }
}

/// The number of broken capabilities.
pub open spec fn broken_count(fs: Seq<CapabilityFacts>) -> nat {
    details_of(fs).filter(|d: DetailView| d.is_broken).len()
}

/// The number of unused capabilities.
pub open spec fn unused_count(fs: Seq<CapabilityFacts>) -> nat {
    details_of(fs).filter(|d: DetailView| !d.used).len()
}

impl CapabilityHealth {
    /// The capability report over the given capabilities.
    pub fn assess(caps: &Vec<CapabilityFacts>) -> (h: CapabilityHealth)
        ensures
            h.total == caps@.len(),
            h.broken == broken_count(caps@),
            h.unused == unused_count(caps@),
            h.healthy == caps@.len() - broken_count(caps@),
            h.details@.map_values(|d: CapabilityDetail| detail_view(d)) == ordered_details(caps@),
    {
        let ghost dv = details_of(caps@);
        let ghost isb = |d: DetailView| d.is_broken;
        let ghost notb = |d: DetailView| !d.is_broken;
        let ghost unu = |d: DetailView| !d.used;
        let mut broken_list: Vec<CapabilityDetail> = Vec::new();
        let mut other_list: Vec<CapabilityDetail> = Vec::new();
        let mut unused: usize = 0;
        let mut i: usize = 0;
        while i < caps.len()
            invariant
                dv == details_of(caps@),
                isb == (|d: DetailView| d.is_broken),
                notb == (|d: DetailView| !d.is_broken),
                unu == (|d: DetailView| !d.used),
                i <= caps@.len(),
                broken_list@.map_values(|d: CapabilityDetail| detail_view(d)) == dv.take(i as int).filter(isb),
                other_list@.map_values(|d: CapabilityDetail| detail_view(d)) == dv.take(i as int).filter(notb),
                unused == dv.take(i as int).filter(unu).len(),
                unused <= i,
            decreases caps.len() - i,
        {
            reveal_with_fuel(Seq::filter, 1);
            assert(dv.take(i + 1).drop_last() =~= dv.take(i as int));
            assert(dv.take(i + 1).last() == dv[i as int]);
            let d = capability_detail(&caps[i]);
            let ghost v = detail_view(d);
            assert(v == dv[i as int]);
            if !d.used {
                unused = unused + 1;
            }
            assert(dv.take(i + 1).filter(unu) == if !v.used {
                dv.take(i as int).filter(unu).push(v)
            } else {
                dv.take(i as int).filter(unu)
            });
            if d.is_broken {
                let ghost before = broken_list@.map_values(|x: CapabilityDetail| detail_view(x));
                broken_list.push(d);
                assert(broken_list@.map_values(|x: CapabilityDetail| detail_view(x)) =~= before.push(v));
            } else {
                let ghost before = other_list@.map_values(|x: CapabilityDetail| detail_view(x));
                other_list.push(d);
                assert(other_list@.map_values(|x: CapabilityDetail| detail_view(x)) =~= before.push(v));
            }
            i = i + 1;
        }
        assert(dv.take(caps.len() as int) =~= dv);
        let broken = broken_list.len();
        proof {
            broadcast use vstd::seq_lib::group_filter_ensures;
            assert(dv.len() == caps@.len());
        }
        let total = caps.len();
        let ghost bv = broken_list@.map_values(|x: CapabilityDetail| detail_view(x));
        let ghost ov = other_list@.map_values(|x: CapabilityDetail| detail_view(x));
        let mut details = broken_list;
        let mut rest = other_list;
        details.append(&mut rest);
        assert(details@.map_values(|x: CapabilityDetail| detail_view(x)) =~= bv + ov);
        CapabilityHealth { total, broken, unused, healthy: total - broken, details }
    }
}

proof fn lemma_split_len(v: Seq<DetailView>)
    ensures
        v.filter(|d: DetailView| d.is_broken).len() + v.filter(|d: DetailView| !d.is_broken).len() == v.len(),
    decreases v.len(),
{
    reveal_with_fuel(Seq::filter, 1);
    if v.len() > 0 {
        lemma_split_len(v.drop_last());
    }
}

/// The capability report lists every capability once and puts every broken
/// one before every working one.
pub proof fn lemma_capability_order(fs: Seq<CapabilityFacts>)
    ensures
        ordered_details(fs).len() == fs.len(),
        broken_count(fs) <= fs.len(),
        forall|i: int, j: int| 0 <= i < j < ordered_details(fs).len() && (#[trigger] ordered_details(fs)[j]).is_broken
            ==> (#[trigger] ordered_details(fs)[i]).is_broken,
{
    broadcast use vstd::seq_lib::group_filter_ensures;
    let dv = details_of(fs);
    lemma_split_len(dv);
    let b = dv.filter(|d: DetailView| d.is_broken);
    let o = dv.filter(|d: DetailView| !d.is_broken);
    let od = ordered_details(fs);
    assert forall|i: int, j: int| 0 <= i < j < od.len() && (#[trigger] od[j]).is_broken implies (#[trigger] od[i]).is_broken by {
        if j >= b.len() {
            assert(od[j] == o[j - b.len()]);
        }
        assert(i < b.len());
        assert(od[i] == b[i]);
    }
}

impl RegistryEntry {
    /// A copy of the entry.
    pub fn duplicate(&self) -> (e: RegistryEntry)
        ensures
            e@ == self@,
    {
        RegistryEntry {
            key: owned(self.key.as_str()),
            anomaly_type: owned(self.anomaly_type.as_str()),
            severity: owned(self.severity.as_str()),
            node_id: owned(self.node_id.as_str()),
            description: owned(self.description.as_str()),
            detected_at: owned(self.detected_at.as_str()),
            suggested_action: owned(self.suggested_action.as_str()),
            count: self.count,
        }
    }
}

impl RegistryState {
    /// The registry of a missing or unreadable file: nothing recorded.
    pub fn empty() -> (s: RegistryState)
        ensures
            s.recent@.len() == 0,
            s.chronic@.len() == 0,
            s.updated@ == Seq::<char>::empty(),
    {
        RegistryState { recent: Vec::new(), chronic: Vec::new(), updated: String::new() }
    }

    /// The `n` most recent entries (all of them when there are fewer).
    pub fn recent_entries(&self, n: usize) -> (r: Vec<RegistryEntry>)
        ensures
            entries_view(r@) == (if n < self.recent@.len() {
                entries_view(self.recent@).take(n as int)
            } else {
                entries_view(self.recent@)
            }),
    {
        let ghost v = entries_view(self.recent@);
        let end = if n < self.recent.len() { n } else { self.recent.len() };
        let mut r: Vec<RegistryEntry> = Vec::new();
        let mut i: usize = 0;
        while i < end
            invariant
                v == entries_view(self.recent@),
                end <= self.recent@.len(),
                i <= end,
                entries_view(r@) == v.take(i as int),
            decreases end - i,
        {
            let ghost before = entries_view(r@);
            r.push(self.recent[i].duplicate());
            assert(entries_view(r@) =~= before.push(v[i as int]));
            assert(v.take(i + 1) =~= v.take(i as int).push(v[i as int]));
            i = i + 1;
        }
        assert(v.take(end as int) =~= (if n < self.recent@.len() { v.take(n as int) } else { v }));
        r
    }

    /// The chronic entries.
    pub fn chronic_entries(&self) -> (r: Vec<RegistryEntry>)
        ensures
            entries_view(r@) == entries_view(self.chronic@),
    {
        let ghost v = entries_view(self.chronic@);
        let mut r: Vec<RegistryEntry> = Vec::new();
        let mut i: usize = 0;
        while i < self.chronic.len()
            invariant
                v == entries_view(self.chronic@),
                i <= self.chronic@.len(),
                entries_view(r@) == v.take(i as int),
            decreases self.chronic.len() - i,
        {
            let ghost before = entries_view(r@);
            r.push(self.chronic[i].duplicate());
            assert(entries_view(r@) =~= before.push(v[i as int]));
            assert(v.take(i + 1) =~= v.take(i as int).push(v[i as int]));
            i = i + 1;
        }
        assert(v.take(self.chronic.len() as int) =~= v);
        r
    }
}

} // verus!
