//! Knowledge hygiene: orphan severity, stale-node archival decisions and the
//! hygiene report with its recommendations.

use vstd::prelude::*;

use crate::clock::utc_now;
use crate::text::{chars_of, dec_str, owned, push_decimal, push_str, str_eq, string_of};
use crate::timestamp::{days_between, is_later, later, naive_time_of, parse_naive_time, whole_days};

verus! {

/// Orphans older than this many days are critical.
pub const DEFAULT_ORPHAN_THRESHOLD_DAYS: i64 = 30;
/// Observations older than this many days are stale.
pub const DEFAULT_STALE_THRESHOLD_DAYS: i64 = 60;
/// Days after which a catalyst's integration decays.
pub const DEFAULT_INTEGRATION_DECAY_DAYS: i64 = 14;

/// The severity of an orphan node of the given age.
pub open spec fn orphan_severity_of(age_days: int) -> Seq<char> {
    if age_days > 30 { "critical"@ } else { "warning"@ }
}

/// The severity of an orphan node: critical past the orphan threshold,
/// a warning before.
pub fn orphan_severity(age_days: i64) -> (s: &'static str)
    ensures
        s@ == orphan_severity_of(age_days as int),
{
    if age_days > DEFAULT_ORPHAN_THRESHOLD_DAYS { "critical" } else { "warning" }
}

/// Whether an observation is archived as stale: when it carries an
/// `archive_after` deadline, exactly when that deadline has passed (false if
/// the deadline could not be read); otherwise exactly when its age exceeds
/// the threshold (false if its creation time could not be read).
pub open spec fn should_archive_spec(
    has_deadline: bool,
    deadline_passed: Option<bool>,
    age_days: Option<i64>,
    threshold: i64,
) -> bool {
    if has_deadline {
        deadline_passed == Some(true)
    } else {
        match age_days {
            Some(a) => a > threshold,
            None => false,
        }
    }
}

/// Whether an observation is archived as stale.
pub fn should_archive(has_deadline: bool, deadline_passed: Option<bool>, age_days: Option<i64>, threshold: Option<i64>) -> (b: bool)
    ensures
        b == should_archive_spec(has_deadline, deadline_passed, age_days, match threshold {
            Some(t) => t,
            None => 60,
        }),
{
    let t = match threshold {
        Some(t) => t,
        None => DEFAULT_STALE_THRESHOLD_DAYS,
    };
    if has_deadline {
        match deadline_passed {
            Some(p) => p,
            None => false,
        }
    } else {
        match age_days {
            Some(a) => a > t,
            None => false,
        }
    }
}

/// Whether an orphan is archived by lifecycle enforcement: only critical
/// orphan observations are.
pub fn enforce_archives(severity: &str, node_type: &str) -> (b: bool)
    ensures
        b == (severity@ == "critical"@ && node_type@ == "observation"@),
{
    crate::text::str_eq(severity, "critical") && crate::text::str_eq(node_type, "observation")
}

/// Hygiene report for the entire graph.
#[derive(Debug, Clone)]
pub struct HygieneReport {
    pub total_nodes: i64,
    pub total_edges: i64,
    pub total_observations: i64,
    pub orphan_count: i64,
    pub orphan_ids: Vec<String>,
    pub stale_count: i64,
    pub stale_ids: Vec<String>,
    pub dangling_edge_count: i64,
    pub dangling_edge_ids: Vec<String>,
    pub recently_archived: i64,
    pub lifecycle_distribution: Vec<(String, i64)>,
    pub recommendations: Vec<String>,
}

/// Observations make up more than 70% of the nodes, as the ratio of the
/// two counts compares: with no node at all, any observation counts as an
/// excess; a negative node count gives a negative ratio.
pub open spec fn observation_heavy(total_observations: int, total_nodes: int) -> bool {
    total_observations > 0 && total_nodes >= 0 && 10 * total_observations > 7 * total_nodes
}

/// The recommendations of a hygiene report.
pub open spec fn recommendations_of(
    orphan_count: nat,
    dangling_count: nat,
    total_observations: int,
    total_nodes: int,
) -> Seq<Seq<char>> {
    (if orphan_count > 5 {
        seq!["Consider removing "@ + dec_str(orphan_count) + " disconnected nodes or linking them to the graph"@]
    } else {
        seq![]
    }) + (if dangling_count > 0 {
        seq!["Prune "@ + dec_str(dangling_count) + " dangling edges pointing to deleted nodes"@]
    } else {
        seq![]
    }) + (if observation_heavy(total_observations, total_nodes) {
        seq!["High ratio of observations — consider converting some to insights or hypotheses"@]
    } else {
        seq![]
    })
}

/// The recommendations for the given counts.
pub fn hygiene_recommendations(
    orphan_count: usize,
    dangling_count: usize,
    total_observations: i64,
    total_nodes: i64,
) -> (r: Vec<String>)
    ensures
        r@.map_values(|s: String| s@) == recommendations_of(
            orphan_count as nat,
            dangling_count as nat,
            total_observations as int,
            total_nodes as int,
        ),
{
    let mut r: Vec<String> = Vec::new();
    if orphan_count > 5 {
        let mut m = owned("Consider removing ");
        push_decimal(&mut m, orphan_count as u64);
        push_str(&mut m, " disconnected nodes or linking them to the graph");
        r.push(m);
    }
    if dangling_count > 0 {
        let mut m = owned("Prune ");
        push_decimal(&mut m, dangling_count as u64);
        push_str(&mut m, " dangling edges pointing to deleted nodes");
        r.push(m);
    }
    let heavy = total_observations > 0 && total_nodes >= 0
        && 10 * (total_observations as i128) > 7 * (total_nodes as i128);
    if heavy {
        r.push(owned("High ratio of observations — consider converting some to insights or hypotheses"));
    }
    assert(r@.map_values(|s: String| s@) =~= recommendations_of(
        orphan_count as nat,
        dangling_count as nat,
        total_observations as int,
        total_nodes as int,
    ));
    r
}

impl HygieneReport {
    /// Assemble a hygiene report from the graph's counts and the IDs found
    /// by the orphan, dangling-edge and stale-node passes.
    pub fn assemble(
        total_nodes: i64,
        total_edges: i64,
        total_observations: i64,
        orphan_ids: Vec<String>,
        stale_ids: Vec<String>,
        dangling_edge_ids: Vec<String>,
        recently_archived: i64,
        lifecycle_distribution: Vec<(String, i64)>,
    ) -> (r: HygieneReport)
        requires
            orphan_ids@.len() <= i64::MAX,
            stale_ids@.len() <= i64::MAX,
            dangling_edge_ids@.len() <= i64::MAX,
        ensures
            r.total_nodes == total_nodes,
            r.total_edges == total_edges,
            r.total_observations == total_observations,
            r.orphan_count == orphan_ids@.len(),
            r.orphan_ids@ == orphan_ids@,
            r.stale_count == stale_ids@.len(),
            r.stale_ids@ == stale_ids@,
            r.dangling_edge_count == dangling_edge_ids@.len(),
            r.dangling_edge_ids@ == dangling_edge_ids@,
            r.recently_archived == recently_archived,
            r.lifecycle_distribution@ == lifecycle_distribution@,
            r.recommendations@.map_values(|s: String| s@) == recommendations_of(
                orphan_ids@.len(),
                dangling_edge_ids@.len(),
                total_observations as int,
                total_nodes as int,
            ),
    {
        let recommendations = hygiene_recommendations(
            orphan_ids.len(),
            dangling_edge_ids.len(),
            total_observations,
            total_nodes,
        );
        HygieneReport {
            total_nodes,
            total_edges,
            total_observations,
            orphan_count: orphan_ids.len() as i64,
            orphan_ids,
            stale_count: stale_ids.len() as i64,
            stale_ids,
            dangling_edge_count: dangling_edge_ids.len() as i64,
            dangling_edge_ids,
            recently_archived,
            lifecycle_distribution,
            recommendations,
        }
    }
}

/// A clean graph — no orphans beyond five, no dangling edge, observations at
/// most 70% — gets no recommendation; otherwise at most three.
pub proof fn lemma_recommendations(orphans: nat, dangling: nat, observations: int, nodes: int)
    ensures
        recommendations_of(orphans, dangling, observations, nodes).len() <= 3,
        (recommendations_of(orphans, dangling, observations, nodes).len() == 0)
            <==> (orphans <= 5 && dangling == 0 && !observation_heavy(observations, nodes)),
{
}

// ─── Ages and deadlines ──────────────────────────────────────────────────────

/// A stored timestamp as the hygiene passes read it: its `Z` characters
/// dropped.
pub open spec fn without_z(s: Seq<char>) -> Seq<char> {
    s.filter(|c: char| c != 'Z')
}

/// Drop the `Z` characters of a timestamp.
pub fn strip_z(s: &str) -> (r: String)
    ensures
        r@ == without_z(s@),
{
    let v = chars_of(s);
    let ghost pred = |c: char| c != 'Z';
    let mut out: Vec<char> = Vec::new();
    let mut i: usize = 0;
    while i < v.len()
        invariant
            pred == (|c: char| c != 'Z'),
            i <= v@.len(),
            out@ == v@.take(i as int).filter(pred),
        decreases v.len() - i,
    {
        reveal_with_fuel(Seq::filter, 1);
        assert(v@.take(i + 1).drop_last() =~= v@.take(i as int));
        assert(v@.take(i + 1).last() == v@[i as int]);
        if v[i] != 'Z' {
            out.push(v[i]);
        }
        i = i + 1;
    }
    assert(v@.take(v.len() as int) =~= v@);
    string_of(&out)
}

// ─── Orphans ─────────────────────────────────────────────────────────────────

/// What orphan detection reads of a live node: its edges in either
/// direction, and (for observations) its edges to hypotheses, constraints
/// and teloi.
#[derive(Debug, Clone)]
pub struct NodeLinks {
    pub node_id: String,
    pub node_type: String,
    pub name: String,
    pub created_at: String,
    pub edge_count: i64,
    pub structural_links: i64,
}

/// A node without any live edge.
#[derive(Debug, Clone)]
pub struct DisconnectedNode {
    pub node_id: String,
    pub node_type: String,
    pub name: String,
    pub edge_count: i64,
    pub age_days: i64,
    pub severity: String,
}

/// An observation with edges but none to a structural node.
#[derive(Debug, Clone)]
pub struct UnlinkedObservation {
    pub node_id: String,
    pub name: String,
    pub total_edges: i64,
}

/// The result of orphan detection.
#[derive(Debug, Clone)]
pub struct OrphanReport {
    pub disconnected: Vec<DisconnectedNode>,
    pub unlinked_observations: Vec<UnlinkedObservation>,
}

/// A disconnected node as a value: id, type, name, age and severity.
pub open spec fn disconnected_view(d: DisconnectedNode) -> (Seq<char>, Seq<char>, Seq<char>, i64, i64, Seq<char>) {
    (d.node_id@, d.node_type@, d.name@, d.edge_count, d.age_days, d.severity@)
}

pub open spec fn unlinked_view(u: UnlinkedObservation) -> (Seq<char>, Seq<char>, i64) {
    (u.node_id@, u.name@, u.total_edges)
}

/// The disconnected nodes among `ns`, each aged by `ages` (0 when its
/// creation time could not be read).
pub open spec fn disconnected_of(ns: Seq<NodeLinks>, ages: Seq<Option<i64>>) -> Seq<(Seq<char>, Seq<char>, Seq<char>, i64, i64, Seq<char>)>
    decreases ns.len(),
{
    if ns.len() == 0 || ages.len() < ns.len() {
        seq![]
    } else {
        let k = ns.len() - 1;
        let rest = disconnected_of(ns.drop_last(), ages.take(k));
        let n = ns[k];
        let age = match ages[k] { Some(a) => a, None => 0 };
        if n.edge_count == 0 {
            rest.push((n.node_id@, n.node_type@, n.name@, n.edge_count, age, orphan_severity_of(age as int)))
        } else {
            rest
        }
    }
}

/// The connected observations among `ns` that link to no structural node.
pub open spec fn unlinked_of(ns: Seq<NodeLinks>) -> Seq<(Seq<char>, Seq<char>, i64)>
    decreases ns.len(),
{
    if ns.len() == 0 {
        seq![]
    } else {
        let rest = unlinked_of(ns.drop_last());
        let n = ns.last();
        if n.edge_count != 0 && n.node_type@ == "observation"@ && n.structural_links == 0 {
            rest.push((n.node_id@, n.name@, n.edge_count))
        } else {
            rest
        }
    }
}

/// The unlinked observations are exactly the observations, in the given
/// order, that have at least one edge and no edge to a structural node.
pub proof fn lemma_unlinked_are_unstructured_observations(ns: Seq<NodeLinks>)
    ensures
        unlinked_of(ns) == ns.filter(|n: NodeLinks| n.edge_count != 0 && n.node_type@ == "observation"@ && n.structural_links == 0)
            .map_values(|n: NodeLinks| (n.node_id@, n.name@, n.edge_count)),
    decreases ns.len(),
{
    reveal_with_fuel(Seq::filter, 1);
    let f = |n: NodeLinks| n.edge_count != 0 && n.node_type@ == "observation"@ && n.structural_links == 0;
    let g = |n: NodeLinks| (n.node_id@, n.name@, n.edge_count);
    if ns.len() > 0 {
        lemma_unlinked_are_unstructured_observations(ns.drop_last());
        let prev = ns.drop_last().filter(f);
        if f(ns.last()) {
            assert(ns.filter(f) == prev.push(ns.last()));
            assert(prev.push(ns.last()).map_values(g) =~= prev.map_values(g).push(g(ns.last())));
        } else {
            assert(ns.filter(f) == prev);
        }
    } else {
        assert(ns.filter(f) =~= Seq::<NodeLinks>::empty());
        assert(ns.filter(f).map_values(g) =~= Seq::empty());
    }
}

/// The disconnected nodes are exactly the nodes without edges, in the given
/// order, each reported with no edges.
pub proof fn lemma_disconnected_have_no_edges(ns: Seq<NodeLinks>, ages: Seq<Option<i64>>)
    requires
        ages.len() >= ns.len(),
    ensures
        disconnected_of(ns, ages).map_values(|d: (Seq<char>, Seq<char>, Seq<char>, i64, i64, Seq<char>)| d.0)
            == ns.filter(|n: NodeLinks| n.edge_count == 0).map_values(|n: NodeLinks| n.node_id@),
        forall|k: int| 0 <= k < disconnected_of(ns, ages).len() ==> (#[trigger] disconnected_of(ns, ages)[k]).3 == 0,
    decreases ns.len(),
{
    reveal_with_fuel(Seq::filter, 1);
    let f = |n: NodeLinks| n.edge_count == 0;
    let g = |n: NodeLinks| n.node_id@;
    let h = |d: (Seq<char>, Seq<char>, Seq<char>, i64, i64, Seq<char>)| d.0;
    if ns.len() > 0 {
        let k = ns.len() - 1;
        lemma_disconnected_have_no_edges(ns.drop_last(), ages.take(k));
        let prev = ns.drop_last().filter(f);
        let rest = disconnected_of(ns.drop_last(), ages.take(k));
        let r = disconnected_of(ns, ages);
        if f(ns.last()) {
            assert(ns.filter(f) == prev.push(ns.last()));
            assert(prev.push(ns.last()).map_values(g) =~= prev.map_values(g).push(g(ns.last())));
            assert(r.map_values(h) =~= rest.map_values(h).push(ns.last().node_id@));
            assert forall|j: int| 0 <= j < r.len() implies (#[trigger] r[j]).3 == 0 by {
                if j < rest.len() {
                    assert(r[j] == rest[j]);
                }
            }
        } else {
            assert(ns.filter(f) == prev);
            assert(r == rest);
        }
    } else {
        assert(ns.filter(f) =~= Seq::<NodeLinks>::empty());
        assert(ns.filter(f).map_values(g) =~= Seq::empty());
        assert(disconnected_of(ns, ages).map_values(h) =~= Seq::empty());
    }
}

/// Orphan detection over the given nodes, `ages[i]` being the age in days
/// of node `i` where its creation time could be read.
pub fn orphan_report_at(nodes: &Vec<NodeLinks>, ages: &Vec<Option<i64>>) -> (r: OrphanReport)
    requires
        ages@.len() == nodes@.len(),
    ensures
        r.disconnected@.map_values(|d: DisconnectedNode| disconnected_view(d)) == disconnected_of(nodes@, ages@),
        r.unlinked_observations@.map_values(|u: UnlinkedObservation| unlinked_view(u)) == unlinked_of(nodes@),
{
    let mut disconnected: Vec<DisconnectedNode> = Vec::new();
    let mut unlinked: Vec<UnlinkedObservation> = Vec::new();
    let mut i: usize = 0;
    while i < nodes.len()
        invariant
            ages@.len() == nodes@.len(),
            i <= nodes@.len(),
            disconnected@.map_values(|d: DisconnectedNode| disconnected_view(d))
                == disconnected_of(nodes@.take(i as int), ages@.take(i as int)),
            unlinked@.map_values(|u: UnlinkedObservation| unlinked_view(u)) == unlinked_of(nodes@.take(i as int)),
        decreases nodes.len() - i,
    {
        let n = &nodes[i];
        let ghost ns = nodes@.take(i + 1);
        assert(ns.drop_last() =~= nodes@.take(i as int));
        assert(ns[i as int] == nodes@[i as int]);
        assert(ages@.take(i + 1).take(i as int) =~= ages@.take(i as int));
        assert(ages@.take(i + 1)[i as int] == ages@[i as int]);
        if n.edge_count == 0 {
            let age = match ages[i] { Some(a) => a, None => 0 };
            let severity = orphan_severity(age);
            let ghost before = disconnected@.map_values(|d: DisconnectedNode| disconnected_view(d));
            let d = DisconnectedNode {
                node_id: owned(n.node_id.as_str()),
                node_type: owned(n.node_type.as_str()),
                name: owned(n.name.as_str()),
                edge_count: n.edge_count,
                age_days: age,
                severity: owned(severity),
            };
            let ghost dv = disconnected_view(d);
            disconnected.push(d);
            assert(disconnected@.map_values(|d: DisconnectedNode| disconnected_view(d)) =~= before.push(dv));
        } else if str_eq(n.node_type.as_str(), "observation") && n.structural_links == 0 {
            let ghost before = unlinked@.map_values(|u: UnlinkedObservation| unlinked_view(u));
            let u = UnlinkedObservation {
                node_id: owned(n.node_id.as_str()),
                name: owned(n.name.as_str()),
                total_edges: n.edge_count,
            };
            let ghost uv = unlinked_view(u);
            unlinked.push(u);
            assert(unlinked@.map_values(|u: UnlinkedObservation| unlinked_view(u)) =~= before.push(uv));
        }
        i = i + 1;
    }
    assert(nodes@.take(nodes.len() as int) =~= nodes@);
    assert(ages@.take(nodes.len() as int) =~= ages@);
    OrphanReport { disconnected, unlinked_observations: unlinked }
}

/// The age in whole days at `now` of each node without edges whose creation
/// time can be read (`None` for the others).
pub open spec fn orphan_ages(ns: Seq<NodeLinks>, now: (i64, u32)) -> Seq<Option<i64>> {
    Seq::new(ns.len(), |i: int|
        if ns[i].edge_count == 0 {
            match naive_time_of(without_z(ns[i].created_at@)) {
                Some(t) => Some(whole_days(now, t) as i64),
                None => None,
            }
        } else {
            None
        })
}

/// Orphan detection at the moment `now`: each disconnected node is aged from
/// its creation time (a trailing "Z" dropped) to `now`.
pub fn detect_orphans_at(nodes: &Vec<NodeLinks>, now: (i64, u32)) -> (r: OrphanReport)
    ensures
        r.disconnected@.map_values(|d: DisconnectedNode| disconnected_view(d)) == disconnected_of(nodes@, orphan_ages(nodes@, now)),
        r.unlinked_observations@.map_values(|u: UnlinkedObservation| unlinked_view(u)) == unlinked_of(nodes@),
{
    let mut ages: Vec<Option<i64>> = Vec::new();
    let mut i: usize = 0;
    while i < nodes.len()
        invariant
            i <= nodes@.len(),
            ages@ == orphan_ages(nodes@, now).take(i as int),
        decreases nodes.len() - i,
    {
        let age = if nodes[i].edge_count == 0 {
            let t = strip_z(nodes[i].created_at.as_str());
            match parse_naive_time(t.as_str()) {
                Some(created) => Some(days_between(now, created)),
                None => None,
            }
        } else {
            None
        };
        ages.push(age);
        assert(ages@ =~= orphan_ages(nodes@, now).take(i + 1));
        i = i + 1;
    }
    assert(ages@ =~= orphan_ages(nodes@, now));
    orphan_report_at(nodes, &ages)
}

/// Orphan detection now: the clock is read once, and each disconnected node
/// is aged from its creation time to that reading.
pub fn detect_orphans(nodes: &Vec<NodeLinks>) -> (r: OrphanReport)
    ensures
        exists|now: (i64, u32)|
            r.disconnected@.map_values(|d: DisconnectedNode| disconnected_view(d)) == #[trigger] disconnected_of(nodes@, orphan_ages(nodes@, now))
            && r.unlinked_observations@.map_values(|u: UnlinkedObservation| unlinked_view(u)) == unlinked_of(nodes@),
{
    let now = utc_now();
    detect_orphans_at(nodes, now)
}

/// The orphans that lifecycle enforcement archives: critical orphan
/// observations.
pub open spec fn lifecycle_archive_of(ds: Seq<(Seq<char>, Seq<char>, Seq<char>, i64, i64, Seq<char>)>) -> Seq<Seq<char>>
    decreases ds.len(),
{
    if ds.len() == 0 {
        seq![]
    } else {
        let rest = lifecycle_archive_of(ds.drop_last());
        let d = ds.last();
        if d.5 == "critical"@ && d.1 == "observation"@ { rest.push(d.0) } else { rest }
    }
}

/// The identifiers of the orphans lifecycle enforcement archives.
pub fn lifecycle_archive_ids(report: &OrphanReport) -> (ids: Vec<String>)
    ensures
        crate::text::string_views(ids@)
            == lifecycle_archive_of(report.disconnected@.map_values(|d: DisconnectedNode| disconnected_view(d))),
{
    let ghost dv = report.disconnected@.map_values(|d: DisconnectedNode| disconnected_view(d));
    let mut ids: Vec<String> = Vec::new();
    let mut i: usize = 0;
    while i < report.disconnected.len()
        invariant
            dv == report.disconnected@.map_values(|d: DisconnectedNode| disconnected_view(d)),
            i <= report.disconnected@.len(),
            crate::text::string_views(ids@) == lifecycle_archive_of(dv.take(i as int)),
        decreases report.disconnected.len() - i,
    {
        assert(dv.take(i + 1).drop_last() =~= dv.take(i as int));
        assert(dv.take(i + 1).last() == dv[i as int]);
        let d = &report.disconnected[i];
        if enforce_archives(d.severity.as_str(), d.node_type.as_str()) {
            let ghost before = crate::text::string_views(ids@);
            ids.push(owned(d.node_id.as_str()));
            assert(crate::text::string_views(ids@) =~= before.push(d.node_id@));
        }
        i = i + 1;
    }
    assert(dv.take(report.disconnected.len() as int) =~= dv);
    ids
}

// ─── Stale observations ──────────────────────────────────────────────────────

/// What the stale pass reads of an observation: its `archive_after`
/// property (where it is a string) and its creation time.
#[derive(Debug, Clone)]
pub struct ObservationDates {
    pub node_id: String,
    pub archive_after: Option<String>,
    pub created_at: String,
}

/// Whether the `archive_after` deadline of an observation has passed at
/// `now`: `None` without a deadline or where it cannot be read as a time (a
/// trailing "Z" dropped).
pub open spec fn deadline_passed_at(o: ObservationDates, now: (i64, u32)) -> Option<bool> {
    match o.archive_after {
        Some(aa) => match naive_time_of(without_z(aa@)) {
            Some(t) => Some(later(now, t)),
            None => None,
        },
        None => None,
    }
}

/// The age in whole days at `now` of an observation without a deadline:
/// `None` with a deadline or where its creation time cannot be read.
pub open spec fn age_at(o: ObservationDates, now: (i64, u32)) -> Option<i64> {
    match o.archive_after {
        Some(_) => None,
        None => match naive_time_of(without_z(o.created_at@)) {
            Some(t) => Some(whole_days(now, t) as i64),
            None => None,
        },
    }
}

/// The observations archived as stale at `now`.
pub open spec fn stale_of(os: Seq<ObservationDates>, now: (i64, u32), threshold: i64) -> Seq<Seq<char>>
    decreases os.len(),
{
    if os.len() == 0 {
        seq![]
    } else {
        let k = os.len() - 1;
        let rest = stale_of(os.drop_last(), now, threshold);
        if should_archive_spec(os[k].archive_after is Some, deadline_passed_at(os[k], now), age_at(os[k], now), threshold) {
            rest.push(os[k].node_id@)
        } else {
            rest
        }
    }
}

/// The stale threshold: the one given, else 60 days.
pub open spec fn threshold_or_default(threshold: Option<i64>) -> i64 {
    match threshold {
        Some(t) => t,
        None => DEFAULT_STALE_THRESHOLD_DAYS,
    }
}

/// The identifiers of the observations to archive as stale at `now`: those
/// whose `archive_after` deadline is strictly before `now`, and, without a
/// deadline, those more than the threshold (60 days unless given) whole
/// days old.
pub fn stale_ids_at(obs: &Vec<ObservationDates>, now: (i64, u32), threshold: Option<i64>) -> (ids: Vec<String>)
    ensures
        crate::text::string_views(ids@) == stale_of(obs@, now, threshold_or_default(threshold)),
{
    let t = match threshold { Some(t) => t, None => DEFAULT_STALE_THRESHOLD_DAYS };
    let mut ids: Vec<String> = Vec::new();
    let mut i: usize = 0;
    while i < obs.len()
        invariant
            t == (match threshold { Some(t) => t, None => DEFAULT_STALE_THRESHOLD_DAYS }),
            i <= obs@.len(),
            crate::text::string_views(ids@) == stale_of(obs@.take(i as int), now, t),
        decreases obs.len() - i,
    {
        let ghost os = obs@.take(i + 1);
        assert(os.drop_last() =~= obs@.take(i as int));
        assert(os[i as int] == obs@[i as int]);
        let o = &obs[i];
        let (passed, age) = match &o.archive_after {
            Some(aa) => {
                let s = strip_z(aa.as_str());
                let passed = match parse_naive_time(s.as_str()) {
                    Some(deadline) => Some(is_later(now, deadline)),
                    None => None,
                };
                (passed, None)
            },
            None => {
                let s = strip_z(o.created_at.as_str());
                let age = match parse_naive_time(s.as_str()) {
                    Some(created) => Some(days_between(now, created)),
                    None => None,
                };
                (None, age)
            },
        };
        assert(passed == deadline_passed_at(obs@[i as int], now));
        assert(age == age_at(obs@[i as int], now));
        if should_archive(o.archive_after.is_some(), passed, age, threshold) {
            let ghost before = crate::text::string_views(ids@);
            ids.push(owned(o.node_id.as_str()));
            assert(crate::text::string_views(ids@) =~= before.push(o.node_id@));
        }
        i = i + 1;
    }
    assert(obs@.take(obs.len() as int) =~= obs@);
    ids
}

/// The identifiers of the observations to archive as stale now: the clock
/// is read once for the whole pass.
pub fn stale_ids(obs: &Vec<ObservationDates>, threshold: Option<i64>) -> (ids: Vec<String>)
    ensures
        exists|now: (i64, u32)| crate::text::string_views(ids@) == #[trigger] stale_of(obs@, now, threshold_or_default(threshold)),
{
    let now = utc_now();
    stale_ids_at(obs, now, threshold)
}

/// The hygiene rules on single values: an orphan is critical exactly when
/// it is more than 30 days old and a warning otherwise; an observation with
/// a deadline is archived exactly when the deadline is known to have
/// passed, and one without exactly when its known age exceeds the
/// threshold; the report recommends one line per problem: more than five
/// orphans, any dangling edge, observations above 70% of the nodes.
pub proof fn lemma_hygiene_rules(
    age: int,
    deadline_passed: Option<bool>,
    age_days: Option<i64>,
    threshold: i64,
    orphans: nat,
    dangling: nat,
    observations: int,
    nodes: int,
)
    ensures
        orphan_severity_of(age) == "critical"@ <==> age > 30,
        orphan_severity_of(age) == "warning"@ <==> age <= 30,
        should_archive_spec(true, deadline_passed, age_days, threshold) <==> deadline_passed == Some(true),
        should_archive_spec(false, deadline_passed, age_days, threshold)
            <==> (age_days matches Some(a) && a > threshold),
        recommendations_of(orphans, dangling, observations, nodes).len()
            == (if orphans > 5 { 1nat } else { 0nat }) + (if dangling > 0 { 1nat } else { 0nat })
                + (if observations > 0 && nodes >= 0 && 10 * observations > 7 * nodes { 1nat } else { 0nat }),
{
    reveal_strlit("critical");
    reveal_strlit("warning");
    assert("critical"@[0] != "warning"@[0]);
}

/// The stale pass at `now` archives exactly, and in order, the observations
/// whose deadline (a trailing "Z" dropped) reads as a moment strictly
/// before `now`, and, without a deadline, those whose creation time reads
/// as a moment more than `threshold` whole days before `now`.
pub proof fn lemma_stale_are_due(os: Seq<ObservationDates>, now: (i64, u32), threshold: i64)
    ensures
        stale_of(os, now, threshold) == os.filter(|o: ObservationDates| match o.archive_after {
            Some(aa) => match naive_time_of(without_z(aa@)) {
                Some(t) => later(now, t),
                None => false,
            },
            None => match naive_time_of(without_z(o.created_at@)) {
                Some(t) => whole_days(now, t) as i64 > threshold,
                None => false,
            },
        }).map_values(|o: ObservationDates| o.node_id@),
    decreases os.len(),
{
    reveal_with_fuel(Seq::filter, 1);
    let f = |o: ObservationDates| match o.archive_after {
        Some(aa) => match naive_time_of(without_z(aa@)) {
            Some(t) => later(now, t),
            None => false,
        },
        None => match naive_time_of(without_z(o.created_at@)) {
            Some(t) => whole_days(now, t) as i64 > threshold,
            None => false,
        },
    };
    let g = |o: ObservationDates| o.node_id@;
    if os.len() > 0 {
        lemma_stale_are_due(os.drop_last(), now, threshold);
        let prev = os.drop_last().filter(f);
        let o = os.last();
        assert(os[os.len() - 1] == o);
        assert(f(o) == should_archive_spec(o.archive_after is Some, deadline_passed_at(o, now), age_at(o, now), threshold));
        if f(o) {
            assert(os.filter(f) == prev.push(o));
            assert(prev.push(o).map_values(g) =~= prev.map_values(g).push(g(o)));
        } else {
            assert(os.filter(f) == prev);
        }
    } else {
        assert(os.filter(f) =~= Seq::<ObservationDates>::empty());
        assert(os.filter(f).map_values(g) =~= Seq::empty());
    }
}

} // verus!
