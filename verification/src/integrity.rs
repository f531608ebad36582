//! Graph integrity audit: the anomalies the audit raises for each node and
//! each edge, and whether the graph is healthy.
//!
//! The audit walks the graph; for every node and edge it hands in here what
//! it read (whether the type is known to the schema, how many outgoing edges
//! a node has, how many days since its last update, whether an edge's
//! endpoints exist), and records the anomalies returned.

use vstd::prelude::*;

use crate::audit::Anomaly;
use crate::grammar::first_keys;
use crate::holon::Node;
use crate::text::{
    contains_string, owned, push_signed, push_str, signed_dec_str, str_eq, string_views,
};

verus! {

/// An anomaly as a mathematical value.
pub struct AnomalyView {
    pub anomaly_id: Seq<char>,
    pub anomaly_type: Seq<char>,
    pub severity: Seq<char>,
    pub node_id: Option<Seq<char>>,
    pub edge: Option<(Seq<char>, Seq<char>)>,
    pub description: Seq<char>,
    pub detected_at: Seq<char>,
    pub suggested_action: Seq<char>,
    pub domain: Seq<char>,
}

impl View for Anomaly {
    type V = AnomalyView;

    open spec fn view(&self) -> AnomalyView {
        AnomalyView {
            anomaly_id: self.anomaly_id@,
            anomaly_type: self.anomaly_type@,
            severity: self.severity@,
            node_id: match self.node_id {
                Some(n) => Some(n@),
                None => None,
            },
            edge: match self.edge {
                Some(e) => Some((e.0@, e.1@)),
                None => None,
            },
            description: self.description@,
            detected_at: self.detected_at@,
            suggested_action: self.suggested_action@,
            domain: self.domain@,
        }
    }
}

pub open spec fn anomaly_views(v: Seq<Anomaly>) -> Seq<AnomalyView> {
    v.map_values(|a: Anomaly| a@)
}

/// What the audit finds wrong with a node.
#[derive(Debug, Clone, Copy, PartialEq, Eq, Structural)]
pub enum NodeFinding {
    /// The node type is not in the schema.
    UnknownType,
    /// A telos without a teleological level.
    MissingLevel,
    /// A telos without a developmental stage.
    MissingStage,
    /// An observation, capability or constraint without a drive state.
    MissingDrive,
    /// A node with no outgoing edge.
    Orphan,
    /// An active node not updated for more than 14 days.
    Stale(i64),
}

/// Lifecycle states the audit does not examine.
pub open spec fn audit_skips(lifecycle: Seq<char>) -> bool {
    lifecycle == "archived"@ || lifecycle == "deprecated"@ || lifecycle == "invalid"@
}

pub open spec fn needs_drive(node_type: Seq<char>) -> bool {
    node_type == "observation"@ || node_type == "capability"@ || node_type == "constraint"@
}

pub open spec fn finding_if(b: bool, f: NodeFinding) -> Seq<NodeFinding> {
    if b { seq![f] } else { seq![] }
}

/// The findings for a node, in the order the audit checks them.
pub open spec fn node_findings(
    n: Node,
    known_type: bool,
    drives_empty: bool,
    outgoing_edges: nat,
    stale_days: Option<i64>,
) -> Seq<NodeFinding> {
    if audit_skips(n.lifecycle_state@) {
        seq![]
    } else {
        finding_if(!known_type, NodeFinding::UnknownType)
            + finding_if(n.node_type@ == "telos"@ && n.teleological_level is None, NodeFinding::MissingLevel)
            + finding_if(n.node_type@ == "telos"@ && n.developmental_stage is None, NodeFinding::MissingStage)
            + finding_if(needs_drive(n.node_type@) && drives_empty, NodeFinding::MissingDrive)
            + finding_if(outgoing_edges == 0, NodeFinding::Orphan)
            + match stale_days {
                Some(d) => finding_if(
                    n.lifecycle_state@ == "active"@ && n.updated_at@.len() > 0 && d > 14,
                    NodeFinding::Stale(d),
                ),
                None => seq![],
            }
    }
}

/// The characters of the first eight bytes of an identifier's UTF-8
/// encoding, which the audit uses to name anomalies.
pub open spec fn id_prefix(id: Seq<char>) -> Seq<char> {
    vstd::utf8::decode_utf8(vstd::utf8::encode_utf8(id).subrange(0, 8))
}

/// The identifier's UTF-8 encoding can be cut after its eighth byte: it is
/// at least eight bytes long and no character straddles that point.
pub open spec fn cut_after_eight_bytes(id: Seq<char>) -> bool {
    vstd::utf8::is_char_boundary(vstd::utf8::encode_utf8(id), 8)
}

/// The first eight bytes of an identifier.
fn first_eight_bytes(id: &str) -> (p: String)
    requires
        cut_after_eight_bytes(id@),
    ensures
        p@ == id_prefix(id@),
{
    let (head, _rest) = id.split_at(8);
    proof {
        vstd::utf8::encode_utf8_decode_utf8(head@);
    }
    owned(head)
}

/// The anomaly raised for a node finding.
pub open spec fn node_anomaly(n: Node, f: NodeFinding, at: Seq<char>) -> AnomalyView {
    let p = id_prefix(n.id@);
    let base = AnomalyView {
        anomaly_id: seq![],
        anomaly_type: "schema_violation"@,
        severity: "high"@,
        node_id: Some(n.id@),
        edge: None,
        description: seq![],
        detected_at: at,
        suggested_action: ""@,
        domain: "schema"@,
    };
    match f {
        NodeFinding::UnknownType => AnomalyView {
            anomaly_id: "bad_nt_"@ + p,
            description: "Unknown node_type: "@ + n.node_type@,
            ..base
        },
        NodeFinding::MissingLevel => AnomalyView {
            anomaly_id: "no_level_"@ + p,
            description: "TelosNode missing level: "@ + n.name@,
            ..base
        },
        NodeFinding::MissingStage => AnomalyView {
            anomaly_id: "no_stage_"@ + p,
            description: "TelosNode missing stage: "@ + n.name@,
            ..base
        },
        NodeFinding::MissingDrive => AnomalyView {
            anomaly_id: "no_drive_"@ + p,
            severity: "medium"@,
            description: n.node_type@ + " missing drive_state"@,
            ..base
        },
        NodeFinding::Orphan => AnomalyView {
            anomaly_id: "orphan_"@ + p,
            anomaly_type: "orphan_node"@,
            severity: "low"@,
            description: "No edges: "@ + n.name@,
            suggested_action: "Link or archive"@,
            domain: "knowledge"@,
            ..base
        },
        NodeFinding::Stale(d) => AnomalyView {
            anomaly_id: "stale_"@ + p,
            anomaly_type: "stale_node"@,
            severity: "low"@,
            description: "Stale "@ + signed_dec_str(d as int) + "d: "@ + n.name@,
            suggested_action: "Update or archive"@,
            domain: "knowledge"@,
            ..base
        },
    }
}

fn make_id(prefix: &str, id8: &String) -> (s: String)
    ensures
        s@ == prefix@ + id8@,
{
    let mut s = owned(prefix);
    push_str(&mut s, id8.as_str());
    s
}

fn node_anomaly_exec(n: &Node, f: NodeFinding, id8: &String, at: &str) -> (a: Anomaly)
    requires
        id8@ == id_prefix(n.id@),
    ensures
        a@ == node_anomaly(*n, f, at@),
{
    let node_id = Some(owned(n.id.as_str()));
    match f {
        NodeFinding::UnknownType => {
            let mut d = owned("Unknown node_type: ");
            push_str(&mut d, n.node_type.as_str());
            Anomaly::new_at(make_id("bad_nt_", id8).as_str(), "schema_violation", "high", node_id, None, d.as_str(), "", "schema", owned(at))
        },
        NodeFinding::MissingLevel => {
            let mut d = owned("TelosNode missing level: ");
            push_str(&mut d, n.name.as_str());
            Anomaly::new_at(make_id("no_level_", id8).as_str(), "schema_violation", "high", node_id, None, d.as_str(), "", "schema", owned(at))
        },
        NodeFinding::MissingStage => {
            let mut d = owned("TelosNode missing stage: ");
            push_str(&mut d, n.name.as_str());
            Anomaly::new_at(make_id("no_stage_", id8).as_str(), "schema_violation", "high", node_id, None, d.as_str(), "", "schema", owned(at))
        },
        NodeFinding::MissingDrive => {
            let mut d = owned(n.node_type.as_str());
            push_str(&mut d, " missing drive_state");
            Anomaly::new_at(make_id("no_drive_", id8).as_str(), "schema_violation", "medium", node_id, None, d.as_str(), "", "schema", owned(at))
        },
        NodeFinding::Orphan => {
            let mut d = owned("No edges: ");
            push_str(&mut d, n.name.as_str());
            Anomaly::new_at(make_id("orphan_", id8).as_str(), "orphan_node", "low", node_id, None, d.as_str(), "Link or archive", "knowledge", owned(at))
        },
        NodeFinding::Stale(days) => {
            let mut d = owned("Stale ");
            push_signed(&mut d, days);
            push_str(&mut d, "d: ");
            push_str(&mut d, n.name.as_str());
            Anomaly::new_at(make_id("stale_", id8).as_str(), "stale_node", "low", node_id, None, d.as_str(), "Update or archive", "knowledge", owned(at))
        },
    }
}

/// The findings for a node.
pub fn node_findings_exec(
    n: &Node,
    known_type: bool,
    drives_empty: bool,
    outgoing_edges: u64,
    stale_days: Option<i64>,
) -> (r: Vec<NodeFinding>)
    ensures
        r@ == node_findings(*n, known_type, drives_empty, outgoing_edges as nat, stale_days),
{
    let ls = n.lifecycle_state.as_str();
    let mut r: Vec<NodeFinding> = Vec::new();
    if str_eq(ls, "archived") || str_eq(ls, "deprecated") || str_eq(ls, "invalid") {
        return r;
    }
    let t = n.node_type.as_str();
    let is_telos = str_eq(t, "telos");
    if !known_type {
        r.push(NodeFinding::UnknownType);
    }
    if is_telos && n.teleological_level.is_none() {
        r.push(NodeFinding::MissingLevel);
    }
    if is_telos && n.developmental_stage.is_none() {
        r.push(NodeFinding::MissingStage);
    }
    if (str_eq(t, "observation") || str_eq(t, "capability") || str_eq(t, "constraint")) && drives_empty {
        r.push(NodeFinding::MissingDrive);
    }
    if outgoing_edges == 0 {
        r.push(NodeFinding::Orphan);
    }
    match stale_days {
        Some(d) => {
            if str_eq(ls, "active") && !n.updated_at.as_str().is_empty() && d > 14 {
                r.push(NodeFinding::Stale(d));
            }
        },
        None => {},
    }
    assert(r@ =~= node_findings(*n, known_type, drives_empty, outgoing_edges as nat, stale_days));
    r
}

/// The anomalies the audit raises for a node, detected at `detected_at`.
///
/// `known_type` tells whether the node type is in the schema,
/// `drives_empty` whether the node has no drive state, `outgoing_edges` how
/// many edges leave it, and `stale_days` how many days have passed since
/// its last update, when that time could be read.
pub fn node_anomalies(
    n: &Node,
    known_type: bool,
    drives_empty: bool,
    outgoing_edges: u64,
    stale_days: Option<i64>,
    detected_at: &str,
) -> (r: Vec<Anomaly>)
    requires
        node_findings(*n, known_type, drives_empty, outgoing_edges as nat, stale_days).len() > 0
            ==> cut_after_eight_bytes(n.id@),
    ensures
        anomaly_views(r@) == node_findings(*n, known_type, drives_empty, outgoing_edges as nat, stale_days)
            .map_values(|f: NodeFinding| node_anomaly(*n, f, detected_at@)),
{
    let findings = node_findings_exec(n, known_type, drives_empty, outgoing_edges, stale_days);
    let ghost spec_findings = node_findings(*n, known_type, drives_empty, outgoing_edges as nat, stale_days);
    let mut r: Vec<Anomaly> = Vec::new();
    if findings.len() == 0 {
        assert(anomaly_views(r@) =~= spec_findings.map_values(|f: NodeFinding| node_anomaly(*n, f, detected_at@)));
        return r;
    }
    let id8 = first_eight_bytes(n.id.as_str());
    let mut i: usize = 0;
    while i < findings.len()
        invariant
            findings@ == spec_findings,
            id8@ == id_prefix(n.id@),
            i <= findings@.len(),
            anomaly_views(r@) == spec_findings.take(i as int).map_values(|f: NodeFinding| node_anomaly(*n, f, detected_at@)),
        decreases findings.len() - i,
    {
        let a = node_anomaly_exec(n, findings[i], &id8, detected_at);
        let ghost av = a@;
        let ghost before = anomaly_views(r@);
        r.push(a);
        assert(anomaly_views(r@) =~= before.push(av));
        assert(spec_findings.take(i + 1).map_values(|f: NodeFinding| node_anomaly(*n, f, detected_at@))
            =~= spec_findings.take(i as int).map_values(|f: NodeFinding| node_anomaly(*n, f, detected_at@)).push(av));
        i = i + 1;
    }
    assert(spec_findings.take(findings.len() as int) =~= spec_findings);
    r
}

/// The anomaly the audit raises for an edge, if any: a missing source, else
/// a missing target, else an edge type unknown to the schema.
pub open spec fn edge_anomaly(
    edge_id: Seq<char>,
    source_id: Seq<char>,
    target_id: Seq<char>,
    edge_type: Seq<char>,
    source_exists: bool,
    target_exists: bool,
    known_type: bool,
    at: Seq<char>,
) -> Option<AnomalyView> {
    let base = AnomalyView {
        anomaly_id: seq![],
        anomaly_type: "dangling_edge"@,
        severity: "high"@,
        node_id: None,
        edge: Some((source_id, target_id)),
        description: seq![],
        detected_at: at,
        suggested_action: ""@,
        domain: "persistence"@,
    };
    if !source_exists {
        Some(AnomalyView {
            anomaly_id: "dangling_src_"@ + id_prefix(edge_id),
            description: "Edge source missing: "@ + source_id,
            ..base
        })
    } else if !target_exists {
        Some(AnomalyView {
            anomaly_id: "dangling_tgt_"@ + id_prefix(edge_id),
            description: "Edge target missing: "@ + target_id,
            ..base
        })
    } else if !known_type {
        Some(AnomalyView {
            anomaly_id: "bad_et_"@ + id_prefix(edge_id),
            anomaly_type: "schema_violation"@,
            severity: "medium"@,
            description: "Unknown edge_type: "@ + edge_type,
            domain: "schema"@,
            ..base
        })
    } else {
        None
    }
}

/// The anomaly the audit raises for an edge, detected at `detected_at`.
pub fn edge_anomalies(
    edge_id: &str,
    source_id: &str,
    target_id: &str,
    edge_type: &str,
    source_exists: bool,
    target_exists: bool,
    known_type: bool,
    detected_at: &str,
) -> (r: Option<Anomaly>)
    requires
        !(source_exists && target_exists && known_type) ==> cut_after_eight_bytes(edge_id@),
    ensures
        match r {
            Some(a) => edge_anomaly(edge_id@, source_id@, target_id@, edge_type@, source_exists, target_exists, known_type, detected_at@) == Some(a@),
            None => edge_anomaly(edge_id@, source_id@, target_id@, edge_type@, source_exists, target_exists, known_type, detected_at@) is None,
        },
{
    if source_exists && target_exists && known_type {
        return None;
    }

    let id8 = first_eight_bytes(edge_id);
    let edge = Some((owned(source_id), owned(target_id)));
    if !source_exists {
        let mut d = owned("Edge source missing: ");
        push_str(&mut d, source_id);
        Some(Anomaly::new_at(make_id("dangling_src_", &id8).as_str(), "dangling_edge", "high", None, edge, d.as_str(), "", "persistence", owned(detected_at)))
    } else if !target_exists {
        let mut d = owned("Edge target missing: ");
        push_str(&mut d, target_id);
        Some(Anomaly::new_at(make_id("dangling_tgt_", &id8).as_str(), "dangling_edge", "high", None, edge, d.as_str(), "", "persistence", owned(detected_at)))
    } else {
        let mut d = owned("Unknown edge_type: ");
        push_str(&mut d, edge_type);
        Some(Anomaly::new_at(make_id("bad_et_", &id8).as_str(), "schema_violation", "medium", None, edge, d.as_str(), "", "schema", owned(detected_at)))
    }
}

/// Severities that make the graph unhealthy.
pub open spec fn is_serious(severity: Seq<char>) -> bool {
    severity == "high"@ || severity == "critical"@
}

/// The number of anomalies of high or critical severity.
pub open spec fn serious_count(v: Seq<AnomalyView>) -> nat
    decreases v.len(),
{
    if v.len() == 0 {
        0
    } else {
        serious_count(v.drop_last()) + if is_serious(v.last().severity) { 1nat } else { 0nat }
    }
}

/// The number of high or critical anomalies.
pub fn count_serious(anomalies: &Vec<Anomaly>) -> (c: usize)
    ensures
        c as nat == serious_count(anomaly_views(anomalies@)),
{
    let ghost av = anomaly_views(anomalies@);
    let mut c: usize = 0;
    let mut i: usize = 0;
    while i < anomalies.len()
        invariant
            av == anomaly_views(anomalies@),
            i <= anomalies@.len(),
            c as nat == serious_count(av.take(i as int)),
            c <= i,
        decreases anomalies.len() - i,
    {
        assert(av.take(i + 1).drop_last() =~= av.take(i as int));
        assert(av.take(i + 1).last() == anomalies@[i as int]@);
        let s = anomalies[i].severity.as_str();
        if str_eq(s, "high") || str_eq(s, "critical") {
            c = c + 1;
        }
        i = i + 1;
    }
    assert(av.take(anomalies.len() as int) =~= av);
    c
}

/// Whether the graph is healthy: no anomaly of high or critical severity.
pub fn integrity_is_healthy(anomalies: &Vec<Anomaly>) -> (b: bool)
    ensures
        b == (serious_count(anomaly_views(anomalies@)) == 0),
{
    count_serious(anomalies) == 0
}

/// How often `k` occurs in `ks`.
pub open spec fn occurrences(ks: Seq<Seq<char>>, k: Seq<char>) -> nat
    decreases ks.len(),
{
    if ks.len() == 0 {
        0
    } else {
        occurrences(ks.drop_last(), k) + if ks.last() == k { 1nat } else { 0nat }
    }
}

/// Each distinct key of `ks` with the number of its occurrences, in the
/// order the keys first occur.
pub open spec fn tally(ks: Seq<Seq<char>>) -> Seq<(Seq<char>, nat)> {
    first_keys(ks).map_values(|k: Seq<char>| (k, occurrences(ks, k)))
}

pub open spec fn tally_views(v: Seq<(String, usize)>) -> Seq<(Seq<char>, nat)> {
    v.map_values(|p: (String, usize)| (p.0@, p.1 as nat))
}

/// Each distinct key with the number of its occurrences, in the order the
/// keys first occur.
fn tally_exec(keys: &Vec<String>) -> (r: Vec<(String, usize)>)
    ensures
        tally_views(r@) == tally(string_views(keys@)),
{
    let ghost ks = string_views(keys@);
    let mut distinct: Vec<String> = Vec::new();
    let mut i: usize = 0;
    while i < keys.len()
        invariant
            ks == string_views(keys@),
            i <= keys@.len(),
            string_views(distinct@) == first_keys(ks.take(i as int)),
        decreases keys.len() - i,
    {
        assert(ks.take(i + 1).drop_last() =~= ks.take(i as int));
        assert(ks.take(i + 1).last() == keys@[i as int]@);
        if !contains_string(&distinct, keys[i].as_str()) {
            let ghost before = string_views(distinct@);
            distinct.push(owned(keys[i].as_str()));
            assert(string_views(distinct@) =~= before.push(keys@[i as int]@));
        }
        i = i + 1;
    }
    assert(ks.take(keys.len() as int) =~= ks);
    let ghost fk = first_keys(ks);
    let mut r: Vec<(String, usize)> = Vec::new();
    let mut j: usize = 0;
    while j < distinct.len()
        invariant
            ks == string_views(keys@),
            string_views(distinct@) == fk,
            fk == first_keys(ks),
            j <= distinct@.len(),
            tally_views(r@) == fk.take(j as int).map_values(|k: Seq<char>| (k, occurrences(ks, k))),
        decreases distinct.len() - j,
    {
        let d = &distinct[j];
        let ghost dk = fk[j as int];
        assert(d@ == dk);
        let mut c: usize = 0;
        let mut i: usize = 0;
        while i < keys.len()
            invariant
                ks == string_views(keys@),
                d@ == dk,
                i <= keys@.len(),
                c as nat == occurrences(ks.take(i as int), dk),
                c <= i,
            decreases keys.len() - i,
        {
            assert(ks.take(i + 1).drop_last() =~= ks.take(i as int));
            assert(ks.take(i + 1).last() == keys@[i as int]@);
            if str_eq(keys[i].as_str(), d.as_str()) {
                c = c + 1;
            }
            i = i + 1;
        }
        assert(ks.take(keys.len() as int) =~= ks);
        let ghost before = tally_views(r@);
        r.push((owned(d.as_str()), c));
        assert(tally_views(r@) =~= before.push((dk, occurrences(ks, dk))));
        assert(fk.take(j + 1).map_values(|k: Seq<char>| (k, occurrences(ks, k)))
            =~= fk.take(j as int).map_values(|k: Seq<char>| (k, occurrences(ks, k))).push((dk, occurrences(ks, dk))));
        j = j + 1;
    }
    assert(fk.take(distinct.len() as int) =~= fk);
    r
}

/// An anomaly as the integrity report lists it.
#[derive(Debug, Clone)]
pub struct AnomalyLine {
    pub anomaly_id: String,
    pub anomaly_type: String,
    pub severity: String,
    pub node_id: Option<String>,
    pub description: String,
}

pub open spec fn line_of(a: AnomalyView) -> (Seq<char>, Seq<char>, Seq<char>, Option<Seq<char>>, Seq<char>) {
    (a.anomaly_id, a.anomaly_type, a.severity, a.node_id, a.description)
}

pub open spec fn line_view(l: AnomalyLine) -> (Seq<char>, Seq<char>, Seq<char>, Option<Seq<char>>, Seq<char>) {
    (l.anomaly_id@, l.anomaly_type@, l.severity@, match l.node_id {
        Some(n) => Some(n@),
        None => None,
    }, l.description@)
}

/// The integrity report lists this many anomalies at most.
pub const LISTED_ANOMALIES: usize = 50;

/// The summary of an integrity audit: how many anomalies, how many of each
/// type and of each severity, the first of them, and whether the graph is
/// healthy.
#[derive(Debug, Clone)]
pub struct IntegritySummary {
    pub anomaly_count: usize,
    pub by_type: Vec<(String, usize)>,
    pub by_severity: Vec<(String, usize)>,
    pub listed: Vec<AnomalyLine>,
    pub is_healthy: bool,
}

/// Summarise the anomalies an integrity audit raised: the counts by type
/// and by severity (in the order each first occurs), the first fifty
/// anomalies, and health (no anomaly of high or critical severity).
pub fn summarize_integrity(anomalies: &Vec<Anomaly>) -> (s: IntegritySummary)
    ensures
        s.anomaly_count == anomalies@.len(),
        tally_views(s.by_type@) == tally(anomaly_views(anomalies@).map_values(|a: AnomalyView| a.anomaly_type)),
        tally_views(s.by_severity@) == tally(anomaly_views(anomalies@).map_values(|a: AnomalyView| a.severity)),
        s.listed@.map_values(|l: AnomalyLine| line_view(l)) == anomaly_views(anomalies@).take(
            if anomalies@.len() <= 50 { anomalies@.len() as int } else { 50 },
        ).map_values(|a: AnomalyView| line_of(a)),
        s.is_healthy == (serious_count(anomaly_views(anomalies@)) == 0),
{
    let ghost av = anomaly_views(anomalies@);
    let mut types: Vec<String> = Vec::new();
    let mut severities: Vec<String> = Vec::new();
    let mut listed: Vec<AnomalyLine> = Vec::new();
    let mut i: usize = 0;
    while i < anomalies.len()
        invariant
            av == anomaly_views(anomalies@),
            i <= anomalies@.len(),
            string_views(types@) == av.take(i as int).map_values(|a: AnomalyView| a.anomaly_type),
            string_views(severities@) == av.take(i as int).map_values(|a: AnomalyView| a.severity),
            listed@.map_values(|l: AnomalyLine| line_view(l))
                == av.take(if i <= 50 { i as int } else { 50 }).map_values(|a: AnomalyView| line_of(a)),
        decreases anomalies.len() - i,
    {
        let a = &anomalies[i];
        assert(av[i as int] == a@);
        let ghost tb = string_views(types@);
        let ghost sb = string_views(severities@);
        types.push(owned(a.anomaly_type.as_str()));
        severities.push(owned(a.severity.as_str()));
        assert(string_views(types@) =~= tb.push(a.anomaly_type@));
        assert(string_views(severities@) =~= sb.push(a.severity@));
        assert(av.take(i + 1).map_values(|a: AnomalyView| a.anomaly_type)
            =~= av.take(i as int).map_values(|a: AnomalyView| a.anomaly_type).push(a.anomaly_type@));
        assert(av.take(i + 1).map_values(|a: AnomalyView| a.severity)
            =~= av.take(i as int).map_values(|a: AnomalyView| a.severity).push(a.severity@));
        if i < LISTED_ANOMALIES {
            let ghost lb = listed@.map_values(|l: AnomalyLine| line_view(l));
            let node_id = match &a.node_id {
                Some(n) => Some(owned(n.as_str())),
                None => None,
            };
            let line = AnomalyLine {
                anomaly_id: owned(a.anomaly_id.as_str()),
                anomaly_type: owned(a.anomaly_type.as_str()),
                severity: owned(a.severity.as_str()),
                node_id,
                description: owned(a.description.as_str()),
            };
            assert(line_view(line) == line_of(a@));
            listed.push(line);
            assert(listed@.map_values(|l: AnomalyLine| line_view(l)) =~= lb.push(line_of(a@)));
            assert(av.take(i + 1).map_values(|a: AnomalyView| line_of(a))
                =~= av.take(i as int).map_values(|a: AnomalyView| line_of(a)).push(line_of(a@)));
        }
        i = i + 1;
    }
    assert(av.take(anomalies.len() as int) =~= av);
    let by_type = tally_exec(&types);
    let by_severity = tally_exec(&severities);
    IntegritySummary {
        anomaly_count: anomalies.len(),
        by_type,
        by_severity,
        listed,
        is_healthy: integrity_is_healthy(anomalies),
    }
}

/// A node the audit skips raises nothing, and every anomaly raised for a
/// node names that node.
pub proof fn lemma_node_audit_scope(
    n: Node,
    known_type: bool,
    drives_empty: bool,
    outgoing_edges: nat,
    stale_days: Option<i64>,
    at: Seq<char>,
)
    ensures
        audit_skips(n.lifecycle_state@) ==> node_findings(n, known_type, drives_empty, outgoing_edges, stale_days).len() == 0,
        forall|f: NodeFinding| #[trigger] node_anomaly(n, f, at).node_id == Some(n.id@),
{
}

/// An examined node is reported as an orphan exactly when no edge leaves it.
#[verifier::rlimit(30)]
pub proof fn lemma_orphan_iff_no_edges(
    n: Node,
    known_type: bool,
    drives_empty: bool,
    outgoing_edges: nat,
    stale_days: Option<i64>,
)
    requires
        !audit_skips(n.lifecycle_state@),
    ensures
        node_findings(n, known_type, drives_empty, outgoing_edges, stale_days).contains(NodeFinding::Orphan)
            <==> outgoing_edges == 0,
{
    let fs = node_findings(n, known_type, drives_empty, outgoing_edges, stale_days);
    let a = finding_if(!known_type, NodeFinding::UnknownType)
        + finding_if(n.node_type@ == "telos"@ && n.teleological_level is None, NodeFinding::MissingLevel)
        + finding_if(n.node_type@ == "telos"@ && n.developmental_stage is None, NodeFinding::MissingStage)
        + finding_if(needs_drive(n.node_type@) && drives_empty, NodeFinding::MissingDrive);
    let o = finding_if(outgoing_edges == 0, NodeFinding::Orphan);
    let s = match stale_days {
        Some(d) => finding_if(
            n.lifecycle_state@ == "active"@ && n.updated_at@.len() > 0 && d > 14,
            NodeFinding::Stale(d),
        ),
        None => seq![],
    };
    assert(fs == a + o + s);
    assert forall|i: int| 0 <= i < a.len() implies a[i] != NodeFinding::Orphan by {
        assert(a.len() <= 4);
    }
    assert(s.len() <= 1);
    assert(forall|i: int| 0 <= i < s.len() ==> s[i] != NodeFinding::Orphan);
    if outgoing_edges == 0 {
        assert(fs[a.len() as int] == NodeFinding::Orphan);
    } else {
        assert(o.len() == 0);
        if fs.contains(NodeFinding::Orphan) {
            let i = choose|i: int| 0 <= i < fs.len() && fs[i] == NodeFinding::Orphan;
            if i < a.len() {
                assert(fs[i] == a[i]);
            } else {
                assert(fs[i] == s[i - a.len()]);
            }
        }
    }
}

proof fn lemma_findings_concat_contains(x: Seq<NodeFinding>, y: Seq<NodeFinding>, e: NodeFinding)
    ensures
        (x + y).contains(e) <==> (x.contains(e) || y.contains(e)),
{
    if x.contains(e) {
        let i = choose|i: int| 0 <= i < x.len() && x[i] == e;
        assert((x + y)[i] == e);
    }
    if y.contains(e) {
        let i = choose|i: int| 0 <= i < y.len() && y[i] == e;
        assert((x + y)[x.len() + i] == e);
    }
    if (x + y).contains(e) {
        let i = choose|i: int| 0 <= i < (x + y).len() && (x + y)[i] == e;
        if i < x.len() {
            assert(x[i] == e);
        } else {
            assert(y[i - x.len()] == e);
        }
    }
}

proof fn lemma_finding_if_contains(b: bool, f: NodeFinding, e: NodeFinding)
    ensures
        finding_if(b, f).contains(e) <==> (b && f == e),
{
    if b {
        assert(finding_if(b, f)[0] == f);
    }
}

proof fn lemma_findings_six(
    fs: Seq<NodeFinding>,
    w1: Seq<NodeFinding>, w2: Seq<NodeFinding>, w3: Seq<NodeFinding>,
    w4: Seq<NodeFinding>, w5: Seq<NodeFinding>, w6: Seq<NodeFinding>,
    c1: bool, c2: bool, c3: bool, c4: bool, c5: bool,
    e: NodeFinding,
)
    requires
        fs == w1 + w2 + w3 + w4 + w5 + w6,
        w1 == finding_if(c1, NodeFinding::UnknownType),
        w2 == finding_if(c2, NodeFinding::MissingLevel),
        w3 == finding_if(c3, NodeFinding::MissingStage),
        w4 == finding_if(c4, NodeFinding::MissingDrive),
        w5 == finding_if(c5, NodeFinding::Orphan),
    ensures
        fs.contains(e) <==> ((c1 && e == NodeFinding::UnknownType) || (c2 && e == NodeFinding::MissingLevel)
            || (c3 && e == NodeFinding::MissingStage) || (c4 && e == NodeFinding::MissingDrive)
            || (c5 && e == NodeFinding::Orphan) || w6.contains(e)),
{
    lemma_findings_concat_contains(w1, w2, e);
    lemma_findings_concat_contains(w1 + w2, w3, e);
    lemma_findings_concat_contains(w1 + w2 + w3, w4, e);
    lemma_findings_concat_contains(w1 + w2 + w3 + w4, w5, e);
    lemma_findings_concat_contains(w1 + w2 + w3 + w4 + w5, w6, e);
    lemma_finding_if_contains(c1, NodeFinding::UnknownType, e);
    lemma_finding_if_contains(c2, NodeFinding::MissingLevel, e);
    lemma_finding_if_contains(c3, NodeFinding::MissingStage, e);
    lemma_finding_if_contains(c4, NodeFinding::MissingDrive, e);
    lemma_finding_if_contains(c5, NodeFinding::Orphan, e);
}

/// How each finding is reported: schema violations of high severity for an
/// unknown type and for a telos without level or stage, of medium severity
/// for a missing drive state; low-severity orphan and stale-node reports in
/// the knowledge domain; each names the node and carries an identifier
/// made of its kind and the node's identifier prefix.
pub proof fn lemma_node_anomaly_kinds(n: Node, at: Seq<char>, d: i64)
    ensures
        node_anomaly(n, NodeFinding::UnknownType, at).anomaly_type == "schema_violation"@
            && node_anomaly(n, NodeFinding::UnknownType, at).severity == "high"@
            && node_anomaly(n, NodeFinding::UnknownType, at).anomaly_id == "bad_nt_"@ + id_prefix(n.id@),
        node_anomaly(n, NodeFinding::MissingLevel, at).anomaly_type == "schema_violation"@
            && node_anomaly(n, NodeFinding::MissingLevel, at).severity == "high"@
            && node_anomaly(n, NodeFinding::MissingLevel, at).anomaly_id == "no_level_"@ + id_prefix(n.id@),
        node_anomaly(n, NodeFinding::MissingStage, at).anomaly_type == "schema_violation"@
            && node_anomaly(n, NodeFinding::MissingStage, at).severity == "high"@
            && node_anomaly(n, NodeFinding::MissingStage, at).anomaly_id == "no_stage_"@ + id_prefix(n.id@),
        node_anomaly(n, NodeFinding::MissingDrive, at).anomaly_type == "schema_violation"@
            && node_anomaly(n, NodeFinding::MissingDrive, at).severity == "medium"@
            && node_anomaly(n, NodeFinding::MissingDrive, at).anomaly_id == "no_drive_"@ + id_prefix(n.id@)
            && node_anomaly(n, NodeFinding::MissingDrive, at).description == n.node_type@ + " missing drive_state"@,
        node_anomaly(n, NodeFinding::Orphan, at).anomaly_type == "orphan_node"@
            && node_anomaly(n, NodeFinding::Orphan, at).severity == "low"@
            && node_anomaly(n, NodeFinding::Orphan, at).domain == "knowledge"@
            && node_anomaly(n, NodeFinding::Orphan, at).anomaly_id == "orphan_"@ + id_prefix(n.id@),
        node_anomaly(n, NodeFinding::Stale(d), at).anomaly_type == "stale_node"@
            && node_anomaly(n, NodeFinding::Stale(d), at).severity == "low"@
            && node_anomaly(n, NodeFinding::Stale(d), at).domain == "knowledge"@
            && node_anomaly(n, NodeFinding::Stale(d), at).anomaly_id == "stale_"@ + id_prefix(n.id@),
{
}

/// How an edge is reported: a missing source, else a missing target, is a
/// high-severity dangling edge in the persistence domain; an edge type
/// unknown to the schema is a medium schema violation; an edge with both
/// ends and a known type is not reported.
pub proof fn lemma_edge_anomaly_kinds(
    edge_id: Seq<char>, source_id: Seq<char>, target_id: Seq<char>, edge_type: Seq<char>,
    source_exists: bool, target_exists: bool, known_type: bool, at: Seq<char>,
)
    ensures ({
        let a = edge_anomaly(edge_id, source_id, target_id, edge_type, source_exists, target_exists, known_type, at);
        &&& (a is None <==> (source_exists && target_exists && known_type))
        &&& !source_exists ==> (a matches Some(v) && v.anomaly_type == "dangling_edge"@ && v.severity == "high"@
            && v.anomaly_id == "dangling_src_"@ + id_prefix(edge_id) && v.edge == Some((source_id, target_id)))
        &&& source_exists && !target_exists ==> (a matches Some(v) && v.anomaly_type == "dangling_edge"@
            && v.severity == "high"@ && v.anomaly_id == "dangling_tgt_"@ + id_prefix(edge_id))
        &&& source_exists && target_exists && !known_type ==> (a matches Some(v)
            && v.anomaly_type == "schema_violation"@ && v.severity == "medium"@
            && v.anomaly_id == "bad_et_"@ + id_prefix(edge_id))
    }),
{
}

/// What the audit reports for an examined node (one whose lifecycle is not
/// archived, deprecated or invalid): an unknown type exactly when the type
/// is not in the schema; a missing level, and a missing stage, exactly for
/// a telos without one; and staleness of `d` days exactly when the node is
/// active, has an update time, was last updated `d > 14` days ago. A
/// skipped node is reported for nothing.
#[verifier::rlimit(50)]
pub proof fn lemma_node_findings_iff(
    n: Node,
    known_type: bool,
    drives_empty: bool,
    outgoing_edges: nat,
    stale_days: Option<i64>,
    d: i64,
)
    ensures
        (n.lifecycle_state@ == "archived"@ || n.lifecycle_state@ == "deprecated"@ || n.lifecycle_state@ == "invalid"@)
            ==> node_findings(n, known_type, drives_empty, outgoing_edges, stale_days).len() == 0,
        !(n.lifecycle_state@ == "archived"@ || n.lifecycle_state@ == "deprecated"@ || n.lifecycle_state@ == "invalid"@) ==> {
            let fs = node_findings(n, known_type, drives_empty, outgoing_edges, stale_days);
            &&& (fs.contains(NodeFinding::UnknownType) <==> !known_type)
            &&& (fs.contains(NodeFinding::MissingLevel) <==> (n.node_type@ == "telos"@ && n.teleological_level is None))
            &&& (fs.contains(NodeFinding::MissingStage) <==> (n.node_type@ == "telos"@ && n.developmental_stage is None))
            &&& (fs.contains(NodeFinding::Orphan) <==> outgoing_edges == 0)
            &&& (fs.contains(NodeFinding::Stale(d)) <==> (stale_days == Some(d)
                    && n.lifecycle_state@ == "active"@ && n.updated_at@.len() > 0 && d > 14))
        },
{
    if !audit_skips(n.lifecycle_state@) {
        let fs = node_findings(n, known_type, drives_empty, outgoing_edges, stale_days);
        let w1 = finding_if(!known_type, NodeFinding::UnknownType);
        let w2 = finding_if(n.node_type@ == "telos"@ && n.teleological_level is None, NodeFinding::MissingLevel);
        let w3 = finding_if(n.node_type@ == "telos"@ && n.developmental_stage is None, NodeFinding::MissingStage);
        let w4 = finding_if(needs_drive(n.node_type@) && drives_empty, NodeFinding::MissingDrive);
        let w5 = finding_if(outgoing_edges == 0, NodeFinding::Orphan);
        let w6 = match stale_days {
            Some(x) => finding_if(
                n.lifecycle_state@ == "active"@ && n.updated_at@.len() > 0 && x > 14,
                NodeFinding::Stale(x),
            ),
            None => seq![],
        };
        assert(fs == w1 + w2 + w3 + w4 + w5 + w6);
        let c1 = !known_type;
        let c2 = n.node_type@ == "telos"@ && n.teleological_level is None;
        let c3 = n.node_type@ == "telos"@ && n.developmental_stage is None;
        let c4 = needs_drive(n.node_type@) && drives_empty;
        let c5 = outgoing_edges == 0;
        lemma_findings_six(fs, w1, w2, w3, w4, w5, w6, c1, c2, c3, c4, c5, NodeFinding::UnknownType);
        lemma_findings_six(fs, w1, w2, w3, w4, w5, w6, c1, c2, c3, c4, c5, NodeFinding::MissingLevel);
        lemma_findings_six(fs, w1, w2, w3, w4, w5, w6, c1, c2, c3, c4, c5, NodeFinding::MissingStage);
        lemma_findings_six(fs, w1, w2, w3, w4, w5, w6, c1, c2, c3, c4, c5, NodeFinding::Orphan);
        lemma_findings_six(fs, w1, w2, w3, w4, w5, w6, c1, c2, c3, c4, c5, NodeFinding::Stale(d));
        match stale_days {
            Some(x) => {
                lemma_finding_if_contains(
                    n.lifecycle_state@ == "active"@ && n.updated_at@.len() > 0 && x > 14, NodeFinding::Stale(x), NodeFinding::Stale(d));
            },
            None => {},
        }
        assert(fs.contains(NodeFinding::UnknownType) <==> !known_type);
        assert(fs.contains(NodeFinding::MissingLevel) <==> (n.node_type@ == "telos"@ && n.teleological_level is None));
        assert(fs.contains(NodeFinding::MissingStage) <==> (n.node_type@ == "telos"@ && n.developmental_stage is None));
        assert(fs.contains(NodeFinding::Orphan) <==> outgoing_edges == 0);
        assert(fs.contains(NodeFinding::Stale(d)) <==> (stale_days == Some(d)
                    && n.lifecycle_state@ == "active"@ && n.updated_at@.len() > 0 && d > 14));
    }
}

/// An examined node (one whose lifecycle is not archived, deprecated or
/// invalid) is reported as missing its drive state exactly when it is an
/// observation, a capability or a constraint and its drive state is empty.
#[verifier::rlimit(30)]
pub proof fn lemma_missing_drive_iff(
    n: Node,
    known_type: bool,
    drives_empty: bool,
    outgoing_edges: nat,
    stale_days: Option<i64>,
)
    requires
        n.lifecycle_state@ != "archived"@,
        n.lifecycle_state@ != "deprecated"@,
        n.lifecycle_state@ != "invalid"@,
    ensures
        node_findings(n, known_type, drives_empty, outgoing_edges, stale_days).contains(NodeFinding::MissingDrive)
            <==> ((n.node_type@ == "observation"@ || n.node_type@ == "capability"@ || n.node_type@ == "constraint"@)
                && drives_empty),
{
    let fs = node_findings(n, known_type, drives_empty, outgoing_edges, stale_days);
    let a = finding_if(!known_type, NodeFinding::UnknownType)
        + finding_if(n.node_type@ == "telos"@ && n.teleological_level is None, NodeFinding::MissingLevel)
        + finding_if(n.node_type@ == "telos"@ && n.developmental_stage is None, NodeFinding::MissingStage);
    let d = finding_if(needs_drive(n.node_type@) && drives_empty, NodeFinding::MissingDrive);
    let o = finding_if(outgoing_edges == 0, NodeFinding::Orphan);
    let s = match stale_days {
        Some(x) => finding_if(
            n.lifecycle_state@ == "active"@ && n.updated_at@.len() > 0 && x > 14,
            NodeFinding::Stale(x),
        ),
        None => seq![],
    };
    let rest = o + s;
    assert(fs =~= a + d + rest);
    assert(a.len() <= 3);
    assert forall|i: int| 0 <= i < a.len() implies a[i] != NodeFinding::MissingDrive by {}
    assert(rest.len() <= 2);
    assert forall|i: int| 0 <= i < rest.len() implies rest[i] != NodeFinding::MissingDrive by {
        if i < o.len() {
            assert(rest[i] == o[i]);
        } else {
            assert(rest[i] == s[i - o.len()]);
        }
    }
    if needs_drive(n.node_type@) && drives_empty {
        assert(fs[a.len() as int] == NodeFinding::MissingDrive);
    } else {
        assert(d.len() == 0);
        if fs.contains(NodeFinding::MissingDrive) {
            let i = choose|i: int| 0 <= i < fs.len() && fs[i] == NodeFinding::MissingDrive;
            if i < a.len() {
                assert(fs[i] == a[i]);
            } else {
                assert(fs[i] == rest[i - a.len()]);
            }
        }
    }
}

/// A graph is healthy exactly when no recorded anomaly is high or critical;
/// adding a low or medium anomaly never makes a healthy graph unhealthy.
pub proof fn lemma_health_monotone(v: Seq<AnomalyView>, a: AnomalyView)
    ensures
        serious_count(v.push(a)) == serious_count(v) + if is_serious(a.severity) { 1nat } else { 0nat },
{
    assert(v.push(a).drop_last() =~= v);
}

} // verus!
