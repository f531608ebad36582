//! Node grammar: how catalysts (input signals) map to node blueprints, and
//! in which direction auto-wired edges run between a node and its parents.

use vstd::prelude::*;

use crate::text::{chars_of, contains_string, dec_str, lowercase_of, owned, push_decimal, push_str, str_eq, substring, to_lowercase};

verus! {

/// The direction table for auto-wired edge types: `true` when the edge runs
/// from parent to child (the parent is the source), `false` when it runs from
/// child to parent.
pub open spec fn direction_table() -> Seq<(Seq<char>, bool)> {
    seq![
        ("DECOMPOSES_TO"@, true),
        ("ENABLES"@, false),
        ("PURSUES"@, false),
        ("CONTEXT"@, false),
        ("EVIDENCES"@, false),
        ("BLOCKS"@, false),
        ("SENT"@, false),
        ("RECEIVED"@, false),
        ("TRIGGERED"@, false),
        ("DETECTED"@, false),
        ("ILLUMINATES"@, false),
        ("OPENS"@, false),
        ("CREATES"@, false),
        ("ADVANCES"@, false),
        ("APPEALS_TO"@, false),
        ("REPLIES"@, false),
        ("CONTINUES"@, false),
        ("HAS_CAPABILITY"@, false),
        ("SYNTHESIZES"@, true),
        ("SEEKS"@, false)
    ]
}

/// The value of the first row of the table whose key is `k`.
pub open spec fn lookup_dir(t: Seq<(Seq<char>, bool)>, k: Seq<char>) -> Option<bool>
    decreases t.len(),
{
    if t.len() == 0 {
        None
    } else if t[0].0 == k {
        Some(t[0].1)
    } else {
        lookup_dir(t.drop_first(), k)
    }
}

pub open spec fn dir_view(v: Seq<(&'static str, bool)>) -> Seq<(Seq<char>, bool)> {
    v.map_values(|e: (&'static str, bool)| (e.0@, e.1))
}

/// Direction mapping for auto-wired edge types: `true` = edge goes from
/// parent to child, `false` = edge goes from child to parent.
pub fn auto_wire_direction() -> (t: Vec<(&'static str, bool)>)
    ensures
        dir_view(t@) == direction_table(),
{
    let mut t: Vec<(&'static str, bool)> = Vec::new();
    t.push(("DECOMPOSES_TO", true));
    t.push(("ENABLES", false));
    t.push(("PURSUES", false));
    t.push(("CONTEXT", false));
    t.push(("EVIDENCES", false));
    t.push(("BLOCKS", false));
    t.push(("SENT", false));
    t.push(("RECEIVED", false));
    t.push(("TRIGGERED", false));
    t.push(("DETECTED", false));
    t.push(("ILLUMINATES", false));
    t.push(("OPENS", false));
    t.push(("CREATES", false));
    t.push(("ADVANCES", false));
    t.push(("APPEALS_TO", false));
    t.push(("REPLIES", false));
    t.push(("CONTINUES", false));
    t.push(("HAS_CAPABILITY", false));
    t.push(("SYNTHESIZES", true));
    t.push(("SEEKS", false));
    assert(dir_view(t@) =~= direction_table());
    t
}

/// Get the direction for a given edge type: `true` if the parent is the
/// source, `false` if the child is.
pub fn edge_direction(edge_type: &str) -> (r: Option<bool>)
    ensures
        r == lookup_dir(direction_table(), edge_type@),
{
    let t = auto_wire_direction();
    assert(dir_view(t@).skip(0) =~= dir_view(t@));
    let mut i: usize = 0;
    while i < t.len()
        invariant
            dir_view(t@) == direction_table(),
            i <= t@.len(),
            lookup_dir(direction_table(), edge_type@) == lookup_dir(dir_view(t@).skip(i as int), edge_type@),
        decreases t.len() - i,
    {
        let ghost rest = dir_view(t@).skip(i as int);
        assert(rest[0] == (t@[i as int].0@, t@[i as int].1));
        if str_eq(t[i].0, edge_type) {
            return Some(t[i].1);
        }
        assert(rest.drop_first() =~= dir_view(t@).skip(i + 1));
        i = i + 1;
    }
    None
}

/// The (source, target) of the edge auto-wired between a new node and one
/// of its parents: from the parent where the edge type runs from parent to
/// child (and for types the table does not list), from the child otherwise.
pub open spec fn wire_endpoints_of(node_id: Seq<char>, parent_id: Seq<char>, edge_type: Seq<char>) -> (Seq<char>, Seq<char>) {
    match lookup_dir(direction_table(), edge_type) {
        Some(false) => (node_id, parent_id),
        _ => (parent_id, node_id),
    }
}

/// The (source, target) of the edge auto-wired between a new node and one
/// of its parents.
pub fn wire_endpoints(node_id: &str, parent_id: &str, edge_type: &str) -> (r: (String, String))
    ensures
        (r.0@, r.1@) == wire_endpoints_of(node_id@, parent_id@, edge_type@),
{
    match edge_direction(edge_type) {
        Some(false) => (owned(node_id), owned(parent_id)),
        _ => (owned(parent_id), owned(node_id)),
    }
}

/// The kinds of catalyst (input signal) the grammar knows.
#[derive(Debug, Clone, Copy, PartialEq, Eq, Hash, Structural)]
pub enum CatalystType {
    ExternalSuccess,
    ExternalFailure,
    ExternalResponse,
    InternalCompletion,
    InternalDiscovery,
    ConstraintSurfaced,
    OpportunityDetected,
    RoutineObservation,
    SkillMastered,
    ProjectCreated
}

pub open spec fn catalyst_name(c: CatalystType) -> Seq<char> {
    match c {
        CatalystType::ExternalSuccess => "external_success"@,
        CatalystType::ExternalFailure => "external_failure"@,
        CatalystType::ExternalResponse => "external_response"@,
        CatalystType::InternalCompletion => "internal_completion"@,
        CatalystType::InternalDiscovery => "internal_discovery"@,
        CatalystType::ConstraintSurfaced => "constraint_surfaced"@,
        CatalystType::OpportunityDetected => "opportunity_detected"@,
        CatalystType::RoutineObservation => "routine_observation"@,
        CatalystType::SkillMastered => "skill_mastered"@,
        CatalystType::ProjectCreated => "project_created"@,
    }
}

/// `c` is an ASCII uppercase letter.
pub open spec fn is_ascii_upper(c: char) -> bool {
    'A' <= c && c <= 'Z'
}

/// `s` equals the lowercase string `lower` up to ASCII case.
pub open spec fn eq_ignore_ascii_case(s: Seq<char>, lower: Seq<char>) -> bool {
    &&& s.len() == lower.len()
    &&& forall|i: int| 0 <= i < s.len() ==> (#[trigger] s[i] == lower[i]
        || (is_ascii_upper(s[i]) && s[i] as u32 + 32 == lower[i] as u32))
}

/// Whether `s` equals the lowercase string `lower` up to ASCII case.
pub fn eq_ignore_ascii_case_str(s: &str, lower: &str) -> (b: bool)
    ensures
        b == eq_ignore_ascii_case(s@, lower@),
{
    let sv = chars_of(s);
    let lv = chars_of(lower);
    if sv.len() != lv.len() {
        return false;
    }
    let mut i: usize = 0;
    while i < sv.len()
        invariant
            sv@ == s@,
            lv@ == lower@,
            sv.len() == lv.len(),
            i <= sv.len(),
            forall|j: int| 0 <= j < i ==> (#[trigger] sv@[j] == lv@[j]
                || (is_ascii_upper(sv@[j]) && sv@[j] as u32 + 32 == lv@[j] as u32)),
        decreases sv.len() - i,
    {
        let a = sv[i];
        let b = lv[i];
        let same = a == b || ('A' <= a && a <= 'Z' && (a as u32) + 32 == b as u32);
        if !same {
            return false;
        }
        i = i + 1;
    }
    true
}

/// The catalyst a name denotes, its snake-case name compared up to ASCII case.
pub open spec fn catalyst_of(s: Seq<char>) -> Option<CatalystType> {
    if eq_ignore_ascii_case(s, "external_success"@) {
        Some(CatalystType::ExternalSuccess)
    } else if eq_ignore_ascii_case(s, "external_failure"@) {
        Some(CatalystType::ExternalFailure)
    } else if eq_ignore_ascii_case(s, "external_response"@) {
        Some(CatalystType::ExternalResponse)
    } else if eq_ignore_ascii_case(s, "internal_completion"@) {
        Some(CatalystType::InternalCompletion)
    } else if eq_ignore_ascii_case(s, "internal_discovery"@) {
        Some(CatalystType::InternalDiscovery)
    } else if eq_ignore_ascii_case(s, "constraint_surfaced"@) {
        Some(CatalystType::ConstraintSurfaced)
    } else if eq_ignore_ascii_case(s, "opportunity_detected"@) {
        Some(CatalystType::OpportunityDetected)
    } else if eq_ignore_ascii_case(s, "routine_observation"@) {
        Some(CatalystType::RoutineObservation)
    } else if eq_ignore_ascii_case(s, "skill_mastered"@) {
        Some(CatalystType::SkillMastered)
    } else if eq_ignore_ascii_case(s, "project_created"@) {
        Some(CatalystType::ProjectCreated)
    } else {
        None
    }
}

/// Parsing the name of a catalyst gives the catalyst back.
pub proof fn lemma_catalyst_name_roundtrip(c: CatalystType)
    ensures
        catalyst_of(catalyst_name(c)) == Some(c),
{
    reveal_strlit("external_success");
    reveal_strlit("external_failure");
    reveal_strlit("external_response");
    reveal_strlit("internal_completion");
    reveal_strlit("internal_discovery");
    reveal_strlit("constraint_surfaced");
    reveal_strlit("opportunity_detected");
    reveal_strlit("routine_observation");
    reveal_strlit("skill_mastered");
    reveal_strlit("project_created");
    assert("external_success"@.len() == 16);
    assert("external_failure"@.len() == 16);
    assert("external_response"@.len() == 17);
    assert("internal_completion"@.len() == 19);
    assert("internal_discovery"@.len() == 18);
    assert("constraint_surfaced"@.len() == 19);
    assert("opportunity_detected"@.len() == 20);
    assert("routine_observation"@.len() == 19);
    assert("skill_mastered"@.len() == 14);
    assert("project_created"@.len() == 15);
    assert("external_failure"@[9] != "external_success"@[9]);
    assert("constraint_surfaced"@[0] != "internal_completion"@[0]);
    assert("routine_observation"@[0] != "internal_completion"@[0]);
    assert("routine_observation"@[0] != "constraint_surfaced"@[0]);
}

impl CatalystType {
    /// Parse a catalyst name (snake case, compared up to ASCII case).
    pub fn parse(s: &str) -> (r: Option<CatalystType>)
        ensures
            r == catalyst_of(s@),
    {
    if eq_ignore_ascii_case_str(s, "external_success") {
        Some(CatalystType::ExternalSuccess)
    } else if eq_ignore_ascii_case_str(s, "external_failure") {
        Some(CatalystType::ExternalFailure)
    } else if eq_ignore_ascii_case_str(s, "external_response") {
        Some(CatalystType::ExternalResponse)
    } else if eq_ignore_ascii_case_str(s, "internal_completion") {
        Some(CatalystType::InternalCompletion)
    } else if eq_ignore_ascii_case_str(s, "internal_discovery") {
        Some(CatalystType::InternalDiscovery)
    } else if eq_ignore_ascii_case_str(s, "constraint_surfaced") {
        Some(CatalystType::ConstraintSurfaced)
    } else if eq_ignore_ascii_case_str(s, "opportunity_detected") {
        Some(CatalystType::OpportunityDetected)
    } else if eq_ignore_ascii_case_str(s, "routine_observation") {
        Some(CatalystType::RoutineObservation)
    } else if eq_ignore_ascii_case_str(s, "skill_mastered") {
        Some(CatalystType::SkillMastered)
    } else if eq_ignore_ascii_case_str(s, "project_created") {
        Some(CatalystType::ProjectCreated)
        } else {
            None
        }
    }

    /// The snake-case name of a catalyst.
    pub fn as_str(&self) -> (s: &'static str)
        ensures
            s@ == catalyst_name(*self),
    {
        match self {
            CatalystType::ExternalSuccess => "external_success",
            CatalystType::ExternalFailure => "external_failure",
            CatalystType::ExternalResponse => "external_response",
            CatalystType::InternalCompletion => "internal_completion",
            CatalystType::InternalDiscovery => "internal_discovery",
            CatalystType::ConstraintSurfaced => "constraint_surfaced",
            CatalystType::OpportunityDetected => "opportunity_detected",
            CatalystType::RoutineObservation => "routine_observation",
            CatalystType::SkillMastered => "skill_mastered",
            CatalystType::ProjectCreated => "project_created",
        }
    }
}

impl std::str::FromStr for CatalystType {
    type Err = String;

    fn from_str(s: &str) -> (r: Result<CatalystType, String>)
        ensures
            match r {
                Ok(c) => catalyst_of(s@) == Some(c),
                Err(m) => catalyst_of(s@) is None && m@ == "Unknown catalyst type: "@ + s@,
            },
    {
        match CatalystType::parse(s) {
            Some(c) => Ok(c),
            None => {
                let mut m = owned("Unknown catalyst type: ");
                push_str(&mut m, s);
                Err(m)
            },
        }
    }
}

/// Blueprint for creating a node from a catalyst.
#[derive(Debug, Clone)]
pub struct NodeBlueprint {
    pub node_type: String,
    pub t_level: String,
    pub title_template: String,
    pub quadrant: Option<String>,
    pub default_stage: Option<i32>,
    pub require_parent: bool,
    pub require_evidence: bool,
}

/// The parts of a blueprint that vary between catalysts; every title
/// template is a prefix followed by the `{description}` placeholder, and no
/// blueprint sets a quadrant or requires evidence.
pub struct BlueprintView {
    pub node_type: Seq<char>,
    pub t_level: Seq<char>,
    pub title_prefix: Seq<char>,
    pub default_stage: Option<int>,
    pub require_parent: bool,
}

/// The catalyst grammar.
pub open spec fn blueprint_of(c: CatalystType) -> BlueprintView {
    match c {
        CatalystType::ExternalSuccess => BlueprintView { node_type: "observation"@, t_level: "T4"@, title_prefix: "Observed: "@, default_stage: Some(1), require_parent: false },
        CatalystType::ExternalFailure => BlueprintView { node_type: "observation"@, t_level: "T4"@, title_prefix: "Failure observed: "@, default_stage: Some(1), require_parent: false },
        CatalystType::ExternalResponse => BlueprintView { node_type: "observation"@, t_level: "T4"@, title_prefix: "Response received: "@, default_stage: Some(1), require_parent: false },
        CatalystType::InternalCompletion => BlueprintView { node_type: "action"@, t_level: "T4"@, title_prefix: "Completed: "@, default_stage: Some(2), require_parent: true },
        CatalystType::InternalDiscovery => BlueprintView { node_type: "discovery"@, t_level: "T3"@, title_prefix: "Discovered: "@, default_stage: Some(2), require_parent: false },
        CatalystType::ConstraintSurfaced => BlueprintView { node_type: "constraint"@, t_level: "T3"@, title_prefix: "Constraint: "@, default_stage: Some(1), require_parent: false },
        CatalystType::OpportunityDetected => BlueprintView { node_type: "discovery"@, t_level: "T3"@, title_prefix: "Opportunity: "@, default_stage: Some(1), require_parent: false },
        CatalystType::RoutineObservation => BlueprintView { node_type: "observation"@, t_level: "T4"@, title_prefix: ""@, default_stage: Some(1), require_parent: false },
        CatalystType::SkillMastered => BlueprintView { node_type: "skill"@, t_level: "T3"@, title_prefix: "Skill: "@, default_stage: Some(3), require_parent: false },
        CatalystType::ProjectCreated => BlueprintView { node_type: "project"@, t_level: "T2"@, title_prefix: "Project: "@, default_stage: Some(1), require_parent: false },
    }
}

/// A blueprint matches the grammar's entry for a catalyst.
pub open spec fn blueprint_matches(b: NodeBlueprint, c: CatalystType) -> bool {
    let v = blueprint_of(c);
    &&& b.node_type@ == v.node_type
    &&& b.t_level@ == v.t_level
    &&& b.title_template@ == v.title_prefix + "{description}"@
    &&& b.quadrant is None
    &&& match b.default_stage {
        Some(s) => v.default_stage == Some(s as int),
        None => v.default_stage is None,
    }
    &&& b.require_parent == v.require_parent
    &&& !b.require_evidence
}

fn blueprint_parts(c: CatalystType) -> (r: (&'static str, &'static str, &'static str, i32, bool))
    ensures
        r.0@ == blueprint_of(c).node_type,
        r.1@ == blueprint_of(c).t_level,
        r.2@ == blueprint_of(c).title_prefix,
        blueprint_of(c).default_stage == Some(r.3 as int),
        r.4 == blueprint_of(c).require_parent,
{
    match c {
            CatalystType::ExternalSuccess => ("observation", "T4", "Observed: ", 1, false),
            CatalystType::ExternalFailure => ("observation", "T4", "Failure observed: ", 1, false),
            CatalystType::ExternalResponse => ("observation", "T4", "Response received: ", 1, false),
            CatalystType::InternalCompletion => ("action", "T4", "Completed: ", 2, true),
            CatalystType::InternalDiscovery => ("discovery", "T3", "Discovered: ", 2, false),
            CatalystType::ConstraintSurfaced => ("constraint", "T3", "Constraint: ", 1, false),
            CatalystType::OpportunityDetected => ("discovery", "T3", "Opportunity: ", 1, false),
            CatalystType::RoutineObservation => ("observation", "T4", "", 1, false),
            CatalystType::SkillMastered => ("skill", "T3", "Skill: ", 3, false),
            CatalystType::ProjectCreated => ("project", "T2", "Project: ", 1, false),
    }
}

/// The blueprint of a catalyst.
pub fn catalyst_blueprint(c: CatalystType) -> (b: NodeBlueprint)
    ensures
        blueprint_matches(b, c),
{
    let (node_type, t_level, prefix, stage, require_parent) = blueprint_parts(c);
    let mut template = owned(prefix);
    push_str(&mut template, "{description}");
    NodeBlueprint {
        node_type: owned(node_type),
        t_level: owned(t_level),
        title_template: template,
        quadrant: None,
        default_stage: Some(stage),
        require_parent,
        require_evidence: false,
    }
}

/// All catalysts, in grammar order.
pub open spec fn all_catalysts() -> Seq<CatalystType> {
    seq![CatalystType::ExternalSuccess, CatalystType::ExternalFailure, CatalystType::ExternalResponse, CatalystType::InternalCompletion, CatalystType::InternalDiscovery, CatalystType::ConstraintSurfaced, CatalystType::OpportunityDetected, CatalystType::RoutineObservation, CatalystType::SkillMastered, CatalystType::ProjectCreated]
}

/// Build the catalyst grammar: every catalyst with its blueprint.
pub fn catalyst_grammar() -> (g: Vec<(CatalystType, NodeBlueprint)>)
    ensures
        g@.len() == all_catalysts().len(),
        forall|i: int| 0 <= i < g@.len() ==> (#[trigger] g@[i]).0 == all_catalysts()[i]
            && blueprint_matches(g@[i].1, g@[i].0),
{
    let all: [CatalystType; 10] = [CatalystType::ExternalSuccess, CatalystType::ExternalFailure, CatalystType::ExternalResponse, CatalystType::InternalCompletion, CatalystType::InternalDiscovery, CatalystType::ConstraintSurfaced, CatalystType::OpportunityDetected, CatalystType::RoutineObservation, CatalystType::SkillMastered, CatalystType::ProjectCreated];
    let mut g: Vec<(CatalystType, NodeBlueprint)> = Vec::new();
    let mut i: usize = 0;
    while i < 10
        invariant
            all@ == all_catalysts(),
            i <= 10,
            g@.len() == i,
            forall|j: int| 0 <= j < i ==> (#[trigger] g@[j]).0 == all_catalysts()[j]
                && blueprint_matches(g@[j].1, g@[j].0),
        decreases 10 - i,
    {
        let c = all[i];
        g.push((c, catalyst_blueprint(c)));
        i = i + 1;
    }
    g
}

/// Grammar engine for creating nodes from catalysts.
pub struct NodeGrammar;

impl NodeGrammar {
    /// The title of the node a catalyst creates: the blueprint's template
    /// with its `{description}` placeholder replaced by the description.
    pub fn title_for(catalyst: CatalystType, description: &str) -> (t: String)
        ensures
            t@ == blueprint_of(catalyst).title_prefix + description@,
    {
        let (_, _, prefix, _, _) = blueprint_parts(catalyst);
        let mut t = owned(prefix);
        push_str(&mut t, description);
        t
    }
}

/// An active T4 observation, as the upward inference reads it.
#[derive(Debug, Clone)]
pub struct Observation {
    pub id: String,
    pub name: String,
}

/// A recurring pattern among observations: its key and the observations
/// that share it, in the order they were read.
#[derive(Debug, Clone)]
pub struct PatternGroup {
    pub pattern: String,
    pub observation_ids: Vec<String>,
}

/// Observations sharing a pattern this many times give rise to a hypothesis.
pub const MIN_PATTERN_OCCURRENCES: usize = 3;

/// The pattern key of an observation name: its lowercase form, cut to its
/// first fifty characters.
pub open spec fn pattern_key(name: Seq<char>) -> Seq<char> {
    let l = lowercase_of(name);
    if l.len() <= 50 { l } else { l.take(50) }
}

/// The distinct keys of `ks`, in the order of their first occurrence.
pub open spec fn first_keys(ks: Seq<Seq<char>>) -> Seq<Seq<char>>
    decreases ks.len(),
{
    if ks.len() == 0 {
        seq![]
    } else {
        let p = first_keys(ks.drop_last());
        if p.contains(ks.last()) { p } else { p.push(ks.last()) }
    }
}

/// The (id, key) pairs of the observations.
pub open spec fn keyed(obs: Seq<Observation>) -> Seq<(Seq<char>, Seq<char>)> {
    obs.map_values(|o: Observation| (o.id@, pattern_key(o.name@)))
}

/// The ids of the observations whose key is `k`, in order.
pub open spec fn ids_with_key(v: Seq<(Seq<char>, Seq<char>)>, k: Seq<char>) -> Seq<Seq<char>>
    decreases v.len(),
{
    if v.len() == 0 {
        seq![]
    } else {
        let p = ids_with_key(v.drop_last(), k);
        if v.last().1 == k { p.push(v.last().0) } else { p }
    }
}

/// The pattern groups of a set of observations: one per key that at least
/// three observations share, in the order each key first occurs.
pub open spec fn pattern_groups(obs: Seq<Observation>) -> Seq<(Seq<char>, Seq<Seq<char>>)> {
    let v = keyed(obs);
    first_keys(v.map_values(|p: (Seq<char>, Seq<char>)| p.1))
        .filter(|k: Seq<char>| ids_with_key(v, k).len() >= 3)
        .map_values(|k: Seq<char>| (k, ids_with_key(v, k)))
}

pub open spec fn group_views(gs: Seq<PatternGroup>) -> Seq<(Seq<char>, Seq<Seq<char>>)> {
    gs.map_values(|g: PatternGroup| (g.pattern@, g.observation_ids@.map_values(|s: String| s@)))
}

fn pattern_key_exec(name: &str) -> (k: String)
    ensures
        k@ == pattern_key(name@),
{
    let l = to_lowercase(name);
    let v = chars_of(l.as_str());
    if v.len() <= 50 {
        l
    } else {
        substring(&v, 0, 50)
    }
}

/// Group observations by pattern key, keeping the keys that at least three
/// observations share; the groups come in the order their keys first occur,
/// and each lists its observations in the order they were given.
pub fn upward_patterns(observations: &Vec<Observation>) -> (r: Vec<PatternGroup>)
    ensures
        group_views(r@) == pattern_groups(observations@),
{
    let ghost v = keyed(observations@);
    let ghost kseq = v.map_values(|p: (Seq<char>, Seq<char>)| p.1);
    // The key of every observation.
    let mut keys: Vec<String> = Vec::new();
    let mut i: usize = 0;
    while i < observations.len()
        invariant
            v == keyed(observations@),
            kseq == v.map_values(|p: (Seq<char>, Seq<char>)| p.1),
            i <= observations@.len(),
            keys@.map_values(|s: String| s@) == kseq.take(i as int),
        decreases observations.len() - i,
    {
        let k = pattern_key_exec(observations[i].name.as_str());
        let ghost before = keys@.map_values(|s: String| s@);
        keys.push(k);
        assert(keys@.map_values(|s: String| s@) =~= before.push(kseq[i as int]));
        assert(kseq.take(i + 1) =~= kseq.take(i as int).push(kseq[i as int]));
        i = i + 1;
    }
    assert(kseq.take(observations.len() as int) =~= kseq);
    // The distinct keys, in order of first occurrence.
    let mut distinct: Vec<String> = Vec::new();
    let mut i: usize = 0;
    while i < keys.len()
        invariant
            keys@.map_values(|s: String| s@) == kseq,
            i <= keys@.len(),
            distinct@.map_values(|s: String| s@) == first_keys(kseq.take(i as int)),
        decreases keys.len() - i,
    {
        assert(kseq.take(i + 1).drop_last() =~= kseq.take(i as int));
        assert(kseq.take(i + 1).last() == keys@[i as int]@);
        let present = contains_string(&distinct, keys[i].as_str());
        if !present {
            let ghost before = distinct@.map_values(|s: String| s@);
            distinct.push(owned(keys[i].as_str()));
            assert(distinct@.map_values(|s: String| s@) =~= before.push(keys@[i as int]@));
        }
        i = i + 1;
    }
    let ghost fk = first_keys(kseq);
    let ghost keep = |k: Seq<char>| ids_with_key(v, k).len() >= 3;
    let ghost mk = |k: Seq<char>| (k, ids_with_key(v, k));
    // The groups of the keys shared at least three times.
    let mut groups: Vec<PatternGroup> = Vec::new();
    let mut j: usize = 0;
    while j < distinct.len()
        invariant
            v == keyed(observations@),
            keys@.map_values(|s: String| s@) == kseq,
            kseq == v.map_values(|p: (Seq<char>, Seq<char>)| p.1),
            keys@.len() == observations@.len(),
            distinct@.map_values(|s: String| s@) == fk,
            j <= distinct@.len(),
            keep == (|k: Seq<char>| ids_with_key(v, k).len() >= 3),
            mk == (|k: Seq<char>| (k, ids_with_key(v, k))),
            group_views(groups@) == fk.take(j as int).filter(keep).map_values(mk),
        decreases distinct.len() - j,
    {
        let d = &distinct[j];
        let ghost dk = fk[j as int];
        let mut ids: Vec<String> = Vec::new();
        let mut i: usize = 0;
        while i < keys.len()
            invariant
                v == keyed(observations@),
                keys@.map_values(|s: String| s@) == kseq,
                kseq == v.map_values(|p: (Seq<char>, Seq<char>)| p.1),
                keys@.len() == observations@.len(),
                d@ == dk,
                i <= keys@.len(),
                ids@.map_values(|s: String| s@) == ids_with_key(v.take(i as int), dk),
            decreases keys.len() - i,
        {
            assert(v.take(i + 1).drop_last() =~= v.take(i as int));
            assert(v.take(i + 1).last() == v[i as int]);
            assert(kseq[i as int] == v[i as int].1);
            assert(keys@.map_values(|s: String| s@)[i as int] == keys@[i as int]@);
            if str_eq(keys[i].as_str(), d.as_str()) {
                let ghost before = ids@.map_values(|s: String| s@);
                ids.push(owned(observations[i].id.as_str()));
                assert(ids@.map_values(|s: String| s@) =~= before.push(v[i as int].0));
            }
            i = i + 1;
        }
        assert(v.take(keys.len() as int) =~= v);
        reveal_with_fuel(Seq::filter, 1);
        assert(fk.take(j + 1).drop_last() =~= fk.take(j as int));
        assert(fk.take(j + 1).last() == dk);
        if ids.len() >= MIN_PATTERN_OCCURRENCES {
            let ghost before = group_views(groups@);
            groups.push(PatternGroup { pattern: owned(d.as_str()), observation_ids: ids });
            assert(fk.take(j + 1).filter(keep) == fk.take(j as int).filter(keep).push(dk));
            assert(group_views(groups@) =~= before.push(mk(dk)));
            assert(fk.take(j as int).filter(keep).push(dk).map_values(mk)
                =~= fk.take(j as int).filter(keep).map_values(mk).push(mk(dk)));
        } else {
            assert(fk.take(j + 1).filter(keep) == fk.take(j as int).filter(keep));
        }
        j = j + 1;
    }
    assert(fk.take(distinct.len() as int) =~= fk);
    groups
}

/// The description of the hypothesis a pattern group gives rise to.
pub open spec fn pattern_description_of(pattern: Seq<char>, count: nat) -> Seq<char> {
    "Pattern detected: '"@ + pattern + "' ("@ + dec_str(count) + " observations)"@
}

/// The description of the hypothesis inferred from a pattern group.
pub fn pattern_description(group: &PatternGroup) -> (d: String)
    ensures
        d@ == pattern_description_of(group.pattern@, group.observation_ids@.len()),
{
    let mut d = owned("Pattern detected: '");
    push_str(&mut d, group.pattern.as_str());
    push_str(&mut d, "' (");
    push_decimal(&mut d, group.observation_ids.len() as u64);
    push_str(&mut d, " observations)");
    d
}

/// The distinct keys hold each key once, and every key that occurs.
pub proof fn lemma_first_keys(ks: Seq<Seq<char>>)
    ensures
        first_keys(ks).no_duplicates(),
        forall|k: Seq<char>| ks.contains(k) <==> first_keys(ks).contains(k),
    decreases ks.len(),
{
    if ks.len() > 0 {
        let r = ks.drop_last();
        let l = ks.last();
        let p = first_keys(r);
        lemma_first_keys(r);
        assert forall|k: Seq<char>| ks.contains(k) implies first_keys(ks).contains(k) by {
            let i = choose|i: int| 0 <= i < ks.len() && ks[i] == k;
            if i < ks.len() - 1 {
                assert(r[i] == k);
                assert(r.contains(k));
                let j = choose|j: int| 0 <= j < p.len() && p[j] == k;
                if !p.contains(l) {
                    assert(p.push(l)[j] == k);
                }
            } else if !p.contains(l) {
                assert(p.push(l)[p.len() as int] == k);
            }
        }
        assert forall|k: Seq<char>| first_keys(ks).contains(k) implies ks.contains(k) by {
            let j = choose|j: int| 0 <= j < first_keys(ks).len() && first_keys(ks)[j] == k;
            if j < p.len() {
                assert(p[j] == k);
                assert(p.contains(k));
                assert(r.contains(k) <==> first_keys(r).contains(k));
                let i = choose|i: int| 0 <= i < r.len() && r[i] == k;
                assert(ks[i] == k);
            } else {
                assert(ks[ks.len() - 1] == k);
            }
        }
    }
}

pub proof fn lemma_filter_keeps_distinct(s: Seq<Seq<char>>, keep: spec_fn(Seq<char>) -> bool)
    requires
        s.no_duplicates(),
    ensures
        s.filter(keep).no_duplicates(),
    decreases s.len(),
{
    reveal_with_fuel(Seq::filter, 1);
    if s.len() > 0 {
        let r = s.drop_last();
        assert(r.no_duplicates());
        lemma_filter_keeps_distinct(r, keep);
        if keep(s.last()) {
            if r.filter(keep).contains(s.last()) {
                r.lemma_filter_contains_rev(keep, s.last());
                let i = choose|i: int| 0 <= i < r.len() && r[i] == s.last();
                assert(s[i] == s[s.len() - 1]);
            }
            assert(s.filter(keep) == r.filter(keep).push(s.last()));
        }
    }
}

proof fn lemma_key_occurs(v: Seq<(Seq<char>, Seq<char>)>, k: Seq<char>)
    requires
        ids_with_key(v, k).len() > 0,
    ensures
        v.map_values(|p: (Seq<char>, Seq<char>)| p.1).contains(k),
    decreases v.len(),
{
    let ks = v.map_values(|p: (Seq<char>, Seq<char>)| p.1);
    if v.last().1 == k {
        assert(ks[v.len() - 1] == k);
    } else {
        lemma_key_occurs(v.drop_last(), k);
        let r = v.drop_last().map_values(|p: (Seq<char>, Seq<char>)| p.1);
        let i = choose|i: int| 0 <= i < r.len() && r[i] == k;
        assert(ks[i] == k);
    }
}

/// Every key that at least three observations share has exactly one group,
/// which lists exactly the observations with that key; no other key has a
/// group.
pub proof fn lemma_pattern_groups_partition(obs: Seq<Observation>)
    ensures
        forall|g: int| 0 <= g < pattern_groups(obs).len()
            ==> (#[trigger] pattern_groups(obs)[g]).1 == ids_with_key(keyed(obs), pattern_groups(obs)[g].0)
                && pattern_groups(obs)[g].1.len() >= 3,
        forall|g: int, h: int| 0 <= g < h < pattern_groups(obs).len()
            ==> (#[trigger] pattern_groups(obs)[g]).0 != (#[trigger] pattern_groups(obs)[h]).0,
        forall|k: Seq<char>| ids_with_key(keyed(obs), k).len() >= 3
            ==> (exists|g: int| 0 <= g < pattern_groups(obs).len() && #[trigger] pattern_groups(obs)[g].0 == k),
{
    broadcast use vstd::seq_lib::group_filter_ensures;
    let v = keyed(obs);
    let ks = v.map_values(|p: (Seq<char>, Seq<char>)| p.1);
    let keep = |k: Seq<char>| ids_with_key(v, k).len() >= 3;
    let mk = |k: Seq<char>| (k, ids_with_key(v, k));
    let fk = first_keys(ks);
    lemma_first_keys(ks);
    let f = fk.filter(keep);
    let pg = pattern_groups(obs);
    assert(pg == f.map_values(mk));
    assert forall|g: int| 0 <= g < pg.len() implies
        (#[trigger] pg[g]).1 == ids_with_key(v, pg[g].0) && pg[g].1.len() >= 3 by {
        assert(pg[g] == mk(f[g]));
        assert(keep(f[g]));
    }
    lemma_filter_keeps_distinct(fk, keep);
    assert forall|g: int, h: int| 0 <= g < h < pg.len() implies
        (#[trigger] pg[g]).0 != (#[trigger] pg[h]).0 by {
        assert(pg[g].0 == f[g]);
        assert(pg[h].0 == f[h]);
    }
    assert forall|k: Seq<char>| ids_with_key(v, k).len() >= 3 implies
        (exists|g: int| 0 <= g < pg.len() && #[trigger] pg[g].0 == k) by {
        lemma_key_occurs(v, k);
        assert(fk.contains(k));
        let i = choose|i: int| 0 <= i < fk.len() && fk[i] == k;
        assert(keep(fk[i]));
        assert(f.contains(fk[i]));
        let g = choose|g: int| 0 <= g < f.len() && f[g] == k;
        assert(pg[g].0 == k);
    }
}

} // verus!
