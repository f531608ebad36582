//! Holon — a whole that is also a part: a view over a graph node that adds
//! the holonic identity and the whole/part navigation.

use vstd::prelude::*;

use crate::text::str_eq;

verus! {

/// A node of the graph, with the fields the holonic layer reads.
#[derive(Debug, Clone)]
pub struct Node {
    pub id: String,
    pub node_type: String,
    pub name: String,
    pub description: Option<String>,
    pub lifecycle_state: String,
    pub teleological_level: Option<String>,
    pub developmental_stage: Option<i32>,
    pub source: Option<String>,
    pub parent_ids: Vec<String>,
    pub created_at: String,
    pub updated_at: String,
    pub valid_from: String,
    pub valid_to: Option<String>,
    pub helpful_count: i64,
    pub retrieval_count: i64,
    pub agent_id: Option<String>,
    pub synthesis_status: String,
    pub scale_code: Option<String>,
    pub tetra_ul: Option<i32>,
    pub tetra_ur: Option<i32>,
    pub tetra_ll: Option<i32>,
    pub tetra_lr: Option<i32>,
    pub octave_id: Option<String>,
}

/// The epistemic status of a holon on the TDG ladder.
#[derive(Debug, Clone, Copy, PartialEq, Eq, Structural)]
pub enum SynthesisStatus {
    Canonical,
    CanonicalHypothesis,
    AiDraft,
    Superseded,
}

/// The status a stored status string names, if any.
pub open spec fn status_of(s: Seq<char>) -> Option<SynthesisStatus> {
    if s == "canonical"@ {
        Some(SynthesisStatus::Canonical)
    } else if s == "canonical-hypothesis"@ {
        Some(SynthesisStatus::CanonicalHypothesis)
    } else if s == "ai-draft"@ {
        Some(SynthesisStatus::AiDraft)
    } else if s == "superseded"@ {
        Some(SynthesisStatus::Superseded)
    } else {
        None
    }
}

pub open spec fn status_name(st: SynthesisStatus) -> Seq<char> {
    match st {
        SynthesisStatus::Canonical => "canonical"@,
        SynthesisStatus::CanonicalHypothesis => "canonical-hypothesis"@,
        SynthesisStatus::AiDraft => "ai-draft"@,
        SynthesisStatus::Superseded => "superseded"@,
    }
}

impl SynthesisStatus {
    /// Parse a stored status string.
    pub fn from_str(s: &str) -> (r: Option<SynthesisStatus>)
        ensures
            r == status_of(s@),
    {
        if str_eq(s, "canonical") {
            Some(SynthesisStatus::Canonical)
        } else if str_eq(s, "canonical-hypothesis") {
            Some(SynthesisStatus::CanonicalHypothesis)
        } else if str_eq(s, "ai-draft") {
            Some(SynthesisStatus::AiDraft)
        } else if str_eq(s, "superseded") {
            Some(SynthesisStatus::Superseded)
        } else {
            None
        }
    }

    /// The stored string of a status.
    pub fn as_str(&self) -> (s: &'static str)
        ensures
            s@ == status_name(*self),
    {
        match self {
            SynthesisStatus::Canonical => "canonical",
            SynthesisStatus::CanonicalHypothesis => "canonical-hypothesis",
            SynthesisStatus::AiDraft => "ai-draft",
            SynthesisStatus::Superseded => "superseded",
        }
    }
}

/// A status is parsed back from its own stored string.
pub proof fn lemma_status_roundtrip(st: SynthesisStatus)
    ensures
        status_of(status_name(st)) == Some(st),
{
    reveal_strlit("canonical");
    reveal_strlit("canonical-hypothesis");
    reveal_strlit("ai-draft");
    reveal_strlit("superseded");
    assert("canonical"@.len() == 9);
    assert("canonical-hypothesis"@.len() == 20);
    assert("ai-draft"@.len() == 8);
    assert("superseded"@.len() == 10);
}

pub open spec fn opt_view(o: Option<String>) -> Option<Seq<char>> {
    match o {
        Some(s) => Some(s@),
        None => None,
    }
}

/// A holon: a view over a borrowed node.
#[derive(Debug, Clone, Copy)]
pub struct Holon<'a> {
    pub node: &'a Node,
}

fn opt_str(o: &Option<String>) -> (r: Option<&str>)
    ensures
        match r {
            Some(s) => opt_view(*o) == Some(s@),
            None => o is None,
        },
{
    match o {
        Some(s) => Some(s.as_str()),
        None => None,
    }
}

impl<'a> Holon<'a> {
    /// Create a `Holon` view over a borrowed `Node`.
    pub fn new(node: &'a Node) -> (h: Self)
        ensures
            h.node == node,
    {
        Holon { node }
    }

    /// The holon's unique identifier.
    pub fn id(&self) -> (s: &str)
        ensures
            s@ == self.node.id@,
    {
        self.node.id.as_str()
    }

    /// The holon's type (e.g. "observation", "telos", "skill").
    pub fn node_type(&self) -> (s: &str)
        ensures
            s@ == self.node.node_type@,
    {
        self.node.node_type.as_str()
    }

    /// The holon's display name.
    pub fn name(&self) -> (s: &str)
        ensures
            s@ == self.node.name@,
    {
        self.node.name.as_str()
    }

    /// The epistemic status of this holon on the TDG ladder.
    pub fn synthesis_status(&self) -> (r: Option<SynthesisStatus>)
        ensures
            r == status_of(self.node.synthesis_status@),
    {
        SynthesisStatus::from_str(self.node.synthesis_status.as_str())
    }

    /// Whether this holon is canonical (human-validated).
    pub fn is_canonical(&self) -> (b: bool)
        ensures
            b == (status_of(self.node.synthesis_status@) == Some(SynthesisStatus::Canonical)),
    {
        match self.synthesis_status() {
            Some(SynthesisStatus::Canonical) => true,
            _ => false,
        }
    }

    /// Whether this holon is an AI draft (not yet validated).
    pub fn is_ai_draft(&self) -> (b: bool)
        ensures
            b == (status_of(self.node.synthesis_status@) == Some(SynthesisStatus::AiDraft)),
    {
        match self.synthesis_status() {
            Some(SynthesisStatus::AiDraft) => true,
            _ => false,
        }
    }

    /// The organisational scale code (e.g. "S11" for Civilization).
    pub fn scale_code(&self) -> (r: Option<&str>)
        ensures
            match r {
                Some(s) => opt_view(self.node.scale_code) == Some(s@),
                None => self.node.scale_code is None,
            },
    {
        opt_str(&self.node.scale_code)
    }

    /// The Tetra-Axes coordinates (UL, UR, LL, LR), each 1-19.
    pub fn tetra_coords(&self) -> (t: (Option<i32>, Option<i32>, Option<i32>, Option<i32>))
        ensures
            t == (self.node.tetra_ul, self.node.tetra_ur, self.node.tetra_ll, self.node.tetra_lr),
    {
        (self.node.tetra_ul, self.node.tetra_ur, self.node.tetra_ll, self.node.tetra_lr)
    }

    /// The octave identifier for cross-octave involution lineage.
    pub fn octave_id(&self) -> (r: Option<&str>)
        ensures
            match r {
                Some(s) => opt_view(self.node.octave_id) == Some(s@),
                None => self.node.octave_id is None,
            },
    {
        opt_str(&self.node.octave_id)
    }

    /// The canonical parent (first in `parent_ids`).
    pub fn canonical_parent_id(&self) -> (r: Option<&str>)
        ensures
            match r {
                Some(s) => self.node.parent_ids@.len() > 0 && s@ == self.node.parent_ids@[0]@,
                None => self.node.parent_ids@.len() == 0,
            },
    {
        if self.node.parent_ids.len() > 0 {
            Some(self.node.parent_ids[0].as_str())
        } else {
            None
        }
    }

    /// All parent IDs (this holon may be part of multiple wholes).
    pub fn all_parent_ids(&self) -> (p: &[String])
        ensures
            p@ == self.node.parent_ids@,
    {
        self.node.parent_ids.as_slice()
    }

    /// Whether this holon is a part (has parents).
    pub fn is_part(&self) -> (b: bool)
        ensures
            b == (self.node.parent_ids@.len() > 0),
    {
        self.node.parent_ids.len() > 0
    }

    /// Whether `candidate` names this holon among its parents.
    pub fn is_parent_of(&self, candidate: &Node) -> (b: bool)
        ensures
            b == exists|i: int| 0 <= i < candidate.parent_ids@.len()
                && #[trigger] candidate.parent_ids@[i]@ == self.node.id@,
    {
        let mut i: usize = 0;
        while i < candidate.parent_ids.len()
            invariant
                i <= candidate.parent_ids@.len(),
                forall|j: int| 0 <= j < i ==> #[trigger] candidate.parent_ids@[j]@ != self.node.id@,
            decreases candidate.parent_ids.len() - i,
        {
            if str_eq(candidate.parent_ids[i].as_str(), self.node.id.as_str()) {
                return true;
            }
            i = i + 1;
        }
        false
    }

    /// The children among candidate nodes: those that name this holon among
    /// their parents, in the candidates' order.
    pub fn children_among(&self, candidates: Vec<Node>) -> (c: Vec<Node>)
        ensures
            c@ == candidates@.filter(|n: Node| exists|i: int| 0 <= i < n.parent_ids@.len()
                && #[trigger] n.parent_ids@[i]@ == self.node.id@),
    {
        let ghost pred = |n: Node| exists|i: int| 0 <= i < n.parent_ids@.len()
            && #[trigger] n.parent_ids@[i]@ == self.node.id@;
        let ghost orig = candidates@;
        let mut rest = candidates;
        let mut c: Vec<Node> = Vec::new();
        let ghost mut k: int = 0;
        while rest.len() > 0
            invariant
                0 <= k <= orig.len(),
                rest@ == orig.skip(k),
                pred == (|n: Node| exists|i: int| 0 <= i < n.parent_ids@.len()
                    && #[trigger] n.parent_ids@[i]@ == self.node.id@),
                c@ == orig.take(k).filter(pred),
            decreases rest.len(),
        {
            reveal_with_fuel(Seq::filter, 1);
            let n = rest.remove(0);
            assert(n == orig[k]);
            assert(orig.take(k + 1).drop_last() =~= orig.take(k));
            assert(orig.take(k + 1).last() == n);
            if self.is_parent_of(&n) {
                c.push(n);
            }
            proof { k = k + 1; }
            assert(rest@ =~= orig.skip(k));
            assert(c@ =~= orig.take(k).filter(pred));
        }
        assert(orig.take(k) =~= orig);
        c
    }

    /// The developmental stage (1-8), if assigned.
    pub fn developmental_stage(&self) -> (r: Option<u8>)
        ensures
            r == match self.node.developmental_stage {
                Some(s) => Some(s as u8),
                None => None,
            },
    {
        match self.node.developmental_stage {
            Some(s) => Some(s as u8),
            None => None,
        }
    }

    /// The teleological level (T0-T6), if assigned.
    pub fn teleological_level(&self) -> (r: Option<&str>)
        ensures
            match r {
                Some(s) => opt_view(self.node.teleological_level) == Some(s@),
                None => self.node.teleological_level is None,
            },
    {
        opt_str(&self.node.teleological_level)
    }

    /// The lifecycle state ("active", "archived", etc.).
    pub fn lifecycle_state(&self) -> (s: &str)
        ensures
            s@ == self.node.lifecycle_state@,
    {
        self.node.lifecycle_state.as_str()
    }

    /// Whether this holon is active (not archived/deleted).
    pub fn is_active(&self) -> (b: bool)
        ensures
            b == (self.node.valid_to is None && self.node.lifecycle_state@ == "active"@),
    {
        self.node.valid_to.is_none() && str_eq(self.node.lifecycle_state.as_str(), "active")
    }
}

/// The scale each node type sits at when no scale code was recorded.
pub open spec fn scale_table() -> Seq<(Seq<char>, Seq<char>)> {
    seq![
        ("observation"@, "S40"@), ("insight"@, "S40"@), ("question"@, "S40"@), ("people"@, "S40"@),
        ("being"@, "S40"@), ("skill"@, "S40"@), ("capability"@, "S40"@), ("action"@, "S40"@),
        ("event"@, "S40"@), ("communication"@, "S40"@), ("project"@, "S30"@), ("trajectory"@, "S30"@),
        ("telos"@, "S30"@), ("value"@, "S30"@), ("bond"@, "S31"@), ("hypothesis"@, "S70"@),
        ("synthesis"@, "S70"@), ("discovery"@, "S70"@), ("constraint"@, "S70"@), ("narrative"@, "S70"@),
        ("artifact"@, "S50"@),
    ]
}

/// The scale code the first entry of `table` for `node_type` gives.
pub open spec fn lookup_scale(table: Seq<(Seq<char>, Seq<char>)>, node_type: Seq<char>) -> Option<Seq<char>>
    decreases table.len(),
{
    if table.len() == 0 {
        None
    } else if table[0].0 == node_type {
        Some(table[0].1)
    } else {
        lookup_scale(table.drop_first(), node_type)
    }
}

/// The scale code inferred for a node type, if the table lists it.
pub open spec fn inferred_scale_of(node_type: Seq<char>) -> Option<Seq<char>> {
    lookup_scale(scale_table(), node_type)
}

/// The scale table as (node type, scale code) pairs, in order; the schema
/// migration backfills missing scale codes from it.
pub fn scale_entries() -> (v: Vec<(&'static str, &'static str)>)
    ensures
        v@.len() == scale_table().len(),
        forall|i: int| 0 <= i < v@.len() ==> (#[trigger] v@[i]).0@ == scale_table()[i].0 && v@[i].1@ == scale_table()[i].1,
{
    let v = vec![
        ("observation", "S40"), ("insight", "S40"), ("question", "S40"), ("people", "S40"),
        ("being", "S40"), ("skill", "S40"), ("capability", "S40"), ("action", "S40"),
        ("event", "S40"), ("communication", "S40"), ("project", "S30"), ("trajectory", "S30"),
        ("telos", "S30"), ("value", "S30"), ("bond", "S31"), ("hypothesis", "S70"),
        ("synthesis", "S70"), ("discovery", "S70"), ("constraint", "S70"), ("narrative", "S70"),
        ("artifact", "S50"),
    ];
    v
}

/// The scale code a node of this type is given when none was recorded: S40
/// for individual-scale types, S30 for projects, trajectories, teloi and
/// values, S31 for bonds, S70 for syntheses and their kin, S50 for
/// artifacts; none for other types.
pub fn inferred_scale_code(node_type: &str) -> (r: Option<&'static str>)
    ensures
        match r {
            Some(c) => inferred_scale_of(node_type@) == Some(c@),
            None => inferred_scale_of(node_type@) is None,
        },
{
    let v = scale_entries();
    let mut i: usize = 0;
    assert(scale_table().skip(0) =~= scale_table());
    while i < v.len()
        invariant
            v@.len() == scale_table().len(),
            forall|k: int| 0 <= k < v@.len() ==> (#[trigger] v@[k]).0@ == scale_table()[k].0 && v@[k].1@ == scale_table()[k].1,
            i <= v@.len(),
            inferred_scale_of(node_type@) == lookup_scale(scale_table().skip(i as int), node_type@),
        decreases v.len() - i,
    {
        let ghost rest = scale_table().skip(i as int);
        assert(rest[0] == scale_table()[i as int]);
        assert(rest.drop_first() =~= scale_table().skip(i + 1));
        if str_eq(v[i].0, node_type) {
            return Some(v[i].1);
        }
        i = i + 1;
    }
    None
}



/// The realm each node type is placed in when none was recorded.
pub open spec fn realm_table() -> Seq<(Seq<char>, Seq<char>)> {
    seq![
        ("observation"@, "gross"@), ("event"@, "gross"@), ("artifact"@, "gross"@), ("action"@, "gross"@),
        ("people"@, "gross"@), ("being"@, "gross"@), ("communication"@, "gross"@), ("skill"@, "subtle"@),
        ("capability"@, "subtle"@), ("hypothesis"@, "subtle"@), ("synthesis"@, "subtle"@), ("insight"@, "subtle"@),
        ("discovery"@, "subtle"@), ("question"@, "subtle"@), ("constraint"@, "subtle"@), ("narrative"@, "subtle"@),
        ("telos"@, "causal"@), ("value"@, "causal"@), ("bond"@, "subtle"@), ("project"@, "gross"@),
        ("trajectory"@, "subtle"@),
    ]
}

/// The realm table as (node type, realm) pairs, in order; the schema
/// migration backfills missing realm placements from it.
pub fn realm_entries() -> (v: Vec<(&'static str, &'static str)>)
    ensures
        v@.len() == realm_table().len(),
        forall|i: int| 0 <= i < v@.len() ==> (#[trigger] v@[i]).0@ == realm_table()[i].0 && v@[i].1@ == realm_table()[i].1,
{
    let v = vec![
        ("observation", "gross"), ("event", "gross"), ("artifact", "gross"), ("action", "gross"),
        ("people", "gross"), ("being", "gross"), ("communication", "gross"), ("skill", "subtle"),
        ("capability", "subtle"), ("hypothesis", "subtle"), ("synthesis", "subtle"), ("insight", "subtle"),
        ("discovery", "subtle"), ("question", "subtle"), ("constraint", "subtle"), ("narrative", "subtle"),
        ("telos", "causal"), ("value", "causal"), ("bond", "subtle"), ("project", "gross"),
        ("trajectory", "subtle"),
    ];
    v
}

} // verus!
