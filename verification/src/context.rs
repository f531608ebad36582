//! Context packs: the structured, status-tagged context handed to agents.

use vstd::prelude::*;

use crate::text::{occurs_at, owned, push_decimal, push_signed, push_str, seq_contains, seq_starts_with, signed_dec_str, dec_str, str_eq};

verus! {

/// A parent in the chain.
#[derive(Debug, Clone)]
pub struct ParentSummary {
    pub holon_id: String,
    pub name: String,
    pub node_type: String,
    pub scale_code: Option<String>,
}

/// A sub-holon (child).
#[derive(Debug, Clone)]
pub struct SubHolonSummary {
    pub holon_id: String,
    pub name: String,
    pub node_type: String,
}

/// An event in the provenance trail.
#[derive(Debug, Clone)]
pub struct EventSummary {
    pub event_action: String,
    pub timestamp: String,
    pub agent_id: Option<String>,
}

/// Provenance summary — last N events + evidence count.
#[derive(Debug, Clone)]
pub struct ProvenanceSummary {
    pub recent_events: Vec<EventSummary>,
    pub evidence_count: i64,
    pub source: String,
}

/// Grounding — the epistemic spine, never dropped during truncation.
#[derive(Debug, Clone)]
pub struct Grounding {
    /// The synthesis_status of this holon (always present).
    pub synthesis_status: String,
    /// Whether the holon's type_class is stable.
    pub is_stable: bool,
    /// Whether the holon is canonical (human-validated).
    pub is_canonical: bool,
    /// Epistemological status: "grounded" (canonical), "hypothesis-graded"
    /// (canonical-hypothesis), "superseded", or "speculative" (anything else,
    /// such as ai-draft).
    pub epistemology_status: String,
}

/// The epistemological reading of a synthesis status.
pub open spec fn epistemology_of(status: Seq<char>) -> Seq<char> {
    if status == "canonical"@ {
        "grounded"@
    } else if status == "canonical-hypothesis"@ {
        "hypothesis-graded"@
    } else if status == "superseded"@ {
        "superseded"@
    } else {
        "speculative"@
    }
}

/// A canonical synthesis is grounded, a canonical hypothesis is
/// hypothesis-graded, a superseded one stays superseded, and any other
/// status is speculative.
pub proof fn lemma_epistemology_table(status: Seq<char>)
    ensures
        epistemology_of("canonical"@) == "grounded"@,
        epistemology_of("canonical-hypothesis"@) == "hypothesis-graded"@,
        epistemology_of("superseded"@) == "superseded"@,
        (status != "canonical"@ && status != "canonical-hypothesis"@ && status != "superseded"@)
            ==> epistemology_of(status) == "speculative"@,
{
    reveal_strlit("canonical");
    reveal_strlit("canonical-hypothesis");
    reveal_strlit("superseded");
    assert("canonical"@.len() != "canonical-hypothesis"@.len());
    assert("canonical"@[0] != "superseded"@[0]);
    assert("canonical-hypothesis"@[0] != "superseded"@[0]);
}

/// Map a synthesis status to its epistemological status.
pub fn epistemology_status(synthesis_status: &str) -> (s: String)
    ensures
        s@ == epistemology_of(synthesis_status@),
{
    if str_eq(synthesis_status, "canonical") {
        owned("grounded")
    } else if str_eq(synthesis_status, "canonical-hypothesis") {
        owned("hypothesis-graded")
    } else if str_eq(synthesis_status, "superseded") {
        owned("superseded")
    } else {
        owned("speculative")
    }
}

/// The grounding of a holon with the given status and stability.
pub fn grounding_for(synthesis_status: &str, is_stable: bool) -> (g: Grounding)
    ensures
        g.synthesis_status@ == synthesis_status@,
        g.is_stable == is_stable,
        g.is_canonical == (synthesis_status@ == "canonical"@),
        g.epistemology_status@ == epistemology_of(synthesis_status@),
{
    Grounding {
        synthesis_status: owned(synthesis_status),
        is_stable,
        is_canonical: str_eq(synthesis_status, "canonical"),
        epistemology_status: epistemology_status(synthesis_status),
    }
}

// ─── The pack ────────────────────────────────────────────────────────────────
//
// `N` is the type of the pack's measures (weights, resonances, pressures):
// numbers where the pack is stored, their rendered text where it is shown.

/// A bond (edge) summary.
#[derive(Debug, Clone)]
pub struct BondSummary<N> {
    pub edge_type: String,
    pub target_id: String,
    pub target_name: String,
    pub target_type: String,
    pub weight: N,
}

/// A resonance partner summary.
#[derive(Debug, Clone)]
pub struct ResonanceSummary<N> {
    pub partner_id: String,
    pub resonance: N,
    pub interpretation: String,
}

/// Inter-holonic context: same-scale relationships.
#[derive(Debug, Clone)]
pub struct InterContext<N> {
    pub bonds: Vec<BondSummary<N>>,
    pub resonances: Vec<ResonanceSummary<N>>,
}

/// Great Way trajectory summary.
#[derive(Debug, Clone)]
pub struct GreatWaySummary<N> {
    pub greater_phase: String,
    pub significator: N,
    pub great_way: N,
    pub transformation_pressure: N,
    pub octave_count: u64,
}

/// Extra-holonic context: parent chain, sub-holons, Great Way.
#[derive(Debug, Clone)]
pub struct ExtraContext<N> {
    pub parent_chain: Vec<ParentSummary>,
    pub sub_holons: Vec<SubHolonSummary>,
    pub great_way: Option<GreatWaySummary<N>>,
}

/// A cross-domain analogue (same type class, different scale).
#[derive(Debug, Clone)]
pub struct Analogue<N> {
    pub holon_id: String,
    pub name: String,
    pub node_type: String,
    pub scale_code: Option<String>,
    pub type_class: String,
    pub resonance: N,
}

/// The structured projection of a holon's context handed to an agent.
#[derive(Debug, Clone)]
pub struct ContextPack<N> {
    pub holon_id: String,
    pub node_type: String,
    pub name: String,
    pub scale_code: Option<String>,
    pub type_class: String,
    pub synthesis_status: String,
    pub realm_placement: Option<String>,
    pub collectivity: Option<String>,
    pub inter: Option<InterContext<N>>,
    pub extra: Option<ExtraContext<N>>,
    pub analogues: Vec<Analogue<N>>,
    pub provenance: Option<ProvenanceSummary>,
    pub grounding: Grounding,
}

/// The first `n` items, or all of them when there are fewer.
pub open spec fn capped<T>(s: Seq<T>, n: nat) -> Seq<T> {
    if s.len() <= n { s } else { s.take(n as int) }
}

/// How the pack is trimmed to a budget: at most five analogues, three
/// provenance events and three resonances; everything else is kept, the
/// grounding and the synthesis status above all.
pub open spec fn trimmed<N>(before: ContextPack<N>, after: ContextPack<N>) -> bool {
    &&& after.analogues@ == capped(before.analogues@, 5)
    &&& match (before.provenance, after.provenance) {
            (Some(b), Some(a)) => a.recent_events@ == capped(b.recent_events@, 3)
                && a.evidence_count == b.evidence_count && a.source == b.source,
            (None, None) => true,
            _ => false,
        }
    &&& match (before.inter, after.inter) {
            (Some(b), Some(a)) => a.resonances@ == capped(b.resonances@, 3) && a.bonds == b.bonds,
            (None, None) => true,
            _ => false,
        }
    &&& after.extra == before.extra
    &&& after.grounding == before.grounding
    &&& after.synthesis_status == before.synthesis_status
    &&& after.type_class == before.type_class
    &&& after.holon_id == before.holon_id
    &&& after.name == before.name
    &&& after.node_type == before.node_type
    &&& after.scale_code == before.scale_code
    &&& after.realm_placement == before.realm_placement
    &&& after.collectivity == before.collectivity
}

/// Trim the pack, dropping the cheapest context first: analogues beyond
/// five, provenance events beyond three, resonances beyond three. The
/// grounding, synthesis status and type class are never dropped.
pub fn apply_token_budget<N>(pack: ContextPack<N>) -> (r: ContextPack<N>)
    ensures
        trimmed(pack, r),
{
    let ContextPack {
        holon_id, node_type, name, scale_code, type_class, synthesis_status, realm_placement,
        collectivity, inter, extra, analogues, provenance, grounding,
    } = pack;
    let mut analogues = analogues;
    if analogues.len() > 5 {
        analogues.truncate(5);
    }
    let provenance = match provenance {
        Some(p) => {
            let ProvenanceSummary { recent_events, evidence_count, source } = p;
            let mut recent_events = recent_events;
            if recent_events.len() > 3 {
                recent_events.truncate(3);
            }
            Some(ProvenanceSummary { recent_events, evidence_count, source })
        },
        None => None,
    };
    let inter = match inter {
        Some(i) => {
            let InterContext { bonds, resonances } = i;
            let mut resonances = resonances;
            if resonances.len() > 3 {
                resonances.truncate(3);
            }
            Some(InterContext { bonds, resonances })
        },
        None => None,
    };
    ContextPack {
        holon_id, node_type, name, scale_code, type_class, synthesis_status, realm_placement,
        collectivity, inter, extra, analogues, provenance, grounding,
    }
}

// ─── The prompt block ────────────────────────────────────────────────────────

/// A labelled line for an optional value, or nothing.
pub open spec fn opt_line(label: Seq<char>, v: Option<String>) -> Seq<char> {
    match v {
        Some(x) => label + x@ + "\n"@,
        None => seq![],
    }
}

/// The identity section.
pub open spec fn identity_block(p: ContextPack<String>) -> Seq<char> {
    "## Holon: "@ + p.name@ + " [status: "@ + p.synthesis_status@ + "]\n\n"@
        + "- **ID**: "@ + p.holon_id@ + "\n"@
        + "- **Type**: "@ + p.node_type@ + "\n"@
        + opt_line("- **Scale**: "@, p.scale_code)
        + opt_line("- **Realm**: "@, p.realm_placement)
        + opt_line("- **Collectivity**: "@, p.collectivity)
        + "- **Type class**: "@ + p.type_class@ + " [status: hypothesis-graded]\n"@
        + "- **Epistemology**: "@ + p.grounding.epistemology_status@ + "\n"@
        + "\n"@
}

/// The lines `f` gives for the items of `s`, one after the other.
pub open spec fn lines_of<T>(s: Seq<T>, f: spec_fn(T) -> Seq<char>) -> Seq<char>
    decreases s.len(),
{
    if s.len() == 0 {
        seq![]
    } else {
        lines_of(s.drop_last(), f) + f(s.last())
    }
}

/// A titled list of the first `cap` items, or nothing for an empty list.
pub open spec fn list_block<T>(title: Seq<char>, s: Seq<T>, cap: nat, f: spec_fn(T) -> Seq<char>) -> Seq<char> {
    if s.len() == 0 { seq![] } else { title + lines_of(capped(s, cap), f) + "\n"@ }
}

pub open spec fn bond_line(b: BondSummary<String>) -> Seq<char> {
    "- "@ + b.edge_type@ + " → "@ + b.target_name@ + " ("@ + b.target_type@ + ")\n"@
}

pub open spec fn resonance_line(r: ResonanceSummary<String>) -> Seq<char> {
    "- "@ + r.partner_id@ + " (R="@ + r.resonance@ + ", "@ + r.interpretation@ + ")\n"@
}

pub open spec fn parent_line(p: ParentSummary) -> Seq<char> {
    "- "@ + p.name@ + " ("@ + p.node_type@ + ")\n"@
}

pub open spec fn sub_line(s: SubHolonSummary) -> Seq<char> {
    "- "@ + s.name@ + " ("@ + s.node_type@ + ")\n"@
}

pub open spec fn analogue_line(a: Analogue<String>) -> Seq<char> {
    "- "@ + a.name@ + " ("@ + a.node_type@ + ") — type_class="@ + a.type_class@ + ", R="@ + a.resonance@ + "\n"@
}

pub open spec fn event_line(e: EventSummary) -> Seq<char> {
    "  - "@ + e.event_action@ + " ("@ + e.timestamp@ + ")\n"@
}

/// The bonds and resonance partners.
pub open spec fn inter_block(i: Option<InterContext<String>>) -> Seq<char> {
    match i {
        Some(i) => list_block("### Bonds\n\n"@, i.bonds@, 5, |b: BondSummary<String>| bond_line(b))
            + list_block("### Resonance Partners [status: hypothesis-graded]\n\n"@, i.resonances@, 3,
                |r: ResonanceSummary<String>| resonance_line(r)),
        None => seq![],
    }
}

pub open spec fn great_way_block(g: Option<GreatWaySummary<String>>) -> Seq<char> {
    match g {
        Some(g) => "### Great Way Trajectory\n\n"@ + "- Phase: "@ + g.greater_phase@ + "\n"@
            + "- Octave: "@ + dec_str(g.octave_count as nat) + "\n"@
            + "- Pressure: "@ + g.transformation_pressure@ + "\n"@ + "\n"@,
        None => seq![],
    }
}

/// The parent chain, sub-holons and Great Way trajectory.
pub open spec fn extra_block(e: Option<ExtraContext<String>>) -> Seq<char> {
    match e {
        Some(e) => list_block("### Parent Chain\n\n"@, e.parent_chain@, e.parent_chain@.len(), |p: ParentSummary| parent_line(p))
            + list_block("### Sub-holons\n\n"@, e.sub_holons@, 5, |s: SubHolonSummary| sub_line(s))
            + great_way_block(e.great_way),
        None => seq![],
    }
}

/// The provenance section.
pub open spec fn provenance_block(p: Option<ProvenanceSummary>) -> Seq<char> {
    match p {
        Some(p) => "### Provenance\n\n"@ + "- Source: "@ + p.source@ + "\n"@
            + "- Evidence count: "@ + signed_dec_str(p.evidence_count as int) + "\n"@
            + (if p.recent_events@.len() == 0 {
                seq![]
            } else {
                "- Recent events:\n"@ + lines_of(capped(p.recent_events@, 3), |e: EventSummary| event_line(e))
            })
            + "\n"@,
        None => seq![],
    }
}

/// The whole prompt block.
pub open spec fn prompt_block_of(p: ContextPack<String>) -> Seq<char> {
    identity_block(p)
        + inter_block(p.inter)
        + extra_block(p.extra)
        + list_block("### Cross-domain Analogues [status: hypothesis-graded]\n\n"@, p.analogues@, 3,
            |a: Analogue<String>| analogue_line(a))
        + provenance_block(p.provenance)
}

fn push_opt_line(md: &mut String, label: &str, v: &Option<String>)
    ensures
        final(md)@ == old(md)@ + opt_line(label@, *v),
{
    match v {
        Some(x) => {
            push_str(md, label);
            push_str(md, x.as_str());
            push_str(md, "\n");
        },
        None => {
            assert(old(md)@ + opt_line(label@, *v) =~= old(md)@);
        },
    }
}

fn identity_text(p: &ContextPack<String>) -> (md: String)
    ensures
        md@ == identity_block(*p),
{
    let mut md = owned("## Holon: ");
    push_str(&mut md, p.name.as_str());
    push_str(&mut md, " [status: ");
    push_str(&mut md, p.synthesis_status.as_str());
    push_str(&mut md, "]\n\n");
    push_str(&mut md, "- **ID**: ");
    push_str(&mut md, p.holon_id.as_str());
    push_str(&mut md, "\n");
    push_str(&mut md, "- **Type**: ");
    push_str(&mut md, p.node_type.as_str());
    push_str(&mut md, "\n");
    push_opt_line(&mut md, "- **Scale**: ", &p.scale_code);
    push_opt_line(&mut md, "- **Realm**: ", &p.realm_placement);
    push_opt_line(&mut md, "- **Collectivity**: ", &p.collectivity);
    push_str(&mut md, "- **Type class**: ");
    push_str(&mut md, p.type_class.as_str());
    push_str(&mut md, " [status: hypothesis-graded]\n");
    push_str(&mut md, "- **Epistemology**: ");
    push_str(&mut md, p.grounding.epistemology_status.as_str());
    push_str(&mut md, "\n");
    push_str(&mut md, "\n");
    md
}

proof fn lemma_lines_step<T>(s: Seq<T>, i: int, f: spec_fn(T) -> Seq<char>)
    requires
        0 <= i < s.len(),
    ensures
        lines_of(s.take(i + 1), f) == lines_of(s.take(i), f) + f(s[i]),
{
    assert(s.take(i + 1).drop_last() =~= s.take(i));
    assert(s.take(i + 1).last() == s[i]);
}

proof fn lemma_capped_take<T>(s: Seq<T>, cap: nat, n: int)
    requires
        n == (if s.len() <= cap { s.len() as int } else { cap as int }),
    ensures
        capped(s, cap) == s.take(n),
{
    if s.len() <= cap {
        assert(s.take(n) =~= s);
    }
}

fn bonds_text(bs: &Vec<BondSummary<String>>) -> (md: String)
    ensures
        md@ == list_block("### Bonds\n\n"@, bs@, 5, |b: BondSummary<String>| bond_line(b)),
{
    let ghost f = |b: BondSummary<String>| bond_line(b);
    if bs.len() == 0 {
        return String::new();
    }
    let n: usize = if bs.len() <= 5 { bs.len() } else { 5 };
    let mut md = owned("### Bonds\n\n");
    let ghost head = md@;
    let mut i: usize = 0;
    while i < n
        invariant
            n <= bs@.len(),
            i <= n,
            f == (|b: BondSummary<String>| bond_line(b)),
            md@ == head + lines_of(bs@.take(i as int), f),
        decreases n - i,
    {
        let b = &bs[i];
        proof { lemma_lines_step(bs@, i as int, f); }
        push_str(&mut md, "- ");
        push_str(&mut md, b.edge_type.as_str());
        push_str(&mut md, " → ");
        push_str(&mut md, b.target_name.as_str());
        push_str(&mut md, " (");
        push_str(&mut md, b.target_type.as_str());
        push_str(&mut md, ")\n");
        assert(md@ =~= head + lines_of(bs@.take(i + 1), f));
        i = i + 1;
    }
    proof { lemma_capped_take(bs@, 5, n as int); }
    push_str(&mut md, "\n");
    md
}

fn resonances_text(rs: &Vec<ResonanceSummary<String>>) -> (md: String)
    ensures
        md@ == list_block("### Resonance Partners [status: hypothesis-graded]\n\n"@, rs@, 3,
            |r: ResonanceSummary<String>| resonance_line(r)),
{
    let ghost f = |r: ResonanceSummary<String>| resonance_line(r);
    if rs.len() == 0 {
        return String::new();
    }
    let n: usize = if rs.len() <= 3 { rs.len() } else { 3 };
    let mut md = owned("### Resonance Partners [status: hypothesis-graded]\n\n");
    let ghost head = md@;
    let mut i: usize = 0;
    while i < n
        invariant
            n <= rs@.len(),
            i <= n,
            f == (|r: ResonanceSummary<String>| resonance_line(r)),
            md@ == head + lines_of(rs@.take(i as int), f),
        decreases n - i,
    {
        let r = &rs[i];
        proof { lemma_lines_step(rs@, i as int, f); }
        push_str(&mut md, "- ");
        push_str(&mut md, r.partner_id.as_str());
        push_str(&mut md, " (R=");
        push_str(&mut md, r.resonance.as_str());
        push_str(&mut md, ", ");
        push_str(&mut md, r.interpretation.as_str());
        push_str(&mut md, ")\n");
        assert(md@ =~= head + lines_of(rs@.take(i + 1), f));
        i = i + 1;
    }
    proof { lemma_capped_take(rs@, 3, n as int); }
    push_str(&mut md, "\n");
    md
}

fn parents_text(ps: &Vec<ParentSummary>) -> (md: String)
    ensures
        md@ == list_block("### Parent Chain\n\n"@, ps@, ps@.len(), |p: ParentSummary| parent_line(p)),
{
    let ghost f = |p: ParentSummary| parent_line(p);
    if ps.len() == 0 {
        return String::new();
    }
    let n: usize = ps.len();
    let mut md = owned("### Parent Chain\n\n");
    let ghost head = md@;
    let mut i: usize = 0;
    while i < n
        invariant
            n == ps@.len(),
            i <= n,
            f == (|p: ParentSummary| parent_line(p)),
            md@ == head + lines_of(ps@.take(i as int), f),
        decreases n - i,
    {
        let p = &ps[i];
        proof { lemma_lines_step(ps@, i as int, f); }
        push_str(&mut md, "- ");
        push_str(&mut md, p.name.as_str());
        push_str(&mut md, " (");
        push_str(&mut md, p.node_type.as_str());
        push_str(&mut md, ")\n");
        assert(md@ =~= head + lines_of(ps@.take(i + 1), f));
        i = i + 1;
    }
    proof { lemma_capped_take(ps@, ps@.len(), n as int); }
    push_str(&mut md, "\n");
    md
}

fn subs_text(ss: &Vec<SubHolonSummary>) -> (md: String)
    ensures
        md@ == list_block("### Sub-holons\n\n"@, ss@, 5, |s: SubHolonSummary| sub_line(s)),
{
    let ghost f = |s: SubHolonSummary| sub_line(s);
    if ss.len() == 0 {
        return String::new();
    }
    let n: usize = if ss.len() <= 5 { ss.len() } else { 5 };
    let mut md = owned("### Sub-holons\n\n");
    let ghost head = md@;
    let mut i: usize = 0;
    while i < n
        invariant
            n <= ss@.len(),
            i <= n,
            f == (|s: SubHolonSummary| sub_line(s)),
            md@ == head + lines_of(ss@.take(i as int), f),
        decreases n - i,
    {
        let s = &ss[i];
        proof { lemma_lines_step(ss@, i as int, f); }
        push_str(&mut md, "- ");
        push_str(&mut md, s.name.as_str());
        push_str(&mut md, " (");
        push_str(&mut md, s.node_type.as_str());
        push_str(&mut md, ")\n");
        assert(md@ =~= head + lines_of(ss@.take(i + 1), f));
        i = i + 1;
    }
    proof { lemma_capped_take(ss@, 5, n as int); }
    push_str(&mut md, "\n");
    md
}

fn analogues_text(as_: &Vec<Analogue<String>>) -> (md: String)
    ensures
        md@ == list_block("### Cross-domain Analogues [status: hypothesis-graded]\n\n"@, as_@, 3,
            |a: Analogue<String>| analogue_line(a)),
{
    let ghost f = |a: Analogue<String>| analogue_line(a);
    if as_.len() == 0 {
        return String::new();
    }
    let n: usize = if as_.len() <= 3 { as_.len() } else { 3 };
    let mut md = owned("### Cross-domain Analogues [status: hypothesis-graded]\n\n");
    let ghost head = md@;
    let mut i: usize = 0;
    while i < n
        invariant
            n <= as_@.len(),
            i <= n,
            f == (|a: Analogue<String>| analogue_line(a)),
            md@ == head + lines_of(as_@.take(i as int), f),
        decreases n - i,
    {
        let a = &as_[i];
        proof { lemma_lines_step(as_@, i as int, f); }
        push_str(&mut md, "- ");
        push_str(&mut md, a.name.as_str());
        push_str(&mut md, " (");
        push_str(&mut md, a.node_type.as_str());
        push_str(&mut md, ") — type_class=");
        push_str(&mut md, a.type_class.as_str());
        push_str(&mut md, ", R=");
        push_str(&mut md, a.resonance.as_str());
        push_str(&mut md, "\n");
        assert(md@ =~= head + lines_of(as_@.take(i + 1), f));
        i = i + 1;
    }
    proof { lemma_capped_take(as_@, 3, n as int); }
    push_str(&mut md, "\n");
    md
}

fn provenance_text(p: &Option<ProvenanceSummary>) -> (md: String)
    ensures
        md@ == provenance_block(*p),
{
    match p {
        None => String::new(),
        Some(p) => {
            let ghost f = |e: EventSummary| event_line(e);
            let mut md = owned("### Provenance\n\n");
            push_str(&mut md, "- Source: ");
            push_str(&mut md, p.source.as_str());
            push_str(&mut md, "\n");
            push_str(&mut md, "- Evidence count: ");
            push_signed(&mut md, p.evidence_count);
            push_str(&mut md, "\n");
            let ghost top = md@;
            if p.recent_events.len() > 0 {
                push_str(&mut md, "- Recent events:\n");
                let ghost head = md@;
                let es = &p.recent_events;
                let n: usize = if es.len() <= 3 { es.len() } else { 3 };
                let mut i: usize = 0;
                while i < n
                    invariant
                        n <= es@.len(),
                        i <= n,
                        f == (|e: EventSummary| event_line(e)),
                        md@ == head + lines_of(es@.take(i as int), f),
                    decreases n - i,
                {
                    let e = &es[i];
                    proof { lemma_lines_step(es@, i as int, f); }
                    push_str(&mut md, "  - ");
                    push_str(&mut md, e.event_action.as_str());
                    push_str(&mut md, " (");
                    push_str(&mut md, e.timestamp.as_str());
                    push_str(&mut md, ")\n");
                    assert(md@ =~= head + lines_of(es@.take(i + 1), f));
                    i = i + 1;
                }
                proof { lemma_capped_take(es@, 3, n as int); }
            }
            push_str(&mut md, "\n");
            md
        },
    }
}

fn great_way_text(g: &Option<GreatWaySummary<String>>) -> (md: String)
    ensures
        md@ == great_way_block(*g),
{
    match g {
        None => String::new(),
        Some(g) => {
            let mut md = owned("### Great Way Trajectory\n\n");
            push_str(&mut md, "- Phase: ");
            push_str(&mut md, g.greater_phase.as_str());
            push_str(&mut md, "\n");
            push_str(&mut md, "- Octave: ");
            push_decimal(&mut md, g.octave_count);
            push_str(&mut md, "\n");
            push_str(&mut md, "- Pressure: ");
            push_str(&mut md, g.transformation_pressure.as_str());
            push_str(&mut md, "\n");
            push_str(&mut md, "\n");
            md
        },
    }
}

fn inter_text(i: &Option<InterContext<String>>) -> (md: String)
    ensures
        md@ == inter_block(*i),
{
    match i {
        Some(i) => {
            let mut md = bonds_text(&i.bonds);
            let r = resonances_text(&i.resonances);
            push_str(&mut md, r.as_str());
            md
        },
        None => String::new(),
    }
}

fn extra_text(e: &Option<ExtraContext<String>>) -> (md: String)
    ensures
        md@ == extra_block(*e),
{
    match e {
        Some(e) => {
            let mut md = parents_text(&e.parent_chain);
            let s = subs_text(&e.sub_holons);
            push_str(&mut md, s.as_str());
            let g = great_way_text(&e.great_way);
            push_str(&mut md, g.as_str());
            md
        },
        None => String::new(),
    }
}

impl ContextPack<String> {
    /// Render the pack, its measures already written as text, as the
    /// markdown block an agent reads: identity, bonds (first five),
    /// resonance partners (first three), parent chain, sub-holons (first
    /// five), Great Way trajectory, analogues (first three) and provenance
    /// (first three events), every claim tagged with its epistemic status.
    pub fn to_prompt_block(&self) -> (md: String)
        ensures
            md@ == prompt_block_of(*self),
    {
        let mut md = identity_text(self);
        let i = inter_text(&self.inter);
        push_str(&mut md, i.as_str());
        let e = extra_text(&self.extra);
        push_str(&mut md, e.as_str());
        let a = analogues_text(&self.analogues);
        push_str(&mut md, a.as_str());
        let p = provenance_text(&self.provenance);
        push_str(&mut md, p.as_str());
        md
    }
}

proof fn lemma_occurs_between(a: Seq<char>, b: Seq<char>, c: Seq<char>)
    ensures
        occurs_at(a + b + c, b, a.len() as int),
{
    assert((a + b + c).subrange(a.len() as int, (a.len() + b.len()) as int) =~= b);
}

proof fn lemma_occurs_extend(x: Seq<char>, y: Seq<char>, n: Seq<char>, i: int)
    requires
        occurs_at(x, n, i),
    ensures
        occurs_at(x + y, n, i),
{
    assert((x + y).subrange(i, i + n.len()) =~= x.subrange(i, i + n.len()));
}

proof fn lemma_occurs_head(h: Seq<char>, n1: Seq<char>, n2: Seq<char>, i: int)
    requires
        occurs_at(h, n1 + n2, i),
    ensures
        occurs_at(h, n1, i),
{
    let w = h.subrange(i, i + (n1 + n2).len());
    assert(w == n1 + n2);
    assert(h.subrange(i, i + n1.len()) =~= w.subrange(0, n1.len() as int));
    assert((n1 + n2).subrange(0, n1.len() as int) =~= n1);
}

/// The identity section before the type class line.
spec fn identity_head(p: ContextPack<String>) -> Seq<char> {
    "## Holon: "@ + p.name@ + " [status: "@ + p.synthesis_status@ + "]\n\n"@
        + "- **ID**: "@ + p.holon_id@ + "\n"@
        + "- **Type**: "@ + p.node_type@ + "\n"@
        + opt_line("- **Scale**: "@, p.scale_code)
        + opt_line("- **Realm**: "@, p.realm_placement)
        + opt_line("- **Collectivity**: "@, p.collectivity)
}

#[verifier::rlimit(30)]
proof fn lemma_identity_block_tags(p: ContextPack<String>)
    ensures
        occurs_at(identity_block(p), "## Holon: "@ + p.name@ + " [status: "@ + p.synthesis_status@ + "]\n\n"@, 0),
        occurs_at(identity_block(p),
            "- **Type class**: "@ + p.type_class@ + " [status: hypothesis-graded]\n"@, identity_head(p).len() as int),
        occurs_at(identity_block(p), "- **Epistemology**: "@ + p.grounding.epistemology_status@ + "\n"@,
            (identity_head(p).len() + ("- **Type class**: "@ + p.type_class@ + " [status: hypothesis-graded]\n"@).len()) as int),
{
    let header = "## Holon: "@ + p.name@ + " [status: "@ + p.synthesis_status@ + "]\n\n"@;
    let a0 = identity_head(p);
    let tc = "- **Type class**: "@ + p.type_class@ + " [status: hypothesis-graded]\n"@;
    let ep = "- **Epistemology**: "@ + p.grounding.epistemology_status@ + "\n"@;
    let ib = identity_block(p);
    assert(ib =~= a0 + tc + (ep + "\n"@));
    lemma_occurs_between(a0, tc, ep + "\n"@);
    assert(ib =~= (a0 + tc) + ep + "\n"@);
    lemma_occurs_between(a0 + tc, ep, "\n"@);
    assert(ib =~= Seq::<char>::empty() + header + ib.skip(header.len() as int));
    lemma_occurs_between(Seq::<char>::empty(), header, ib.skip(header.len() as int));
}

/// The prompt block opens with the holon's name and synthesis status, and
/// carries its type class, tagged as hypothesis-graded, and its epistemology.
pub proof fn lemma_prompt_block_tags(p: ContextPack<String>)
    ensures
        seq_starts_with(prompt_block_of(p),
            "## Holon: "@ + p.name@ + " [status: "@ + p.synthesis_status@ + "]\n\n"@),
        seq_contains(prompt_block_of(p),
            "- **Type class**: "@ + p.type_class@ + " [status: hypothesis-graded]"@),
        seq_contains(prompt_block_of(p), "- **Epistemology**: "@ + p.grounding.epistemology_status@),
{
    let ib = identity_block(p);
    let rest = prompt_block_of(p).skip(ib.len() as int);
    assert(prompt_block_of(p) =~= ib + rest);
    lemma_identity_block_tags(p);
    let header = "## Holon: "@ + p.name@ + " [status: "@ + p.synthesis_status@ + "]\n\n"@;
    let tc = "- **Type class**: "@ + p.type_class@ + " [status: hypothesis-graded]"@;
    let ep = "- **Epistemology**: "@ + p.grounding.epistemology_status@;
    let i = identity_head(p).len() as int;
    let j = (identity_head(p).len() + ("- **Type class**: "@ + p.type_class@ + " [status: hypothesis-graded]\n"@).len()) as int;
    lemma_occurs_extend(ib, rest, header, 0);
    reveal_strlit(" [status: hypothesis-graded]\n");
    reveal_strlit(" [status: hypothesis-graded]");
    reveal_strlit("\n");
    assert("- **Type class**: "@ + p.type_class@ + " [status: hypothesis-graded]\n"@ =~= tc + "\n"@);
    lemma_occurs_head(ib, tc, "\n"@, i);
    lemma_occurs_extend(ib, rest, tc, i);
    assert("- **Epistemology**: "@ + p.grounding.epistemology_status@ + "\n"@ =~= ep + "\n"@);
    lemma_occurs_head(ib, ep, "\n"@, j);
    lemma_occurs_extend(ib, rest, ep, j);
}

} // verus!
