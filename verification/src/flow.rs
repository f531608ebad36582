//! Flow engine contracts: how each edge type carries drive between holons,
//! the intrinsic drive signature of each node type and the quadrant
//! modulators.
//!
//! Drive magnitudes are fractional in the flow engine; here they are held as
//! integers in fixed units — tenths for signatures and flow rates, hundredths
//! for quadrant modulators — so that the tables and the rules that select
//! from them stand as exact values.

use vstd::prelude::*;

use crate::text::{contains_string, owned, str_eq, string_views};

verus! {

/// Diagnosis for a single drive based on dual-pole values.
#[derive(Debug, Clone, Copy, PartialEq, Eq, Structural)]
pub enum DriveDiagnosis {
    Integrated,
    Addiction,
    Allergy,
    BlindSpot,
    TensionPair,
}

/// The edge types whose drive propagates upward during aggregation.
pub open spec fn polarity_edge_types() -> Seq<Seq<char>> {
    seq!["DECOMPOSES_TO"@, "ENABLES"@, "REALIZES"@, "SUPPORTS"@, "DEPENDS_ON"@]
}

/// The edge types traversed downward from parent to child.
pub open spec fn downward_types() -> Seq<Seq<char>> {
    seq!["DECOMPOSES_TO"@, "ENABLES"@, "REALIZES"@, "SUPPORTS"@, "DEPENDS_ON"@, "CONTEXT"@, "BLOCKS"@, "CONTRADICTS"@]
}

/// The edge types traversed from child to parent but treated as downward.
pub open spec fn reversed_types() -> Seq<Seq<char>> {
    seq!["SUPPORTS"@, "ENABLES"@, "REALIZES"@]
}

pub open spec fn strs_view(v: Seq<&'static str>) -> Seq<Seq<char>> {
    v.map_values(|s: &'static str| s@)
}

/// Edge types that propagate upward during aggregation.
pub fn contributes_to_polarity(edge_type: &str) -> (b: bool)
    ensures
        b == polarity_edge_types().contains(edge_type@),
{
    let r = str_eq(edge_type, "DECOMPOSES_TO") || str_eq(edge_type, "ENABLES")
        || str_eq(edge_type, "REALIZES") || str_eq(edge_type, "SUPPORTS")
        || str_eq(edge_type, "DEPENDS_ON");
    proof {
        let p = polarity_edge_types();
        if r {
            if edge_type@ == "DECOMPOSES_TO"@ { assert(p[0] == edge_type@); }
            else if edge_type@ == "ENABLES"@ { assert(p[1] == edge_type@); }
            else if edge_type@ == "REALIZES"@ { assert(p[2] == edge_type@); }
            else if edge_type@ == "SUPPORTS"@ { assert(p[3] == edge_type@); }
            else { assert(p[4] == edge_type@); }
        } else {
            assert forall|i: int| 0 <= i < p.len() implies p[i] != edge_type@ by {
                assert(0 <= i < 5);
            }
        }
    }
    r
}

/// The (source, edge type) pairs of edges as values.
pub open spec fn pair_views(v: Seq<(String, String)>) -> Seq<(Seq<char>, Seq<char>)> {
    v.map_values(|p: (String, String)| (p.0@, p.1@))
}

/// The sources of the polarity edges among `incoming`, each once, in the
/// order they first occur: the parents that aggregation updates.
pub open spec fn polarity_parents(incoming: Seq<(Seq<char>, Seq<char>)>) -> Seq<Seq<char>>
    decreases incoming.len(),
{
    if incoming.len() == 0 {
        seq![]
    } else {
        let p = polarity_parents(incoming.drop_last());
        let e = incoming.last();
        if polarity_edge_types().contains(e.1) && !p.contains(e.0) { p.push(e.0) } else { p }
    }
}

/// The parents a node's drive aggregates into, from its incoming edges as
/// (source, edge type) pairs: the sources of polarity edges, each once, in
/// order.
pub fn aggregation_parents(incoming: &Vec<(String, String)>) -> (r: Vec<String>)
    ensures
        string_views(r@) == polarity_parents(pair_views(incoming@)),
{
    let ghost iv = pair_views(incoming@);
    let mut r: Vec<String> = Vec::new();
    let mut i: usize = 0;
    while i < incoming.len()
        invariant
            iv == pair_views(incoming@),
            i <= incoming@.len(),
            string_views(r@) == polarity_parents(iv.take(i as int)),
        decreases incoming.len() - i,
    {
        assert(iv.take(i + 1).drop_last() =~= iv.take(i as int));
        assert(iv.take(i + 1).last() == iv[i as int]);
        let (src, t) = (&incoming[i].0, &incoming[i].1);
        assert(iv[i as int] == (src@, t@));
        if contributes_to_polarity(t.as_str()) && !contains_string(&r, src.as_str()) {
            let ghost before = string_views(r@);
            r.push(owned(src.as_str()));
            assert(string_views(r@) =~= before.push(src@));
        }
        i = i + 1;
    }
    assert(iv.take(incoming.len() as int) =~= iv);
    r
}

/// Edge types that are traversed downward from parent to child.
pub fn downward_edge_types() -> (v: Vec<&'static str>)
    ensures
        strs_view(v@) == downward_types(),
{
    let mut v: Vec<&'static str> = Vec::new();
    v.push("DECOMPOSES_TO");
    v.push("ENABLES");
    v.push("REALIZES");
    v.push("SUPPORTS");
    v.push("DEPENDS_ON");
    v.push("CONTEXT");
    v.push("BLOCKS");
    v.push("CONTRADICTS");
    assert(strs_view(v@) =~= downward_types());
    v
}

/// Edge types traversed "reversed" (child→parent direction but treated as parent→child).
pub fn reversed_downward_types() -> (v: Vec<&'static str>)
    ensures
        strs_view(v@) == reversed_types(),
{
    let mut v: Vec<&'static str> = Vec::new();
    v.push("SUPPORTS");
    v.push("ENABLES");
    v.push("REALIZES");
    assert(strs_view(v@) =~= reversed_types());
    v
}

/// Edge type → (flow rate, aggregation weight), in tenths.
pub open spec fn flow_rate_of(t: Seq<char>) -> (int, int) {
    if t == "DECOMPOSES_TO"@ || t == "ENABLES"@ || t == "REALIZES"@ || t == "SUPPORTS"@ {
        (8, 8)
    } else if t == "DEPENDS_ON"@ || t == "PRECEDES"@ || t == "CONTEXT"@ {
        (6, 6)
    } else if t == "RELATES_TO"@ || t == "REFERENCES"@ || t == "MENTIONS"@ {
        (3, 3)
    } else if t == "BLOCKS"@ {
        (-5, -5)
    } else if t == "CONTRADICTS"@ {
        (-7, -7)
    } else {
        (4, 4)
    }
}

/// Edge type → (flow rate, aggregation weight), in tenths.
pub fn edge_flow_rate(edge_type: &str) -> (r: (i32, i32))
    ensures
        (r.0 as int, r.1 as int) == flow_rate_of(edge_type@),
{
    if str_eq(edge_type, "DECOMPOSES_TO") || str_eq(edge_type, "ENABLES")
        || str_eq(edge_type, "REALIZES") || str_eq(edge_type, "SUPPORTS") {
        (8, 8)
    } else if str_eq(edge_type, "DEPENDS_ON") || str_eq(edge_type, "PRECEDES") || str_eq(edge_type, "CONTEXT") {
        (6, 6)
    } else if str_eq(edge_type, "RELATES_TO") || str_eq(edge_type, "REFERENCES") || str_eq(edge_type, "MENTIONS") {
        (3, 3)
    } else if str_eq(edge_type, "BLOCKS") {
        (-5, -5)
    } else if str_eq(edge_type, "CONTRADICTS") {
        (-7, -7)
    } else {
        (4, 4)
    }
}

proof fn lemma_edge_names_distinct()
    ensures
        "BLOCKS"@.len() == 6,
        "CONTRADICTS"@.len() == 11,
        "DECOMPOSES_TO"@.len() == 13,
        "ENABLES"@.len() == 7 && "ENABLES"@[0] == 'E',
        "CONTEXT"@.len() == 7 && "CONTEXT"@[0] == 'C',
        "REALIZES"@.len() == 8 && "REALIZES"@[0] == 'R',
        "SUPPORTS"@.len() == 8 && "SUPPORTS"@[0] == 'S',
        "PRECEDES"@.len() == 8 && "PRECEDES"@[0] == 'P',
        "MENTIONS"@.len() == 8 && "MENTIONS"@[0] == 'M',
        "DEPENDS_ON"@.len() == 10 && "DEPENDS_ON"@[0] == 'D',
        "RELATES_TO"@.len() == 10 && "RELATES_TO"@[0] == 'R' && "RELATES_TO"@[2] == 'L',
        "REFERENCES"@.len() == 10 && "REFERENCES"@[0] == 'R' && "REFERENCES"@[2] == 'F',
{
    reveal_strlit("BLOCKS");
    reveal_strlit("CONTRADICTS");
    reveal_strlit("DECOMPOSES_TO");
    reveal_strlit("ENABLES");
    reveal_strlit("REALIZES");
    reveal_strlit("SUPPORTS");
    reveal_strlit("DEPENDS_ON");
    reveal_strlit("PRECEDES");
    reveal_strlit("CONTEXT");
    reveal_strlit("RELATES_TO");
    reveal_strlit("REFERENCES");
    reveal_strlit("MENTIONS");
}

/// Only blocking and contradicting edges carry drive backward: every other
/// edge type, named or not, carries it forward. The rates, in tenths:
/// 8 along DECOMPOSES_TO, ENABLES, REALIZES and SUPPORTS; 6 along
/// DEPENDS_ON, PRECEDES and CONTEXT; 3 along RELATES_TO, REFERENCES and
/// MENTIONS; -5 along BLOCKS; -7 along CONTRADICTS; 4 along any other type.
pub proof fn lemma_flow_rate_table(t: Seq<char>)
    ensures
        flow_rate_of(t).0 < 0 <==> (t == "BLOCKS"@ || t == "CONTRADICTS"@),
        flow_rate_of("DECOMPOSES_TO"@) == (8int, 8int),
        flow_rate_of("ENABLES"@) == (8int, 8int),
        flow_rate_of("REALIZES"@) == (8int, 8int),
        flow_rate_of("SUPPORTS"@) == (8int, 8int),
        flow_rate_of("DEPENDS_ON"@) == (6int, 6int),
        flow_rate_of("PRECEDES"@) == (6int, 6int),
        flow_rate_of("CONTEXT"@) == (6int, 6int),
        flow_rate_of("RELATES_TO"@) == (3int, 3int),
        flow_rate_of("REFERENCES"@) == (3int, 3int),
        flow_rate_of("MENTIONS"@) == (3int, 3int),
        flow_rate_of("BLOCKS"@) == (-5int, -5int),
        flow_rate_of("CONTRADICTS"@) == (-7int, -7int),
        (t != "DECOMPOSES_TO"@ && t != "ENABLES"@ && t != "REALIZES"@ && t != "SUPPORTS"@
            && t != "DEPENDS_ON"@ && t != "PRECEDES"@ && t != "CONTEXT"@
            && t != "RELATES_TO"@ && t != "REFERENCES"@ && t != "MENTIONS"@
            && t != "BLOCKS"@ && t != "CONTRADICTS"@) ==> flow_rate_of(t) == (4int, 4int),
{
    lemma_edge_names_distinct();
}

/// Every edge type that carries polarity upward is also traversed downward,
/// and carries drive forward with a positive rate; blocking and
/// contradicting edges carry it backward, contradiction more strongly.
pub proof fn lemma_edge_contracts(t: Seq<char>)
    ensures
        polarity_edge_types().contains(t) ==> downward_types().contains(t) && flow_rate_of(t).0 > 0,
        reversed_types().contains(t) ==> polarity_edge_types().contains(t),
        flow_rate_of("BLOCKS"@).0 < 0,
        flow_rate_of("CONTRADICTS"@).0 < flow_rate_of("BLOCKS"@).0,
        flow_rate_of(t).0 == flow_rate_of(t).1,
{
    reveal_strlit("BLOCKS");
    reveal_strlit("CONTRADICTS");
    reveal_strlit("DECOMPOSES_TO");
    reveal_strlit("ENABLES");
    reveal_strlit("REALIZES");
    reveal_strlit("SUPPORTS");
    reveal_strlit("DEPENDS_ON");
    reveal_strlit("PRECEDES");
    reveal_strlit("CONTEXT");
    reveal_strlit("RELATES_TO");
    reveal_strlit("REFERENCES");
    reveal_strlit("MENTIONS");
    assert("BLOCKS"@.len() == 6);
    assert("CONTRADICTS"@.len() == 11);
    assert("DECOMPOSES_TO"@.len() == 13);
    assert("ENABLES"@.len() == 7);
    assert("REALIZES"@.len() == 8);
    assert("SUPPORTS"@.len() == 8);
    assert("DEPENDS_ON"@.len() == 10);
    assert("PRECEDES"@.len() == 8);
    assert("CONTEXT"@.len() == 7);
    assert("RELATES_TO"@.len() == 10);
    assert("REFERENCES"@.len() == 10);
    assert("MENTIONS"@.len() == 8);
    let p = polarity_edge_types();
    let d = downward_types();
    let r = reversed_types();
    if p.contains(t) {
        let i = choose|i: int| 0 <= i < p.len() && p[i] == t;
        assert(0 <= i < 5);
        assert(d[i] == p[i]);
        if t == "DEPENDS_ON"@ {
            assert(t != "DECOMPOSES_TO"@);
            assert(t != "ENABLES"@);
            assert(t != "REALIZES"@);
            assert(t != "SUPPORTS"@);
        }
    }
    if r.contains(t) {
        let i = choose|i: int| 0 <= i < r.len() && r[i] == t;
        assert(0 <= i < 3);
        if i == 0 { assert(p[3] == t); } else if i == 1 { assert(p[1] == t); } else { assert(p[2] == t); }
    }
    assert("CONTRADICTS"@ != "BLOCKS"@);
    assert("BLOCKS"@ != "DECOMPOSES_TO"@ && "BLOCKS"@ != "ENABLES"@ && "BLOCKS"@ != "REALIZES"@
        && "BLOCKS"@ != "SUPPORTS"@ && "BLOCKS"@ != "DEPENDS_ON"@ && "BLOCKS"@ != "PRECEDES"@
        && "BLOCKS"@ != "CONTEXT"@ && "BLOCKS"@ != "RELATES_TO"@ && "BLOCKS"@ != "REFERENCES"@
        && "BLOCKS"@ != "MENTIONS"@);
    assert("CONTRADICTS"@ != "DECOMPOSES_TO"@ && "CONTRADICTS"@ != "ENABLES"@ && "CONTRADICTS"@ != "REALIZES"@
        && "CONTRADICTS"@ != "SUPPORTS"@ && "CONTRADICTS"@ != "DEPENDS_ON"@ && "CONTRADICTS"@ != "PRECEDES"@
        && "CONTRADICTS"@ != "CONTEXT"@ && "CONTRADICTS"@ != "RELATES_TO"@ && "CONTRADICTS"@ != "REFERENCES"@
        && "CONTRADICTS"@ != "MENTIONS"@);
}

/// Intrinsic drive signature of a node type: (positive, negative) pole of
/// each of the four drives, in tenths.
#[derive(Debug, Clone, Copy, PartialEq, Eq)]
pub struct IntrinsicSig {
    pub eros: (u32, u32),
    pub agape: (u32, u32),
    pub agency: (u32, u32),
    pub communion: (u32, u32),
}

/// The intrinsic signature table, by node type.
pub open spec fn intrinsic_table() -> Seq<(Seq<char>, IntrinsicSig)> {
    seq![
        ("telos"@, IntrinsicSig { eros: (60, 20), agape: (50, 20), agency: (60, 20), communion: (50, 20) }),
        ("action"@, IntrinsicSig { eros: (70, 20), agape: (40, 10), agency: (70, 20), communion: (40, 10) }),
        ("capability"@, IntrinsicSig { eros: (50, 10), agape: (50, 10), agency: (60, 20), communion: (50, 20) }),
        ("question"@, IntrinsicSig { eros: (90, 20), agape: (20, 10), agency: (30, 10), communion: (40, 20) }),
        ("observation"@, IntrinsicSig { eros: (40, 10), agape: (30, 10), agency: (30, 10), communion: (40, 10) }),
        ("hypothesis"@, IntrinsicSig { eros: (60, 20), agape: (30, 10), agency: (50, 20), communion: (40, 20) }),
        ("constraint"@, IntrinsicSig { eros: (30, 10), agape: (50, 20), agency: (40, 10), communion: (50, 20) }),
        ("discovery"@, IntrinsicSig { eros: (80, 20), agape: (30, 10), agency: (50, 20), communion: (30, 10) }),
        ("project"@, IntrinsicSig { eros: (50, 20), agape: (40, 10), agency: (60, 20), communion: (50, 20) }),
        ("trajectory"@, IntrinsicSig { eros: (50, 10), agape: (40, 10), agency: (50, 10), communion: (50, 10) }),
        ("synthesis"@, IntrinsicSig { eros: (60, 20), agape: (60, 20), agency: (50, 20), communion: (60, 20) }),
        ("skill"@, IntrinsicSig { eros: (50, 10), agape: (40, 10), agency: (60, 10), communion: (40, 10) }),
        ("people"@, IntrinsicSig { eros: (40, 10), agape: (60, 20), agency: (30, 10), communion: (70, 20) }),
        ("artifact"@, IntrinsicSig { eros: (30, 10), agape: (30, 10), agency: (50, 20), communion: (30, 10) }),
        ("being"@, IntrinsicSig { eros: (50, 20), agape: (50, 20), agency: (50, 20), communion: (60, 20) }),
        ("communication"@, IntrinsicSig { eros: (40, 10), agape: (60, 20), agency: (30, 10), communion: (70, 20) }),
        ("event"@, IntrinsicSig { eros: (40, 10), agape: (30, 10), agency: (40, 10), communion: (40, 10) }),
        ("insight"@, IntrinsicSig { eros: (80, 20), agape: (40, 10), agency: (50, 20), communion: (40, 20) }),
        ("value"@, IntrinsicSig { eros: (25, 10), agape: (30, 15), agency: (40, 10), communion: (35, 15) }),
        ("bond"@, IntrinsicSig { eros: (30, 15), agape: (50, 10), agency: (30, 10), communion: (60, 15) }),
        ("narrative"@, IntrinsicSig { eros: (60, 20), agape: (40, 15), agency: (50, 20), communion: (50, 15) })
    ]
}

/// Each drive of a signature leans positive: its positive pole exceeds its
/// negative pole.
pub open spec fn pole_positive(sig: IntrinsicSig) -> bool {
    &&& sig.eros.0 > sig.eros.1
    &&& sig.agape.0 > sig.agape.1
    &&& sig.agency.0 > sig.agency.1
    &&& sig.communion.0 > sig.communion.1
}

/// Every intrinsic signature leans positive in all four drives, so a node of
/// any listed type starts with a positive net drive.
pub proof fn lemma_signatures_lean_positive()
    ensures
        forall|i: int| 0 <= i < intrinsic_table().len() ==> pole_positive(#[trigger] intrinsic_table()[i].1),
{
    let t = intrinsic_table();
    assert(t.len() == 21);
    assert(pole_positive(t[0].1));
    assert(pole_positive(t[1].1));
    assert(pole_positive(t[2].1));
    assert(pole_positive(t[3].1));
    assert(pole_positive(t[4].1));
    assert(pole_positive(t[5].1));
    assert(pole_positive(t[6].1));
    assert(pole_positive(t[7].1));
    assert(pole_positive(t[8].1));
    assert(pole_positive(t[9].1));
    assert(pole_positive(t[10].1));
    assert(pole_positive(t[11].1));
    assert(pole_positive(t[12].1));
    assert(pole_positive(t[13].1));
    assert(pole_positive(t[14].1));
    assert(pole_positive(t[15].1));
    assert(pole_positive(t[16].1));
    assert(pole_positive(t[17].1));
    assert(pole_positive(t[18].1));
    assert(pole_positive(t[19].1));
    assert(pole_positive(t[20].1));
    assert forall|i: int| 0 <= i < t.len() implies pole_positive(#[trigger] t[i].1) by {
        assert(0 <= i < 21);
    }
}

/// The entry of the first row of a keyed table whose key is `k`.
pub open spec fn lookup<V>(t: Seq<(Seq<char>, V)>, k: Seq<char>) -> Option<V>
    decreases t.len(),
{
    if t.len() == 0 {
        None
    } else if t[0].0 == k {
        Some(t[0].1)
    } else {
        lookup(t.drop_first(), k)
    }
}

pub open spec fn keyed_view<V>(v: Seq<(&'static str, V)>) -> Seq<(Seq<char>, V)> {
    v.map_values(|e: (&'static str, V)| (e.0@, e.1))
}

/// Returns the intrinsic drive signatures for each node type.
pub fn intrinsic_signatures() -> (t: Vec<(&'static str, IntrinsicSig)>)
    ensures
        keyed_view(t@) == intrinsic_table(),
{
    let mut t: Vec<(&'static str, IntrinsicSig)> = Vec::new();
    t.push(("telos", IntrinsicSig { eros: (60, 20), agape: (50, 20), agency: (60, 20), communion: (50, 20) }));
    t.push(("action", IntrinsicSig { eros: (70, 20), agape: (40, 10), agency: (70, 20), communion: (40, 10) }));
    t.push(("capability", IntrinsicSig { eros: (50, 10), agape: (50, 10), agency: (60, 20), communion: (50, 20) }));
    t.push(("question", IntrinsicSig { eros: (90, 20), agape: (20, 10), agency: (30, 10), communion: (40, 20) }));
    t.push(("observation", IntrinsicSig { eros: (40, 10), agape: (30, 10), agency: (30, 10), communion: (40, 10) }));
    t.push(("hypothesis", IntrinsicSig { eros: (60, 20), agape: (30, 10), agency: (50, 20), communion: (40, 20) }));
    t.push(("constraint", IntrinsicSig { eros: (30, 10), agape: (50, 20), agency: (40, 10), communion: (50, 20) }));
    t.push(("discovery", IntrinsicSig { eros: (80, 20), agape: (30, 10), agency: (50, 20), communion: (30, 10) }));
    t.push(("project", IntrinsicSig { eros: (50, 20), agape: (40, 10), agency: (60, 20), communion: (50, 20) }));
    t.push(("trajectory", IntrinsicSig { eros: (50, 10), agape: (40, 10), agency: (50, 10), communion: (50, 10) }));
    t.push(("synthesis", IntrinsicSig { eros: (60, 20), agape: (60, 20), agency: (50, 20), communion: (60, 20) }));
    t.push(("skill", IntrinsicSig { eros: (50, 10), agape: (40, 10), agency: (60, 10), communion: (40, 10) }));
    t.push(("people", IntrinsicSig { eros: (40, 10), agape: (60, 20), agency: (30, 10), communion: (70, 20) }));
    t.push(("artifact", IntrinsicSig { eros: (30, 10), agape: (30, 10), agency: (50, 20), communion: (30, 10) }));
    t.push(("being", IntrinsicSig { eros: (50, 20), agape: (50, 20), agency: (50, 20), communion: (60, 20) }));
    t.push(("communication", IntrinsicSig { eros: (40, 10), agape: (60, 20), agency: (30, 10), communion: (70, 20) }));
    t.push(("event", IntrinsicSig { eros: (40, 10), agape: (30, 10), agency: (40, 10), communion: (40, 10) }));
    t.push(("insight", IntrinsicSig { eros: (80, 20), agape: (40, 10), agency: (50, 20), communion: (40, 20) }));
    t.push(("value", IntrinsicSig { eros: (25, 10), agape: (30, 15), agency: (40, 10), communion: (35, 15) }));
    t.push(("bond", IntrinsicSig { eros: (30, 15), agape: (50, 10), agency: (30, 10), communion: (60, 15) }));
    t.push(("narrative", IntrinsicSig { eros: (60, 20), agape: (40, 15), agency: (50, 20), communion: (50, 15) }));
    assert(keyed_view(t@) =~= intrinsic_table());
    t
}

/// The intrinsic signature of a node type, if it has one.
pub fn intrinsic_signature(node_type: &str) -> (r: Option<IntrinsicSig>)
    ensures
        r == lookup(intrinsic_table(), node_type@),
{
    let t = intrinsic_signatures();
    assert(keyed_view(t@).skip(0) =~= keyed_view(t@));
    let mut i: usize = 0;
    while i < t.len()
        invariant
            keyed_view(t@) == intrinsic_table(),
            i <= t@.len(),
            lookup(intrinsic_table(), node_type@) == lookup(keyed_view(t@).skip(i as int), node_type@),
        decreases t.len() - i,
    {
        let ghost rest = keyed_view(t@).skip(i as int);
        assert(rest[0] == (t@[i as int].0@, t@[i as int].1));
        if str_eq(t[i].0, node_type) {
            return Some(t[i].1);
        }
        assert(rest.drop_first() =~= keyed_view(t@).skip(i + 1));
        i = i + 1;
    }
    None
}

/// The quadrant modulators: quadrant, drive and multiplier in hundredths.
pub open spec fn modulator_table() -> Seq<(Seq<char>, Seq<char>, nat)> {
    seq![
        ("UL"@, "eros"@, 30nat),
        ("UL"@, "agape"@, 70nat),
        ("UL"@, "agency"@, 60nat),
        ("UL"@, "communion"@, 20nat),
        ("UR"@, "eros"@, 40nat),
        ("UR"@, "agape"@, 15nat),
        ("UR"@, "agency"@, 85nat),
        ("UR"@, "communion"@, 10nat),
        ("LL"@, "eros"@, 40nat),
        ("LL"@, "agape"@, 50nat),
        ("LL"@, "agency"@, 25nat),
        ("LL"@, "communion"@, 70nat),
        ("LR"@, "eros"@, 65nat),
        ("LR"@, "agape"@, 15nat),
        ("LR"@, "agency"@, 45nat),
        ("LR"@, "communion"@, 30nat)
    ]
}

/// The multiplier of `drive` in `quadrant`, from the first matching row.
pub open spec fn modulator_lookup(t: Seq<(Seq<char>, Seq<char>, nat)>, q: Seq<char>, d: Seq<char>) -> Option<nat>
    decreases t.len(),
{
    if t.len() == 0 {
        None
    } else if t[0].0 == q && t[0].1 == d {
        Some(t[0].2)
    } else {
        modulator_lookup(t.drop_first(), q, d)
    }
}

pub open spec fn modulator_view(v: Seq<(&'static str, &'static str, u32)>) -> Seq<(Seq<char>, Seq<char>, nat)> {
    v.map_values(|e: (&'static str, &'static str, u32)| (e.0@, e.1@, e.2 as nat))
}

/// Quadrant-based multipliers for intrinsic drive modulation, in hundredths.
/// Quadrants: "UL", "UR", "LL", "LR"; drives: eros, agape, agency, communion.
pub fn quadrant_modulators() -> (t: Vec<(&'static str, &'static str, u32)>)
    ensures
        modulator_view(t@) == modulator_table(),
{
    let mut t: Vec<(&'static str, &'static str, u32)> = Vec::new();
    t.push(("UL", "eros", 30u32));
    t.push(("UL", "agape", 70u32));
    t.push(("UL", "agency", 60u32));
    t.push(("UL", "communion", 20u32));
    t.push(("UR", "eros", 40u32));
    t.push(("UR", "agape", 15u32));
    t.push(("UR", "agency", 85u32));
    t.push(("UR", "communion", 10u32));
    t.push(("LL", "eros", 40u32));
    t.push(("LL", "agape", 50u32));
    t.push(("LL", "agency", 25u32));
    t.push(("LL", "communion", 70u32));
    t.push(("LR", "eros", 65u32));
    t.push(("LR", "agape", 15u32));
    t.push(("LR", "agency", 45u32));
    t.push(("LR", "communion", 30u32));
    assert(modulator_view(t@) =~= modulator_table());
    t
}

/// The multiplier (in hundredths) of a drive in a quadrant, if any.
pub fn quadrant_modulator(quadrant: &str, drive: &str) -> (r: Option<u32>)
    ensures
        match r {
            Some(m) => modulator_lookup(modulator_table(), quadrant@, drive@) == Some(m as nat),
            None => modulator_lookup(modulator_table(), quadrant@, drive@) is None,
        },
{
    let t = quadrant_modulators();
    assert(modulator_view(t@).skip(0) =~= modulator_view(t@));
    let mut i: usize = 0;
    while i < t.len()
        invariant
            modulator_view(t@) == modulator_table(),
            i <= t@.len(),
            modulator_lookup(modulator_table(), quadrant@, drive@)
                == modulator_lookup(modulator_view(t@).skip(i as int), quadrant@, drive@),
        decreases t.len() - i,
    {
        let ghost rest = modulator_view(t@).skip(i as int);
        assert(rest[0] == (t@[i as int].0@, t@[i as int].1@, t@[i as int].2 as nat));
        if str_eq(t[i].0, quadrant) && str_eq(t[i].1, drive) {
            return Some(t[i].2);
        }
        assert(rest.drop_first() =~= modulator_view(t@).skip(i + 1));
        i = i + 1;
    }
    None
}

} // verus!
