//! Digestion: the upward cascade that turns observations sharing a source
//! entity into a hypothesis about that entity.

use vstd::prelude::*;

use crate::grammar::{catalyst_name, first_keys, lemma_first_keys, CatalystType};
use crate::text::{chars_of, contains_string, dec_str, owned, push_decimal, push_str, string_views, substring};

verus! {

/// Observations sharing a source this many times give rise to a hypothesis.
pub const MIN_SIMILAR_FOR_HYPOTHESIS: usize = 3;

/// An observation and the nodes its MENTIONS and EVIDENCES edges point to,
/// in the order they were read (an entity may appear under both kinds).
#[derive(Debug, Clone)]
pub struct ObservationLinks {
    pub observation_id: String,
    pub targets: Vec<String>,
}

/// A source entity and the observations that point to it.
#[derive(Debug, Clone)]
pub struct SourceGroup {
    pub source_id: String,
    pub observation_ids: Vec<String>,
}

/// An observation's links as a mathematical value.
pub open spec fn link_view(l: ObservationLinks) -> (Seq<char>, Seq<Seq<char>>) {
    (l.observation_id@, string_views(l.targets@))
}

pub open spec fn link_views(ls: Seq<ObservationLinks>) -> Seq<(Seq<char>, Seq<Seq<char>>)> {
    ls.map_values(|l: ObservationLinks| link_view(l))
}

/// Every target, observation after observation.
pub open spec fn all_targets(ls: Seq<(Seq<char>, Seq<Seq<char>>)>) -> Seq<Seq<char>>
    decreases ls.len(),
{
    if ls.len() == 0 {
        seq![]
    } else {
        all_targets(ls.drop_last()) + ls.last().1
    }
}

/// The observations that point to `source`, each once, in order.
pub open spec fn observers_of(ls: Seq<(Seq<char>, Seq<Seq<char>>)>, source: Seq<char>) -> Seq<Seq<char>>
    decreases ls.len(),
{
    if ls.len() == 0 {
        seq![]
    } else {
        let p = observers_of(ls.drop_last(), source);
        if ls.last().1.contains(source) { p.push(ls.last().0) } else { p }
    }
}

/// The sources at least three observations point to, in the order they are
/// first met, each with its observations.
pub open spec fn cascade_groups_of(ls: Seq<(Seq<char>, Seq<Seq<char>>)>) -> Seq<(Seq<char>, Seq<Seq<char>>)> {
    first_keys(all_targets(ls))
        .filter(|s: Seq<char>| observers_of(ls, s).len() >= 3)
        .map_values(|s: Seq<char>| (s, observers_of(ls, s)))
}

pub open spec fn source_group_views(gs: Seq<SourceGroup>) -> Seq<(Seq<char>, Seq<Seq<char>>)> {
    gs.map_values(|g: SourceGroup| (g.source_id@, string_views(g.observation_ids@)))
}

/// The sources that at least three observations point to, with those
/// observations: an observation counts once for a source however many of
/// its edges reach it. Sources come in the order they are first met.
pub fn cascade_groups(links: &Vec<ObservationLinks>) -> (r: Vec<SourceGroup>)
    ensures
        source_group_views(r@) == cascade_groups_of(link_views(links@)),
{
    let ghost lv = link_views(links@);
    // The distinct sources, in order of first appearance.
    let mut distinct: Vec<String> = Vec::new();
    let mut i: usize = 0;
    while i < links.len()
        invariant
            lv == link_views(links@),
            i <= links@.len(),
            string_views(distinct@) == first_keys(all_targets(lv.take(i as int))),
        decreases links.len() - i,
    {
        let ts = &links[i].targets;
        let ghost before = all_targets(lv.take(i as int));
        assert(lv.take(i + 1).drop_last() =~= lv.take(i as int));
        assert(lv[i as int].1 == string_views(ts@));
        let mut j: usize = 0;
        while j < ts.len()
            invariant
                lv == link_views(links@),
                i < links@.len(),
                *ts == links@[i as int].targets,
                j <= ts@.len(),
                string_views(distinct@) == first_keys(before + string_views(ts@).take(j as int)),
            decreases ts.len() - j,
        {
            let ghost cur = before + string_views(ts@).take(j as int);
            assert(before + string_views(ts@).take(j + 1) =~= cur.push(ts@[j as int]@));
            assert(cur.push(ts@[j as int]@).drop_last() =~= cur);
            if !contains_string(&distinct, ts[j].as_str()) {
                let ghost dv = string_views(distinct@);
                distinct.push(owned(ts[j].as_str()));
                assert(string_views(distinct@) =~= dv.push(ts@[j as int]@));
            }
            j = j + 1;
        }
        assert(string_views(ts@).take(ts.len() as int) =~= string_views(ts@));
        assert(all_targets(lv.take(i + 1)) == before + lv[i as int].1);
        i = i + 1;
    }
    assert(lv.take(links.len() as int) =~= lv);
    let ghost fk = first_keys(all_targets(lv));
    let ghost keep = |s: Seq<char>| observers_of(lv, s).len() >= 3;
    let ghost mk = |s: Seq<char>| (s, observers_of(lv, s));
    // The groups of the sources met at least three times.
    let mut groups: Vec<SourceGroup> = Vec::new();
    let mut k: usize = 0;
    while k < distinct.len()
        invariant
            lv == link_views(links@),
            string_views(distinct@) == fk,
            k <= distinct@.len(),
            keep == (|s: Seq<char>| observers_of(lv, s).len() >= 3),
            mk == (|s: Seq<char>| (s, observers_of(lv, s))),
            source_group_views(groups@) == fk.take(k as int).filter(keep).map_values(mk),
        decreases distinct.len() - k,
    {
        let src = &distinct[k];
        let ghost sk = fk[k as int];
        assert(string_views(distinct@)[k as int] == src@);
        let mut ids: Vec<String> = Vec::new();
        let mut i: usize = 0;
        while i < links.len()
            invariant
                lv == link_views(links@),
                src@ == sk,
                i <= links@.len(),
                string_views(ids@) == observers_of(lv.take(i as int), sk),
            decreases links.len() - i,
        {
            assert(lv.take(i + 1).drop_last() =~= lv.take(i as int));
            assert(lv.take(i + 1).last() == lv[i as int]);
            assert(lv[i as int] == link_view(links@[i as int]));
            if contains_string(&links[i].targets, src.as_str()) {
                let ghost before = string_views(ids@);
                ids.push(owned(links[i].observation_id.as_str()));
                assert(string_views(ids@) =~= before.push(links@[i as int].observation_id@));
            }
            i = i + 1;
        }
        assert(lv.take(links.len() as int) =~= lv);
        reveal_with_fuel(Seq::filter, 1);
        assert(fk.take(k + 1).drop_last() =~= fk.take(k as int));
        assert(fk.take(k + 1).last() == sk);
        if ids.len() >= MIN_SIMILAR_FOR_HYPOTHESIS {
            let ghost before = source_group_views(groups@);
            groups.push(SourceGroup { source_id: owned(src.as_str()), observation_ids: ids });
            assert(fk.take(k + 1).filter(keep) == fk.take(k as int).filter(keep).push(sk));
            assert(source_group_views(groups@) =~= before.push(mk(sk)));
            assert(fk.take(k as int).filter(keep).push(sk).map_values(mk)
                =~= fk.take(k as int).filter(keep).map_values(mk).push(mk(sk)));
        } else {
            assert(fk.take(k + 1).filter(keep) == fk.take(k as int).filter(keep));
        }
        k = k + 1;
    }
    assert(fk.take(distinct.len() as int) =~= fk);
    groups
}

/// The name of the hypothesis a source group gives rise to.
pub open spec fn cascade_name_of(count: nat) -> Seq<char> {
    "Hypothesis from "@ + dec_str(count) + " observations"@
}

/// The description of the hypothesis a source group gives rise to.
pub open spec fn cascade_description_of(count: nat, source: Seq<char>) -> Seq<char> {
    "Pattern detected: "@ + dec_str(count) + " observations mention entity "@ + source
}

/// The name of the hypothesis inferred from a source group.
pub fn cascade_hypothesis_name(group: &SourceGroup) -> (n: String)
    ensures
        n@ == cascade_name_of(group.observation_ids@.len()),
{
    let mut n = owned("Hypothesis from ");
    push_decimal(&mut n, group.observation_ids.len() as u64);
    push_str(&mut n, " observations");
    n
}

/// The description of the hypothesis inferred from a source group.
pub fn cascade_hypothesis_description(group: &SourceGroup) -> (d: String)
    ensures
        d@ == cascade_description_of(group.observation_ids@.len(), group.source_id@),
{
    let mut d = owned("Pattern detected: ");
    push_decimal(&mut d, group.observation_ids.len() as u64);
    push_str(&mut d, " observations mention entity ");
    push_str(&mut d, group.source_id.as_str());
    d
}

/// The name of the hypothesis a digestion cycle infers from a catalyst
/// group: how many observations, then the catalyst type with an "s".
pub open spec fn cycle_name_of(count: nat, catalyst: Seq<char>) -> Seq<char> {
    "Hypothesis: "@ + dec_str(count) + " "@ + catalyst + "s"@
}

/// The description of the hypothesis a digestion cycle infers.
pub open spec fn cycle_description_of(count: nat, catalyst: Seq<char>) -> Seq<char> {
    "Pattern: "@ + dec_str(count) + " observations of type "@ + catalyst
}

/// The name of the hypothesis a digestion cycle infers from the
/// observations of one catalyst type (the group's key).
pub fn cycle_hypothesis_name(group: &SourceGroup) -> (n: String)
    ensures
        n@ == cycle_name_of(group.observation_ids@.len(), group.source_id@),
{
    let mut n = owned("Hypothesis: ");
    push_decimal(&mut n, group.observation_ids.len() as u64);
    push_str(&mut n, " ");
    push_str(&mut n, group.source_id.as_str());
    push_str(&mut n, "s");
    n
}

/// The description of the hypothesis a digestion cycle infers.
pub fn cycle_hypothesis_description(group: &SourceGroup) -> (d: String)
    ensures
        d@ == cycle_description_of(group.observation_ids@.len(), group.source_id@),
{
    let mut d = owned("Pattern: ");
    push_decimal(&mut d, group.observation_ids.len() as u64);
    push_str(&mut d, " observations of type ");
    push_str(&mut d, group.source_id.as_str());
    d
}

/// The name of the observation a digested catalyst becomes: the catalyst
/// type, " observation: ", and the first fifty characters of the
/// description.
pub open spec fn digest_name_of(catalyst: CatalystType, description: Seq<char>) -> Seq<char> {
    catalyst_name(catalyst) + " observation: "@
        + (if description.len() <= 50 { description } else { description.take(50) })
}

/// The name of the observation a digested catalyst becomes.
pub fn digest_observation_name(catalyst: CatalystType, description: &str) -> (n: String)
    ensures
        n@ == digest_name_of(catalyst, description@),
{
    let mut n = owned(catalyst.as_str());
    push_str(&mut n, " observation: ");
    let v = chars_of(description);
    if v.len() <= 50 {
        push_str(&mut n, description);
    } else {
        let head = substring(&v, 0, 50);
        push_str(&mut n, head.as_str());
    }
    n
}

/// The `LIKE` pattern that finds an earlier cascade hypothesis about a
/// source in the stored properties.
pub fn existing_hypothesis_pattern(source_id: &str) -> (p: String)
    ensures
        p@ == "%\"source_node\": \""@ + source_id@ + "\"%"@,
{
    let mut p = owned("%\"source_node\": \"");
    push_str(&mut p, source_id);
    push_str(&mut p, "\"%");
    p
}

/// A source has at most as many observers as there are observations, and
/// each observer counted points to it.
pub proof fn lemma_observers_bounded(ls: Seq<(Seq<char>, Seq<Seq<char>>)>, s: Seq<char>)
    ensures
        observers_of(ls, s).len() <= ls.len(),
        forall|i: int| #![trigger observers_of(ls, s)[i]] 0 <= i < observers_of(ls, s).len()
            ==> exists|j: int| #![trigger ls[j]] 0 <= j < ls.len() && ls[j].1.contains(s) && ls[j].0 == observers_of(ls, s)[i],
    decreases ls.len(),
{
    if ls.len() > 0 {
        let r = ls.drop_last();
        lemma_observers_bounded(r, s);
        let p = observers_of(r, s);
        assert forall|i: int| #![trigger observers_of(ls, s)[i]] 0 <= i < observers_of(ls, s).len()
            implies exists|j: int| #![trigger ls[j]] 0 <= j < ls.len() && ls[j].1.contains(s) && ls[j].0 == observers_of(ls, s)[i] by {
            if i < p.len() {
                assert(observers_of(ls, s)[i] == p[i]);
                let j = choose|j: int| 0 <= j < r.len() && r[j].1.contains(s) && r[j].0 == p[i];
                assert(ls[j] == r[j]);
            } else {
                assert(ls[ls.len() - 1] == ls.last());
            }
        }
    }
}

proof fn lemma_observers_complete(ls: Seq<(Seq<char>, Seq<Seq<char>>)>, s: Seq<char>, j: int)
    requires
        0 <= j < ls.len(),
        ls[j].1.contains(s),
    ensures
        observers_of(ls, s).contains(ls[j].0),
    decreases ls.len(),
{
    let r = ls.drop_last();
    if j == ls.len() - 1 {
        let p = observers_of(r, s);
        assert(observers_of(ls, s)[p.len() as int] == ls[j].0);
    } else {
        assert(r[j] == ls[j]);
        lemma_observers_complete(r, s, j);
        let p = observers_of(r, s);
        let i = choose|i: int| 0 <= i < p.len() && p[i] == ls[j].0;
        assert(observers_of(ls, s)[i] == ls[j].0);
    }
}

proof fn lemma_target_met(ls: Seq<(Seq<char>, Seq<Seq<char>>)>, j: int, s: Seq<char>)
    requires
        0 <= j < ls.len(),
        ls[j].1.contains(s),
    ensures
        all_targets(ls).contains(s),
    decreases ls.len(),
{
    let r = ls.drop_last();
    let t = ls.last().1;
    assert(all_targets(ls) == all_targets(r) + t);
    if j == ls.len() - 1 {
        let k = choose|k: int| 0 <= k < t.len() && t[k] == s;
        assert(all_targets(ls)[all_targets(r).len() + k] == s);
    } else {
        assert(r[j] == ls[j]);
        lemma_target_met(r, j, s);
        let k = choose|k: int| 0 <= k < all_targets(r).len() && all_targets(r)[k] == s;
        assert(all_targets(ls)[k] == s);
    }
}

/// The cascade's groups partition the links it acts on: each group lists
/// exactly the observations pointing to its source, every one of them
/// pointing to it, at least three; no source has two groups; and every
/// source that at least three observations point to has a group, in which
/// each of those observations appears.
pub proof fn lemma_cascade_groups_partition(ls: Seq<(Seq<char>, Seq<Seq<char>>)>)
    ensures
        forall|g: int| 0 <= g < cascade_groups_of(ls).len()
            ==> (#[trigger] cascade_groups_of(ls)[g]).1 == observers_of(ls, cascade_groups_of(ls)[g].0)
                && cascade_groups_of(ls)[g].1.len() >= 3,
        forall|g: int, h: int| 0 <= g < h < cascade_groups_of(ls).len()
            ==> (#[trigger] cascade_groups_of(ls)[g]).0 != (#[trigger] cascade_groups_of(ls)[h]).0,
        forall|s: Seq<char>, j: int| #![trigger ls[j].1.contains(s)]
            observers_of(ls, s).len() >= 3 && 0 <= j < ls.len() && ls[j].1.contains(s)
            ==> exists|g: int| #![trigger cascade_groups_of(ls)[g]] 0 <= g < cascade_groups_of(ls).len()
                && cascade_groups_of(ls)[g].0 == s
                && cascade_groups_of(ls)[g].1.contains(ls[j].0),
{
    broadcast use vstd::seq_lib::group_filter_ensures;
    let keep = |s: Seq<char>| observers_of(ls, s).len() >= 3;
    let mk = |s: Seq<char>| (s, observers_of(ls, s));
    let fk = first_keys(all_targets(ls));
    lemma_first_keys(all_targets(ls));
    let f = fk.filter(keep);
    let cg = cascade_groups_of(ls);
    assert(cg == f.map_values(mk));
    assert forall|g: int| 0 <= g < cg.len() implies
        (#[trigger] cg[g]).1 == observers_of(ls, cg[g].0) && cg[g].1.len() >= 3 by {
        assert(cg[g] == mk(f[g]));
        assert(keep(f[g]));
    }
    crate::grammar::lemma_filter_keeps_distinct(fk, keep);
    assert forall|g: int, h: int| 0 <= g < h < cg.len() implies
        (#[trigger] cg[g]).0 != (#[trigger] cg[h]).0 by {
        assert(cg[g].0 == f[g]);
        assert(cg[h].0 == f[h]);
    }
    assert forall|s: Seq<char>, j: int| #![trigger ls[j].1.contains(s)]
        observers_of(ls, s).len() >= 3 && 0 <= j < ls.len() && ls[j].1.contains(s)
        implies exists|g: int| #![trigger cg[g]] 0 <= g < cg.len() && cg[g].0 == s && cg[g].1.contains(ls[j].0) by {
        lemma_target_met(ls, j, s);
        assert(fk.contains(s));
        let i = choose|i: int| 0 <= i < fk.len() && fk[i] == s;
        assert(keep(fk[i]));
        assert(f.contains(fk[i]));
        let g = choose|g: int| 0 <= g < f.len() && f[g] == s;
        assert(cg[g] == mk(s));
        lemma_observers_complete(ls, s, j);
    }
}

} // verus!
