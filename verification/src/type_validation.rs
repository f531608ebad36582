//! Type validation — the T1/T2/T3 tests for type classification.
//!
//! A Type claims a holon's invariant valence signature. It is validated iff
//! all three tests hold:
//!
//! | Test | Question |
//! |------|----------|
//! | T1 — Behavioral match | Does observed bonding match the signature's prediction? |
//! | T2 — Excitation-invariance | Does the type stay fixed as Stage changes? |
//! | T3 — Fixed-point persistence | Does the type persist across metabolic cycles? |
//!
//! The edge counts, stage-change history and cycle counts the tests read are
//! gathered from the graph by the caller and handed in as plain values.

use vstd::prelude::*;

use crate::clock::now_iso;
use crate::text::{join, join_seqs, owned, seq_starts_with, starts_with_str, str_eq};

verus! {

/// The result of a T1/T2/T3 type validation.
#[derive(Debug, Clone)]
pub struct TypeValidationResult {
    /// T1 — Behavioral match: does observed bonding match the type_class prediction?
    pub t1_behavioral_match: bool,
    /// T2 — Excitation-invariance: does type_class stay fixed across stage transitions?
    pub t2_excitation_invariance: bool,
    /// T3 — Fixed-point persistence: does type_class persist across metabolic cycles?
    pub t3_fixed_point_persistence: bool,
    /// Overall: valid iff all three hold.
    pub valid: bool,
    /// Human-readable details.
    pub details: String,
    /// Timestamp.
    pub validated_at: Option<String>,
}

impl TypeValidationResult {
    /// Check if the type is fully validated (all 3 tests pass).
    pub fn is_valid(&self) -> (b: bool)
        ensures
            b == (self.t1_behavioral_match && self.t2_excitation_invariance && self.t3_fixed_point_persistence),
    {
        self.t1_behavioral_match && self.t2_excitation_invariance && self.t3_fixed_point_persistence
    }
}

/// What a type class predicts of a holon's structural bonds, given its
/// outgoing and incoming structural edge counts.
pub open spec fn t1_prediction(type_class: Seq<char>, bondable: bool, outgoing: nat, incoming: nat) -> bool {
    if type_class == "transient"@ {
        !bondable
    } else if seq_starts_with(type_class, "strong-donor"@) || seq_starts_with(type_class, "weak-donor"@) {
        outgoing > 0 && outgoing >= incoming
    } else if seq_starts_with(type_class, "strong-acceptor"@) || seq_starts_with(type_class, "weak-acceptor"@) {
        incoming > 0 && incoming >= outgoing
    } else if seq_starts_with(type_class, "sharer"@) {
        let total = outgoing + incoming;
        let diff = if outgoing >= incoming { outgoing - incoming } else { incoming - outgoing };
        total != 0 && diff <= total / 3 + 1
    } else if seq_starts_with(type_class, "noble"@) {
        outgoing + incoming <= 3
    } else {
        true
    }
}

/// T1 — Behavioral match: does observed bonding match the type_class prediction?
///
/// A donor should give (more outgoing structural edges, at least one), an
/// acceptor receive, a sharer be balanced within a third plus one, a noble
/// have at most three structural bonds, and a transient not be bondable.
/// Unknown type classes cannot be checked and pass.
pub fn t1_behavioral_match(type_class: &str, bondable: bool, outgoing: u64, incoming: u64) -> (b: bool)
    requires
        outgoing + incoming <= u64::MAX,
    ensures
        b == t1_prediction(type_class@, bondable, outgoing as nat, incoming as nat),
{
    if str_eq(type_class, "transient") {
        !bondable
    } else if starts_with_str(type_class, "strong-donor") || starts_with_str(type_class, "weak-donor") {
        outgoing > 0 && outgoing >= incoming
    } else if starts_with_str(type_class, "strong-acceptor") || starts_with_str(type_class, "weak-acceptor") {
        incoming > 0 && incoming >= outgoing
    } else if starts_with_str(type_class, "sharer") {
        let total = outgoing + incoming;
        if total == 0 {
            false
        } else {
            let diff = if outgoing >= incoming { outgoing - incoming } else { incoming - outgoing };
            diff <= total / 3 + 1
        }
    } else if starts_with_str(type_class, "noble") {
        outgoing + incoming <= 3
    } else {
        true
    }
}

proof fn lemma_prefix_char(s: Seq<char>, pre: Seq<char>, k: int)
    requires
        seq_starts_with(s, pre),
        0 <= k < pre.len(),
    ensures
        s[k] == pre[k],
{
    assert(s.subrange(0, pre.len() as int)[k] == s[k]);
}

/// T1 by type class, over all edge counts: an acceptor passes exactly when
/// it receives at least one structural edge and at least as many as it
/// gives; a donor exactly when it gives at least one and at least as many
/// as it receives; a noble exactly when it has at most three bonds; a
/// transient exactly when it is not bondable. So an acceptor with given
/// counts passes exactly when a donor with the counts swapped does.
pub proof fn lemma_t1_by_class(tc: Seq<char>, bondable: bool, outgoing: nat, incoming: nat)
    ensures
        (seq_starts_with(tc, "strong-acceptor"@) || seq_starts_with(tc, "weak-acceptor"@))
            ==> (t1_prediction(tc, bondable, outgoing, incoming) <==> (incoming > 0 && incoming >= outgoing)),
        (seq_starts_with(tc, "strong-donor"@) || seq_starts_with(tc, "weak-donor"@))
            ==> (t1_prediction(tc, bondable, outgoing, incoming) <==> (outgoing > 0 && outgoing >= incoming)),
        seq_starts_with(tc, "noble"@)
            ==> (t1_prediction(tc, bondable, outgoing, incoming) <==> outgoing + incoming <= 3),
        tc == "transient"@ ==> (t1_prediction(tc, bondable, outgoing, incoming) <==> !bondable),
{
    reveal_strlit("strong-acceptor");
    reveal_strlit("weak-acceptor");
    reveal_strlit("strong-donor");
    reveal_strlit("weak-donor");
    reveal_strlit("transient");
    reveal_strlit("sharer");
    reveal_strlit("noble");
    if seq_starts_with(tc, "strong-acceptor"@) {
        lemma_prefix_char(tc, "strong-acceptor"@, 0);
        lemma_prefix_char(tc, "strong-acceptor"@, 7);
        if seq_starts_with(tc, "strong-donor"@) { lemma_prefix_char(tc, "strong-donor"@, 7); }
        if seq_starts_with(tc, "weak-donor"@) { lemma_prefix_char(tc, "weak-donor"@, 0); }
        assert(tc != "transient"@) by { if tc == "transient"@ { assert(tc[0] == 't'); } }
    }
    if seq_starts_with(tc, "weak-acceptor"@) {
        lemma_prefix_char(tc, "weak-acceptor"@, 0);
        lemma_prefix_char(tc, "weak-acceptor"@, 5);
        if seq_starts_with(tc, "strong-donor"@) { lemma_prefix_char(tc, "strong-donor"@, 0); }
        if seq_starts_with(tc, "weak-donor"@) { lemma_prefix_char(tc, "weak-donor"@, 5); }
        assert(tc != "transient"@) by { if tc == "transient"@ { assert(tc[0] == 't'); } }
    }
    if seq_starts_with(tc, "strong-donor"@) || seq_starts_with(tc, "weak-donor"@) {
        if seq_starts_with(tc, "strong-donor"@) { lemma_prefix_char(tc, "strong-donor"@, 0); }
        if seq_starts_with(tc, "weak-donor"@) { lemma_prefix_char(tc, "weak-donor"@, 0); }
        assert(tc != "transient"@) by { if tc == "transient"@ { assert(tc[0] == 't'); } }
    }
    if seq_starts_with(tc, "noble"@) {
        lemma_prefix_char(tc, "noble"@, 0);
        if seq_starts_with(tc, "strong-donor"@) { lemma_prefix_char(tc, "strong-donor"@, 0); }
        if seq_starts_with(tc, "weak-donor"@) { lemma_prefix_char(tc, "weak-donor"@, 0); }
        if seq_starts_with(tc, "strong-acceptor"@) { lemma_prefix_char(tc, "strong-acceptor"@, 0); }
        if seq_starts_with(tc, "weak-acceptor"@) { lemma_prefix_char(tc, "weak-acceptor"@, 0); }
        if seq_starts_with(tc, "sharer"@) { lemma_prefix_char(tc, "sharer"@, 0); }
        assert(tc != "transient"@) by { if tc == "transient"@ { assert(tc[0] == 't'); } }
    }
}

/// The acceptor and donor tests mirror each other: an acceptor with given
/// outgoing and incoming counts passes T1 exactly when a donor with the two
/// counts swapped does.
pub proof fn lemma_t1_acceptor_mirrors_donor(acceptor: Seq<char>, donor: Seq<char>, bondable: bool, outgoing: nat, incoming: nat)
    requires
        seq_starts_with(acceptor, "strong-acceptor"@) || seq_starts_with(acceptor, "weak-acceptor"@),
        seq_starts_with(donor, "strong-donor"@) || seq_starts_with(donor, "weak-donor"@),
    ensures
        t1_prediction(acceptor, bondable, outgoing, incoming) == t1_prediction(donor, bondable, incoming, outgoing),
{
    lemma_t1_by_class(acceptor, bondable, outgoing, incoming);
    lemma_t1_by_class(donor, bondable, incoming, outgoing);
}

/// T2 as a function of the stage history.
pub open spec fn t2_outcome(has_stage_changes: bool, recomputed_after_last_change: bool, type_class: Seq<char>) -> bool {
    if !has_stage_changes {
        true
    } else if recomputed_after_last_change {
        type_class != "transient"@
    } else {
        true
    }
}

/// T2 — Excitation-invariance: does type_class stay fixed as Stage changes?
///
/// With no recorded stage change the test passes; when the type class was
/// recomputed after the last stage change, it passes unless the current type
/// class is a transient; otherwise there is no evidence of a violation.
pub fn t2_excitation_invariance(
    has_stage_changes: bool,
    recomputed_after_last_change: bool,
    current_type_class: &str,
) -> (b: bool)
    ensures
        b == t2_outcome(has_stage_changes, recomputed_after_last_change, current_type_class@),
{
    if !has_stage_changes {
        return true;
    }
    if recomputed_after_last_change {
        return !str_eq(current_type_class, "transient");
    }
    true
}

/// T3 as a function of the completed cycles and type-class changes.
pub open spec fn t3_outcome(cycle_count: nat, type_changes: nat) -> bool {
    if cycle_count < 2 {
        true
    } else {
        let max_changes = if cycle_count / 3 >= 1 { cycle_count / 3 } else { 1 };
        type_changes <= max_changes
    }
}

/// T2 fails exactly when a stage change was recorded, the type class was
/// recomputed after the last one, and it is a transient. T3 passes while
/// fewer than two cycles are complete; after that exactly when the type
/// changed at most once, or at most once per three cycles; fewer changes
/// never turn a pass into a failure.
pub proof fn lemma_t2_t3_outcomes(
    has_stage_changes: bool,
    recomputed_after_last_change: bool,
    tc: Seq<char>,
    cycle_count: nat,
    type_changes: nat,
    fewer_changes: nat,
)
    ensures
        !t2_outcome(has_stage_changes, recomputed_after_last_change, tc)
            <==> (has_stage_changes && recomputed_after_last_change && tc == "transient"@),
        cycle_count < 2 ==> t3_outcome(cycle_count, type_changes),
        cycle_count >= 2 ==> (t3_outcome(cycle_count, type_changes)
            <==> (type_changes <= 1 || 3 * type_changes <= cycle_count)),
        t3_outcome(cycle_count, type_changes) && fewer_changes <= type_changes
            ==> t3_outcome(cycle_count, fewer_changes),
{
    if cycle_count >= 2 {
        let q = cycle_count / 3;
        assert(3 * q <= cycle_count < 3 * q + 3);
        assert(3 * type_changes <= cycle_count <==> type_changes <= q) by (nonlinear_arith)
            requires 3 * q <= cycle_count < 3 * q + 3;
    }
}

/// T3 — Fixed-point persistence: does type_class persist across metabolic cycles?
///
/// Before two completed lesser cycles the type is still forming and passes
/// provisionally; afterwards it may change at most once per three cycles
/// (at least once).
pub fn t3_fixed_point_persistence(cycle_count: u64, type_changes: u64) -> (b: bool)
    ensures
        b == t3_outcome(cycle_count as nat, type_changes as nat),
{
    if cycle_count < 2 {
        return true;
    }
    let third = cycle_count / 3;
    let max_changes = if third >= 1 { third } else { 1 };
    type_changes <= max_changes
}

/// The details line of a validation: the failures in test order, or the
/// all-passed note.
pub open spec fn details_of(t1: bool, t2: bool, t3: bool) -> Seq<char> {
    let parts = (if !t1 { seq!["T1 FAILED: observed bonding does not match type_class prediction"@] } else { seq![] })
        + (if !t2 { seq!["T2 FAILED: type_class changed across stage transitions (Type⊥Stage violated)"@] } else { seq![] })
        + (if !t3 { seq!["T3 FAILED: type_class does not persist across metabolic cycles (transient, not a type)"@] } else { seq![] });
    if parts.len() == 0 {
        "All 3 tests passed — type is validated"@
    } else {
        join_seqs(parts, "; "@)
    }
}

/// Assemble a validation result from the three test outcomes.
pub fn type_validation_result(t1: bool, t2: bool, t3: bool, validated_at: String) -> (r: TypeValidationResult)
    ensures
        r.t1_behavioral_match == t1,
        r.t2_excitation_invariance == t2,
        r.t3_fixed_point_persistence == t3,
        r.valid == (t1 && t2 && t3),
        r.details@ == details_of(t1, t2, t3),
        r.validated_at matches Some(v) && v@ == validated_at@,
{
    let mut details: Vec<String> = Vec::new();
    if !t1 {
        details.push(owned("T1 FAILED: observed bonding does not match type_class prediction"));
    }
    if !t2 {
        details.push(owned("T2 FAILED: type_class changed across stage transitions (Type⊥Stage violated)"));
    }
    if !t3 {
        details.push(owned("T3 FAILED: type_class does not persist across metabolic cycles (transient, not a type)"));
    }
    let ghost parts = (if !t1 { seq!["T1 FAILED: observed bonding does not match type_class prediction"@] } else { seq![] })
        + (if !t2 { seq!["T2 FAILED: type_class changed across stage transitions (Type⊥Stage violated)"@] } else { seq![] })
        + (if !t3 { seq!["T3 FAILED: type_class does not persist across metabolic cycles (transient, not a type)"@] } else { seq![] });
    assert(details@.map_values(|s: String| s@) =~= parts);
    let text = if details.len() == 0 {
        owned("All 3 tests passed — type is validated")
    } else {
        join(&details, "; ")
    };
    TypeValidationResult {
        t1_behavioral_match: t1,
        t2_excitation_invariance: t2,
        t3_fixed_point_persistence: t3,
        valid: t1 && t2 && t3,
        details: text,
        validated_at: Some(validated_at),
    }
}

/// Run all 3 type validation tests (T1/T2/T3), stamped with the current time.
///
/// A type is **valid** iff all three tests pass.
pub fn validate_type(
    type_class: &str,
    bondable: bool,
    outgoing: u64,
    incoming: u64,
    has_stage_changes: bool,
    recomputed_after_last_change: bool,
    cycle_count: u64,
    type_changes: u64,
) -> (r: TypeValidationResult)
    requires
        outgoing + incoming <= u64::MAX,
    ensures
        r.t1_behavioral_match == t1_prediction(type_class@, bondable, outgoing as nat, incoming as nat),
        r.t2_excitation_invariance == t2_outcome(has_stage_changes, recomputed_after_last_change, type_class@),
        r.t3_fixed_point_persistence == t3_outcome(cycle_count as nat, type_changes as nat),
        r.valid == (r.t1_behavioral_match && r.t2_excitation_invariance && r.t3_fixed_point_persistence),
        r.details@ == details_of(r.t1_behavioral_match, r.t2_excitation_invariance, r.t3_fixed_point_persistence),
        r.validated_at is Some,
{
    let t1 = t1_behavioral_match(type_class, bondable, outgoing, incoming);
    let t2 = t2_excitation_invariance(has_stage_changes, recomputed_after_last_change, type_class);
    let t3 = t3_fixed_point_persistence(cycle_count, type_changes);
    type_validation_result(t1, t2, t3, now_iso())
}

/// Check Type⊥Stage orthogonality.
///
/// A type that is exactly what its developmental stage would predict is
/// suspicious but not a definitive violation: a true violation requires the
/// type to change when the stage changes, which T2 detects. This check
/// therefore never fails.
pub fn check_type_stage_orthogonality(type_class: &str, developmental_stage: Option<i32>) -> (b: bool)
    ensures
        b,
{
    let stage = match developmental_stage {
        Some(s) => s,
        None => return true,
    };
    let predicted: Option<&str> = if stage == 1 {
        Some("strong-acceptor")
    } else if stage == 2 {
        Some("weak-acceptor")
    } else if stage == 3 || stage == 5 {
        Some("sharer")
    } else if stage == 4 || stage == 6 {
        Some("weak-donor")
    } else if stage == 7 {
        Some("strong-donor")
    } else if stage == 8 {
        Some("noble-graduated")
    } else {
        None
    };
    if let Some(p) = predicted {
        if starts_with_str(type_class, p) {
            return true;
        }
    }
    true
}

/// When all three tests pass the details carry the all-passed note; when
/// only T1 fails they carry exactly the T1 failure.
pub proof fn lemma_details_name_failures(t1: bool, t2: bool, t3: bool)
    ensures
        (t1 && t2 && t3) ==> details_of(t1, t2, t3) == "All 3 tests passed — type is validated"@,
        (!t1 && t2 && t3) ==> details_of(t1, t2, t3) == "T1 FAILED: observed bonding does not match type_class prediction"@,
{
    if !t1 && t2 && t3 {
        let parts = seq!["T1 FAILED: observed bonding does not match type_class prediction"@];
        assert((seq!["T1 FAILED: observed bonding does not match type_class prediction"@] + seq![]) + seq![] =~= parts);
        assert(join_seqs(parts, "; "@) == parts[0]);
    }
}

} // verus!
