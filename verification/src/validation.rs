//! 5-gate validation — epistemic gates for synthesis submission.
//!
//! Every synthesis submitted by an AI agent must pass five gates before it
//! can be elevated above `ai-draft`:
//!
//! 1. **Grounding** — the synthesis cites at least one canonical (or
//!    canonical-hypothesis) node.
//! 2. **Failure-mode** — none of the five QIM failure modes nor humanistic
//!    reduction is detected.
//! 3. **Joint validation** — a synthesis claiming `canonical` has no open joints.
//! 4. **Cosmological scope** — an invariant claim cites at least two scales.
//! 5. **Provenance completeness** — agent, source and derivation pattern are given.
//!
//! The counts and scales that gates 1 and 4 need are read from the graph by
//! the caller and handed in as plain values.

use vstd::prelude::*;

use crate::clock::now_iso;
use crate::text::{
    chars_of, contains_str, join, join_seqs, lowercase_of, owned, push_decimal, push_signed,
    push_str, seq_contains, signed_dec_str, dec_str, to_lowercase,
};

verus! {

/// The result of a single gate.
#[derive(Debug, Clone)]
pub struct GateResult {
    /// Gate name: "grounding", "failure_mode", "joint_validation",
    /// "cosmological_scope", "provenance_completeness".
    pub gate: String,
    /// Whether the synthesis cleared this step.
    pub passed: bool,
    /// Whether this step stops elevation.
    pub blocked: bool,
    /// Human-readable message.
    pub message: String,
}

/// A gate result as a mathematical value.
pub struct GateView {
    pub gate: Seq<char>,
    pub passed: bool,
    pub blocked: bool,
    pub message: Seq<char>,
}

impl View for GateResult {
    type V = GateView;

    open spec fn view(&self) -> GateView {
        GateView { gate: self.gate@, passed: self.passed, blocked: self.blocked, message: self.message@ }
    }
}

pub open spec fn gate_passed(gate: Seq<char>, message: Seq<char>) -> GateView {
    GateView { gate, passed: true, blocked: false, message }
}

pub open spec fn gate_blocked(gate: Seq<char>, message: Seq<char>) -> GateView {
    GateView { gate, passed: false, blocked: true, message }
}

impl GateResult {
    /// A gate that passed.
    pub fn passed(gate: &str, message: &str) -> (g: Self)
        ensures
            g@ == gate_passed(gate@, message@),
    {
        GateResult { gate: owned(gate), passed: true, blocked: false, message: owned(message) }
    }

    /// A gate that blocked.
    pub fn blocked(gate: &str, message: &str) -> (g: Self)
        ensures
            g@ == gate_blocked(gate@, message@),
    {
        GateResult { gate: owned(gate), passed: false, blocked: true, message: owned(message) }
    }
}

/// The result of a 5-gate validation.
#[derive(Debug, Clone)]
pub struct ValidationReport {
    /// The synthesis being validated.
    pub synthesis_id: String,
    /// Overall status: "blocked", "passed", or "failed".
    pub overall_status: String,
    /// What status the synthesis can be elevated to (always `ai-draft` for AI).
    pub can_elevate_to: String,
    /// Individual gate results.
    pub gates: Vec<GateResult>,
    /// Timestamp of validation.
    pub validated_at: String,
}

/// The 5 QIM failure modes + humanistic reduction.
#[derive(Debug, Clone, Copy, PartialEq, Eq, Structural)]
pub enum FailureMode {
    BorrowedRigor,
    OrthogonalityViolation,
    NumerologyNotIsomorphism,
    MisplacedInvariant,
    UnexaminedFlagshipAnalogy,
    HumanisticReduction,
}

pub open spec fn failure_mode_name(m: FailureMode) -> Seq<char> {
    match m {
        FailureMode::BorrowedRigor => "borrowed_rigor"@,
        FailureMode::OrthogonalityViolation => "orthogonality_violation"@,
        FailureMode::NumerologyNotIsomorphism => "numerology_not_isomorphism"@,
        FailureMode::MisplacedInvariant => "misplaced_invariant"@,
        FailureMode::UnexaminedFlagshipAnalogy => "unexamined_flagship_analogy"@,
        FailureMode::HumanisticReduction => "humanistic_reduction"@,
    }
}

pub open spec fn failure_mode_description(m: FailureMode) -> Seq<char> {
    match m {
        FailureMode::BorrowedRigor => "Math/formalism symbols present without derivation pattern"@,
        FailureMode::OrthogonalityViolation => "Type derived from Stage (Type⊥Stage violated)"@,
        FailureMode::NumerologyNotIsomorphism => "Cardinality matching without structure-preserving map"@,
        FailureMode::MisplacedInvariant => "Invariant attached to wrong feature of the witness"@,
        FailureMode::UnexaminedFlagshipAnalogy => "Central analogy assumed rather than tested at breaking points"@,
        FailureMode::HumanisticReduction => "Cosmological function collapsed to human-psychological feature"@,
    }
}

impl FailureMode {
    pub fn as_str(&self) -> (s: &'static str)
        ensures
            s@ == failure_mode_name(*self),
    {
        match self {
            FailureMode::BorrowedRigor => "borrowed_rigor",
            FailureMode::OrthogonalityViolation => "orthogonality_violation",
            FailureMode::NumerologyNotIsomorphism => "numerology_not_isomorphism",
            FailureMode::MisplacedInvariant => "misplaced_invariant",
            FailureMode::UnexaminedFlagshipAnalogy => "unexamined_flagship_analogy",
            FailureMode::HumanisticReduction => "humanistic_reduction",
        }
    }

    pub fn description(&self) -> (s: &'static str)
        ensures
            s@ == failure_mode_description(*self),
    {
        match self {
            FailureMode::BorrowedRigor => "Math/formalism symbols present without derivation pattern",
            FailureMode::OrthogonalityViolation => "Type derived from Stage (Type⊥Stage violated)",
            FailureMode::NumerologyNotIsomorphism => "Cardinality matching without structure-preserving map",
            FailureMode::MisplacedInvariant => "Invariant attached to wrong feature of the witness",
            FailureMode::UnexaminedFlagshipAnalogy => "Central analogy assumed rather than tested at breaking points",
            FailureMode::HumanisticReduction => "Cosmological function collapsed to human-psychological feature",
        }
    }
}

/// Provenance metadata for a synthesis submission.
#[derive(Debug, Clone)]
pub struct SynthesisProvenance {
    /// The agent that produced this synthesis.
    pub agent_name: String,
    /// The source (e.g. "reflect_tool", "tdg_submit_synthesis").
    pub source: String,
    /// The derivation pattern: "structural-mirroring", "fractal-recursion",
    /// "invariant-vs-decoration", "witness-corroboration", or "none".
    pub derivation_pattern: String,
    /// Whether the synthesis claims to be an invariant (scale-free).
    pub invariant_claimed: bool,
    /// Whether the synthesis acknowledges its decorations (scale-local).
    pub decorations_acknowledged: bool,
    /// Whether the synthesis has open joints (unvalidated load-bearing claims).
    pub has_open_joints: bool,
    /// Target synthesis status the synthesis claims.
    pub target_status: String,
}

// ─── Failure-mode detection ──────────────────────────────────────────────────

pub open spec fn has_math(t: Seq<char>) -> bool {
    seq_contains(t, "∫"@) || seq_contains(t, "∑"@) || seq_contains(t, "∇"@)
        || seq_contains(t, "∂"@) || seq_contains(t, "α"@) || seq_contains(t, "β"@)
        || seq_contains(t, "→"@) || seq_contains(t, "⇒"@)
}

pub open spec fn borrowed_rigor(p: SynthesisProvenance, t: Seq<char>) -> bool {
    has_math(t) && p.derivation_pattern@ == "none"@
}

pub open spec fn orthogonality_violation(t: Seq<char>) -> bool {
    seq_contains(t, "type is determined by stage"@) || seq_contains(t, "type_class depends on stage"@)
        || seq_contains(t, "type from stage"@)
}

pub open spec fn numerology(t: Seq<char>) -> bool {
    (seq_contains(t, "matches"@) || seq_contains(t, "equals"@))
        && (seq_contains(t, "elements"@) || seq_contains(t, "orbitals"@) || seq_contains(t, "archetypes"@))
        && !seq_contains(t, "isomorphism"@)
        && !seq_contains(t, "structure-preserving"@)
}

pub open spec fn misplaced_invariant(p: SynthesisProvenance, t: Seq<char>) -> bool {
    seq_contains(t, "invariant"@) && p.invariant_claimed
        && (seq_contains(t, "exactly "@) || seq_contains(t, "precisely "@))
        && p.derivation_pattern@ == "none"@
}

pub open spec fn unexamined_analogy(t: Seq<char>) -> bool {
    (seq_contains(t, "just like"@) || seq_contains(t, "analogous to"@) || seq_contains(t, "similar to"@))
        && !seq_contains(t, "test"@) && !seq_contains(t, "breaking point"@)
}

pub open spec fn humanistic_reduction(p: SynthesisProvenance, t: Seq<char>) -> bool {
    (seq_contains(t, "cosmic"@) || seq_contains(t, "universal"@) || seq_contains(t, "cosmological"@)
        || seq_contains(t, "galactic"@))
        && (seq_contains(t, "ego"@) || seq_contains(t, "trauma"@) || seq_contains(t, "psychotherapy"@)
        || seq_contains(t, "rumination"@))
        && p.invariant_claimed
}

pub open spec fn when(b: bool, m: FailureMode) -> Seq<FailureMode> {
    if b { seq![m] } else { seq![] }
}

/// The failure modes detected in lowercased synthesis text, in the fixed
/// order of the six checks.
pub open spec fn failure_modes(p: SynthesisProvenance, t: Seq<char>) -> Seq<FailureMode> {
    when(borrowed_rigor(p, t), FailureMode::BorrowedRigor)
        + when(orthogonality_violation(t), FailureMode::OrthogonalityViolation)
        + when(numerology(t), FailureMode::NumerologyNotIsomorphism)
        + when(misplaced_invariant(p, t), FailureMode::MisplacedInvariant)
        + when(unexamined_analogy(t), FailureMode::UnexaminedFlagshipAnalogy)
        + when(humanistic_reduction(p, t), FailureMode::HumanisticReduction)
}

proof fn lemma_concat_contains(x: Seq<FailureMode>, y: Seq<FailureMode>, e: FailureMode)
    ensures
        (x + y).contains(e) <==> (x.contains(e) || y.contains(e)),
{
    if x.contains(e) {
        let i = choose|i: int| 0 <= i < x.len() && x[i] == e;
        assert((x + y)[i] == e);
    }
    if y.contains(e) {
        let i = choose|i: int| 0 <= i < y.len() && y[i] == e;
        assert((x + y)[x.len() + i] == e);
    }
    if (x + y).contains(e) {
        let i = choose|i: int| 0 <= i < (x + y).len() && (x + y)[i] == e;
        if i < x.len() {
            assert(x[i] == e);
        } else {
            assert(y[i - x.len()] == e);
        }
    }
}

proof fn lemma_when_contains(b: bool, m: FailureMode, e: FailureMode)
    ensures
        (when(b, m)).contains(e) <==> (b && m == e),
{
    if b {
        assert(when(b, m)[0] == m);
    }
}

/// Each failure mode is detected in lowercased text exactly when its
/// signs are there:
/// - borrowed rigor: a mathematical symbol (∫ ∑ ∇ ∂ α β → ⇒) with no
///   derivation pattern ("none");
/// - orthogonality violation: a claim that type is determined by, depends
///   on or comes from stage;
/// - numerology: "matches" or "equals" with "elements", "orbitals" or
///   "archetypes", and neither "isomorphism" nor "structure-preserving";
/// - misplaced invariant: "invariant" claimed with "exactly " or
///   "precisely " and no derivation pattern;
/// - unexamined analogy: "just like", "analogous to" or "similar to" with
///   neither "test" nor "breaking point";
/// - humanistic reduction: a cosmological term with a psychological one,
///   when an invariant is claimed.
pub proof fn lemma_failure_mode_signs(p: SynthesisProvenance, t: Seq<char>)
    ensures
        failure_modes(p, t).contains(FailureMode::BorrowedRigor) <==> (
            (seq_contains(t, "∫"@) || seq_contains(t, "∑"@) || seq_contains(t, "∇"@)
                || seq_contains(t, "∂"@) || seq_contains(t, "α"@) || seq_contains(t, "β"@)
                || seq_contains(t, "→"@) || seq_contains(t, "⇒"@))
            && p.derivation_pattern@ == "none"@),
        failure_modes(p, t).contains(FailureMode::OrthogonalityViolation) <==> (
            seq_contains(t, "type is determined by stage"@) || seq_contains(t, "type_class depends on stage"@)
                || seq_contains(t, "type from stage"@)),
        failure_modes(p, t).contains(FailureMode::NumerologyNotIsomorphism) <==> (
            (seq_contains(t, "matches"@) || seq_contains(t, "equals"@))
            && (seq_contains(t, "elements"@) || seq_contains(t, "orbitals"@) || seq_contains(t, "archetypes"@))
            && !seq_contains(t, "isomorphism"@)
            && !seq_contains(t, "structure-preserving"@)),
        failure_modes(p, t).contains(FailureMode::MisplacedInvariant) <==> (
            seq_contains(t, "invariant"@) && p.invariant_claimed
            && (seq_contains(t, "exactly "@) || seq_contains(t, "precisely "@))
            && p.derivation_pattern@ == "none"@),
        failure_modes(p, t).contains(FailureMode::UnexaminedFlagshipAnalogy) <==> (
            (seq_contains(t, "just like"@) || seq_contains(t, "analogous to"@) || seq_contains(t, "similar to"@))
            && !seq_contains(t, "test"@) && !seq_contains(t, "breaking point"@)),
        failure_modes(p, t).contains(FailureMode::HumanisticReduction) <==> (
            (seq_contains(t, "cosmic"@) || seq_contains(t, "universal"@) || seq_contains(t, "cosmological"@)
                || seq_contains(t, "galactic"@))
            && (seq_contains(t, "ego"@) || seq_contains(t, "trauma"@) || seq_contains(t, "psychotherapy"@)
                || seq_contains(t, "rumination"@))
            && p.invariant_claimed),
        failure_modes(p, t).len() <= 6,
{
    let w1 = when(borrowed_rigor(p, t), FailureMode::BorrowedRigor);
    let w2 = when(orthogonality_violation(t), FailureMode::OrthogonalityViolation);
    let w3 = when(numerology(t), FailureMode::NumerologyNotIsomorphism);
    let w4 = when(misplaced_invariant(p, t), FailureMode::MisplacedInvariant);
    let w5 = when(unexamined_analogy(t), FailureMode::UnexaminedFlagshipAnalogy);
    let w6 = when(humanistic_reduction(p, t), FailureMode::HumanisticReduction);
    let s12 = w1 + w2;
    let s123 = s12 + w3;
    let s1234 = s123 + w4;
    let s12345 = s1234 + w5;
    assert(failure_modes(p, t) == s12345 + w6);
    let modes = seq![
        FailureMode::BorrowedRigor, FailureMode::OrthogonalityViolation, FailureMode::NumerologyNotIsomorphism,
        FailureMode::MisplacedInvariant, FailureMode::UnexaminedFlagshipAnalogy, FailureMode::HumanisticReduction,
    ];
    assert forall|k: int| 0 <= k < 6 implies {
        let e = #[trigger] modes[k];
        &&& (failure_modes(p, t).contains(e) <==> (
            w1.contains(e) || w2.contains(e) || w3.contains(e) || w4.contains(e) || w5.contains(e) || w6.contains(e)))
    } by {
        let e = modes[k];
        lemma_concat_contains(w1, w2, e);
        lemma_concat_contains(s12, w3, e);
        lemma_concat_contains(s123, w4, e);
        lemma_concat_contains(s1234, w5, e);
        lemma_concat_contains(s12345, w6, e);
    }
    assert forall|k: int| 0 <= k < 6 implies {
        let e = #[trigger] modes[k];
        &&& (w1.contains(e) <==> borrowed_rigor(p, t) && e == FailureMode::BorrowedRigor)
        &&& (w2.contains(e) <==> orthogonality_violation(t) && e == FailureMode::OrthogonalityViolation)
        &&& (w3.contains(e) <==> numerology(t) && e == FailureMode::NumerologyNotIsomorphism)
        &&& (w4.contains(e) <==> misplaced_invariant(p, t) && e == FailureMode::MisplacedInvariant)
        &&& (w5.contains(e) <==> unexamined_analogy(t) && e == FailureMode::UnexaminedFlagshipAnalogy)
        &&& (w6.contains(e) <==> humanistic_reduction(p, t) && e == FailureMode::HumanisticReduction)
    } by {
        let e = modes[k];
        lemma_when_contains(borrowed_rigor(p, t), FailureMode::BorrowedRigor, e);
        lemma_when_contains(orthogonality_violation(t), FailureMode::OrthogonalityViolation, e);
        lemma_when_contains(numerology(t), FailureMode::NumerologyNotIsomorphism, e);
        lemma_when_contains(misplaced_invariant(p, t), FailureMode::MisplacedInvariant, e);
        lemma_when_contains(unexamined_analogy(t), FailureMode::UnexaminedFlagshipAnalogy, e);
        lemma_when_contains(humanistic_reduction(p, t), FailureMode::HumanisticReduction, e);
    }
    assert(modes[0] == FailureMode::BorrowedRigor);
    assert(modes[1] == FailureMode::OrthogonalityViolation);
    assert(modes[2] == FailureMode::NumerologyNotIsomorphism);
    assert(modes[3] == FailureMode::MisplacedInvariant);
    assert(modes[4] == FailureMode::UnexaminedFlagshipAnalogy);
    assert(modes[5] == FailureMode::HumanisticReduction);
}

fn push_when(modes: &mut Vec<FailureMode>, b: bool, m: FailureMode)
    ensures
        final(modes)@ == old(modes)@ + when(b, m),
{
    if b {
        modes.push(m);
    }
    assert(final(modes)@ =~= old(modes)@ + when(b, m));
}

/// Detect QIM failure modes in already lowercased synthesis text.
pub fn detect_failure_modes_lowered(provenance: &SynthesisProvenance, lower: &Vec<char>) -> (modes: Vec<FailureMode>)
    ensures
        modes@ == failure_modes(*provenance, lower@),
{
    let t = lower;
    let none = crate::text::str_eq(provenance.derivation_pattern.as_str(), "none");
    let math = contains_str(t, "∫") || contains_str(t, "∑") || contains_str(t, "∇")
        || contains_str(t, "∂") || contains_str(t, "α") || contains_str(t, "β")
        || contains_str(t, "→") || contains_str(t, "⇒");
    let mut modes: Vec<FailureMode> = Vec::new();
    push_when(&mut modes, math && none, FailureMode::BorrowedRigor);

    let ortho = contains_str(t, "type is determined by stage")
        || contains_str(t, "type_class depends on stage")
        || contains_str(t, "type from stage");
    push_when(&mut modes, ortho, FailureMode::OrthogonalityViolation);

    let numer = (contains_str(t, "matches") || contains_str(t, "equals"))
        && (contains_str(t, "elements") || contains_str(t, "orbitals") || contains_str(t, "archetypes"))
        && !contains_str(t, "isomorphism")
        && !contains_str(t, "structure-preserving");
    push_when(&mut modes, numer, FailureMode::NumerologyNotIsomorphism);

    let misplaced = contains_str(t, "invariant") && provenance.invariant_claimed
        && (contains_str(t, "exactly ") || contains_str(t, "precisely "))
        && none;
    push_when(&mut modes, misplaced, FailureMode::MisplacedInvariant);

    let analogy = (contains_str(t, "just like") || contains_str(t, "analogous to")
        || contains_str(t, "similar to"))
        && !contains_str(t, "test") && !contains_str(t, "breaking point");
    push_when(&mut modes, analogy, FailureMode::UnexaminedFlagshipAnalogy);

    let cosmo = contains_str(t, "cosmic") || contains_str(t, "universal")
        || contains_str(t, "cosmological") || contains_str(t, "galactic");
    let psych = contains_str(t, "ego") || contains_str(t, "trauma")
        || contains_str(t, "psychotherapy") || contains_str(t, "rumination");
    push_when(&mut modes, cosmo && psych && provenance.invariant_claimed, FailureMode::HumanisticReduction);

    assert(modes@ =~= failure_modes(*provenance, lower@));
    modes
}

/// Detect QIM failure modes in the synthesis text + provenance. The text is
/// compared in lowercase.
pub fn detect_failure_modes(provenance: &SynthesisProvenance, text: &str) -> (modes: Vec<FailureMode>)
    ensures
        modes@ == failure_modes(*provenance, lowercase_of(text@)),
{
    let lower = to_lowercase(text);
    let lv = chars_of(lower.as_str());
    detect_failure_modes_lowered(provenance, &lv)
}

// ─── Gates ───────────────────────────────────────────────────────────────────

/// `name: description` of a failure mode.
pub open spec fn mode_line(m: FailureMode) -> Seq<char> {
    failure_mode_name(m) + ": "@ + failure_mode_description(m)
}

/// Gate 2 as a function of the detected modes.
pub open spec fn gate2_view(modes: Seq<FailureMode>) -> GateView {
    if modes.len() == 0 {
        gate_passed("failure_mode"@, "No QIM failure modes detected"@)
    } else {
        gate_blocked("failure_mode"@, "Detected: "@ + join_seqs(modes.map_values(|m: FailureMode| mode_line(m)), "; "@))
    }
}

/// Gate 2 over already detected failure modes.
pub fn gate2_from_modes(modes: &Vec<FailureMode>) -> (g: GateResult)
    ensures
        g@ == gate2_view(modes@),
{
    if modes.len() == 0 {
        return GateResult::passed("failure_mode", "No QIM failure modes detected");
    }
    let mut lines: Vec<String> = Vec::new();
    let mut i: usize = 0;
    while i < modes.len()
        invariant
            i <= modes@.len(),
            lines@.map_values(|l: String| l@) == modes@.take(i as int).map_values(|m: FailureMode| mode_line(m)),
        decreases modes.len() - i,
    {
        let mut line = owned(modes[i].as_str());
        push_str(&mut line, ": ");
        push_str(&mut line, modes[i].description());
        assert(line@ == mode_line(modes@[i as int]));
        let ghost before = lines@;
        lines.push(line);
        assert(modes@.take(i + 1) =~= modes@.take(i as int).push(modes@[i as int]));
        assert(lines@ =~= before.push(line));
        let ghost line_view = line@;
        assert(lines@.map_values(|l: String| l@) =~= before.map_values(|l: String| l@).push(line_view));
        assert(modes@.take(i + 1).map_values(|m: FailureMode| mode_line(m))
            =~= modes@.take(i as int).map_values(|m: FailureMode| mode_line(m)).push(mode_line(modes@[i as int])));
        i = i + 1;
    }
    assert(modes@.take(modes.len() as int) =~= modes@);
    let mut msg = owned("Detected: ");
    let joined = join(&lines, "; ");
    push_str(&mut msg, joined.as_str());
    GateResult { gate: owned("failure_mode"), passed: false, blocked: true, message: msg }
}

/// Gate 2: Failure-mode — check for QIM failure modes + humanistic reduction.
pub fn gate2_failure_mode(provenance: &SynthesisProvenance, text: &str) -> (g: GateResult)
    ensures
        g@ == gate2_view(failure_modes(*provenance, lowercase_of(text@))),
{
    let detected = detect_failure_modes(provenance, text);
    gate2_from_modes(&detected)
}

/// Gate 1 as a function of how many canonical and canonical-hypothesis nodes
/// the synthesis cites through EVIDENCES edges.
pub open spec fn gate1_view(canonical_count: int, hypothesis_count: int) -> GateView {
    if canonical_count > 0 {
        gate_passed("grounding"@, "Cites "@ + signed_dec_str(canonical_count) + " canonical node(s)"@)
    } else if hypothesis_count > 0 {
        gate_passed("grounding"@, "Cites "@ + signed_dec_str(hypothesis_count) + " canonical-hypothesis node(s)"@)
    } else {
        gate_blocked(
            "grounding"@,
            "Synthesis does not cite any canonical or canonical-hypothesis nodes via EVIDENCES edges"@,
        )
    }
}

/// Gate 1: Grounding — the synthesis must cite at least one canonical node.
pub fn gate1_grounding(canonical_count: i64, hypothesis_count: i64) -> (g: GateResult)
    ensures
        g@ == gate1_view(canonical_count as int, hypothesis_count as int),
{
    if canonical_count > 0 {
        let mut m = owned("Cites ");
        push_signed(&mut m, canonical_count);
        push_str(&mut m, " canonical node(s)");
        GateResult { gate: owned("grounding"), passed: true, blocked: false, message: m }
    } else if hypothesis_count > 0 {
        let mut m = owned("Cites ");
        push_signed(&mut m, hypothesis_count);
        push_str(&mut m, " canonical-hypothesis node(s)");
        GateResult { gate: owned("grounding"), passed: true, blocked: false, message: m }
    } else {
        GateResult::blocked(
            "grounding",
            "Synthesis does not cite any canonical or canonical-hypothesis nodes via EVIDENCES edges",
        )
    }
}

pub open spec fn gate3_view(p: SynthesisProvenance) -> GateView {
    if p.has_open_joints && p.target_status@ == "canonical"@ {
        gate_blocked(
            "joint_validation"@,
            "Cannot claim canonical status with open joints. Use canonical-hypothesis instead."@,
        )
    } else if p.has_open_joints {
        gate_passed(
            "joint_validation"@,
            "Open joints present — synthesis correctly claims hypothesis-graded status"@,
        )
    } else {
        gate_passed("joint_validation"@, "No open joints — all load-bearing claims validated"@)
    }
}

/// Gate 3: Joint validation — open joints must be labeled.
pub fn gate3_joint_validation(provenance: &SynthesisProvenance) -> (g: GateResult)
    ensures
        g@ == gate3_view(*provenance),
{
    if provenance.has_open_joints && crate::text::str_eq(provenance.target_status.as_str(), "canonical") {
        GateResult::blocked(
            "joint_validation",
            "Cannot claim canonical status with open joints. Use canonical-hypothesis instead.",
        )
    } else if provenance.has_open_joints {
        GateResult::passed(
            "joint_validation",
            "Open joints present — synthesis correctly claims hypothesis-graded status",
        )
    } else {
        GateResult::passed("joint_validation", "No open joints — all load-bearing claims validated")
    }
}

/// Gate 4 as a function of the distinct scale codes of the cited nodes.
pub open spec fn gate4_view(p: SynthesisProvenance, scales: Seq<Seq<char>>) -> GateView {
    if !p.invariant_claimed {
        gate_passed("cosmological_scope"@, "No invariant claimed — gate not applicable"@)
    } else if scales.len() >= 2 {
        gate_passed(
            "cosmological_scope"@,
            "Invariant cites "@ + dec_str(scales.len()) + " scales: "@ + join_seqs(scales, ", "@),
        )
    } else {
        gate_blocked(
            "cosmological_scope"@,
            "Invariant claim cites only "@ + dec_str(scales.len())
                + " scale(s). Must cite ≥2 scales (atom AND galaxy). Relabel as decoration."@,
        )
    }
}

/// Gate 4: Cosmological scope — invariant claims must cite ≥2 scales.
///
/// `scales` are the distinct scale codes of the nodes the synthesis cites
/// through EVIDENCES edges; they are only read when an invariant is claimed.
pub fn gate4_cosmological_scope(provenance: &SynthesisProvenance, scales: &Vec<String>) -> (g: GateResult)
    ensures
        g@ == gate4_view(*provenance, scales@.map_values(|s: String| s@)),
{
    if !provenance.invariant_claimed {
        return GateResult::passed("cosmological_scope", "No invariant claimed — gate not applicable");
    }
    let ghost sv = scales@.map_values(|s: String| s@);
    assert(sv.len() == scales@.len());
    if scales.len() >= 2 {
        let mut m = owned("Invariant cites ");
        push_decimal(&mut m, scales.len() as u64);
        push_str(&mut m, " scales: ");
        let joined = join(scales, ", ");
        push_str(&mut m, joined.as_str());
        GateResult { gate: owned("cosmological_scope"), passed: true, blocked: false, message: m }
    } else {
        let mut m = owned("Invariant claim cites only ");
        push_decimal(&mut m, scales.len() as u64);
        push_str(&mut m, " scale(s). Must cite ≥2 scales (atom AND galaxy). Relabel as decoration.");
        GateResult { gate: owned("cosmological_scope"), passed: false, blocked: true, message: m }
    }
}

/// The names of the required provenance fields that are empty, in order.
pub open spec fn missing_fields(p: SynthesisProvenance) -> Seq<Seq<char>> {
    (if p.agent_name@.len() == 0 { seq!["agent_name"@] } else { seq![] })
        + (if p.source@.len() == 0 { seq!["source"@] } else { seq![] })
        + (if p.derivation_pattern@.len() == 0 { seq!["derivation_pattern"@] } else { seq![] })
}

pub open spec fn gate5_view(p: SynthesisProvenance) -> GateView {
    if missing_fields(p).len() == 0 {
        gate_passed("provenance_completeness"@, "All required provenance fields present"@)
    } else {
        gate_blocked("provenance_completeness"@, "Missing: "@ + join_seqs(missing_fields(p), ", "@))
    }
}

/// Gate 5: Provenance completeness — required fields present.
pub fn gate5_provenance_completeness(provenance: &SynthesisProvenance) -> (g: GateResult)
    ensures
        g@ == gate5_view(*provenance),
{
    let mut missing: Vec<String> = Vec::new();
    if provenance.agent_name.as_str().is_empty() {
        missing.push(owned("agent_name"));
    }
    if provenance.source.as_str().is_empty() {
        missing.push(owned("source"));
    }
    if provenance.derivation_pattern.as_str().is_empty() {
        missing.push(owned("derivation_pattern"));
    }
    assert(missing@.map_values(|s: String| s@) =~= missing_fields(*provenance));
    if missing.len() == 0 {
        GateResult::passed("provenance_completeness", "All required provenance fields present")
    } else {
        let mut m = owned("Missing: ");
        let joined = join(&missing, ", ");
        push_str(&mut m, joined.as_str());
        GateResult { gate: owned("provenance_completeness"), passed: false, blocked: true, message: m }
    }
}

// ─── Validation ──────────────────────────────────────────────────────────────

pub open spec fn gate_views(gates: Seq<GateResult>) -> Seq<GateView> {
    gates.map_values(|g: GateResult| g@)
}

/// The overall status of a list of gates.
pub open spec fn overall_status_of(gates: Seq<GateView>) -> Seq<char> {
    if exists|i: int| 0 <= i < gates.len() && #[trigger] gates[i].blocked {
        "blocked"@
    } else if forall|i: int| 0 <= i < gates.len() ==> #[trigger] gates[i].passed {
        "passed"@
    } else {
        "failed"@
    }
}

/// The five gates of a validation, in order.
pub open spec fn five_gates(
    p: SynthesisProvenance,
    lower_text: Seq<char>,
    canonical_count: int,
    hypothesis_count: int,
    scales: Seq<Seq<char>>,
) -> Seq<GateView> {
    seq![
        gate1_view(canonical_count, hypothesis_count),
        gate2_view(failure_modes(p, lower_text)),
        gate3_view(p),
        gate4_view(p, scales),
        gate5_view(p),
    ]
}

/// Whether the synthesis clears all five gates, stated directly.
pub open spec fn clears_all_gates(
    p: SynthesisProvenance,
    lower_text: Seq<char>,
    canonical_count: int,
    hypothesis_count: int,
    scales: Seq<Seq<char>>,
) -> bool {
    &&& canonical_count > 0 || hypothesis_count > 0
    &&& failure_modes(p, lower_text).len() == 0
    &&& !(p.has_open_joints && p.target_status@ == "canonical"@)
    &&& !p.invariant_claimed || scales.len() >= 2
    &&& p.agent_name@.len() > 0 && p.source@.len() > 0 && p.derivation_pattern@.len() > 0
}

/// Each gate passes exactly when its rule holds, and blocks otherwise:
/// grounding when a canonical or canonical-hypothesis node is cited;
/// failure mode when no failure mode is detected; joint validation unless
/// open joints come with a canonical claim; cosmological scope when no
/// invariant is claimed or at least two scales are cited; provenance when
/// the agent, the source and the derivation pattern are all given.
pub proof fn lemma_gate_rules(
    p: SynthesisProvenance,
    modes: Seq<FailureMode>,
    canonical_count: int,
    hypothesis_count: int,
    scales: Seq<Seq<char>>,
)
    ensures
        gate1_view(canonical_count, hypothesis_count).passed <==> (canonical_count > 0 || hypothesis_count > 0),
        gate2_view(modes).passed <==> modes.len() == 0,
        gate3_view(p).passed <==> !(p.has_open_joints && p.target_status@ == "canonical"@),
        gate4_view(p, scales).passed <==> (!p.invariant_claimed || scales.len() >= 2),
        gate5_view(p).passed <==> (p.agent_name@.len() > 0 && p.source@.len() > 0 && p.derivation_pattern@.len() > 0),
        gate1_view(canonical_count, hypothesis_count).blocked == !gate1_view(canonical_count, hypothesis_count).passed,
        gate2_view(modes).blocked == !gate2_view(modes).passed,
        gate3_view(p).blocked == !gate3_view(p).passed,
        gate4_view(p, scales).blocked == !gate4_view(p, scales).passed,
        gate5_view(p).blocked == !gate5_view(p).passed,
{
}

/// Every gate either passes or blocks, so a validation is never "failed":
/// it is "passed" exactly when the synthesis clears all five gates, and
/// "blocked" otherwise.
pub proof fn lemma_validation_outcome(
    p: SynthesisProvenance,
    lower_text: Seq<char>,
    canonical_count: int,
    hypothesis_count: int,
    scales: Seq<Seq<char>>,
)
    ensures
        forall|i: int| 0 <= i < 5 ==> (#[trigger] five_gates(p, lower_text, canonical_count, hypothesis_count, scales)[i]).passed
            == !five_gates(p, lower_text, canonical_count, hypothesis_count, scales)[i].blocked,
        overall_status_of(five_gates(p, lower_text, canonical_count, hypothesis_count, scales))
            == if clears_all_gates(p, lower_text, canonical_count, hypothesis_count, scales) {
                "passed"@
            } else {
                "blocked"@
            },
{
    let g = five_gates(p, lower_text, canonical_count, hypothesis_count, scales);
    assert(g.len() == 5);
    if clears_all_gates(p, lower_text, canonical_count, hypothesis_count, scales) {
        assert(missing_fields(p).len() == 0);
        assert forall|i: int| 0 <= i < g.len() implies #[trigger] g[i].passed by {
            assert(0 <= i < 5);
        }
        assert(!exists|i: int| 0 <= i < g.len() && #[trigger] g[i].blocked);
    } else {
        if !(canonical_count > 0 || hypothesis_count > 0) {
            assert(g[0].blocked);
        } else if failure_modes(p, lower_text).len() != 0 {
            assert(g[1].blocked);
        } else if p.has_open_joints && p.target_status@ == "canonical"@ {
            assert(g[2].blocked);
        } else if p.invariant_claimed && scales.len() < 2 {
            assert(g[3].blocked);
        } else {
            assert(missing_fields(p).len() > 0);
            assert(g[4].blocked);
        }
    }
}

/// The overall status of a list of gate results.
pub fn overall_status(gates: &Vec<GateResult>) -> (s: String)
    ensures
        s@ == overall_status_of(gate_views(gates@)),
{
    let ghost gv = gate_views(gates@);
    let mut any_blocked = false;
    let mut all_passed = true;
    let mut i: usize = 0;
    while i < gates.len()
        invariant
            i <= gates@.len(),
            gv == gate_views(gates@),
            gv.len() == gates@.len(),
            any_blocked == exists|j: int| 0 <= j < i && #[trigger] gv[j].blocked,
            all_passed == forall|j: int| 0 <= j < i ==> #[trigger] gv[j].passed,
        decreases gates.len() - i,
    {
        assert(gv[i as int] == gates@[i as int]@);
        let ghost old_i = i as int;
        if gates[i].blocked {
            any_blocked = true;
        }
        if !gates[i].passed {
            all_passed = false;
        }
        i = i + 1;
        proof {
            if gv[old_i].blocked {
                assert(0 <= old_i < i && gv[old_i].blocked);
            }
            if !gv[old_i].passed {
                assert(0 <= old_i < i && !gv[old_i].passed);
            }
        }
    }
    if any_blocked {
        owned("blocked")
    } else if all_passed {
        owned("passed")
    } else {
        owned("failed")
    }
}

/// Run the 5-gate validation on a synthesis, stamped at `validated_at`.
///
/// `canonical_count` and `hypothesis_count` are the numbers of canonical and
/// canonical-hypothesis nodes the synthesis cites through EVIDENCES edges;
/// `scales` are the distinct scale codes of the cited nodes.
pub fn validate_at(
    synthesis_id: &str,
    provenance: &SynthesisProvenance,
    synthesis_text: &str,
    canonical_count: i64,
    hypothesis_count: i64,
    scales: &Vec<String>,
    validated_at: String,
) -> (r: ValidationReport)
    ensures
        r.synthesis_id@ == synthesis_id@,
        gate_views(r.gates@) == five_gates(
            *provenance,
            lowercase_of(synthesis_text@),
            canonical_count as int,
            hypothesis_count as int,
            scales@.map_values(|s: String| s@),
        ),
        r.overall_status@ == overall_status_of(gate_views(r.gates@)),
        r.can_elevate_to@ == "ai-draft"@,
        r.validated_at@ == validated_at@,
{
    let mut gates: Vec<GateResult> = Vec::new();
    gates.push(gate1_grounding(canonical_count, hypothesis_count));
    gates.push(gate2_failure_mode(provenance, synthesis_text));
    gates.push(gate3_joint_validation(provenance));
    gates.push(gate4_cosmological_scope(provenance, scales));
    gates.push(gate5_provenance_completeness(provenance));
    assert(gate_views(gates@) =~= five_gates(
        *provenance,
        lowercase_of(synthesis_text@),
        canonical_count as int,
        hypothesis_count as int,
        scales@.map_values(|s: String| s@),
    ));
    let overall = overall_status(&gates);
    ValidationReport {
        synthesis_id: owned(synthesis_id),
        overall_status: overall,
        can_elevate_to: owned("ai-draft"),
        gates,
        validated_at,
    }
}

/// Run the 5-gate validation on a synthesis, stamped with the current time.
pub fn validate(
    synthesis_id: &str,
    provenance: &SynthesisProvenance,
    synthesis_text: &str,
    canonical_count: i64,
    hypothesis_count: i64,
    scales: &Vec<String>,
) -> (r: ValidationReport)
    ensures
        r.synthesis_id@ == synthesis_id@,
        gate_views(r.gates@) == five_gates(
            *provenance,
            lowercase_of(synthesis_text@),
            canonical_count as int,
            hypothesis_count as int,
            scales@.map_values(|s: String| s@),
        ),
        r.overall_status@ == overall_status_of(gate_views(r.gates@)),
        r.can_elevate_to@ == "ai-draft"@,
{
    validate_at(synthesis_id, provenance, synthesis_text, canonical_count, hypothesis_count, scales, now_iso())
}

} // verus!
