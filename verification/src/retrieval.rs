//! Naming of holographic memory-bank entries, and the expansion of a text
//! into the mantissas of its vector.

use vstd::prelude::*;

use crate::text::{chars_of, find_seq, occurs_at, owned, seq_contains, substring};

verus! {

/// An entry name split at the first `||`: node ID and label, or the whole
/// name and an empty label when there is no delimiter.
pub open spec fn entry_parts(name: Seq<char>, id: Seq<char>, label: Seq<char>) -> bool {
    if seq_contains(name, "||"@) {
        exists|i: int| #![trigger occurs_at(name, "||"@, i)]
            occurs_at(name, "||"@, i)
            && (forall|k: int| 0 <= k < i ==> !occurs_at(name, "||"@, k))
            && id == name.subrange(0, i)
            && label == name.subrange(i + 2, name.len() as int)
    } else {
        id == name && label == Seq::<char>::empty()
    }
}

/// Parse a bank entry name stored as `"node_id||label"`.
pub fn parse_entry_name(name: &str) -> (r: (String, String))
    ensures
        entry_parts(name@, r.0@, r.1@),
{
    let v = chars_of(name);
    let d = chars_of("||");
    proof { reveal_strlit("||"); }
    match find_seq(&v, &d) {
        Some(i) => {
            assert(d@.len() == 2);
            assert(occurs_at(v@, d@, i as int));
            let n = v.len();
            assert(i + 2 <= n);
            let id = substring(&v, 0, i);
            let label = substring(&v, i + 2, n);
            (id, label)
        },
        None => (owned(name), String::new()),
    }
}

/// Joining an ID and a label with `||` and parsing the result gives them
/// back, provided the ID holds no `||` and does not end with `|` (else the
/// first delimiter would be found inside or at the end of the ID).
pub proof fn lemma_entry_name_roundtrip(id: Seq<char>, label: Seq<char>)
    requires
        !seq_contains(id, "||"@),
        !(id.len() > 0 && id.last() == '|'),
    ensures
        entry_parts(id + "||"@ + label, id, label),
{
    reveal_strlit("||");
    let d = "||"@;
    let name = id + d + label;
    let n = id.len() as int;
    assert(name.subrange(n, n + 2) =~= d);
    assert(occurs_at(name, d, n));
    assert forall|k: int| 0 <= k < n implies !occurs_at(name, d, k) by {
        if occurs_at(name, d, k) {
            if k + 2 <= n {
                assert(id.subrange(k, k + 2) =~= name.subrange(k, k + 2));
                assert(occurs_at(id, d, k));
            } else {
                assert(k == n - 1);
                assert(name.subrange(k, k + 2)[0] == name[k]);
                assert(name[k] == id.last());
            }
        }
    }
    assert(name.subrange(0, n) =~= id);
    assert(name.subrange(n + 2, name.len() as int) =~= label);
}

// ─── Text vectors ────────────────────────────────────────────────────────────

/// The multiplier of the linear congruential sequence that expands a text's
/// hash into a vector.
pub const LCG_MUL: u64 = 6364136223846793005;

/// The increment of that sequence.
pub const LCG_INC: u64 = 1442695040888963407;

/// The next state of the sequence, modulo 2^64.
pub open spec fn lcg_next(s: u64) -> u64 {
    s.wrapping_mul(LCG_MUL).wrapping_add(LCG_INC)
}

/// The state `k` steps after `seed`.
pub open spec fn lcg_state(seed: u64, k: nat) -> u64
    decreases k,
{
    if k == 0 { seed } else { lcg_next(lcg_state(seed, (k - 1) as nat)) }
}

/// The top 53 bits of each of the first `n` states after `seed`: the
/// mantissas a text vector is made of.
pub open spec fn lcg_mantissas_of(seed: u64, n: nat) -> Seq<u64> {
    Seq::new(n, |i: int| lcg_state(seed, (i + 1) as nat) >> 11u64)
}

/// The top 53 bits of each of the first `n` states after `seed`.
pub fn lcg_mantissas(seed: u64, n: usize) -> (r: Vec<u64>)
    ensures
        r@ == lcg_mantissas_of(seed, n as nat),
{
    let mut r: Vec<u64> = Vec::new();
    let mut s = seed;
    let mut i: usize = 0;
    while i < n
        invariant
            i <= n,
            s == lcg_state(seed, i as nat),
            r@ =~= lcg_mantissas_of(seed, i as nat),
        decreases n - i,
    {
        s = s.wrapping_mul(LCG_MUL).wrapping_add(LCG_INC);
        assert(s == lcg_state(seed, (i + 1) as nat));
        r.push(s >> 11u64);
        i = i + 1;
    }
    r
}

/// The hash of a text under the fixed seeds (42, 42, 42, 42).
///
/// Calls `ahash::RandomState::with_seeds(42, 42, 42, 42).hash_one`. The
/// value is not stated: `ahash` documents that its hashes may differ across
/// platforms and versions.
#[verifier::external_body]
fn text_hash(text: &str) -> u64 {
    ahash::RandomState::with_seeds(42, 42, 42, 42).hash_one(text)
}

/// The mantissas of a text's vector: the linear congruential expansion of
/// the text's fixed-seed hash into `n` values.
pub fn text_mantissas(text: &str, n: usize) -> (r: Vec<u64>)
    ensures
        exists|h: u64| r@ == #[trigger] lcg_mantissas_of(h, n as nat),
{
    let h = text_hash(text);
    let r = lcg_mantissas(h, n);
    assert(r@ == lcg_mantissas_of(h, n as nat));
    r
}

} // verus!
