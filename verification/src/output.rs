//! Output helpers for agent-facing text.

use vstd::prelude::*;

use crate::text::{dec_str, owned, push_decimal, push_str};

verus! {

/// `s` truncated to `max` characters, followed by a note of its full length
/// when it is longer.
pub open spec fn truncated(s: Seq<char>, max: nat) -> Seq<char> {
    if s.len() <= max {
        s
    } else {
        s.subrange(0, max as int) + "...\n  ... (truncated, "@ + dec_str(s.len()) + " chars total)"@
    }
}

/// Truncate a string to max characters with ellipsis.
pub fn truncate_str(s: &str, max: usize) -> (r: String)
    ensures
        r@ == truncated(s@, max as nat),
{
    let count = s.unicode_len();
    if count <= max {
        owned(s)
    } else {
        let head = s.substring_char(0, max);
        let mut r = owned(head);
        push_str(&mut r, "...\n  ... (truncated, ");
        push_decimal(&mut r, count as u64);
        push_str(&mut r, " chars total)");
        r
    }
}

/// A string within the limit is returned unchanged; a longer one keeps
/// exactly its first `max` characters before the note.
pub proof fn lemma_truncation_keeps_prefix(s: Seq<char>, max: nat)
    ensures
        s.len() <= max ==> truncated(s, max) == s,
        s.len() > max ==> truncated(s, max).subrange(0, max as int) == s.subrange(0, max as int),
{
    if s.len() > max {
        let t = truncated(s, max);
        assert(t.subrange(0, max as int) =~= s.subrange(0, max as int));
    }
}

} // verus!
