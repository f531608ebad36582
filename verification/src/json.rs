//! JSON values as the output layer handles them, and the truncation of long
//! strings inside them.

use vstd::prelude::*;

use crate::text::{chars_of, dec_str, owned, push_decimal, push_str, substring};

verus! {

/// A JSON value. Numbers are kept as their JSON text; object members keep
/// their order.
#[derive(Debug)]
pub enum Json {
    Null,
    Bool(bool),
    Number(String),
    Str(String),
    Array(Vec<Json>),
    Object(Vec<(String, Json)>),
}

/// The text a long string is replaced by: its first `max` characters and
/// the number of characters of the whole.
pub open spec fn truncated_text(s: Seq<char>, max: nat) -> Seq<char> {
    s.take(max as int) + "... (truncated, "@ + dec_str(s.len()) + " chars total)"@
}

/// `b` is `a` with every string longer than `max` characters truncated, at any
/// depth.
pub open spec fn truncated_json(a: Json, b: Json, max: nat) -> bool
    decreases a,
{
    match a {
        Json::Null => b is Null,
        Json::Bool(x) => b == Json::Bool(x),
        Json::Number(n) => b matches Json::Number(m) && m@ == n@,
        Json::Str(s) => b matches Json::Str(t) && t@ == (if s@.len() > max { truncated_text(s@, max) } else { s@ }),
        Json::Array(xs) => b matches Json::Array(ys) && truncated_items(xs@, ys@, max),
        Json::Object(ms) => b matches Json::Object(ns) && truncated_members(ms@, ns@, max),
    }
}

/// Each item of `ys` is the matching item of `xs`, truncated.
pub open spec fn truncated_items(xs: Seq<Json>, ys: Seq<Json>, max: nat) -> bool
    decreases xs,
{
    &&& xs.len() == ys.len()
    &&& xs.len() > 0 ==> truncated_items(xs.drop_last(), ys.drop_last(), max)
        && truncated_json(xs.last(), ys.last(), max)
}

/// Each member of `ns` has the key of the matching member of `ms` and its
/// value, truncated.
pub open spec fn truncated_members(ms: Seq<(String, Json)>, ns: Seq<(String, Json)>, max: nat) -> bool
    decreases ms,
{
    &&& ms.len() == ns.len()
    &&& ms.len() > 0 ==> truncated_members(ms.drop_last(), ns.drop_last(), max)
        && ns.last().0@ == ms.last().0@
        && truncated_json(ms.last().1, ns.last().1, max)
}

fn truncate_text(s: &str, max_chars: usize) -> (t: String)
    ensures
        t@ == (if s@.len() > max_chars { truncated_text(s@, max_chars as nat) } else { s@ }),
{
    let v = chars_of(s);
    let total = v.len();
    if total > max_chars {
        let mut t = substring(&v, 0, max_chars);
        assert(v@.subrange(0, max_chars as int) =~= s@.take(max_chars as int));
        push_str(&mut t, "... (truncated, ");
        push_decimal(&mut t, total as u64);
        push_str(&mut t, " chars total)");
        t
    } else {
        owned(s)
    }
}

/// Truncate every string of a JSON value longer than `max_chars` characters to
/// its first `max_chars` characters, followed by the length of the whole;
/// everything else is copied as it is.
pub fn truncate_json_strings(value: &Json, max_chars: usize) -> (r: Json)
    ensures
        truncated_json(*value, r, max_chars as nat),
    decreases value,
{
    match value {
        Json::Null => Json::Null,
        Json::Bool(b) => Json::Bool(*b),
        Json::Number(n) => Json::Number(owned(n.as_str())),
        Json::Str(s) => Json::Str(truncate_text(s.as_str(), max_chars)),
        Json::Array(xs) => {
            let mut ys: Vec<Json> = Vec::new();
            let mut i: usize = 0;
            while i < xs.len()
                invariant
                    *value == Json::Array(*xs),
                    i <= xs@.len(),
                    truncated_items(xs@.take(i as int), ys@, max_chars as nat),
                decreases xs.len() - i,
            {
                proof {
                    assert(decreases_to!(*value => value->Array_0));
                    assert(decreases_to!(*xs => xs@));
                    assert(decreases_to!(xs@ => xs@[i as int]));
                }
                let y = truncate_json_strings(&xs[i], max_chars);
                let ghost before = ys@;
                ys.push(y);
                proof {
                    let t = xs@.take(i + 1);
                    assert(t.drop_last() =~= xs@.take(i as int));
                    assert(ys@.drop_last() =~= before);
                    assert(t.last() == xs@[i as int]);
                }
                i = i + 1;
            }
            assert(xs@.take(xs.len() as int) =~= xs@);
            Json::Array(ys)
        },
        Json::Object(ms) => {
            let mut ns: Vec<(String, Json)> = Vec::new();
            let mut i: usize = 0;
            while i < ms.len()
                invariant
                    *value == Json::Object(*ms),
                    i <= ms@.len(),
                    truncated_members(ms@.take(i as int), ns@, max_chars as nat),
                decreases ms.len() - i,
            {
                proof {
                    assert(decreases_to!(*value => value->Object_0));
                    assert(decreases_to!(*ms => ms@));
                    assert(decreases_to!(ms@ => ms@[i as int]));
                    assert(decreases_to!(ms@[i as int] => ms@[i as int].1));
                }
                let y = truncate_json_strings(&ms[i].1, max_chars);
                let k = owned(ms[i].0.as_str());
                let ghost before = ns@;
                ns.push((k, y));
                proof {
                    let t = ms@.take(i + 1);
                    assert(t.drop_last() =~= ms@.take(i as int));
                    assert(ns@.drop_last() =~= before);
                    assert(t.last() == ms@[i as int]);
                }
                i = i + 1;
            }
            assert(ms@.take(ms.len() as int) =~= ms@);
            Json::Object(ns)
        },
    }
}

} // verus!
