//! Text utilities over the character view of strings: search, prefixes,
//! decimal rendering and joining, each with its specification.

use vstd::prelude::*;
use vstd::string::StringExecFns;
use vstd::string::StrSliceExecFns;

verus! {

/// `needle` occurs in `hay` starting at character position `i`.
pub open spec fn occurs_at(hay: Seq<char>, needle: Seq<char>, i: int) -> bool {
    &&& 0 <= i
    &&& i + needle.len() <= hay.len()
    &&& hay.subrange(i, i + needle.len()) == needle
}

/// `needle` occurs somewhere in `hay`.
pub open spec fn seq_contains(hay: Seq<char>, needle: Seq<char>) -> bool {
    exists|i: int| occurs_at(hay, needle, i)
}

/// `prefix` is a prefix of `s`.
pub open spec fn seq_starts_with(s: Seq<char>, prefix: Seq<char>) -> bool {
    occurs_at(s, prefix, 0)
}

/// The decimal digit character of `d < 10`.
pub open spec fn digit_char(d: nat) -> char {
    if d == 0 { '0' } else if d == 1 { '1' } else if d == 2 { '2' } else if d == 3 { '3' }
    else if d == 4 { '4' } else if d == 5 { '5' } else if d == 6 { '6' } else if d == 7 { '7' }
    else if d == 8 { '8' } else { '9' }
}

/// The decimal rendering of `n`, without leading zeros.
pub open spec fn dec_str(n: nat) -> Seq<char>
    decreases n,
{
    if n < 10 {
        seq![digit_char(n)]
    } else {
        dec_str(n / 10).push(digit_char(n % 10))
    }
}

/// The parts joined with `sep` between consecutive parts.
pub open spec fn join_seqs(parts: Seq<Seq<char>>, sep: Seq<char>) -> Seq<char>
    decreases parts.len(),
{
    if parts.len() == 0 {
        seq![]
    } else if parts.len() == 1 {
        parts[0]
    } else {
        join_seqs(parts.drop_last(), sep) + sep + parts.last()
    }
}

/// The Unicode lowercase mapping of a string, as `str::to_lowercase` computes it.
pub uninterp spec fn lowercase_of(s: Seq<char>) -> Seq<char>;

/// Appends one character.
///
/// Trusted: wraps `String::push`, which appends the character at the end.
#[verifier::external_body]
pub(crate) fn push_char(s: &mut String, c: char)
    ensures
        final(s)@ == old(s)@.push(c),
{
    s.push(c);
}

/// Lowercases a string.
///
/// Trusted: wraps `str::to_lowercase`; its result is named by `lowercase_of`
/// and is a function of the string alone.
#[verifier::external_body]
pub(crate) fn to_lowercase(s: &str) -> (r: String)
    ensures
        r@ == lowercase_of(s@),
{
    s.to_lowercase()
}

/// An owned copy of a string slice.
pub fn owned(s: &str) -> (r: String)
    ensures
        r@ == s@,
{
    s.to_owned()
}

/// The characters of a string.
pub fn chars_of(s: &str) -> (v: Vec<char>)
    ensures
        v@ == s@,
{
    let n = s.unicode_len();
    let mut v: Vec<char> = Vec::new();
    let mut i: usize = 0;
    while i < n
        invariant
            n == s@.len(),
            i <= n,
            v@ == s@.subrange(0, i as int),
        decreases n - i,
    {
        let c = s.get_char(i);
        v.push(c);
        i = i + 1;
        assert(v@ =~= s@.subrange(0, i as int));
    }
    assert(v@ =~= s@);
    v
}

/// A string made of the given characters.
pub fn string_of(v: &Vec<char>) -> (s: String)
    ensures
        s@ == v@,
{
    let mut s = String::new();
    let mut i: usize = 0;
    while i < v.len()
        invariant
            i <= v.len(),
            s@ == v@.subrange(0, i as int),
        decreases v.len() - i,
    {
        push_char(&mut s, v[i]);
        i = i + 1;
        assert(s@ =~= v@.subrange(0, i as int));
    }
    assert(s@ =~= v@);
    s
}

/// The characters of `v` from position `from` up to `to`, as a string.
pub fn substring(v: &Vec<char>, from: usize, to: usize) -> (s: String)
    requires
        from <= to <= v@.len(),
    ensures
        s@ == v@.subrange(from as int, to as int),
{
    let mut s = String::new();
    let mut i: usize = from;
    while i < to
        invariant
            from <= i <= to <= v@.len(),
            s@ == v@.subrange(from as int, i as int),
        decreases to - i,
    {
        push_char(&mut s, v[i]);
        i = i + 1;
        assert(s@ =~= v@.subrange(from as int, i as int));
    }
    s
}

/// Whether `needle` occurs in `hay` at position `i`.
pub fn occurs_at_exec(hay: &Vec<char>, needle: &Vec<char>, i: usize) -> (b: bool)
    ensures
        b == occurs_at(hay@, needle@, i as int),
{
    if i > hay.len() || needle.len() > hay.len() - i {
        return false;
    }
    let mut j: usize = 0;
    while j < needle.len()
        invariant
            i + needle.len() <= hay.len(),
            j <= needle.len(),
            forall|k: int| 0 <= k < j ==> hay@[i + k] == needle@[k],
        decreases needle.len() - j,
    {
        if hay[i + j] != needle[j] {
            assert(hay@.subrange(i as int, i + needle.len())[j as int] != needle@[j as int]);
            return false;
        }
        j = j + 1;
    }
    assert(hay@.subrange(i as int, i + needle@.len()) =~= needle@);
    true
}

/// The first position at which `needle` occurs in `hay`, if any.
pub fn find_seq(hay: &Vec<char>, needle: &Vec<char>) -> (r: Option<usize>)
    ensures
        match r {
            Some(i) => occurs_at(hay@, needle@, i as int)
                && forall|k: int| 0 <= k < i ==> !occurs_at(hay@, needle@, k),
            None => !seq_contains(hay@, needle@),
        },
{
    if needle.len() > hay.len() {
        return None;
    }
    if needle.len() == 0 {
        assert(hay@.subrange(0, 0) =~= needle@);
        return Some(0);
    }
    let last = hay.len() - needle.len();
    let mut i: usize = 0;
    while i <= last
        invariant
            last == hay.len() - needle.len(),
            1 <= needle.len() <= hay.len(),
            i <= last + 1,
            forall|k: int| 0 <= k < i ==> !occurs_at(hay@, needle@, k),
        decreases last + 1 - i,
    {
        if occurs_at_exec(hay, needle, i) {
            return Some(i);
        }
        i = i + 1;
    }
    None
}

/// Whether `needle` occurs in `hay`.
pub fn contains_chars(hay: &Vec<char>, needle: &Vec<char>) -> (b: bool)
    ensures
        b == seq_contains(hay@, needle@),
{
    match find_seq(hay, needle) {
        Some(_) => true,
        None => false,
    }
}

/// Whether the string `needle` occurs in `hay`.
pub fn contains_str(hay: &Vec<char>, needle: &str) -> (b: bool)
    ensures
        b == seq_contains(hay@, needle@),
{
    let n = chars_of(needle);
    contains_chars(hay, &n)
}

/// Whether `prefix` is a prefix of `s`.
pub fn starts_with_str(s: &str, prefix: &str) -> (b: bool)
    ensures
        b == seq_starts_with(s@, prefix@),
{
    let sv = chars_of(s);
    let pv = chars_of(prefix);
    occurs_at_exec(&sv, &pv, 0)
}

/// Whether two strings are equal.
pub fn str_eq(a: &str, b: &str) -> (r: bool)
    ensures
        r == (a@ == b@),
{
    let av = chars_of(a);
    let bv = chars_of(b);
    if av.len() != bv.len() {
        return false;
    }
    let r = occurs_at_exec(&av, &bv, 0);
    proof {
        if r {
            assert(av@ =~= av@.subrange(0, bv@.len() as int));
        } else {
            assert(!(av@ =~= bv@) ==> av@ != bv@);
            if av@ == bv@ {
                assert(av@.subrange(0, bv@.len() as int) =~= bv@);
            }
        }
    }
    r
}

/// The decimal digit character of `d < 10`.
pub fn digit(d: u64) -> (c: char)
    requires
        d < 10,
    ensures
        c == digit_char(d as nat),
{
    if d == 0 { '0' } else if d == 1 { '1' } else if d == 2 { '2' } else if d == 3 { '3' }
    else if d == 4 { '4' } else if d == 5 { '5' } else if d == 6 { '6' } else if d == 7 { '7' }
    else if d == 8 { '8' } else { '9' }
}

/// Appends the decimal rendering of `n`.
pub fn push_decimal(s: &mut String, n: u64)
    ensures
        final(s)@ == old(s)@ + dec_str(n as nat),
    decreases n,
{
    if n >= 10 {
        push_decimal(s, n / 10);
    }
    push_char(s, digit(n % 10));
    proof {
        if n >= 10 {
            assert(dec_str(n as nat) == dec_str((n / 10) as nat).push(digit_char((n % 10) as nat)));
        }
    }
    assert(final(s)@ =~= old(s)@ + dec_str(n as nat));
}

/// The decimal rendering of an integer, with a leading minus sign when negative.
pub open spec fn signed_dec_str(n: int) -> Seq<char> {
    if n < 0 { seq!['-'] + dec_str((-n) as nat) } else { dec_str(n as nat) }
}

/// Appends the decimal rendering of a signed integer.
pub fn push_signed(s: &mut String, n: i64)
    ensures
        final(s)@ == old(s)@ + signed_dec_str(n as int),
{
    if n < 0 {
        push_char(s, '-');
        let m: u64 = (-(n as i128)) as u64;
        push_decimal(s, m);
        assert(final(s)@ =~= old(s)@ + signed_dec_str(n as int));
    } else {
        push_decimal(s, n as u64);
    }
}

/// Appends a string slice.
pub fn push_str(s: &mut String, t: &str)
    ensures
        final(s)@ == old(s)@ + t@,
{
    s.append(t);
}

/// The parts joined with `sep`.
pub fn join(parts: &Vec<String>, sep: &str) -> (r: String)
    ensures
        r@ == join_seqs(parts@.map_values(|p: String| p@), sep@),
{
    let ghost views = parts@.map_values(|p: String| p@);
    let mut r = String::new();
    let mut i: usize = 0;
    while i < parts.len()
        invariant
            i <= parts.len(),
            views == parts@.map_values(|p: String| p@),
            r@ == join_seqs(views.take(i as int), sep@),
        decreases parts.len() - i,
    {
        assert(views.take(i + 1).drop_last() =~= views.take(i as int));
        if i != 0 {
            push_str(&mut r, sep);
        }
        push_str(&mut r, parts[i].as_str());
        i = i + 1;
        assert(r@ =~= join_seqs(views.take(i as int), sep@));
    }
    assert(views.take(parts.len() as int) =~= views);
    r
}

/// Whether `c` is an ASCII decimal digit.
pub open spec fn is_digit(c: char) -> bool {
    '0' <= c && c <= '9'
}

/// The value of a string of decimal digits.
pub open spec fn digits_value(s: Seq<char>) -> nat
    decreases s.len(),
{
    if s.len() == 0 {
        0
    } else {
        digits_value(s.drop_last()) * 10 + ((s.last() as int) - ('0' as int)) as nat
    }
}

/// The digits of an unsigned number, without the `+` sign it may carry.
pub open spec fn unsigned_digits(s: Seq<char>) -> Seq<char> {
    if s.len() > 0 && s[0] == '+' { s.drop_first() } else { s }
}

/// How std reads a `u32` from text: an optional `+`, then one or more
/// decimal digits whose value fits in 32 bits; anything else is refused.
pub open spec fn parse_u32_of(s: Seq<char>) -> Option<u32> {
    let d = unsigned_digits(s);
    if d.len() > 0 && (forall|i: int| 0 <= i < d.len() ==> is_digit(#[trigger] d[i])) && digits_value(d) <= u32::MAX {
        Some(digits_value(d) as u32)
    } else {
        None
    }
}

proof fn lemma_digits_prefix_le(d: Seq<char>, k: int)
    requires
        0 <= k <= d.len(),
        forall|i: int| 0 <= i < d.len() ==> is_digit(#[trigger] d[i]),
    ensures
        digits_value(d.take(k)) <= digits_value(d),
    decreases d.len(),
{
    if k < d.len() {
        let r = d.drop_last();
        assert forall|i: int| 0 <= i < r.len() implies is_digit(#[trigger] r[i]) by {
            assert(r[i] == d[i]);
        }
        lemma_digits_prefix_le(r, k);
        assert(r.take(k) =~= d.take(k));
    } else {
        assert(d.take(k) =~= d);
    }
}

/// Read a `u32` from text as std's `str::parse` does.
pub fn parse_u32(s: &str) -> (r: Option<u32>)
    ensures
        r == parse_u32_of(s@),
{
    let v = chars_of(s);
    let start: usize = if v.len() > 0 && v[0] == '+' { 1 } else { 0 };
    let ghost d = unsigned_digits(s@);
    assert(d =~= v@.subrange(start as int, v@.len() as int));
    if start >= v.len() {
        return None;
    }
    let mut acc: u64 = 0;
    let mut overflow = false;
    let mut i: usize = start;
    while i < v.len()
        invariant
            d == v@.subrange(start as int, v@.len() as int),
            start <= i <= v@.len(),
            forall|j: int| 0 <= j < i - start ==> is_digit(#[trigger] d[j]),
            !overflow ==> acc == digits_value(d.take(i - start)) && acc <= u32::MAX,
            overflow ==> digits_value(d.take(i - start)) > u32::MAX,
            d == unsigned_digits(s@),
            v@ == s@,
        decreases v.len() - i,
    {
        let c = v[i];
        if !('0' <= c && c <= '9') {
            assert(!is_digit(d[i - start]));
            return None;
        }
        let ghost k = (i - start) as int;
        assert(d.take(k + 1).drop_last() =~= d.take(k));
        assert(d.take(k + 1).last() == c);
        if !overflow {
            let digit = (c as u64) - ('0' as u64);
            acc = acc * 10 + digit;
            if acc > 4294967295 {
                overflow = true;
            }
        } else {
            proof {
                assert(digits_value(d.take(k + 1)) >= digits_value(d.take(k)));
            }
        }
        i = i + 1;
    }
    if overflow {
        proof {
            lemma_digits_prefix_le(d, (i - start) as int);
            assert(d.take((i - start) as int) =~= d);
        }
        None
    } else {
        assert(d.take((i - start) as int) =~= d);
        Some(acc as u32)
    }
}

/// The character views of a vector of strings.
pub open spec fn string_views(v: Seq<String>) -> Seq<Seq<char>> {
    v.map_values(|s: String| s@)
}

/// Whether a vector of strings holds `k`.
pub fn contains_string(v: &Vec<String>, k: &str) -> (b: bool)
    ensures
        b == string_views(v@).contains(k@),
{
    let ghost vs = string_views(v@);
    let mut i: usize = 0;
    while i < v.len()
        invariant
            vs == string_views(v@),
            i <= v@.len(),
            forall|j: int| 0 <= j < i ==> vs[j] != k@,
        decreases v.len() - i,
    {
        if str_eq(v[i].as_str(), k) {
            assert(vs[i as int] == k@);
            return true;
        }
        i = i + 1;
    }
    false
}

} // verus!
