//! Text primitives over sequences of characters: suffix and infix tests and
//! separator-delimited fields.

use vstd::prelude::*;

verus! {

/// The texts of a sequence of strings.
pub open spec fn texts(items: Seq<String>) -> Seq<Seq<char>> {
    items.map_values(|s: String| s@)
}

/// `pattern` occurs in `s` starting at position `at`.
pub open spec fn occurs_at(s: Seq<char>, pattern: Seq<char>, at: int) -> bool {
    &&& 0 <= at
    &&& at + pattern.len() <= s.len()
    &&& s.subrange(at, at + pattern.len()) == pattern
}

/// `s` starts with `pattern`.
pub open spec fn is_prefix(s: Seq<char>, pattern: Seq<char>) -> bool {
    occurs_at(s, pattern, 0)
}

/// `s` ends with `pattern`.
pub open spec fn is_suffix(s: Seq<char>, pattern: Seq<char>) -> bool {
    occurs_at(s, pattern, s.len() - pattern.len())
}

/// `pattern` occurs somewhere in `s`.
pub open spec fn is_infix(s: Seq<char>, pattern: Seq<char>) -> bool {
    exists|at: int| occurs_at(s, pattern, at)
}

/// Position of the first `sep` at or after `from`, or the length of `s` when
/// there is none.
pub open spec fn field_end(s: Seq<char>, sep: char, from: int) -> int
    decreases s.len() - from,
{
    if from < 0 || from >= s.len() {
        s.len() as int
    } else if s[from] == sep {
        from
    } else {
        field_end(s, sep, from + 1)
    }
}

/// The `n`-th field, counting from zero, of the part of `s` that starts at
/// `from`, where fields are separated by `sep`.
pub open spec fn field_from(s: Seq<char>, sep: char, from: int, n: nat) -> Option<Seq<char>>
    decreases n,
{
    let end = field_end(s, sep, from);
    if n == 0 {
        Some(s.subrange(from, end))
    } else if end < s.len() {
        field_from(s, sep, end + 1, (n - 1) as nat)
    } else {
        None
    }
}

/// The `n`-th field of `s` split on `sep`; `None` when `s` holds fewer than
/// `n` separators.
pub open spec fn field(s: Seq<char>, sep: char, n: nat) -> Option<Seq<char>> {
    field_from(s, sep, 0, n)
}

/// A field ends at the first separator after its start: nothing before the
/// end is a separator, and the end is a separator unless it is the end of the
/// text.
pub proof fn lemma_field_end(s: Seq<char>, sep: char, from: int)
    requires
        0 <= from <= s.len(),
    ensures
        from <= field_end(s, sep, from) <= s.len(),
        forall|k: int| from <= k < field_end(s, sep, from) ==> s[k] != sep,
        field_end(s, sep, from) < s.len() ==> s[field_end(s, sep, from)] == sep,
    decreases s.len() - from,
{
    if from < s.len() && s[from] != sep {
        lemma_field_end(s, sep, from + 1);
    }
}

/// A text without separator is its own first field and has no second one.
pub proof fn lemma_field_of_plain_text(s: Seq<char>, sep: char)
    requires
        !s.contains(sep),
    ensures
        field(s, sep, 0) == Some(s),
        field(s, sep, 1) is None,
{
    lemma_field_end(s, sep, 0);
    reveal_with_fuel(field_from, 2);
}

/// Joining two texts with a separator and splitting again gives them back,
/// provided the first holds no separator; the second is cut at its own first
/// separator.
pub proof fn lemma_field_of_joined(a: Seq<char>, b: Seq<char>, sep: char)
    requires
        !a.contains(sep),
    ensures
        field(a + seq![sep] + b, sep, 0) == Some(a),
        field(a + seq![sep] + b, sep, 1) == field(b, sep, 0),
{
    let s = a + seq![sep] + b;
    lemma_field_end(s, sep, 0);
    assert(s[a.len() as int] == sep);
    let shift: int = a.len() as int + 1;
    lemma_field_end_shifted(s, b, sep, shift, 0);
    lemma_field_end(b, sep, 0);
    reveal_with_fuel(field_from, 2);
}

/// Where `tail` is the part of `s` from `shift` on, field ends in `tail` are
/// those of `s` moved by `shift`.
proof fn lemma_field_end_shifted(s: Seq<char>, tail: Seq<char>, sep: char, shift: int, from: int)
    requires
        0 <= shift,
        0 <= from <= tail.len(),
        s.len() == shift + tail.len(),
        forall|k: int| 0 <= k < tail.len() ==> tail[k] == s[shift + k],
    ensures
        field_end(s, sep, shift + from) == shift + field_end(tail, sep, from),
    decreases tail.len() - from,
{
    if from < tail.len() && tail[from] != sep {
        lemma_field_end_shifted(s, tail, sep, shift, from + 1);
    }
}

/// The characters of `s`, in order.
pub fn chars_of(s: &str) -> (r: Vec<char>)
    ensures
        r@ == s@,
{
    let mut out: Vec<char> = Vec::new();
    let it = s.chars();
    for c in iter: it
        invariant
            out@ == iter.history(),
            iter.seq() == s@,
    {
        out.push(c);
    }
    out
}

/// Tests whether `pattern` occurs in `s` at position `at`.
pub fn occurs_at_position(s: &Vec<char>, pattern: &Vec<char>, at: usize) -> (r: bool)
    ensures
        r == occurs_at(s@, pattern@, at as int),
{
    if pattern.len() > s.len() || at > s.len() - pattern.len() {
        return false;
    }
    let mut k: usize = 0;
    while k < pattern.len()
        invariant
            k <= pattern.len(),
            at + pattern.len() <= s.len(),
            forall|j: int| 0 <= j < k ==> s@[at + j] == pattern@[j],
        decreases pattern.len() - k,
    {
        if s[at + k] != pattern[k] {
            assert(s@.subrange(at as int, at + pattern.len())[k as int] != pattern@[k as int]);
            return false;
        }
        k += 1;
    }
    assert(s@.subrange(at as int, at + pattern.len()) =~= pattern@);
    true
}

/// Tests whether `s` is `pattern`.
pub fn equals(s: &Vec<char>, pattern: &str) -> (r: bool)
    ensures
        r == (s@ == pattern@),
{
    let p = chars_of(pattern);
    if p.len() != s.len() {
        return false;
    }
    assert(s@.subrange(0, s@.len() as int) =~= s@);
    occurs_at_position(s, &p, 0)
}

/// Tests whether `s` ends with `pattern`.
pub fn ends_with(s: &Vec<char>, pattern: &str) -> (r: bool)
    ensures
        r == is_suffix(s@, pattern@),
{
    let p = chars_of(pattern);
    if p.len() > s.len() {
        return false;
    }
    occurs_at_position(s, &p, s.len() - p.len())
}

/// Tests whether `pattern` occurs anywhere in `s`.
pub fn contains(s: &Vec<char>, pattern: &str) -> (r: bool)
    ensures
        r == is_infix(s@, pattern@),
{
    let p = chars_of(pattern);
    if p.len() > s.len() {
        return false;
    }
    let last: usize = s.len() - p.len();
    let mut at: usize = 0;
    while at < last
        invariant
            at <= last,
            last == s.len() - p.len(),
            p@ == pattern@,
            forall|j: int| 0 <= j < at ==> !occurs_at(s@, p@, j),
        decreases last - at,
    {
        if occurs_at_position(s, &p, at) {
            return true;
        }
        at += 1;
    }
    occurs_at_position(s, &p, last)
}

/// Finds where the field that starts at `from` ends.
pub fn find_field_end(s: &Vec<char>, sep: char, from: usize) -> (end: usize)
    ensures
        end == field_end(s@, sep, from as int),
        end <= s.len(),
        from <= s.len() ==> from <= end,
{
    if from >= s.len() {
        return s.len();
    }
    let mut i: usize = from;
    while i < s.len() && s[i] != sep
        invariant
            from <= i <= s.len(),
            field_end(s@, sep, from as int) == field_end(s@, sep, i as int),
        decreases s.len() - i,
    {
        i += 1;
    }
    i
}

/// The `n`-th field of `s` split on `sep`, or `None` when `s` holds fewer
/// than `n` separators.
pub fn nth_field(s: &str, sep: char, n: usize) -> (r: Option<String>)
    ensures
        r is Some <==> field(s@, sep, n as nat) is Some,
        r matches Some(f) ==> Some(f@) == field(s@, sep, n as nat),
{
    let chars = chars_of(s);
    let mut start: usize = 0;
    let mut left: usize = n;
    while left > 0
        invariant
            start <= chars.len(),
            chars@ == s@,
            field(s@, sep, n as nat) == field_from(s@, sep, start as int, left as nat),
        decreases left,
    {
        let end = find_field_end(&chars, sep, start);
        if end == chars.len() {
            return None;
        }
        start = end + 1;
        left -= 1;
    }
    let end = find_field_end(&chars, sep, start);
    Some(s.substring_char(start, end).to_owned())
}

} // verus!
