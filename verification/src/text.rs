//! Character-level helpers for the strings the bot reads and writes.
//!
//! Every contract here is stated over `Seq<char>`, the view of `str` and
//! `String`.

use vstd::prelude::*;
use vstd::std_specs::iter::IteratorSpec;

verus! {

/// Reads a string slice into a vector of its characters.
pub fn chars_of(s: &str) -> (out: Vec<char>)
    ensures
        out@ == s@,
{
    broadcast use vstd::string::group_string_axioms;

    let mut out: Vec<char> = Vec::new();
    let mut it = s.chars();
    loop
        invariant
            out@ + it.remaining() == s@,
            it.decrease() is Some,
        ensures
            out@ == s@,
        decreases it.decrease()->0,
    {
        match it.next() {
            Some(c) => {
                out.push(c);
            },
            None => {
                break ;
            },
        }
    }
    out
}

/// Appends one character to a string.
///
/// Trusted: this is `String::push`, which the standard library documents as
/// appending the given `char` to the end of the string.
#[verifier::external_body]
pub(crate) fn push_char(s: &mut String, c: char)
    ensures
        final(s)@ == old(s)@.push(c),
{
    s.push(c);
}

/// Appends a run of characters to a string.
pub fn push_chars(s: &mut String, run: &Vec<char>)
    ensures
        final(s)@ == old(s)@ + run@,
{
    let mut i: usize = 0;
    while i < run.len()
        invariant
            i <= run.len(),
            s@ == old(s)@ + run@.take(i as int),
        decreases run.len() - i,
    {
        push_char(s, run[i]);
        i += 1;
        assert(run@.take(i as int) == run@.take(i - 1).push(run@[i - 1]));
    }
    assert(run@.take(run.len() as int) == run@);
}

/// Builds a string out of a run of characters.
pub fn string_of(run: &Vec<char>) -> (s: String)
    ensures
        s@ == run@,
{
    let mut s = String::new();
    push_chars(&mut s, run);
    s
}

/// Whether two runs of characters are the same.
pub fn same_chars(a: &Vec<char>, b: &Vec<char>) -> (r: bool)
    ensures
        r == (a@ == b@),
{
    if a.len() != b.len() {
        return false;
    }
    let mut i: usize = 0;
    while i < a.len()
        invariant
            i <= a.len(),
            a.len() == b.len(),
            a@.take(i as int) == b@.take(i as int),
        decreases a.len() - i,
    {
        if a[i] != b[i] {
            return false;
        }
        i += 1;
        assert(a@.take(i as int) == a@.take(i - 1).push(a@[i - 1]));
        assert(b@.take(i as int) == b@.take(i - 1).push(b@[i - 1]));
    }
    assert(a@.take(a.len() as int) == a@);
    assert(b@.take(b.len() as int) == b@);
    true
}

/// Whether two string slices hold the same text.
pub fn same_text(a: &str, b: &str) -> (r: bool)
    ensures
        r == (a@ == b@),
{
    let x = chars_of(a);
    let y = chars_of(b);
    same_chars(&x, &y)
}

/// Whether `text` begins with `prefix`.
pub fn has_prefix(text: &Vec<char>, prefix: &Vec<char>) -> (r: bool)
    ensures
        r == prefix@.is_prefix_of(text@),
{
    if prefix.len() > text.len() {
        return false;
    }
    let mut i: usize = 0;
    while i < prefix.len()
        invariant
            i <= prefix.len() <= text.len(),
            forall|k: int| 0 <= k < i ==> text@[k] == prefix@[k],
        decreases prefix.len() - i,
    {
        if text[i] != prefix[i] {
            return false;
        }
        i += 1;
    }
    assert(prefix@ =~= text@.subrange(0, prefix@.len() as int));
    true
}

/// The text `a` followed by the text `b`.
pub fn join2(a: &str, b: &str) -> (s: String)
    ensures
        s@ == a@ + b@,
{
    let mut s = String::from_str(a);
    s.append(b);
    s
}

/// The characters of `text` from index `from` up to, not including, `to`.
pub fn slice_of(text: &Vec<char>, from: usize, to: usize) -> (r: Vec<char>)
    requires
        from <= to <= text.len(),
    ensures
        r@ == text@.subrange(from as int, to as int),
{
    let mut r: Vec<char> = Vec::new();
    let mut i: usize = from;
    while i < to
        invariant
            from <= i <= to <= text.len(),
            r@ == text@.subrange(from as int, i as int),
        decreases to - i,
    {
        r.push(text[i]);
        i += 1;
        assert(text@.subrange(from as int, i as int) == text@.subrange(from as int, i - 1).push(
            text@[i - 1],
        ));
    }
    r
}

/// The text `s` without any leading repetition of `p`.
pub open spec fn strip_front(s: Seq<char>, p: Seq<char>) -> Seq<char>
    decreases s.len(),
{
    if p.len() > 0 && p.is_prefix_of(s) {
        strip_front(s.skip(p.len() as int), p)
    } else {
        s
    }
}

/// The text `s` without any trailing repetition of `p`.
pub open spec fn strip_back(s: Seq<char>, p: Seq<char>) -> Seq<char>
    decreases s.len(),
{
    if p.len() > 0 && p.is_suffix_of(s) {
        strip_back(s.take(s.len() - p.len()), p)
    } else {
        s
    }
}

/// Whether `text` ends with `suffix`.
pub fn has_suffix(text: &Vec<char>, suffix: &Vec<char>) -> (r: bool)
    ensures
        r == suffix@.is_suffix_of(text@),
{
    if suffix.len() > text.len() {
        return false;
    }
    let shift = text.len() - suffix.len();
    let mut i: usize = 0;
    while i < suffix.len()
        invariant
            i <= suffix.len() <= text.len(),
            shift == text.len() - suffix.len(),
            forall|k: int| 0 <= k < i ==> text@[shift + k] == suffix@[k],
        decreases suffix.len() - i,
    {
        if text[shift + i] != suffix[i] {
            assert(text@.subrange(shift as int, text@.len() as int)[i as int] != suffix@[i as int]);
            return false;
        }
        i += 1;
    }
    assert(suffix@ =~= text@.subrange(shift as int, text@.len() as int));
    true
}

/// Takes every leading repetition of `p` off `text`.
pub fn trim_front(text: &Vec<char>, p: &Vec<char>) -> (r: Vec<char>)
    ensures
        r@ == strip_front(text@, p@),
{
    let mut rest = slice_of(text, 0, text.len());
    assert(rest@ == text@);
    while p.len() > 0 && has_prefix(&rest, p)
        invariant
            strip_front(rest@, p@) == strip_front(text@, p@),
        decreases rest.len(),
    {
        let shorter = slice_of(&rest, p.len(), rest.len());
        assert(shorter@ == rest@.skip(p@.len() as int));
        rest = shorter;
    }
    rest
}

/// Takes every trailing repetition of `p` off `text`.
pub fn trim_back(text: &Vec<char>, p: &Vec<char>) -> (r: Vec<char>)
    ensures
        r@ == strip_back(text@, p@),
{
    let mut rest = slice_of(text, 0, text.len());
    assert(rest@ == text@);
    while p.len() > 0 && has_suffix(&rest, p)
        invariant
            strip_back(rest@, p@) == strip_back(text@, p@),
        decreases rest.len(),
    {
        let shorter = slice_of(&rest, 0, rest.len() - p.len());
        assert(shorter@ == rest@.take(rest@.len() - p@.len()));
        rest = shorter;
    }
    rest
}

/// A sequence with one more element at its end holds that element and
/// what it held before.
pub proof fn lemma_push_contains<T>(q: Seq<T>, x: T)
    ensures
        forall|y: T| #[trigger] q.push(x).contains(y) <==> (q.contains(y) || y == x),
{
    let p = q.push(x);
    assert forall|y: T| p.contains(y) <==> (q.contains(y) || y == x) by {
        if p.contains(y) {
            let k = choose|k: int| 0 <= k < p.len() && p[k] == y;
            if k < q.len() {
                assert(q[k] == y);
            }
        }
        if q.contains(y) {
            let k = choose|k: int| 0 <= k < q.len() && q[k] == y;
            assert(p[k] == y);
        }
        if y == x {
            assert(p[q.len() as int] == y);
        }
    }
}

} // verus!
