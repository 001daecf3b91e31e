//! Sets of access letters.
//!
//! A [`FlagSet`] is a finite set of characters that never holds a sign
//! (`+` or `-`): signs only delimit the groups of a mode string. Its view is
//! the mathematical set of its letters; [`letter_run`] names the one way of
//! writing such a set down in ascending code-point order.

use vstd::prelude::*;
use crate::text::{chars_of, lemma_push_contains, same_chars};

verus! {

/// Whether `c` is one of the two signs of a mode string.
pub open spec fn is_sign(c: char) -> bool {
    c == '+' || c == '-'
}

/// Whether the characters of `q` strictly ascend by code point.
pub open spec fn ascending(q: Seq<char>) -> bool {
    forall|i: int, j: int| 0 <= i < j < q.len() ==> q[i] < q[j]
}

/// Whether `q` lists exactly the members of `s`, in ascending order.
pub open spec fn lists(q: Seq<char>, s: Set<char>) -> bool {
    &&& ascending(q)
    &&& forall|c: char| q.contains(c) <==> s.contains(c)
}

/// The members of `s` written in ascending code-point order.
pub open spec fn letter_run(s: Set<char>) -> Seq<char> {
    choose|q: Seq<char>| lists(q, s)
}

/// Whether `s` can be the content of a flag set: finite and free of signs.
pub open spec fn valid_flags(s: Set<char>) -> bool {
    &&& s.finite()
    &&& !s.contains('+')
    &&& !s.contains('-')
}

/// Two ascending sequences with the same members are the same sequence.
pub proof fn lemma_ascending_unique(a: Seq<char>, b: Seq<char>)
    requires
        ascending(a),
        ascending(b),
        forall|c: char| a.contains(c) <==> b.contains(c),
    ensures
        a == b,
    decreases a.len(),
{
    if a.len() == 0 {
        if b.len() > 0 {
            assert(b.contains(b[0]));
            assert(a.contains(b[0]));
        }
        assert(a =~= b);
    } else {
        assert(a.contains(a[0]));
        assert(b.contains(a[0]));
        let j = choose|j: int| 0 <= j < b.len() && b[j] == a[0];
        assert(b.contains(b[0]));
        assert(a.contains(b[0]));
        let i = choose|i: int| 0 <= i < a.len() && a[i] == b[0];
        assert(a[0] == b[0]) by {
            if i > 0 {
                assert(a[0] < a[i]);
            }
            if j > 0 {
                assert(b[0] < b[j]);
            }
        }
        let a1 = a.drop_first();
        let b1 = b.drop_first();
        assert(ascending(a1)) by {
            assert forall|x: int, y: int| 0 <= x < y < a1.len() implies a1[x] < a1[y] by {
                assert(a1[x] == a[x + 1] && a1[y] == a[y + 1]);
            }
        }
        assert(ascending(b1)) by {
            assert forall|x: int, y: int| 0 <= x < y < b1.len() implies b1[x] < b1[y] by {
                assert(b1[x] == b[x + 1] && b1[y] == b[y + 1]);
            }
        }
        assert forall|c: char| a1.contains(c) <==> b1.contains(c) by {
            lemma_tail_members(a, c);
            lemma_tail_members(b, c);
        }
        lemma_ascending_unique(a1, b1);
        assert(a =~= seq![a[0]] + a1);
        assert(b =~= seq![b[0]] + b1);
    }
}

/// The tail of a non-empty ascending sequence holds its members but the first.
proof fn lemma_tail_members(a: Seq<char>, c: char)
    requires
        ascending(a),
        a.len() > 0,
    ensures
        a.drop_first().contains(c) <==> (a.contains(c) && c != a[0]),
{
    let t = a.drop_first();
    if t.contains(c) {
        let k = choose|k: int| 0 <= k < t.len() && t[k] == c;
        assert(a[k + 1] == c);
        assert(a[0] < a[k + 1]);
    }
    if a.contains(c) && c != a[0] {
        let k = choose|k: int| 0 <= k < a.len() && a[k] == c;
        assert(t[k - 1] == c);
    }
}

/// A sequence that lists a set is that set's letter run.
pub proof fn lemma_run_is(q: Seq<char>, s: Set<char>)
    requires
        lists(q, s),
    ensures
        letter_run(s) == q,
{
    lemma_ascending_unique(letter_run(s), q);
}

/// A non-empty finite set of characters has a least member.
proof fn lemma_least(s: Set<char>) -> (m: char)
    requires
        s.finite(),
        s.len() > 0,
    ensures
        s.contains(m),
        forall|c: char| s.contains(c) ==> m <= c,
    decreases s.len(),
{
    let x = s.choose();
    let t = s.remove(x);
    if t.len() == 0 {
        assert forall|c: char| s.contains(c) implies x <= c by {
            if c != x {
                assert(t.contains(c));
            }
        }
        x
    } else {
        let m = lemma_least(t);
        if x <= m {
            assert forall|c: char| s.contains(c) implies x <= c by {
                if c != x {
                    assert(t.contains(c));
                }
            }
            x
        } else {
            assert forall|c: char| s.contains(c) implies m <= c by {
                if c != x {
                    assert(t.contains(c));
                }
            }
            m
        }
    }
}

/// Every finite set of characters has a letter run: it ascends and holds
/// exactly the members of the set.
pub proof fn lemma_run_lists(s: Set<char>)
    requires
        s.finite(),
    ensures
        lists(letter_run(s), s),
    decreases s.len(),
{
    if s.len() == 0 {
        let q = Seq::<char>::empty();
        assert(lists(q, s)) by {
            assert forall|c: char| q.contains(c) <==> s.contains(c) by {
                if s.contains(c) {
                    assert(s.len() > 0);
                }
            }
        }
    } else {
        let m = lemma_least(s);
        let t = s.remove(m);
        lemma_run_lists(t);
        let rest = letter_run(t);
        let q = seq![m] + rest;
        assert(lists(q, s)) by {
            assert forall|i: int, j: int| 0 <= i < j < q.len() implies q[i] < q[j] by {
                assert(q[j] == rest[j - 1]);
                assert(rest.contains(rest[j - 1]));
                assert(t.contains(q[j]));
                if i > 0 {
                    assert(q[i] == rest[i - 1]);
                }
            }
            assert forall|c: char| q.contains(c) <==> s.contains(c) by {
                if q.contains(c) {
                    let k = choose|k: int| 0 <= k < q.len() && q[k] == c;
                    if k > 0 {
                        assert(rest[k - 1] == c);
                        assert(rest.contains(c));
                    }
                }
                if s.contains(c) {
                    if c == m {
                        assert(q[0] == c);
                    } else {
                        assert(t.contains(c));
                        assert(rest.contains(c));
                        let k = choose|k: int| 0 <= k < rest.len() && rest[k] == c;
                        assert(q[k + 1] == c);
                    }
                }
            }
        }
    }
}

/// A finite set of access letters, free of signs.
#[derive(Debug, PartialEq, Eq)]
pub struct FlagSet {
    letters: Vec<char>,
}

impl View for FlagSet {
    type V = Set<char>;

    closed spec fn view(&self) -> Set<char> {
        flags_in(self.letters@)
    }
}

impl FlagSet {
    #[verifier::type_invariant]
    spec fn inv(&self) -> bool {
        &&& ascending(self.letters@)
        &&& forall|i: int| 0 <= i < self.letters@.len() ==> !is_sign(#[trigger] self.letters@[i])
    }

    /// The empty set.
    pub fn new() -> (r: Self)
        ensures
            r@ == Set::<char>::empty(),
    {
        let r = FlagSet { letters: Vec::new() };
        assert(r@ =~= Set::<char>::empty());
        r
    }

    /// With the letters free of signs, the view is the set of the letters.
    proof fn lemma_members(self)
        requires
            self.inv(),
        ensures
            self@ == self.letters@.to_set(),
    {
        assert forall|c: char| self.letters@.contains(c) implies !is_sign(c) by {
            let k = choose|k: int| 0 <= k < self.letters@.len() && self.letters@[k] == c;
            assert(!is_sign(self.letters@[k]));
        }
        assert(self@ =~= self.letters@.to_set());
    }

    /// The number of letters in the set.
    pub fn len(&self) -> (n: usize)
        ensures
            n == self@.len(),
    {
        proof {
            use_type_invariant(self);
            self.lemma_members();
            assert(self.letters@.no_duplicates());
            self.letters@.unique_seq_to_set();
        }
        self.letters.len()
    }

    /// Whether the set holds no letter.
    pub fn is_empty(&self) -> (r: bool)
        ensures
            r == (self@ == Set::<char>::empty()),
    {
        proof {
            use_type_invariant(self);
            self.lemma_members();
            if self.letters@.len() > 0 {
                assert(self.letters@.contains(self.letters@[0]));
                assert(self@.contains(self.letters@[0]));
            } else {
                assert(self@ =~= Set::<char>::empty());
            }
        }
        self.letters.len() == 0
    }

    /// Whether `c` is in the set.
    pub fn contains(&self, c: char) -> (r: bool)
        ensures
            r == self@.contains(c),
    {
        proof {
            use_type_invariant(self);
            self.lemma_members();
        }
        let mut i: usize = 0;
        while i < self.letters.len()
            invariant
                i <= self.letters.len(),
                self@ == self.letters@.to_set(),
                forall|k: int| 0 <= k < i ==> self.letters@[k] != c,
            decreases self.letters.len() - i,
        {
            if self.letters[i] == c {
                assert(self.letters@.contains(c));
                return true;
            }
            i += 1;
        }
        false
    }

    /// The letters of the set in ascending code-point order.
    pub fn letters(&self) -> (r: Vec<char>)
        ensures
            r@ == letter_run(self@),
    {
        proof {
            use_type_invariant(self);
            self.lemma_members();
            lemma_run_is(self.letters@, self@);
        }
        self.letters.clone()
    }

    /// Whether the two sets hold the same letters.
    pub fn same_as(&self, other: &FlagSet) -> (r: bool)
        ensures
            r == (self@ == other@),
    {
        proof {
            use_type_invariant(self);
            self.lemma_members();
            use_type_invariant(other);
            other.lemma_members();
            if self@ == other@ {
                assert forall|c: char|
                    self.letters@.contains(c) <==> other.letters@.contains(c) by {
                    assert(self@.contains(c) == other@.contains(c));
                }
                lemma_ascending_unique(self.letters@, other.letters@);
            }
        }
        same_chars(&self.letters, &other.letters)
    }

    /// Adds `c` to the set, unless it is a sign. Tells whether the set grew.
    pub fn insert(&mut self, c: char) -> (added: bool)
        ensures
            final(self)@ == if is_sign(c) { old(self)@ } else { old(self)@.insert(c) },
            added == (!is_sign(c) && !old(self)@.contains(c)),
    {
        proof {
            use_type_invariant(&*self);
            self.lemma_members();
        }
        if c == '+' || c == '-' {
            return false;
        }
        let mut i: usize = 0;
        while i < self.letters.len() && self.letters[i] < c
            invariant
                i <= self.letters.len(),
                self.letters == old(self).letters,
                forall|k: int| 0 <= k < i ==> self.letters@[k] < c,
            decreases self.letters.len() - i,
        {
            i += 1;
        }
        if i < self.letters.len() && self.letters[i] == c {
            assert(self.letters@.contains(c));
            assert(self@ =~= old(self)@.insert(c));
            return false;
        }
        let ghost before = self.letters@;
        assert(!before.contains(c)) by {
            if before.contains(c) {
                let k = choose|k: int| 0 <= k < before.len() && before[k] == c;
                if k > i {
                    assert(before[i as int] < before[k]);
                }
            }
        }
        let mut grown = self.letters.clone();
        grown.insert(i, c);
        self.letters = grown;
        proof {
            let after = self.letters@;
            assert(after == before.insert(i as int, c));
            assert forall|x: int, y: int| 0 <= x < y < after.len() implies after[x] < after[y] by {
                if y < i {
                } else if y == i {
                } else if x < i {
                    assert(after[y] == before[y - 1]);
                    if y - 1 > i {
                        assert(before[i as int] < before[y - 1]);
                    }
                } else if x == i {
                    assert(after[y] == before[y - 1]);
                    if y - 1 > i {
                        assert(before[i as int] < before[y - 1]);
                    }
                } else {
                    assert(after[x] == before[x - 1]);
                    assert(after[y] == before[y - 1]);
                }
            }
            assert forall|k: int| 0 <= k < after.len() implies !is_sign(#[trigger] after[k]) by {
                if k < i {
                    assert(after[k] == before[k]);
                } else if k > i {
                    assert(after[k] == before[k - 1]);
                }
            }
            assert forall|d: char| after.contains(d) <==> (before.contains(d) || d == c) by {
                if after.contains(d) {
                    let k = choose|k: int| 0 <= k < after.len() && after[k] == d;
                    if k < i {
                        assert(before[k] == d);
                    } else if k > i {
                        assert(before[k - 1] == d);
                    }
                }
                if before.contains(d) {
                    let k = choose|k: int| 0 <= k < before.len() && before[k] == d;
                    if k < i {
                        assert(after[k] == d);
                    } else {
                        assert(after[k + 1] == d);
                    }
                }
                if d == c {
                    assert(after[i as int] == d);
                }
            }
            self.lemma_members();
            assert(self@ =~= old(self)@.insert(c));
        }
        true
    }
    /// Adds every letter of `other` to the set.
    pub fn extend(&mut self, other: &FlagSet)
        ensures
            final(self)@ == old(self)@.union(other@),
    {
        proof {
            use_type_invariant(other);
            other.lemma_members();
        }
        let mut i: usize = 0;
        while i < other.letters.len()
            invariant
                i <= other.letters.len(),
                forall|k: int|
                    0 <= k < other.letters@.len() ==> !is_sign(#[trigger] other.letters@[k]),
                self@ == old(self)@.union(other.letters@.take(i as int).to_set()),
            decreases other.letters.len() - i,
        {
            let c = other.letters[i];
            assert(!is_sign(other.letters@[i as int]));
            self.insert(c);
            i += 1;
            proof {
                let a = other.letters@.take(i - 1);
                let b = other.letters@.take(i as int);
                assert(b == a.push(c));
                lemma_push_contains(a, c);
                assert(b.to_set() =~= a.to_set().insert(c));
                assert(self@ =~= old(self)@.union(b.to_set()));
            }
        }
        assert(other.letters@.take(other.letters@.len() as int) == other.letters@);
    }

    /// The letters of this set that `other` does not hold.
    pub fn difference(&self, other: &FlagSet) -> (r: FlagSet)
        ensures
            r@ == self@.difference(other@),
    {
        proof {
            use_type_invariant(self);
            self.lemma_members();
        }
        let mut r = FlagSet::new();
        let mut i: usize = 0;
        while i < self.letters.len()
            invariant
                i <= self.letters.len(),
                forall|k: int|
                    0 <= k < self.letters@.len() ==> !is_sign(#[trigger] self.letters@[k]),
                r@ == self.letters@.take(i as int).to_set().difference(other@),
            decreases self.letters.len() - i,
        {
            let c = self.letters[i];
            assert(!is_sign(self.letters@[i as int]));
            let skip = other.contains(c);
            if !skip {
                r.insert(c);
            }
            i += 1;
            proof {
                let a = self.letters@.take(i - 1);
                let b = self.letters@.take(i as int);
                assert(b == a.push(c));
                lemma_push_contains(a, c);
                assert(r@ =~= b.to_set().difference(other@));
            }
        }
        assert(self.letters@.take(self.letters@.len() as int) == self.letters@);
        r
    }
}

/// The letters that a piece of text names: its characters but the signs.
pub open spec fn flags_in(text: Seq<char>) -> Set<char> {
    Set::new(|c: char| text.contains(c) && !is_sign(c))
}

/// Reads a set of access letters out of a piece of text, leaving out `+`
/// and `-`.
pub fn parse_flags(input: &str) -> (r: FlagSet)
    ensures
        r@ == flags_in(input@),
{
    let text = chars_of(input);
    let mut r = FlagSet::new();
    let mut i: usize = 0;
    while i < text.len()
        invariant
            i <= text.len(),
            r@ == flags_in(text@.take(i as int)),
        decreases text.len() - i,
    {
        let c = text[i];
        r.insert(c);
        i += 1;
        proof {
            let a = text@.take(i - 1);
            let b = text@.take(i as int);
            assert(b == a.push(c));
            lemma_push_contains(a, c);
            assert(r@ =~= flags_in(b));
        }
    }
    assert(text@.take(text@.len() as int) == text@);
    r
}

/// The letters of a piece of text can be held by a flag set.
pub proof fn lemma_flags_in_are_valid(text: Seq<char>)
    ensures
        valid_flags(flags_in(text)),
{
    vstd::seq_lib::seq_to_set_is_finite(text);
    assert(flags_in(text).subset_of(text.to_set()));
    vstd::set_lib::lemma_len_subset(flags_in(text), text.to_set());
}

/// What a flag set holds is finite and free of signs.
pub proof fn lemma_flag_set_is_valid(set: FlagSet)
    ensures
        valid_flags(set@),
{
    lemma_flags_in_are_valid(set.letters@);
}

impl Clone for FlagSet {
    fn clone(&self) -> (r: Self)
        ensures
            r@ == self@,
    {
        proof {
            use_type_invariant(self);
            self.lemma_members();
        }
        FlagSet { letters: self.letters.clone() }
    }
}

impl Default for FlagSet {
    fn default() -> (r: Self)
        ensures
            r@ == Set::<char>::empty(),
    {
        FlagSet::new()
    }
}

} // verus!
