//! Character sequences: the lexicographic order of strings, substring
//! occurrence, and the few standard-library text functions the picker uses.

use vstd::prelude::*;

verus! {

/// Lexicographic order on character sequences, comparing code points one by
/// one; a proper prefix comes first. This is the order of Rust's `str`.
pub open spec fn lex_le(a: Seq<char>, b: Seq<char>) -> bool
    decreases a.len(),
{
    if a.len() == 0 {
        true
    } else if b.len() == 0 {
        false
    } else if a[0] != b[0] {
        (a[0] as int) < (b[0] as int)
    } else {
        lex_le(a.drop_first(), b.drop_first())
    }
}

/// Strict form of `lex_le`.
pub open spec fn lex_lt(a: Seq<char>, b: Seq<char>) -> bool {
    lex_le(a, b) && a != b
}

pub proof fn lemma_lex_reflexive(a: Seq<char>)
    ensures
        lex_le(a, a),
    decreases a.len(),
{
    if a.len() > 0 {
        lemma_lex_reflexive(a.drop_first());
    }
}

pub proof fn lemma_lex_total(a: Seq<char>, b: Seq<char>)
    ensures
        lex_le(a, b) || lex_le(b, a),
    decreases a.len(),
{
    if a.len() > 0 && b.len() > 0 {
        if a[0] == b[0] {
            lemma_lex_total(a.drop_first(), b.drop_first());
        } else {
            assert((a[0] as int) != (b[0] as int));
        }
    }
}

pub proof fn lemma_lex_antisymmetric(a: Seq<char>, b: Seq<char>)
    requires
        lex_le(a, b),
        lex_le(b, a),
    ensures
        a == b,
    decreases a.len(),
{
    if a.len() == 0 {
        assert(a =~= b);
    } else {
        lemma_lex_antisymmetric(a.drop_first(), b.drop_first());
        assert(a =~= seq![a[0]] + a.drop_first());
        assert(b =~= seq![b[0]] + b.drop_first());
    }
}

pub proof fn lemma_lex_transitive(a: Seq<char>, b: Seq<char>, c: Seq<char>)
    requires
        lex_le(a, b),
        lex_le(b, c),
    ensures
        lex_le(a, c),
    decreases a.len(),
{
    if a.len() > 0 && b.len() > 0 && c.len() > 0 && a[0] == b[0] && b[0] == c[0] {
        lemma_lex_transitive(a.drop_first(), b.drop_first(), c.drop_first());
    }
}

/// Compares two character sequences in the order `lex_le`.
pub fn lex_le_chars(a: &Vec<char>, b: &Vec<char>) -> (r: bool)
    ensures
        r == lex_le(a@, b@),
{
    let mut i: usize = 0;
    assert(a@.skip(0) =~= a@);
    assert(b@.skip(0) =~= b@);
    while i < a.len() && i < b.len()
        invariant
            i <= a.len(),
            i <= b.len(),
            lex_le(a@, b@) == lex_le(a@.skip(i as int), b@.skip(i as int)),
        decreases a.len() - i,
    {
        if a[i] != b[i] {
            return a[i] < b[i];
        }
        assert(a@.skip(i as int).drop_first() =~= a@.skip(i + 1));
        assert(b@.skip(i as int).drop_first() =~= b@.skip(i + 1));
        i = i + 1;
    }
    i == a.len()
}

/// `f` occurs in `s` starting at position `i`.
pub open spec fn occurs_at(s: Seq<char>, f: Seq<char>, i: int) -> bool {
    0 <= i && i + f.len() <= s.len() && s.subrange(i, i + f.len()) == f
}

/// `f` is a contiguous part of `s`; the empty sequence is part of every one.
pub open spec fn contains_seq(s: Seq<char>, f: Seq<char>) -> bool {
    exists|i: int| occurs_at(s, f, i)
}

/// Tells whether `f` occurs in `s` at position `i`.
fn occurs_at_chars(s: &Vec<char>, f: &Vec<char>, i: usize) -> (r: bool)
    requires
        i + f.len() <= s.len(),
    ensures
        r == occurs_at(s@, f@, i as int),
{
    let mut j: usize = 0;
    while j < f.len()
        invariant
            j <= f.len(),
            i + f.len() <= s.len(),
            forall|k: int| 0 <= k < j ==> s@[i + k] == f@[k],
        decreases f.len() - j,
    {
        if s[i + j] != f[j] {
            assert(s@.subrange(i as int, i + f.len())[j as int] != f@[j as int]);
            return false;
        }
        j = j + 1;
    }
    assert(s@.subrange(i as int, i + f.len()) =~= f@);
    true
}

/// Tells whether `f` occurs in `s`, trying each starting position in turn.
pub fn contains_chars(s: &Vec<char>, f: &Vec<char>) -> (r: bool)
    ensures
        r == contains_seq(s@, f@),
{
    if f.len() > s.len() {
        return false;
    }
    let last: usize = s.len() - f.len();
    let mut i: usize = 0;
    while i < last
        invariant
            i <= last,
            last == s.len() - f.len(),
            forall|k: int| 0 <= k < i ==> !occurs_at(s@, f@, k),
        decreases last - i,
    {
        if occurs_at_chars(s, f, i) {
            return true;
        }
        i = i + 1;
    }
    if occurs_at_chars(s, f, last) {
        return true;
    }
    assert forall|k: int| !occurs_at(s@, f@, k) by {
        if 0 <= k < last {
        }
    }
    false
}

/// The characters of `s`, in order.
pub fn chars_of(s: &str) -> (r: Vec<char>)
    ensures
        r@ == s@,
{
    let n = s.unicode_len();
    let mut r: Vec<char> = Vec::new();
    let mut i: usize = 0;
    while i < n
        invariant
            n == s@.len(),
            i <= n,
            r@ == s@.take(i as int),
        decreases n - i,
    {
        let c = s.get_char(i);
        r.push(c);
        assert(s@.take(i + 1) =~= s@.take(i as int).push(c));
        i = i + 1;
    }
    assert(s@.take(n as int) =~= s@);
    r
}

/// What `str::to_lowercase` makes of a character sequence.
pub uninterp spec fn lower_of(s: Seq<char>) -> Seq<char>;

/// Relies on `str::to_lowercase`: its result is a function of the characters
/// of `s` alone.
#[verifier::external_body]
pub(crate) fn lowercase(s: &str) -> (r: String)
    ensures
        r@ == lower_of(s@),
{
    s.to_lowercase()
}

/// Whether `char::is_alphanumeric` holds of `c`.
pub uninterp spec fn alphanumeric(c: char) -> bool;

/// Relies on `char::is_alphanumeric`: its result is a function of `c` alone.
#[verifier::external_body]
pub(crate) fn is_alphanumeric(c: char) -> (r: bool)
    ensures
        r == alphanumeric(c),
{
    c.is_alphanumeric()
}

/// Relies on `String::push`: appends `c` to the end of `s`.
#[verifier::external_body]
fn push_char(s: &mut String, c: char)
    ensures
        final(s)@ == old(s)@.push(c),
{
    s.push(c)
}

/// The string made of the characters of `chars`, in order.
pub fn string_of(chars: &Vec<char>) -> (r: String)
    ensures
        r@ == chars@,
{
    let mut r = String::new();
    let mut i: usize = 0;
    while i < chars.len()
        invariant
            i <= chars.len(),
            r@ == chars@.take(i as int),
        decreases chars.len() - i,
    {
        push_char(&mut r, chars[i]);
        assert(chars@.take(i + 1) =~= chars@.take(i as int).push(chars@[i as int]));
        i = i + 1;
    }
    assert(chars@.take(chars.len() as int) =~= chars@);
    r
}

} // verus!
