//! The order of the command list and the sort that puts commands in it.

use crate::text::{chars_of, lex_le, lex_le_chars, lex_lt, lower_of, lowercase};
use crate::text::{lemma_lex_antisymmetric, lemma_lex_reflexive, lemma_lex_total, lemma_lex_transitive};
use vstd::prelude::*;
use vstd::relations::{sorted_by, total_ordering};
use vstd::seq_lib::{lemma_sorted_unique, to_multiset_build, to_multiset_insert};

verus! {

/// `a` may stand before `b` in the command list: the lowercased texts
/// compare first, and the exact texts break ties.
pub open spec fn command_le(a: Seq<char>, b: Seq<char>) -> bool {
    lex_lt(lower_of(a), lower_of(b)) || (lower_of(a) == lower_of(b) && lex_le(a, b))
}

/// `command_le` as a relation.
pub open spec fn command_order() -> spec_fn(Seq<char>, Seq<char>) -> bool {
    |a: Seq<char>, b: Seq<char>| command_le(a, b)
}

/// The command list order is total: the sort it defines is unique.
pub proof fn lemma_command_order_total()
    ensures
        total_ordering(command_order()),
{
    let r = command_order();
    assert forall|a: Seq<char>| #[trigger] r(a, a) by {
        lemma_lex_reflexive(a);
    }
    assert forall|a: Seq<char>, b: Seq<char>| #[trigger] r(a, b) && #[trigger] r(b, a) implies a
        == b by {
        if lower_of(a) == lower_of(b) {
            lemma_lex_antisymmetric(a, b);
        } else {
            lemma_lex_antisymmetric(lower_of(a), lower_of(b));
        }
    }
    assert forall|a: Seq<char>, b: Seq<char>, c: Seq<char>| #[trigger] r(a, b) && #[trigger] r(
        b,
        c,
    ) implies r(a, c) by {
        lemma_command_le_transitive(a, b, c);
    }
    assert forall|a: Seq<char>, b: Seq<char>| #[trigger] r(a, b) || #[trigger] r(b, a) by {
        lemma_lex_total(a, b);
        lemma_lex_total(lower_of(a), lower_of(b));
    }
}

proof fn lemma_command_le_transitive(a: Seq<char>, b: Seq<char>, c: Seq<char>)
    requires
        command_le(a, b),
        command_le(b, c),
    ensures
        command_le(a, c),
{
    let (la, lb, lc) = (lower_of(a), lower_of(b), lower_of(c));
    if la == lb && lb == lc {
        lemma_lex_transitive(a, b, c);
    } else {
        lemma_lex_reflexive(la);
        lemma_lex_reflexive(lb);
        lemma_lex_transitive(la, lb, lc);
        if la == lc {
            lemma_lex_antisymmetric(la, lb);
            lemma_lex_antisymmetric(lb, lc);
        }
    }
}

/// Compares two commands in the order `command_le`, given each one's
/// lowercased characters and its own characters.
fn command_le_chars(a_lower: &Vec<char>, a: &Vec<char>, b_lower: &Vec<char>, b: &Vec<char>) -> (r:
    bool)
    requires
        a_lower@ == lower_of(a@),
        b_lower@ == lower_of(b@),
    ensures
        r == command_le(a@, b@),
{
    let ab = lex_le_chars(a_lower, b_lower);
    let ba = lex_le_chars(b_lower, a_lower);
    proof {
        lemma_lex_reflexive(a_lower@);
        if ab && ba {
            lemma_lex_antisymmetric(a_lower@, b_lower@);
        }
    }
    if ab && !ba {
        true
    } else if ab {
        lex_le_chars(a, b)
    } else {
        false
    }
}

/// Each command is stored beside its lowercased characters and its own
/// characters.
spec fn keys_match(out: Seq<String>, lowers: Seq<Vec<char>>, texts: Seq<Vec<char>>) -> bool {
    &&& out.len() == lowers.len()
    &&& out.len() == texts.len()
    &&& forall|k: int|
        0 <= k < out.len() ==> lowers[k]@ == lower_of(#[trigger] out[k]@) && texts[k]@ == out[k]@
}

proof fn lemma_insert_sorted(s: Seq<Seq<char>>, p: int, x: Seq<char>)
    requires
        sorted_by(s, command_order()),
        0 <= p <= s.len(),
        forall|m: int| 0 <= m < p ==> command_le(#[trigger] s[m], x),
        p == s.len() || command_le(x, s[p]),
    ensures
        sorted_by(s.insert(p, x), command_order()),
{
    lemma_command_order_total();
    let t = s.insert(p, x);
    assert forall|i: int, j: int| 0 <= i < j < t.len() implies #[trigger] command_le(t[i], t[j]) by {
        if i == p {
            if j > p + 1 {
                assert(command_order()(s[p], s[j - 1]));
                lemma_command_le_transitive(x, s[p], s[j - 1]);
            }
        } else if j == p {
        } else if i < p && j > p {
            assert(command_order()(s[i], s[j - 1]));
        } else if j < p {
            assert(command_order()(s[i], s[j]));
        } else {
            assert(command_order()(s[i - 1], s[j - 1]));
        }
    }
}

/// Sorts commands case-insensitively, ties broken by the exact text. The
/// result is the unique arrangement of the same commands that is sorted in
/// that order.
pub fn sort_command_list(command_list: Vec<String>) -> (sorted: Vec<String>)
    ensures
        sorted.deep_view() == command_list.deep_view().sort_by(command_order()),
        sorted.deep_view().to_multiset() == command_list.deep_view().to_multiset(),
        sorted_by(sorted.deep_view(), command_order()),
        forall|i: int, j: int|
            0 <= i < j < sorted.len() ==> lex_le(
                lower_of(#[trigger] sorted@[i]@),
                lower_of(#[trigger] sorted@[j]@),
            ),
{
    let ghost input = command_list.deep_view();
    let mut out: Vec<String> = Vec::new();
    let mut lowers: Vec<Vec<char>> = Vec::new();
    let mut texts: Vec<Vec<char>> = Vec::new();
    let n = command_list.len();
    let mut i: usize = 0;
    assert(out.deep_view() =~= input.take(0));
    while i < n
        invariant
            n == command_list.len(),
            input == command_list.deep_view(),
            i <= n,
            out.len() == lowers.len(),
            out.len() == texts.len(),
            keys_match(out@, lowers@, texts@),
            sorted_by(out.deep_view(), command_order()),
            out.deep_view().to_multiset() == input.take(i as int).to_multiset(),
        decreases n - i,
    {
        let item = command_list[i].clone();
        let lowered = lowercase(item.as_str());
        let item_lower = chars_of(lowered.as_str());
        let item_text = chars_of(item.as_str());
        let mut p: usize = 0;
        let mut found = false;
        while !found && p < out.len()
            invariant
                p <= out.len(),
                found ==> p < out.len() && !command_le(out@[p as int]@, item@),
                out.len() == lowers.len(),
                out.len() == texts.len(),
                keys_match(out@, lowers@, texts@),
                item_lower@ == lower_of(item@),
                item_text@ == item@,
                forall|m: int| 0 <= m < p ==> command_le(#[trigger] out@[m]@, item@),
            decreases out.len() - p + (if found { 0int } else { 1int }),
        {
            assert(lowers@[p as int]@ == lower_of(out@[p as int]@));
            if command_le_chars(&lowers[p], &texts[p], &item_lower, &item_text) {
                p = p + 1;
            } else {
                found = true;
            }
        }
        let ghost before = out.deep_view();
        let ghost old_out = out@;
        proof {
            lemma_command_order_total();
            if p < out.len() {
                assert(!command_le(out@[p as int]@, item@));
                assert(command_order()(out@[p as int]@, item@) || command_order()(
                    item@,
                    out@[p as int]@,
                ));
            }
            assert forall|m: int| 0 <= m < p implies command_le(#[trigger] before[m], item@) by {
                assert(before[m] == out@[m]@);
            }
            lemma_insert_sorted(before, p as int, item@);
        }
        out.insert(p, item);
        lowers.insert(p, item_lower);
        texts.insert(p, item_text);
        assert(out.deep_view() =~= before.insert(p as int, input[i as int]));
        assert(input.take(i + 1) =~= input.take(i as int).push(input[i as int]));
        proof {
            to_multiset_insert(before, p as int, input[i as int]);
            to_multiset_build(input.take(i as int), input[i as int]);
            assert forall|k: int| 0 <= k < out.len() implies lowers@[k]@ == lower_of(
                #[trigger] out@[k]@,
            ) && texts@[k]@ == out@[k]@ by {
                if k < p {
                    assert(lowers@[k]@ == lower_of(old_out[k]@));
                } else if k > p {
                    assert(lowers@[k]@ == lower_of(old_out[k - 1]@));
                }
            }
        }
        i = i + 1;
    }
    proof {
        assert(input.take(n as int) =~= input);
        lemma_command_order_total();
        input.lemma_sort_by_ensures(command_order());
        lemma_sorted_unique(out.deep_view(), input.sort_by(command_order()), command_order());
        assert forall|a: int, b: int| 0 <= a < b < out.len() implies lex_le(
            lower_of(#[trigger] out@[a]@),
            lower_of(#[trigger] out@[b]@),
        ) by {
            assert(command_order()(out.deep_view()[a], out.deep_view()[b]));
            lemma_lex_reflexive(lower_of(out@[a]@));
        }
    }
    out
}

} // verus!
