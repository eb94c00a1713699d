//! The filter engine: the commands whose text contains the filter text, in
//! the order of the full list.

use crate::text::{chars_of, contains_chars, contains_seq, occurs_at};
use vstd::prelude::*;

verus! {

/// Whether a command is kept under filter text `f`.
pub open spec fn matches_filter(f: Seq<char>) -> spec_fn(Seq<char>) -> bool {
    |s: Seq<char>| contains_seq(s, f)
}

/// The commands of `list` that contain `f`, in the order of `list`.
pub open spec fn filter_view(list: Seq<Seq<char>>, f: Seq<char>) -> Seq<Seq<char>> {
    list.filter(matches_filter(f))
}

/// `sub` is `full` with some elements left out: the positions `idx` that its
/// elements come from rise strictly.
pub open spec fn subsequence_at<A>(sub: Seq<A>, full: Seq<A>, idx: Seq<int>) -> bool {
    &&& idx.len() == sub.len()
    &&& forall|i: int| 0 <= i < idx.len() ==> 0 <= #[trigger] idx[i] < full.len() && full[idx[i]] == sub[i]
    &&& forall|i: int, j: int| 0 <= i < j < idx.len() ==> #[trigger] idx[i] < #[trigger] idx[j]
}

/// `sub` keeps some elements of `full`, in their order.
pub open spec fn is_subsequence<A>(sub: Seq<A>, full: Seq<A>) -> bool {
    exists|idx: Seq<int>| subsequence_at(sub, full, idx)
}

/// The commands of `commands` that contain the characters `filter`, in order.
pub fn filter_by_chars(commands: &Vec<String>, filter: &Vec<char>) -> (r: Vec<String>)
    ensures
        r.deep_view() == filter_view(commands.deep_view(), filter@),
{
    let ghost full = commands.deep_view();
    let mut kept: Vec<String> = Vec::new();
    let mut i: usize = 0;
    while i < commands.len()
        invariant
            i <= commands.len(),
            full == commands.deep_view(),
            kept.deep_view() == filter_view(full.take(i as int), filter@),
        decreases commands.len() - i,
    {
        let text = chars_of(commands[i].as_str());
        let keep = contains_chars(&text, filter);
        proof {
            assert(full.take(i + 1) =~= full.take(i as int).push(full[i as int]));
            full.take(i as int).lemma_filter_push(full[i as int], matches_filter(filter@));
        }
        if keep {
            let ghost before = kept.deep_view();
            kept.push(commands[i].clone());
            assert(kept.deep_view() =~= before.push(full[i as int]));
        }
        i = i + 1;
    }
    assert(full.take(commands.len() as int) =~= full);
    kept
}

/// The commands of `commands` that contain `pattern` as a substring (case
/// matters; an empty pattern keeps every command), in order.
pub fn filter_commands(commands: &Vec<String>, pattern: &str) -> (r: Vec<String>)
    ensures
        r.deep_view() == filter_view(commands.deep_view(), pattern@),
{
    let filter = chars_of(pattern);
    filter_by_chars(commands, &filter)
}

/// Every command that filter text `f` keeps contains `f`; every command that
/// contains `f` is kept; and the kept commands are a subsequence of the list.
pub proof fn lemma_filter_sound(list: Seq<Seq<char>>, f: Seq<char>)
    ensures
        forall|i: int|
            0 <= i < filter_view(list, f).len() ==> contains_seq(
                #[trigger] filter_view(list, f)[i],
                f,
            ),
        forall|i: int|
            0 <= i < list.len() && contains_seq(list[i], f) ==> #[trigger] filter_view(
                list,
                f,
            ).contains(list[i]),
        is_subsequence(filter_view(list, f), list),
{
    broadcast use vstd::seq_lib::group_filter_ensures;

    let pred = matches_filter(f);
    assert forall|i: int| 0 <= i < filter_view(list, f).len() implies contains_seq(
        #[trigger] filter_view(list, f)[i],
        f,
    ) by {
        assert(pred(list.filter(pred)[i]));
    }
    assert forall|i: int| 0 <= i < list.len() && contains_seq(list[i], f) implies #[trigger] filter_view(
        list,
        f,
    ).contains(list[i]) by {
        assert(pred(list[i]));
    }
    lemma_filter_subsequence(list, pred);
}

proof fn lemma_filter_subsequence(list: Seq<Seq<char>>, pred: spec_fn(Seq<char>) -> bool)
    ensures
        is_subsequence(list.filter(pred), list),
    decreases list.len(),
{
    if list.len() == 0 {
        reveal(Seq::filter);
        assert(subsequence_at(list.filter(pred), list, Seq::<int>::empty()));
    } else {
        let rest = list.drop_last();
        let last = list.last();
        lemma_filter_subsequence(rest, pred);
        let idx = choose|idx: Seq<int>| subsequence_at(rest.filter(pred), rest, idx);
        assert(rest.push(last) =~= list);
        rest.lemma_filter_push(last, pred);
        if pred(last) {
            let idx2 = idx.push(list.len() - 1);
            assert(subsequence_at(list.filter(pred), list, idx2));
        } else {
            assert(subsequence_at(list.filter(pred), list, idx));
        }
    }
}

/// The empty filter text keeps every command.
pub proof fn lemma_empty_filter_keeps_all(list: Seq<Seq<char>>)
    ensures
        filter_view(list, Seq::<char>::empty()) == list,
    decreases list.len(),
{
    let pred = matches_filter(Seq::<char>::empty());
    if list.len() == 0 {
        reveal(Seq::filter);
    } else {
        let rest = list.drop_last();
        lemma_empty_filter_keeps_all(rest);
        assert(rest.push(list.last()) =~= list);
        rest.lemma_filter_push(list.last(), pred);
        assert(list.last().subrange(0, 0) =~= Seq::<char>::empty());
        assert(occurs_at(list.last(), Seq::<char>::empty(), 0));
    }
}

/// Filtering with the empty text twice gives back the full list.
pub proof fn lemma_empty_filter_idempotent(list: Seq<Seq<char>>)
    ensures
        filter_view(filter_view(list, Seq::<char>::empty()), Seq::<char>::empty()) == list,
{
    lemma_empty_filter_keeps_all(list);
    lemma_empty_filter_keeps_all(filter_view(list, Seq::<char>::empty()));
}

} // verus!
