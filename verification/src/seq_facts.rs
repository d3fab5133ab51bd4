//! Two facts about filtering a sequence.

use vstd::prelude::*;

verus! {

/// Filtering drops exactly one element when exactly one fails the test.
pub(crate) proof fn lemma_filter_one_out<T>(s: Seq<T>, keep: spec_fn(T) -> bool, i: int)
    requires
        0 <= i < s.len(),
        !keep(s[i]),
        forall|j: int| 0 <= j < s.len() && j != i ==> keep(#[trigger] s[j]),
    ensures
        s.filter(keep) == s.remove(i),
    decreases s.len(),
{
    reveal(Seq::filter);
    let front = s.drop_last();
    if i == s.len() - 1 {
        lemma_filter_all_in(front, keep);
        assert(s.remove(i) =~= front);
    } else {
        assert forall|j: int| 0 <= j < front.len() && j != i implies keep(#[trigger] front[j]) by {
            assert(front[j] == s[j]);
        }
        lemma_filter_one_out(front, keep, i);
        assert(keep(s[s.len() - 1]));
        assert(s.remove(i) =~= front.remove(i).push(s.last()));
    }
}

/// Filtering keeps everything when everything passes the test.
pub(crate) proof fn lemma_filter_all_in<T>(s: Seq<T>, keep: spec_fn(T) -> bool)
    requires
        forall|j: int| 0 <= j < s.len() ==> keep(#[trigger] s[j]),
    ensures
        s.filter(keep) == s,
    decreases s.len(),
{
    reveal(Seq::filter);
    if s.len() > 0 {
        let front = s.drop_last();
        assert forall|j: int| 0 <= j < front.len() implies keep(#[trigger] front[j]) by {
            assert(front[j] == s[j]);
        }
        lemma_filter_all_in(front, keep);
        assert(keep(s[s.len() - 1]));
        assert(s =~= front.push(s.last()));
    } else {
        assert(s.filter(keep) =~= s);
    }
}

} // verus!
