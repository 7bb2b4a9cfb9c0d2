//! Facts about filtered sequences.

use vstd::prelude::*;

verus! {

/// Filtering one more element keeps it at the end or drops it.
pub proof fn lemma_filter_step<A>(s: Seq<A>, i: int, keep: spec_fn(A) -> bool)
    requires
        0 <= i < s.len(),
    ensures
        s.take(i + 1).filter(keep) == if keep(s[i]) {
            s.take(i).filter(keep).push(s[i])
        } else {
            s.take(i).filter(keep)
        },
{
    reveal(Seq::filter);
    assert(s.take(i + 1).drop_last() =~= s.take(i));
}

/// A filter that keeps every element keeps the sequence.
pub proof fn lemma_filter_keeps_all<A>(s: Seq<A>, keep: spec_fn(A) -> bool)
    requires
        forall|i: int| 0 <= i < s.len() ==> keep(#[trigger] s[i]),
    ensures
        s.filter(keep) == s,
    decreases s.len(),
{
    reveal(Seq::filter);
    if s.len() > 0 {
        lemma_filter_keeps_all(s.drop_last(), keep);
        assert(s =~= s.drop_last().push(s.last()));
    }
}

/// Where every element is kept the filtered sequence is as long as the whole one, and nowhere
/// else.
pub proof fn lemma_filter_shortens<A>(s: Seq<A>, keep: spec_fn(A) -> bool)
    ensures
        s.filter(keep).len() <= s.len(),
        s.filter(keep).len() == s.len() <==> (forall|i: int|
            0 <= i < s.len() ==> keep(#[trigger] s[i])),
    decreases s.len(),
{
    reveal(Seq::filter);
    if s.len() > 0 {
        lemma_filter_shortens(s.drop_last(), keep);
        if forall|i: int| 0 <= i < s.len() ==> keep(#[trigger] s[i]) {
            assert forall|i: int| 0 <= i < s.drop_last().len() implies keep(
                #[trigger] s.drop_last()[i],
            ) by {
                assert(keep(s[i]));
            }
            assert(keep(s[s.len() - 1]));
        }
        if s.filter(keep).len() == s.len() {
            assert forall|i: int| 0 <= i < s.len() implies keep(#[trigger] s[i]) by {
                if i < s.len() - 1 {
                    assert(keep(s.drop_last()[i]));
                }
            }
        }
    }
}

/// What a filter keeps is in the sequence and passes the filter, and all of that is kept.
pub proof fn lemma_filter_members<A>(s: Seq<A>, keep: spec_fn(A) -> bool)
    ensures
        forall|i: int|
            0 <= i < s.filter(keep).len() ==> keep(#[trigger] s.filter(keep)[i]) && s.contains(
                s.filter(keep)[i],
            ),
        forall|i: int|
            0 <= i < s.len() && keep(#[trigger] s[i]) ==> s.filter(keep).contains(s[i]),
    decreases s.len(),
{
    reveal(Seq::filter);
    if s.len() > 0 {
        let front = s.drop_last();
        lemma_filter_members(front, keep);
        let kept = s.filter(keep);
        let kept_front = front.filter(keep);
        assert forall|i: int| 0 <= i < kept.len() implies keep(#[trigger] kept[i]) && s.contains(
            kept[i],
        ) by {
            if i < kept_front.len() {
                assert(kept[i] == kept_front[i]);
                let j = choose|j: int| 0 <= j < front.len() && front[j] == kept_front[i];
                assert(s[j] == kept[i]);
            } else {
                assert(s[s.len() - 1] == kept[i]);
            }
        }
        assert forall|i: int| 0 <= i < s.len() && keep(#[trigger] s[i]) implies kept.contains(
            s[i],
        ) by {
            if i < s.len() - 1 {
                assert(front[i] == s[i]);
                let j = choose|j: int| 0 <= j < kept_front.len() && kept_front[j] == front[i];
                assert(kept[j] == s[i]);
            } else {
                assert(kept[kept.len() - 1] == s[i]);
            }
        }
    }
}

/// The first element that passes a filter is the first that it keeps.
pub proof fn lemma_first_kept<A>(s: Seq<A>, i: int, keep: spec_fn(A) -> bool)
    requires
        0 <= i < s.len(),
        keep(s[i]),
        forall|j: int| 0 <= j < i ==> !keep(#[trigger] s[j]),
    ensures
        s.filter(keep).len() > 0,
        s.filter(keep)[0] == s[i],
{
    let front = s.take(i);
    let back = s.skip(i + 1);
    assert(s =~= (front + seq![s[i]]) + back);
    Seq::filter_distributes_over_add(front + seq![s[i]], back, keep);
    Seq::filter_distributes_over_add(front, seq![s[i]], keep);
    lemma_filter_members(front, keep);
    if front.filter(keep).len() > 0 {
        let a = front.filter(keep)[0];
        assert(keep(a) && front.contains(a));
        let j = choose|j: int| 0 <= j < front.len() && front[j] == a;
        assert(s[j] == a);
    }
    reveal(Seq::filter);
    let one = seq![s[i]];
    assert(one.last() == s[i]);
    assert(one.drop_last() =~= Seq::<A>::empty());
    assert(one.filter(keep) =~= one);
}

/// What holds of every two elements in their order holds of those that a filter keeps.
pub proof fn lemma_filter_keeps_pairs<A>(
    s: Seq<A>,
    keep: spec_fn(A) -> bool,
    related: spec_fn(A, A) -> bool,
)
    requires
        forall|i: int, j: int|
            0 <= i < j < s.len() ==> related(#[trigger] s[i], #[trigger] s[j]),
    ensures
        forall|i: int, j: int|
            0 <= i < j < s.filter(keep).len() ==> related(
                #[trigger] s.filter(keep)[i],
                #[trigger] s.filter(keep)[j],
            ),
    decreases s.len(),
{
    reveal(Seq::filter);
    if s.len() > 0 {
        let front = s.drop_last();
        assert forall|i: int, j: int| 0 <= i < j < front.len() implies related(
            #[trigger] front[i],
            #[trigger] front[j],
        ) by {
            assert(related(s[i], s[j]));
        }
        lemma_filter_keeps_pairs(front, keep, related);
        lemma_filter_members(front, keep);
        assert forall|i: int, j: int| 0 <= i < j < s.filter(keep).len() implies related(
            #[trigger] s.filter(keep)[i],
            #[trigger] s.filter(keep)[j],
        ) by {
            let kept = front.filter(keep);
            if j < kept.len() {
                assert(related(kept[i], kept[j]));
            } else {
                assert(front.contains(kept[i]));
                let k = choose|k: int| 0 <= k < front.len() && front[k] == kept[i];
                assert(related(s[k], s[s.len() - 1]));
            }
        }
    }
}

/// Filters that agree on every element keep the same ones.
pub proof fn lemma_filters_agree<A>(s: Seq<A>, f: spec_fn(A) -> bool, g: spec_fn(A) -> bool)
    requires
        forall|i: int| 0 <= i < s.len() ==> f(#[trigger] s[i]) == g(s[i]),
    ensures
        s.filter(f) == s.filter(g),
    decreases s.len(),
{
    reveal(Seq::filter);
    if s.len() > 0 {
        let front = s.drop_last();
        assert forall|i: int| 0 <= i < front.len() implies f(#[trigger] front[i]) == g(
            front[i],
        ) by {
            assert(front[i] == s[i]);
        }
        lemma_filters_agree(front, f, g);
        assert(f(s[s.len() - 1]) == g(s[s.len() - 1]));
    }
}

/// Filtering twice is filtering once by both filters.
pub proof fn lemma_filter_twice<A>(s: Seq<A>, f: spec_fn(A) -> bool, g: spec_fn(A) -> bool)
    ensures
        s.filter(f).filter(g) == s.filter(|a: A| f(a) && g(a)),
    decreases s.len(),
{
    reveal(Seq::filter);
    let both = |a: A| f(a) && g(a);
    if s.len() > 0 {
        let front = s.drop_last();
        let last = s.last();
        lemma_filter_twice(front, f, g);
        if f(last) {
            let kept = front.filter(f);
            assert(s.filter(f) == kept.push(last));
            assert(kept.push(last).drop_last() =~= kept);
            assert(kept.push(last).last() == last);
            assert(s.filter(f).filter(g) =~= if g(last) {
                kept.filter(g).push(last)
            } else {
                kept.filter(g)
            });
        }
        assert(s.filter(both) =~= if both(last) {
            front.filter(both).push(last)
        } else {
            front.filter(both)
        });
    }
}

/// Filtering a sequence with one more element at its end keeps or drops that element.
pub proof fn lemma_filter_push<A>(s: Seq<A>, a: A, keep: spec_fn(A) -> bool)
    ensures
        s.push(a).filter(keep) == if keep(a) {
            s.filter(keep).push(a)
        } else {
            s.filter(keep)
        },
{
    reveal(Seq::filter);
    assert(s.push(a).drop_last() =~= s);
}

} // verus!
