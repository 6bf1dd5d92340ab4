//! Facts about what a filter keeps of a sequence.

use vstd::prelude::*;

verus! {

/// Every row that a filter keeps is a row of the sequence.
pub proof fn lemma_filter_within<A>(rows: Seq<A>, keep: spec_fn(A) -> bool, i: int)
    requires
        0 <= i < rows.filter(keep).len(),
    ensures
        rows.contains(rows.filter(keep)[i]),
        keep(rows.filter(keep)[i]),
{
    let kept = rows.filter(keep);
    assert(kept.contains(kept[i]));
    rows.lemma_filter_contains_rev(keep, kept[i]);
    rows.lemma_filter_pred(keep, i);
}

/// Where no two rows of a sequence share a key, no two rows that a filter
/// keeps do.
pub proof fn lemma_filter_distinct<A>(rows: Seq<A>, keep: spec_fn(A) -> bool, key: spec_fn(A) -> u64)
    requires
        forall|i: int, j: int|
            0 <= i < j < rows.len() ==> key(#[trigger] rows[i]) != key(#[trigger] rows[j]),
    ensures
        forall|i: int, j: int|
            0 <= i < j < rows.filter(keep).len() ==> key(#[trigger] rows.filter(keep)[i]) != key(
                #[trigger] rows.filter(keep)[j],
            ),
    decreases rows.len(),
{
    reveal(Seq::filter);
    if rows.len() > 0 {
        let front = rows.drop_last();
        let kept = rows.filter(keep);
        assert forall|i: int, j: int| 0 <= i < j < front.len() implies key(#[trigger] front[i])
            != key(#[trigger] front[j]) by {
            assert(front[i] == rows[i] && front[j] == rows[j]);
        }
        lemma_filter_distinct(front, keep, key);
        assert forall|i: int, j: int| 0 <= i < j < kept.len() implies key(#[trigger] kept[i])
            != key(#[trigger] kept[j]) by {
            if j < front.filter(keep).len() {
                assert(kept[i] == front.filter(keep)[i] && kept[j] == front.filter(keep)[j]);
            } else {
                assert(kept[i] == front.filter(keep)[i]);
                lemma_filter_within(front, keep, i);
                let a = choose|a: int| 0 <= a < front.len() && front[a] == kept[i];
                assert(rows[a] == kept[i]);
                assert(rows[rows.len() - 1] == kept[j]);
            }
        }
    }
}

/// A filter that every row passes keeps the sequence as it is.
pub proof fn lemma_filter_all<A>(rows: Seq<A>, keep: spec_fn(A) -> bool)
    requires
        forall|i: int| 0 <= i < rows.len() ==> keep(#[trigger] rows[i]),
    ensures
        rows.filter(keep) == rows,
    decreases rows.len(),
{
    reveal(Seq::filter);
    if rows.len() > 0 {
        let front = rows.drop_last();
        assert forall|i: int| 0 <= i < front.len() implies keep(#[trigger] front[i]) by {
            assert(front[i] == rows[i]);
        }
        lemma_filter_all(front, keep);
        assert(front.push(rows.last()) =~= rows);
    }
}

/// Two tests that agree on every row of a sequence keep the same rows of it.
pub proof fn lemma_filter_same<A>(rows: Seq<A>, first: spec_fn(A) -> bool, second: spec_fn(A) -> bool)
    requires
        forall|i: int| 0 <= i < rows.len() ==> first(#[trigger] rows[i]) == second(rows[i]),
    ensures
        rows.filter(first) == rows.filter(second),
    decreases rows.len(),
{
    reveal(Seq::filter);
    if rows.len() > 0 {
        let front = rows.drop_last();
        assert forall|i: int| 0 <= i < front.len() implies first(#[trigger] front[i]) == second(
            front[i],
        ) by {
            assert(front[i] == rows[i]);
        }
        lemma_filter_same(front, first, second);
        assert(rows.last() == rows[rows.len() - 1]);
    }
}

/// A test that no row of a sequence passes keeps nothing.
pub proof fn lemma_filter_none<A>(rows: Seq<A>, keep: spec_fn(A) -> bool)
    requires
        forall|i: int| 0 <= i < rows.len() ==> !keep(#[trigger] rows[i]),
    ensures
        rows.filter(keep) == Seq::<A>::empty(),
    decreases rows.len(),
{
    reveal(Seq::filter);
    if rows.len() > 0 {
        let front = rows.drop_last();
        assert forall|i: int| 0 <= i < front.len() implies !keep(#[trigger] front[i]) by {
            assert(front[i] == rows[i]);
        }
        lemma_filter_none(front, keep);
        assert(rows.last() == rows[rows.len() - 1]);
    }
}

/// A test that one row of a sequence passes, and no other, keeps that row alone.
pub proof fn lemma_filter_one<A>(rows: Seq<A>, keep: spec_fn(A) -> bool, at: int)
    requires
        0 <= at < rows.len(),
        forall|i: int| 0 <= i < rows.len() ==> keep(#[trigger] rows[i]) == (i == at),
    ensures
        rows.filter(keep) == seq![rows[at]],
    decreases rows.len(),
{
    reveal(Seq::filter);
    let front = rows.drop_last();
    assert(rows.last() == rows[rows.len() - 1]);
    if at == rows.len() - 1 {
        assert forall|i: int| 0 <= i < front.len() implies !keep(#[trigger] front[i]) by {
            assert(front[i] == rows[i]);
        }
        lemma_filter_none(front, keep);
        assert(rows.filter(keep) =~= seq![rows[at]]);
    } else {
        assert forall|i: int| 0 <= i < front.len() implies keep(#[trigger] front[i]) == (i
            == at) by {
            assert(front[i] == rows[i]);
        }
        lemma_filter_one(front, keep, at);
        assert(front[at] == rows[at]);
    }
}

/// A filter keeps a row exactly when the row is in the sequence and passes.
pub proof fn lemma_filter_member<A>(rows: Seq<A>, keep: spec_fn(A) -> bool, row: A)
    ensures
        rows.filter(keep).contains(row) <==> rows.contains(row) && keep(row),
{
    let kept = rows.filter(keep);
    if kept.contains(row) {
        let i = choose|i: int| 0 <= i < kept.len() && kept[i] == row;
        lemma_filter_within(rows, keep, i);
    }
    if rows.contains(row) && keep(row) {
        let i = choose|i: int| 0 <= i < rows.len() && rows[i] == row;
        rows.lemma_filter_contains(keep, i);
    }
}

} // verus!
