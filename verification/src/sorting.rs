//! A deterministic sorted-order model: insertion sort as a specification
//! function, the lemmas tying it to sortedness and multiset equality, and the
//! offset/limit page window used by the paginated queries.

use vstd::prelude::*;
use vstd::multiset::Multiset;
use vstd::relations::sorted_by;

verus! {

/// `x` inserted into `s` immediately before the first element that `leq`
/// does not place strictly ahead of `x`.
pub open spec fn insert_sorted<A>(x: A, s: Seq<A>, leq: spec_fn(A, A) -> bool) -> Seq<A>
    decreases s.len(),
{
    if s.len() == 0 {
        seq![x]
    } else if leq(x, s[0]) {
        seq![x] + s
    } else {
        seq![s[0]] + insert_sorted(x, s.drop_first(), leq)
    }
}

/// The sequence sorted by `leq`, built by inserting each element in turn.
/// The definition is deterministic for every `leq`, so it pins one ordering
/// even when `leq` admits ties.
pub open spec fn sort_by_insertion<A>(s: Seq<A>, leq: spec_fn(A, A) -> bool) -> Seq<A>
    decreases s.len(),
{
    if s.len() == 0 {
        Seq::empty()
    } else {
        insert_sorted(s.last(), sort_by_insertion(s.drop_last(), leq), leq)
    }
}

/// The rows of page `page` under offset/limit pagination with pages of
/// `size` rows, clipped to the sequence.
pub open spec fn page_window<A>(s: Seq<A>, page: int, size: int) -> Seq<A>
    recommends
        page >= 0,
        size > 0,
{
    let off = if page * size > s.len() { s.len() as int } else { page * size };
    let end = if off + size > s.len() { s.len() as int } else { off + size };
    s.subrange(off, end)
}

/// Inserting at the position found by a linear scan — the first index whose
/// element `leq` does not place ahead of `x` — is exactly `insert_sorted`.
pub proof fn lemma_insert_sorted_position<A>(x: A, s: Seq<A>, leq: spec_fn(A, A) -> bool, k: int)
    requires
        0 <= k <= s.len(),
        forall|m: int| 0 <= m < k ==> !leq(x, #[trigger] s[m]),
        k < s.len() ==> leq(x, s[k]),
    ensures
        insert_sorted(x, s, leq) =~= s.insert(k, x),
    decreases s.len(),
{
    if s.len() == 0 {
        assert(insert_sorted(x, s, leq) =~= s.insert(0, x));
    } else if leq(x, s[0]) {
        assert(k == 0);
        assert(seq![x] + s =~= s.insert(0, x));
    } else {
        assert(k >= 1);
        let tail = s.drop_first();
        lemma_insert_sorted_position(x, tail, leq, k - 1);
        assert(insert_sorted(x, s, leq) =~= seq![s[0]] + tail.insert(k - 1, x));
        assert(seq![s[0]] + tail.insert(k - 1, x) =~= s.insert(k, x));
    }
}

/// Every element of the inserted sequence is `x` or an element of `s`.
pub proof fn lemma_insert_sorted_elems<A>(x: A, s: Seq<A>, leq: spec_fn(A, A) -> bool)
    ensures
        forall|i: int|
            0 <= i < insert_sorted(x, s, leq).len() ==> #[trigger] insert_sorted(x, s, leq)[i] == x
                || s.contains(insert_sorted(x, s, leq)[i]),
        insert_sorted(x, s, leq).len() == s.len() + 1,
    decreases s.len(),
{
    if s.len() == 0 {
    } else if leq(x, s[0]) {
    } else {
        let tail = s.drop_first();
        lemma_insert_sorted_elems(x, tail, leq);
        let out = insert_sorted(x, s, leq);
        assert forall|i: int| 0 <= i < out.len() implies #[trigger] out[i] == x || s.contains(
            out[i],
        ) by {
            if i == 0 {
                assert(s[0] == out[0]);
            } else {
                let sub = insert_sorted(x, tail, leq);
                assert(out[i] == sub[i - 1]);
                if sub[i - 1] == x {
                } else {
                    let j = choose|j: int| 0 <= j < tail.len() && tail[j] == sub[i - 1];
                    assert(s[j + 1] == sub[i - 1]);
                }
            }
        }
    }
}

/// Insertion keeps a sequence sorted, provided `leq` relates every pair in
/// one direction or the other and is transitive.
pub proof fn lemma_insert_sorted_sorted<A>(x: A, s: Seq<A>, leq: spec_fn(A, A) -> bool)
    requires
        sorted_by(s, leq),
        forall|a: A, b: A| #[trigger] leq(a, b) || #[trigger] leq(b, a),
        forall|a: A, b: A, c: A| #[trigger] leq(a, b) && #[trigger] leq(b, c) ==> leq(a, c),
    ensures
        sorted_by(insert_sorted(x, s, leq), leq),
    decreases s.len(),
{
    if s.len() == 0 {
    } else if leq(x, s[0]) {
        let out = seq![x] + s;
        assert forall|i: int, j: int| 0 <= i < j < out.len() implies leq(out[i], out[j]) by {
            if i == 0 {
                if j > 1 {
                    assert(leq(s[0], s[j - 1]));
                }
            } else {
                assert(leq(s[i - 1], s[j - 1]));
            }
        }
    } else {
        let tail = s.drop_first();
        assert(sorted_by(tail, leq)) by {
            assert(forall|i: int, j: int|
                0 <= i < j < tail.len() ==> leq(#[trigger] tail[i], #[trigger] tail[j]));
        }
        lemma_insert_sorted_sorted(x, tail, leq);
        lemma_insert_sorted_elems(x, tail, leq);
        let sub = insert_sorted(x, tail, leq);
        let out = seq![s[0]] + sub;
        assert(leq(s[0], x));
        assert forall|i: int, j: int| 0 <= i < j < out.len() implies leq(out[i], out[j]) by {
            if i == 0 {
                if sub[j - 1] == x {
                } else {
                    let m = choose|m: int| 0 <= m < tail.len() && tail[m] == sub[j - 1];
                    assert(leq(s[0], s[m + 1]));
                }
            } else {
                assert(leq(sub[i - 1], sub[j - 1]));
            }
        }
    }
}

/// The insertion sort of a sequence is sorted.
pub proof fn lemma_sort_by_insertion_sorted<A>(s: Seq<A>, leq: spec_fn(A, A) -> bool)
    requires
        forall|a: A, b: A| #[trigger] leq(a, b) || #[trigger] leq(b, a),
        forall|a: A, b: A, c: A| #[trigger] leq(a, b) && #[trigger] leq(b, c) ==> leq(a, c),
    ensures
        sorted_by(sort_by_insertion(s, leq), leq),
    decreases s.len(),
{
    if s.len() > 0 {
        lemma_sort_by_insertion_sorted(s.drop_last(), leq);
        lemma_insert_sorted_sorted(s.last(), sort_by_insertion(s.drop_last(), leq), leq);
    }
}

/// Insertion adds exactly one copy of `x` to the multiset of elements.
pub proof fn lemma_insert_sorted_multiset<A>(x: A, s: Seq<A>, leq: spec_fn(A, A) -> bool)
    ensures
        insert_sorted(x, s, leq).to_multiset() =~= s.to_multiset().insert(x),
    decreases s.len(),
{
    broadcast use vstd::seq_lib::group_to_multiset_ensures;

    if s.len() == 0 {
        assert(insert_sorted(x, s, leq) =~= Seq::<A>::empty().push(x));
    } else if leq(x, s[0]) {
        assert(seq![x] + s =~= (seq![x] + s.drop_last()).push(s.last()));
        lemma_insert_sorted_multiset_front(x, s);
    } else {
        let tail = s.drop_first();
        lemma_insert_sorted_multiset(x, tail, leq);
        vstd::seq_lib::lemma_multiset_commutative(seq![s[0]], insert_sorted(x, tail, leq));
        vstd::seq_lib::lemma_multiset_commutative(seq![s[0]], tail);
        assert(seq![s[0]] + tail =~= s);
        assert(seq![s[0]].to_multiset() =~= Multiset::<A>::empty().insert(s[0])) by {
            assert(seq![s[0]] =~= Seq::<A>::empty().push(s[0]));
        }
    }
}

/// Prepending one element adds it to the multiset.
proof fn lemma_insert_sorted_multiset_front<A>(x: A, s: Seq<A>)
    ensures
        (seq![x] + s).to_multiset() =~= s.to_multiset().insert(x),
{
    broadcast use vstd::seq_lib::group_to_multiset_ensures;

    vstd::seq_lib::lemma_multiset_commutative(seq![x], s);
    assert(seq![x].to_multiset() =~= Multiset::<A>::empty().insert(x)) by {
        assert(seq![x] =~= Seq::<A>::empty().push(x));
    }
}

/// Sorting does not change the multiset of elements.
pub proof fn lemma_sort_by_insertion_multiset<A>(s: Seq<A>, leq: spec_fn(A, A) -> bool)
    ensures
        sort_by_insertion(s, leq).to_multiset() =~= s.to_multiset(),
    decreases s.len(),
{
    broadcast use vstd::seq_lib::group_to_multiset_ensures;

    if s.len() > 0 {
        lemma_sort_by_insertion_multiset(s.drop_last(), leq);
        lemma_insert_sorted_multiset(s.last(), sort_by_insertion(s.drop_last(), leq), leq);
        assert(s =~= s.drop_last().push(s.last()));
    }
}

} // verus!
