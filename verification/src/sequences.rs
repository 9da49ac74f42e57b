//! Facts about sequences that the draw rests on: what a filter keeps, what a
//! selection inherits from its pool, and what a rearrangement leaves unchanged.

use crate::random::is_selection;
use vstd::multiset::*;
use vstd::prelude::*;
use vstd::seq_lib::*;

verus! {

/// How many of the first `upto` items of `s` satisfy `pred`.
pub open spec fn count_in_prefix<T>(s: Seq<T>, pred: spec_fn(T) -> bool, upto: nat) -> nat
    decreases upto,
{
    if upto == 0 {
        0
    } else {
        count_in_prefix(s, pred, (upto - 1) as nat) + if pred(s[upto - 1]) {
            1nat
        } else {
            0nat
        }
    }
}

/// A filter keeps as many items of a prefix as satisfy the predicate.
pub proof fn lemma_filter_len_counts<T>(s: Seq<T>, pred: spec_fn(T) -> bool, upto: nat)
    requires
        upto <= s.len(),
    ensures
        s.take(upto as int).filter(pred).len() == count_in_prefix(s, pred, upto),
    decreases upto,
{
    if upto == 0 {
        reveal(Seq::filter);
    } else {
        lemma_filter_len_counts(s, pred, (upto - 1) as nat);
        s.lemma_take_succ_push(upto - 1);
        s.take(upto - 1).lemma_filter_push(s[upto - 1], pred);
    }
}

/// A predicate and its complement part a sequence between them.
pub proof fn lemma_filter_len_partition<T>(
    s: Seq<T>,
    pred: spec_fn(T) -> bool,
    complement: spec_fn(T) -> bool,
)
    requires
        forall|item: T| #[trigger] complement(item) == !pred(item),
    ensures
        s.filter(pred).len() + s.filter(complement).len() == s.len(),
    decreases s.len(),
{
    reveal(Seq::filter);
    if s.len() > 0 {
        lemma_filter_len_partition(s.drop_last(), pred, complement);
        assert(complement(s.last()) == !pred(s.last()));
    }
}

/// A filter keeps everything of a sequence whose items all satisfy the
/// predicate.
pub proof fn lemma_filter_keeps_all<T>(s: Seq<T>, pred: spec_fn(T) -> bool)
    requires
        s.all(pred),
    ensures
        s.filter(pred) == s,
    decreases s.len(),
{
    reveal(Seq::filter);
    if s.len() > 0 {
        assert(s.drop_last().all(pred)) by {
            assert forall|i: int| 0 <= i < s.drop_last().len() implies pred(
                #[trigger] s.drop_last()[i],
            ) by {
                assert(pred(s[i]));
            }
        }
        lemma_filter_keeps_all(s.drop_last(), pred);
        assert(pred(s[s.len() - 1]));
        assert(s.drop_last().push(s.last()) =~= s);
    }
}

/// A filter of distinct items keeps distinct items.
pub proof fn lemma_filter_no_duplicates<T>(s: Seq<T>, pred: spec_fn(T) -> bool)
    requires
        s.no_duplicates(),
    ensures
        s.filter(pred).no_duplicates(),
    decreases s.len(),
{
    reveal(Seq::filter);
    if s.len() > 0 {
        let rest = s.drop_last();
        lemma_filter_no_duplicates(rest, pred);
        if rest.filter(pred).contains(s.last()) {
            rest.lemma_filter_contains_rev(pred, s.last());
            let at = choose|at: int| 0 <= at < rest.len() && rest[at] == s.last();
            assert(s[at] == s[s.len() - 1]);
        }
    }
}

/// Whatever is in a filter satisfies the predicate and was in the sequence.
pub proof fn lemma_filter_members<T>(s: Seq<T>, pred: spec_fn(T) -> bool, item: T)
    requires
        s.filter(pred).contains(item),
    ensures
        s.contains(item),
        pred(item),
{
    s.lemma_filter_contains_rev(pred, item);
    let at = choose|at: int| 0 <= at < s.filter(pred).len() && s.filter(pred)[at] == item;
    s.lemma_filter_pred(pred, at);
}

/// Removing one item changes the number of items that satisfy `pred` by one
/// if the item satisfies it, and not at all otherwise.
proof fn lemma_filter_len_remove<T>(s: Seq<T>, at: int, pred: spec_fn(T) -> bool)
    requires
        0 <= at < s.len(),
    ensures
        s.filter(pred).len() == s.remove(at).filter(pred).len() + if pred(s[at]) {
            1int
        } else {
            0int
        },
{
    let front = s.take(at);
    let back = s.skip(at + 1);
    let middle = seq![s[at]];
    assert(s =~= front + middle + back);
    assert(s.remove(at) =~= front + back);
    Seq::filter_distributes_over_add(front + middle, back, pred);
    Seq::filter_distributes_over_add(front, middle, pred);
    Seq::filter_distributes_over_add(front, back, pred);
    assert(middle.filter(pred).len() == if pred(s[at]) {
        1int
    } else {
        0int
    }) by {
        reveal_with_fuel(Seq::filter, 2);
        assert(middle.drop_last() =~= Seq::<T>::empty());
    }
}

/// A selection from a pool of distinct items holds distinct items, each of
/// them from the pool.
pub proof fn lemma_selection_distinct<T>(picked: Seq<T>, pool: Seq<T>)
    requires
        is_selection(picked, pool),
        pool.no_duplicates(),
    ensures
        picked.no_duplicates(),
        forall|i: int| 0 <= i < picked.len() ==> pool.contains(#[trigger] picked[i]),
{
    let positions = choose|positions: Seq<int>|
        {
            &&& positions.len() == picked.len()
            &&& positions.no_duplicates()
            &&& forall|i: int|
                0 <= i < positions.len() ==> 0 <= #[trigger] positions[i] < pool.len()
                    && picked[i] == pool[positions[i]]
        };
    assert forall|i: int, j: int| 0 <= i < picked.len() && 0 <= j < picked.len() && i
        != j implies picked[i] != picked[j] by {
        assert(positions[i] != positions[j]);
    }
    assert forall|i: int| 0 <= i < picked.len() implies pool.contains(#[trigger] picked[i]) by {
        assert(pool[positions[i]] == picked[i]);
    }
}

/// Distinct items that all stand in `pool` are a selection from it.
pub proof fn lemma_distinct_members_are_selection<T>(picked: Seq<T>, pool: Seq<T>)
    requires
        picked.no_duplicates(),
        forall|i: int| 0 <= i < picked.len() ==> pool.contains(#[trigger] picked[i]),
    ensures
        is_selection(picked, pool),
{
    let positions = Seq::new(picked.len(), |i: int| pool.index_of(picked[i]));
    assert forall|i: int| 0 <= i < positions.len() implies 0 <= #[trigger] positions[i]
        < pool.len() && picked[i] == pool[positions[i]] by {
        assert(pool.contains(picked[i]));
    }
    assert forall|i: int, j: int|
        0 <= i < positions.len() && 0 <= j < positions.len() && i != j implies positions[i]
        != positions[j] by {
        assert(pool[positions[i]] == picked[i]);
        assert(pool[positions[j]] == picked[j]);
    }
    assert(positions.len() == picked.len() && positions.no_duplicates());
}

/// `a` and `b` hold the same items, each as often in the one as in the other.
pub open spec fn is_permutation<T>(a: Seq<T>, b: Seq<T>) -> bool {
    a.to_multiset() == b.to_multiset()
}

/// A rearrangement is as long as what it rearranges.
pub proof fn lemma_permutation_len<T>(a: Seq<T>, b: Seq<T>)
    requires
        is_permutation(a, b),
    ensures
        a.len() == b.len(),
{
    to_multiset_len(a);
    to_multiset_len(b);
}

/// A rearrangement holds exactly the items of what it rearranges.
pub proof fn lemma_permutation_contains<T>(a: Seq<T>, b: Seq<T>, item: T)
    requires
        is_permutation(a, b),
    ensures
        a.contains(item) == b.contains(item),
{
    to_multiset_contains(a, item);
    to_multiset_contains(b, item);
}

/// A rearrangement of distinct items holds distinct items.
pub proof fn lemma_permutation_no_duplicates<T>(a: Seq<T>, b: Seq<T>)
    requires
        is_permutation(a, b),
        a.no_duplicates(),
    ensures
        b.no_duplicates(),
{
    a.lemma_multiset_has_no_duplicates();
    b.lemma_multiset_has_no_duplicates_conv();
}

/// Taking the last item of `a` away, and the same item from where it stands
/// in `b`, leaves two sequences that are still rearrangements of each other.
proof fn lemma_permutation_peel<T>(a: Seq<T>, b: Seq<T>) -> (at: int)
    requires
        is_permutation(a, b),
        a.len() > 0,
    ensures
        0 <= at < b.len(),
        b[at] == a.last(),
        is_permutation(a.drop_last(), b.remove(at)),
{
    broadcast use group_multiset_axioms;

    let last = a.last();
    assert(a.drop_last().push(last) =~= a);
    to_multiset_build(a.drop_last(), last);
    to_multiset_contains(b, last);
    let at = choose|at: int| 0 <= at < b.len() && b[at] == last;
    to_multiset_remove(b, at);
    assert(a.drop_last().to_multiset() =~= b.remove(at).to_multiset());
    at
}

/// A rearrangement keeps the number of items that satisfy `pred`.
pub proof fn lemma_permutation_filter_len<T>(a: Seq<T>, b: Seq<T>, pred: spec_fn(T) -> bool)
    requires
        is_permutation(a, b),
    ensures
        a.filter(pred).len() == b.filter(pred).len(),
    decreases a.len(),
{
    lemma_permutation_len(a, b);
    reveal(Seq::filter);
    if a.len() > 0 {
        let at = lemma_permutation_peel(a, b);
        lemma_permutation_filter_len(a.drop_last(), b.remove(at), pred);
        lemma_filter_len_remove(b, at, pred);
    }
}

/// Applying `f` to every item turns rearrangements of each other into
/// rearrangements of each other.
pub proof fn lemma_permutation_map_values<A, B>(a: Seq<A>, b: Seq<A>, f: spec_fn(A) -> B)
    requires
        is_permutation(a, b),
    ensures
        is_permutation(a.map_values(f), b.map_values(f)),
    decreases a.len(),
{
    lemma_permutation_len(a, b);
    if a.len() == 0 {
        assert(a.map_values(f) =~= b.map_values(f));
    } else {
        let at = lemma_permutation_peel(a, b);
        lemma_permutation_map_values(a.drop_last(), b.remove(at), f);
        let image = f(a.last());
        assert(a.map_values(f) =~= a.drop_last().map_values(f).push(image));
        assert(b.map_values(f) =~= b.remove(at).map_values(f).insert(at, image));
        to_multiset_build(a.drop_last().map_values(f), image);
        to_multiset_insert(b.remove(at).map_values(f), at, image);
    }
}

/// Parting a sequence by a predicate and joining the two parts rearranges it.
pub proof fn lemma_partition_permutes<T>(
    s: Seq<T>,
    pred: spec_fn(T) -> bool,
    complement: spec_fn(T) -> bool,
)
    requires
        forall|item: T| #[trigger] complement(item) == !pred(item),
    ensures
        is_permutation(s.filter(complement) + s.filter(pred), s),
    decreases s.len(),
{
    broadcast use group_multiset_axioms;

    reveal(Seq::filter);
    let kept = s.filter(pred);
    let others = s.filter(complement);
    lemma_multiset_commutative(others, kept);
    if s.len() == 0 {
        assert(others + kept =~= s);
    } else {
        let rest = s.drop_last();
        let last = s.last();
        lemma_partition_permutes(rest, pred, complement);
        lemma_multiset_commutative(rest.filter(complement), rest.filter(pred));
        assert(rest.push(last) =~= s);
        to_multiset_build(rest, last);
        to_multiset_build(rest.filter(pred), last);
        to_multiset_build(rest.filter(complement), last);
        assert(complement(last) == !pred(last));
        assert((others + kept).to_multiset() =~= s.to_multiset());
    }
}

} // verus!
