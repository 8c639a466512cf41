//! Putting things in order without disturbing ties.

use vstd::prelude::*;

verus! {

/// What a thing is ordered by: the first number, then the second, then the
/// third.
pub type Key = (usize, usize, usize);

/// Whether `a` comes before `b`.
pub open spec fn comes_before(a: Key, b: Key) -> bool {
    a.0 < b.0 || (a.0 == b.0 && (a.1 < b.1 || (a.1 == b.1 && a.2 < b.2)))
}

/// Whether `order` puts the things `keys` belong to in order, those with equal
/// keys in the order they came.
pub open spec fn is_ranking(order: Seq<usize>, keys: Seq<Key>) -> bool {
    &&& order.len() == keys.len()
    &&& forall|i: int| 0 <= i < order.len() ==> (#[trigger] order[i]) < keys.len()
    &&& forall|i: int, j: int|
        0 <= i < j < order.len() ==> #[trigger] ranked(keys, order[i], order[j])
}

/// Whether the thing at `a` goes ahead of the thing at `b`.
pub open spec fn ranked(keys: Seq<Key>, a: usize, b: usize) -> bool {
    comes_before(keys[a as int], keys[b as int]) || (keys[a as int] == keys[b as int] && a < b)
}

/// `items` in the order `order` gives.
pub open spec fn picked<T>(items: Seq<T>, order: Seq<usize>) -> Seq<T> {
    Seq::new(order.len(), |i: int| items[order[i] as int])
}

fn earlier(a: Key, b: Key) -> (is: bool)
    ensures
        is == comes_before(a, b),
{
    a.0 < b.0 || (a.0 == b.0 && (a.1 < b.1 || (a.1 == b.1 && a.2 < b.2)))
}

/// The order that puts the things `keys` belong to in order, those with equal
/// keys in the order they came.
pub fn ranking(keys: &Vec<Key>) -> (order: Vec<usize>)
    ensures
        is_ranking(order@, keys@),
{
    let mut order: Vec<usize> = Vec::new();
    let mut next: usize = 0;
    while next < keys.len()
        invariant
            next <= keys@.len(),
            order@.len() == next,
            is_ranking(order@, keys@.take(next as int)),
        decreases keys@.len() - next,
    {
        let ghost old_keys = keys@.take(next as int);
        let ghost new_keys = keys@.take(next + 1);
        let mut at: usize = order.len();
        while at > 0 && earlier(keys[next], keys[order[at - 1]])
            invariant
                next < keys@.len(),
                at <= order@.len() == next,
                old_keys == keys@.take(next as int),
                is_ranking(order@, old_keys),
                forall|k: int|
                    at <= k < order@.len() ==> comes_before(
                        keys@[next as int],
                        keys@[#[trigger] order@[k] as int],
                    ),
            decreases at,
        {
            assert(order@[at - 1] < old_keys.len());
            at = at - 1;
        }
        let ghost before = order@;
        proof {
            // Everything up to `at` goes ahead of the new thing: the one just
            // before it does, and they are in order among themselves.
            if at > 0 {
                assert(order@[at - 1] < old_keys.len());
                assert forall|k: int| 0 <= k < at implies !comes_before(
                    keys@[next as int],
                    keys@[#[trigger] before[k] as int],
                ) by {
                    if k < at - 1 {
                        assert(ranked(old_keys, before[k], before[at - 1]));
                        assert(before[k] < old_keys.len());
                    }
                }
            }
        }
        order.insert(at, next);
        proof {
            assert forall|i: int| 0 <= i < order@.len() implies (#[trigger] order@[i])
                < new_keys.len() by {
                if i < at {
                    assert(order@[i] == before[i]);
                } else if i > at {
                    assert(order@[i] == before[i - 1]);
                }
            }
            assert forall|i: int, j: int| 0 <= i < j < order@.len() implies #[trigger] ranked(
                new_keys,
                order@[i],
                order@[j],
            ) by {
                let bi = if i < at {
                    i
                } else {
                    i - 1
                };
                let bj = if j < at {
                    j
                } else {
                    j - 1
                };
                if i == at {
                    assert(order@[j] == before[j - 1]);
                    assert(before[j - 1] < old_keys.len());
                } else if j == at {
                    assert(order@[i] == before[i]);
                    assert(before[i] < old_keys.len());
                } else {
                    assert(order@[i] == before[bi]);
                    assert(order@[j] == before[bj]);
                    assert(ranked(old_keys, before[bi], before[bj]));
                    assert(before[bi] < old_keys.len());
                    assert(before[bj] < old_keys.len());
                }
            }
        }
        next = next + 1;
    }
    assert(keys@.take(keys@.len() as int) =~= keys@);
    order
}

/// A ranking leaves nothing out and repeats nothing: each place is in it
/// exactly once.
pub proof fn a_ranking_is_everything_once(order: Seq<usize>, keys: Seq<Key>)
    requires
        is_ranking(order, keys),
        keys.len() <= usize::MAX,
    ensures
        order.no_duplicates(),
        forall|place: usize| place < keys.len() ==> order.contains(place),
{
    assert forall|i: int, j: int| 0 <= i < order.len() && 0 <= j < order.len() && i
        != j implies order[i] != order[j] by {
        if i < j {
            assert(ranked(keys, order[i], order[j]));
        } else {
            assert(ranked(keys, order[j], order[i]));
        }
    }
    assert forall|i: int| 0 <= i < order.len() implies (#[trigger] order[i]) < keys.len() by {}
    all_are_there(order, keys.len());
}

/// As many different places as there are below `n`, all below it, are all of
/// them.
pub proof fn all_are_there(order: Seq<usize>, n: nat)
    requires
        order.no_duplicates(),
        order.len() == n <= usize::MAX,
        forall|i: int| 0 <= i < order.len() ==> (#[trigger] order[i]) < n,
    ensures
        forall|place: usize| place < n ==> order.contains(place),
{
    let all = Set::new(|p: usize| (p as nat) < n);
    let set = order.to_set();
    order.unique_seq_to_set();
    assert(set.len() == n);
    all_places(n);
    assert(set.subset_of(all)) by {
        assert forall|p: usize| set.contains(p) implies all.contains(p) by {
            let k = choose|k: int| 0 <= k < order.len() && order[k] == p;
            assert(order[k] < n);
        }
    }
    vstd::set_lib::lemma_subset_equality(set, all);
    assert forall|place: usize| place < n implies order.contains(place) by {
        assert(all.contains(place));
        assert(set.contains(place));
    }
}

/// There are `n` places below `n`.
proof fn all_places(n: nat)
    requires
        n <= usize::MAX + 1,
    ensures
        Set::new(|p: usize| (p as nat) < n).finite(),
        Set::new(|p: usize| (p as nat) < n).len() == n,
    decreases n,
{
    let all = Set::new(|p: usize| (p as nat) < n);
    if n == 0 {
        assert(all =~= Set::empty());
    } else {
        let less = Set::new(|p: usize| (p as nat) < (n - 1) as nat);
        all_places((n - 1) as nat);
        assert(all =~= less.insert((n - 1) as usize));
    }
}

/// Keys are in one order: the first number counts before the second and that before the
/// third, and of two different keys one comes first.
pub proof fn keys_are_in_one_order(a: Key, b: Key, c: Key)
    ensures
        a.0 < b.0 ==> comes_before(a, b),
        a.0 == b.0 && a.1 < b.1 ==> comes_before(a, b),
        a.0 == b.0 && a.1 == b.1 && a.2 < b.2 ==> comes_before(a, b),
        comes_before(a, b) ==> !comes_before(b, a),
        a != b ==> comes_before(a, b) || comes_before(b, a),
        comes_before(a, b) && comes_before(b, c) ==> comes_before(a, c),
{
}

} // verus!
