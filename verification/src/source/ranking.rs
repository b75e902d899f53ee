//! Ranking of matches by score.
//!
//! Matches are put in rising order of a hundred times their score, rounded
//! towards zero. Matches with the same key keep the order they came in.

use vstd::prelude::*;
use vstd::set_lib::{lemma_int_range, lemma_subset_equality, set_int_range};
use crate::similarity::percent_key_of;
use crate::source::{Item, ItemView, item_views};

verus! {

/// The key of each item: a hundred times its score, as a whole number.
pub open spec fn keys_of(items: Seq<ItemView>) -> Seq<i32> {
    Seq::new(items.len(), |i: int| percent_key_of(items[i].similarity) as i32)
}

/// The item at `x` belongs before the item at `y`: its key is smaller, or
/// the keys are equal and it came first.
pub open spec fn comes_before(keys: Seq<i32>, x: int, y: int) -> bool {
    keys[x] < keys[y] || (keys[x] == keys[y] && x < y)
}

/// `order` names an offset of `keys` at every place, and each offset that it
/// names belongs before all that follow it.
pub open spec fn is_stable_order(keys: Seq<i32>, order: Seq<usize>) -> bool {
    &&& order.len() == keys.len()
    &&& forall|k: int| 0 <= k < order.len() ==> (#[trigger] order[k]) < keys.len()
    &&& forall|a: int, b: int|
        0 <= a < b < order.len() ==> comes_before(
            keys,
            #[trigger] order[a] as int,
            #[trigger] order[b] as int,
        )
}

/// The items in the places that `order` gives them.
pub open spec fn arranged(items: Seq<ItemView>, order: Seq<usize>) -> Seq<ItemView> {
    Seq::new(order.len(), |k: int| items[order[k] as int])
}

/// `ranked` holds the items of `items` in rising order of their keys, items
/// with equal keys in the order they have in `items`.
pub open spec fn is_ranking(items: Seq<ItemView>, ranked: Seq<ItemView>) -> bool {
    exists|order: Seq<usize>| #[trigger]
        is_stable_order(keys_of(items), order) && ranked == arranged(items, order)
}

/// The one order of the offsets of `keys` in which each belongs before all
/// that follow it.
pub open spec fn stable_order_of(keys: Seq<i32>) -> Seq<usize> {
    choose|order: Seq<usize>| is_stable_order(keys, order)
}

/// The ranking of `items`: the items in rising order of their keys, items
/// with equal keys in the order they have in `items`.
pub open spec fn ranking(items: Seq<ItemView>) -> Seq<ItemView> {
    arranged(items, stable_order_of(keys_of(items)))
}

/// A stable order names every offset of the keys.
proof fn lemma_order_holds_all(keys: Seq<i32>, order: Seq<usize>)
    requires
        is_stable_order(keys, order),
    ensures
        order.no_duplicates(),
        forall|v: usize| v < keys.len() ==> order.contains(v),
{
    let n = keys.len() as int;
    assert forall|i: int, j: int|
        0 <= i < order.len() && 0 <= j < order.len() && i != j implies order[i] != order[j] by {
        if i < j {
            assert(comes_before(keys, order[i] as int, order[j] as int));
        } else {
            assert(comes_before(keys, order[j] as int, order[i] as int));
        }
    }
    let ints = order.map_values(|v: usize| v as int);
    assert forall|i: int, j: int|
        0 <= i < ints.len() && 0 <= j < ints.len() && i != j implies ints[i] != ints[j] by {
        assert(order[i] != order[j]);
    }
    ints.unique_seq_to_set();
    lemma_int_range(0, n);
    assert(ints.to_set().subset_of(set_int_range(0, n))) by {
        assert forall|v: int| ints.to_set().contains(v) implies set_int_range(0, n).contains(
            v,
        ) by {
            let k = choose|k: int| 0 <= k < ints.len() && ints[k] == v;
            assert(order[k] < keys.len());
        }
    }
    vstd::set_lib::lemma_len_subset(ints.to_set(), set_int_range(0, n));
    lemma_subset_equality(ints.to_set(), set_int_range(0, n));
    assert forall|v: usize| v < keys.len() implies order.contains(v) by {
        assert(set_int_range(0, n).contains(v as int));
        assert(ints.to_set().contains(v as int));
        let k = choose|k: int| 0 <= k < ints.len() && ints[k] == v as int;
        assert(order[k] == v);
    }
}

/// The offsets that a stable order names before `v` are those that belong
/// before `v`, so `v` stands at the same place in every stable order.
proof fn lemma_same_place(keys: Seq<i32>, first: Seq<usize>, second: Seq<usize>, a: int, b: int)
    requires
        is_stable_order(keys, first),
        is_stable_order(keys, second),
        0 <= a < first.len(),
        0 <= b < second.len(),
        first[a] == second[b],
    ensures
        a <= b,
{
    lemma_order_holds_all(keys, first);
    lemma_order_holds_all(keys, second);
    let front = first.take(a);
    let other = second.take(b);
    assert(front.no_duplicates());
    assert(other.no_duplicates());
    assert(front.to_set().subset_of(other.to_set())) by {
        assert forall|u: usize| front.to_set().contains(u) implies other.to_set().contains(
            u,
        ) by {
            let p = choose|p: int| 0 <= p < front.len() && front[p] == u;
            assert(comes_before(keys, first[p] as int, first[a] as int));
            assert(second.contains(u));
            let q = choose|q: int| 0 <= q < second.len() && second[q] == u;
            if q > b {
                assert(comes_before(keys, second[b] as int, second[q] as int));
            }
            assert(q < b);
            assert(other[q] == u);
        }
    }
    front.unique_seq_to_set();
    other.unique_seq_to_set();
    vstd::seq_lib::seq_to_set_is_finite(other);
    vstd::set_lib::lemma_len_subset(front.to_set(), other.to_set());
}

/// There is one stable order only.
pub proof fn lemma_stable_order_unique(keys: Seq<i32>, first: Seq<usize>, second: Seq<usize>)
    requires
        is_stable_order(keys, first),
        is_stable_order(keys, second),
    ensures
        first == second,
{
    lemma_order_holds_all(keys, second);
    assert forall|a: int| 0 <= a < first.len() implies first[a] == second[a] by {
        let v = first[a];
        assert(second.contains(v));
        let b = choose|b: int| 0 <= b < second.len() && second[b] == v;
        lemma_same_place(keys, first, second, a, b);
        lemma_same_place(keys, second, first, b, a);
    }
    assert(first =~= second);
}

/// How many of the first `m` offsets that `order` names have a key of at
/// most `key`, where the keys never fall along `order`: the place behind
/// the last such offset.
spec fn place_behind(keys: Seq<i32>, order: Seq<usize>, key: i32, m: nat) -> nat
    decreases m,
{
    if m == 0 {
        0
    } else if keys[order[m - 1] as int] <= key {
        m
    } else {
        place_behind(keys, order, key, (m - 1) as nat)
    }
}

/// Before the place are the keys of at most `key`, from it on the larger
/// ones.
proof fn lemma_place_behind(keys: Seq<i32>, order: Seq<usize>, key: i32, m: nat)
    requires
        is_stable_order(keys, order),
        m <= order.len(),
    ensures
        place_behind(keys, order, key, m) <= m,
        forall|i: int|
            0 <= i < place_behind(keys, order, key, m) ==> keys[(#[trigger] order[i]) as int]
                <= key,
        forall|i: int|
            place_behind(keys, order, key, m) <= i < m ==> keys[(#[trigger] order[i]) as int]
                > key,
    decreases m,
{
    if m > 0 {
        if keys[order[m - 1] as int] <= key {
            assert forall|i: int| 0 <= i < m implies keys[(#[trigger] order[i]) as int]
                <= key by {
                if i < m - 1 {
                    assert(comes_before(keys, order[i] as int, order[m - 1] as int));
                }
            }
        } else {
            lemma_place_behind(keys, order, key, (m - 1) as nat);
        }
    }
}

/// Every list of keys has a stable order.
pub proof fn lemma_stable_order_exists(keys: Seq<i32>)
    requires
        keys.len() <= usize::MAX,
    ensures
        is_stable_order(keys, stable_order_of(keys)),
    decreases keys.len(),
{
    if keys.len() == 0 {
        assert(is_stable_order(keys, Seq::<usize>::empty()));
    } else {
        let front = keys.drop_last();
        let n = front.len();
        let key = keys.last();
        lemma_stable_order_exists(front);
        let order = stable_order_of(front);
        assert forall|a: int, b: int| 0 <= a < b < order.len() implies comes_before(
            keys,
            #[trigger] order[a] as int,
            #[trigger] order[b] as int,
        ) by {
            assert(comes_before(front, order[a] as int, order[b] as int));
        }
        let at = place_behind(front, order, key, n) as int;
        lemma_place_behind(front, order, key, n);
        let longer = order.insert(at, n as usize);
        assert forall|a: int, b: int| 0 <= a < b < longer.len() implies comes_before(
            keys,
            #[trigger] longer[a] as int,
            #[trigger] longer[b] as int,
        ) by {
            if b < at {
                assert(longer[a] == order[a] && longer[b] == order[b]);
            } else if b == at {
                assert(longer[a] == order[a]);
                assert(front[order[a] as int] <= key);
            } else if a < at {
                assert(longer[a] == order[a] && longer[b] == order[b - 1]);
            } else if a == at {
                assert(longer[b] == order[b - 1]);
                assert(front[order[b - 1] as int] > key);
            } else {
                assert(longer[a] == order[a - 1] && longer[b] == order[b - 1]);
            }
        }
        assert forall|k: int| 0 <= k < longer.len() implies (#[trigger] longer[k])
            < keys.len() by {
            if k < at {
                assert(longer[k] == order[k]);
            } else if k > at {
                assert(longer[k] == order[k - 1]);
            }
        }
        assert(is_stable_order(keys, longer));
    }
}

/// The ranking ranks the items.
pub proof fn lemma_ranking_ranks(items: Seq<ItemView>)
    requires
        items.len() <= usize::MAX,
    ensures
        is_ranking(items, ranking(items)),
{
    lemma_stable_order_exists(keys_of(items));
}

/// The ranking is the only list that ranks the items.
pub proof fn lemma_ranking_unique(items: Seq<ItemView>, ranked: Seq<ItemView>)
    requires
        is_ranking(items, ranked),
    ensures
        ranked == ranking(items),
{
    let keys = keys_of(items);
    let order = choose|order: Seq<usize>| #[trigger]
        is_stable_order(keys_of(items), order) && ranked == arranged(items, order);
    lemma_stable_order_unique(keys, order, stable_order_of(keys));
}

/// In a ranking the keys never fall.
pub proof fn lemma_ranking_rises(items: Seq<ItemView>, ranked: Seq<ItemView>)
    requires
        is_ranking(items, ranked),
    ensures
        ranked.len() == items.len(),
        forall|a: int, b: int|
            0 <= a < b < ranked.len() ==> percent_key_of(ranked[a].similarity) <= percent_key_of(
                ranked[b].similarity,
            ),
{
    let order = choose|order: Seq<usize>| #[trigger]
        is_stable_order(keys_of(items), order) && ranked == arranged(items, order);
    let keys = keys_of(items);
    assert forall|a: int, b: int| 0 <= a < b < ranked.len() implies percent_key_of(
        ranked[a].similarity,
    ) <= percent_key_of(ranked[b].similarity) by {
        assert(comes_before(keys, order[a] as int, order[b] as int));
        assert(keys[order[a] as int] == percent_key_of(ranked[a].similarity));
        assert(keys[order[b] as int] == percent_key_of(ranked[b].similarity));
    }
}

/// Two items of a ranking that have the same key stand in the order in
/// which the list that was ranked holds them: the list holds the first at
/// an earlier place than the second.
pub proof fn lemma_ranking_keeps_ties(items: Seq<ItemView>, ranked: Seq<ItemView>)
    requires
        is_ranking(items, ranked),
    ensures
        forall|a: int, b: int|
            0 <= a < b < ranked.len() && percent_key_of(ranked[a].similarity) == percent_key_of(
                ranked[b].similarity,
            ) ==> exists|x: int, y: int|
                0 <= x < y < items.len() && items[x] == ranked[a] && items[y] == ranked[b],
{
    let order = choose|order: Seq<usize>| #[trigger]
        is_stable_order(keys_of(items), order) && ranked == arranged(items, order);
    let keys = keys_of(items);
    assert forall|a: int, b: int|
        0 <= a < b < ranked.len() && percent_key_of(ranked[a].similarity) == percent_key_of(
            ranked[b].similarity,
        ) implies exists|x: int, y: int|
        0 <= x < y < items.len() && items[x] == ranked[a] && items[y] == ranked[b] by {
        let x = order[a] as int;
        let y = order[b] as int;
        assert(comes_before(keys, x, y));
        assert(keys[x] == percent_key_of(ranked[a].similarity));
        assert(keys[y] == percent_key_of(ranked[b].similarity));
        assert(0 <= x < y < items.len() && items[x] == ranked[a] && items[y] == ranked[b]);
    }
}

/// A copy of `item`.
pub fn copy_item(item: &Item) -> (copy: Item)
    ensures
        copy@ == item@,
{
    Item { link: item.link.clone(), similarity: item.similarity }
}

/// The offsets of `keys` in rising order of the keys, equal keys in rising
/// order of their offsets.
fn stable_order(keys: &Vec<i32>) -> (order: Vec<usize>)
    ensures
        is_stable_order(keys@, order@),
{
    let mut order: Vec<usize> = Vec::new();
    let mut i: usize = 0;
    while i < keys.len()
        invariant
            i <= keys.len(),
            order.len() == i,
            forall|k: int| 0 <= k < order.len() ==> (#[trigger] order[k]) < i,
            forall|a: int, b: int|
                0 <= a < b < order.len() ==> comes_before(
                    keys@,
                    #[trigger] order[a] as int,
                    #[trigger] order[b] as int,
                ),
        decreases keys.len() - i,
    {
        let mut at: usize = order.len();
        while at > 0 && keys[order[at - 1]] > keys[i]
            invariant
                at <= order.len(),
                i < keys.len(),
                order.len() == i,
                forall|k: int| 0 <= k < order.len() ==> (#[trigger] order[k]) < i,
                forall|k: int|
                    at <= k < order.len() ==> keys[(#[trigger] order[k]) as int] > keys[i as int],
            decreases at,
        {
            at -= 1;
        }
        let ghost earlier = order@;
        order.insert(at, i);
        proof {
            assert forall|a: int, b: int| 0 <= a < b < order.len() implies comes_before(
                keys@,
                #[trigger] order[a] as int,
                #[trigger] order[b] as int,
            ) by {
                if b < at {
                    assert(order[a] == earlier[a] && order[b] == earlier[b]);
                } else if b == at {
                    assert(order[a] == earlier[a]);
                    if a < at - 1 {
                        assert(comes_before(keys@, earlier[a] as int, earlier[at - 1] as int));
                    }
                } else if a < at {
                    assert(order[a] == earlier[a] && order[b] == earlier[b - 1]);
                } else if a == at {
                    assert(order[b] == earlier[b - 1]);
                } else {
                    assert(order[a] == earlier[a - 1] && order[b] == earlier[b - 1]);
                }
            }
            assert forall|k: int| 0 <= k < order.len() implies (#[trigger] order[k]) < i + 1 by {
                if k < at {
                    assert(order[k] == earlier[k]);
                } else if k > at {
                    assert(order[k] == earlier[k - 1]);
                }
            }
        }
        i += 1;
    }
    order
}

/// Ranks `items`: see [`ranking`].
pub fn rank(items: &Vec<Item>) -> (ranked: Vec<Item>)
    ensures
        item_views(ranked@) == ranking(item_views(items@)),
        is_ranking(item_views(items@), item_views(ranked@)),
{
    let mut keys: Vec<i32> = Vec::new();
    let mut i: usize = 0;
    while i < items.len()
        invariant
            i <= items.len(),
            keys.len() == i,
            forall|k: int|
                0 <= k < i ==> keys[k] == percent_key_of((#[trigger] items[k]).similarity),
        decreases items.len() - i,
    {
        keys.push(items[i].similarity.percent_key());
        i += 1;
    }
    assert(keys@ =~= keys_of(item_views(items@)));
    let order = stable_order(&keys);
    let mut ranked: Vec<Item> = Vec::new();
    let mut k: usize = 0;
    while k < order.len()
        invariant
            k <= order.len(),
            ranked.len() == k,
            order.len() == items.len(),
            forall|j: int| 0 <= j < order.len() ==> (#[trigger] order[j]) < items.len(),
            forall|j: int| 0 <= j < k ==> (#[trigger] ranked[j])@ == items[order[j] as int]@,
        decreases order.len() - k,
    {
        ranked.push(copy_item(&items[order[k]]));
        k += 1;
    }
    assert(item_views(ranked@) =~= arranged(item_views(items@), order@));
    proof {
        lemma_ranking_unique(item_views(items@), item_views(ranked@));
    }
    ranked
}

} // verus!
