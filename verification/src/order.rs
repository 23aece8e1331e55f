//! Ordering by name. The emitted types are sorted by their names before they
//! are written, so that the output does not depend on the order of the maps
//! in the document. Items with equal names keep their order.

use vstd::prelude::*;
use crate::text::{lex_le, str_le};

verus! {

/// Where `key` goes in a list of sorted keys: behind the last key that comes
/// before it or equals it.
pub open spec fn insert_position(keys: Seq<Seq<char>>, key: Seq<char>) -> nat
    decreases keys.len(),
{
    if keys.len() == 0 {
        0
    } else if lex_le(keys.last(), key) {
        keys.len()
    } else {
        insert_position(keys.drop_last(), key)
    }
}

/// The first `n` keys in order.
pub open spec fn sorted_keys(keys: Seq<Seq<char>>, n: nat) -> Seq<Seq<char>>
    decreases n,
{
    if n == 0 {
        Seq::empty()
    } else {
        let before = sorted_keys(keys, (n - 1) as nat);
        before.insert(insert_position(before, keys[n - 1]) as int, keys[n - 1])
    }
}

/// The first `n` items in the order of their keys, where `keys[i]` is the key
/// of `items[i]`: each item is put, in turn, behind the items already placed
/// whose keys do not come after its own.
pub open spec fn sorted_items<T>(items: Seq<T>, keys: Seq<Seq<char>>, n: nat) -> Seq<T>
    decreases n,
{
    if n == 0 {
        Seq::empty()
    } else {
        let before = sorted_items(items, keys, (n - 1) as nat);
        before.insert(
            insert_position(sorted_keys(keys, (n - 1) as nat), keys[n - 1]) as int,
            items[n - 1],
        )
    }
}

/// Whether each key comes before the next one or equals it.
pub open spec fn ordered(keys: Seq<Seq<char>>) -> bool {
    forall|i: int| 0 <= i < keys.len() - 1 ==> lex_le(#[trigger] keys[i], keys[i + 1])
}

/// Of two names, one comes before the other or equals it.
pub proof fn lemma_order_is_total(a: Seq<char>, b: Seq<char>)
    ensures
        lex_le(a, b) || lex_le(b, a),
    decreases a.len(),
{
    if a.len() > 0 && b.len() > 0 {
        if a[0] == b[0] {
            lemma_order_is_total(a.skip(1), b.skip(1));
        } else {
            vstd::utf8::char_u32_cast(a[0], a[0] as u32);
            vstd::utf8::char_u32_cast(b[0], b[0] as u32);
        }
    }
}

/// The insert position is a position of the list, or its end. The key in
/// front of it does not come after the new key; the key at it does.
pub proof fn lemma_insert_position(keys: Seq<Seq<char>>, key: Seq<char>)
    ensures
        insert_position(keys, key) <= keys.len(),
        insert_position(keys, key) > 0 ==> lex_le(keys[insert_position(keys, key) - 1], key),
        insert_position(keys, key) < keys.len() ==> !lex_le(
            keys[insert_position(keys, key) as int],
            key,
        ),
    decreases keys.len(),
{
    if keys.len() > 0 && !lex_le(keys.last(), key) {
        lemma_insert_position(keys.drop_last(), key);
    }
}

/// Sorting keeps the number of items.
pub proof fn lemma_sorted_len<T>(items: Seq<T>, keys: Seq<Seq<char>>, n: nat)
    ensures
        sorted_items(items, keys, n).len() == n,
        sorted_keys(keys, n).len() == n,
    decreases n,
{
    if n > 0 {
        lemma_sorted_len(items, keys, (n - 1) as nat);
        lemma_insert_position(sorted_keys(keys, (n - 1) as nat), keys[n - 1]);
    }
}

/// A list that is in order stays in order when a key is put at its insert
/// position.
pub proof fn lemma_insert_keeps_order(before: Seq<Seq<char>>, key: Seq<char>)
    requires
        ordered(before),
    ensures
        ordered(before.insert(insert_position(before, key) as int, key)),
{
    let p = insert_position(before, key) as int;
    let after = before.insert(p, key);
    lemma_insert_position(before, key);
    assert forall|i: int| 0 <= i < after.len() - 1 implies lex_le(
        #[trigger] after[i],
        after[i + 1],
    ) by {
        if i + 1 < p {
            assert(after[i] == before[i]);
            assert(after[i + 1] == before[i + 1]);
            assert(lex_le(before[i], before[i + 1]));
        } else if i + 1 == p {
            assert(after[i] == before[p - 1]);
            assert(after[i + 1] == key);
        } else if i == p {
            assert(after[i] == key);
            assert(after[i + 1] == before[p]);
            lemma_order_is_total(before[p], key);
        } else {
            assert(after[i] == before[i - 1]);
            assert(after[i + 1] == before[i]);
            assert(lex_le(before[i - 1], before[i - 1 + 1]));
        }
    }
}

/// The sorted keys are in order.
pub proof fn lemma_sorted_keys_ordered(keys: Seq<Seq<char>>, n: nat)
    ensures
        ordered(sorted_keys(keys, n)),
    decreases n,
{
    if n > 0 {
        lemma_sorted_keys_ordered(keys, (n - 1) as nat);
        lemma_insert_keeps_order(sorted_keys(keys, (n - 1) as nat), keys[n - 1]);
    }
}

/// Putting an item into a list adds it to what the list holds, and nothing else.
pub proof fn lemma_insert_adds_one<T>(s: Seq<T>, p: int, x: T)
    requires
        0 <= p <= s.len(),
    ensures
        s.insert(p, x).to_multiset() == s.to_multiset().insert(x),
{
    let t = s.insert(p, x);
    assert(t.remove(p) =~= s);
    vstd::seq_lib::to_multiset_remove(t, p);
    t.to_multiset_ensures();
    assert(t[p] == x);
    assert(t.contains(x));
    assert(t.to_multiset() =~= s.to_multiset().insert(x));
}

/// Sorting rearranges: the sorted items are the given items, each as often as
/// it was given.
pub proof fn lemma_sorted_is_permutation<T>(items: Seq<T>, keys: Seq<Seq<char>>, n: nat)
    requires
        n <= items.len(),
    ensures
        sorted_items(items, keys, n).to_multiset() == items.take(n as int).to_multiset(),
    decreases n,
{
    if n > 0 {
        let before = sorted_items(items, keys, (n - 1) as nat);
        let placed = sorted_keys(keys, (n - 1) as nat);
        lemma_sorted_is_permutation(items, keys, (n - 1) as nat);
        lemma_sorted_len(items, keys, (n - 1) as nat);
        lemma_insert_position(placed, keys[n - 1]);
        lemma_insert_adds_one(before, insert_position(placed, keys[n - 1]) as int, items[n - 1]);
        assert(items.take(n as int) =~= items.take(n - 1).push(items[n - 1]));
        vstd::seq_lib::to_multiset_build(items.take(n - 1), items[n - 1]);
    } else {
        assert(items.take(0) =~= Seq::<T>::empty());
    }
}

/// The sorted items follow the sorted keys: where `key_of` gives each item
/// its key, the key of the item at any position of the sorted items is the
/// key at that position of the sorted keys.
pub proof fn lemma_sorted_items_follow_keys<T>(
    items: Seq<T>,
    keys: Seq<Seq<char>>,
    key_of: spec_fn(T) -> Seq<char>,
    n: nat,
)
    requires
        n <= items.len(),
        n <= keys.len(),
        forall|i: int| 0 <= i < n ==> key_of(#[trigger] items[i]) == keys[i],
    ensures
        sorted_items(items, keys, n).len() == n,
        sorted_keys(keys, n).len() == n,
        forall|j: int|
            0 <= j < n ==> key_of(#[trigger] sorted_items(items, keys, n)[j]) == sorted_keys(
                keys,
                n,
            )[j],
    decreases n,
{
    lemma_sorted_len(items, keys, n);
    if n > 0 {
        let before = sorted_items(items, keys, (n - 1) as nat);
        let placed = sorted_keys(keys, (n - 1) as nat);
        let p = insert_position(placed, keys[n - 1]) as int;
        lemma_sorted_items_follow_keys(items, keys, key_of, (n - 1) as nat);
        lemma_insert_position(placed, keys[n - 1]);
        let after = before.insert(p, items[n - 1]);
        let after_keys = placed.insert(p, keys[n - 1]);
        assert forall|j: int| 0 <= j < n implies key_of(#[trigger] after[j]) == after_keys[j] by {
            if j < p {
                assert(after[j] == before[j]);
                assert(after_keys[j] == placed[j]);
            } else if j == p {
                assert(after[j] == items[n - 1]);
                assert(after_keys[j] == keys[n - 1]);
            } else {
                assert(after[j] == before[j - 1]);
                assert(after_keys[j] == placed[j - 1]);
            }
        }
    }
}

/// Sorts `items` by `keys`, where `keys[i]` is the key of `items[i]`. Items
/// with equal keys keep their order.
pub fn sort_by_keys<T: DeepView>(items: Vec<T>, keys: Vec<String>) -> (r: Vec<T>)
    requires
        items.len() == keys.len(),
    ensures
        r.deep_view() == sorted_items(items.deep_view(), keys.deep_view(), items.len() as nat),
{
    let ghost all_items = items.deep_view();
    let ghost all_keys = keys.deep_view();
    let mut rest = items;
    let mut rest_keys = keys;
    let mut out: Vec<T> = Vec::new();
    let mut out_keys: Vec<String> = Vec::new();
    let ghost mut done: nat = 0;
    assert(out.deep_view() =~= Seq::<T::V>::empty());
    assert(out_keys.deep_view() =~= Seq::<Seq<char>>::empty());
    assert(rest.deep_view() =~= all_items.skip(0));
    assert(rest_keys.deep_view() =~= all_keys.skip(0));
    while rest.len() > 0
        invariant
            all_items.len() == all_keys.len(),
            rest.len() == rest_keys.len(),
            done + rest.len() == all_items.len(),
            rest.deep_view() == all_items.skip(done as int),
            rest_keys.deep_view() == all_keys.skip(done as int),
            out.deep_view() == sorted_items(all_items, all_keys, done),
            out_keys.deep_view() == sorted_keys(all_keys, done),
            out.len() == done,
            out_keys.len() == done,
        decreases rest.len(),
    {
        let ghost rest_before = rest.deep_view();
        let ghost rest_keys_before = rest_keys.deep_view();
        let item = rest.remove(0);
        let key = rest_keys.remove(0);
        assert(item.deep_view() == rest_before[0]);
        assert(key@ == rest_keys_before[0]);
        assert forall|i: int| 0 <= i < rest.len() implies rest.deep_view()[i] == all_items.skip(
            done as int + 1,
        )[i] by {
            assert(rest.deep_view()[i] == rest@[i].deep_view());
            assert(rest_before[i + 1] == all_items[done + i + 1]);
        }
        assert forall|i: int| 0 <= i < rest_keys.len() implies rest_keys.deep_view()[i]
            == all_keys.skip(done as int + 1)[i] by {
            assert(rest_keys.deep_view()[i] == rest_keys@[i]@);
            assert(rest_keys_before[i + 1] == all_keys[done + i + 1]);
        }
        assert(rest.deep_view() =~= all_items.skip(done as int + 1));
        assert(rest_keys.deep_view() =~= all_keys.skip(done as int + 1));
        let ghost placed = out_keys.deep_view();
        let mut j: usize = out_keys.len();
        assert(placed.take(j as int) =~= placed);
        while j > 0 && !str_le(out_keys[j - 1].as_str(), key.as_str())
            invariant
                j <= out_keys.len(),
                placed == out_keys.deep_view(),
                insert_position(placed, key@) == insert_position(placed.take(j as int), key@),
            decreases j,
        {
            assert(placed.take(j as int).last() == placed[j - 1]);
            assert(placed.take(j as int).drop_last() =~= placed.take(j - 1));
            j = j - 1;
        }
        proof {
            if j > 0 {
                assert(placed.take(j as int).last() == placed[j - 1]);
            }
            assert(insert_position(placed, key@) == j);
        }
        let ghost out_before = out.deep_view();
        let ghost item_view = item.deep_view();
        out.insert(j, item);
        out_keys.insert(j, key);
        assert(out.deep_view() =~= out_before.insert(j as int, item_view));
        assert(out_keys.deep_view() =~= placed.insert(j as int, all_keys[done as int]));
        proof {
            done = done + 1;
        }
    }
    out
}

/// Sorts names. The result is that of sorting the names by themselves.
pub fn sort_names(names: Vec<String>) -> (r: Vec<String>)
    ensures
        r.deep_view() == sorted_keys(names.deep_view(), names.len() as nat),
{
    let mut keys: Vec<String> = Vec::new();
    let mut i: usize = 0;
    while i < names.len()
        invariant
            i <= names.len(),
            keys.len() == i,
            keys.deep_view() == names.deep_view().take(i as int),
        decreases names.len() - i,
    {
        let ghost before = keys.deep_view();
        keys.push(names[i].clone());
        assert(keys.deep_view() =~= names.deep_view().take(i + 1));
        i = i + 1;
    }
    assert(keys.deep_view() =~= names.deep_view());
    proof {
        lemma_sorted_items_of_keys(names.deep_view(), names.len() as nat);
    }
    sort_by_keys(names, keys)
}

/// Sorting the keys as items gives the sorted keys.
pub proof fn lemma_sorted_items_of_keys(keys: Seq<Seq<char>>, n: nat)
    ensures
        sorted_items(keys, keys, n) == sorted_keys(keys, n),
    decreases n,
{
    if n > 0 {
        lemma_sorted_items_of_keys(keys, (n - 1) as nat);
    }
}

} // verus!
