//! Finding the items of a list by name, and reading a list of keyed items
//! as a map.

use vstd::prelude::*;

use crate::model::{first_at, first_place, lemma_first_place_exists, lemma_first_place_is};
use crate::text::same_text;

verus! {

/// Something that is found by its name.
pub(crate) trait Named {
    /// The name as the contracts see it.
    spec fn name_view(&self) -> Seq<char>;

    /// The name.
    fn name_text(&self) -> (name: &str)
        ensures
            name@ == self.name_view(),
    ;
}

/// The names of the items, in order.
pub(crate) open spec fn names_of<T: Named>(items: Seq<T>) -> Seq<Seq<char>> {
    Seq::new(items.len(), |i: int| items[i].name_view())
}

/// The first place at which an item of that name stands, if there is one.
pub(crate) fn position<T: Named>(items: &Vec<T>, name: &str) -> (place: Option<usize>)
    ensures
        match place {
            Some(i) => first_at(names_of(items@), name@, i as int),
            None => !names_of(items@).contains(name@),
        },
{
    let mut i: usize = 0;
    while i < items.len()
        invariant
            i <= items@.len(),
            forall|j: int| 0 <= j < i ==> names_of(items@)[j] != name@,
        decreases items@.len() - i,
    {
        if same_text(items[i].name_text(), name) {
            return Some(i);
        }
        i += 1;
    }
    None
}

/// Whether two of the items have the same name.
pub(crate) fn repeats<T: Named>(items: &Vec<T>) -> (repeated: bool)
    ensures
        repeated == !names_of(items@).no_duplicates(),
{
    let ghost names = names_of(items@);
    let mut i: usize = 0;
    while i < items.len()
        invariant
            i <= items@.len(),
            names == names_of(items@),
            forall|a: int, b: int| 0 <= a < b < i ==> names[a] != names[b],
        decreases items@.len() - i,
    {
        let mut j: usize = 0;
        while j < i
            invariant
                j <= i < items@.len(),
                names == names_of(items@),
                forall|a: int| 0 <= a < j ==> names[a] != names[i as int],
            decreases i - j,
        {
            if same_text(items[j].name_text(), items[i].name_text()) {
                assert(names[j as int] == names[i as int]);
                return true;
            }
            j += 1;
        }
        i += 1;
    }
    assert forall|a: int, b: int|
        0 <= a < names.len() && 0 <= b < names.len() && a != b implies names[a] != names[b] by {
        if a < b {
        } else {
            assert(names[b] != names[a]);
        }
    }
    false
}

/// The map from each key to the value that stands where the key first
/// stands.
pub(crate) open spec fn keyed<K, V>(keys: Seq<K>, values: Seq<V>) -> Map<K, V> {
    Map::new(|key: K| keys.contains(key), |key: K| values[first_place(keys, key)])
}

/// A key found at its first place leads to the value at that place.
pub(crate) proof fn lemma_keyed_at<K, V>(keys: Seq<K>, values: Seq<V>, key: K, i: int)
    requires
        first_at(keys, key, i),
    ensures
        keyed(keys, values).dom().contains(key),
        keyed(keys, values)[key] == values[i],
{
    lemma_first_place_is(keys, key, i);
}

/// Appending a value under a new key adds one entry to the map.
pub(crate) proof fn lemma_keyed_appended<K, V>(keys: Seq<K>, values: Seq<V>, key: K, value: V)
    requires
        keys.len() == values.len(),
        !keys.contains(key),
    ensures
        keyed(keys.push(key), values.push(value)) == keyed(keys, values).insert(key, value),
{
    let keys_after = keys.push(key);
    let left = keyed(keys_after, values.push(value));
    let right = keyed(keys, values).insert(key, value);
    assert forall|k: K| left.dom().contains(k) <==> right.dom().contains(k) by {
        if keys.contains(k) {
            let i = choose|i: int| 0 <= i < keys.len() && keys[i] == k;
            assert(keys_after[i] == k);
        }
        if keys_after.contains(k) && k != key {
            let i = choose|i: int| 0 <= i < keys_after.len() && keys_after[i] == k;
            assert(keys[i] == k);
        }
        assert(keys_after[keys.len() as int] == key);
    }
    assert forall|k: K| left.dom().contains(k) implies left[k] == right[k] by {
        if k == key {
            assert(first_at(keys_after, k, keys.len() as int));
            lemma_first_place_is(keys_after, k, keys.len() as int);
        } else {
            lemma_first_place_exists(keys_after, k);
            let i = first_place(keys_after, k);
            assert(keys[i] == k);
            assert(first_at(keys, k, i)) by {
                assert forall|j: int| 0 <= j < i implies keys[j] != k by {
                    assert(keys_after[j] == keys[j]);
                }
            }
            lemma_first_place_is(keys, k, i);
        }
    }
    assert(left =~= right);
}

} // verus!
