//! A map from texts to values that keeps its keys in ascending order.
use crate::text::{
    lemma_text_less_irreflexive, lemma_text_less_total, lemma_text_less_transitive, text_before,
    text_less,
};
use vstd::prelude::*;

verus! {

/// Whether each key comes strictly before every later one.
pub open spec fn increasing(keys: Seq<Seq<char>>) -> bool {
    forall|i: int, j: int|
        0 <= i < j < keys.len() ==> text_less(#[trigger] keys[i], #[trigger] keys[j])
}

/// The map that takes `keys[i]` to `values[i]`.
pub open spec fn map_of<V>(keys: Seq<Seq<char>>, values: Seq<V>) -> Map<Seq<char>, V> {
    Map::new(|k: Seq<char>| keys.contains(k), |k: Seq<char>| values[keys.index_of(k)])
}

/// Among strictly increasing keys, each one is found at its own place.
pub proof fn lemma_increasing_index(keys: Seq<Seq<char>>, i: int)
    requires
        increasing(keys),
        0 <= i < keys.len(),
    ensures
        keys.index_of(keys[i]) == i,
{
    let j = keys.index_of(keys[i]);
    assert(keys.contains(keys[i]));
    assert(0 <= j < keys.len() && keys[j] == keys[i]);
    lemma_text_less_irreflexive(keys[i]);
    if i < j {
        assert(text_less(keys[i], keys[j]));
    } else if j < i {
        assert(text_less(keys[j], keys[i]));
    }
}

/// A map from texts to values, its keys in ascending order and none of them
/// twice.
pub struct OrderedMap<V> {
    keys: Vec<String>,
    values: Vec<V>,
}

impl<V> View for OrderedMap<V> {
    type V = Map<Seq<char>, V>;

    open spec fn view(&self) -> Map<Seq<char>, V> {
        map_of(self.keys(), self.values())
    }
}

impl<V> OrderedMap<V> {
    #[verifier::type_invariant]
    spec fn valid(self) -> bool {
        &&& increasing(self.keys())
        &&& self.keys@.len() == self.values@.len()
    }

    /// The keys, in ascending order.
    pub closed spec fn keys(&self) -> Seq<Seq<char>> {
        self.keys@.map_values(|k: String| k@)
    }

    /// The values, in the order of their keys.
    pub closed spec fn values(&self) -> Seq<V> {
        self.values@
    }

    /// A map without entries.
    pub fn new() -> (r: Self)
        ensures
            r@ == Map::<Seq<char>, V>::empty(),
            r.keys().len() == 0,
            r.values().len() == 0,
    {
        let r = OrderedMap { keys: Vec::new(), values: Vec::new() };
        assert(r@ =~= Map::<Seq<char>, V>::empty());
        r
    }

    /// How many entries there are.
    pub fn len(&self) -> (r: usize)
        ensures
            r == self.keys().len(),
            r == self.values().len(),
            increasing(self.keys()),
    {
        proof {
            use_type_invariant(self);
        }
        self.keys.len()
    }

    /// The key at a position.
    pub fn key_at(&self, i: usize) -> (r: &String)
        requires
            i < self.keys().len(),
        ensures
            r@ == self.keys()[i as int],
            self@.contains_key(r@),
            self@[r@] == self.values()[i as int],
    {
        proof {
            use_type_invariant(self);
            lemma_increasing_index(self.keys(), i as int);
        }
        &self.keys[i]
    }

    /// The value at a position.
    pub fn value_at(&self, i: usize) -> (r: &V)
        requires
            i < self.keys().len(),
        ensures
            *r == self.values()[i as int],
            self@.contains_key(self.keys()[i as int]),
            self@[self.keys()[i as int]] == *r,
    {
        proof {
            use_type_invariant(self);
            lemma_increasing_index(self.keys(), i as int);
        }
        &self.values[i]
    }

    /// The value at a position, to be changed in place.
    pub fn value_mut(&mut self, i: usize) -> (r: &mut V)
        requires
            i < old(self).keys().len(),
        ensures
            *r == old(self).values()[i as int],
            old(self).values().len() == old(self).keys().len(),
            final(self).keys() == old(self).keys(),
            final(self).values() == old(self).values().update(i as int, *final(r)),
    {
        proof {
            use_type_invariant(&*self);
        }
        &mut self.values[i]
    }

    /// Where `key` is, or where it would have to go.
    fn find(&self, key: &str) -> (r: (bool, usize))
        ensures
            r.1 <= self.keys().len(),
            forall|i: int| 0 <= i < r.1 ==> text_less(#[trigger] self.keys()[i], key@),
            r.0 ==> r.1 < self.keys().len() && self.keys()[r.1 as int] == key@,
            !r.0 ==> forall|i: int|
                r.1 <= i < self.keys().len() ==> text_less(key@, #[trigger] self.keys()[i]),
    {
        proof {
            use_type_invariant(self);
        }
        let mut low: usize = 0;
        let mut high: usize = self.keys.len();
        while low < high
            invariant
                low <= high <= self.keys().len(),
                self.keys().len() == self.keys@.len(),
                increasing(self.keys()),
                forall|i: int| 0 <= i < low ==> text_less(#[trigger] self.keys()[i], key@),
                forall|i: int|
                    high <= i < self.keys().len() ==> text_less(key@, #[trigger] self.keys()[i]),
            decreases high - low,
        {
            let mid: usize = low + (high - low) / 2;
            let here = self.keys[mid].as_str();
            assert(here@ == self.keys()[mid as int]);
            if text_before(here, key) {
                assert forall|i: int| 0 <= i < mid + 1 implies text_less(
                    #[trigger] self.keys()[i],
                    key@,
                ) by {
                    if i < mid {
                        lemma_text_less_transitive(self.keys()[i], here@, key@);
                    }
                }
                low = mid + 1;
            } else if text_before(key, here) {
                assert forall|i: int| mid <= i < self.keys().len() implies text_less(
                    key@,
                    #[trigger] self.keys()[i],
                ) by {
                    if mid < i {
                        lemma_text_less_transitive(key@, here@, self.keys()[i]);
                    }
                }
                high = mid;
            } else {
                proof {
                    lemma_text_less_total(here@, key@);
                }
                return (true, mid);
            }
        }
        (false, low)
    }

    /// The value that stands under `key`, if there is one.
    pub fn get(&self, key: &str) -> (r: Option<&V>)
        ensures
            r is Some <==> self@.contains_key(key@),
            r matches Some(v) ==> *v == self@[key@],
    {
        proof {
            use_type_invariant(self);
        }
        let (found, at) = self.find(key);
        if found {
            proof {
                lemma_increasing_index(self.keys(), at as int);
            }
            Some(&self.values[at])
        } else {
            proof {
                lemma_text_less_irreflexive(key@);
            }
            None
        }
    }

    /// Puts `value` under `key`, in place of what stood there.
    pub fn insert(&mut self, key: String, value: V)
        ensures
            final(self)@ == old(self)@.insert(key@, value),
            increasing(final(self).keys()),
    {
        proof {
            use_type_invariant(&*self);
        }
        let ghost before = *self;
        let (found, at) = self.find(key.as_str());
        let mut all: OrderedMap<V> = OrderedMap::new();
        std::mem::swap(&mut all, self);
        assert(all == before);
        let OrderedMap { mut keys, mut values } = all;
        let ghost old_keys = before.keys();
        let ghost old_values = before.values();
        if found {
            values.set(at, value);
            assert(keys@.map_values(|k: String| k@) == old_keys);
            *self = OrderedMap { keys, values };
            proof {
                lemma_replaced(old_keys, old_values, at as int, value);
            }
        } else {
            let ghost name = key@;
            keys.insert(at, key);
            values.insert(at, value);
            assert(keys@.map_values(|k: String| k@) =~= old_keys.insert(at as int, name));
            proof {
                lemma_inserted(old_keys, old_values, at as int, name, value);
            }
            *self = OrderedMap { keys, values };
        }
    }
}

/// Replacing the value at a place replaces the value under the key there.
proof fn lemma_replaced<V>(keys: Seq<Seq<char>>, values: Seq<V>, at: int, value: V)
    requires
        increasing(keys),
        keys.len() == values.len(),
        0 <= at < keys.len(),
    ensures
        map_of(keys, values.update(at, value)) == map_of(keys, values).insert(keys[at], value),
{
    lemma_increasing_index(keys, at);
    let after = map_of(keys, values.update(at, value));
    let wanted = map_of(keys, values).insert(keys[at], value);
    assert forall|k: Seq<char>| after.contains_key(k) == wanted.contains_key(k) by {
        assert(keys.contains(keys[at]));
    }
    assert forall|k: Seq<char>| after.contains_key(k) implies after[k] == wanted[k] by {
        let i = keys.index_of(k);
        assert(keys[i] == k);
    }
    assert(after =~= wanted);
}

/// Inserting a new key between those before and those after it keeps the
/// order and adds one entry.
proof fn lemma_inserted<V>(
    keys: Seq<Seq<char>>,
    values: Seq<V>,
    at: int,
    key: Seq<char>,
    value: V,
)
    requires
        increasing(keys),
        keys.len() == values.len(),
        0 <= at <= keys.len(),
        forall|i: int| 0 <= i < at ==> text_less(#[trigger] keys[i], key),
        forall|i: int| at <= i < keys.len() ==> text_less(key, #[trigger] keys[i]),
    ensures
        increasing(keys.insert(at, key)),
        map_of(keys.insert(at, key), values.insert(at, value)) == map_of(keys, values).insert(
            key,
            value,
        ),
{
    let new_keys = keys.insert(at, key);
    let new_values = values.insert(at, value);
    assert forall|i: int, j: int| 0 <= i < j < new_keys.len() implies text_less(
        #[trigger] new_keys[i],
        #[trigger] new_keys[j],
    ) by {
        if i < at && j > at {
            assert(text_less(keys[i], keys[j - 1]));
        } else if i < at && j < at {
            assert(text_less(keys[i], keys[j]));
        } else if i > at {
            assert(text_less(keys[i - 1], keys[j - 1]));
        }
    }
    let after = map_of(new_keys, new_values);
    let wanted = map_of(keys, values).insert(key, value);
    assert forall|k: Seq<char>| after.contains_key(k) == wanted.contains_key(k) by {
        if wanted.contains_key(k) {
            if k == key {
                assert(new_keys[at] == k);
            } else {
                let i = keys.index_of(k);
                assert(keys[i] == k);
                assert(new_keys[if i < at { i } else { i + 1 }] == k);
            }
        }
        if after.contains_key(k) {
            let i = new_keys.index_of(k);
            assert(new_keys[i] == k);
            if i != at {
                assert(keys[if i < at { i } else { i - 1 }] == k);
            }
        }
    }
    assert forall|k: Seq<char>| after.contains_key(k) implies after[k] == wanted[k] by {
        let i = new_keys.index_of(k);
        assert(new_keys[i] == k);
        if k == key {
            lemma_increasing_index(new_keys, at);
        } else {
            let j = if i < at {
                i
            } else {
                i - 1
            };
            assert(keys[j] == k);
            lemma_increasing_index(keys, j);
        }
    }
    assert(after =~= wanted);
}

impl<V: Clone> Clone for OrderedMap<V> {
    fn clone(&self) -> (r: Self)
        ensures
            r.keys() == self.keys(),
            r.values().len() == self.values().len(),
            forall|i: int|
                0 <= i < self.values().len() ==> cloned::<V>(
                    #[trigger] self.values()[i],
                    r.values()[i],
                ),
    {
        proof {
            use_type_invariant(self);
        }
        let keys = self.keys.clone();
        assert(keys@.map_values(|k: String| k@) =~= self.keys());
        let values = self.values.clone();
        OrderedMap { keys, values }
    }
}

} // verus!
