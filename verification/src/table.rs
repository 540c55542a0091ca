//! Association table: a finite map from keys to items.

use vstd::prelude::*;

verus! {

/// A key type whose equality can be decided.
pub trait TableKey: View + Sized {
    /// Whether both keys have the same value.
    fn same_key(&self, other: &Self) -> (r: bool)
        ensures
            r == (self@ == other@),
    ;
}

/// A finite map from key values to items.
pub struct Table<K: TableKey, T> {
    items: Vec<(K, T)>,
}

/// No key value occurs twice.
spec fn distinct_keys<K: TableKey, T>(items: Seq<(K, T)>) -> bool {
    forall|i: int, j: int| 0 <= i < j < items.len() ==> items[i].0@ != items[j].0@
}

/// The map that a sequence of associations stands for.
spec fn contents<K: TableKey, T>(items: Seq<(K, T)>) -> Map<K::V, T>
    decreases items.len(),
{
    if items.len() == 0 {
        Map::empty()
    } else {
        contents(items.drop_last()).insert(items.last().0@, items.last().1)
    }
}

proof fn lemma_contents<K: TableKey, T>(items: Seq<(K, T)>)
    requires
        distinct_keys(items),
    ensures
        contents(items).dom().finite(),
        contents(items).dom().len() == items.len(),
        forall|i: int|
            0 <= i < items.len() ==> contents(items).contains_key(#[trigger] items[i].0@)
                && contents(items)[items[i].0@] == items[i].1,
        forall|k: K::V| #[trigger]
            contents(items).contains_key(k) ==> exists|i: int|
                0 <= i < items.len() && items[i].0@ == k,
    decreases items.len(),
{
    if items.len() > 0 {
        let rest = items.drop_last();
        lemma_contents(rest);
        assert forall|i: int| 0 <= i < items.len() implies contents(items).contains_key(
            #[trigger] items[i].0@,
        ) && contents(items)[items[i].0@] == items[i].1 by {
            if i < rest.len() {
                assert(rest[i] == items[i]);
            }
        }
        assert forall|k: K::V| #[trigger] contents(items).contains_key(k) implies exists|i: int|
            0 <= i < items.len() && items[i].0@ == k by {
            if k == items.last().0@ {
                assert(items[items.len() - 1].0@ == k);
            } else {
                assert(contents(rest).contains_key(k));
                let i = choose|i: int| 0 <= i < rest.len() && rest[i].0@ == k;
                assert(items[i].0@ == k);
            }
        }
        if contents(rest).contains_key(items.last().0@) {
            let i = choose|i: int| 0 <= i < rest.len() && rest[i].0@ == items.last().0@;
            assert(items[i].0@ == items[items.len() - 1].0@);
        }
    }
}

/// Two sequences with the same associations, whatever their order, stand for the same map.
proof fn lemma_same_contents<K: TableKey, T>(items: Seq<(K, T)>, m: Map<K::V, T>)
    requires
        distinct_keys(items),
        forall|i: int|
            0 <= i < items.len() ==> m.contains_key(#[trigger] items[i].0@) && m[items[i].0@]
                == items[i].1,
        forall|k: K::V| #[trigger]
            m.contains_key(k) ==> exists|i: int| 0 <= i < items.len() && items[i].0@ == k,
    ensures
        contents(items) == m,
{
    lemma_contents(items);
    assert forall|k: K::V| contents(items).contains_key(k) <==> m.contains_key(k) by {}
    assert forall|k: K::V| m.contains_key(k) implies contents(items)[k] == m[k] by {
        let i = choose|i: int| 0 <= i < items.len() && items[i].0@ == k;
        assert(m[items[i].0@] == items[i].1);
    }
    assert(contents(items) =~= m);
}

impl<K: TableKey, T> View for Table<K, T> {
    type V = Map<K::V, T>;

    closed spec fn view(&self) -> Map<K::V, T> {
        contents(self.items@)
    }
}

impl<K: TableKey, T> Table<K, T> {
    #[verifier::type_invariant]
    spec fn well_formed(self) -> bool {
        distinct_keys(self.items@)
    }

    /// The empty table.
    pub fn new() -> (r: Table<K, T>)
        ensures
            r@ == Map::<K::V, T>::empty(),
    {
        Table { items: Vec::new() }
    }

    /// The number of items.
    pub fn len(&self) -> (r: usize)
        ensures
            self@.dom().finite(),
            r == self@.dom().len(),
    {
        proof {
            use_type_invariant(self);
            lemma_contents(self.items@);
        }
        self.items.len()
    }

    /// Where the key stands, if it is present.
    fn position(&self, key: &K) -> (r: Option<usize>)
        ensures
            match r {
                Some(i) => i < self.items.len() && self.items@[i as int].0@ == key@,
                None => forall|i: int|
                    0 <= i < self.items.len() ==> #[trigger] self.items@[i].0@ != key@,
            },
    {
        let mut i: usize = 0;
        while i < self.items.len()
            invariant
                i <= self.items.len(),
                forall|k: int| 0 <= k < i ==> #[trigger] self.items@[k].0@ != key@,
            decreases self.items.len() - i,
        {
            if self.items[i].0.same_key(key) {
                return Some(i);
            }
            i = i + 1;
        }
        None
    }

    /// The item under `key`.
    pub fn get(&self, key: &K) -> (r: Option<&T>)
        ensures
            match r {
                Some(item) => self@.contains_key(key@) && self@[key@] == *item,
                None => !self@.contains_key(key@),
            },
    {
        proof {
            use_type_invariant(self);
            lemma_contents(self.items@);
        }
        match self.position(key) {
            Some(i) => Some(&self.items[i].1),
            None => None,
        }
    }

    /// Whether `key` is present.
    pub fn contains(&self, key: &K) -> (r: bool)
        ensures
            r == self@.contains_key(key@),
    {
        self.get(key).is_some()
    }

    /// Stores `item` under `key`, in place of what was there.
    pub fn insert(&mut self, key: K, item: T)
        ensures
            final(self)@ == old(self)@.insert(key@, item),
    {
        proof {
            use_type_invariant(&*self);
            lemma_contents(self.items@);
        }
        let ghost before = self.items@;
        let at: Option<usize> = self.position(&key);
        let mut items: Vec<(K, T)> = Vec::new();
        std::mem::swap(&mut items, &mut self.items);
        match at {
            Some(i) => {
                items.set(i, (key, item));
                proof {
                    assert forall|k: K::V| #[trigger]
                        contents(before).insert(key@, item).contains_key(
                            k,
                        ) implies exists|j: int| 0 <= j < items.len() && items@[j].0@ == k by {
                        if k == key@ {
                            assert(items@[i as int].0@ == k);
                        } else {
                            let j = choose|j: int| 0 <= j < before.len() && before[j].0@ == k;
                            assert(items@[j].0@ == k);
                        }
                    }
                    assert forall|j: int| 0 <= j < items.len() implies contents(before).insert(
                        key@,
                        item,
                    ).contains_key(#[trigger] items@[j].0@) && contents(before).insert(key@, item)[
                        items@[j].0@
                    ] == items@[j].1 by {
                        if j != i {
                            assert(items@[j] == before[j]);
                            assert(before[j].0@ != before[i as int].0@);
                        }
                    }
                    lemma_same_contents(items@, contents(before).insert(key@, item));
                }
            },
            None => {
                items.push((key, item));
                assert(items@.drop_last() == before);
            },
        }
        self.items = items;
    }

    /// Removes and returns the item under `key`.
    pub fn remove(&mut self, key: &K) -> (r: Option<T>)
        ensures
            final(self)@ == old(self)@.remove(key@),
            match r {
                Some(item) => old(self)@.contains_key(key@) && old(self)@[key@] == item,
                None => !old(self)@.contains_key(key@),
            },
    {
        proof {
            use_type_invariant(&*self);
            lemma_contents(self.items@);
        }
        let ghost before = self.items@;
        match self.position(key) {
            None => {
                assert(contents(before) =~= contents(before).remove(key@));
                None
            },
            Some(i) => {
                let mut items: Vec<(K, T)> = Vec::new();
                std::mem::swap(&mut items, &mut self.items);
                let (_, item): (K, T) = items.remove(i);
                proof {
                    let after = items@;
                    let m = contents(before).remove(key@);
                    assert forall|j: int| 0 <= j < after.len() implies m.contains_key(
                        #[trigger] after[j].0@,
                    ) && m[after[j].0@] == after[j].1 by {
                        let o = if j < i {
                            j
                        } else {
                            j + 1
                        };
                        assert(after[j] == before[o]);
                        assert(before[o].0@ != before[i as int].0@);
                    }
                    assert forall|k: K::V| #[trigger] m.contains_key(k) implies exists|j: int|
                        0 <= j < after.len() && after[j].0@ == k by {
                        let o = choose|o: int| 0 <= o < before.len() && before[o].0@ == k;
                        let j = if o < i {
                            o
                        } else {
                            o - 1
                        };
                        assert(after[j].0@ == k);
                    }
                    lemma_same_contents(after, m);
                }
                self.items = items;
                Some(item)
            },
        }
    }

    /// Removes every item.
    pub fn clear(&mut self)
        ensures
            final(self)@ == Map::<K::V, T>::empty(),
    {
        self.items = Vec::new();
    }

    /// Removes every item that `pred` rejects; `keep` is what `pred` decides.
    pub(crate) fn retain<F: Fn(&T) -> bool>(&mut self, pred: F, Ghost(keep): Ghost<
        spec_fn(T) -> bool,
    >)
        requires
            forall|item: T| pred.requires((&item,)),
            forall|item: T, b: bool| pred.ensures((&item,), b) ==> b == keep(item),
        ensures
            final(self)@ == kept(old(self)@, keep),
    {
        proof {
            use_type_invariant(&*self);
            lemma_contents(self.items@);
        }
        let ghost before = self.items@;
        let ghost m = kept(contents(before), keep);
        let mut items: Vec<(K, T)> = Vec::new();
        std::mem::swap(&mut items, &mut self.items);
        let mut i: usize = 0;
        while i < items.len()
            invariant
                i <= items.len(),
                forall|item: T| pred.requires((&item,)),
                forall|item: T, b: bool| pred.ensures((&item,), b) ==> b == keep(item),
                distinct_keys(items@),
                m == kept(contents(before), keep),
                forall|j: int| 0 <= j < i ==> keep(#[trigger] items@[j].1),
                forall|j: int|
                    0 <= j < items.len() ==> contents(before).contains_key(
                        #[trigger] items@[j].0@,
                    ) && contents(before)[items@[j].0@] == items@[j].1,
                forall|k: K::V| #[trigger]
                    m.contains_key(k) ==> exists|j: int|
                        0 <= j < items.len() && items@[j].0@ == k,
            decreases items.len() - i,
        {
            let ghost now = items@;
            if pred(&items[i].1) {
                i = i + 1;
            } else {
                items.remove(i);
                proof {
                    assert forall|k: K::V| #[trigger] m.contains_key(k) implies exists|j: int|
                        0 <= j < items.len() && items@[j].0@ == k by {
                        let o = choose|o: int| 0 <= o < now.len() && now[o].0@ == k;
                        assert(o != i) by {
                            if o == i {
                                assert(contents(before)[now[o].0@] == now[o].1);
                            }
                        }
                        let j = if o < i {
                            o
                        } else {
                            o - 1
                        };
                        assert(items@[j].0@ == k);
                    }
                    assert forall|j: int| 0 <= j < items.len() implies contents(
                        before,
                    ).contains_key(#[trigger] items@[j].0@) && contents(before)[items@[j].0@]
                        == items@[j].1 by {
                        let o = if j < i {
                            j
                        } else {
                            j + 1
                        };
                        assert(items@[j] == now[o]);
                    }
                }
            }
        }
        proof {
            lemma_same_contents(items@, m);
        }
        self.items = items;
    }
}

/// The part of a map whose items `keep` accepts.
pub open spec fn kept<K, T>(m: Map<K, T>, keep: spec_fn(T) -> bool) -> Map<K, T> {
    Map::new(|k: K| m.contains_key(k) && keep(m[k]), |k: K| m[k])
}

/// The values of the items of a map.
pub open spec fn item_views<K, T: View>(m: Map<K, T>) -> Map<K, T::V> {
    Map::new(|k: K| m.contains_key(k), |k: K| m[k]@)
}

/// Storing an item stores its value.
pub proof fn lemma_views_insert<K, T: View>(m: Map<K, T>, k: K, item: T)
    ensures
        item_views(m.insert(k, item)) == item_views(m).insert(k, item@),
{
    assert(item_views(m.insert(k, item)) =~= item_views(m).insert(k, item@));
}

/// Removing an item removes its value.
pub proof fn lemma_views_remove<K, T: View>(m: Map<K, T>, k: K)
    ensures
        item_views(m.remove(k)) == item_views(m).remove(k),
{
    assert(item_views(m.remove(k)) =~= item_views(m).remove(k));
}

/// Keeping items by their value keeps the values.
pub proof fn lemma_views_kept<K, T: View>(
    m: Map<K, T>,
    keep: spec_fn(T) -> bool,
    keep_value: spec_fn(T::V) -> bool,
)
    requires
        forall|item: T| keep(item) == #[trigger] keep_value(item@),
    ensures
        item_views(kept(m, keep)) == kept(item_views(m), keep_value),
{
    assert forall|k: K| item_views(kept(m, keep)).contains_key(k) == kept(
        item_views(m),
        keep_value,
    ).contains_key(k) by {
        if m.contains_key(k) {
            assert(keep(m[k]) == keep_value(m[k]@));
        }
    }
    assert(item_views(kept(m, keep)) =~= kept(item_views(m), keep_value));
}

/// A map of no items holds no values.
pub proof fn lemma_views_empty<K, T: View>()
    ensures
        item_views(Map::<K, T>::empty()) == Map::<K, T::V>::empty(),
{
    assert(item_views(Map::<K, T>::empty()) =~= Map::<K, T::V>::empty());
}

impl TableKey for [u8; 32] {
    fn same_key(&self, other: &[u8; 32]) -> (r: bool) {
        crate::model::same_array32(self, other)
    }
}

impl TableKey for String {
    fn same_key(&self, other: &String) -> (r: bool) {
        *self == *other
    }
}

impl TableKey for crate::key::Key {
    fn same_key(&self, other: &crate::key::Key) -> (r: bool) {
        self.same(other)
    }
}

/// Keeping part of a map keeps exactly the items that are accepted, each under its key; taking
/// values gives each key the value of its item.
pub proof fn law_parts_of_a_map<K, T: View>(m: Map<K, T>, keep: spec_fn(T) -> bool, k: K)
    ensures
        kept(m, keep).contains_key(k) <==> m.contains_key(k) && keep(m[k]),
        kept(m, keep).contains_key(k) ==> kept(m, keep)[k] == m[k],
        item_views(m).contains_key(k) <==> m.contains_key(k),
        m.contains_key(k) ==> item_views(m)[k] == m[k]@,
{
}

}
