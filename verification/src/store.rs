//! Stores of items, each under its own key. The index of a store is a concurrent hash map from
//! the key to the place of the item.
use dashmap::DashMap;
use vstd::prelude::*;

verus! {

/// [`dashmap::DashMap`]: a concurrent hash map.
#[verifier::external_type_specification]
#[verifier::external_body]
#[verifier::reject_recursive_types(K)]
#[verifier::reject_recursive_types(V)]
#[verifier::reject_recursive_types(S)]
pub struct ExDashMap<K, V, S>(dashmap::DashMap<K, V, S>);

/// What an index by text holds.
pub uninterp spec fn text_index(m: DashMap<String, usize>) -> Map<Seq<char>, usize>;

/// What an index by id holds.
pub uninterp spec fn id_index(m: DashMap<i64, usize>) -> Map<i64, usize>;

/// [`DashMap::new`] makes a map without entries.
#[verifier::external_body]
fn text_index_new() -> (m: DashMap<String, usize>)
    ensures
        text_index(m) == (Map::<Seq<char>, usize>::empty()),
{
    DashMap::new()
}

/// [`DashMap::insert`] gives the key the value, in place of the one that it had. The map is
/// borrowed mutably, so that nobody else changes it meanwhile.
#[verifier::external_body]
fn text_index_insert(m: &mut DashMap<String, usize>, key: String, place: usize)
    ensures
        text_index(*final(m)) == text_index(*old(m)).insert(key@, place),
{
    m.insert(key, place);
}

/// [`DashMap::remove`] takes the key out of the map.
#[verifier::external_body]
fn text_index_remove(m: &mut DashMap<String, usize>, key: &String)
    ensures
        text_index(*final(m)) == text_index(*old(m)).remove(key@),
{
    m.remove(key);
}

/// [`DashMap::get`] finds the value of a key.
#[verifier::external_body]
fn text_index_get(m: &DashMap<String, usize>, key: &str) -> (r: Option<usize>)
    ensures
        r == (if text_index(*m).contains_key(key@) {
            Some(text_index(*m)[key@])
        } else {
            None
        }),
{
    m.get(key).map(|found| *found.value())
}

/// [`DashMap::new`] makes a map without entries.
#[verifier::external_body]
fn id_index_new() -> (m: DashMap<i64, usize>)
    ensures
        id_index(m) == (Map::<i64, usize>::empty()),
{
    DashMap::new()
}

/// [`DashMap::insert`] gives the key the value, in place of the one that it had. The map is
/// borrowed mutably, so that nobody else changes it meanwhile.
#[verifier::external_body]
fn id_index_insert(m: &mut DashMap<i64, usize>, key: i64, place: usize)
    ensures
        id_index(*final(m)) == id_index(*old(m)).insert(key, place),
{
    m.insert(key, place);
}

/// [`DashMap::get`] finds the value of a key.
#[verifier::external_body]
fn id_index_get(m: &DashMap<i64, usize>, key: i64) -> (r: Option<usize>)
    ensures
        r == (if id_index(*m).contains_key(key) {
            Some(id_index(*m)[key])
        } else {
            None
        }),
{
    m.get(&key).map(|found| *found.value())
}

/// An item that carries the text under which it is stored.
pub trait Keyed: View {
    /// The key of the item.
    spec fn item_key(&self) -> Seq<char>;

    /// The invariant of the item.
    spec fn item_wf(&self) -> bool;

    /// The key of the item.
    fn key(&self) -> (r: &String)
        ensures
            r@ == self.item_key(),
    ;
}

/// An item that carries the number under which it is stored.
pub trait Numbered: View {
    /// The number of the item.
    spec fn item_id(&self) -> i64;

    /// The number of the item.
    fn id(&self) -> (r: i64)
        ensures
            r == self.item_id(),
    ;
}

/// Items under text keys.
pub struct KeyedStore<T> {
    index: DashMap<String, usize>,
    items: Vec<T>,
}

impl<T: Keyed> View for KeyedStore<T> {
    type V = Map<Seq<char>, T::V>;

    closed spec fn view(&self) -> Map<Seq<char>, T::V> {
        text_index(self.index).map_values(|place: usize| self.items@[place as int]@)
    }
}

impl<T: Keyed> KeyedStore<T> {
    /// Each item is stored under its own key, and nothing else is.
    pub closed spec fn wf(&self) -> bool {
        &&& forall|i: int|
            #![trigger self.items@[i]]
            0 <= i < self.items.len() ==> {
                &&& text_index(self.index).contains_key(self.items@[i].item_key())
                &&& text_index(self.index)[self.items@[i].item_key()] == i
                &&& self.items@[i].item_wf()
            }
        &&& forall|key: Seq<char>| #[trigger]
            text_index(self.index).contains_key(key) ==> {
                &&& text_index(self.index)[key] < self.items.len()
                &&& self.items@[text_index(self.index)[key] as int].item_key() == key
            }
    }

    /// The items in the order in which they are listed.
    pub closed spec fn listing(&self) -> Seq<T> {
        self.items@
    }

    /// The listing holds each item of the store once.
    pub proof fn lemma_listing(&self)
        requires
            self.wf(),
        ensures
            forall|i: int|
                #![trigger self.listing()[i]]
                0 <= i < self.listing().len() ==> {
                    &&& self@.contains_key(self.listing()[i].item_key())
                    &&& self@[self.listing()[i].item_key()] == self.listing()[i]@
                    &&& self.listing()[i].item_wf()
                },
            forall|i: int, j: int|
                0 <= i < j < self.listing().len() ==> (#[trigger] self.listing()[i]).item_key() != (
                #[trigger] self.listing()[j]).item_key(),
            forall|key: Seq<char>| #[trigger]
                self@.contains_key(key) ==> exists|i: int|
                    0 <= i < self.listing().len() && (#[trigger] self.listing()[i]).item_key() == key,
    {
        assert forall|key: Seq<char>| #[trigger] self@.contains_key(key) implies exists|i: int|
            0 <= i < self.listing().len() && (#[trigger] self.listing()[i]).item_key() == key by {
            assert(text_index(self.index).contains_key(key));
            let i = text_index(self.index)[key] as int;
            assert(self.listing()[i].item_key() == key);
        }
    }

    /// A store without items.
    pub fn new() -> (r: KeyedStore<T>)
        ensures
            r.wf(),
            r@ == Map::<Seq<char>, T::V>::empty(),
            r.listing().len() == 0,
    {
        let r = KeyedStore { index: text_index_new(), items: Vec::new() };
        assert(r@ =~= Map::<Seq<char>, T::V>::empty());
        r
    }

    /// The number of items.
    pub fn len(&self) -> (r: usize)
        ensures
            r == self.listing().len(),
    {
        self.items.len()
    }

    /// The item at a position of the listing.
    pub fn at(&self, position: usize) -> (r: &T)
        requires
            position < self.listing().len(),
        ensures
            *r == self.listing()[position as int],
    {
        &self.items[position]
    }

    /// The item under a key.
    pub fn get(&self, key: &str) -> (r: Option<&T>)
        requires
            self.wf(),
        ensures
            match r {
                Some(item) => {
                    &&& self@.contains_key(key@)
                    &&& item@ == self@[key@]
                    &&& item.item_key() == key@
                    &&& item.item_wf()
                },
                None => !self@.contains_key(key@),
            },
    {
        match text_index_get(&self.index, key) {
            Some(place) => Some(&self.items[place]),
            None => None,
        }
    }

    /// The item under a key, to be changed in place. As long as it keeps its key and its
    /// invariant, the store keeps its own.
    pub fn get_mut(&mut self, key: &str) -> (r: Option<&mut T>)
        requires
            old(self).wf(),
        ensures
            match r {
                Some(item) => {
                    &&& old(self)@.contains_key(key@)
                    &&& (*item)@ == old(self)@[key@]
                    &&& (*item).item_key() == key@
                    &&& (*item).item_wf()
                    &&& (*final(item)).item_key() == key@ && (*final(item)).item_wf() ==> {
                        &&& final(self).wf()
                        &&& final(self)@ == old(self)@.insert(key@, (*final(item))@)
                    }
                },
                None => {
                    &&& !old(self)@.contains_key(key@)
                    &&& *final(self) == *old(self)
                },
            },
    {
        match text_index_get(&self.index, key) {
            Some(place) => {
                Some(&mut self.items[place])
            },
            None => None,
        }
    }

    /// Puts an item under its key, in place of the one that was there.
    pub fn put(&mut self, item: T)
        requires
            old(self).wf(),
            item.item_wf(),
        ensures
            final(self).wf(),
            final(self)@ == old(self)@.insert(item.item_key(), item@),
    {
        let ghost before = *self;
        let ghost index = text_index(self.index);
        match text_index_get(&self.index, item.key().as_str()) {
            Some(place) => {
                self.items.set(place, item);
                assert(self@ =~= before@.insert(item.item_key(), item@));
                assert forall|i: int|
                    #![trigger self.items@[i]]
                    0 <= i < self.items.len() implies text_index(self.index).contains_key(
                    self.items@[i].item_key(),
                ) && text_index(self.index)[self.items@[i].item_key()] == i && self.items@[i].item_wf() by {
                    if i != place {
                        assert(before.items@[i] == self.items@[i]);
                    }
                }
            },
            None => {
                let place: usize = self.items.len();
                text_index_insert(&mut self.index, item.key().clone(), place);
                self.items.push(item);
                assert forall|i: int|
                    #![trigger self.items@[i]]
                    0 <= i < self.items.len() implies text_index(self.index).contains_key(
                    self.items@[i].item_key(),
                ) && text_index(self.index)[self.items@[i].item_key()] == i && self.items@[i].item_wf() by {
                    if i < place {
                        assert(before.items@[i] == self.items@[i]);
                    }
                }
                assert(self@ =~= before@.insert(item.item_key(), item@));
            },
        }
    }

    /// Takes the item under a key out of the store.
    pub fn take(&mut self, key: &String) -> (r: Option<T>)
        requires
            old(self).wf(),
        ensures
            final(self).wf(),
            final(self)@ == old(self)@.remove(key@),
            match r {
                Some(item) => {
                    &&& old(self)@.contains_key(key@)
                    &&& item@ == old(self)@[key@]
                    &&& item.item_key() == key@
                    &&& item.item_wf()
                },
                None => !old(self)@.contains_key(key@),
            },
    {
        let ghost before = *self;
        match text_index_get(&self.index, key.as_str()) {
            Some(place) => {
                let last: usize = self.items.len() - 1;
                let item = self.items.swap_remove(place);
                text_index_remove(&mut self.index, key);
                assert(before.items@[place as int].item_key() == key@);
                assert(before.items@[last as int].item_key() == key@ ==> place == last);
                if place != last {
                    let moved = self.items[place].key().clone();
                    assert(self.items@[place as int] == before.items@[last as int]);
                    text_index_insert(&mut self.index, moved, place);
                }
                assert forall|i: int|
                    #![trigger self.items@[i]]
                    0 <= i < self.items.len() implies text_index(self.index).contains_key(
                    self.items@[i].item_key(),
                ) && text_index(self.index)[self.items@[i].item_key()] == i && self.items@[i].item_wf() by {
                    if i != place {
                        assert(before.items@[i] == self.items@[i]);
                        assert(before.items@[last as int].item_key() != before.items@[i].item_key());
                    }
                }
                assert(self@ =~= before@.remove(key@));
                Some(item)
            },
            None => {
                assert(self@ =~= before@.remove(key@));
                None
            },
        }
    }
}

/// Items under numbers.
pub struct NumberedStore<T> {
    index: DashMap<i64, usize>,
    items: Vec<T>,
}

impl<T: Numbered> View for NumberedStore<T> {
    type V = Map<i64, T::V>;

    closed spec fn view(&self) -> Map<i64, T::V> {
        id_index(self.index).map_values(|place: usize| self.items@[place as int]@)
    }
}

impl<T: Numbered> NumberedStore<T> {
    /// Each item is stored under its own number, and nothing else is.
    pub closed spec fn wf(&self) -> bool {
        &&& forall|i: int|
            #![trigger self.items@[i]]
            0 <= i < self.items.len() ==> {
                &&& id_index(self.index).contains_key(self.items@[i].item_id())
                &&& id_index(self.index)[self.items@[i].item_id()] == i
            }
        &&& forall|id: i64| #[trigger]
            id_index(self.index).contains_key(id) ==> {
                &&& id_index(self.index)[id] < self.items.len()
                &&& self.items@[id_index(self.index)[id] as int].item_id() == id
            }
    }

    /// The items in the order in which they are listed.
    pub closed spec fn listing(&self) -> Seq<T> {
        self.items@
    }

    /// The listing holds each item of the store once.
    pub proof fn lemma_listing(&self)
        requires
            self.wf(),
        ensures
            forall|i: int|
                #![trigger self.listing()[i]]
                0 <= i < self.listing().len() ==> {
                    &&& self@.contains_key(self.listing()[i].item_id())
                    &&& self@[self.listing()[i].item_id()] == self.listing()[i]@
                },
            forall|i: int, j: int|
                0 <= i < j < self.listing().len() ==> (#[trigger] self.listing()[i]).item_id() != (
                #[trigger] self.listing()[j]).item_id(),
            forall|id: i64| #[trigger]
                self@.contains_key(id) ==> exists|i: int|
                    0 <= i < self.listing().len() && (#[trigger] self.listing()[i]).item_id() == id,
    {
        assert forall|id: i64| #[trigger] self@.contains_key(id) implies exists|i: int|
            0 <= i < self.listing().len() && (#[trigger] self.listing()[i]).item_id() == id by {
            assert(id_index(self.index).contains_key(id));
            let i = id_index(self.index)[id] as int;
            assert(self.listing()[i].item_id() == id);
        }
    }

    /// A store without items.
    pub fn new() -> (r: NumberedStore<T>)
        ensures
            r.wf(),
            r@ == Map::<i64, T::V>::empty(),
            r.listing().len() == 0,
    {
        let r = NumberedStore { index: id_index_new(), items: Vec::new() };
        assert(r@ =~= Map::<i64, T::V>::empty());
        r
    }

    /// The number of items.
    pub fn len(&self) -> (r: usize)
        ensures
            r == self.listing().len(),
    {
        self.items.len()
    }

    /// The item at a position of the listing.
    pub fn at(&self, position: usize) -> (r: &T)
        requires
            position < self.listing().len(),
        ensures
            *r == self.listing()[position as int],
    {
        &self.items[position]
    }

    /// The item under a number.
    pub fn get(&self, id: i64) -> (r: Option<&T>)
        requires
            self.wf(),
        ensures
            match r {
                Some(item) => {
                    &&& self@.contains_key(id)
                    &&& item@ == self@[id]
                    &&& item.item_id() == id
                },
                None => !self@.contains_key(id),
            },
    {
        match id_index_get(&self.index, id) {
            Some(place) => Some(&self.items[place]),
            None => None,
        }
    }

    /// Puts an item under its number, in place of the one that was there.
    pub fn put(&mut self, item: T)
        requires
            old(self).wf(),
        ensures
            final(self).wf(),
            final(self)@ == old(self)@.insert(item.item_id(), item@),
    {
        let ghost before = *self;
        match id_index_get(&self.index, item.id()) {
            Some(place) => {
                self.items.set(place, item);
                assert(self@ =~= before@.insert(item.item_id(), item@));
                assert forall|i: int|
                    #![trigger self.items@[i]]
                    0 <= i < self.items.len() implies id_index(self.index).contains_key(
                    self.items@[i].item_id(),
                ) && id_index(self.index)[self.items@[i].item_id()] == i by {
                    if i != place {
                        assert(before.items@[i] == self.items@[i]);
                    }
                }
            },
            None => {
                let place: usize = self.items.len();
                id_index_insert(&mut self.index, item.id(), place);
                self.items.push(item);
                assert forall|i: int|
                    #![trigger self.items@[i]]
                    0 <= i < self.items.len() implies id_index(self.index).contains_key(
                    self.items@[i].item_id(),
                ) && id_index(self.index)[self.items@[i].item_id()] == i by {
                    if i < place {
                        assert(before.items@[i] == self.items@[i]);
                    }
                }
                assert(self@ =~= before@.insert(item.item_id(), item@));
            },
        }
    }
}

} // verus!
