//! The persistent collections: `List`, `Vector` and `PersistentMap`.
//!
//! Each is an immutable value over a structurally shared backing structure of
//! `im_rc`. An operation that "changes" a collection returns a new one and leaves
//! the one it was given as it was.
use crate::maps::MapEntry;
use crate::value::ToValue;
use crate::value::Value;
use crate::value::ValueView;
use std::hash::Hash;
use std::hash::Hasher;
use std::rc::Rc;
use vstd::prelude::*;
use vstd::std_specs::cmp::PartialEqSpecImpl;

verus! {

/// A shared pointer to the value that `v` points to.
///
/// Trusted: the body is `Rc::clone`, which the standard library documents as
/// making another pointer to the same allocation.
#[verifier::external_body]
pub(crate) fn rc_clone<T>(v: &Rc<T>) -> (r: Rc<T>)
    ensures
        r == *v,
{
    Rc::clone(v)
}

/// The view of each value of a sequence.
pub open spec fn views(s: Seq<Rc<Value>>) -> Seq<ValueView> {
    s.map_values(|v: Rc<Value>| v@)
}

/// An `im_rc::Vector` of values: the backing structure of `List` and `Vector`.
///
/// Trusted: the verifier does not look inside. It identifies two of them exactly
/// when `same` holds of them; what it knows of one is `items_view`.
#[verifier::external_body]
#[derive(Debug, Hash)]
pub struct Items {
    inner: im_rc::Vector<Rc<Value>>,
}

/// The views of the values that `items` holds, front to back.
pub uninterp spec fn items_view(items: Items) -> Seq<ValueView>;

impl Items {
    /// Trusted: `im_rc::Vector::new`, which constructs an empty vector.
    #[verifier::external_body]
    pub(crate) fn new() -> (r: Items)
        ensures
            items_view(r) == Seq::<ValueView>::empty(),
    {
        Items { inner: im_rc::Vector::new() }
    }

    /// Trusted: `im_rc::Vector::unit`, which constructs a vector of the one
    /// given value.
    #[verifier::external_body]
    pub(crate) fn unit(v: Rc<Value>) -> (r: Items)
        ensures
            items_view(r) == seq![v@],
    {
        Items { inner: im_rc::Vector::unit(v) }
    }

    /// Trusted: `im_rc::Vector::len`, the number of values held.
    #[verifier::external_body]
    pub(crate) fn len(&self) -> (r: usize)
        ensures
            r == items_view(*self).len(),
    {
        self.inner.len()
    }

    /// Trusted: `im_rc::Vector::get`, which returns the value at `index`, or
    /// `None` where `index` is not below the length.
    #[verifier::external_body]
    pub(crate) fn get(&self, index: usize) -> (r: Option<&Rc<Value>>)
        ensures
            r is Some <==> index < items_view(*self).len(),
            r is Some ==> r->0@ == items_view(*self)[index as int],
    {
        self.inner.get(index)
    }

    /// Trusted: `im_rc::Vector::insert`, which puts `v` at position `index` and
    /// shifts what follows to the right. It panics where `index` is beyond the
    /// length, which `requires` leaves out.
    #[verifier::external_body]
    pub(crate) fn insert(&mut self, index: usize, v: Rc<Value>)
        requires
            index <= items_view(*old(self)).len(),
        ensures
            items_view(*final(self)) == items_view(*old(self)).insert(index as int, v@),
    {
        self.inner.insert(index, v);
    }

    /// Trusted: `PartialEq::eq` of `im_rc::Vector`, which holds when both have
    /// the same length and equal values at every position, values being compared
    /// by `Value`'s `==`.
    #[verifier::external_body]
    pub(crate) fn same(&self, other: &Items) -> (r: bool)
        ensures
            r == (*self == *other),
            r == (items_view(*self) == items_view(*other)),
    {
        self.inner == other.inner
    }

    /// Trusted: `Clone::clone` of `im_rc::Vector`, which shares the structure.
    #[verifier::external_body]
    pub(crate) fn dup(&self) -> (r: Items)
        ensures
            r == *self,
    {
        Items { inner: self.inner.clone() }
    }

    /// Trusted: `From<Vec<A>>` of `im_rc::Vector`, which pushes each value of the
    /// `Vec` to the back, in order.
    #[verifier::external_body]
    pub(crate) fn from_vec(v: Vec<Rc<Value>>) -> (r: Items)
        ensures
            items_view(r) == views(v@),
    {
        Items { inner: im_rc::Vector::from(v) }
    }

    /// Trusted: `im_rc::Vector::iter`, which yields the values front to back;
    /// each is cloned (a pointer copy) into a `Vec`.
    #[verifier::external_body]
    pub(crate) fn to_vec(&self) -> (r: Vec<Rc<Value>>)
        ensures
            views(r@) == items_view(*self),
    {
        self.inner.iter().cloned().collect()
    }
}

/// An `im_rc::HashMap` from values to values: the backing structure of
/// `PersistentMap`.
///
/// Trusted: the verifier does not look inside. It identifies two of them exactly
/// when `same` holds of them; what it knows of one is `entries_view` and
/// `entries_len`. A key is found by its hash and by `==`. Every value of the
/// language hashes as a function of what `==` compares: a symbol and a var by
/// what identifies them, and a map, whose own hash would depend on the order of
/// its bindings, by nothing at all (see `Hash` below).
#[verifier::external_body]
#[derive(Debug)]
pub struct Entries {
    inner: im_rc::HashMap<Rc<Value>, Rc<Value>>,
}

impl Hash for Entries {
    /// Feeds nothing to the hasher, so that equal maps hash alike: a map walks
    /// its bindings in an order that depends on its own hasher, and a hash of
    /// what it walks would tell equal maps apart.
    fn hash<H: Hasher>(&self, state: &mut H) {
    }
}

/// The bindings of `entries`, by the views of key and value.
pub uninterp spec fn entries_view(entries: Entries) -> Map<ValueView, ValueView>;

/// The map without bindings.
pub open spec fn no_bindings() -> Map<ValueView, ValueView> {
    Map::empty()
}

/// The number of bindings of `entries`.
pub uninterp spec fn entries_len(entries: Entries) -> nat;

impl Entries {
    /// Trusted: `im_rc::HashMap::new`, which constructs an empty map.
    #[verifier::external_body]
    pub(crate) fn new() -> (r: Entries)
        ensures
            entries_view(r) == no_bindings(),
            entries_len(r) == 0,
    {
        Entries { inner: im_rc::HashMap::new() }
    }

    /// Trusted: `im_rc::HashMap::len`, the number of bindings.
    #[verifier::external_body]
    pub(crate) fn len(&self) -> (r: usize)
        ensures
            r == entries_len(*self),
    {
        self.inner.len()
    }

    /// Trusted: `im_rc::HashMap::get`, which returns the value bound to a key
    /// equal to `key`, if there is one.
    #[verifier::external_body]
    pub(crate) fn get(&self, key: &Rc<Value>) -> (r: Option<&Rc<Value>>)
        ensures
            r is Some <==> entries_view(*self).contains_key(key@),
            r is Some ==> r->0@ == entries_view(*self)[key@],
    {
        self.inner.get(key)
    }

    /// Trusted: `im_rc::HashMap::contains_key`, which is `get(key).is_some()`.
    #[verifier::external_body]
    pub(crate) fn contains_key(&self, key: &Rc<Value>) -> (r: bool)
        ensures
            r == entries_view(*self).contains_key(key@),
    {
        self.inner.contains_key(key)
    }

    /// Trusted: `im_rc::HashMap::update`, which returns a copy of the map in which
    /// `key` is bound to `value`; a binding of an equal key is replaced, and the
    /// size grows by one only where there was none.
    #[verifier::external_body]
    pub(crate) fn update(&self, key: Rc<Value>, value: Rc<Value>) -> (r: Entries)
        ensures
            entries_view(r) == entries_view(*self).insert(key@, value@),
            entries_len(r) == entries_len(*self) + (if entries_view(*self).contains_key(key@) {
                0nat
            } else {
                1nat
            }),
    {
        Entries { inner: self.inner.update(key, value) }
    }

    /// Trusted: `PartialEq::eq` of `im_rc::HashMap`, which holds when both have
    /// the same size and every binding of the one is found in the other with an
    /// equal value.
    #[verifier::external_body]
    pub(crate) fn same(&self, other: &Entries) -> (r: bool)
        ensures
            r == (*self == *other),
    {
        self.inner == other.inner
    }

    /// Trusted: `Clone::clone` of `im_rc::HashMap`, which shares the structure.
    #[verifier::external_body]
    pub(crate) fn dup(&self) -> (r: Entries)
        ensures
            r == *self,
    {
        Entries { inner: self.inner.clone() }
    }

    /// Trusted: `im_rc::HashMap::iter`, which yields every binding once, in an
    /// order that the map's hasher decides; each is cloned (two pointer copies)
    /// into a `Vec`.
    #[verifier::external_body]
    pub(crate) fn pairs(&self) -> (r: Vec<(Rc<Value>, Rc<Value>)>)
        ensures
            r@.len() == entries_len(*self),
            forall|i: int|
                0 <= i < r@.len() ==> entries_view(*self).contains_key((#[trigger] r@[i]).0@)
                    && entries_view(*self)[r@[i].0@] == r@[i].1@,
            forall|k: ValueView| #[trigger]
                entries_view(*self).contains_key(k) ==> exists|i: int|
                    0 <= i < r@.len() && #[trigger] r@[i].0@ == k,
            forall|i: int, j: int|
                0 <= i < j < r@.len() ==> (#[trigger] r@[i]).0@ != (#[trigger] r@[j]).0@,
    {
        self.inner.iter().map(|(k, v)| (k.clone(), v.clone())).collect()
    }
}

/// An immutable list: a new value is put at the front.
#[derive(Debug, Hash)]
pub struct List(pub(crate) Items);

impl View for List {
    type V = Seq<ValueView>;

    /// The views of the list's values, first to last.
    closed spec fn view(&self) -> Seq<ValueView> {
        items_view(self.0)
    }
}

impl List {
    /// The list without values.
    pub fn empty() -> (r: Self)
        ensures
            r@ == Seq::<ValueView>::empty(),
    {
        List(Items::new())
    }

    /// The list of the one value `v`.
    pub fn unit<V: ToValue>(v: V) -> (r: Self)
        ensures
            r@ == seq![v.value_view()],
    {
        List(Items::unit(v.to_rc_value()))
    }

    /// A new list: `v` before the values of `self`.
    pub fn conj<V: ToValue>(&self, v: V) -> (r: Self)
        ensures
            r@ == seq![v.value_view()] + self@,
    {
        let mut items = self.0.dup();
        items.insert(0, v.to_rc_value());
        assert(self@.insert(0, v.value_view()) =~= seq![v.value_view()] + self@);
        List(items)
    }

    /// The number of values.
    pub fn len(&self) -> (r: usize)
        ensures
            r == self@.len(),
    {
        self.0.len()
    }

    /// Whether the list holds no value.
    pub fn is_empty(&self) -> (r: bool)
        ensures
            r == (self@.len() == 0),
    {
        self.0.len() == 0
    }

    /// The value at position `index`, if there is one.
    pub fn get(&self, index: usize) -> (r: Option<&Rc<Value>>)
        ensures
            r is Some <==> index < self@.len(),
            r is Some ==> r->0@ == self@[index as int],
    {
        self.0.get(index)
    }

    /// The list of the values of `v`, in order.
    pub fn from_vec(v: Vec<Rc<Value>>) -> (r: Self)
        ensures
            r@ == views(v@),
    {
        List(Items::from_vec(v))
    }

    /// The values of the list, first to last.
    pub fn to_vec(&self) -> (r: Vec<Rc<Value>>)
        ensures
            views(r@) == self@,
    {
        self.0.to_vec()
    }
}

impl Clone for List {
    fn clone(&self) -> (r: Self)
        ensures
            r == *self,
    {
        List(self.0.dup())
    }
}

impl PartialEq for List {
    fn eq(&self, other: &Self) -> (r: bool) {
        self.0.same(&other.0)
    }
}

impl PartialEqSpecImpl for List {
    open spec fn obeys_eq_spec() -> bool {
        true
    }

    open spec fn eq_spec(&self, other: &Self) -> bool {
        *self == *other
    }
}

impl Eq for List {

}

/// An immutable vector: a new value is put at the back.
#[derive(Debug, Hash)]
pub struct Vector(pub(crate) Items);

impl View for Vector {
    type V = Seq<ValueView>;

    /// The views of the vector's values, first to last.
    closed spec fn view(&self) -> Seq<ValueView> {
        items_view(self.0)
    }
}

impl Vector {
    /// The vector without values.
    pub fn empty() -> (r: Self)
        ensures
            r@ == Seq::<ValueView>::empty(),
    {
        Vector(Items::new())
    }

    /// A new vector: the values of `self`, then `v`.
    pub fn conj<V: ToValue>(&self, v: V) -> (r: Self)
        ensures
            r@ == self@.push(v.value_view()),
    {
        let mut items = self.0.dup();
        let n = items.len();
        items.insert(n, v.to_rc_value());
        assert(self@.insert(n as int, v.value_view()) =~= self@.push(v.value_view()));
        Vector(items)
    }

    /// The number of values.
    pub fn len(&self) -> (r: usize)
        ensures
            r == self@.len(),
    {
        self.0.len()
    }

    /// Whether the vector holds no value.
    pub fn is_empty(&self) -> (r: bool)
        ensures
            r == (self@.len() == 0),
    {
        self.0.len() == 0
    }

    /// The value at position `index`, if there is one.
    pub fn get(&self, index: usize) -> (r: Option<&Rc<Value>>)
        ensures
            r is Some <==> index < self@.len(),
            r is Some ==> r->0@ == self@[index as int],
    {
        self.0.get(index)
    }

    /// The vector of the values of `v`, in order.
    pub fn from_vec(v: Vec<Rc<Value>>) -> (r: Self)
        ensures
            r@ == views(v@),
    {
        Vector(Items::from_vec(v))
    }

    /// The values of the vector, first to last.
    pub fn to_vec(&self) -> (r: Vec<Rc<Value>>)
        ensures
            views(r@) == self@,
    {
        self.0.to_vec()
    }
}

impl Clone for Vector {
    fn clone(&self) -> (r: Self)
        ensures
            r == *self,
    {
        Vector(self.0.dup())
    }
}

impl PartialEq for Vector {
    fn eq(&self, other: &Self) -> (r: bool) {
        self.0.same(&other.0)
    }
}

impl PartialEqSpecImpl for Vector {
    open spec fn obeys_eq_spec() -> bool {
        true
    }

    open spec fn eq_spec(&self, other: &Self) -> bool {
        *self == *other
    }
}

impl Eq for Vector {

}

/// The bindings `m` after the first `count` of `entries` are bound, in order.
pub open spec fn bind_all(
    m: Map<ValueView, ValueView>,
    entries: Seq<MapEntry>,
    count: nat,
) -> Map<ValueView, ValueView>
    decreases count,
{
    if count == 0 || count > entries.len() {
        m
    } else {
        bind_all(m, entries, (count - 1) as nat).insert(
            entries[count - 1].key@,
            entries[count - 1].val@,
        )
    }
}

/// Whether `pairs` lists the bindings of `map`: each pair is a binding of the
/// map, each binding is among the pairs, and no key comes twice.
pub open spec fn lists(map: PersistentMap, pairs: Seq<(Rc<Value>, Rc<Value>)>) -> bool {
    &&& pairs.len() == map.size()
    &&& forall|i: int|
        0 <= i < pairs.len() ==> map@.contains_key((#[trigger] pairs[i]).0@) && map@[pairs[i].0@]
            == pairs[i].1@
    &&& forall|k: ValueView| #[trigger]
        map@.contains_key(k) ==> exists|i: int|
            0 <= i < pairs.len() && #[trigger] pairs[i].0@ == k
    &&& forall|i: int, j: int|
        0 <= i < j < pairs.len() ==> (#[trigger] pairs[i]).0@ != (#[trigger] pairs[j]).0@
}

/// An immutable map from values to values.
#[derive(Debug, Hash)]
pub struct PersistentMap(pub(crate) Entries);

impl View for PersistentMap {
    type V = Map<ValueView, ValueView>;

    /// The bindings, by the views of key and value.
    closed spec fn view(&self) -> Map<ValueView, ValueView> {
        entries_view(self.0)
    }
}

impl PersistentMap {
    /// The number of bindings.
    pub closed spec fn size(&self) -> nat {
        entries_len(self.0)
    }

    /// The map without bindings.
    pub fn empty() -> (r: Self)
        ensures
            r@ == Map::<ValueView, ValueView>::empty(),
            r.size() == 0,
    {
        PersistentMap(Entries::new())
    }

    /// A new map: `self` with the binding of `entry` added, or put in place of
    /// the one that `self` has for an equal key.
    pub fn conj(&self, entry: MapEntry) -> (r: Self)
        ensures
            r@ == self@.insert(entry.key@, entry.val@),
            r.size() == self.size() + (if self@.contains_key(entry.key@) {
                0nat
            } else {
                1nat
            }),
    {
        PersistentMap(self.0.update(entry.key, entry.val))
    }

    /// The number of bindings.
    pub fn len(&self) -> (r: usize)
        ensures
            r == self.size(),
    {
        self.0.len()
    }

    /// Whether the map holds no binding.
    pub fn is_empty(&self) -> (r: bool)
        ensures
            r == (self.size() == 0),
    {
        self.0.len() == 0
    }

    /// The map of the bindings `entries`, a later binding of a key taking the
    /// place of an earlier one.
    pub fn from_entries(entries: Vec<MapEntry>) -> (r: Self)
        ensures
            r@ == bind_all(Map::<ValueView, ValueView>::empty(), entries@, entries@.len()),
            r.size() <= entries@.len(),
    {
        let mut map = PersistentMap::empty();
        let mut i: usize = 0;
        while i < entries.len()
            invariant
                i <= entries.len(),
                map@ == bind_all(Map::<ValueView, ValueView>::empty(), entries@, i as nat),
                map.size() <= i,
            decreases entries.len() - i,
        {
            map = map.conj(entries[i].clone());
            i += 1;
        }
        map
    }

    /// The value bound to `key`, if there is one.
    pub fn lookup(&self, key: &Rc<Value>) -> (r: Option<Rc<Value>>)
        ensures
            r is Some <==> self@.contains_key(key@),
            r is Some ==> r->0@ == self@[key@],
    {
        match self.0.get(key) {
            Some(val) => Some(rc_clone(val)),
            None => None,
        }
    }

    /// Whether `key` is bound.
    pub fn has_key(&self, key: &Rc<Value>) -> (r: bool)
        ensures
            r == self@.contains_key(key@),
    {
        self.0.contains_key(key)
    }

    /// The bindings of the map, each once, in no order that can be relied on.
    pub fn pairs(&self) -> (r: Vec<(Rc<Value>, Rc<Value>)>)
        ensures
            lists(*self, r@),
    {
        self.0.pairs()
    }
}

impl Clone for PersistentMap {
    fn clone(&self) -> (r: Self)
        ensures
            r == *self,
    {
        PersistentMap(self.0.dup())
    }
}

impl PartialEq for PersistentMap {
    fn eq(&self, other: &Self) -> (r: bool) {
        self.0.same(&other.0)
    }
}

impl PartialEqSpecImpl for PersistentMap {
    open spec fn obeys_eq_spec() -> bool {
        true
    }

    open spec fn eq_spec(&self, other: &Self) -> bool {
        *self == *other
    }
}

impl Eq for PersistentMap {

}

} // verus!
