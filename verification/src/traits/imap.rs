//! What a map of the language offers.
use crate::maps::MapEntry;
use crate::types::rc_clone;
use crate::types::PersistentMap;
use crate::value::Value;
use crate::value::ValueView;
use std::rc::Rc;
use vstd::prelude::*;

verus! {

/// An immutable map from values to values, keyed by any value.
pub trait IMap: Sized {
    /// The bindings, by the views of key and value.
    spec fn bindings(&self) -> Map<ValueView, ValueView>;

    /// The number of bindings.
    spec fn count(&self) -> nat;

    /// The value bound to `key`, or nil where there is none.
    fn get(&self, key: &Rc<Value>) -> (r: Rc<Value>)
        ensures
            r@ == (if self.bindings().contains_key(key@) {
                self.bindings()[key@]
            } else {
                ValueView::Nil
            }),
    ;

    /// The value bound to `key`, or `default` where there is none.
    fn get_with_default(&self, key: &Rc<Value>, default: &Rc<Value>) -> (r: Rc<Value>)
        ensures
            r@ == (if self.bindings().contains_key(key@) {
                self.bindings()[key@]
            } else {
                default@
            }),
    ;

    /// A new map: `self` with `key` bound to `value`. `self` stays as it was.
    fn assoc(&self, key: Rc<Value>, value: Rc<Value>) -> (r: Self)
        ensures
            r.bindings() == self.bindings().insert(key@, value@),
            r.count() == self.count() + (if self.bindings().contains_key(key@) {
                0nat
            } else {
                1nat
            }),
    ;

    /// Whether `key` is bound.
    fn contains_key(&self, key: &Rc<Value>) -> (r: bool)
        ensures
            r == self.bindings().contains_key(key@),
    ;
}

impl IMap for PersistentMap {
    open spec fn bindings(&self) -> Map<ValueView, ValueView> {
        self@
    }

    open spec fn count(&self) -> nat {
        self.size()
    }

    fn get(&self, key: &Rc<Value>) -> (r: Rc<Value>) {
        match self.lookup(key) {
            Some(val) => val,
            None => Rc::new(Value::Nil),
        }
    }

    fn get_with_default(&self, key: &Rc<Value>, default: &Rc<Value>) -> (r: Rc<Value>) {
        match self.lookup(key) {
            Some(val) => val,
            None => rc_clone(default),
        }
    }

    fn assoc(&self, key: Rc<Value>, value: Rc<Value>) -> (r: Self) {
        self.conj(MapEntry::new(key, value))
    }

    fn contains_key(&self, key: &Rc<Value>) -> (r: bool) {
        self.has_key(key)
    }
}

/// Binding a key and then binding it again leaves the size as the first binding
/// made it, and the key bound to the later value; and the map in between still
/// holds the earlier one.
pub proof fn lemma_assoc_twice(
    m1: PersistentMap,
    m2: PersistentMap,
    m3: PersistentMap,
    key: ValueView,
    first: ValueView,
    second: ValueView,
)
    requires
        m2.bindings() == m1.bindings().insert(key, first),
        m2.count() == m1.count() + (if m1.bindings().contains_key(key) {
            0nat
        } else {
            1nat
        }),
        m3.bindings() == m2.bindings().insert(key, second),
        m3.count() == m2.count() + (if m2.bindings().contains_key(key) {
            0nat
        } else {
            1nat
        }),
    ensures
        m3.count() == m2.count(),
        m3.bindings()[key] == second,
        m2.bindings()[key] == first,
        forall|other: ValueView|
            other != key ==> m3.bindings().contains_key(other) == m1.bindings().contains_key(
                other,
            ),
        forall|other: ValueView|
            other != key && m1.bindings().contains_key(other) ==> m3.bindings()[other]
                == m1.bindings()[other],
{
}

} // verus!
