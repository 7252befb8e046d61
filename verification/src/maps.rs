//! General map utilities.
use crate::types::rc_clone;
use crate::value::Value;
use std::rc::Rc;
use vstd::prelude::*;

verus! {

/// One binding of a map: a key and the value bound to it.
#[derive(Debug, Hash)]
pub struct MapEntry {
    pub key: Rc<Value>,
    pub val: Rc<Value>,
}

impl MapEntry {
    /// The binding of `key` to `val`.
    pub fn new(key: Rc<Value>, val: Rc<Value>) -> (r: Self)
        ensures
            r.key == key,
            r.val == val,
    {
        MapEntry { key, val }
    }

    /// The binding as a pair of key and value.
    pub fn into_pair(self) -> (r: (Rc<Value>, Rc<Value>))
        ensures
            r.0 == self.key,
            r.1 == self.val,
    {
        (self.key, self.val)
    }
}

impl Clone for MapEntry {
    fn clone(&self) -> (r: Self)
        ensures
            r == *self,
    {
        MapEntry { key: rc_clone(&self.key), val: rc_clone(&self.val) }
    }
}

} // verus!
