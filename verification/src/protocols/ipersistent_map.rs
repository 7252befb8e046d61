//! The protocol of the values that are maps.
use crate::protocol::Protocol;
use crate::types::rc_clone;
use crate::types::PersistentMap;
use crate::value::Value;
use crate::value::ValueView;
use std::rc::Rc;
use vstd::prelude::*;

verus! {

/// A value that is known to be a map.
#[derive(Debug)]
pub struct IPersistentMap {
    value: Rc<Value>,
}

impl IPersistentMap {
    #[verifier::type_invariant]
    spec fn holds_a_map(self) -> bool {
        self.value@ is PersistentMap
    }

    /// The wrapped map.
    pub closed spec fn map(&self) -> PersistentMap {
        self.value@->PersistentMap_0
    }

    /// The wrapped map.
    pub fn to_map(&self) -> (r: PersistentMap)
        ensures
            r == self.map(),
            self.wrapped()@ == ValueView::PersistentMap(r),
    {
        proof {
            use_type_invariant(self);
        }
        match &*self.value {
            Value::PersistentMap(m) => m.clone(),
            _ => PersistentMap::empty(),
        }
    }
}

impl Protocol for IPersistentMap {
    open spec fn admits(v: ValueView) -> bool {
        v is PersistentMap
    }

    closed spec fn wrapped(&self) -> Rc<Value> {
        self.value
    }

    fn raw_wrap(val: &Rc<Value>) -> (r: Self) {
        IPersistentMap { value: rc_clone(val) }
    }

    fn raw_unwrap(&self) -> (r: Rc<Value>) {
        proof {
            use_type_invariant(self);
        }
        rc_clone(&self.value)
    }

    fn instanceof(val: &Rc<Value>) -> (r: bool) {
        match &**val {
            Value::PersistentMap(_) => true,
            _ => false,
        }
    }
}

impl Clone for IPersistentMap {
    fn clone(&self) -> (r: Self)
        ensures
            r.wrapped() == self.wrapped(),
    {
        proof {
            use_type_invariant(self);
        }
        IPersistentMap { value: rc_clone(&self.value) }
    }
}

} // verus!
