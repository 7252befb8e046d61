//! The protocol of the values whose metadata can be replaced.
use crate::protocol::Protocol;
use crate::protocols::imeta::meta_of;
use crate::traits::imeta::IMeta as HasMeta;
use crate::traits::iobj::IObj as HasObj;
use crate::types::rc_clone;
use crate::types::PersistentMap;
use crate::value::Value;
use crate::value::ValueView;
use std::rc::Rc;
use vstd::prelude::*;

verus! {

/// A value that is known to take metadata: a list, a vector, a map or a symbol.
#[derive(Debug)]
pub struct IObj {
    value: Rc<Value>,
}

impl IObj {
    #[verifier::type_invariant]
    spec fn holds_a_value_that_takes_meta(self) -> bool {
        Self::admits(self.value@)
    }
}

/// What a value is with `meta` as its metadata: a symbol carries it, any other
/// value stays as it is.
pub open spec fn value_with_meta(v: Value, meta: PersistentMap) -> Value {
    match v {
        Value::Symbol(s) => Value::Symbol(crate::symbol::Symbol { name: s.name, ns: s.ns, meta }),
        _ => v,
    }
}

impl Protocol for IObj {
    open spec fn admits(v: ValueView) -> bool {
        v is List || v is Vector || v is PersistentMap || v is Symbol
    }

    closed spec fn wrapped(&self) -> Rc<Value> {
        self.value
    }

    fn raw_wrap(val: &Rc<Value>) -> (r: Self) {
        IObj { value: rc_clone(val) }
    }

    fn raw_unwrap(&self) -> (r: Rc<Value>) {
        proof {
            use_type_invariant(self);
        }
        rc_clone(&self.value)
    }

    fn instanceof(val: &Rc<Value>) -> (r: bool) {
        match &**val {
            Value::List(_) => true,
            Value::Vector(_) => true,
            Value::PersistentMap(_) => true,
            Value::Symbol(_) => true,
            _ => false,
        }
    }
}

impl HasObj for IObj {
    closed spec fn with_meta_spec(&self, meta: PersistentMap) -> Self {
        IObj { value: Rc::new(value_with_meta(*self.value, meta)) }
    }

    /// The wrapped value with `meta` as its metadata: a symbol carries it, a
    /// collection stays as it is.
    fn with_meta(&self, meta: PersistentMap) -> (r: IObj)
        ensures
            *r.wrapped() == value_with_meta(*self.wrapped(), meta),
    {
        proof {
            use_type_invariant(self);
        }
        match &*self.value {
            Value::List(val) => IObj { value: Rc::new(Value::List(val.with_meta(meta))) },
            Value::Vector(val) => IObj { value: Rc::new(Value::Vector(val.with_meta(meta))) },
            Value::PersistentMap(val) => IObj {
                value: Rc::new(Value::PersistentMap(val.with_meta(meta))),
            },
            Value::Symbol(val) => IObj { value: Rc::new(Value::Symbol(val.with_meta(meta))) },
            _ => IObj { value: rc_clone(&self.value) },
        }
    }
}

impl HasMeta for IObj {
    open spec fn keeps_meta(&self) -> bool {
        meta_of(*self.wrapped()) is Some
    }

    open spec fn kept_meta(&self) -> PersistentMap {
        meta_of(*self.wrapped())->0
    }

    fn meta(&self) -> (r: PersistentMap) {
        proof {
            use_type_invariant(self);
        }
        match &*self.value {
            Value::List(val) => val.meta(),
            Value::Vector(val) => val.meta(),
            Value::PersistentMap(val) => val.meta(),
            Value::Symbol(val) => val.meta(),
            _ => PersistentMap::empty(),
        }
    }
}

} // verus!
