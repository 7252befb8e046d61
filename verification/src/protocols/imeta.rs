//! The protocol of the values that have metadata.
use crate::maps::MapEntry;
use crate::protocol::Protocol;
use crate::symbol::Symbol;
use crate::traits::imeta::IMeta as HasMeta;
use crate::types::rc_clone;
use crate::types::PersistentMap;
use crate::value::Value;
use crate::value::ValueView;
use std::rc::Rc;
use vstd::prelude::*;

verus! {

/// A value that is known to have metadata: a var, a list, a vector, a map or a
/// symbol.
#[derive(Debug)]
pub struct IMeta {
    value: Rc<Value>,
}

impl IMeta {
    #[verifier::type_invariant]
    spec fn holds_a_value_with_meta(self) -> bool {
        Self::admits(self.value@)
    }
}

impl Protocol for IMeta {
    open spec fn admits(v: ValueView) -> bool {
        v is Var || v is List || v is Vector || v is PersistentMap || v is Symbol
    }

    closed spec fn wrapped(&self) -> Rc<Value> {
        self.value
    }

    fn raw_wrap(val: &Rc<Value>) -> (r: Self) {
        IMeta { value: rc_clone(val) }
    }

    fn raw_unwrap(&self) -> (r: Rc<Value>) {
        proof {
            use_type_invariant(self);
        }
        rc_clone(&self.value)
    }

    fn instanceof(val: &Rc<Value>) -> (r: bool) {
        match &**val {
            Value::Var(_) => true,
            Value::List(_) => true,
            Value::Vector(_) => true,
            Value::PersistentMap(_) => true,
            Value::Symbol(_) => true,
            _ => false,
        }
    }
}

/// The metadata that a value has: what a symbol or a var carries, and nothing
/// for any other value.
pub open spec fn meta_of(v: Value) -> Option<PersistentMap> {
    match v {
        Value::Symbol(s) => Some(s.meta),
        Value::Var(var) => Some(var.meta),
        _ => None,
    }
}

impl HasMeta for IMeta {
    open spec fn keeps_meta(&self) -> bool {
        meta_of(*self.wrapped()) is Some
    }

    open spec fn kept_meta(&self) -> PersistentMap {
        meta_of(*self.wrapped())->0
    }

    fn meta(&self) -> (r: PersistentMap) {
        proof {
            use_type_invariant(self);
        }
        match &*self.value {
            Value::List(val) => val.meta(),
            Value::Vector(val) => val.meta(),
            Value::PersistentMap(val) => val.meta(),
            Value::Symbol(val) => val.meta(),
            Value::Var(var) => var.meta(),
            _ => PersistentMap::empty(),
        }
    }
}

/// The metadata of a definition for which none was given: line 1, column 1, the
/// file `NO_SOURCE_PATH`, and the given namespace and name, each under the symbol
/// that names it.
pub fn base_meta(ns: &str, name: &str) -> (r: PersistentMap)
    ensures
        r@ == Map::<ValueView, ValueView>::empty().insert(
            ValueView::Symbol(crate::symbol::interned("line"@)),
            ValueView::I32(1),
        ).insert(ValueView::Symbol(crate::symbol::interned("column"@)), ValueView::I32(1)).insert(
            ValueView::Symbol(crate::symbol::interned("file"@)),
            ValueView::String("NO_SOURCE_PATH"@),
        ).insert(ValueView::Symbol(crate::symbol::interned("ns"@)), ValueView::String(ns@)).insert(
            ValueView::Symbol(crate::symbol::interned("name"@)),
            ValueView::String(name@),
        ),
{
    let map = PersistentMap::empty();
    let map = map.conj(
        MapEntry::new(Rc::new(Value::Symbol(Symbol::intern("line"))), Rc::new(Value::I32(1))),
    );
    let map = map.conj(
        MapEntry::new(Rc::new(Value::Symbol(Symbol::intern("column"))), Rc::new(Value::I32(1))),
    );
    let map = map.conj(
        MapEntry::new(
            Rc::new(Value::Symbol(Symbol::intern("file"))),
            Rc::new(Value::String(String::from_str("NO_SOURCE_PATH"))),
        ),
    );
    let map = map.conj(
        MapEntry::new(
            Rc::new(Value::Symbol(Symbol::intern("ns"))),
            Rc::new(Value::String(String::from_str(ns))),
        ),
    );
    let map = map.conj(
        MapEntry::new(
            Rc::new(Value::Symbol(Symbol::intern("name"))),
            Rc::new(Value::String(String::from_str(name))),
        ),
    );
    map
}

} // verus!
