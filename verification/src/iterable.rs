//! The protocol of the values that can be walked through.
use crate::protocol::Protocol;
use crate::types::rc_clone;
use crate::types::views;
use crate::value::Value;
use crate::value::ValueView;
use std::rc::Rc;
use vstd::prelude::*;

verus! {

/// A value that is known to be a list.
#[derive(Debug)]
pub struct Iterable {
    value: Rc<Value>,
}

impl Iterable {
    #[verifier::type_invariant]
    spec fn holds_a_list(self) -> bool {
        self.value@ is List
    }

    /// The views of the values that a walk yields, in order.
    pub closed spec fn yields(&self) -> Seq<ValueView> {
        self.value@->List_0@
    }

    /// The values of the wrapped list, first to last.
    pub fn iter(&self) -> (r: Vec<Rc<Value>>)
        ensures
            views(r@) == self.yields(),
            self.wrapped()@ matches ValueView::List(l) && l@ == self.yields(),
    {
        proof {
            use_type_invariant(self);
        }
        match &*self.value {
            Value::List(list) => list.to_vec(),
            _ => Vec::new(),
        }
    }
}

impl Protocol for Iterable {
    open spec fn admits(v: ValueView) -> bool {
        v is List
    }

    closed spec fn wrapped(&self) -> Rc<Value> {
        self.value
    }

    fn raw_wrap(val: &Rc<Value>) -> (r: Self) {
        Iterable { value: rc_clone(val) }
    }

    fn raw_unwrap(&self) -> (r: Rc<Value>) {
        proof {
            use_type_invariant(self);
        }
        rc_clone(&self.value)
    }

    fn instanceof(val: &Rc<Value>) -> (r: bool) {
        match &**val {
            Value::List(_) => true,
            _ => false,
        }
    }
}

impl Clone for Iterable {
    fn clone(&self) -> (r: Self)
        ensures
            r.wrapped() == self.wrapped(),
    {
        proof {
            use_type_invariant(self);
        }
        Iterable { value: rc_clone(&self.value) }
    }
}

} // verus!
