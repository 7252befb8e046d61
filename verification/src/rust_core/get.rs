//! `(get map key)` and `(get map key not-found)`.
use crate::error_message::wrong_varg_count;
use crate::error_message::wrong_varg_count_text;
use crate::traits::imap::IMap;
use crate::types::views;
use crate::value::Builtin;
use crate::value::Callable;
use crate::value::CallableView;
use crate::value::ToValue;
use crate::value::Value;
use crate::value::ValueView;
use std::rc::Rc;
use vstd::prelude::*;

verus! {

/// The primitive `get`.
#[derive(Debug, Clone)]
pub struct GetFn {}

impl ToValue for GetFn {
    open spec fn value_view(&self) -> ValueView {
        ValueView::IFn(CallableView::Builtin(Builtin::GetFn))
    }

    fn to_value(&self) -> (r: Value) {
        Value::IFn(Callable::Builtin(Builtin::GetFn))
    }

    fn to_rc_value(&self) -> (r: Rc<Value>) {
        Rc::new(Value::IFn(Callable::Builtin(Builtin::GetFn)))
    }
}

/// What `get` returns on `args`. With other than two or three arguments it is
/// the condition that says so. With a map first, it is the value bound to the
/// second argument, or else the third argument, or nil where there is none.
/// With anything else first it is nil.
pub open spec fn get_result(args: Seq<ValueView>) -> ValueView {
    if args.len() != 2 && args.len() != 3 {
        ValueView::Condition(wrong_varg_count_text(seq![2usize, 3usize], args.len()))
    } else {
        match args[0] {
            ValueView::PersistentMap(m) => if m@.contains_key(args[1]) {
                m@[args[1]]
            } else if args.len() == 3 {
                args[2]
            } else {
                ValueView::Nil
            },
            _ => ValueView::Nil,
        }
    }
}

impl GetFn {
    /// The value that the map `args[0]` binds to the key `args[1]`; where it
    /// binds none, `args[2]`, or nil without a third argument.
    pub fn invoke(&self, args: Vec<Rc<Value>>) -> (r: Value)
        ensures
            r@ == get_result(views(args@)),
    {
        if args.len() != 2 && args.len() != 3 {
            let expected: Vec<usize> = vec![2, 3];
            assert(expected@ =~= seq![2usize, 3usize]);
            return wrong_varg_count(&expected, args.len());
        }
        match &*args[0] {
            Value::PersistentMap(map) => {
                let key = &args[1];
                let found = if args.len() == 3 {
                    map.get_with_default(key, &args[2])
                } else {
                    map.get(key)
                };
                (*found).clone()
            },
            _ => Value::Nil,
        }
    }
}

} // verus!
