//! `(= x y)`.
use crate::error_message::wrong_arg_count;
use crate::error_message::wrong_arg_count_text;
use crate::types::views;
use crate::value::Builtin;
use crate::value::Callable;
use crate::value::CallableView;
use crate::value::ToValue;
use crate::value::Value;
use crate::value::ValueView;
use std::rc::Rc;
use vstd::prelude::*;

verus! {

/// The primitive `=`.
#[derive(Debug, Clone)]
pub struct EqualsFn {}

impl ToValue for EqualsFn {
    open spec fn value_view(&self) -> ValueView {
        ValueView::IFn(CallableView::Builtin(Builtin::EqualsFn))
    }

    fn to_value(&self) -> (r: Value) {
        Value::IFn(Callable::Builtin(Builtin::EqualsFn))
    }

    fn to_rc_value(&self) -> (r: Rc<Value>) {
        Rc::new(Value::IFn(Callable::Builtin(Builtin::EqualsFn)))
    }
}

/// What `=` returns on `args`: whether the two arguments are equal, which does
/// not look at metadata; a condition with other than two arguments.
pub open spec fn equals_result(args: Seq<ValueView>) -> ValueView {
    if args.len() != 2 {
        ValueView::Condition(wrong_arg_count_text(2, args.len()))
    } else {
        ValueView::Boolean(args[0] == args[1])
    }
}

impl EqualsFn {
    /// Whether `args[0]` and `args[1]` are equal.
    pub fn invoke(&self, args: Vec<Rc<Value>>) -> (r: Value)
        ensures
            r@ == equals_result(views(args@)),
    {
        if args.len() != 2 {
            return wrong_arg_count(2, args.len());
        }
        Value::Boolean(*args[0] == *args[1])
    }
}

} // verus!
