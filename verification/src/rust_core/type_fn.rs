//! `(type x)`: the name of the kind that a value is of.
use crate::error_message::wrong_arg_count;
use crate::error_message::wrong_arg_count_text;
use crate::type_tag::tag_name;
use crate::types::views;
use crate::value::type_tag_of;
use crate::value::Builtin;
use crate::value::Callable;
use crate::value::CallableView;
use crate::value::ToValue;
use crate::value::Value;
use crate::value::ValueView;
use std::rc::Rc;
use vstd::prelude::*;

verus! {

/// The primitive `type`.
#[derive(Debug, Clone)]
pub struct TypeFn {}

impl ToValue for TypeFn {
    open spec fn value_view(&self) -> ValueView {
        ValueView::IFn(CallableView::Builtin(Builtin::TypeFn))
    }

    fn to_value(&self) -> (r: Value) {
        Value::IFn(Callable::Builtin(Builtin::TypeFn))
    }

    fn to_rc_value(&self) -> (r: Rc<Value>) {
        Rc::new(Value::IFn(Callable::Builtin(Builtin::TypeFn)))
    }
}

/// What `type` returns on `args`: the name of the kind of the one argument, as a
/// string; a condition with any other number of arguments.
pub open spec fn type_result(args: Seq<ValueView>) -> ValueView {
    if args.len() == 1 {
        ValueView::String(tag_name(type_tag_of(args[0])))
    } else {
        ValueView::Condition(wrong_arg_count_text(1, args.len()))
    }
}

impl TypeFn {
    /// The name of the kind of the one argument, as a string.
    pub fn invoke(&self, args: Vec<Rc<Value>>) -> (r: Value)
        ensures
            r@ == type_result(views(args@)),
    {
        if args.len() == 1 {
            Value::String(args[0].type_tag().to_string())
        } else {
            wrong_arg_count(1, args.len())
        }
    }
}

} // verus!
