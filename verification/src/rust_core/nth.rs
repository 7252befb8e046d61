//! `(nth coll index)`.
use crate::error_message::index_cannot_be_negative;
use crate::error_message::index_cannot_be_negative_text;
use crate::error_message::index_out_of_bounds;
use crate::error_message::index_out_of_bounds_text;
use crate::error_message::type_mismatch;
use crate::error_message::type_mismatch_text;
use crate::error_message::wrong_arg_count;
use crate::error_message::wrong_arg_count_text;
use crate::type_tag::TypeTag;
use crate::types::views;
use crate::value::type_tag_of;
use crate::value::Builtin;
use crate::value::Callable;
use crate::value::CallableView;
use crate::value::ToValue;
use crate::value::Value;
use crate::value::ValueView;
use std::rc::Rc;
use vstd::prelude::*;

verus! {

/// The primitive `nth`.
#[derive(Debug, Clone)]
pub struct NthFn {}

impl ToValue for NthFn {
    open spec fn value_view(&self) -> ValueView {
        ValueView::IFn(CallableView::Builtin(Builtin::NthFn))
    }

    fn to_value(&self) -> (r: Value) {
        Value::IFn(Callable::Builtin(Builtin::NthFn))
    }

    fn to_rc_value(&self) -> (r: Rc<Value>) {
        Rc::new(Value::IFn(Callable::Builtin(Builtin::NthFn)))
    }
}

/// What `nth` finds at position `ind` of a sequence of the values `items`.
pub open spec fn nth_of(items: Seq<ValueView>, ind: int) -> ValueView {
    if ind < items.len() {
        items[ind]
    } else {
        ValueView::Condition(index_out_of_bounds_text(ind as nat, items.len()))
    }
}

/// What `nth` returns on `args`. With other than two arguments it is the
/// condition that says so. An index that is no integer, and a first argument
/// that is neither list nor vector, is a type mismatch. A negative index, and
/// one at or beyond the length, is reported as such. Else it is the value at the
/// index, counted from zero.
pub open spec fn nth_result(args: Seq<ValueView>) -> ValueView {
    if args.len() != 2 {
        ValueView::Condition(wrong_arg_count_text(2, args.len()))
    } else {
        match args[1] {
            ValueView::I32(ind) => if ind < 0 {
                ValueView::Condition(index_cannot_be_negative_text(ind as int))
            } else {
                match args[0] {
                    ValueView::List(list) => nth_of(list@, ind as int),
                    ValueView::Vector(vector) => nth_of(vector@, ind as int),
                    _ => ValueView::Condition(
                        type_mismatch_text(TypeTag::ISeq, type_tag_of(args[0])),
                    ),
                }
            },
            _ => ValueView::Condition(type_mismatch_text(TypeTag::Integer, type_tag_of(args[1]))),
        }
    }
}

impl NthFn {
    /// The value at position `args[1]` of the list or vector `args[0]`.
    pub fn invoke(&self, args: Vec<Rc<Value>>) -> (r: Value)
        ensures
            r@ == nth_result(views(args@)),
    {
        if args.len() != 2 {
            return wrong_arg_count(2, args.len());
        }
        match &*args[1] {
            Value::I32(ind) => {
                let ind: i32 = *ind;
                if ind < 0 {
                    return index_cannot_be_negative(ind);
                }
                let ind: usize = ind as usize;
                match &*args[0] {
                    Value::List(list) => {
                        match list.get(ind) {
                            Some(found) => (**found).clone(),
                            None => index_out_of_bounds(ind, list.len()),
                        }
                    },
                    Value::Vector(vector) => {
                        match vector.get(ind) {
                            Some(found) => (**found).clone(),
                            None => index_out_of_bounds(ind, vector.len()),
                        }
                    },
                    _ => type_mismatch(TypeTag::ISeq, &*args[0]),
                }
            },
            _ => type_mismatch(TypeTag::Integer, &*args[1]),
        }
    }
}

} // verus!
