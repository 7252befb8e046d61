//! `(with-meta obj m)`: the object with the given metadata.
use crate::error_message::type_mismatch;
use crate::error_message::type_mismatch_text;
use crate::error_message::wrong_arg_count;
use crate::error_message::wrong_arg_count_text;
use crate::protocol::try_as_protocol;
use crate::protocol::Protocol;
use crate::protocols::iobj::value_with_meta;
use crate::protocols::iobj::IObj;
use crate::traits::iobj::IObj as HasObj;
use crate::type_tag::tag_name;
use crate::type_tag::TypeTag;
use crate::value::type_tag_of;
use crate::value::Builtin;
use crate::value::Callable;
use crate::value::CallableView;
use crate::value::ToValue;
use crate::value::Value;
use crate::value::ValueView;
use std::rc::Rc;
use vstd::prelude::*;

verus! {

/// The primitive `with-meta`.
#[derive(Debug, Clone)]
pub struct WithMetaFn {}

impl ToValue for WithMetaFn {
    open spec fn value_view(&self) -> ValueView {
        ValueView::IFn(CallableView::Builtin(Builtin::WithMetaFn))
    }

    fn to_value(&self) -> (r: Value) {
        Value::IFn(Callable::Builtin(Builtin::WithMetaFn))
    }

    fn to_rc_value(&self) -> (r: Rc<Value>) {
        Rc::new(Value::IFn(Callable::Builtin(Builtin::WithMetaFn)))
    }
}

/// The message for a first argument of kind `got`, which takes no metadata.
pub open spec fn not_an_object_text(got: TypeTag) -> Seq<char> {
    "In with-meta: first argument is supposed to be of instance IObj, but its type "@ + tag_name(
        got,
    ) + " is not"@
}

/// Whether `r` is what `with-meta` returns on `args`. With other than two
/// arguments it is the condition that says so. A first argument that takes no
/// metadata, and a second that is no map, is a condition. Else it is the first
/// argument with the second as its metadata: a symbol carries it, a collection
/// stays as it is.
pub open spec fn with_meta_outcome(args: Seq<Rc<Value>>, r: Value) -> bool {
    if args.len() != 2 {
        r@ == ValueView::Condition(wrong_arg_count_text(2, args.len()))
    } else if !IObj::admits(args[0]@) {
        r@ == ValueView::Condition(not_an_object_text(type_tag_of(args[0]@)))
    } else {
        match *args[1] {
            Value::PersistentMap(meta) => r == value_with_meta(*args[0], meta),
            _ => r@ == ValueView::Condition(
                type_mismatch_text(TypeTag::PersistentMap, type_tag_of(args[1]@)),
            ),
        }
    }
}

impl WithMetaFn {
    /// The primitive itself.
    pub fn new() -> (r: WithMetaFn) {
        WithMetaFn {  }
    }

    /// The object `args[0]` with the map `args[1]` as its metadata.
    pub fn invoke(&self, args: Vec<Rc<Value>>) -> (r: Value)
        ensures
            with_meta_outcome(args@, r),
    {
        if args.len() != 2 {
            return wrong_arg_count(2, args.len());
        }
        match try_as_protocol::<IObj>(&args[0]) {
            Some(obj) => match &*args[1] {
                Value::PersistentMap(map) => {
                    let with = obj.with_meta(map.clone());
                    (*with.raw_unwrap()).clone()
                },
                _ => type_mismatch(TypeTag::PersistentMap, &*args[1]),
            },
            None => {
                let mut msg = String::from_str(
                    "In with-meta: first argument is supposed to be of instance IObj, but its type ",
                );
                msg.append(args[0].type_tag().name());
                msg.append(" is not");
                Value::Condition(msg)
            },
        }
    }
}

} // verus!
