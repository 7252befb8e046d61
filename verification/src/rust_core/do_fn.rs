//! `do`: evaluate forms in order and give the value of the last.
//!
//! The macro `do` turns `(do a b c)` into the call `(do-fn* a b c)`. A call
//! evaluates its arguments from left to right, and the function `do-fn*` returns
//! its last argument.
use crate::symbol::interned;
use crate::symbol::Symbol;
use crate::types::views;
use crate::types::List;
use crate::value::Builtin;
use crate::value::Callable;
use crate::value::CallableView;
use crate::value::ToValue;
use crate::value::Value;
use crate::value::ValueView;
use std::rc::Rc;
use vstd::prelude::*;

verus! {

/// The primitive `do-fn*`.
#[derive(Debug, Clone)]
pub struct DoFn {}

impl ToValue for DoFn {
    open spec fn value_view(&self) -> ValueView {
        ValueView::IFn(CallableView::Builtin(Builtin::DoFn))
    }

    fn to_value(&self) -> (r: Value) {
        Value::IFn(Callable::Builtin(Builtin::DoFn))
    }

    fn to_rc_value(&self) -> (r: Rc<Value>) {
        Rc::new(Value::IFn(Callable::Builtin(Builtin::DoFn)))
    }
}

impl DoFn {
    /// The last of `args`, or nil without arguments.
    pub fn invoke(&self, args: Vec<Rc<Value>>) -> (r: Value)
        ensures
            r == (if args@.len() == 0 {
                Value::Nil
            } else {
                *args@.last()
            }),
    {
        if args.len() == 0 {
            Value::Nil
        } else {
            (*args[args.len() - 1]).clone()
        }
    }
}

/// The macro `do`.
#[derive(Debug, Clone)]
pub struct DoMacro {}

impl ToValue for DoMacro {
    open spec fn value_view(&self) -> ValueView {
        ValueView::Macro(CallableView::Builtin(Builtin::DoMacro))
    }

    fn to_value(&self) -> (r: Value) {
        Value::Macro(Callable::Builtin(Builtin::DoMacro))
    }

    fn to_rc_value(&self) -> (r: Rc<Value>) {
        Rc::new(Value::Macro(Callable::Builtin(Builtin::DoMacro)))
    }
}

impl DoMacro {
    /// The call of `do-fn*` on the forms `args`.
    pub fn invoke(&self, args: Vec<Rc<Value>>) -> (r: Value)
        ensures
            r@ matches ValueView::List(list) && list@ == seq![
                ValueView::Symbol(interned("do-fn*"@)),
            ] + views(args@),
    {
        let mut body: Vec<Rc<Value>> = Vec::new();
        body.push(Rc::new(Value::Symbol(Symbol::intern("do-fn*"))));
        let mut args = args;
        let ghost given = args@;
        body.append(&mut args);
        assert(views(body@) =~= seq![ValueView::Symbol(interned("do-fn*"@))] + views(given));
        Value::List(List::from_vec(body))
    }
}

} // verus!
