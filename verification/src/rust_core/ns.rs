//! `(ns name)` and `(ns name (:require [other]))`.
use crate::environment::Environment;
use crate::error_message::type_mismatch;
use crate::error_message::type_mismatch_text;
use crate::error_message::wrong_varg_count;
use crate::error_message::wrong_varg_count_text;
use crate::namespace::created;
use crate::namespace::refers_namespace;
use crate::namespace::Namespaces;
use crate::semantics::chosen;
use crate::symbol::Symbol;
use crate::symbol::SymbolView;
use crate::text::str_eq;
use crate::type_tag::TypeTag;
use crate::value::type_tag_of;
use crate::value::Builtin;
use crate::value::Callable;
use crate::value::CallableView;
use crate::value::ToValue;
use crate::value::Value;
use crate::value::ValueView;
use std::rc::Rc;
use vstd::prelude::*;

verus! {

/// The macro `ns`.
#[derive(Debug, Clone)]
pub struct NsMacro {}

impl ToValue for NsMacro {
    open spec fn value_view(&self) -> ValueView {
        ValueView::Macro(CallableView::Builtin(Builtin::NsMacro))
    }

    fn to_value(&self) -> (r: Value) {
        Value::Macro(Callable::Builtin(Builtin::NsMacro))
    }

    fn to_rc_value(&self) -> (r: Rc<Value>) {
        Rc::new(Value::Macro(Callable::Builtin(Builtin::NsMacro)))
    }
}

/// The symbol of the namespace that a form requires: the form is a list, headed
/// by the keyword `:require` without namespace, whose second value is a vector
/// that starts with that symbol.
pub open spec fn required_namespace(form: ValueView) -> Option<SymbolView> {
    match form {
        ValueView::List(list) => if list@.len() >= 2 && list@[0] == ValueView::Keyword(
            SymbolView { name: "require"@, ns: None },
        ) {
            match list@[1] {
                ValueView::Vector(vector) => if vector@.len() > 0 {
                    match vector@[0] {
                        ValueView::Symbol(sym) => Some(sym),
                        _ => None,
                    }
                } else {
                    None
                },
                _ => None,
            }
        } else {
            None
        },
        _ => None,
    }
}

fn required_symbol(form: &Value) -> (r: Option<Symbol>)
    ensures
        r is Some <==> required_namespace(form@) is Some,
        r is Some ==> r->0@ == required_namespace(form@)->0,
{
    match form {
        Value::List(list) => {
            if list.len() < 2 {
                return None;
            }
            let head = list.get(0);
            let second = list.get(1);
            match (head, second) {
                (Some(head), Some(second)) => {
                    let headed = match &**head {
                        Value::Keyword(kw) => kw.namespace().is_none() && str_eq(
                            kw.name(),
                            "require",
                        ),
                        _ => false,
                    };
                    if !headed {
                        return None;
                    }
                    match &**second {
                        Value::Vector(vector) => {
                            match vector.get(0) {
                                Some(first) => match &**first {
                                    Value::Symbol(sym) => Some(sym.clone()),
                                    _ => None,
                                },
                                None => None,
                            }
                        },
                        _ => None,
                    }
                },
                _ => None,
            }
        },
        _ => None,
    }
}

/// Whether `after` and `r` are what the macro `ns` leaves of `before` and
/// returns on `args`. A wrong number of arguments, and a name that is no
/// symbol, gives a condition and no change. A symbol gives nil: the namespace it
/// names is made if it does not exist and is the current one from then on, and
/// where a second argument requires a namespace, that one is referred into it
/// as a whole. No frame changes.
pub open spec fn ns_outcome(
    before: Environment,
    args: Seq<Rc<Value>>,
    after: Environment,
    r: Value,
) -> bool {
    if args.len() != 1 && args.len() != 2 {
        after == before && r@ == ValueView::Condition(
            wrong_varg_count_text(seq![1usize, 2usize], args.len()),
        )
    } else {
        match args[0]@ {
            ValueView::Symbol(sym) => {
                &&& r == Value::Nil
                &&& after.frames() == before.frames()
                &&& after.main_val().curr_ns_sym@ == (SymbolView { name: sym.name, ns: None })
                &&& exists|mid: Namespaces| #[trigger]
                    chosen(mid) && created(before.main_val().namespaces, mid, sym.name) && (
                    match required_in(args) {
                        Some(required) => refers_namespace(
                            mid,
                            after.main_val().namespaces,
                            sym.name,
                            required.name,
                        ),
                        None => after.main_val().namespaces == mid,
                    })
            },
            _ => after == before && r@ == ValueView::Condition(
                type_mismatch_text(TypeTag::Symbol, type_tag_of(args[0]@)),
            ),
        }
    }
}

/// The symbol of the namespace that the second of `args` requires, if there is
/// a second and it requires one.
pub open spec fn required_in(args: Seq<Rc<Value>>) -> Option<SymbolView> {
    if args.len() == 2 {
        required_namespace(args[1]@)
    } else {
        None
    }
}

impl NsMacro {
    /// The macro itself.
    pub fn new() -> (r: NsMacro) {
        NsMacro {  }
    }

    /// Makes the namespace named by the symbol `args[0]` the current one, after
    /// making it if it does not exist. Where `args[1]` requires a namespace,
    /// that one is referred into the now current namespace, and made if it
    /// does not exist. Returns nil, or a condition and no change for a wrong
    /// number of arguments or a name that is no symbol.
    pub fn invoke(&self, env: &mut Environment, args: Vec<Rc<Value>>) -> (r: Value)
        ensures
            ns_outcome(*old(env), args@, *final(env), r),
    {
        if args.len() != 1 && args.len() != 2 {
            let expected: Vec<usize> = vec![1, 2];
            assert(expected@ =~= seq![1usize, 2usize]);
            return wrong_varg_count(&expected, args.len());
        }
        match &*args[0] {
            Value::Symbol(ns_sym) => {
                env.change_or_create_namespace(ns_sym);
            },
            _ => {
                return type_mismatch(TypeTag::Symbol, &*args[0]);
            },
        }
        assert(chosen(env.main_val().namespaces));
        if args.len() == 2 {
            match required_symbol(&*args[1]) {
                Some(required) => {
                    env.add_referred_namespace_to_curr_namespace(&required);
                },
                None => {},
            }
        }
        Value::Nil
    }
}

} // verus!
