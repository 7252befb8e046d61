//! `(map f coll)`.
use crate::environment::Environment;
use crate::error_message::wrong_arg_count;
use crate::evaluator::apply;
use crate::semantics::calls;
use crate::semantics::calls_each;
use crate::semantics::maps;
use crate::evaluator::Host;
use crate::iterable::Iterable;
use crate::protocol::try_as_protocol;
use crate::protocol::Protocol;
use crate::type_tag::TypeTag;
use crate::types::views;
use crate::types::List;
use crate::value::Builtin;
use crate::value::Callable;
use crate::value::CallableView;
use crate::value::ToValue;
use crate::value::Value;
use crate::value::ValueView;
use std::rc::Rc;
use vstd::prelude::*;

verus! {

/// The primitive `map`.
#[derive(Debug, Clone)]
pub struct MapFn {}

impl ToValue for MapFn {
    open spec fn value_view(&self) -> ValueView {
        ValueView::IFn(CallableView::Builtin(Builtin::MapFn))
    }

    fn to_value(&self) -> (r: Value) {
        Value::IFn(Callable::Builtin(Builtin::MapFn))
    }

    fn to_rc_value(&self) -> (r: Rc<Value>) {
        Rc::new(Value::IFn(Callable::Builtin(Builtin::MapFn)))
    }
}

impl MapFn {
    /// The list of the outcomes of the calls, in order.
    pub fn collect(mapped: Vec<Rc<Value>>) -> (r: Value)
        ensures
            r@ matches ValueView::List(list) && list@ == views(mapped@),
    {
        Value::List(List::from_vec(mapped))
    }

    /// Calls the function `args[0]` on each value of the list `args[1]`, first to
    /// last, and returns the list of the outcomes. Other than two arguments, a
    /// second that cannot be walked through and a first that is no function
    /// give a condition and change nothing. No frame of `env` changes.
    pub fn invoke<H: Host>(
        &self,
        host: &mut H,
        env: &mut Environment,
        args: Vec<Rc<Value>>,
        depth: usize,
    ) -> (r: Rc<Value>)
        ensures
            maps(*old(env), args@, depth as nat, *final(env), r),
            final(env).frames() == old(env).frames(),
        decreases depth, 2nat,
    {
        if args.len() != 2 {
            return Rc::new(wrong_arg_count(2, args.len()));
        }
        let iterable = try_as_protocol::<Iterable>(&args[1]);
        match (&*args[0], iterable) {
            (Value::IFn(ifn), Some(iterable)) => {
                if depth == 0 {
                    return Rc::new(crate::error_message::custom("Evaluation is nested too deeply"));
                }
                let items = iterable.iter();
                assert(views(items@).len() == items@.len());
                let mut mapped: Vec<Rc<Value>> = Vec::new();
                let mut i: usize = 0;
                while i < items.len()
                    invariant
                        i <= items.len(),
                        mapped@.len() == i,
                        env.frames() == old(env).frames(),
                        depth > 0,
                        calls_each(
                            *old(env),
                            *ifn,
                            items@,
                            i as nat,
                            (depth - 1) as nat,
                            *env,
                            mapped@,
                        ),
                    decreases items.len() - i,
                {
                    let ghost before = *env;
                    let ghost so_far = mapped@;
                    let mut one: Vec<Rc<Value>> = Vec::new();
                    one.push(crate::types::rc_clone(&items[i]));
                    assert(one@ =~= seq![items@[i as int]]);
                    let val = apply(host, env, ifn, one, depth - 1);
                    mapped.push(val);
                    proof {
                        crate::semantics::lemma_calls_one_more(
                            *old(env),
                            *ifn,
                            items@,
                            i as nat,
                            (depth - 1) as nat,
                            before,
                            so_far,
                            *env,
                            val,
                        );
                    }
                    i += 1;
                }
                assert(crate::semantics::chosen((items@, mapped@)));
                Rc::new(MapFn::collect(mapped))
            },
            (_, None) => {
                let mut msg = String::from_str(
                    "Type mismatch; Expected iterable type, Recieved type ",
                );
                msg.append(args[1].type_tag().name());
                Rc::new(Value::Condition(msg))
            },
            (other, Some(_)) => {
                let mut msg = String::from_str("Type mismatch; Expected instance of ");
                msg.append(TypeTag::IFn.name());
                msg.append(", Recieved type ");
                msg.append(other.type_tag().name());
                Rc::new(Value::Condition(msg))
            },
        }
    }
}

} // verus!
