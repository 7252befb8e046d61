//! `(assoc map key val & kvs)`.
use crate::text::decimal;
use crate::text::decimal_string;
use crate::traits::imap::IMap;
use crate::types::views;
use crate::types::PersistentMap;
use crate::value::Builtin;
use crate::value::Callable;
use crate::value::CallableView;
use crate::value::ToValue;
use crate::value::Value;
use crate::value::ValueView;
use itertools::Itertools;
use std::rc::Rc;
use vstd::prelude::*;

verus! {

/// The primitive `assoc`.
#[derive(Debug, Clone)]
pub struct AssocFn {}

impl ToValue for AssocFn {
    open spec fn value_view(&self) -> ValueView {
        ValueView::IFn(CallableView::Builtin(Builtin::AssocFn))
    }

    fn to_value(&self) -> (r: Value) {
        Value::IFn(Callable::Builtin(Builtin::AssocFn))
    }

    fn to_rc_value(&self) -> (r: Rc<Value>) {
        Rc::new(Value::IFn(Callable::Builtin(Builtin::AssocFn)))
    }
}

/// The values of `items` two by two: the first with the second, the third with
/// the fourth, and so on. A value left over at the end is dropped.
///
/// Trusted: the body is `Itertools::tuples` on the values in order, collected
/// into a `Vec`. `tuples` groups the items of an iterator in tuples of the size
/// asked for, and does not yield a group that it cannot fill.
#[verifier::external_body]
fn pairs_of(items: Vec<Rc<Value>>) -> (r: Vec<(Rc<Value>, Rc<Value>)>)
    ensures
        r@.len() == items@.len() / 2,
        forall|i: int|
            0 <= i < r@.len() ==> (#[trigger] r@[i]).0 == items@[2 * i] && r@[i].1 == items@[2 * i
                + 1],
{
    items.into_iter().tuples().collect()
}

/// The message for a number of arguments that `assoc` does not take.
pub open spec fn assoc_arity_text(got: nat) -> Seq<char> {
    "Wrong number of arguments given to function (Given: "@ + decimal(got)
        + ", Expected: 3 | 5 | 7 | ..)"@
}

/// The bindings of `m` after binding each key of `args` to the value that
/// follows it, from position `from` on, in order.
pub open spec fn assoc_all(m: Map<ValueView, ValueView>, args: Seq<ValueView>, from: int) -> Map<
    ValueView,
    ValueView,
>
    decreases args.len() - from,
{
    if from < 0 || from + 1 >= args.len() {
        m
    } else {
        assoc_all(m.insert(args[from], args[from + 1]), args, from + 2)
    }
}

/// Whether `r` is what `assoc` returns on `args`. With fewer than three
/// arguments, or an even number of them, it is the condition that says so. With
/// a map first it is a map: the first argument with every key bound to the
/// value that follows it. With anything else first it is nil.
pub open spec fn assoc_outcome(args: Seq<ValueView>, r: ValueView) -> bool {
    if args.len() < 3 || args.len() % 2 == 0 {
        r == ValueView::Condition(assoc_arity_text(args.len()))
    } else {
        match args[0] {
            ValueView::PersistentMap(m) => r matches ValueView::PersistentMap(out) && out@
                == assoc_all(m@, args, 1),
            _ => r == ValueView::Nil,
        }
    }
}

impl AssocFn {
    /// The map `args[0]` with each key among the further arguments bound to the
    /// value that follows it. The map itself stays as it was.
    pub fn invoke(&self, args: Vec<Rc<Value>>) -> (r: Value)
        ensures
            assoc_outcome(views(args@), r@),
    {
        let n = args.len();
        if n < 3 || n % 2 == 0 {
            let mut msg = String::from_str("Wrong number of arguments given to function (Given: ");
            msg.append(decimal_string(n).as_str());
            msg.append(", Expected: 3 | 5 | 7 | ..)");
            return Value::Condition(msg);
        }
        let ghost given = views(args@);
        let mut retval: PersistentMap = match &*args[0] {
            Value::PersistentMap(map) => map.clone(),
            _ => {
                return Value::Nil;
            },
        };
        let ghost start = retval@;
        let mut rest = args;
        let first = rest.remove(0);
        let pairs = pairs_of(rest);
        let mut i: usize = 0;
        while i < pairs.len()
            invariant
                i <= pairs.len(),
                given.len() == n,
                n % 2 == 1,
                pairs@.len() == (n - 1) / 2,
                forall|j: int|
                    0 <= j < pairs@.len() ==> (#[trigger] pairs@[j]).0@ == given[2 * j + 1]
                        && pairs@[j].1@ == given[2 * j + 2],
                assoc_all(start, given, 1) == assoc_all(retval@, given, 2 * i + 1),
            decreases pairs.len() - i,
        {
            let key = crate::types::rc_clone(&pairs[i].0);
            let val = crate::types::rc_clone(&pairs[i].1);
            assert(pairs@[i as int].0@ == given[2 * i + 1]);
            retval = retval.assoc(key, val);
            i += 1;
        }
        Value::PersistentMap(retval)
    }
}

} // verus!
