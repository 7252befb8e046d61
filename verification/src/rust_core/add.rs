//! `(+ x y & more)`: the sum of integers.
use crate::error_message::custom;
use crate::type_tag::tag_name;
use crate::type_tag::TypeTag;
use crate::types::views;
use crate::value::type_tag_of;
use crate::value::Builtin;
use crate::value::Callable;
use crate::value::CallableView;
use crate::value::ToValue;
use crate::value::Value;
use crate::value::ValueView;
use std::rc::Rc;
use vstd::prelude::*;

verus! {

/// The primitive `+`.
#[derive(Debug, Clone)]
pub struct AddFn {}

impl ToValue for AddFn {
    open spec fn value_view(&self) -> ValueView {
        ValueView::IFn(CallableView::Builtin(Builtin::AddFn))
    }

    fn to_value(&self) -> (r: Value) {
        Value::IFn(Callable::Builtin(Builtin::AddFn))
    }

    fn to_rc_value(&self) -> (r: Rc<Value>) {
        Rc::new(Value::IFn(Callable::Builtin(Builtin::AddFn)))
    }
}

/// The message for an argument of kind `got`, which is no number.
pub open spec fn not_a_number_text(got: TypeTag) -> Seq<char> {
    "Type mismatch; Expecting: (i32 | i64 | f32 | f64), Found: "@ + tag_name(got)
}

/// The message for a sum that an integer cannot hold.
pub open spec fn overflow_text() -> Seq<char> {
    "Integer overflow"@
}

/// The sum of `args` from the left, starting at zero. The first argument that is
/// no integer, or that takes the sum out of the range of integers, ends it in a
/// condition.
pub open spec fn sum_of(args: Seq<ValueView>) -> ValueView
    decreases args.len(),
{
    if args.len() == 0 {
        ValueView::I32(0)
    } else {
        match sum_of(args.drop_last()) {
            ValueView::I32(sum) => match args.last() {
                ValueView::I32(x) => if i32::MIN <= sum + x <= i32::MAX {
                    ValueView::I32((sum + x) as i32)
                } else {
                    ValueView::Condition(overflow_text())
                },
                other => ValueView::Condition(not_a_number_text(type_tag_of(other))),
            },
            failed => failed,
        }
    }
}

impl AddFn {
    /// The sum of the integers `args`; zero without arguments.
    pub fn invoke(&self, args: Vec<Rc<Value>>) -> (r: Value)
        ensures
            r@ == sum_of(views(args@)),
    {
        let mut sum: i32 = 0;
        let mut i: usize = 0;
        assert(views(args@).subrange(0, 0) =~= Seq::<ValueView>::empty());
        while i < args.len()
            invariant
                i <= args.len(),
                sum_of(views(args@).subrange(0, i as int)) == ValueView::I32(sum),
            decreases args.len() - i,
        {
            proof {
                let upto = views(args@).subrange(0, i + 1);
                assert(upto.drop_last() =~= views(args@).subrange(0, i as int));
                assert(upto.last() == args@[i as int]@);
            }
            match &*args[i] {
                Value::I32(x) => {
                    match sum.checked_add(*x) {
                        Some(next) => {
                            sum = next;
                        },
                        None => {
                            proof {
                                lemma_sum_stays_failed(views(args@), i + 1);
                            }
                            return custom("Integer overflow");
                        },
                    }
                },
                other => {
                    let mut msg = String::from_str(
                        "Type mismatch; Expecting: (i32 | i64 | f32 | f64), Found: ",
                    );
                    msg.append(other.type_tag().name());
                    proof {
                        lemma_sum_stays_failed(views(args@), i + 1);
                    }
                    return Value::Condition(msg);
                },
            }
            i += 1;
        }
        assert(views(args@).subrange(0, args.len() as int) =~= views(args@));
        Value::I32(sum)
    }
}

/// A sum that has ended in a condition stays that condition, whatever follows.
pub proof fn lemma_sum_stays_failed(args: Seq<ValueView>, upto: int)
    requires
        0 <= upto <= args.len(),
        !(sum_of(args.subrange(0, upto)) is I32),
    ensures
        sum_of(args) == sum_of(args.subrange(0, upto)),
    decreases args.len() - upto,
{
    if upto < args.len() {
        let next = args.subrange(0, upto + 1);
        assert(next.drop_last() =~= args.subrange(0, upto));
        lemma_sum_stays_failed(args, upto + 1);
    } else {
        assert(args.subrange(0, upto) =~= args);
    }
}

} // verus!
