//! `(concat x y & zs)`.
use crate::types::views;
use crate::types::List;
use crate::value::Builtin;
use crate::value::Callable;
use crate::value::CallableView;
use crate::value::ToValue;
use crate::value::Value;
use crate::value::ValueView;
use std::rc::Rc;
use vstd::prelude::*;

verus! {

/// The primitive `concat`.
#[derive(Debug, Clone)]
pub struct ConcatFn {}

impl ToValue for ConcatFn {
    open spec fn value_view(&self) -> ValueView {
        ValueView::IFn(CallableView::Builtin(Builtin::ConcatFn))
    }

    fn to_value(&self) -> (r: Value) {
        Value::IFn(Callable::Builtin(Builtin::ConcatFn))
    }

    fn to_rc_value(&self) -> (r: Rc<Value>) {
        Rc::new(Value::IFn(Callable::Builtin(Builtin::ConcatFn)))
    }
}

/// The values that a value contributes to a concatenation: those of a list or
/// a vector, and none of anything else.
pub open spec fn items_of(v: ValueView) -> Seq<ValueView> {
    match v {
        ValueView::List(list) => list@,
        ValueView::Vector(vector) => vector@,
        _ => Seq::empty(),
    }
}

/// The values of all of `args`, one argument after the other.
pub open spec fn concat_all(args: Seq<ValueView>) -> Seq<ValueView>
    decreases args.len(),
{
    if args.len() == 0 {
        Seq::empty()
    } else {
        concat_all(args.drop_last()) + items_of(args.last())
    }
}

impl ConcatFn {
    /// The list of the values of every list and vector among `args`, in order.
    pub fn invoke(&self, args: Vec<Rc<Value>>) -> (r: Value)
        ensures
            r@ matches ValueView::List(list) && list@ == concat_all(views(args@)),
    {
        let mut concatted: Vec<Rc<Value>> = Vec::new();
        let mut i: usize = 0;
        assert(views(args@).subrange(0, 0) =~= Seq::<ValueView>::empty());
        assert(views(concatted@) =~= Seq::<ValueView>::empty());
        while i < args.len()
            invariant
                i <= args.len(),
                views(concatted@) == concat_all(views(args@).subrange(0, i as int)),
            decreases args.len() - i,
        {
            let ghost before = concatted@;
            let mut items: Vec<Rc<Value>> = match &*args[i] {
                Value::List(list) => list.to_vec(),
                Value::Vector(vector) => vector.to_vec(),
                _ => Vec::new(),
            };
            let ghost added = items@;
            assert(views(added) =~= items_of(args@[i as int]@));
            concatted.append(&mut items);
            proof {
                let upto = views(args@).subrange(0, i + 1);
                assert(upto.drop_last() =~= views(args@).subrange(0, i as int));
                assert(upto.last() == args@[i as int]@);
                assert(views(before + added) =~= views(before) + views(added));
            }
            i += 1;
        }
        assert(views(args@).subrange(0, args.len() as int) =~= views(args@));
        Value::List(List::from_vec(concatted))
    }
}

} // verus!
