//! Protocols: capabilities that only some kinds of value have.
//!
//! A protocol wraps a shared value and is made only for a value of a kind that
//! the protocol admits, so that each of its operations can rely on the kind.
use crate::value::Value;
use crate::value::ValueView;
use std::rc::Rc;
use vstd::prelude::*;

verus! {

/// A capability over the kinds of value that it admits.
pub trait Protocol: Sized {
    /// Whether the protocol admits a value with this view.
    spec fn admits(v: ValueView) -> bool;

    /// The value that is wrapped.
    spec fn wrapped(&self) -> Rc<Value>;

    /// Wraps `val` without a check. The caller has checked with `instanceof`.
    fn raw_wrap(val: &Rc<Value>) -> (r: Self)
        requires
            Self::admits(val@),
        ensures
            r.wrapped() == *val,
    ;

    /// The wrapped value.
    fn raw_unwrap(&self) -> (r: Rc<Value>)
        ensures
            r == self.wrapped(),
            Self::admits(r@),
    ;

    /// Whether the protocol admits `val`.
    fn instanceof(val: &Rc<Value>) -> (r: bool)
        ensures
            r == Self::admits(val@),
    ;
}

/// `val` under the protocol `P`, where `P` admits it.
pub fn try_as_protocol<P: Protocol>(val: &Rc<Value>) -> (r: Option<P>)
    ensures
        r is Some <==> P::admits(val@),
        r is Some ==> r->0.wrapped() == *val,
{
    if P::instanceof(val) {
        Some(P::raw_wrap(val))
    } else {
        None
    }
}

/// `val` under the protocol `P`, which admits it.
pub fn as_protocol<P: Protocol>(val: &Rc<Value>) -> (r: P)
    requires
        P::admits(val@),
    ensures
        r.wrapped() == *val,
{
    P::raw_wrap(val)
}

} // verus!
