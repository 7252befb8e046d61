//! User-defined functions: closures over the lexical scope they were made in.
use crate::environment::frame_key;
use crate::error_message::custom;
use crate::error_message::wrong_arg_count;
use crate::error_message::wrong_arg_count_text;
use crate::maps::MapEntry;
use crate::symbol::Symbol;
use crate::symbol::SymbolView;
use crate::text::str_eq;
use crate::types::rc_clone;
use crate::types::views;
use crate::types::List;
use crate::types::PersistentMap;
use crate::value::Value;
use crate::value::ValueView;
use std::rc::Rc;
use vstd::prelude::*;
use vstd::std_specs::cmp::PartialEqSpecImpl;

verus! {

/// The identities of a sequence of symbols.
pub open spec fn symbol_views(s: Seq<Symbol>) -> Seq<SymbolView> {
    s.map_values(|x: Symbol| x@)
}

/// What equality sees of a closure.
pub struct LambdaView {
    pub params: Seq<SymbolView>,
    pub body: List,
    pub scope: Seq<PersistentMap>,
}

/// A closure: parameter symbols, the body's forms, and the lexical frames that
/// were in scope where it was made, outermost first.
#[derive(Debug, Hash)]
pub struct Lambda {
    pub params: Vec<Symbol>,
    pub body: List,
    pub scope: Vec<PersistentMap>,
}

impl View for Lambda {
    type V = LambdaView;

    open spec fn view(&self) -> LambdaView {
        LambdaView { params: symbol_views(self.params@), body: self.body, scope: self.scope@ }
    }
}

/// A copy of a sequence of symbols.
pub fn clone_symbols(v: &Vec<Symbol>) -> (r: Vec<Symbol>)
    ensures
        r@ == v@,
{
    let mut out: Vec<Symbol> = Vec::new();
    let mut i: usize = 0;
    while i < v.len()
        invariant
            i <= v.len(),
            out@ == v@.subrange(0, i as int),
        decreases v.len() - i,
    {
        out.push(v[i].clone());
        assert(v@.subrange(0, i as int).push(v@[i as int]) =~= v@.subrange(0, i + 1));
        i += 1;
    }
    assert(v@.subrange(0, v.len() as int) =~= v@);
    out
}

/// A copy of a sequence of frames; each frame is shared, not copied.
pub fn clone_frames(v: &Vec<PersistentMap>) -> (r: Vec<PersistentMap>)
    ensures
        r@ == v@,
{
    let mut out: Vec<PersistentMap> = Vec::new();
    let mut i: usize = 0;
    while i < v.len()
        invariant
            i <= v.len(),
            out@ == v@.subrange(0, i as int),
        decreases v.len() - i,
    {
        out.push(v[i].clone());
        assert(v@.subrange(0, i as int).push(v@[i as int]) =~= v@.subrange(0, i + 1));
        i += 1;
    }
    assert(v@.subrange(0, v.len() as int) =~= v@);
    out
}

fn same_symbols(a: &Vec<Symbol>, b: &Vec<Symbol>) -> (r: bool)
    ensures
        r == (symbol_views(a@) == symbol_views(b@)),
{
    if a.len() != b.len() {
        assert(symbol_views(a@).len() != symbol_views(b@).len());
        return false;
    }
    let mut i: usize = 0;
    while i < a.len()
        invariant
            i <= a.len(),
            a.len() == b.len(),
            forall|j: int| 0 <= j < i ==> a@[j]@ == b@[j]@,
        decreases a.len() - i,
    {
        if !(a[i] == b[i]) {
            assert(symbol_views(a@)[i as int] != symbol_views(b@)[i as int]);
            return false;
        }
        i += 1;
    }
    assert(symbol_views(a@) =~= symbol_views(b@));
    true
}

fn same_frames(a: &Vec<PersistentMap>, b: &Vec<PersistentMap>) -> (r: bool)
    ensures
        r == (a@ == b@),
{
    if a.len() != b.len() {
        return false;
    }
    let mut i: usize = 0;
    while i < a.len()
        invariant
            i <= a.len(),
            a.len() == b.len(),
            forall|j: int| 0 <= j < i ==> a@[j] == b@[j],
        decreases a.len() - i,
    {
        if !(a[i] == b[i]) {
            assert(a@[i as int] != b@[i as int]);
            return false;
        }
        i += 1;
    }
    assert(a@ =~= b@);
    true
}

impl Clone for Lambda {
    fn clone(&self) -> (r: Self)
        ensures
            r.params@ == self.params@,
            r.body == self.body,
            r.scope@ == self.scope@,
            r@ == self@,
    {
        Lambda {
            params: clone_symbols(&self.params),
            body: self.body.clone(),
            scope: clone_frames(&self.scope),
        }
    }
}

impl PartialEq for Lambda {
    /// Two closures are equal when parameters, body and captured frames are.
    fn eq(&self, other: &Self) -> (r: bool) {
        same_symbols(&self.params, &other.params) && self.body == other.body && same_frames(
            &self.scope,
            &other.scope,
        )
    }
}

impl PartialEqSpecImpl for Lambda {
    open spec fn obeys_eq_spec() -> bool {
        true
    }

    open spec fn eq_spec(&self, other: &Self) -> bool {
        self@ == other@
    }
}

impl Eq for Lambda {

}

/// Whether a parameter is the marker `&`, which stands before the parameter that
/// takes all further arguments.
pub open spec fn is_rest_marker(s: SymbolView) -> bool {
    s.name == "&"@ && s.ns is None
}

/// Whether the parameters end in `&` and a parameter for the further arguments.
pub open spec fn variadic(params: Seq<SymbolView>) -> bool {
    params.len() >= 2 && is_rest_marker(params[params.len() - 2])
}

/// The position of the first marker `&` among `params` at or after `i`, or their
/// number where there is none.
pub open spec fn marker_from(params: Seq<SymbolView>, i: int) -> int
    decreases params.len() - i,
{
    if i < 0 || i >= params.len() {
        params.len() as int
    } else if is_rest_marker(params[i]) {
        i
    } else {
        marker_from(params, i + 1)
    }
}

/// The bindings of `start` after binding each of the first `k` parameters to the
/// argument at its position, in order.
pub open spec fn bound_upto(
    params: Seq<SymbolView>,
    args: Seq<ValueView>,
    start: Map<ValueView, ValueView>,
    k: int,
) -> Map<ValueView, ValueView>
    decreases k,
{
    if k <= 0 {
        start
    } else {
        bound_upto(params, args, start, k - 1).insert(frame_key(params[k - 1]), args[k - 1])
    }
}

/// The message for a marker `&` among parameters that do not end in `&` and one
/// parameter.
pub open spec fn misplaced_marker_text() -> Seq<char> {
    "Invalid function argument '&' in non-variable-argument function definition"@
}

/// What binding `params` to `args` gives.
///
/// Parameters that do not end in `&` and one more take as many arguments as
/// they are, and none of them may be `&`: the frame binds each to its argument.
/// Parameters that do end so take any number of arguments. The last parameter
/// starts out bound to nil. The parameters before the first `&` are bound to the
/// arguments at their positions as far as arguments are given, and where
/// arguments are left at the position of that `&`, the parameter after it is
/// bound to the list of them.
pub open spec fn binds(
    params: Seq<SymbolView>,
    args: Seq<ValueView>,
    r: Result<PersistentMap, Value>,
) -> bool {
    let n = params.len() as int;
    let m = marker_from(params, 0);
    let start = if variadic(params) {
        Map::<ValueView, ValueView>::empty().insert(frame_key(params[n - 1]), ValueView::Nil)
    } else {
        Map::<ValueView, ValueView>::empty()
    };
    if !variadic(params) && args.len() != n {
        r is Err && r->Err_0@ == ValueView::Condition(
            wrong_arg_count_text(n as nat, args.len()),
        )
    } else if !variadic(params) && m < n {
        r is Err && r->Err_0@ == ValueView::Condition(misplaced_marker_text())
    } else if args.len() <= m {
        r is Ok && r->Ok_0@ == bound_upto(params, args, start, args.len() as int)
    } else {
        let rest_key = frame_key(params[m + 1]);
        &&& r is Ok
        &&& r->Ok_0@.contains_key(rest_key)
        &&& r->Ok_0@[rest_key] matches ValueView::List(rest) && rest@ == args.subrange(
            m,
            args.len() as int,
        )
        &&& r->Ok_0@.remove(rest_key) == bound_upto(params, args, start, m).remove(rest_key)
    }
}

/// Whether arguments fit parameters: parameters that end in `&` and one more
/// take any arguments, and others take as many arguments as they are and hold no
/// `&`.
pub open spec fn fits(params: Seq<SymbolView>, args: Seq<ValueView>) -> bool {
    variadic(params) || (args.len() == params.len() && marker_from(params, 0) >= params.len())
}

fn is_marker(sym: &Symbol) -> (r: bool)
    ensures
        r == is_rest_marker(sym@),
{
    sym.ns.is_none() && str_eq(sym.name.as_str(), "&")
}

impl Lambda {
    /// The frame in which the body of the closure is evaluated for the arguments
    /// `args`, or the condition that says why they do not fit.
    pub fn bind(&self, args: &Vec<Rc<Value>>) -> (r: Result<PersistentMap, Value>)
        ensures
            binds(symbol_views(self.params@), views(args@), r),
    {
        let n = self.params.len();
        let ghost params = symbol_views(self.params@);
        let ghost given = views(args@);
        let is_variadic = n >= 2 && is_marker(&self.params[n - 2]);
        if !is_variadic && args.len() != n {
            return Err(wrong_arg_count(n, args.len()));
        }
        let mut frame = PersistentMap::empty();
        if is_variadic {
            frame = frame.conj(
                MapEntry::new(
                    Rc::new(Value::Symbol(self.params[n - 1].clone())),
                    Rc::new(Value::Nil),
                ),
            );
        }
        let ghost start = frame@;
        let mut i: usize = 0;
        proof {
            if is_variadic {
                assert(params[n - 1] == self.params@[n - 1]@);
                assert(start == Map::<ValueView, ValueView>::empty().insert(
                    frame_key(params[n - 1]),
                    ValueView::Nil,
                ));
            }
            lemma_marker_range(params, 0);
            if is_variadic {
                lemma_marker_bound(params, 0);
            }
        }
        while i < args.len()
            invariant
                i <= args.len(),
                n == self.params@.len(),
                is_variadic ==> marker_from(params, 0) <= n - 2,
                params == symbol_views(self.params@),
                given == views(args@),
                is_variadic == variadic(params),
                is_variadic || args.len() == n,
                marker_from(params, 0) == marker_from(params, i as int),
                i <= marker_from(params, 0),
                start == (if variadic(params) {
                    Map::<ValueView, ValueView>::empty().insert(
                        frame_key(params[n - 1]),
                        ValueView::Nil,
                    )
                } else {
                    Map::<ValueView, ValueView>::empty()
                }),
                frame@ == bound_upto(params, given, start, i as int),
            decreases args.len() - i,
        {
            proof {
                lemma_marker_range(params, i + 1);
            }
            let curr_sym = &self.params[i];
            if is_marker(curr_sym) {
                if !is_variadic {
                    return Err(custom(
                        "Invalid function argument '&' in non-variable-argument function definition",
                    ));
                }
                let mut rest: Vec<Rc<Value>> = Vec::new();
                let mut j: usize = i;
                while j < args.len()
                    invariant
                        i <= j <= args.len(),
                        rest@ == args@.subrange(i as int, j as int),
                    decreases args.len() - j,
                {
                    rest.push(rc_clone(&args[j]));
                    assert(args@.subrange(i as int, j as int).push(args@[j as int]) =~= args@.subrange(
                        i as int,
                        j + 1,
                    ));
                    j += 1;
                }
                let rest_list = List::from_vec(rest);
                assert(views(args@.subrange(i as int, args.len() as int)) =~= given.subrange(
                    i as int,
                    args.len() as int,
                ));
                let ghost before = frame@;
                let rest_key = Rc::new(Value::Symbol(self.params[i + 1].clone()));
                frame = frame.conj(MapEntry::new(rest_key, Rc::new(Value::List(rest_list))));
                assert(frame@.remove(rest_key@) =~= before.remove(rest_key@));
                assert(marker_from(params, 0) == i);
                assert(rest_key@ == frame_key(params[i + 1]));
                assert(frame@.contains_key(rest_key@));
                assert(frame@[rest_key@] == ValueView::List(rest_list));
                assert(rest_list@ == given.subrange(i as int, args.len() as int));
                return Ok(frame);
            }
            frame = frame.conj(
                MapEntry::new(Rc::new(Value::Symbol(curr_sym.clone())), rc_clone(&args[i])),
            );
            i += 1;
        }
        proof {
            if !is_variadic {
                lemma_marker_is_end(params, i as int);
            }
        }
        Ok(frame)
    }
}

/// Parameters that end in `&` and one more have their first `&` before the last
/// parameter.
pub proof fn lemma_marker_bound(params: Seq<SymbolView>, i: int)
    requires
        variadic(params),
        0 <= i <= params.len() - 2,
    ensures
        marker_from(params, i) <= params.len() - 2,
    decreases params.len() - i,
{
    if !is_rest_marker(params[i]) {
        lemma_marker_bound(params, i + 1);
    }
}

/// The first `&` at or after a position stands at or after that position.
pub proof fn lemma_marker_range(params: Seq<SymbolView>, i: int)
    requires
        0 <= i,
    ensures
        i <= marker_from(params, i) || marker_from(params, i) == params.len(),
        marker_from(params, i) <= params.len(),
    decreases params.len() - i,
{
    if i < params.len() && !is_rest_marker(params[i]) {
        lemma_marker_range(params, i + 1);
    }
}

/// A search for `&` that starts at the end, or was not stopped before it, finds
/// none.
pub proof fn lemma_marker_is_end(params: Seq<SymbolView>, i: int)
    requires
        i >= params.len(),
    ensures
        marker_from(params, i) == params.len(),
{
}

} // verus!
