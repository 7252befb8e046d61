//! Scoping: what an evaluation can and cannot change.
//!
//! An evaluation changes no local frame of the environment it starts in. What
//! it binds lastingly it binds in the namespaces: `def` beneath any number of
//! local frames leaves every one of them as it was.
use crate::environment::Environment;
use crate::namespace::target_ns;
use crate::semantics::applies_to_list;
use crate::semantics::binds_each;
use crate::semantics::calls;
use crate::semantics::calls_each;
use crate::semantics::chooses;
use crate::semantics::chosen;
use crate::semantics::closes;
use crate::semantics::def_value;
use crate::semantics::defined;
use crate::semantics::defines;
use crate::semantics::defines_macro;
use crate::semantics::entered;
use crate::semantics::evaluates;
use crate::semantics::evaluates_each;
use crate::semantics::evaluates_last;
use crate::semantics::evaluates_text;
use crate::semantics::invokes;
use crate::semantics::lets;
use crate::semantics::loads;
use crate::semantics::maps;
use crate::semantics::reads_forms;
use crate::types::PersistentMap;
use crate::types::views;
use crate::reader::denotes;
use crate::reader::parse_form;
use crate::reader::Parsed;
use crate::reader::MAX_NESTING;
use crate::value::Builtin;
use crate::value::Callable;
use crate::value::Value;
use crate::value::ValueView;
use std::rc::Rc;
use vstd::prelude::*;

verus! {

/// Whether two environments have the same frames but for the innermost, which
/// either has or neither.
pub open spec fn same_outer_frames(a: Environment, b: Environment) -> bool {
    a.frames().len() == b.frames().len() && a.frames().skip(1) == b.frames().skip(1)
}

/// An evaluation changes no frame.
pub proof fn lemma_evaluation_keeps_frames(
    before: Environment,
    value: Rc<Value>,
    depth: nat,
    after: Environment,
    r: Rc<Value>,
)
    requires
        evaluates(before, value, depth, after, r),
    ensures
        after.frames() == before.frames(),
    decreases depth, 0nat, 0nat,
{
    match *value {
        Value::Vector(vector) => {
            if depth > 0 {
                let (forms, evaled) = choose|forms: Seq<Rc<Value>>, evaled: Seq<Rc<Value>>|
                    #[trigger] chosen((forms, evaled)) && evaluates_each(
                        before,
                        forms,
                        0,
                        forms.len(),
                        (depth - 1) as nat,
                        after,
                        evaled,
                    ) && views(forms) == vector@;
                lemma_each_keeps_frames(
                    before,
                    forms,
                    0,
                    forms.len(),
                    (depth - 1) as nat,
                    after,
                    evaled,
                );
            }
        },
        Value::List(list) => {
            if list@.len() > 0 && depth > 0 {
                let (forms, mid, head) = choose|
                    forms: Seq<Rc<Value>>,
                    mid: Environment,
                    head: Rc<Value>,
                | #[trigger]
                    chosen((forms, mid, head)) && evaluates(
                        before,
                        forms[0],
                        (depth - 1) as nat,
                        mid,
                        head,
                    ) && views(forms) == list@ && applies_to_list(
                        mid,
                        head,
                        forms.subrange(1, forms.len() as int),
                        (depth - 1) as nat,
                        after,
                        r,
                    );
                lemma_evaluation_keeps_frames(before, forms[0], (depth - 1) as nat, mid, head);
                lemma_application_keeps_frames(
                    mid,
                    head,
                    forms.subrange(1, forms.len() as int),
                    (depth - 1) as nat,
                    after,
                    r,
                );
            }
        },
        _ => {},
    }
}

/// Evaluating forms one after the other changes no frame.
pub proof fn lemma_each_keeps_frames(
    before: Environment,
    forms: Seq<Rc<Value>>,
    from: int,
    count: nat,
    depth: nat,
    after: Environment,
    results: Seq<Rc<Value>>,
)
    requires
        evaluates_each(before, forms, from, count, depth, after, results),
    ensures
        after.frames() == before.frames(),
    decreases depth, 1nat, count,
{
    if count > 0 {
        let mid = choose|mid: Environment| #[trigger]
            chosen(mid) && evaluates_each(
                before,
                forms,
                from,
                (count - 1) as nat,
                depth,
                mid,
                results.drop_last(),
            ) && evaluates(mid, forms[from + count - 1], depth, after, results.last());
        lemma_each_keeps_frames(
            before,
            forms,
            from,
            (count - 1) as nat,
            depth,
            mid,
            results.drop_last(),
        );
        lemma_evaluation_keeps_frames(mid, forms[from + count - 1], depth, after, results.last());
    }
}

/// Evaluating forms for the outcome of the last changes no frame.
pub proof fn lemma_last_keeps_frames(
    before: Environment,
    forms: Seq<Rc<Value>>,
    from: int,
    depth: nat,
    after: Environment,
    r: Rc<Value>,
)
    requires
        evaluates_last(before, forms, from, depth, after, r),
    ensures
        after.frames() == before.frames(),
    decreases depth, 2nat, 0nat,
{
    if 0 <= from < forms.len() {
        let results = choose|results: Seq<Rc<Value>>| #[trigger]
            chosen(results) && evaluates_each(
                before,
                forms,
                from,
                (forms.len() - from) as nat,
                depth,
                after,
                results,
            ) && r == results.last();
        lemma_each_keeps_frames(
            before,
            forms,
            from,
            (forms.len() - from) as nat,
            depth,
            after,
            results,
        );
    }
}

/// Calling a function on one value after the other changes no frame.
pub proof fn lemma_calls_each_keep_frames(
    before: Environment,
    f: Callable,
    items: Seq<Rc<Value>>,
    count: nat,
    depth: nat,
    after: Environment,
    results: Seq<Rc<Value>>,
)
    requires
        calls_each(before, f, items, count, depth, after, results),
    ensures
        after.frames() == before.frames(),
    decreases depth, 13nat, count,
{
    if count > 0 {
        let mid = choose|mid: Environment| #[trigger]
            chosen(mid) && calls_each(
                before,
                f,
                items,
                (count - 1) as nat,
                depth,
                mid,
                results.drop_last(),
            ) && calls(mid, f, seq![items[count - 1]], depth, after, results.last());
        lemma_calls_each_keep_frames(
            before,
            f,
            items,
            (count - 1) as nat,
            depth,
            mid,
            results.drop_last(),
        );
        lemma_call_keeps_frames(mid, f, seq![items[count - 1]], depth, after, results.last());
    }
}

/// Reading and evaluating the forms of a text changes no frame.
pub proof fn lemma_reading_keeps_frames(
    before: Environment,
    chars: Seq<char>,
    n: nat,
    depth: nat,
    pos: int,
    now: Environment,
    last: Option<Value>,
)
    requires
        reads_forms(before, chars, n, depth, pos, now, last),
    ensures
        now.frames() == before.frames(),
    decreases depth, 6nat, n,
{
    if n > 0 {
        let (at, mid, prev, form, val) = choose|
            at: int,
            mid: Environment,
            prev: Option<Value>,
            form: Rc<Value>,
            val: Rc<Value>,
        | #[trigger]
            chosen((at, mid, prev, form, val)) && reads_forms(
                before,
                chars,
                (n - 1) as nat,
                depth,
                at,
                mid,
                prev,
            ) && evaluates(mid, form, depth, now, val) && (parse_form(
                chars,
                at,
                MAX_NESTING as nat,
            ) matches Parsed::Form(written, end) && end == pos && denotes(written, form@))
                && last == Some(*val);
        lemma_reading_keeps_frames(before, chars, (n - 1) as nat, depth, at, mid, prev);
        lemma_evaluation_keeps_frames(mid, form, depth, now, val);
    }
}

/// Evaluating a text changes no frame.
pub proof fn lemma_text_keeps_frames(
    before: Environment,
    chars: Seq<char>,
    depth: nat,
    after: Environment,
    r: Option<Value>,
)
    requires
        evaluates_text(before, chars, depth, after, r),
    ensures
        after.frames() == before.frames(),
    decreases depth, 7nat, 0nat,
{
    let (n, pos, last) = choose|n: nat, pos: int, last: Option<Value>| #[trigger]
        chosen((n, pos, last)) && reads_forms(before, chars, n, depth, pos, after, last) && (
        match parse_form(chars, pos, MAX_NESTING as nat) {
            Parsed::End => r == last,
            Parsed::Bad(msg) => r is Some && r->0@ == ValueView::Condition(msg),
            Parsed::Form(_, _) => false,
        });
    lemma_reading_keeps_frames(before, chars, n, depth, pos, after, last);
}

/// A call changes no frame.
pub proof fn lemma_call_keeps_frames(
    before: Environment,
    callable: Callable,
    args: Seq<Rc<Value>>,
    depth: nat,
    after: Environment,
    r: Rc<Value>,
)
    requires
        calls(before, callable, args, depth, after, r),
    ensures
        after.frames() == before.frames(),
    decreases depth, 9nat, 0nat,
{
    match callable {
        Callable::Builtin(b) => {
            if b == Builtin::MapFn {
                if args.len() == 2 && crate::semantics::maps(before, args, depth, after, r) {
                    match *args[1] {
                        Value::List(_) => match *args[0] {
                            Value::IFn(f) => {
                                if depth > 0 {
                                    let (items, results) = choose|
                                        items: Seq<Rc<Value>>,
                                        results: Seq<Rc<Value>>,
                                    | #[trigger]
                                        chosen((items, results)) && calls_each(
                                            before,
                                            f,
                                            items,
                                            items.len(),
                                            (depth - 1) as nat,
                                            after,
                                            results,
                                        );
                                    lemma_calls_each_keep_frames(
                                        before,
                                        f,
                                        items,
                                        items.len(),
                                        (depth - 1) as nat,
                                        after,
                                        results,
                                    );
                                }
                            },
                            _ => {},
                        },
                        _ => {},
                    }
                }
            } else if b == Builtin::LoadFileFn {
                if crate::semantics::asked_path(args, depth) is Ok {
                    let read = choose|read: Result<String, String>| #[trigger]
                        chosen(read) && crate::semantics::loaded(
                            before,
                            read,
                            (depth - 1) as nat,
                            after,
                            r,
                        );
                    match read {
                        Ok(text) => {
                            let outcome = choose|outcome: Option<Value>| #[trigger]
                                chosen(outcome) && evaluates_text(
                                    before,
                                    text@,
                                    (depth - 1) as nat,
                                    after,
                                    outcome,
                                ) && *r == (match outcome {
                                    Some(val) => val,
                                    None => Value::Nil,
                                });
                            lemma_text_keeps_frames(
                                before,
                                text@,
                                (depth - 1) as nat,
                                after,
                                outcome,
                            );
                        },
                        Err(_) => {},
                    }
                }
            } else if b == Builtin::EvalFn {
                if args.len() == 1 && depth > 0 {
                    lemma_evaluation_keeps_frames(before, args[0], (depth - 1) as nat, after, r);
                }
            }
        },
        Callable::Host(_) => {},
        Callable::Lambda(lambda) => {},
    }
}

/// The bindings of a `let` change no frame but the innermost.
pub proof fn lemma_bindings_keep_outer_frames(
    before: Environment,
    bindings: Seq<Rc<Value>>,
    count: nat,
    depth: nat,
    now: Environment,
)
    requires
        binds_each(before, bindings, count, depth, now),
    ensures
        same_outer_frames(now, before),
    decreases depth, 10nat, count,
{
    if count > 0 {
        let (mid, evaled, val) = choose|mid: Environment, evaled: Environment, val: Rc<Value>|
            #[trigger] chosen((mid, evaled, val)) && binds_each(
                before,
                bindings,
                (count - 1) as nat,
                depth,
                mid,
            ) && evaluates(mid, bindings[2 * count - 1], depth, evaled, val) && (
            match bindings[2 * count - 2]@ {
                ValueView::Symbol(sym) => Environment::after_insert(evaled, now, sym, val),
                _ => now == evaled,
            });
        lemma_bindings_keep_outer_frames(before, bindings, (count - 1) as nat, depth, mid);
        lemma_evaluation_keeps_frames(mid, bindings[2 * count - 1], depth, evaled, val);
        match bindings[2 * count - 2]@ {
            ValueView::Symbol(sym) => {
                match evaled {
                    Environment::MainEnvironment(_) => {
                        assert(now.frames() =~= evaled.frames());
                    },
                    Environment::LocalEnvironment(parent, frame) => {
                        assert(now.frames().skip(1) =~= parent.frames());
                        assert(evaled.frames().skip(1) =~= parent.frames());
                    },
                }
            },
            _ => {},
        }
    }
}

/// The application of a head to forms changes no frame.
pub proof fn lemma_application_keeps_frames(
    before: Environment,
    head: Rc<Value>,
    args: Seq<Rc<Value>>,
    depth: nat,
    after: Environment,
    r: Rc<Value>,
)
    requires
        applies_to_list(before, head, args, depth, after, r),
    ensures
        after.frames() == before.frames(),
    decreases depth, 12nat, 0nat,
{
    match *head {
        Value::IFn(callable) => {
            let (mid, evaled) = choose|mid: Environment, evaled: Seq<Rc<Value>>| #[trigger]
                chosen((mid, evaled)) && evaluates_each(
                    before,
                    args,
                    0,
                    args.len(),
                    depth,
                    mid,
                    evaled,
                ) && calls(mid, callable, evaled, depth, after, r);
            lemma_each_keeps_frames(before, args, 0, args.len(), depth, mid, evaled);
            lemma_call_keeps_frames(mid, callable, evaled, depth, after, r);
        },
        Value::LexicalEvalFn => {
            if args.len() == 1 {
                let (mid, form) = choose|mid: Environment, form: Rc<Value>| #[trigger]
                    chosen((mid, form)) && evaluates(before, args[0], depth, mid, form)
                        && evaluates(mid, form, depth, after, r);
                lemma_evaluation_keeps_frames(before, args[0], depth, mid, form);
                lemma_evaluation_keeps_frames(mid, form, depth, after, r);
            }
        },
        Value::Macro(callable) => {
            let (mid, expansion) = choose|mid: Environment, expansion: Rc<Value>| #[trigger]
                chosen((mid, expansion)) && calls(before, callable, args, depth, mid, expansion)
                    && evaluates(mid, expansion, depth, after, r);
            lemma_call_keeps_frames(before, callable, args, depth, mid, expansion);
            lemma_evaluation_keeps_frames(mid, expansion, depth, after, r);
        },
        Value::DefMacro => {
            if args.len() == 1 || args.len() == 2 {
                let (mid, val) = choose|mid: Environment, val: Rc<Value>| #[trigger]
                    chosen((mid, val)) && def_value(before, args, depth, mid, val) && (
                    match *args[0] {
                        Value::Symbol(sym) => defined(mid, sym@, val, after) && r == args[0],
                        _ => after == mid && crate::semantics::fails_with(
                            r,
                            "First argument to def must be a symbol"@,
                        ),
                    });
                if args.len() == 2 {
                    lemma_evaluation_keeps_frames(before, args[1], depth, mid, val);
                }
            }
        },
        Value::DefmacroMacro => {
            if args.len() >= 2 {
                let made = choose|made: Rc<Value>| #[trigger]
                    chosen(made) && closes(before, args.subrange(1, args.len() as int), made)
                        && (match *made {
                        Value::IFn(callable) => match *args[0] {
                            Value::Symbol(sym) => exists|bound: Rc<Value>| #[trigger]
                                chosen(bound) && defined(before, sym@, bound, after) && *bound
                                    == Value::Macro(callable) && r == args[0],
                            _ => after == before && crate::semantics::fails_with(
                                r,
                                "First argument to def must be a symbol"@,
                            ),
                        },
                        _ => after == before && r == made,
                    });
            }
        },
        Value::LetMacro => {
            if args.len() > 0 {
                match args[0]@ {
                    ValueView::Vector(vector) => {
                        if vector@.len() % 2 == 0 {
                            let (bindings, frame, bound, left) = choose|
                                bindings: Seq<Rc<Value>>,
                                frame: PersistentMap,
                                bound: Environment,
                                left: Environment,
                            | #[trigger]
                                chosen((bindings, frame, bound, left)) && binds_each(
                                    entered(before, frame),
                                    bindings,
                                    bindings.len() / 2,
                                    depth,
                                    bound,
                                ) && evaluates_last(bound, args, 1, depth, left, r) && views(
                                    bindings,
                                ) == vector@ && frame@ == Map::<ValueView, ValueView>::empty()
                                    && (left matches Environment::LocalEnvironment(under, _)
                                    && after == *under);
                            lemma_bindings_keep_outer_frames(
                                entered(before, frame),
                                bindings,
                                bindings.len() / 2,
                                depth,
                                bound,
                            );
                            lemma_last_keeps_frames(bound, args, 1, depth, left, r);
                            assert(entered(before, frame).frames().skip(1) =~= before.frames());
                            assert(left.frames().skip(1) =~= after.frames());
                        }
                    },
                    _ => {},
                }
            }
        },
        Value::IfMacro => {
            if args.len() == 2 || args.len() == 3 {
                let (mid, test) = choose|mid: Environment, test: Rc<Value>| #[trigger]
                    chosen((mid, test)) && evaluates(before, args[0], depth, mid, test) && (if !(
                    test@ is Nil || test@ == ValueView::Boolean(false)) {
                        evaluates(mid, args[1], depth, after, r)
                    } else if args.len() == 3 {
                        evaluates(mid, args[2], depth, after, r)
                    } else {
                        after == mid && *r == Value::Nil
                    });
                lemma_evaluation_keeps_frames(before, args[0], depth, mid, test);
                if !(test@ is Nil || test@ == ValueView::Boolean(false)) {
                    lemma_evaluation_keeps_frames(mid, args[1], depth, after, r);
                } else if args.len() == 3 {
                    lemma_evaluation_keeps_frames(mid, args[2], depth, after, r);
                }
            }
        },
        _ => {},
    }
}

/// A `def` binds its symbol in the namespaces, in the current namespace or in
/// the symbol's own, whatever local frames it is evaluated beneath.
pub proof fn lemma_def_binds_in_the_namespaces(
    before: Environment,
    args: Seq<Rc<Value>>,
    depth: nat,
    after: Environment,
    r: Rc<Value>,
)
    requires
        defines(before, args, depth, after, r),
        args.len() == 1 || args.len() == 2,
        args[0]@ is Symbol,
    ensures
        r == args[0],
        after.frames() == before.frames(),
        ({
            let sym = args[0]@->Symbol_0;
            after.main_val().namespaces.direct(
                target_ns(after.main_val().curr_ns_sym@, sym),
                sym.name,
            ) is Some
        }),
{
    lemma_application_keeps_frames(before, Rc::new(Value::DefMacro), args, depth, after, r);
}

} // verus!
