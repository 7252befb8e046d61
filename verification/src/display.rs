//! How values are written.
//!
//! A value has two written forms. The print form is for a reader of the output:
//! a string is written as its characters. The explicit form is the one in which
//! a value stands inside a printed collection: there a string stands in double
//! quotes and a character after a backslash.
use crate::semantics::chosen;
use crate::symbol::symbol_text;
use crate::text::signed_decimal;
use crate::text::signed_decimal_string;
use crate::types::views;
use crate::value::Value;
use crate::value::ValueView;
use std::rc::Rc;
use vstd::prelude::*;

verus! {

/// How many collections may be written one inside the other. A collection that
/// lies deeper is written as `#`.
pub const PRINT_LEVEL: usize = 64;

/// The written form of a value: the explicit one if `explicit` holds, else the
/// print form. `level` says how many collections may still be written one
/// inside the other. A map that is not empty has no one written form, because
/// the order of its bindings is not fixed; nor has a collection that holds
/// such a map. What is written of these, `written` says.
pub open spec fn shown(v: ValueView, explicit: bool, level: nat) -> Option<Seq<char>>
    decreases level, 0nat, 0nat,
{
    match v {
        ValueView::Nil => Some("nil"@),
        ValueView::Boolean(b) => Some(
            if b {
                "true"@
            } else {
                "false"@
            },
        ),
        ValueView::I32(i) => Some(signed_decimal(i as int)),
        ValueView::Char(c) => Some(
            if explicit {
                seq!['\\', c]
            } else {
                seq![c]
            },
        ),
        ValueView::String(s) => Some(
            if explicit {
                seq!['"'] + s + seq!['"']
            } else {
                s
            },
        ),
        ValueView::Keyword(k) => Some(seq![':'] + symbol_text(k)),
        ValueView::Symbol(s) => Some(symbol_text(s)),
        ValueView::List(list) => if list@.len() == 0 {
            Some("()"@)
        } else if level == 0 {
            Some("#"@)
        } else {
            match shown_items(list@, (level - 1) as nat, list@.len()) {
                Some(inner) => Some(seq!['('] + inner + seq![')']),
                None => None,
            }
        },
        ValueView::Vector(vector) => if vector@.len() == 0 {
            Some("[]"@)
        } else if level == 0 {
            Some("#"@)
        } else {
            match shown_items(vector@, (level - 1) as nat, vector@.len()) {
                Some(inner) => Some(seq!['['] + inner + seq![']']),
                None => None,
            }
        },
        ValueView::PersistentMap(map) => if map.size() == 0 {
            Some("{}"@)
        } else if level == 0 {
            Some("#"@)
        } else {
            None
        },
        ValueView::IFn(_) => Some("#function[]"@),
        ValueView::LexicalEvalFn => Some("#function[lexical-eval*]"@),
        ValueView::Macro(_) => Some("#macro[]"@),
        ValueView::QuoteMacro => Some("#macro[quote*]"@),
        ValueView::DefMacro => Some("#macro[def*]"@),
        ValueView::FnMacro => Some("#macro[fn*]"@),
        ValueView::DefmacroMacro => Some("#macro[defmacro*]"@),
        ValueView::IfMacro => Some("#macro[if*]"@),
        ValueView::LetMacro => Some("#macro[let*]"@),
        ValueView::Var(var) => Some("#'"@ + symbol_text(var.sym)),
        ValueView::Condition(msg) => Some(msg),
    }
}

/// The explicit forms of the first `k` of `items`, separated by one blank.
pub open spec fn shown_items(items: Seq<ValueView>, level: nat, k: nat) -> Option<Seq<char>>
    decreases level, 1nat, k,
{
    if k == 0 || k > items.len() {
        Some(Seq::empty())
    } else {
        match (shown_items(items, level, (k - 1) as nat), shown(items[k - 1], true, level)) {
            (Some(before), Some(item)) => Some(
                if k == 1 {
                    item
                } else {
                    before + seq![' '] + item
                },
            ),
            _ => None,
        }
    }
}

/// The first `k` of `texts`, separated by one blank.
pub open spec fn joined(texts: Seq<Seq<char>>, k: nat) -> Seq<char>
    decreases k,
{
    if k == 0 || k > texts.len() {
        Seq::empty()
    } else if k == 1 {
        texts[0]
    } else {
        joined(texts, (k - 1) as nat) + seq![' '] + texts[k - 1]
    }
}

/// The first `k` of `keys`, each with a blank and the text at its position in
/// `vals`, separated by a comma and a blank.
pub open spec fn joined_pairs(keys: Seq<Seq<char>>, vals: Seq<Seq<char>>, k: nat) -> Seq<char>
    decreases k,
{
    if k == 0 || k > keys.len() || k > vals.len() {
        Seq::empty()
    } else if k == 1 {
        keys[0] + seq![' '] + vals[0]
    } else {
        joined_pairs(keys, vals, (k - 1) as nat) + seq![',', ' '] + keys[k - 1] + seq![' ']
            + vals[k - 1]
    }
}

/// The views of the keys of pairs.
pub open spec fn pair_keys(pairs: Seq<(Rc<Value>, Rc<Value>)>) -> Seq<ValueView> {
    pairs.map_values(|pair: (Rc<Value>, Rc<Value>)| pair.0@)
}

/// The views of the values of pairs.
pub open spec fn pair_vals(pairs: Seq<(Rc<Value>, Rc<Value>)>) -> Seq<ValueView> {
    pairs.map_values(|pair: (Rc<Value>, Rc<Value>)| pair.1@)
}

/// Whether `text` is a written form of the value: the explicit one if
/// `explicit` holds, else the print form, with `level` collections to go.
///
/// A list that is not empty is written as the explicit forms of its values,
/// separated by blanks, between round brackets; a vector likewise between
/// square brackets. A map that is not empty is written between braces, as its
/// bindings in some order: each as the explicit forms of key and value with a
/// blank between them, separated by a comma and a blank. Everything else has
/// the one form that `shown` gives.
pub open spec fn written(v: ValueView, explicit: bool, level: nat, text: Seq<char>) -> bool
    decreases level, 0nat,
{
    match v {
        ValueView::List(list) => if list@.len() == 0 || level == 0 {
            shown(v, explicit, level) == Some(text)
        } else {
            exists|texts: Seq<Seq<char>>| #[trigger]
                chosen(texts) && written_each(list@, (level - 1) as nat, texts) && text == seq![
                    '(',
                ] + joined(texts, texts.len()) + seq![')']
        },
        ValueView::Vector(vector) => if vector@.len() == 0 || level == 0 {
            shown(v, explicit, level) == Some(text)
        } else {
            exists|texts: Seq<Seq<char>>| #[trigger]
                chosen(texts) && written_each(vector@, (level - 1) as nat, texts) && text
                    == seq!['['] + joined(texts, texts.len()) + seq![']']
        },
        ValueView::PersistentMap(map) => if map.size() == 0 || level == 0 {
            shown(v, explicit, level) == Some(text)
        } else {
            exists|
                pairs: Seq<(Rc<Value>, Rc<Value>)>,
                keys: Seq<Seq<char>>,
                vals: Seq<Seq<char>>,
            | #[trigger]
                chosen((pairs, keys, vals)) && crate::types::lists(map, pairs) && written_each(
                    pair_keys(pairs),
                    (level - 1) as nat,
                    keys,
                ) && written_each(pair_vals(pairs), (level - 1) as nat, vals) && text == seq![
                    '{',
                ] + joined_pairs(keys, vals, pairs.len()) + seq!['}']
        },
        _ => shown(v, explicit, level) == Some(text),
    }
}

/// Whether each of `texts` is an explicit form of the value at its position in
/// `items`.
pub open spec fn written_each(items: Seq<ValueView>, level: nat, texts: Seq<Seq<char>>) -> bool
    decreases level, 1nat,
{
    texts.len() == items.len() && forall|i: int|
        0 <= i < items.len() ==> written(items[i], true, level, #[trigger] texts[i])
}

/// What is joined of the first `k` texts does not depend on the texts after
/// them.
pub proof fn lemma_joined_prefix(a: Seq<Seq<char>>, b: Seq<Seq<char>>, k: nat)
    requires
        k <= a.len(),
        k <= b.len(),
        forall|j: int| 0 <= j < k ==> a[j] == b[j],
    ensures
        joined(a, k) == joined(b, k),
    decreases k,
{
    if k > 1 {
        lemma_joined_prefix(a, b, (k - 1) as nat);
    }
}

/// What is joined of the first `k` pairs of texts does not depend on the texts
/// after them.
pub proof fn lemma_joined_pairs_prefix(
    keys: Seq<Seq<char>>,
    vals: Seq<Seq<char>>,
    more_keys: Seq<Seq<char>>,
    more_vals: Seq<Seq<char>>,
    k: nat,
)
    requires
        k <= keys.len(),
        k <= vals.len(),
        k <= more_keys.len(),
        k <= more_vals.len(),
        forall|j: int| 0 <= j < k ==> keys[j] == more_keys[j] && vals[j] == more_vals[j],
    ensures
        joined_pairs(keys, vals, k) == joined_pairs(more_keys, more_vals, k),
    decreases k,
{
    if k > 1 {
        lemma_joined_pairs_prefix(keys, vals, more_keys, more_vals, (k - 1) as nat);
    }
}

/// Where the first `n` items have a written form, so have the first `k` of
/// them.
pub proof fn lemma_shown_prefix(items: Seq<ValueView>, level: nat, k: nat, n: nat)
    requires
        k <= n <= items.len(),
        shown_items(items, level, n) is Some,
    ensures
        shown_items(items, level, k) is Some,
    decreases n - k,
{
    if k < n {
        lemma_shown_prefix(items, level, k + 1, n);
    }
}

fn show_items(items: &Vec<Rc<Value>>, level: usize) -> (r: (String, Ghost<Seq<Seq<char>>>))
    ensures
        shown_items(views(items@), level as nat, items@.len()) matches Some(text) ==> r.0@
            == text,
        written_each(views(items@), level as nat, r.1@),
        r.0@ == joined(r.1@, items@.len()),
    decreases level, 1nat,
{
    let mut out = String::new();
    let ghost given = views(items@);
    let ghost mut texts: Seq<Seq<char>> = Seq::empty();
    let mut i: usize = 0;
    while i < items.len()
        invariant
            i <= items.len(),
            given == views(items@),
            shown_items(given, level as nat, items@.len()) is Some ==> shown_items(
                given,
                level as nat,
                i as nat,
            ) == Some(out@),
            texts.len() == i,
            forall|j: int| 0 <= j < i ==> written(given[j], true, level as nat, #[trigger] texts[j]),
            out@ == joined(texts, i as nat),
        decreases items.len() - i,
    {
        proof {
            if shown_items(given, level as nat, items@.len()) is Some {
                lemma_shown_prefix(given, level as nat, (i + 1) as nat, items@.len());
            }
            reveal_strlit(" ");
            assert(" "@ =~= seq![' ']);
        }
        if i > 0 {
            out.append(" ");
        }
        let item = items[i].show(true, level);
        out.append(item.as_str());
        proof {
            let before = texts;
            texts = texts.push(item@);
            lemma_joined_prefix(before, texts, i as nat);
            if i == 0 {
                assert(Seq::<char>::empty() + item@ =~= item@);
                assert(out@ =~= item@);
            }
        }
        i += 1;
    }
    assert(views(items@).len() == items@.len());
    (out, Ghost(texts))
}

fn show_pairs(pairs: &Vec<(Rc<Value>, Rc<Value>)>, level: usize) -> (r: (
    String,
    Ghost<Seq<Seq<char>>>,
    Ghost<Seq<Seq<char>>>,
))
    ensures
        written_each(pair_keys(pairs@), level as nat, r.1@),
        written_each(pair_vals(pairs@), level as nat, r.2@),
        r.0@ == joined_pairs(r.1@, r.2@, pairs@.len()),
    decreases level, 1nat,
{
    let mut out = String::new();
    let ghost mut keys: Seq<Seq<char>> = Seq::empty();
    let ghost mut vals: Seq<Seq<char>> = Seq::empty();
    let mut i: usize = 0;
    while i < pairs.len()
        invariant
            i <= pairs.len(),
            keys.len() == i,
            vals.len() == i,
            forall|j: int|
                0 <= j < i ==> written(pair_keys(pairs@)[j], true, level as nat, #[trigger] keys[j]),
            forall|j: int|
                0 <= j < i ==> written(pair_vals(pairs@)[j], true, level as nat, #[trigger] vals[j]),
            out@ == joined_pairs(keys, vals, i as nat),
        decreases pairs.len() - i,
    {
        proof {
            reveal_strlit(" ");
            reveal_strlit(", ");
            assert(" "@ =~= seq![' ']);
            assert(", "@ =~= seq![',', ' ']);
        }
        let ghost before = out@;
        if i > 0 {
            out.append(", ");
        }
        let key = pairs[i].0.show(true, level);
        out.append(key.as_str());
        out.append(" ");
        let val = pairs[i].1.show(true, level);
        out.append(val.as_str());
        proof {
            let keys_before = keys;
            let vals_before = vals;
            keys = keys.push(key@);
            vals = vals.push(val@);
            lemma_joined_pairs_prefix(keys_before, vals_before, keys, vals, i as nat);
            if i == 0 {
                assert(out@ =~= key@ + seq![' '] + val@);
            } else {
                assert(out@ =~= before + seq![',', ' '] + key@ + seq![' '] + val@);
            }
        }
        i += 1;
    }
    (out, Ghost(keys), Ghost(vals))
}

fn wrap(open: &str, inner: String, close: &str) -> (r: String)
    ensures
        r@ == open@ + inner@ + close@,
{
    let mut out = String::from_str(open);
    out.append(inner.as_str());
    out.append(close);
    out
}

impl Value {
    /// The print form of the value.
    pub fn to_string(&self) -> (r: String)
        ensures
            shown(self@, false, PRINT_LEVEL as nat) matches Some(text) ==> r@ == text,
            written(self@, false, PRINT_LEVEL as nat, r@),
    {
        self.show(false, PRINT_LEVEL)
    }

    /// The explicit form of the value.
    pub fn to_string_explicit(&self) -> (r: String)
        ensures
            shown(self@, true, PRINT_LEVEL as nat) matches Some(text) ==> r@ == text,
            written(self@, true, PRINT_LEVEL as nat, r@),
    {
        self.show(true, PRINT_LEVEL)
    }

    /// The written form of the value: the explicit one if `explicit` holds, else
    /// the print form. A collection that lies more than `level` collections deep
    /// is written as `#`. The bindings of a map are written between braces, in no
    /// order that can be relied on.
    pub fn show(&self, explicit: bool, level: usize) -> (r: String)
        ensures
            shown(self@, explicit, level as nat) matches Some(text) ==> r@ == text,
            written(self@, explicit, level as nat, r@),
        decreases level, 0nat,
    {
        proof {
            reveal_strlit("{");
            reveal_strlit("}");
            assert("{"@ =~= seq!['{']);
            assert("}"@ =~= seq!['}']);
            reveal_strlit("\"");
            reveal_strlit("(");
            reveal_strlit(")");
            reveal_strlit("[");
            reveal_strlit("]");
            reveal_strlit("\\");
            assert("\""@ =~= seq!['"']);
            assert("("@ =~= seq!['(']);
            assert(")"@ =~= seq![')']);
            assert("["@ =~= seq!['[']);
            assert("]"@ =~= seq![']']);
            assert("\\"@ =~= seq!['\\']);
        }
        match self {
            Value::Nil => String::from_str("nil"),
            Value::Boolean(b) => if *b {
                String::from_str("true")
            } else {
                String::from_str("false")
            },
            Value::I32(i) => signed_decimal_string(*i),
            Value::Char(c) => {
                let mut out = String::new();
                if explicit {
                    out.append("\\");
                }
                crate::text::push_char(&mut out, *c);
                assert(out@ =~= if explicit {
                    seq!['\\', *c]
                } else {
                    seq![*c]
                });
                out
            },
            Value::String(s) => if explicit {
                wrap("\"", s.clone(), "\"")
            } else {
                s.clone()
            },
            Value::Keyword(k) => k.to_string(),
            Value::Symbol(s) => s.to_string(),
            Value::List(list) => {
                if list.is_empty() {
                    String::from_str("()")
                } else if level == 0 {
                    String::from_str("#")
                } else {
                    let items = list.to_vec();
                    assert(views(items@).len() == items@.len());
                    let (inner, Ghost(texts)) = show_items(&items, level - 1);
                    assert(chosen(texts));
                    wrap("(", inner, ")")
                }
            },
            Value::Vector(vector) => {
                if vector.is_empty() {
                    String::from_str("[]")
                } else if level == 0 {
                    String::from_str("#")
                } else {
                    let items = vector.to_vec();
                    assert(views(items@).len() == items@.len());
                    let (inner, Ghost(texts)) = show_items(&items, level - 1);
                    assert(chosen(texts));
                    wrap("[", inner, "]")
                }
            },
            Value::PersistentMap(map) => {
                if map.is_empty() {
                    String::from_str("{}")
                } else if level == 0 {
                    String::from_str("#")
                } else {
                    let pairs = map.pairs();
                    let (inner, Ghost(keys), Ghost(vals)) = show_pairs(&pairs, level - 1);
                    assert(chosen((pairs@, keys, vals)));
                    wrap("{", inner, "}")
                }
            },
            Value::IFn(_) => String::from_str("#function[]"),
            Value::LexicalEvalFn => String::from_str("#function[lexical-eval*]"),
            Value::Macro(_) => String::from_str("#macro[]"),
            Value::QuoteMacro => String::from_str("#macro[quote*]"),
            Value::DefMacro => String::from_str("#macro[def*]"),
            Value::FnMacro => String::from_str("#macro[fn*]"),
            Value::DefmacroMacro => String::from_str("#macro[defmacro*]"),
            Value::IfMacro => String::from_str("#macro[if*]"),
            Value::LetMacro => String::from_str("#macro[let*]"),
            Value::Var(var) => var.to_string(),
            Value::Condition(msg) => msg.clone(),
        }
    }
}

} // verus!
