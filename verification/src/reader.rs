//! The reader: from text to the values that the text writes.
//!
//! The text of one form is read at a time. Blanks, commas and comments (from `;`
//! to the end of the line) separate forms and mean nothing else. A form is a
//! list `( )`, a vector `[ ]` or a map `{ }` of forms, a string in double quotes,
//! a form after `'`, which stands for `(quote form)`, or a token: `nil`, `true`,
//! `false`, an integer, a keyword after `:`, a character after `\`, or else a
//! symbol.
use crate::keyword::Keyword;
use crate::rust_core::assoc::assoc_all;
use crate::symbol::interned;
use crate::symbol::Symbol;
use crate::symbol::SymbolView;
use crate::text::str_eq;
use crate::text::string_of;
use crate::traits::imap::IMap;
use crate::types::rc_clone;
use crate::types::views;
use crate::types::List;
use crate::types::PersistentMap;
use crate::types::Vector;
use crate::value::Value;
use crate::value::ValueView;
use std::rc::Rc;
use vstd::prelude::*;

verus! {

/// How deeply forms may nest in one another.
pub const MAX_NESTING: usize = 128;

/// What a text writes, before any value is made of it.
pub enum Sexp {
    /// A token or a string: a value that is no collection.
    Atom(ValueView),
    List(Seq<Sexp>),
    Vector(Seq<Sexp>),
    /// A map, by its keys and values in turn.
    Pairs(Seq<Sexp>),
    /// A form after `'`.
    Quote(Box<Sexp>),
}

/// What reading one form ends in.
pub enum Parsed {
    /// A form, and the position after it.
    Form(Sexp, int),
    /// Nothing but blanks and comments was left.
    End,
    /// The text is not well formed; the message says why.
    Bad(Seq<char>),
}

/// What reading the forms of a collection ends in.
pub enum ParsedSeq {
    /// The forms up to the closing delimiter, and the position after it.
    Forms(Seq<Sexp>, int),
    /// The text is not well formed; the message says why.
    Bad(Seq<char>),
}

/// Whether a character separates forms and means nothing else.
pub open spec fn is_blank(c: char) -> bool {
    c == ' ' || c == '\t' || c == '\n' || c == '\r' || c == ','
}

/// Whether a character ends a token.
pub open spec fn is_delimiter(c: char) -> bool {
    is_blank(c) || c == '(' || c == ')' || c == '[' || c == ']' || c == '{' || c == '}' || c
        == '"' || c == ';'
}

/// Whether a character is a decimal digit.
pub open spec fn is_digit(c: char) -> bool {
    '0' <= c <= '9'
}

/// The position of the first character at or after `pos` that belongs to a
/// form, or the length of the text where there is none. `in_comment` says
/// whether `pos` lies in a comment.
pub open spec fn skip_blank(chars: Seq<char>, pos: int, in_comment: bool) -> int
    decreases chars.len() - pos,
{
    if pos < 0 || pos >= chars.len() {
        chars.len() as int
    } else if in_comment {
        skip_blank(chars, pos + 1, chars[pos] != '\n')
    } else if is_blank(chars[pos]) {
        skip_blank(chars, pos + 1, false)
    } else if chars[pos] == ';' {
        skip_blank(chars, pos + 1, true)
    } else {
        pos
    }
}

/// The position of the first delimiter at or after `pos`, or the length of the
/// text where there is none.
pub open spec fn token_end(chars: Seq<char>, pos: int) -> int
    decreases chars.len() - pos,
{
    if pos < 0 || pos >= chars.len() {
        chars.len() as int
    } else if is_delimiter(chars[pos]) {
        pos
    } else {
        token_end(chars, pos + 1)
    }
}

/// Whether every character is a decimal digit.
pub open spec fn all_digits(s: Seq<char>) -> bool {
    forall|i: int| 0 <= i < s.len() ==> is_digit(#[trigger] s[i])
}

/// The number that decimal digits write.
pub open spec fn digits_value(s: Seq<char>) -> nat
    decreases s.len(),
{
    if s.len() == 0 {
        0
    } else {
        digits_value(s.drop_last()) * 10 + (s.last() as nat - '0' as nat) as nat
    }
}

/// Whether a token starts as a number does: with a digit, or with a sign and a
/// digit.
pub open spec fn looks_numeric(t: Seq<char>) -> bool {
    t.len() > 0 && (is_digit(t[0]) || (t.len() > 1 && (t[0] == '-' || t[0] == '+') && is_digit(
        t[1],
    )))
}

/// The value that a token writes, or the message that says why it writes none.
pub open spec fn atom_of(t: Seq<char>) -> Result<ValueView, Seq<char>> {
    if t == "nil"@ {
        Ok(ValueView::Nil)
    } else if t == "true"@ {
        Ok(ValueView::Boolean(true))
    } else if t == "false"@ {
        Ok(ValueView::Boolean(false))
    } else if t.len() > 0 && t[0] == ':' {
        if t.len() == 1 {
            Err("Invalid keyword"@)
        } else {
            Ok(ValueView::Keyword(interned(t.subrange(1, t.len() as int))))
        }
    } else if t.len() > 0 && t[0] == '\\' {
        if t.len() == 2 {
            Ok(ValueView::Char(t[1]))
        } else if t == "\\newline"@ {
            Ok(ValueView::Char('\n'))
        } else if t == "\\space"@ {
            Ok(ValueView::Char(' '))
        } else if t == "\\tab"@ {
            Ok(ValueView::Char('\t'))
        } else {
            Err("Invalid character literal"@)
        }
    } else if looks_numeric(t) {
        let signed = !is_digit(t[0]);
        let digits = if signed {
            t.subrange(1, t.len() as int)
        } else {
            t
        };
        if !all_digits(digits) {
            Err("Invalid number"@)
        } else if t[0] == '-' {
            if digits_value(digits) <= 0x8000_0000 {
                Ok(ValueView::I32((0 - digits_value(digits)) as i32))
            } else {
                Err("Number out of range"@)
            }
        } else if digits_value(digits) <= 0x7fff_ffff {
            Ok(ValueView::I32(digits_value(digits) as i32))
        } else {
            Err("Number out of range"@)
        }
    } else {
        Ok(ValueView::Symbol(interned(t)))
    }
}

/// What is read of a string whose opening quote has been passed: the characters
/// up to the closing quote, after `acc`, and the position after that quote. A
/// backslash before `n`, `t`, `"` or another backslash writes a line feed, a
/// tab, a quote or a backslash.
pub open spec fn parse_string(chars: Seq<char>, pos: int, acc: Seq<char>) -> Result<
    (Seq<char>, int),
    Seq<char>,
>
    decreases chars.len() - pos,
{
    if pos < 0 || pos >= chars.len() {
        Err("Unterminated string"@)
    } else if chars[pos] == '"' {
        Ok((acc, pos + 1))
    } else if chars[pos] == '\\' {
        if pos + 1 >= chars.len() {
            Err("Unterminated string"@)
        } else if chars[pos + 1] == 'n' {
            parse_string(chars, pos + 2, acc.push('\n'))
        } else if chars[pos + 1] == 't' {
            parse_string(chars, pos + 2, acc.push('\t'))
        } else if chars[pos + 1] == '"' {
            parse_string(chars, pos + 2, acc.push('"'))
        } else if chars[pos + 1] == '\\' {
            parse_string(chars, pos + 2, acc.push('\\'))
        } else {
            Err("Unsupported escape in string"@)
        }
    } else {
        parse_string(chars, pos + 1, acc.push(chars[pos]))
    }
}

/// The delimiter that closes what `open` opens.
pub open spec fn closer(open: char) -> char {
    if open == '(' {
        ')'
    } else if open == '[' {
        ']'
    } else {
        '}'
    }
}

/// What reading one form from position `pos` ends in. `depth` bounds how deeply
/// the form may nest.
pub open spec fn parse_form(chars: Seq<char>, pos: int, depth: nat) -> Parsed
    decreases depth, chars.len() - pos, 0nat,
{
    let p = skip_blank(chars, pos, false);
    if p < 0 || p >= chars.len() || p < pos {
        Parsed::End
    } else {
        let c = chars[p];
        if c == '(' || c == '[' || c == '{' {
            if depth == 0 {
                Parsed::Bad("Input is nested too deeply"@)
            } else {
                match parse_seq(chars, p + 1, closer(c), Seq::empty(), (depth - 1) as nat) {
                    ParsedSeq::Forms(items, end) => if c == '(' {
                        Parsed::Form(Sexp::List(items), end)
                    } else if c == '[' {
                        Parsed::Form(Sexp::Vector(items), end)
                    } else if items.len() % 2 == 0 {
                        Parsed::Form(Sexp::Pairs(items), end)
                    } else {
                        Parsed::Bad("Map literal must contain an even number of forms"@)
                    },
                    ParsedSeq::Bad(msg) => Parsed::Bad(msg),
                }
            }
        } else if c == ')' || c == ']' || c == '}' {
            Parsed::Bad("Unexpected closing delimiter"@)
        } else if c == '"' {
            match parse_string(chars, p + 1, Seq::empty()) {
                Ok((text, end)) => Parsed::Form(Sexp::Atom(ValueView::String(text)), end),
                Err(msg) => Parsed::Bad(msg),
            }
        } else if c == '\'' {
            if depth == 0 {
                Parsed::Bad("Input is nested too deeply"@)
            } else {
                match parse_form(chars, p + 1, (depth - 1) as nat) {
                    Parsed::Form(quoted, end) => Parsed::Form(Sexp::Quote(Box::new(quoted)), end),
                    Parsed::End => Parsed::Bad("Unexpected end of input"@),
                    Parsed::Bad(msg) => Parsed::Bad(msg),
                }
            }
        } else {
            let end = token_end(chars, p);
            match atom_of(chars.subrange(p, end)) {
                Ok(v) => Parsed::Form(Sexp::Atom(v), end),
                Err(msg) => Parsed::Bad(msg),
            }
        }
    }
}

/// What reading the forms of a collection from position `pos` ends in, after the
/// forms `acc` were read already: the forms up to the delimiter `close`.
pub open spec fn parse_seq(
    chars: Seq<char>,
    pos: int,
    close: char,
    acc: Seq<Sexp>,
    depth: nat,
) -> ParsedSeq
    decreases depth, chars.len() - pos, 1nat,
{
    let p = skip_blank(chars, pos, false);
    if p < 0 || p >= chars.len() || p < pos {
        ParsedSeq::Bad("Unexpected end of input"@)
    } else if chars[p] == close {
        ParsedSeq::Forms(acc, p + 1)
    } else {
        match parse_form(chars, p, depth) {
            Parsed::Form(item, end) => if p < end <= chars.len() {
                parse_seq(chars, end, close, acc.push(item), depth)
            } else {
                ParsedSeq::Bad("Unexpected end of input"@)
            },
            Parsed::End => ParsedSeq::Bad("Unexpected end of input"@),
            Parsed::Bad(msg) => ParsedSeq::Bad(msg),
        }
    }
}

/// Whether each of `items` is written by the form at its position.
pub open spec fn denotes_all(forms: Seq<Sexp>, items: Seq<ValueView>) -> bool
    decreases forms, 0nat,
{
    forms.len() == items.len() && forall|i: int|
        0 <= i < forms.len() ==> denotes(#[trigger] forms[i], items[i])
}

/// Whether the value `v` is what the form `form` writes. A list and a vector
/// hold what their forms write, in order. A map binds what each form at an even
/// position writes to what the form after it writes, a later binding of a key
/// taking the place of an earlier one. A quoted form is the list of the symbol
/// `quote` and what the form writes.
pub open spec fn denotes(form: Sexp, v: ValueView) -> bool
    decreases form, 1nat,
{
    match form {
        Sexp::Atom(atom) => v == atom,
        Sexp::List(forms) => v matches ValueView::List(list) && forms.len() == list@.len()
            && forall|i: int|
            0 <= i < forms.len() ==> denotes(#[trigger] forms[i], list@[i]),
        Sexp::Vector(forms) => v matches ValueView::Vector(vector) && forms.len()
            == vector@.len() && forall|i: int|
            0 <= i < forms.len() ==> denotes(#[trigger] forms[i], vector@[i]),
        Sexp::Pairs(forms) => v matches ValueView::PersistentMap(map) && exists|
            items: Seq<ValueView>,
        |
            forms.len() == items.len() && (forall|i: int|
                0 <= i < forms.len() ==> denotes(#[trigger] forms[i], items[i])) && map@
                == assoc_all(Map::<ValueView, ValueView>::empty(), items, 0),
        Sexp::Quote(quoted) => v matches ValueView::List(list) && list@.len() == 2 && list@[0]
            == ValueView::Symbol(SymbolView { name: "quote"@, ns: None }) && denotes(
            *quoted,
            list@[1],
        ),
    }
}

fn blank(c: char) -> (r: bool)
    ensures
        r == is_blank(c),
{
    c == ' ' || c == '\t' || c == '\n' || c == '\r' || c == ','
}

fn delimiter(c: char) -> (r: bool)
    ensures
        r == is_delimiter(c),
{
    blank(c) || c == '(' || c == ')' || c == '[' || c == ']' || c == '{' || c == '}' || c == '"'
        || c == ';'
}

fn digit(c: char) -> (r: bool)
    ensures
        r == is_digit(c),
{
    '0' <= c && c <= '9'
}

fn skip(chars: &Vec<char>, pos: usize) -> (p: usize)
    ensures
        p == skip_blank(chars@, pos as int, false),
        pos <= p <= chars@.len() || (pos > chars@.len() && p == chars@.len()),
        p < chars@.len() ==> !is_blank(chars@[p as int]) && chars@[p as int] != ';',
{
    let mut i: usize = pos;
    let mut in_comment = false;
    while i < chars.len()
        invariant
            pos <= i,
            skip_blank(chars@, pos as int, false) == skip_blank(chars@, i as int, in_comment),
        decreases chars.len() - i,
    {
        let c = chars[i];
        if in_comment {
            in_comment = c != '\n';
        } else if blank(c) {
        } else if c == ';' {
            in_comment = true;
        } else {
            return i;
        }
        i += 1;
    }
    chars.len()
}

fn find_token_end(chars: &Vec<char>, pos: usize) -> (e: usize)
    requires
        pos <= chars@.len(),
    ensures
        e == token_end(chars@, pos as int),
        pos <= e <= chars@.len(),
        pos < chars@.len() && !is_delimiter(chars@[pos as int]) ==> pos < e,
{
    let mut i: usize = pos;
    while i < chars.len() && !delimiter(chars[i])
        invariant
            pos <= i <= chars@.len(),
            token_end(chars@, pos as int) == token_end(chars@, i as int),
            pos < chars@.len() && !is_delimiter(chars@[pos as int]) && i == pos ==> i
                < chars@.len(),
        decreases chars.len() - i,
    {
        i += 1;
    }
    i
}

fn slice_of(chars: &Vec<char>, from: usize, to: usize) -> (r: Vec<char>)
    requires
        from <= to <= chars@.len(),
    ensures
        r@ == chars@.subrange(from as int, to as int),
{
    let mut out: Vec<char> = Vec::new();
    let mut i: usize = from;
    while i < to
        invariant
            from <= i <= to,
            to <= chars@.len(),
            out@ == chars@.subrange(from as int, i as int),
        decreases to - i,
    {
        out.push(chars[i]);
        assert(chars@.subrange(from as int, i as int).push(chars@[i as int]) =~= chars@.subrange(
            from as int,
            i + 1,
        ));
        i += 1;
    }
    out
}

/// The value of a longer run of digits is at least that of a run it starts
/// with.
proof fn lemma_digits_grow(s: Seq<char>, k: int)
    requires
        0 <= k <= s.len(),
    ensures
        digits_value(s.subrange(0, k)) <= digits_value(s),
    decreases s.len() - k,
{
    if k < s.len() {
        let next = s.subrange(0, k + 1);
        assert(next.drop_last() =~= s.subrange(0, k));
        lemma_digits_grow(s, k + 1);
    } else {
        assert(s.subrange(0, k) =~= s);
    }
}

fn read_number(tok: &Vec<char>) -> (r: Result<Value, String>)
    requires
        looks_numeric(tok@),
    ensures
        match atom_of(tok@) {
            Ok(v) => r is Ok && r->Ok_0@ == v,
            Err(msg) => r is Err && r->Err_0@ == msg,
        },
{
    proof {
        reveal_strlit("nil");
        reveal_strlit("true");
        reveal_strlit("false");
    }
    let signed = !digit(tok[0]);
    let negative = tok[0] == '-';
    let first: usize = if signed {
        1
    } else {
        0
    };
    let ghost digits = tok@.subrange(first as int, tok@.len() as int);
    proof {
        if !signed {
            assert(digits =~= tok@);
        }
        assert(tok@ != "nil"@);
        assert(tok@ != "true"@);
        assert(tok@ != "false"@);
        assert(tok@[0] != ':' && tok@[0] != '\\');
    }
    let mut value: u64 = 0;
    let mut over = false;
    let mut i: usize = first;
    assert(digits.subrange(0, 0) =~= Seq::<char>::empty());
    while i < tok.len()
        invariant
            first <= i <= tok@.len(),
            looks_numeric(tok@),
            signed == !is_digit(tok@[0]),
            first == (if signed {
                1usize
            } else {
                0usize
            }),
            !signed ==> digits == tok@,
            tok@ != "nil"@,
            tok@ != "true"@,
            tok@ != "false"@,
            tok@[0] != ':' && tok@[0] != '\\',
            digits == tok@.subrange(first as int, tok@.len() as int),
            all_digits(digits.subrange(0, i - first)),
            !over ==> value == digits_value(digits.subrange(0, i - first)) && value
                <= 0x8000_0000,
            over ==> digits_value(digits.subrange(0, i - first)) > 0x8000_0000,
        decreases tok.len() - i,
    {
        let c = tok[i];
        let ghost upto = digits.subrange(0, i - first + 1);
        proof {
            assert(upto.drop_last() =~= digits.subrange(0, i - first));
            assert(upto.last() == c);
        }
        if !digit(c) {
            proof {
                let k = i - first;
                assert(digits[k] == c);
                assert(0 <= k < digits.len());
                assert(!is_digit(digits[k]));
                assert(!all_digits(digits));
                assert(looks_numeric(tok@));
            }
            return Err(String::from_str("Invalid number"));
        }
        assert forall|j: int| 0 <= j < upto.len() implies is_digit(#[trigger] upto[j]) by {
            if j < upto.len() - 1 {
                assert(upto[j] == digits.subrange(0, i - first)[j]);
            }
        }
        if !over {
            let d: u64 = (c as u32 - '0' as u32) as u64;
            value = value * 10 + d;
            if value > 0x8000_0000 {
                over = true;
            }
        }
        i += 1;
    }
    assert(digits.subrange(0, tok@.len() - first) =~= digits);
    if negative {
        if over {
            Err(String::from_str("Number out of range"))
        } else {
            let magnitude: i64 = value as i64;
            Ok(Value::I32((0 - magnitude) as i32))
        }
    } else if over || value > 0x7fff_ffff {
        Err(String::from_str("Number out of range"))
    } else {
        Ok(Value::I32(value as i32))
    }
}

fn read_atom(tok: &Vec<char>) -> (r: Result<Value, String>)
    requires
        tok@.len() > 0,
    ensures
        match atom_of(tok@) {
            Ok(v) => r is Ok && r->Ok_0@ == v,
            Err(msg) => r is Err && r->Err_0@ == msg,
        },
{
    let text = string_of(tok);
    if str_eq(text.as_str(), "nil") {
        return Ok(Value::Nil);
    }
    if str_eq(text.as_str(), "true") {
        return Ok(Value::Boolean(true));
    }
    if str_eq(text.as_str(), "false") {
        return Ok(Value::Boolean(false));
    }
    let c = tok[0];
    if c == ':' {
        if tok.len() == 1 {
            return Err(String::from_str("Invalid keyword"));
        }
        let name = string_of(&slice_of(tok, 1, tok.len()));
        return Ok(Value::Keyword(Keyword::intern(name.as_str())));
    }
    if c == '\\' {
        if tok.len() == 2 {
            return Ok(Value::Char(tok[1]));
        }
        if str_eq(text.as_str(), "\\newline") {
            return Ok(Value::Char('\n'));
        }
        if str_eq(text.as_str(), "\\space") {
            return Ok(Value::Char(' '));
        }
        if str_eq(text.as_str(), "\\tab") {
            return Ok(Value::Char('\t'));
        }
        return Err(String::from_str("Invalid character literal"));
    }
    let numeric = digit(c) || (tok.len() > 1 && (c == '-' || c == '+') && digit(tok[1]));
    if numeric {
        return read_number(tok);
    }
    Ok(Value::Symbol(Symbol::intern(text.as_str())))
}

fn read_text(chars: &Vec<char>, pos: usize) -> (r: Result<(String, usize), String>)
    requires
        pos <= chars@.len(),
    ensures
        match parse_string(chars@, pos as int, Seq::empty()) {
            Ok((text, end)) => r is Ok && r->Ok_0.0@ == text && r->Ok_0.1 == end && pos < end
                <= chars@.len(),
            Err(msg) => r is Err && r->Err_0@ == msg,
        },
{
    let mut acc: Vec<char> = Vec::new();
    let mut i: usize = pos;
    while i < chars.len()
        invariant
            pos <= i <= chars@.len(),
            parse_string(chars@, pos as int, Seq::empty()) == parse_string(
                chars@,
                i as int,
                acc@,
            ),
        decreases chars.len() - i,
    {
        let c = chars[i];
        if c == '"' {
            return Ok((string_of(&acc), i + 1));
        }
        if c == '\\' {
            if i + 1 >= chars.len() {
                return Err(String::from_str("Unterminated string"));
            }
            let e = chars[i + 1];
            if e == 'n' {
                acc.push('\n');
            } else if e == 't' {
                acc.push('\t');
            } else if e == '"' {
                acc.push('"');
            } else if e == '\\' {
                acc.push('\\');
            } else {
                return Err(String::from_str("Unsupported escape in string"));
            }
            i += 2;
        } else {
            acc.push(c);
            i += 1;
        }
    }
    Err(String::from_str("Unterminated string"))
}

fn closing(open: char) -> (r: char)
    ensures
        r == closer(open),
{
    if open == '(' {
        ')'
    } else if open == '[' {
        ']'
    } else {
        '}'
    }
}

fn map_of(items: &Vec<Rc<Value>>) -> (r: PersistentMap)
    requires
        items@.len() % 2 == 0,
    ensures
        r@ == assoc_all(Map::<ValueView, ValueView>::empty(), views(items@), 0),
{
    let mut map = PersistentMap::empty();
    let ghost given = views(items@);
    let mut i: usize = 0;
    while i < items.len()
        invariant
            i <= items.len(),
            i % 2 == 0,
            items@.len() % 2 == 0,
            given == views(items@),
            assoc_all(Map::<ValueView, ValueView>::empty(), given, 0) == assoc_all(
                map@,
                given,
                i as int,
            ),
        decreases items.len() - i,
    {
        map = map.assoc(rc_clone(&items[i]), rc_clone(&items[i + 1]));
        i += 2;
    }
    map
}

/// Reads one form from position `pos` on.
fn read_form(chars: &Vec<char>, pos: usize, depth: usize) -> (r: Result<
    Option<(Rc<Value>, usize)>,
    String,
>)
    ensures
        match parse_form(chars@, pos as int, depth as nat) {
            Parsed::Form(form, end) => r matches Ok(Some(read)) && read.1 == end && denotes(
                form,
                read.0@,
            ) && skip_blank(chars@, pos as int, false) < end <= chars@.len(),
            Parsed::End => r matches Ok(None),
            Parsed::Bad(msg) => r matches Err(m) && m@ == msg,
        },
    decreases depth, chars@.len() - pos, 0nat,
{
    let p = skip(chars, pos);
    if p >= chars.len() {
        return Ok(None);
    }
    let c = chars[p];
    if c == '(' || c == '[' || c == '{' {
        if depth == 0 {
            return Err(String::from_str("Input is nested too deeply"));
        }
        match read_seq(chars, p + 1, closing(c), depth - 1) {
            Ok((items, end)) => {
                if c == '(' {
                    Ok(Some((Rc::new(Value::List(List::from_vec(items))), end)))
                } else if c == '[' {
                    Ok(Some((Rc::new(Value::Vector(Vector::from_vec(items))), end)))
                } else if items.len() % 2 == 0 {
                    Ok(Some((Rc::new(Value::PersistentMap(map_of(&items))), end)))
                } else {
                    Err(String::from_str("Map literal must contain an even number of forms"))
                }
            },
            Err(msg) => Err(msg),
        }
    } else if c == ')' || c == ']' || c == '}' {
        Err(String::from_str("Unexpected closing delimiter"))
    } else if c == '"' {
        match read_text(chars, p + 1) {
            Ok((text, end)) => Ok(Some((Rc::new(Value::String(text)), end))),
            Err(msg) => Err(msg),
        }
    } else if c == '\'' {
        if depth == 0 {
            return Err(String::from_str("Input is nested too deeply"));
        }
        match read_form(chars, p + 1, depth - 1) {
            Ok(Some((quoted, end))) => {
                let mut items: Vec<Rc<Value>> = Vec::new();
                items.push(Rc::new(Value::Symbol(Symbol::intern("quote"))));
                items.push(quoted);
                proof {
                    reveal_strlit("quote");
                    assert(crate::symbol::slash_from("quote"@, 0) == 5) by {
                        reveal_with_fuel(crate::symbol::slash_from, 7);
                    }
                }
                Ok(Some((Rc::new(Value::List(List::from_vec(items))), end)))
            },
            Ok(None) => Err(String::from_str("Unexpected end of input")),
            Err(msg) => Err(msg),
        }
    } else {
        let end = find_token_end(chars, p);
        let tok = slice_of(chars, p, end);
        match read_atom(&tok) {
            Ok(v) => Ok(Some((Rc::new(v), end))),
            Err(msg) => Err(msg),
        }
    }
}

/// Reads the forms of a collection from position `pos` on, up to the delimiter
/// `close`.
fn read_seq(chars: &Vec<char>, pos: usize, close: char, depth: usize) -> (r: Result<
    (Vec<Rc<Value>>, usize),
    String,
>)
    ensures
        match parse_seq(chars@, pos as int, close, Seq::empty(), depth as nat) {
            ParsedSeq::Forms(forms, end) => r matches Ok(read) && read.1 == end && denotes_all(
                forms,
                views(read.0@),
            ) && pos < end <= chars@.len(),
            ParsedSeq::Bad(msg) => r matches Err(m) && m@ == msg,
        },
    decreases depth, chars@.len() - pos, 1nat,
{
    let mut items: Vec<Rc<Value>> = Vec::new();
    let ghost mut forms: Seq<Sexp> = Seq::empty();
    let mut i: usize = pos;
    assert(views(items@) =~= Seq::<ValueView>::empty());
    loop
        invariant
            pos <= i,
            denotes_all(forms, views(items@)),
            parse_seq(chars@, pos as int, close, Seq::empty(), depth as nat) == parse_seq(
                chars@,
                i as int,
                close,
                forms,
                depth as nat,
            ),
        decreases chars@.len() - i,
    {
        let p = skip(chars, i);
        if p >= chars.len() {
            return Err(String::from_str("Unexpected end of input"));
        }
        if chars[p] == close {
            return Ok((items, p + 1));
        }
        match read_form(chars, p, depth) {
            Ok(Some((item, end))) => {
                proof {
                    let ghost item_form = parse_form(chars@, p as int, depth as nat)->Form_0;
                    let before = views(items@);
                    assert(views(items@.push(item)) =~= before.push(item@));
                    forms = forms.push(item_form);
                }
                items.push(item);
                i = end;
            },
            Ok(None) => {
                return Err(String::from_str("Unexpected end of input"));
            },
            Err(msg) => {
                return Err(msg);
            },
        }
    }
}

/// Reads one form of the text `chars` from position `pos` on. The result is the
/// value that the form writes and the position after it; a condition and the
/// length of the text where the text is not well formed; and no value, with the
/// length of the text, where nothing but blanks and comments is left.
pub fn read(chars: &Vec<char>, pos: usize) -> (r: (Option<Value>, usize))
    ensures
        match parse_form(chars@, pos as int, MAX_NESTING as nat) {
            Parsed::Form(form, end) => r.0 is Some && denotes(form, r.0->0@) && r.1 == end
                && pos < end <= chars@.len(),
            Parsed::End => r.0 is None && r.1 == chars@.len(),
            Parsed::Bad(msg) => r.0 is Some && r.0->0@ == ValueView::Condition(msg) && r.1
                == chars@.len(),
        },
{
    match read_form(chars, pos, MAX_NESTING) {
        Ok(Some((value, end))) => ((Some((*value).clone()), end)),
        Ok(None) => (None, chars.len()),
        Err(msg) => (Some(Value::Condition(msg)), chars.len()),
    }
}

/// No token writes a condition.
pub proof fn lemma_atoms_are_no_conditions(t: Seq<char>)
    ensures
        atom_of(t) matches Ok(v) ==> !(v is Condition),
{
}

/// No form that is read writes a condition.
pub proof fn lemma_forms_are_no_conditions(chars: Seq<char>, pos: int, depth: nat)
    ensures
        parse_form(chars, pos, depth) matches Parsed::Form(form, end) ==> forall|v: ValueView|
            denotes(form, v) ==> !(v is Condition),
{
    let p = skip_blank(chars, pos, false);
    if 0 <= p < chars.len() && p >= pos {
        let c = chars[p];
        if c == '(' || c == '[' || c == '{' || c == ')' || c == ']' || c == '}' || c == '"' || c
            == '\'' {
        } else {
            lemma_atoms_are_no_conditions(chars.subrange(p, token_end(chars, p)));
        }
    }
}

/// Whether the text, read form by form from position `pos` on, breaks off inside
/// a form: the forms before are well formed, and then the text ends inside a
/// collection, after a `'`, or inside a string. A reader of lines knows by this
/// that more lines belong to the form.
pub open spec fn breaks_off_from(chars: Seq<char>, pos: int) -> bool
    decreases chars.len() - pos,
{
    match parse_form(chars, pos, MAX_NESTING as nat) {
        Parsed::End => false,
        Parsed::Bad(msg) => msg == "Unexpected end of input"@ || msg == "Unterminated string"@,
        Parsed::Form(_, end) => if pos < end <= chars.len() {
            breaks_off_from(chars, end)
        } else {
            false
        },
    }
}

/// Blanks and comments are skipped forwards, and not beyond the end.
pub proof fn lemma_skip_blank_forwards(chars: Seq<char>, pos: int, in_comment: bool)
    requires
        0 <= pos <= chars.len(),
    ensures
        pos <= skip_blank(chars, pos, in_comment) <= chars.len(),
    decreases chars.len() - pos,
{
    if pos < chars.len() {
        if in_comment {
            lemma_skip_blank_forwards(chars, pos + 1, chars[pos] != '\n');
        } else if is_blank(chars[pos]) {
            lemma_skip_blank_forwards(chars, pos + 1, false);
        } else if chars[pos] == ';' {
            lemma_skip_blank_forwards(chars, pos + 1, true);
        }
    }
}

/// Whether the text `chars` breaks off inside a form.
pub fn breaks_off(chars: &Vec<char>) -> (r: bool)
    ensures
        r == breaks_off_from(chars@, 0),
{
    let mut pos: usize = 0;
    loop
        invariant
            pos <= chars@.len(),
            breaks_off_from(chars@, 0) == breaks_off_from(chars@, pos as int),
        decreases chars@.len() - pos,
    {
        proof {
            lemma_skip_blank_forwards(chars@, pos as int, false);
        }
        match read_form(chars, pos, MAX_NESTING) {
            Ok(None) => {
                return false;
            },
            Err(msg) => {
                return str_eq(msg.as_str(), "Unexpected end of input") || str_eq(
                    msg.as_str(),
                    "Unterminated string",
                );
            },
            Ok(Some((_, end))) => {
                pos = end;
            },
        }
    }
}

} // verus!
