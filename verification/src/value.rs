//! The value model: every value that a program can compute is a `Value`.
use crate::keyword::Keyword;
use crate::lambda::Lambda;
use crate::lambda::LambdaView;
use crate::symbol::Symbol;
use crate::symbol::SymbolView;
use crate::type_tag::TypeTag;
use crate::types::rc_clone;
use crate::types::List;
use crate::types::PersistentMap;
use crate::types::Vector;
use crate::var::Var;
use crate::var::VarView;
use std::rc::Rc;
use vstd::prelude::*;
use vstd::std_specs::cmp::PartialEqSpecImpl;

verus! {

/// The primitives that the library itself implements.
#[derive(Debug, Clone, Copy, PartialEq, Eq, Structural, Hash)]
pub enum Builtin {
    AddFn,
    EqualsFn,
    NthFn,
    ConcatFn,
    AssocFn,
    GetFn,
    TypeFn,
    WithMetaFn,
    DoFn,
    DoMacro,
    NsMacro,
    MapFn,
    EvalFn,
    LoadFileFn,
}

/// What can stand at the head of a call.
#[derive(Debug, Hash)]
pub enum Callable {
    /// A primitive of the library.
    Builtin(Builtin),
    /// A primitive that the host program provides, known by its name.
    Host(String),
    /// A closure.
    Lambda(Rc<Lambda>),
}

/// What equality sees of a `Callable`.
pub enum CallableView {
    Builtin(Builtin),
    Host(Seq<char>),
    Lambda(LambdaView),
}

impl View for Callable {
    type V = CallableView;

    open spec fn view(&self) -> CallableView {
        match self {
            Callable::Builtin(b) => CallableView::Builtin(*b),
            Callable::Host(name) => CallableView::Host(name@),
            Callable::Lambda(l) => CallableView::Lambda(l@),
        }
    }
}

impl Clone for Callable {
    fn clone(&self) -> (r: Self)
        ensures
            r == *self,
    {
        match self {
            Callable::Builtin(b) => Callable::Builtin(*b),
            Callable::Host(name) => Callable::Host(name.clone()),
            Callable::Lambda(l) => Callable::Lambda(rc_clone(l)),
        }
    }
}

impl PartialEq for Callable {
    fn eq(&self, other: &Self) -> (r: bool) {
        match (self, other) {
            (Callable::Builtin(a), Callable::Builtin(b)) => *a == *b,
            (Callable::Host(a), Callable::Host(b)) => *a == *b,
            (Callable::Lambda(a), Callable::Lambda(b)) => **a == **b,
            _ => false,
        }
    }
}

impl PartialEqSpecImpl for Callable {
    open spec fn obeys_eq_spec() -> bool {
        true
    }

    open spec fn eq_spec(&self, other: &Self) -> bool {
        self@ == other@
    }
}

impl Eq for Callable {

}

/// A value of the language.
#[derive(Debug, Hash)]
pub enum Value {
    Nil,
    Boolean(bool),
    I32(i32),
    Char(char),
    String(String),
    Keyword(Keyword),
    Symbol(Symbol),
    List(List),
    Vector(Vector),
    PersistentMap(PersistentMap),
    /// A function: its arguments are evaluated before it is called.
    IFn(Callable),
    /// A macro: it receives its arguments unevaluated, and what it returns is
    /// evaluated in turn.
    Macro(Callable),
    Var(Var),
    /// An error, carried as a value like any other.
    Condition(String),
    QuoteMacro,
    DefMacro,
    FnMacro,
    DefmacroMacro,
    IfMacro,
    LetMacro,
    LexicalEvalFn,
}

/// What equality sees of a value: the value without the metadata of its symbol
/// and without the root and metadata of its var.
pub enum ValueView {
    Nil,
    Boolean(bool),
    I32(i32),
    Char(char),
    String(Seq<char>),
    Keyword(SymbolView),
    Symbol(SymbolView),
    List(List),
    Vector(Vector),
    PersistentMap(PersistentMap),
    IFn(CallableView),
    Macro(CallableView),
    Var(VarView),
    Condition(Seq<char>),
    QuoteMacro,
    DefMacro,
    FnMacro,
    DefmacroMacro,
    IfMacro,
    LetMacro,
    LexicalEvalFn,
}

impl View for Value {
    type V = ValueView;

    open spec fn view(&self) -> ValueView {
        match self {
            Value::Nil => ValueView::Nil,
            Value::Boolean(b) => ValueView::Boolean(*b),
            Value::I32(i) => ValueView::I32(*i),
            Value::Char(c) => ValueView::Char(*c),
            Value::String(s) => ValueView::String(s@),
            Value::Keyword(k) => ValueView::Keyword(k@),
            Value::Symbol(s) => ValueView::Symbol(s@),
            Value::List(l) => ValueView::List(*l),
            Value::Vector(v) => ValueView::Vector(*v),
            Value::PersistentMap(m) => ValueView::PersistentMap(*m),
            Value::IFn(f) => ValueView::IFn(f@),
            Value::Macro(f) => ValueView::Macro(f@),
            Value::Var(v) => ValueView::Var(v@),
            Value::Condition(msg) => ValueView::Condition(msg@),
            Value::QuoteMacro => ValueView::QuoteMacro,
            Value::DefMacro => ValueView::DefMacro,
            Value::FnMacro => ValueView::FnMacro,
            Value::DefmacroMacro => ValueView::DefmacroMacro,
            Value::IfMacro => ValueView::IfMacro,
            Value::LetMacro => ValueView::LetMacro,
            Value::LexicalEvalFn => ValueView::LexicalEvalFn,
        }
    }
}

/// The tag of the kind that a value is of.
pub open spec fn type_tag_of(v: ValueView) -> TypeTag {
    match v {
        ValueView::Nil => TypeTag::Nil,
        ValueView::Boolean(_) => TypeTag::Boolean,
        ValueView::I32(_) => TypeTag::I32,
        ValueView::Char(_) => TypeTag::Char,
        ValueView::String(_) => TypeTag::String,
        ValueView::Keyword(_) => TypeTag::Keyword,
        ValueView::Symbol(_) => TypeTag::Symbol,
        ValueView::List(_) => TypeTag::List,
        ValueView::Vector(_) => TypeTag::Vector,
        ValueView::PersistentMap(_) => TypeTag::PersistentMap,
        ValueView::IFn(_) => TypeTag::IFn,
        ValueView::LexicalEvalFn => TypeTag::IFn,
        ValueView::Var(_) => TypeTag::Var,
        ValueView::Condition(_) => TypeTag::Condition,
        _ => TypeTag::Macro,
    }
}

impl Value {
    /// The tag of the kind that the value is of.
    pub fn type_tag(&self) -> (r: TypeTag)
        ensures
            r == type_tag_of(self@),
    {
        match self {
            Value::Nil => TypeTag::Nil,
            Value::Boolean(_) => TypeTag::Boolean,
            Value::I32(_) => TypeTag::I32,
            Value::Char(_) => TypeTag::Char,
            Value::String(_) => TypeTag::String,
            Value::Keyword(_) => TypeTag::Keyword,
            Value::Symbol(_) => TypeTag::Symbol,
            Value::List(_) => TypeTag::List,
            Value::Vector(_) => TypeTag::Vector,
            Value::PersistentMap(_) => TypeTag::PersistentMap,
            Value::IFn(_) => TypeTag::IFn,
            Value::LexicalEvalFn => TypeTag::IFn,
            Value::Var(_) => TypeTag::Var,
            Value::Condition(_) => TypeTag::Condition,
            _ => TypeTag::Macro,
        }
    }

    /// Whether the value counts as true in a test: everything does but nil and
    /// the boolean false.
    pub fn is_truthy(&self) -> (r: bool)
        ensures
            r == !(self@ is Nil || self@ == ValueView::Boolean(false)),
    {
        match self {
            Value::Nil => false,
            Value::Boolean(b) => *b,
            _ => true,
        }
    }

    /// Whether the value is a condition.
    pub fn is_condition(&self) -> (r: bool)
        ensures
            r == (*self is Condition),
    {
        match self {
            Value::Condition(_) => true,
            _ => false,
        }
    }
}

impl Clone for Value {
    fn clone(&self) -> (r: Self)
        ensures
            r == *self,
    {
        match self {
            Value::Nil => Value::Nil,
            Value::Boolean(b) => Value::Boolean(*b),
            Value::I32(i) => Value::I32(*i),
            Value::Char(c) => Value::Char(*c),
            Value::String(s) => Value::String(s.clone()),
            Value::Keyword(k) => Value::Keyword(k.clone()),
            Value::Symbol(s) => Value::Symbol(s.clone()),
            Value::List(l) => Value::List(l.clone()),
            Value::Vector(v) => Value::Vector(v.clone()),
            Value::PersistentMap(m) => Value::PersistentMap(m.clone()),
            Value::IFn(f) => Value::IFn(f.clone()),
            Value::Macro(f) => Value::Macro(f.clone()),
            Value::Var(v) => Value::Var(v.clone()),
            Value::Condition(msg) => Value::Condition(msg.clone()),
            Value::QuoteMacro => Value::QuoteMacro,
            Value::DefMacro => Value::DefMacro,
            Value::FnMacro => Value::FnMacro,
            Value::DefmacroMacro => Value::DefmacroMacro,
            Value::IfMacro => Value::IfMacro,
            Value::LetMacro => Value::LetMacro,
            Value::LexicalEvalFn => Value::LexicalEvalFn,
        }
    }
}

impl PartialEq for Value {
    /// Equality is structural. It does not look at the metadata of a symbol, nor
    /// at the root or the metadata of a var.
    fn eq(&self, other: &Self) -> (r: bool) {
        match (self, other) {
            (Value::Nil, Value::Nil) => true,
            (Value::Boolean(a), Value::Boolean(b)) => *a == *b,
            (Value::I32(a), Value::I32(b)) => *a == *b,
            (Value::Char(a), Value::Char(b)) => *a == *b,
            (Value::String(a), Value::String(b)) => *a == *b,
            (Value::Keyword(a), Value::Keyword(b)) => *a == *b,
            (Value::Symbol(a), Value::Symbol(b)) => *a == *b,
            (Value::List(a), Value::List(b)) => *a == *b,
            (Value::Vector(a), Value::Vector(b)) => *a == *b,
            (Value::PersistentMap(a), Value::PersistentMap(b)) => *a == *b,
            (Value::IFn(a), Value::IFn(b)) => *a == *b,
            (Value::Macro(a), Value::Macro(b)) => *a == *b,
            (Value::Var(a), Value::Var(b)) => *a == *b,
            (Value::Condition(a), Value::Condition(b)) => *a == *b,
            (Value::QuoteMacro, Value::QuoteMacro) => true,
            (Value::DefMacro, Value::DefMacro) => true,
            (Value::FnMacro, Value::FnMacro) => true,
            (Value::DefmacroMacro, Value::DefmacroMacro) => true,
            (Value::IfMacro, Value::IfMacro) => true,
            (Value::LetMacro, Value::LetMacro) => true,
            (Value::LexicalEvalFn, Value::LexicalEvalFn) => true,
            _ => false,
        }
    }
}

impl PartialEqSpecImpl for Value {
    open spec fn obeys_eq_spec() -> bool {
        true
    }

    open spec fn eq_spec(&self, other: &Self) -> bool {
        self@ == other@
    }
}

impl Eq for Value {

}

/// What can be turned into a value.
pub trait ToValue {
    /// The view of the value that `self` turns into.
    spec fn value_view(&self) -> ValueView;

    /// `self` as a value.
    fn to_value(&self) -> (r: Value)
        ensures
            r@ == self.value_view(),
    ;

    /// `self` as a shared value.
    fn to_rc_value(&self) -> (r: Rc<Value>)
        ensures
            r@ == self.value_view(),
    ;
}

impl ToValue for Value {
    open spec fn value_view(&self) -> ValueView {
        self@
    }

    fn to_value(&self) -> (r: Value) {
        self.clone()
    }

    fn to_rc_value(&self) -> (r: Rc<Value>) {
        Rc::new(self.clone())
    }
}

impl ToValue for Rc<Value> {
    open spec fn value_view(&self) -> ValueView {
        self@
    }

    fn to_value(&self) -> (r: Value) {
        (**self).clone()
    }

    fn to_rc_value(&self) -> (r: Rc<Value>) {
        rc_clone(self)
    }
}

impl ToValue for i32 {
    open spec fn value_view(&self) -> ValueView {
        ValueView::I32(*self)
    }

    fn to_value(&self) -> (r: Value) {
        Value::I32(*self)
    }

    fn to_rc_value(&self) -> (r: Rc<Value>) {
        Rc::new(Value::I32(*self))
    }
}

impl ToValue for bool {
    open spec fn value_view(&self) -> ValueView {
        ValueView::Boolean(*self)
    }

    fn to_value(&self) -> (r: Value) {
        Value::Boolean(*self)
    }

    fn to_rc_value(&self) -> (r: Rc<Value>) {
        Rc::new(Value::Boolean(*self))
    }
}

impl ToValue for &str {
    open spec fn value_view(&self) -> ValueView {
        ValueView::String(self@)
    }

    fn to_value(&self) -> (r: Value) {
        Value::String(String::from_str(*self))
    }

    fn to_rc_value(&self) -> (r: Rc<Value>) {
        Rc::new(Value::String(String::from_str(*self)))
    }
}

impl ToValue for String {
    open spec fn value_view(&self) -> ValueView {
        ValueView::String(self@)
    }

    fn to_value(&self) -> (r: Value) {
        Value::String(self.clone())
    }

    fn to_rc_value(&self) -> (r: Rc<Value>) {
        Rc::new(Value::String(self.clone()))
    }
}

impl ToValue for Symbol {
    open spec fn value_view(&self) -> ValueView {
        ValueView::Symbol(self@)
    }

    fn to_value(&self) -> (r: Value) {
        Value::Symbol(self.clone())
    }

    fn to_rc_value(&self) -> (r: Rc<Value>) {
        Rc::new(Value::Symbol(self.clone()))
    }
}

impl ToValue for Keyword {
    open spec fn value_view(&self) -> ValueView {
        ValueView::Keyword(self@)
    }

    fn to_value(&self) -> (r: Value) {
        Value::Keyword(self.clone())
    }

    fn to_rc_value(&self) -> (r: Rc<Value>) {
        Rc::new(Value::Keyword(self.clone()))
    }
}

impl ToValue for List {
    open spec fn value_view(&self) -> ValueView {
        ValueView::List(*self)
    }

    fn to_value(&self) -> (r: Value) {
        Value::List(self.clone())
    }

    fn to_rc_value(&self) -> (r: Rc<Value>) {
        Rc::new(Value::List(self.clone()))
    }
}

impl ToValue for Vector {
    open spec fn value_view(&self) -> ValueView {
        ValueView::Vector(*self)
    }

    fn to_value(&self) -> (r: Value) {
        Value::Vector(self.clone())
    }

    fn to_rc_value(&self) -> (r: Rc<Value>) {
        Rc::new(Value::Vector(self.clone()))
    }
}

impl ToValue for PersistentMap {
    open spec fn value_view(&self) -> ValueView {
        ValueView::PersistentMap(*self)
    }

    fn to_value(&self) -> (r: Value) {
        Value::PersistentMap(self.clone())
    }

    fn to_rc_value(&self) -> (r: Rc<Value>) {
        Rc::new(Value::PersistentMap(self.clone()))
    }
}

impl ToValue for Var {
    open spec fn value_view(&self) -> ValueView {
        ValueView::Var(self@)
    }

    fn to_value(&self) -> (r: Value) {
        Value::Var(self.clone())
    }

    fn to_rc_value(&self) -> (r: Rc<Value>) {
        Rc::new(Value::Var(self.clone()))
    }
}

} // verus!
