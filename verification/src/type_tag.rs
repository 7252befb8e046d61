//! Type tags: the names by which values of each kind are known.
use vstd::prelude::*;

verus! {

/// The kind of a value, or a kind that an operation expects.
#[derive(Debug, Clone, Copy, PartialEq, Eq, Structural, Hash)]
pub enum TypeTag {
    I32,
    Boolean,
    Char,
    Symbol,
    Var,
    Keyword,
    IFn,
    Condition,
    List,
    Vector,
    PersistentMap,
    Macro,
    String,
    Nil,
    Integer,
    ISeq,
}

/// The name that a tag is written as.
pub open spec fn tag_name(t: TypeTag) -> Seq<char> {
    match t {
        TypeTag::I32 => "rust.std.i32"@,
        TypeTag::Boolean => "rust.std.bool"@,
        TypeTag::Char => "rust.std.char"@,
        TypeTag::Symbol => "clojure.lang.Symbol"@,
        TypeTag::Var => "clojure.lang.Var"@,
        TypeTag::Keyword => "clojure.lang.Keyword"@,
        TypeTag::IFn => "clojure.lang.Function"@,
        TypeTag::Condition => "clojure.lang.Condition"@,
        TypeTag::List => "clojure.lang.PersistentList"@,
        TypeTag::Vector => "clojure.lang.PersistentVector"@,
        TypeTag::PersistentMap => "clojure.lang.PersistentListMap"@,
        TypeTag::Macro => "clojure.lang.Macro"@,
        TypeTag::String => "rust.std.string.String"@,
        TypeTag::Nil => "clojure.lang.Nil"@,
        TypeTag::Integer => "clojure.lang.Integer"@,
        TypeTag::ISeq => "clojure.lang.ISeq"@,
    }
}

impl TypeTag {
    /// The tag's name.
    pub fn name(&self) -> (r: &'static str)
        ensures
            r@ == tag_name(*self),
    {
        match self {
            TypeTag::I32 => "rust.std.i32",
            TypeTag::Boolean => "rust.std.bool",
            TypeTag::Char => "rust.std.char",
            TypeTag::Symbol => "clojure.lang.Symbol",
            TypeTag::Var => "clojure.lang.Var",
            TypeTag::Keyword => "clojure.lang.Keyword",
            TypeTag::IFn => "clojure.lang.Function",
            TypeTag::Condition => "clojure.lang.Condition",
            TypeTag::List => "clojure.lang.PersistentList",
            TypeTag::Vector => "clojure.lang.PersistentVector",
            TypeTag::PersistentMap => "clojure.lang.PersistentListMap",
            TypeTag::Macro => "clojure.lang.Macro",
            TypeTag::String => "rust.std.string.String",
            TypeTag::Nil => "clojure.lang.Nil",
            TypeTag::Integer => "clojure.lang.Integer",
            TypeTag::ISeq => "clojure.lang.ISeq",
        }
    }

    /// The tag's name as a string of its own.
    pub fn to_string(&self) -> (r: String)
        ensures
            r@ == tag_name(*self),
    {
        String::from_str(self.name())
    }
}

} // verus!
