//! The conditions that the library reports, each with its exact message.
use crate::text::decimal;
use crate::text::decimal_string;
use crate::text::signed_decimal;
use crate::text::signed_decimal_string;
use crate::type_tag::tag_name;
use crate::type_tag::TypeTag;
use crate::value::type_tag_of;
use crate::value::Value;
use crate::value::ValueView;
use vstd::prelude::*;

verus! {

/// The message for a call with `got` arguments where `expected` are needed.
pub open spec fn wrong_arg_count_text(expected: nat, got: nat) -> Seq<char> {
    "Wrong number of arguments given to function (Given: "@ + decimal(got) + ", Expected: "@
        + decimal(expected) + ")"@
}

/// The numerals of `counts`, separated by a comma and a space.
pub open spec fn counts_text(counts: Seq<usize>) -> Seq<char>
    decreases counts.len(),
{
    if counts.len() == 0 {
        Seq::<char>::empty()
    } else if counts.len() == 1 {
        decimal(counts[0] as nat)
    } else {
        counts_text(counts.drop_last()) + ", "@ + decimal(counts.last() as nat)
    }
}

/// The message for a call with `got` arguments where any count of `expected`
/// would do.
pub open spec fn wrong_varg_count_text(expected: Seq<usize>, got: nat) -> Seq<char> {
    "Wrong number of arguments given to function (Given: "@ + decimal(got) + ", Expected: ["@
        + counts_text(expected) + "])"@
}

/// The message for a value of kind `got` where one of kind `expected` is needed.
pub open spec fn type_mismatch_text(expected: TypeTag, got: TypeTag) -> Seq<char> {
    "Type mismatch; Expected instance of "@ + tag_name(expected) + ", Recieved type "@
        + tag_name(got)
}

/// The message for position `ind` in a sequence of `count` values.
pub open spec fn index_out_of_bounds_text(ind: nat, count: nat) -> Seq<char> {
    "Index out of bounds: Index ("@ + decimal(ind) + "), Length: ("@ + decimal(count) + ")"@
}

/// The message for the negative position `ind`.
pub open spec fn index_cannot_be_negative_text(ind: int) -> Seq<char> {
    "Index cannot be negative; Index ("@ + signed_decimal(ind) + ")"@
}

/// The message for a symbol that no binding is found for.
pub open spec fn undefined_symbol_text(name: Seq<char>) -> Seq<char> {
    "Undefined symbol "@ + name
}

/// The message for a namespace that does not exist.
pub open spec fn undefined_namespace_text(name: Seq<char>) -> Seq<char> {
    "Undefined namespace "@ + name
}

/// The condition for a call with `got` arguments where `expected` are needed.
pub fn wrong_arg_count(expected: usize, got: usize) -> (r: Value)
    ensures
        r@ == ValueView::Condition(wrong_arg_count_text(expected as nat, got as nat)),
{
    let mut msg = String::from_str("Wrong number of arguments given to function (Given: ");
    msg.append(decimal_string(got).as_str());
    msg.append(", Expected: ");
    msg.append(decimal_string(expected).as_str());
    msg.append(")");
    Value::Condition(msg)
}

/// The condition for a call with `got` arguments where any count of `expected`
/// would do.
pub fn wrong_varg_count(expected: &Vec<usize>, got: usize) -> (r: Value)
    ensures
        r@ == ValueView::Condition(wrong_varg_count_text(expected@, got as nat)),
{
    let mut msg = String::from_str("Wrong number of arguments given to function (Given: ");
    msg.append(decimal_string(got).as_str());
    msg.append(", Expected: [");
    let ghost head = msg@;
    let mut i: usize = 0;
    while i < expected.len()
        invariant
            i <= expected.len(),
            msg@ == head + counts_text(expected@.subrange(0, i as int)),
        decreases expected.len() - i,
    {
        let ghost before = expected@.subrange(0, i as int);
        let ghost after = expected@.subrange(0, i + 1);
        assert(after.drop_last() =~= before);
        assert(after.last() == expected@[i as int]);
        if i > 0 {
            msg.append(", ");
        }
        msg.append(decimal_string(expected[i]).as_str());
        assert(msg@ =~= head + counts_text(after));
        i += 1;
    }
    assert(expected@.subrange(0, expected.len() as int) =~= expected@);
    msg.append("])");
    assert(msg@ =~= wrong_varg_count_text(expected@, got as nat));
    Value::Condition(msg)
}

/// The condition for the value `got` where one of kind `expected` is needed.
pub fn type_mismatch(expected: TypeTag, got: &Value) -> (r: Value)
    ensures
        r@ == ValueView::Condition(type_mismatch_text(expected, type_tag_of(got@))),
{
    let mut msg = String::from_str("Type mismatch; Expected instance of ");
    msg.append(expected.name());
    msg.append(", Recieved type ");
    msg.append(got.type_tag().name());
    Value::Condition(msg)
}

/// The condition for position `ind` in a sequence of `count` values.
pub fn index_out_of_bounds(ind: usize, count: usize) -> (r: Value)
    ensures
        r@ == ValueView::Condition(index_out_of_bounds_text(ind as nat, count as nat)),
{
    let mut msg = String::from_str("Index out of bounds: Index (");
    msg.append(decimal_string(ind).as_str());
    msg.append("), Length: (");
    msg.append(decimal_string(count).as_str());
    msg.append(")");
    Value::Condition(msg)
}

/// The condition for the negative position `ind`.
pub fn index_cannot_be_negative(ind: i32) -> (r: Value)
    ensures
        r@ == ValueView::Condition(index_cannot_be_negative_text(ind as int)),
{
    let mut msg = String::from_str("Index cannot be negative; Index (");
    msg.append(signed_decimal_string(ind).as_str());
    msg.append(")");
    Value::Condition(msg)
}

/// The condition for a symbol named `name` that no binding is found for.
pub fn undefined_symbol(name: &str) -> (r: Value)
    ensures
        r@ == ValueView::Condition(undefined_symbol_text(name@)),
{
    let mut msg = String::from_str("Undefined symbol ");
    msg.append(name);
    Value::Condition(msg)
}

/// The condition for a namespace named `name` that does not exist.
pub fn undefined_namespace(name: &str) -> (r: Value)
    ensures
        r@ == ValueView::Condition(undefined_namespace_text(name@)),
{
    let mut msg = String::from_str("Undefined namespace ");
    msg.append(name);
    Value::Condition(msg)
}

/// The condition with the message `msg`.
pub fn custom(msg: &str) -> (r: Value)
    ensures
        r@ == ValueView::Condition(msg@),
{
    Value::Condition(String::from_str(msg))
}

} // verus!
