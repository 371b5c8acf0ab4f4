//! The range functions: `int4range`, `daterange`, `tsrange` and `isempty`.

use crate::name_map::NameMap;
use crate::signature::Function;
use crate::signature::Signature;
use crate::signature::SignatureView;
use crate::types::DataType;
use crate::types::DataTypeView;
use crate::value::Value;
use crate::value::ValueView;
use vstd::prelude::*;

verus! {

/// The range function that `name` names.
pub open spec fn range_function(name: Seq<char>) -> Option<Function> {
    if name == "int4range"@ {
        Some(Function::Int4Range)
    } else if name == "daterange"@ {
        Some(Function::DateRange)
    } else if name == "tsrange"@ {
        Some(Function::TsRange)
    } else if name == "isempty"@ {
        Some(Function::IsEmpty)
    } else {
        None
    }
}

/// The signature of a constructor of ranges over `bound`: two bounds in,
/// a range out.
pub open spec fn constructor_signature(bound: DataTypeView) -> SignatureView {
    SignatureView { parameters: seq![bound, bound], return_type: DataTypeView::Range(Box::new(bound)) }
}

/// The signature of a range function.
pub open spec fn range_signature(function: Function) -> SignatureView {
    match function {
        Function::Int4Range => constructor_signature(DataTypeView::Integer),
        Function::DateRange => constructor_signature(DataTypeView::Date),
        Function::TsRange => constructor_signature(DataTypeView::DateTime),
        Function::IsEmpty => SignatureView {
            parameters: seq![DataTypeView::Range(Box::new(DataTypeView::Any))],
            return_type: DataTypeView::Boolean,
        },
    }
}

/// The four names differ.
proof fn lemma_names_differ()
    ensures
        "int4range"@ != "daterange"@,
        "int4range"@ != "tsrange"@,
        "int4range"@ != "isempty"@,
        "daterange"@ != "tsrange"@,
        "daterange"@ != "isempty"@,
        "tsrange"@ != "isempty"@,
{
    reveal_strlit("int4range");
    reveal_strlit("daterange");
    reveal_strlit("tsrange");
    reveal_strlit("isempty");
    assert("int4range"@[0] == 'i' && "int4range"@[1] == 'n');
    assert("daterange"@[0] == 'd');
    assert("tsrange"@[0] == 't');
    assert("isempty"@[0] == 'i' && "isempty"@[1] == 's');
}

/// Puts the range functions into `map`, each under its name. Every other
/// name keeps what it had.
pub fn register_std_range_functions(map: &mut NameMap<Function>)
    requires
        old(map).wf(),
    ensures
        final(map).wf(),
        forall|name: Seq<char>|
            range_function(name) is Some ==> final(map).item(name) == range_function(name),
        forall|name: Seq<char>|
            range_function(name) is None ==> final(map).item(name) == old(map).item(name),
{
    proof {
        lemma_names_differ();
    }
    map.insert("int4range".to_owned(), Function::Int4Range);
    map.insert("daterange".to_owned(), Function::DateRange);
    map.insert("tsrange".to_owned(), Function::TsRange);
    map.insert("isempty".to_owned(), Function::IsEmpty);
}

/// The signature of a constructor of ranges over `bound`.
fn constructor(bound: DataType) -> (signature: Signature)
    ensures
        signature@ == constructor_signature(bound@),
{
    let mut parameters: Vec<DataType> = Vec::new();
    parameters.push(bound.clone());
    parameters.push(bound.clone());
    let signature = Signature { parameters, return_type: DataType::Range(Box::new(bound)) };
    assert(signature@.parameters =~= seq![bound@, bound@]);
    signature
}

/// `found` is the signature of `function`.
pub open spec fn holds_signature(found: Option<Signature>, function: Function) -> bool {
    match found {
        Some(signature) => signature@ == range_signature(function),
        None => false,
    }
}

/// Puts the signatures of the range functions into `map`, each under the
/// name of its function. Every other name keeps what it had.
pub fn register_std_range_function_signatures(map: &mut NameMap<Signature>)
    requires
        old(map).wf(),
    ensures
        final(map).wf(),
        forall|name: Seq<char>| #[trigger]
            range_function(name) is Some ==> holds_signature(
                final(map).item(name),
                range_function(name)->0,
            ),
        forall|name: Seq<char>|
            range_function(name) is None ==> final(map).item(name) == old(map).item(name),
{
    proof {
        lemma_names_differ();
    }
    map.insert("int4range".to_owned(), constructor(DataType::Integer));
    map.insert("daterange".to_owned(), constructor(DataType::Date));
    map.insert("tsrange".to_owned(), constructor(DataType::DateTime));
    let mut parameters: Vec<DataType> = Vec::new();
    let any = DataType::Any;
    let any_range = DataType::Range(Box::new(any));
    assert(any_range@ == DataTypeView::Range(Box::new(any@)));
    parameters.push(any_range);
    let signature = Signature { parameters, return_type: DataType::Boolean };
    assert(signature@.parameters =~= seq![DataTypeView::Range(Box::new(DataTypeView::Any))]);
    map.insert("isempty".to_owned(), signature);
}

/// The range of integers from `inputs[0]` to `inputs[1]`.
pub fn int4range(inputs: &[Value]) -> (range: Value)
    requires
        inputs@.len() >= 2,
    ensures
        range@ == ValueView::Range(
            DataTypeView::Integer,
            Box::new(inputs@[0]@),
            Box::new(inputs@[1]@),
        ),
{
    Value::Range(DataType::Integer, Box::new(inputs[0].clone()), Box::new(inputs[1].clone()))
}

/// The range of dates from `inputs[0]` to `inputs[1]`.
pub fn daterange(inputs: &[Value]) -> (range: Value)
    requires
        inputs@.len() >= 2,
    ensures
        range@ == ValueView::Range(
            DataTypeView::Date,
            Box::new(inputs@[0]@),
            Box::new(inputs@[1]@),
        ),
{
    Value::Range(DataType::Date, Box::new(inputs[0].clone()), Box::new(inputs[1].clone()))
}

/// The range of date-times from `inputs[0]` to `inputs[1]`.
pub fn tsrange(inputs: &[Value]) -> (range: Value)
    requires
        inputs@.len() >= 2,
    ensures
        range@ == ValueView::Range(
            DataTypeView::DateTime,
            Box::new(inputs@[0]@),
            Box::new(inputs@[1]@),
        ),
{
    Value::Range(DataType::DateTime, Box::new(inputs[0].clone()), Box::new(inputs[1].clone()))
}

/// A range is empty when its two bounds are equal. What is no range counts
/// as a range from `NULL` to `NULL`.
pub open spec fn is_empty_range(v: ValueView) -> bool {
    match v {
        ValueView::Range(_, low, high) => *low == *high,
        _ => true,
    }
}

/// Whether the range `inputs[0]` is empty.
pub fn isempty(inputs: &[Value]) -> (empty: Value)
    requires
        inputs@.len() >= 1,
    ensures
        empty@ == ValueView::Boolean(is_empty_range(inputs@[0]@)),
{
    let range = inputs[0].as_range();
    Value::Boolean(range.0.equals(&range.1))
}

/// The number of arguments that a range function reads.
pub open spec fn arity(function: Function) -> nat {
    match function {
        Function::IsEmpty => 1,
        _ => 2,
    }
}

/// What a range function yields on the arguments `inputs`.
pub open spec fn result_of(function: Function, inputs: Seq<ValueView>) -> ValueView {
    match function {
        Function::Int4Range => ValueView::Range(
            DataTypeView::Integer,
            Box::new(inputs[0]),
            Box::new(inputs[1]),
        ),
        Function::DateRange => ValueView::Range(
            DataTypeView::Date,
            Box::new(inputs[0]),
            Box::new(inputs[1]),
        ),
        Function::TsRange => ValueView::Range(
            DataTypeView::DateTime,
            Box::new(inputs[0]),
            Box::new(inputs[1]),
        ),
        Function::IsEmpty => ValueView::Boolean(is_empty_range(inputs[0])),
    }
}

/// Calls the range function `function` on `inputs`; `None` where `inputs`
/// holds fewer arguments than the function reads.
pub fn call_range_function(function: Function, inputs: &[Value]) -> (result: Option<Value>)
    ensures
        match result {
            Some(v) => inputs@.len() >= arity(function) && v@ == result_of(
                function,
                crate::value::value_views(inputs@),
            ),
            None => inputs@.len() < arity(function),
        },
{
    match function {
        Function::Int4Range => if inputs.len() >= 2 {
            Some(int4range(inputs))
        } else {
            None
        },
        Function::DateRange => if inputs.len() >= 2 {
            Some(daterange(inputs))
        } else {
            None
        },
        Function::TsRange => if inputs.len() >= 2 {
            Some(tsrange(inputs))
        } else {
            None
        },
        Function::IsEmpty => if inputs.len() >= 1 {
            Some(isempty(inputs))
        } else {
            None
        },
    }
}

} // verus!
