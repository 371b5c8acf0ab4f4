//! What the functions of the query language take and give.

use crate::types::assignable;
use crate::types::DataType;
use crate::types::DataTypeView;
use vstd::prelude::*;

verus! {

/// The functions that the library implements.
#[derive(Clone, Copy, Debug, PartialEq, Eq, Structural)]
pub enum Function {
    Int4Range,
    DateRange,
    TsRange,
    IsEmpty,
}

/// The types of the parameters of a function, in order, and the type of
/// its result.
#[derive(Debug)]
pub struct Signature {
    pub parameters: Vec<DataType>,
    pub return_type: DataType,
}

/// The mathematical value of a [`Signature`].
pub struct SignatureView {
    pub parameters: Seq<DataTypeView>,
    pub return_type: DataTypeView,
}

/// The values of a sequence of types.
pub open spec fn type_views(types: Seq<DataType>) -> Seq<DataTypeView> {
    types.map_values(|t: DataType| t@)
}

impl View for Signature {
    type V = SignatureView;

    open spec fn view(&self) -> SignatureView {
        SignatureView {
            parameters: type_views(self.parameters@),
            return_type: self.return_type@,
        }
    }
}

/// Arguments of the types `arguments` from position `a` on are accepted
/// by the parameters `parameters` from position `p` on.
///
/// Parameters take arguments by position. A parameter that takes the
/// further arguments is the last one and takes all that are left, none
/// included; an optional parameter may go without an argument when no
/// argument is left; every other parameter takes one argument, of a type
/// that is accepted for it.
pub open spec fn accepts_from(
    parameters: Seq<DataTypeView>,
    p: int,
    arguments: Seq<DataTypeView>,
    a: int,
) -> bool
    decreases parameters.len() - p,
{
    if p < 0 || a < 0 || a > arguments.len() {
        false
    } else if p >= parameters.len() {
        a == arguments.len()
    } else if parameters[p] is Varargs {
        p == parameters.len() - 1 && forall|i: int|
            a <= i < arguments.len() ==> assignable(#[trigger] arguments[i], parameters[p])
    } else if a == arguments.len() {
        parameters[p] is Optional && accepts_from(parameters, p + 1, arguments, a)
    } else {
        assignable(arguments[a], parameters[p]) && accepts_from(parameters, p + 1, arguments, a + 1)
    }
}

impl Signature {
    /// A call with arguments of the types `arguments` fits this signature.
    pub fn accepts(&self, arguments: &Vec<DataType>) -> (r: bool)
        ensures
            r == accepts_from(self@.parameters, 0, type_views(arguments@), 0),
    {
        let ghost parameters = self@.parameters;
        let ghost given = type_views(arguments@);
        let mut p: usize = 0;
        let mut a: usize = 0;
        while p < self.parameters.len()
            invariant
                parameters == self@.parameters,
                given == type_views(arguments@),
                p <= parameters.len(),
                a <= given.len(),
                accepts_from(parameters, 0, given, 0) == accepts_from(
                    parameters,
                    p as int,
                    given,
                    a as int,
                ),
            decreases parameters.len() - p,
        {
            let parameter = &self.parameters[p];
            assert(parameters[p as int] == parameter@);
            if matches!(parameter, DataType::Varargs(_)) {
                if p != self.parameters.len() - 1 {
                    return false;
                }
                let ghost first = a as int;
                while a < arguments.len()
                    invariant
                        parameters == self@.parameters,
                        given == type_views(arguments@),
                        p < parameters.len(),
                        parameters[p as int] == parameter@,
                        0 <= first <= a <= given.len(),
                        accepts_from(parameters, 0, given, 0) == (forall|i: int|
                            first <= i < given.len() ==> assignable(
                                #[trigger] given[i],
                                parameters[p as int],
                            )),
                        forall|i: int|
                            first <= i < a ==> assignable(
                                #[trigger] given[i],
                                parameters[p as int],
                            ),
                    decreases given.len() - a,
                {
                    assert(given[a as int] == arguments@[a as int]@);
                    if !arguments[a].is_assignable_to(parameter) {
                        return false;
                    }
                    a += 1;
                }
                return true;
            }
            if a == arguments.len() {
                if !matches!(parameter, DataType::Optional(_)) {
                    return false;
                }
            } else {
                assert(given[a as int] == arguments@[a as int]@);
                if !arguments[a].is_assignable_to(parameter) {
                    return false;
                }
                a += 1;
            }
            p += 1;
        }
        a == arguments.len()
    }
}

} // verus!
