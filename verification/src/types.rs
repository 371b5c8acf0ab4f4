//! The data types of the query language, and the rules by which a value of
//! one type is accepted where another is asked for.

use vstd::prelude::*;

verus! {

/// The type of a value or of an expression.
#[derive(Debug)]
pub enum DataType {
    /// Accepts a value of every type.
    Any,
    /// The type of `NULL`, accepted wherever a value is.
    Null,
    /// The type of what has no type: an unknown function or a clash of types.
    Undefined,
    Boolean,
    Integer,
    Float,
    /// Accepts integers and floats.
    Number,
    Text,
    Date,
    Time,
    DateTime,
    Interval,
    /// A range over values of the inner type.
    Range(Box<DataType>),
    /// An array of values of the element type.
    Array(Box<DataType>),
    /// A record: named fields and their types, in order.
    Composite(Vec<(String, DataType)>),
    /// Accepts what one of the alternatives accepts.
    Variant(Vec<DataType>),
    /// A parameter that may be left out.
    Optional(Box<DataType>),
    /// A parameter that takes all further arguments.
    Varargs(Box<DataType>),
    /// A result whose type is that of an argument.
    Dynamic,
}

/// The mathematical value of a [`DataType`].
pub enum DataTypeView {
    Any,
    Null,
    Undefined,
    Boolean,
    Integer,
    Float,
    Number,
    Text,
    Date,
    Time,
    DateTime,
    Interval,
    Range(Box<DataTypeView>),
    Array(Box<DataTypeView>),
    Composite(Seq<(Seq<char>, DataTypeView)>),
    Variant(Seq<DataTypeView>),
    Optional(Box<DataTypeView>),
    Varargs(Box<DataTypeView>),
    Dynamic,
}

/// The mathematical value of the type `t`.
pub open spec fn type_view(t: DataType) -> DataTypeView
    decreases t,
{
    match t {
        DataType::Any => DataTypeView::Any,
        DataType::Null => DataTypeView::Null,
        DataType::Undefined => DataTypeView::Undefined,
        DataType::Boolean => DataTypeView::Boolean,
        DataType::Integer => DataTypeView::Integer,
        DataType::Float => DataTypeView::Float,
        DataType::Number => DataTypeView::Number,
        DataType::Text => DataTypeView::Text,
        DataType::Date => DataTypeView::Date,
        DataType::Time => DataTypeView::Time,
        DataType::DateTime => DataTypeView::DateTime,
        DataType::Interval => DataTypeView::Interval,
        DataType::Range(inner) => DataTypeView::Range(Box::new(type_view(*inner))),
        DataType::Array(inner) => DataTypeView::Array(Box::new(type_view(*inner))),
        DataType::Composite(fields) => DataTypeView::Composite(
            Seq::new(
                fields@.len(),
                |i: int|
                    if 0 <= i < fields@.len() {
                        (fields@[i].0@, type_view(fields@[i].1))
                    } else {
                        (Seq::empty(), DataTypeView::Any)
                    },
            ),
        ),
        DataType::Variant(alternatives) => DataTypeView::Variant(
            Seq::new(
                alternatives@.len(),
                |i: int|
                    if 0 <= i < alternatives@.len() {
                        type_view(alternatives@[i])
                    } else {
                        DataTypeView::Any
                    },
            ),
        ),
        DataType::Optional(inner) => DataTypeView::Optional(Box::new(type_view(*inner))),
        DataType::Varargs(inner) => DataTypeView::Varargs(Box::new(type_view(*inner))),
        DataType::Dynamic => DataTypeView::Dynamic,
    }
}

impl View for DataType {
    type V = DataTypeView;

    open spec fn view(&self) -> DataTypeView {
        type_view(*self)
    }
}

/// A value of type `from` is accepted where one of type `to` is asked for.
///
/// `Any` accepts every type and every type accepts itself. `NULL` is
/// accepted everywhere but where nothing is. Integers widen to floats, and
/// both are numbers. A parameter that is optional or takes the further
/// arguments accepts what its inner type accepts, a variant what one of its
/// alternatives accepts, and a range or an array what its inner type
/// allows.
pub open spec fn assignable(from: DataTypeView, to: DataTypeView) -> bool
    decreases to,
{
    ||| to is Any
    ||| from == to
    ||| (from is Null && !(to is Undefined))
    ||| (to is Number && (from is Integer || from is Float))
    ||| (to is Float && from is Integer)
    ||| match to {
        DataTypeView::Optional(inner) => assignable(from, *inner),
        DataTypeView::Varargs(inner) => assignable(from, *inner),
        DataTypeView::Variant(alternatives) => exists|i: int|
            0 <= i < alternatives.len() && assignable(from, #[trigger] alternatives[i]),
        DataTypeView::Range(inner) => match from {
            DataTypeView::Range(given) => assignable(*given, *inner),
            _ => false,
        },
        DataTypeView::Array(inner) => match from {
            DataTypeView::Array(given) => assignable(*given, *inner),
            _ => false,
        },
        _ => false,
    }
}

/// The type that holds values of both `a` and `b`: the one of the two that
/// accepts the other, `b` where both do; `Undefined` where neither does.
pub open spec fn common_type(a: DataTypeView, b: DataTypeView) -> DataTypeView {
    if assignable(a, b) {
        b
    } else if assignable(b, a) {
        a
    } else {
        DataTypeView::Undefined
    }
}

impl Clone for DataType {
    fn clone(&self) -> (copy: DataType)
        ensures
            copy@ == self@,
    {
        self.duplicate()
    }
}

impl DataType {
    /// A copy of this type.
    pub fn duplicate(&self) -> (copy: DataType)
        ensures
            copy@ == self@,
        decreases self,
    {
        match self {
            DataType::Any => DataType::Any,
            DataType::Null => DataType::Null,
            DataType::Undefined => DataType::Undefined,
            DataType::Boolean => DataType::Boolean,
            DataType::Integer => DataType::Integer,
            DataType::Float => DataType::Float,
            DataType::Number => DataType::Number,
            DataType::Text => DataType::Text,
            DataType::Date => DataType::Date,
            DataType::Time => DataType::Time,
            DataType::DateTime => DataType::DateTime,
            DataType::Interval => DataType::Interval,
            DataType::Range(inner) => DataType::Range(Box::new((**inner).duplicate())),
            DataType::Array(inner) => DataType::Array(Box::new((**inner).duplicate())),
            DataType::Optional(inner) => DataType::Optional(Box::new((**inner).duplicate())),
            DataType::Varargs(inner) => DataType::Varargs(Box::new((**inner).duplicate())),
            DataType::Dynamic => DataType::Dynamic,
            DataType::Composite(fields) => {
                let mut copies: Vec<(String, DataType)> = Vec::new();
                let mut i: usize = 0;
                while i < fields.len()
                    invariant
                        i <= fields@.len(),
                        copies@.len() == i,
                        *self == DataType::Composite(*fields),
                        forall|j: int|
                            0 <= j < i ==> copies@[j].0@ == fields@[j].0@ && copies@[j].1@
                                == fields@[j].1@,
                    decreases fields@.len() - i,
                {
                    proof {
                        vstd::std_specs::vec::axiom_vec_index_decreases(*fields, i as int);
                    }
                    let field = &fields[i];
                    let inner = field.1.duplicate();
                    assert(self@->Composite_0[i as int] == (
                        fields@[i as int].0@,
                        fields@[i as int].1@,
                    ));
                    copies.push((field.0.clone(), inner));
                    i += 1;
                }
                let copy = DataType::Composite(copies);
                assert(copy@->Composite_0 =~= self@->Composite_0);
                copy
            },
            DataType::Variant(alternatives) => {
                let mut copies: Vec<DataType> = Vec::new();
                let mut i: usize = 0;
                while i < alternatives.len()
                    invariant
                        i <= alternatives@.len(),
                        copies@.len() == i,
                        *self == DataType::Variant(*alternatives),
                        forall|j: int| 0 <= j < i ==> copies@[j]@ == alternatives@[j]@,
                    decreases alternatives@.len() - i,
                {
                    proof {
                        vstd::std_specs::vec::axiom_vec_index_decreases(*alternatives, i as int);
                    }
                    let inner = alternatives[i].duplicate();
                    assert(self@->Variant_0[i as int] == alternatives@[i as int]@);
                    copies.push(inner);
                    i += 1;
                }
                let copy = DataType::Variant(copies);
                assert(copy@->Variant_0 =~= self@->Variant_0);
                copy
            },
        }
    }

    /// The two types are the same, inner types and field names included.
    pub fn equals(&self, other: &DataType) -> (r: bool)
        ensures
            r == (self@ == other@),
        decreases self,
    {
        broadcast use vstd::std_specs::vec::axiom_vec_index_decreases;

        match self {
            DataType::Any => matches!(other, DataType::Any),
            DataType::Null => matches!(other, DataType::Null),
            DataType::Undefined => matches!(other, DataType::Undefined),
            DataType::Boolean => matches!(other, DataType::Boolean),
            DataType::Integer => matches!(other, DataType::Integer),
            DataType::Float => matches!(other, DataType::Float),
            DataType::Number => matches!(other, DataType::Number),
            DataType::Text => matches!(other, DataType::Text),
            DataType::Date => matches!(other, DataType::Date),
            DataType::Time => matches!(other, DataType::Time),
            DataType::DateTime => matches!(other, DataType::DateTime),
            DataType::Interval => matches!(other, DataType::Interval),
            DataType::Dynamic => matches!(other, DataType::Dynamic),
            DataType::Range(x) => match other {
                DataType::Range(y) => x.equals(y),
                _ => false,
            },
            DataType::Array(x) => match other {
                DataType::Array(y) => x.equals(y),
                _ => false,
            },
            DataType::Optional(x) => match other {
                DataType::Optional(y) => x.equals(y),
                _ => false,
            },
            DataType::Varargs(x) => match other {
                DataType::Varargs(y) => x.equals(y),
                _ => false,
            },
            DataType::Variant(x) => match other {
                DataType::Variant(y) => {
                    if x.len() != y.len() {
                        assert(self@->Variant_0.len() != other@->Variant_0.len());
                        return false;
                    }
                    let mut i: usize = 0;
                    while i < x.len()
                        invariant
                            i <= x@.len(),
                            x@.len() == y@.len(),
                            *self == DataType::Variant(*x),
                            *other == DataType::Variant(*y),
                            forall|j: int| 0 <= j < i ==> x@[j]@ == y@[j]@,
                        decreases x@.len() - i,
                    {
                        if !x[i].equals(&y[i]) {
                            assert(self@->Variant_0[i as int] == x@[i as int]@);
                            assert(other@->Variant_0[i as int] == y@[i as int]@);
                            return false;
                        }
                        i += 1;
                    }
                    assert(self@->Variant_0 =~= other@->Variant_0);
                    true
                },
                _ => false,
            },
            DataType::Composite(x) => match other {
                DataType::Composite(y) => {
                    if x.len() != y.len() {
                        assert(self@->Composite_0.len() != other@->Composite_0.len());
                        return false;
                    }
                    let mut i: usize = 0;
                    while i < x.len()
                        invariant
                            i <= x@.len(),
                            x@.len() == y@.len(),
                            *self == DataType::Composite(*x),
                            *other == DataType::Composite(*y),
                            forall|j: int|
                                0 <= j < i ==> x@[j].0@ == y@[j].0@ && x@[j].1@ == y@[j].1@,
                        decreases x@.len() - i,
                    {
                        if !(x[i].0 == y[i].0) || !x[i].1.equals(&y[i].1) {
                            assert(self@->Composite_0[i as int] == (
                                x@[i as int].0@,
                                x@[i as int].1@,
                            ));
                            assert(other@->Composite_0[i as int] == (
                                y@[i as int].0@,
                                y@[i as int].1@,
                            ));
                            return false;
                        }
                        i += 1;
                    }
                    assert(self@->Composite_0 =~= other@->Composite_0);
                    true
                },
                _ => false,
            },
        }
    }

    /// A value of this type is accepted where one of type `target` is asked for.
    pub fn is_assignable_to(&self, target: &DataType) -> (r: bool)
        ensures
            r == assignable(self@, target@),
        decreases target,
    {
        broadcast use vstd::std_specs::vec::axiom_vec_index_decreases;

        if matches!(target, DataType::Any) || self.equals(target) {
            return true;
        }
        if matches!(self, DataType::Null) && !matches!(target, DataType::Undefined) {
            return true;
        }
        match target {
            DataType::Number => matches!(self, DataType::Integer) || matches!(
                self,
                DataType::Float
            ),
            DataType::Float => matches!(self, DataType::Integer),
            DataType::Optional(inner) => self.is_assignable_to(inner),
            DataType::Varargs(inner) => self.is_assignable_to(inner),
            DataType::Range(inner) => match self {
                DataType::Range(given) => given.is_assignable_to(inner),
                _ => false,
            },
            DataType::Array(inner) => match self {
                DataType::Array(given) => given.is_assignable_to(inner),
                _ => false,
            },
            DataType::Variant(alternatives) => {
                let mut i: usize = 0;
                while i < alternatives.len()
                    invariant
                        i <= alternatives@.len(),
                        *target == DataType::Variant(*alternatives),
                        forall|j: int|
                            0 <= j < i ==> !assignable(self@, #[trigger] target@->Variant_0[j]),
                    decreases alternatives@.len() - i,
                {
                    assert(target@->Variant_0[i as int] == alternatives@[i as int]@);
                    if self.is_assignable_to(&alternatives[i]) {
                        return true;
                    }
                    i += 1;
                }
                false
            },
            _ => false,
        }
    }

    /// The type that holds values of this type and of `other`.
    pub fn coerce(&self, other: &DataType) -> (common: DataType)
        ensures
            common@ == common_type(self@, other@),
    {
        if self.is_assignable_to(other) {
            other.clone()
        } else if other.is_assignable_to(self) {
            self.clone()
        } else {
            DataType::Undefined
        }
    }

    /// This is a type of numbers: `Integer`, `Float` or `Number`.
    pub fn is_number(&self) -> (r: bool)
        ensures
            r == (self@ is Integer || self@ is Float || self@ is Number),
    {
        matches!(self, DataType::Integer) || matches!(self, DataType::Float) || matches!(
            self,
            DataType::Number
        )
    }
}

} // verus!
