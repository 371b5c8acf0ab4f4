//! The values that rows hold and expressions compute.

use crate::text::decimal_string;
use crate::text::decimal_text;
use crate::types::DataType;
use crate::types::DataTypeView;
use vstd::prelude::*;
use vstd::string::StringExecFns;

verus! {

/// A datum, tagged with what it is.
///
/// Dates and date-times are seconds since the epoch. A range holds the type
/// of its bounds, its lower and its upper bound.
#[derive(Debug)]
pub enum Value {
    Integer(i64),
    Text(String),
    Boolean(bool),
    Date(i64),
    Time(String),
    DateTime(i64),
    Range(DataType, Box<Value>, Box<Value>),
    Null,
}

/// The mathematical value of a [`Value`].
pub enum ValueView {
    Integer(i64),
    Text(Seq<char>),
    Boolean(bool),
    Date(i64),
    Time(Seq<char>),
    DateTime(i64),
    Range(DataTypeView, Box<ValueView>, Box<ValueView>),
    Null,
}

/// The mathematical value of the value `v`.
pub open spec fn value_view(v: Value) -> ValueView
    decreases v,
{
    match v {
        Value::Integer(n) => ValueView::Integer(n),
        Value::Text(t) => ValueView::Text(t@),
        Value::Boolean(b) => ValueView::Boolean(b),
        Value::Date(d) => ValueView::Date(d),
        Value::Time(t) => ValueView::Time(t@),
        Value::DateTime(d) => ValueView::DateTime(d),
        Value::Range(t, low, high) => ValueView::Range(
            t@,
            Box::new(value_view(*low)),
            Box::new(value_view(*high)),
        ),
        Value::Null => ValueView::Null,
    }
}

impl View for Value {
    type V = ValueView;

    open spec fn view(&self) -> ValueView {
        value_view(*self)
    }
}

/// The values of a sequence of values.
pub open spec fn value_views(values: Seq<Value>) -> Seq<ValueView> {
    values.map_values(|v: Value| v@)
}

/// The type of a value.
pub open spec fn type_of(v: ValueView) -> DataTypeView {
    match v {
        ValueView::Integer(_) => DataTypeView::Integer,
        ValueView::Text(_) => DataTypeView::Text,
        ValueView::Boolean(_) => DataTypeView::Boolean,
        ValueView::Date(_) => DataTypeView::Date,
        ValueView::Time(_) => DataTypeView::Time,
        ValueView::DateTime(_) => DataTypeView::DateTime,
        ValueView::Range(t, _, _) => DataTypeView::Range(Box::new(t)),
        ValueView::Null => DataTypeView::Null,
    }
}

/// The number that a value stands for in arithmetic: that of an integer,
/// and 0 for every other value.
pub open spec fn number_of(v: ValueView) -> i64 {
    match v {
        ValueView::Integer(n) => n,
        _ => 0,
    }
}

/// The numeral of `n`, with `-` in front where it is negative.
pub open spec fn integer_text(n: int) -> Seq<char> {
    if n < 0 {
        seq!['-'] + decimal_text((-n) as nat)
    } else {
        decimal_text(n as nat)
    }
}

/// The text that a value is shown as. A date is shown as its seconds, a
/// range as its two bounds with `..` between them, `NULL` as `Null`.
pub open spec fn literal_of(v: ValueView) -> Seq<char>
    decreases v,
{
    match v {
        ValueView::Integer(n) => integer_text(n as int),
        ValueView::Text(t) => t,
        ValueView::Boolean(b) => if b {
            "true"@
        } else {
            "false"@
        },
        ValueView::Date(d) => integer_text(d as int),
        ValueView::Time(t) => t,
        ValueView::DateTime(d) => integer_text(d as int),
        ValueView::Range(_, low, high) => literal_of(*low) + ".."@ + literal_of(*high),
        ValueView::Null => "Null"@,
    }
}

/// The numeral of `n`.
pub fn integer_string(n: i64) -> (t: String)
    ensures
        t@ == integer_text(n as int),
{
    if n < 0 {
        let magnitude: u64 = ((-(n + 1)) as u64) + 1;
        let digits = decimal_string(magnitude);
        let mut t = String::new();
        t.push('-');
        t.append(digits.as_str());
        assert(t@ =~= seq!['-'] + decimal_text((-n) as nat));
        t
    } else {
        decimal_string(n as u64)
    }
}

impl Clone for Value {
    fn clone(&self) -> (copy: Value)
        ensures
            copy@ == self@,
    {
        self.duplicate()
    }
}

impl Value {
    /// A copy of this value.
    pub fn duplicate(&self) -> (copy: Value)
        ensures
            copy@ == self@,
        decreases self,
    {
        match self {
            Value::Integer(n) => Value::Integer(*n),
            Value::Text(t) => Value::Text(t.clone()),
            Value::Boolean(b) => Value::Boolean(*b),
            Value::Date(d) => Value::Date(*d),
            Value::Time(t) => Value::Time(t.clone()),
            Value::DateTime(d) => Value::DateTime(*d),
            Value::Range(t, low, high) => Value::Range(
                t.clone(),
                Box::new(low.duplicate()),
                Box::new(high.duplicate()),
            ),
            Value::Null => Value::Null,
        }
    }

    /// The type of this value.
    pub fn data_type(&self) -> (t: DataType)
        ensures
            t@ == type_of(self@),
    {
        match self {
            Value::Integer(_) => DataType::Integer,
            Value::Text(_) => DataType::Text,
            Value::Boolean(_) => DataType::Boolean,
            Value::Date(_) => DataType::Date,
            Value::Time(_) => DataType::Time,
            Value::DateTime(_) => DataType::DateTime,
            Value::Range(t, _, _) => DataType::Range(Box::new(t.clone())),
            Value::Null => DataType::Null,
        }
    }

    /// The two values have one tag and one payload.
    pub fn equals(&self, other: &Value) -> (r: bool)
        ensures
            r == (self@ == other@),
        decreases self,
    {
        match self {
            Value::Integer(a) => match other {
                Value::Integer(b) => *a == *b,
                _ => false,
            },
            Value::Text(a) => match other {
                Value::Text(b) => *a == *b,
                _ => false,
            },
            Value::Boolean(a) => match other {
                Value::Boolean(b) => *a == *b,
                _ => false,
            },
            Value::Date(a) => match other {
                Value::Date(b) => *a == *b,
                _ => false,
            },
            Value::Time(a) => match other {
                Value::Time(b) => *a == *b,
                _ => false,
            },
            Value::DateTime(a) => match other {
                Value::DateTime(b) => *a == *b,
                _ => false,
            },
            Value::Range(t, low, high) => match other {
                Value::Range(u, from, to) => t.equals(u) && low.equals(from) && high.equals(to),
                _ => false,
            },
            Value::Null => matches!(other, Value::Null),
        }
    }

    /// This value is `NULL`.
    pub fn is_null(&self) -> (r: bool)
        ensures
            r == (self@ is Null),
    {
        matches!(self, Value::Null)
    }

    /// The number of an integer; 0 for every other value.
    pub fn as_number(&self) -> (n: i64)
        ensures
            n == number_of(self@),
    {
        match self {
            Value::Integer(n) => *n,
            _ => 0,
        }
    }

    /// The truth of a boolean; `false` for every other value.
    pub fn as_bool(&self) -> (b: bool)
        ensures
            b == (self@ == ValueView::Boolean(true)),
    {
        match self {
            Value::Boolean(b) => *b,
            _ => false,
        }
    }

    /// The text of a text; the empty text for every other value.
    pub fn as_text(&self) -> (t: String)
        ensures
            t@ == match self@ {
                ValueView::Text(text) => text,
                _ => Seq::empty(),
            },
    {
        match self {
            Value::Text(t) => t.clone(),
            _ => String::new(),
        }
    }

    /// The two bounds of a range; two `NULL`s for every other value.
    pub fn as_range(&self) -> (bounds: (Value, Value))
        ensures
            (bounds.0@, bounds.1@) == match self@ {
                ValueView::Range(_, low, high) => (*low, *high),
                _ => (ValueView::Null, ValueView::Null),
            },
    {
        match self {
            Value::Range(_, low, high) => (low.duplicate(), high.duplicate()),
            _ => (Value::Null, Value::Null),
        }
    }

    /// The text that this value is shown as.
    pub fn literal(&self) -> (t: String)
        ensures
            t@ == literal_of(self@),
        decreases self,
    {
        match self {
            Value::Integer(n) => integer_string(*n),
            Value::Text(t) => t.clone(),
            Value::Boolean(b) => if *b {
                "true".to_owned()
            } else {
                "false".to_owned()
            },
            Value::Date(d) => integer_string(*d),
            Value::Time(t) => t.clone(),
            Value::DateTime(d) => integer_string(*d),
            Value::Range(_, low, high) => {
                let mut t = low.literal();
                t.append("..");
                let upper = high.literal();
                t.append(upper.as_str());
                t
            },
            Value::Null => "Null".to_owned(),
        }
    }
}

} // verus!
