//! The values that a record's fields hold, and their kinds.

use vstd::prelude::*;

verus! {

/// One field value of a row.
#[derive(Debug)]
pub enum Value {
    /// No value: an absent key or an empty optional column.
    Null,
    /// A text column.
    Text(String),
    /// A small integer enumeration.
    Small(u8),
    /// An integer column.
    Integer(usize),
}

/// The mathematical form of a [`Value`].
pub ghost enum ValueView {
    Null,
    Text(Seq<char>),
    Small(u8),
    Integer(usize),
}

impl View for Value {
    type V = ValueView;

    open spec fn view(&self) -> ValueView {
        match self {
            Value::Null => ValueView::Null,
            Value::Text(s) => ValueView::Text(s@),
            Value::Small(n) => ValueView::Small(*n),
            Value::Integer(n) => ValueView::Integer(*n),
        }
    }
}

/// The row that a sequence of values stands for.
pub open spec fn row_view(values: Seq<Value>) -> Seq<ValueView> {
    values.map_values(|v: Value| v@)
}

/// The rows that a sequence of value sequences stands for.
pub open spec fn rows_view(rows: Seq<Vec<Value>>) -> Seq<Seq<ValueView>> {
    rows.map_values(|r: Vec<Value>| row_view(r@))
}

impl Value {
    /// Whether the value is absent.
    pub fn is_null(&self) -> (b: bool)
        ensures
            b == (self@ == ValueView::Null),
    {
        match self {
            Value::Null => true,
            _ => false,
        }
    }

    /// A copy of the value.
    pub fn duplicate(&self) -> (out: Value)
        ensures
            out@ == self@,
    {
        match self {
            Value::Null => Value::Null,
            Value::Text(s) => Value::Text(s.clone()),
            Value::Small(n) => Value::Small(*n),
            Value::Integer(n) => Value::Integer(*n),
        }
    }
}

/// The value of an optional text field.
pub open spec fn opt_text_view(field: Option<String>) -> ValueView {
    match field {
        Some(s) => ValueView::Text(s@),
        None => ValueView::Null,
    }
}

/// The value of an optional small-integer field.
pub open spec fn opt_small_view(field: Option<u8>) -> ValueView {
    match field {
        Some(n) => ValueView::Small(n),
        None => ValueView::Null,
    }
}

/// The value of an optional integer field.
pub open spec fn opt_integer_view(field: Option<usize>) -> ValueView {
    match field {
        Some(n) => ValueView::Integer(n),
        None => ValueView::Null,
    }
}

/// The value of a text field.
pub fn text(field: &String) -> (v: Value)
    ensures
        v@ == ValueView::Text(field@),
{
    Value::Text(field.clone())
}

/// The value of an optional text field.
pub fn opt_text(field: &Option<String>) -> (v: Value)
    ensures
        v@ == opt_text_view(*field),
{
    match field {
        Some(s) => Value::Text(s.clone()),
        None => Value::Null,
    }
}

/// The value of an optional small-integer field.
pub fn opt_small(field: &Option<u8>) -> (v: Value)
    ensures
        v@ == opt_small_view(*field),
{
    match field {
        Some(n) => Value::Small(*n),
        None => Value::Null,
    }
}

/// The value of an optional integer field.
pub fn opt_integer(field: &Option<usize>) -> (v: Value)
    ensures
        v@ == opt_integer_view(*field),
{
    match field {
        Some(n) => Value::Integer(*n),
        None => Value::Null,
    }
}

/// The text that `v` holds, if it holds text.
pub fn as_text(v: &Value) -> (field: Option<String>)
    ensures
        field is Some <==> v@ is Text,
        field is Some ==> ValueView::Text(field->0@) == v@,
{
    match v {
        Value::Text(s) => Some(s.clone()),
        _ => None,
    }
}

/// The small integer that `v` holds, if it holds one.
pub fn as_small(v: &Value) -> (field: Option<u8>)
    ensures
        field is Some <==> v@ is Small,
        field is Some ==> ValueView::Small(field->0) == v@,
{
    match v {
        Value::Small(n) => Some(*n),
        _ => None,
    }
}

/// The integer that `v` holds, if it holds one.
pub fn as_integer(v: &Value) -> (field: Option<usize>)
    ensures
        field is Some <==> v@ is Integer,
        field is Some ==> ValueView::Integer(field->0) == v@,
{
    match v {
        Value::Integer(n) => Some(*n),
        _ => None,
    }
}

/// The optional text that `v` holds, if it holds text or nothing.
pub fn as_opt_text(v: &Value) -> (field: Option<Option<String>>)
    ensures
        field is Some <==> v@ is Text || v@ is Null,
        field is Some ==> opt_text_view(field->0) == v@,
{
    match v {
        Value::Text(s) => Some(Some(s.clone())),
        Value::Null => Some(None),
        _ => None,
    }
}

/// The optional small integer that `v` holds, if it holds one or nothing.
pub fn as_opt_small(v: &Value) -> (field: Option<Option<u8>>)
    ensures
        field is Some <==> v@ is Small || v@ is Null,
        field is Some ==> opt_small_view(field->0) == v@,
{
    match v {
        Value::Small(n) => Some(Some(*n)),
        Value::Null => Some(None),
        _ => None,
    }
}

/// The optional integer that `v` holds, if it holds one or nothing.
pub fn as_opt_integer(v: &Value) -> (field: Option<Option<usize>>)
    ensures
        field is Some <==> v@ is Integer || v@ is Null,
        field is Some ==> opt_integer_view(field->0) == v@,
{
    match v {
        Value::Integer(n) => Some(Some(*n)),
        Value::Null => Some(None),
        _ => None,
    }
}

/// A copy of a row of values.
pub fn duplicate_row(row: &Vec<Value>) -> (out: Vec<Value>)
    ensures
        row_view(out@) == row_view(row@),
{
    let mut out: Vec<Value> = Vec::new();
    let mut i: usize = 0;
    while i < row.len()
        invariant
            i <= row.len(),
            out.len() == i,
            forall|k: int| 0 <= k < i ==> out[k]@ == row[k]@,
        decreases row.len() - i,
    {
        out.push(row[i].duplicate());
        i += 1;
    }
    assert(row_view(out@) =~= row_view(row@));
    out
}

} // verus!
