use vstd::prelude::*;

verus! {

/// A value tree: the canonical form between host data and wire bytes.
/// `Float` and `Double` hold the IEEE-754 bit pattern of the number.
/// `Union` is a value together with the index of the union member that it
/// was resolved to.
#[derive(Debug, PartialEq)]
pub enum Value {
    Null,
    Boolean(bool),
    Int(i32),
    Long(i64),
    Float(u32),
    Double(u64),
    Bytes(Vec<u8>),
    String(String),
    Record(Vec<FieldValue>),
    Union(usize, Box<Value>),
}

/// One named field of a record value.
#[derive(Debug, PartialEq)]
pub struct FieldValue {
    pub name: String,
    pub value: Value,
}

/// The mathematical content of a [`Value`].
pub enum Datum {
    Null,
    Boolean(bool),
    Int(i32),
    Long(i64),
    Float(u32),
    Double(u64),
    Bytes(Seq<u8>),
    Text(Seq<char>),
    Record(Seq<(Seq<char>, Datum)>),
    Union(nat, Box<Datum>),
}

/// The content of a value, field by field.
pub open spec fn datum_of(value: Value) -> Datum
    decreases value,
{
    match value {
        Value::Null => Datum::Null,
        Value::Boolean(b) => Datum::Boolean(b),
        Value::Int(n) => Datum::Int(n),
        Value::Long(n) => Datum::Long(n),
        Value::Float(bits) => Datum::Float(bits),
        Value::Double(bits) => Datum::Double(bits),
        Value::Bytes(bytes) => Datum::Bytes(bytes@),
        Value::String(text) => Datum::Text(text@),
        Value::Record(fields) => Datum::Record(
            Seq::new(
                fields.len() as nat,
                |i: int|
                    if 0 <= i < fields.len() {
                        (fields[i].name@, datum_of(fields[i].value))
                    } else {
                        (Seq::empty(), Datum::Null)
                    },
            ),
        ),
        Value::Union(index, inner) => Datum::Union(index as nat, Box::new(datum_of(*inner))),
    }
}

impl View for Value {
    type V = Datum;

    open spec fn view(&self) -> Datum {
        datum_of(*self)
    }
}

impl View for FieldValue {
    type V = (Seq<char>, Datum);

    open spec fn view(&self) -> (Seq<char>, Datum) {
        (self.name@, self.value@)
    }
}

/// The views of a record value's fields.
pub open spec fn items_of(fields: Vec<FieldValue>) -> Seq<(Seq<char>, Datum)> {
    Seq::new(fields.len() as nat, |i: int| fields[i]@)
}

} // verus!
