use crate::error::EncodeError;
use crate::schema::{Field, Kind};
use crate::value::{items_of, Datum, FieldValue, Value};
use crate::wire::write_bytes;
use vstd::prelude::*;

verus! {

/// A host value of primitive kind. `Float` and `Double` hold the IEEE-754
/// bit pattern of the number.
#[derive(Clone, Debug, PartialEq)]
pub enum Scalar {
    Boolean(bool),
    Int(i32),
    Long(i64),
    Float(u32),
    Double(u64),
    Bytes(Vec<u8>),
    String(String),
}

/// A host field of a two-variant sum type: a value, or none.
#[derive(Clone, Debug, PartialEq)]
pub enum Presence {
    Present(Scalar),
    Absent,
}

/// How the host represents one field.
#[derive(Clone, Debug, PartialEq)]
pub enum HostValue {
    /// A native optional wrapper.
    Optional(Option<Scalar>),
    /// A bare scalar that is always there.
    Plain(Scalar),
    /// An explicit two-variant sum type.
    Sum(Presence),
}

/// One named field of a host record.
#[derive(Clone, Debug, PartialEq)]
pub struct HostField {
    pub name: String,
    pub value: HostValue,
}

/// The representation of "may be absent" that the mapper expects of the
/// host.
#[derive(Clone, Copy, Debug, PartialEq, Eq, Structural)]
pub enum Policy {
    DirectOptional,
    PlainScalar,
    ExplicitSumType,
}

/// A double that may be absent, as an explicit sum type. `Present` holds
/// the bit pattern of the number.
#[derive(Clone, Copy, Debug, PartialEq, Eq, Structural)]
pub enum MyDouble {
    Present(u64),
    Absent,
}

/// A float that may be absent, as an explicit sum type. `Present` holds
/// the bit pattern of the number.
#[derive(Clone, Copy, Debug, PartialEq, Eq, Structural)]
pub enum MyFloat {
    Present(u32),
    Absent,
}

impl Default for MyDouble {
    /// A present zero.
    fn default() -> (d: MyDouble)
        ensures
            d == MyDouble::Present(0),
    {
        MyDouble::Present(0)
    }
}

impl Default for MyFloat {
    /// A present zero.
    fn default() -> (d: MyFloat)
        ensures
            d == MyFloat::Present(0),
    {
        MyFloat::Present(0)
    }
}

impl MyDouble {
    /// The host field that this value stands for.
    pub open spec fn host(self) -> HostValue {
        match self {
            MyDouble::Present(bits) => HostValue::Sum(Presence::Present(Scalar::Double(bits))),
            MyDouble::Absent => HostValue::Sum(Presence::Absent),
        }
    }

    /// This value as a host field of the explicit sum type.
    pub fn to_host(&self) -> (h: HostValue)
        ensures
            h == self.host(),
    {
        match self {
            MyDouble::Present(bits) => HostValue::Sum(Presence::Present(Scalar::Double(*bits))),
            MyDouble::Absent => HostValue::Sum(Presence::Absent),
        }
    }
}

impl MyFloat {
    /// The host field that this value stands for.
    pub open spec fn host(self) -> HostValue {
        match self {
            MyFloat::Present(bits) => HostValue::Sum(Presence::Present(Scalar::Float(bits))),
            MyFloat::Absent => HostValue::Sum(Presence::Absent),
        }
    }

    /// This value as a host field of the explicit sum type.
    pub fn to_host(&self) -> (h: HostValue)
        ensures
            h == self.host(),
    {
        match self {
            MyFloat::Present(bits) => HostValue::Sum(Presence::Present(Scalar::Float(*bits))),
            MyFloat::Absent => HostValue::Sum(Presence::Absent),
        }
    }
}

/// The datum that a scalar is.
pub open spec fn scalar_datum(s: Scalar) -> Datum {
    match s {
        Scalar::Boolean(b) => Datum::Boolean(b),
        Scalar::Int(n) => Datum::Int(n),
        Scalar::Long(n) => Datum::Long(n),
        Scalar::Float(bits) => Datum::Float(bits),
        Scalar::Double(bits) => Datum::Double(bits),
        Scalar::Bytes(bytes) => Datum::Bytes(bytes@),
        Scalar::String(text) => Datum::Text(text@),
    }
}

/// The primitive kind of a scalar.
pub open spec fn scalar_kind(s: Scalar) -> Kind {
    match s {
        Scalar::Boolean(_) => Kind::Boolean,
        Scalar::Int(_) => Kind::Int,
        Scalar::Long(_) => Kind::Long,
        Scalar::Float(_) => Kind::Float,
        Scalar::Double(_) => Kind::Double,
        Scalar::Bytes(_) => Kind::Bytes,
        Scalar::String(_) => Kind::String,
    }
}

/// What a policy makes of one host field.
///
/// - `DirectOptional` takes an optional: the bare scalar if present, null
///   if absent. A present value carries no tag.
/// - `PlainScalar` takes a plain scalar and gives it as it is.
/// - `ExplicitSumType` takes a sum: the bare scalar if present, null if
///   absent.
/// A host field in another representation than the policy's is a mapping
/// error.
pub open spec fn mapped(policy: Policy, host: HostValue) -> Result<Datum, EncodeError> {
    match (policy, host) {
        (Policy::DirectOptional, HostValue::Optional(Some(s))) => Ok(scalar_datum(s)),
        (Policy::DirectOptional, HostValue::Optional(None)) => Ok(Datum::Null),
        (Policy::PlainScalar, HostValue::Plain(s)) => Ok(scalar_datum(s)),
        (Policy::ExplicitSumType, HostValue::Sum(Presence::Present(s))) => Ok(scalar_datum(s)),
        (Policy::ExplicitSumType, HostValue::Sum(Presence::Absent)) => Ok(Datum::Null),
        _ => Err(EncodeError::Mapping),
    }
}

/// The host fields from index `from` on, mapped in host order and
/// appended to `done`; the first field that fails gives the error.
pub open spec fn mapped_fields(
    policy: Policy,
    host: Seq<HostField>,
    from: nat,
    done: Seq<(Seq<char>, Datum)>,
) -> Result<Seq<(Seq<char>, Datum)>, EncodeError>
    decreases host.len() - from,
{
    if from >= host.len() {
        Ok(done)
    } else {
        match mapped(policy, host[from as int].value) {
            Ok(d) => mapped_fields(policy, host, from + 1, done.push((host[from as int].name@, d))),
            Err(e) => Err(e),
        }
    }
}

/// What a policy makes of a host record for a record type of `count`
/// fields: a record datum with the host's fields in the host's order, or a
/// mapping error where the host has another number of fields or one in
/// another representation than the policy's.
pub open spec fn mapped_record(policy: Policy, count: nat, host: Seq<HostField>) -> Result<
    Datum,
    EncodeError,
> {
    if host.len() != count {
        Err(EncodeError::Mapping)
    } else {
        match mapped_fields(policy, host, 0, Seq::empty()) {
            Ok(items) => Ok(Datum::Record(items)),
            Err(e) => Err(e),
        }
    }
}

impl Scalar {
    /// The value that this scalar is.
    pub fn to_value(&self) -> (v: Value)
        ensures
            v@ == scalar_datum(*self),
    {
        match self {
            Scalar::Boolean(b) => Value::Boolean(*b),
            Scalar::Int(n) => Value::Int(*n),
            Scalar::Long(n) => Value::Long(*n),
            Scalar::Float(bits) => Value::Float(*bits),
            Scalar::Double(bits) => Value::Double(*bits),
            Scalar::Bytes(bytes) => {
                let mut copy: Vec<u8> = Vec::new();
                write_bytes(bytes.as_slice(), &mut copy);
                assert(copy@ =~= bytes@);
                Value::Bytes(copy)
            },
            Scalar::String(text) => Value::String(text.clone()),
        }
    }
}

/// Maps one host field under `policy`.
pub fn map_field(policy: Policy, host: &HostValue) -> (result: Result<Value, EncodeError>)
    ensures
        match result {
            Ok(v) => mapped(policy, *host) == Ok::<Datum, EncodeError>(v@),
            Err(e) => mapped(policy, *host) == Err::<Datum, EncodeError>(e),
        },
{
    match policy {
        Policy::DirectOptional => match host {
            HostValue::Optional(Some(s)) => Ok(s.to_value()),
            HostValue::Optional(None) => Ok(Value::Null),
            _ => Err(EncodeError::Mapping),
        },
        Policy::PlainScalar => match host {
            HostValue::Plain(s) => Ok(s.to_value()),
            _ => Err(EncodeError::Mapping),
        },
        Policy::ExplicitSumType => match host {
            HostValue::Sum(Presence::Present(s)) => Ok(s.to_value()),
            HostValue::Sum(Presence::Absent) => Ok(Value::Null),
            _ => Err(EncodeError::Mapping),
        },
    }
}

/// Maps a host record under `policy` for the record type with the fields
/// `fields`.
pub fn map_record(policy: Policy, fields: &Vec<Field>, host: &Vec<HostField>) -> (result: Result<
    Value,
    EncodeError,
>)
    ensures
        match result {
            Ok(v) => mapped_record(policy, fields.len() as nat, host@) == Ok::<Datum, EncodeError>(
                v@,
            ),
            Err(e) => mapped_record(policy, fields.len() as nat, host@) == Err::<
                Datum,
                EncodeError,
            >(e),
        },
{
    if host.len() != fields.len() {
        return Err(EncodeError::Mapping);
    }
    let mut done: Vec<FieldValue> = Vec::new();
    let mut i: usize = 0;
    assert(items_of(done) =~= Seq::empty());
    while i < host.len()
        invariant
            i <= host.len(),
            host.len() == fields.len(),
            mapped_fields(policy, host@, i as nat, items_of(done)) == mapped_fields(
                policy,
                host@,
                0,
                Seq::empty(),
            ),
        decreases host.len() - i,
    {
        let v: Value = match map_field(policy, &host[i].value) {
            Ok(v) => v,
            Err(e) => {
                return Err(e);
            },
        };
        let ghost before = items_of(done);
        done.push(FieldValue { name: host[i].name.clone(), value: v });
        proof {
            assert(items_of(done) =~= before.push((host[i as int].name@, v@)));
        }
        i = i + 1;
    }
    let record: Value = Value::Record(done);
    proof {
        assert(record@->Record_0 =~= items_of(done));
    }
    Ok(record)
}

} // verus!
