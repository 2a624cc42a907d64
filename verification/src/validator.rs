use crate::error::EncodeError;
use crate::schema::{fields_of, record_shape, shapes_of, union_shape, Kind, Shape, TypeRef};
use crate::value::{items_of, Datum, FieldValue, Value};
use crate::wire::write_bytes;
use vstd::prelude::*;

verus! {

/// The primitive kind of a datum; a record or a union has none.
pub open spec fn kind_of(d: Datum) -> Option<Kind> {
    match d {
        Datum::Null => Some(Kind::Null),
        Datum::Boolean(_) => Some(Kind::Boolean),
        Datum::Int(_) => Some(Kind::Int),
        Datum::Long(_) => Some(Kind::Long),
        Datum::Float(_) => Some(Kind::Float),
        Datum::Double(_) => Some(Kind::Double),
        Datum::Bytes(_) => Some(Kind::Bytes),
        Datum::Text(_) => Some(Kind::String),
        Datum::Record(_) => None,
        Datum::Union(_, _) => None,
    }
}

/// The index of the first item at or after `from` that is named `name`.
pub open spec fn position(items: Seq<(Seq<char>, Datum)>, name: Seq<char>, from: nat) -> Option<
    nat,
>
    decreases items.len() - from,
{
    if from >= items.len() {
        None
    } else if items[from as int].0 == name {
        Some(from)
    } else {
        position(items, name, from + 1)
    }
}

/// What validating a datum against a declared type gives: the datum with
/// every union resolved to its first matching member, or the error.
///
/// - Against a primitive, the datum's kind must be that primitive.
/// - Against a union, the members are tried in declared order and the
///   first that accepts the datum gives the branch index.
/// - Against a record, the datum must be a record with as many fields as
///   declared, each declared name present; the result holds the fields in
///   declared order, and the first declared field that fails gives the
///   error.
pub open spec fn resolve(d: Datum, t: Shape) -> Result<Datum, EncodeError>
    decreases t, 0nat,
{
    match t {
        Shape::Primitive(k) => if kind_of(d) == Some(k) {
            Ok(d)
        } else {
            Err(EncodeError::TypeMismatch)
        },
        Shape::Union(members) => first_match(d, members, 0),
        Shape::Record(_, fields) => match d {
            Datum::Record(items) => if items.len() != fields.len() {
                Err(EncodeError::RecordShapeMismatch)
            } else {
                match resolve_fields(items, fields, 0, Seq::empty()) {
                    Ok(resolved) => Ok(Datum::Record(resolved)),
                    Err(e) => Err(e),
                }
            },
            _ => Err(EncodeError::TypeMismatch),
        },
    }
}

/// The datum resolved to the first member at or after `from` that accepts
/// it.
pub open spec fn first_match(d: Datum, members: Seq<Shape>, from: nat) -> Result<
    Datum,
    EncodeError,
>
    decreases members, members.len() - from,
{
    if from >= members.len() {
        Err(EncodeError::UnionMismatch)
    } else {
        match resolve(d, members[from as int]) {
            Ok(inner) => Ok(Datum::Union(from, Box::new(inner))),
            Err(_) => first_match(d, members, from + 1),
        }
    }
}

/// The record's items resolved against the declared fields from index
/// `from` on, appended to `done`.
pub open spec fn resolve_fields(
    items: Seq<(Seq<char>, Datum)>,
    fields: Seq<(Seq<char>, Shape)>,
    from: nat,
    done: Seq<(Seq<char>, Datum)>,
) -> Result<Seq<(Seq<char>, Datum)>, EncodeError>
    decreases fields, fields.len() - from,
{
    if from >= fields.len() {
        Ok(done)
    } else {
        match position(items, fields[from as int].0, 0) {
            None => Err(EncodeError::RecordShapeMismatch),
            Some(at) => match resolve(items[at as int].1, fields[from as int].1) {
                Ok(inner) => resolve_fields(
                    items,
                    fields,
                    from + 1,
                    done.push((fields[from as int].0, inner)),
                ),
                Err(e) => Err(e),
            },
        }
    }
}

/// The index of the first field of `fields` that is named `name`.
pub fn find_field(fields: &Vec<FieldValue>, name: &String) -> (found: Option<usize>)
    ensures
        match found {
            Some(at) => at < fields.len() && position(items_of(*fields), name@, 0) == Some(
                at as nat,
            ),
            None => position(items_of(*fields), name@, 0) is None,
        },
{
    let mut i: usize = 0;
    while i < fields.len()
        invariant
            i <= fields.len(),
            position(items_of(*fields), name@, i as nat) == position(items_of(*fields), name@, 0),
        decreases fields.len() - i,
    {
        if fields[i].name == *name {
            return Some(i);
        }
        i = i + 1;
    }
    None
}

/// A copy of a primitive value.
fn copy_primitive(value: &Value) -> (copy: Value)
    requires
        kind_of(value@) is Some,
    ensures
        copy@ == value@,
{
    match value {
        Value::Null => Value::Null,
        Value::Boolean(b) => Value::Boolean(*b),
        Value::Int(n) => Value::Int(*n),
        Value::Long(n) => Value::Long(*n),
        Value::Float(bits) => Value::Float(*bits),
        Value::Double(bits) => Value::Double(*bits),
        Value::Bytes(bytes) => {
            let mut copy: Vec<u8> = Vec::new();
            write_bytes(bytes.as_slice(), &mut copy);
            assert(copy@ =~= bytes@);
            Value::Bytes(copy)
        },
        Value::String(text) => Value::String(text.clone()),
        Value::Record(_) => Value::Null,
        Value::Union(_, _) => Value::Null,
    }
}

/// Whether the value's kind is the primitive `kind`.
pub fn has_kind(value: &Value, kind: Kind) -> (same: bool)
    ensures
        same == (kind_of(value@) == Some(kind)),
{
    match value {
        Value::Null => kind == Kind::Null,
        Value::Boolean(_) => kind == Kind::Boolean,
        Value::Int(_) => kind == Kind::Int,
        Value::Long(_) => kind == Kind::Long,
        Value::Float(_) => kind == Kind::Float,
        Value::Double(_) => kind == Kind::Double,
        Value::Bytes(_) => kind == Kind::Bytes,
        Value::String(_) => kind == Kind::String,
        Value::Record(_) => false,
        Value::Union(_, _) => false,
    }
}

/// Validates a value against a declared type and resolves its unions.
///
/// Returns the resolved value, in which each value that stood against a
/// union is wrapped with the index of the first member that accepts it,
/// or the error that `resolve` gives.
pub fn validate(value: &Value, ty: &TypeRef) -> (result: Result<Value, EncodeError>)
    ensures
        match result {
            Ok(resolved) => resolve(value@, ty@) == Ok::<Datum, EncodeError>(resolved@),
            Err(e) => resolve(value@, ty@) == Err::<Datum, EncodeError>(e),
        },
    decreases ty,
{
    match ty {
        TypeRef::Primitive(kind) => {
            if has_kind(value, *kind) {
                Ok(copy_primitive(value))
            } else {
                Err(EncodeError::TypeMismatch)
            }
        },
        TypeRef::Union(members) => {
            proof {
                union_shape(*ty);
            }
            let mut i: usize = 0;
            while i < members.len()
                invariant
                    i <= members.len(),
                    *ty matches TypeRef::Union(ms) && ms == *members,
                    ty@ == Shape::Union(shapes_of(*members)),
                    first_match(value@, shapes_of(*members), i as nat) == first_match(
                        value@,
                        shapes_of(*members),
                        0,
                    ),
                decreases members.len() - i,
            {
                match validate(value, &members[i]) {
                    Ok(inner) => {
                        return Ok(Value::Union(i, Box::new(inner)));
                    },
                    Err(_) => {},
                }
                i = i + 1;
            }
            Err(EncodeError::UnionMismatch)
        },
        TypeRef::Record(_, fields) => {
            proof {
                record_shape(*ty);
            }
            match value {
                Value::Record(items) => {
                    assert(value@ == Datum::Record(items_of(*items))) by {
                        assert(value@->Record_0 =~= items_of(*items));
                    }
                    if items.len() != fields.len() {
                        return Err(EncodeError::RecordShapeMismatch);
                    }
                    let mut done: Vec<FieldValue> = Vec::new();
                    let mut i: usize = 0;
                    assert(items_of(done) =~= Seq::empty());
                    while i < fields.len()
                        invariant
                            i <= fields.len(),
                            *ty matches TypeRef::Record(_, fs) && fs == *fields,
                            ty@ == Shape::Record(ty->Record_0@, fields_of(*fields)),
                            value@ == Datum::Record(items_of(*items)),
                            items.len() == fields.len(),
                            resolve_fields(
                                items_of(*items),
                                fields_of(*fields),
                                i as nat,
                                items_of(done),
                            ) == resolve_fields(
                                items_of(*items),
                                fields_of(*fields),
                                0,
                                Seq::empty(),
                            ),
                        decreases fields.len() - i,
                    {
                        let at: usize = match find_field(items, &fields[i].name) {
                            Some(at) => at,
                            None => {
                                return Err(EncodeError::RecordShapeMismatch);
                            },
                        };
                        let inner: Value = match validate(&items[at].value, &fields[i].ty) {
                            Ok(inner) => inner,
                            Err(e) => {
                                return Err(e);
                            },
                        };
                        let ghost before = items_of(done);
                        done.push(FieldValue { name: fields[i].name.clone(), value: inner });
                        proof {
                            assert(items_of(done) =~= before.push((fields[i as int].name@, inner@)));
                        }
                        i = i + 1;
                    }
                    let resolved: Value = Value::Record(done);
                    proof {
                        assert(resolved@->Record_0 =~= items_of(done));
                    }
                    Ok(resolved)
                },
                _ => Err(EncodeError::TypeMismatch),
            }
        },
    }
}

} // verus!
