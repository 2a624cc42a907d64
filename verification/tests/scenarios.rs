use schema_encoder::encoder::encode_to_vec;
use schema_encoder::error::EncodeError;
use schema_encoder::mapper::{
    map_field, map_record, HostField, HostValue, MyDouble, MyFloat, Policy, Presence, Scalar,
};
use schema_encoder::schema::{DescribedField, Description, Field, Kind, SchemaModel, TypeRef};
use schema_encoder::validator::validate;
use schema_encoder::value::{FieldValue, Value};
use schema_encoder::writer::Writer;

fn union_of(kinds: &[Kind]) -> TypeRef {
    TypeRef::Union(kinds.iter().map(|k| TypeRef::Primitive(*k)).collect())
}

fn field(name: &str, ty: TypeRef) -> Field {
    Field { name: name.to_string(), ty }
}

fn topic_type() -> TypeRef {
    TypeRef::Record(
        "Topic".to_string(),
        vec![
            field("double0", TypeRef::nullable(Kind::Double)),
            field("float0", TypeRef::nullable(Kind::Float)),
        ],
    )
}

fn one_field_type() -> TypeRef {
    TypeRef::Record(
        "Topic".to_string(),
        vec![field("double0", TypeRef::nullable(Kind::Double))],
    )
}

fn host(name: &str, value: HostValue) -> HostField {
    HostField { name: name.to_string(), value }
}

fn named(name: &str, value: Value) -> FieldValue {
    FieldValue { name: name.to_string(), value }
}

fn describe(ty: &TypeRef) -> Description {
    match ty {
        TypeRef::Primitive(kind) => Description::Primitive(*kind),
        TypeRef::Union(members) => Description::Union(members.iter().map(describe).collect()),
        TypeRef::Record(name, fields) => Description::Record(
            name.clone(),
            fields
                .iter()
                .map(|f| DescribedField { name: f.name.clone(), ty: describe(&f.ty) })
                .collect(),
        ),
    }
}

fn schema(ty: TypeRef) -> SchemaModel {
    SchemaModel::new(&describe(&ty)).unwrap()
}

#[test]
fn plain_scalar_success() {
    let model = schema(one_field_type());
    let mut w = Writer::new(&model, Policy::PlainScalar);
    let record = vec![host("double0", HostValue::Plain(Scalar::Double(1234.5f64.to_bits())))];
    assert_eq!(w.append(&record), Ok(()));
    let mut expected = vec![0u8];
    expected.extend_from_slice(&1234.5f64.to_le_bytes());
    assert_eq!(w.finish(), expected);
}

#[test]
fn explicit_sum_type_both_absent() {
    let model = schema(topic_type());
    let mut w = Writer::new(&model, Policy::ExplicitSumType);
    let record = vec![
        host("double0", MyDouble::Absent.to_host()),
        host("float0", MyFloat::Absent.to_host()),
    ];
    assert_eq!(w.append(&record), Ok(()));
    assert_eq!(w.finish(), vec![2u8, 2u8]);
}

#[test]
fn explicit_sum_type_both_present() {
    let model = schema(topic_type());
    let mut w = Writer::new(&model, Policy::ExplicitSumType);
    let record = vec![
        host("double0", MyDouble::Present(1234.5f64.to_bits()).to_host()),
        host("float0", MyFloat::Present(5.4321f32.to_bits()).to_host()),
    ];
    assert_eq!(w.append(&record), Ok(()));
    let mut expected = vec![0u8];
    expected.extend_from_slice(&1234.5f64.to_le_bytes());
    expected.push(0);
    expected.extend_from_slice(&5.4321f32.to_le_bytes());
    assert_eq!(w.finish(), expected);
}

#[test]
fn tagged_present_is_a_union_mismatch() {
    let model = schema(topic_type());
    let mut w = Writer::new(&model, Policy::PlainScalar);
    let first = vec![
        host("double0", HostValue::Plain(Scalar::Double(1.0f64.to_bits()))),
        host("float0", HostValue::Plain(Scalar::Float(2.0f32.to_bits()))),
    ];
    assert_eq!(w.append(&first), Ok(()));
    let before = w.len();
    assert_eq!(before, 14);
    let tagged = Value::Record(vec![
        named("double0", Value::Union(1, Box::new(Value::Double(1234.5f64.to_bits())))),
        named("float0", Value::Float(5.4321f32.to_bits())),
    ]);
    assert_eq!(w.append_value(&tagged), Err(EncodeError::UnionMismatch));
    assert_eq!(w.len(), before);
}

// The direct-optional policy maps a present value to the bare scalar, with
// no tag of its own, so it resolves to the value's branch exactly as a plain
// scalar does. A value that does carry a tag is refused with a union
// mismatch: see `tagged_present_is_a_union_mismatch`.
#[test]
fn direct_optional_present_resolves_like_plain_scalar() {
    let s = Scalar::Double(1234.5f64.to_bits());
    let direct = map_field(Policy::DirectOptional, &HostValue::Optional(Some(s.clone()))).unwrap();
    let plain = map_field(Policy::PlainScalar, &HostValue::Plain(s)).unwrap();
    assert_eq!(direct, plain);
    assert_eq!(direct, Value::Double(1234.5f64.to_bits()));
    let ty = TypeRef::nullable(Kind::Double);
    assert_eq!(
        validate(&direct, &ty),
        Ok(Value::Union(0, Box::new(Value::Double(1234.5f64.to_bits()))))
    );
}

#[test]
fn direct_optional_absent_takes_the_null_branch() {
    let v = map_field(Policy::DirectOptional, &HostValue::Optional(None)).unwrap();
    assert_eq!(v, Value::Null);
    assert_eq!(
        validate(&v, &TypeRef::nullable(Kind::Double)),
        Ok(Value::Union(1, Box::new(Value::Null)))
    );
}

#[test]
fn plain_scalar_never_takes_the_null_branch() {
    let scalars = vec![
        (Kind::Boolean, Scalar::Boolean(true)),
        (Kind::Int, Scalar::Int(-3)),
        (Kind::Long, Scalar::Long(1 << 40)),
        (Kind::Float, Scalar::Float(5.4321f32.to_bits())),
        (Kind::Double, Scalar::Double(1234.5f64.to_bits())),
        (Kind::Bytes, Scalar::Bytes(vec![1, 2, 3])),
        (Kind::String, Scalar::String("abc".to_string())),
    ];
    for (kind, s) in scalars {
        let v = map_field(Policy::PlainScalar, &HostValue::Plain(s)).unwrap();
        match validate(&v, &TypeRef::nullable(kind)) {
            Ok(Value::Union(index, inner)) => {
                assert_eq!(index, 0);
                assert_eq!(*inner, v);
            }
            other => panic!("{:?}", other),
        }
    }
}

#[test]
fn branch_index_follows_member_order() {
    let present = Value::Double(1234.5f64.to_bits());
    let absent = Value::Null;
    let double_first = union_of(&[Kind::Double, Kind::Null]);
    let null_first = union_of(&[Kind::Null, Kind::Double]);
    let a = encode_to_vec(&validate(&present, &double_first).unwrap());
    let b = encode_to_vec(&validate(&present, &null_first).unwrap());
    assert_eq!(a[0], 0);
    assert_eq!(b[0], 2);
    assert_eq!(a[1..], b[1..]);
    let c = encode_to_vec(&validate(&absent, &double_first).unwrap());
    let d = encode_to_vec(&validate(&absent, &null_first).unwrap());
    assert_eq!(c, vec![2u8]);
    assert_eq!(d, vec![0u8]);
}

#[test]
fn no_widening_between_kinds() {
    let ty = union_of(&[Kind::Float, Kind::Null]);
    assert_eq!(
        validate(&Value::Double(1.0f64.to_bits()), &ty),
        Err(EncodeError::UnionMismatch)
    );
    assert_eq!(
        validate(&Value::Int(1), &TypeRef::Primitive(Kind::Long)),
        Err(EncodeError::TypeMismatch)
    );
    assert_eq!(
        validate(&Value::Float(1.0f32.to_bits()), &TypeRef::Primitive(Kind::Double)),
        Err(EncodeError::TypeMismatch)
    );
}

#[test]
fn first_matching_member_wins() {
    let ty = union_of(&[Kind::Null, Kind::Long, Kind::Long]);
    assert_eq!(
        validate(&Value::Long(7), &ty),
        Ok(Value::Union(1, Box::new(Value::Long(7))))
    );
}

#[test]
fn long_encodings() {
    let cases: Vec<(i64, Vec<u8>)> = vec![
        (0, vec![0]),
        (-1, vec![1]),
        (1, vec![2]),
        (-2, vec![3]),
        (63, vec![126]),
        (-64, vec![127]),
        (64, vec![128, 1]),
        (-65, vec![129, 1]),
        (i64::MAX, vec![254, 255, 255, 255, 255, 255, 255, 255, 255, 1]),
        (i64::MIN, vec![255, 255, 255, 255, 255, 255, 255, 255, 255, 1]),
    ];
    for (n, bytes) in cases {
        assert_eq!(encode_to_vec(&Value::Long(n)), bytes);
    }
    assert_eq!(encode_to_vec(&Value::Int(-65)), vec![129, 1]);
    assert_eq!(encode_to_vec(&Value::Int(i32::MIN)), vec![255, 255, 255, 255, 15]);
}

#[test]
fn primitive_encodings() {
    assert_eq!(encode_to_vec(&Value::Null), Vec::<u8>::new());
    assert_eq!(encode_to_vec(&Value::Boolean(false)), vec![0]);
    assert_eq!(encode_to_vec(&Value::Boolean(true)), vec![1]);
    assert_eq!(
        encode_to_vec(&Value::Float(1.0f32.to_bits())),
        vec![0x00, 0x00, 0x80, 0x3f]
    );
    assert_eq!(
        encode_to_vec(&Value::Double(1.0f64.to_bits())),
        vec![0, 0, 0, 0, 0, 0, 0xf0, 0x3f]
    );
    assert_eq!(encode_to_vec(&Value::Bytes(vec![9, 8, 7])), vec![6, 9, 8, 7]);
    assert_eq!(encode_to_vec(&Value::Bytes(vec![])), vec![0]);
    assert_eq!(
        encode_to_vec(&Value::String("h\u{e9}".to_string())),
        vec![6, b'h', 0xc3, 0xa9]
    );
    assert_eq!(
        encode_to_vec(&Value::Union(3, Box::new(Value::Boolean(true)))),
        vec![6, 1]
    );
}

#[test]
fn record_fields_are_written_in_declared_order() {
    let ty = TypeRef::Record(
        "R".to_string(),
        vec![
            field("a", TypeRef::Primitive(Kind::Long)),
            field("b", TypeRef::Primitive(Kind::Boolean)),
        ],
    );
    let swapped = Value::Record(vec![
        named("b", Value::Boolean(true)),
        named("a", Value::Long(5)),
    ]);
    let resolved = validate(&swapped, &ty).unwrap();
    assert_eq!(
        resolved,
        Value::Record(vec![named("a", Value::Long(5)), named("b", Value::Boolean(true))])
    );
    assert_eq!(encode_to_vec(&resolved), vec![10, 1]);
}

#[test]
fn nested_record_in_a_union() {
    let inner = TypeRef::Record(
        "Inner".to_string(),
        vec![field("n", TypeRef::nullable(Kind::Int))],
    );
    let outer = TypeRef::Record(
        "Outer".to_string(),
        vec![field(
            "inner",
            TypeRef::Union(vec![TypeRef::Primitive(Kind::Null), inner]),
        )],
    );
    let value = Value::Record(vec![named(
        "inner",
        Value::Record(vec![named("n", Value::Int(-1))]),
    )]);
    let resolved = validate(&value, &outer).unwrap();
    assert_eq!(encode_to_vec(&resolved), vec![2, 0, 1]);
}

#[test]
fn record_shape_errors() {
    let ty = topic_type();
    let missing = Value::Record(vec![named("double0", Value::Null)]);
    assert_eq!(validate(&missing, &ty), Err(EncodeError::RecordShapeMismatch));
    let extra = Value::Record(vec![
        named("double0", Value::Null),
        named("float0", Value::Null),
        named("more", Value::Null),
    ]);
    assert_eq!(validate(&extra, &ty), Err(EncodeError::RecordShapeMismatch));
    let renamed = Value::Record(vec![
        named("double0", Value::Null),
        named("float1", Value::Null),
    ]);
    assert_eq!(validate(&renamed, &ty), Err(EncodeError::RecordShapeMismatch));
    assert_eq!(validate(&Value::Long(1), &ty), Err(EncodeError::TypeMismatch));
}

#[test]
fn first_failing_field_gives_the_error() {
    let ty = TypeRef::Record(
        "R".to_string(),
        vec![
            field("a", TypeRef::Primitive(Kind::Long)),
            field("b", TypeRef::nullable(Kind::Double)),
        ],
    );
    let value = Value::Record(vec![
        named("b", Value::Boolean(true)),
        named("a", Value::Boolean(true)),
    ]);
    assert_eq!(validate(&value, &ty), Err(EncodeError::TypeMismatch));
    let value = Value::Record(vec![
        named("b", Value::Boolean(true)),
        named("a", Value::Long(1)),
    ]);
    assert_eq!(validate(&value, &ty), Err(EncodeError::UnionMismatch));
}

#[test]
fn mapping_errors() {
    let plain = HostValue::Plain(Scalar::Int(1));
    assert_eq!(map_field(Policy::ExplicitSumType, &plain), Err(EncodeError::Mapping));
    assert_eq!(map_field(Policy::DirectOptional, &plain), Err(EncodeError::Mapping));
    assert_eq!(
        map_field(Policy::PlainScalar, &HostValue::Sum(Presence::Absent)),
        Err(EncodeError::Mapping)
    );
    let fields = vec![
        field("double0", TypeRef::nullable(Kind::Double)),
        field("float0", TypeRef::nullable(Kind::Float)),
    ];
    let short = vec![host("double0", MyDouble::Absent.to_host())];
    assert_eq!(
        map_record(Policy::ExplicitSumType, &fields, &short),
        Err(EncodeError::Mapping)
    );
    let model = schema(topic_type());
    let mut w = Writer::new(&model, Policy::ExplicitSumType);
    assert_eq!(w.append(&short), Err(EncodeError::Mapping));
    assert_eq!(w.len(), 0);
}

#[test]
fn schema_must_be_a_record() {
    assert_eq!(
        SchemaModel::new(&Description::Primitive(Kind::Long)),
        Err(EncodeError::SchemaConstruction)
    );
    assert_eq!(
        SchemaModel::new(&describe(&TypeRef::nullable(Kind::Long))),
        Err(EncodeError::SchemaConstruction)
    );
    let schema = SchemaModel::new(&describe(&topic_type())).unwrap();
    assert_eq!(*schema.type_ref(), topic_type());
    assert_eq!(*schema.fields(), vec![
        field("double0", TypeRef::nullable(Kind::Double)),
        field("float0", TypeRef::nullable(Kind::Float)),
    ]);
}

#[test]
fn unsupported_constructs_are_refused_at_construction() {
    let with = |ty: Description| {
        Description::Record(
            "R".to_string(),
            vec![
                DescribedField { name: "a".to_string(), ty: Description::Primitive(Kind::Int) },
                DescribedField { name: "b".to_string(), ty },
            ],
        )
    };
    assert!(SchemaModel::new(&with(Description::Primitive(Kind::Null))).is_ok());
    assert_eq!(
        SchemaModel::new(&with(Description::Reference("R".to_string()))),
        Err(EncodeError::SchemaConstruction)
    );
    assert_eq!(
        SchemaModel::new(&with(Description::Other("decimal".to_string()))),
        Err(EncodeError::SchemaConstruction)
    );
    let nested = Description::Union(vec![
        Description::Primitive(Kind::Null),
        Description::Record(
            "Inner".to_string(),
            vec![DescribedField {
                name: "x".to_string(),
                ty: Description::Other("array".to_string()),
            }],
        ),
    ]);
    assert_eq!(SchemaModel::new(&with(nested)), Err(EncodeError::SchemaConstruction));
    assert_eq!(
        Description::Union(vec![Description::Primitive(Kind::Double), Description::Primitive(Kind::Null)])
            .to_type(),
        Some(TypeRef::nullable(Kind::Double))
    );
}

#[test]
fn failed_append_leaves_the_output_untouched() {
    let model = schema(topic_type());
    let mut w = Writer::new(&model, Policy::PlainScalar);
    let good = vec![
        host("double0", HostValue::Plain(Scalar::Double(0))),
        host("float0", HostValue::Plain(Scalar::Float(0))),
    ];
    let wrong_kind = vec![
        host("double0", HostValue::Plain(Scalar::Double(0))),
        host("float0", HostValue::Plain(Scalar::Double(0))),
    ];
    let wrong_name = vec![
        host("double0", HostValue::Plain(Scalar::Double(0))),
        host("float1", HostValue::Plain(Scalar::Float(0))),
    ];
    assert_eq!(w.append(&good), Ok(()));
    assert_eq!(w.append(&wrong_kind), Err(EncodeError::UnionMismatch));
    assert_eq!(w.append(&wrong_name), Err(EncodeError::RecordShapeMismatch));
    assert_eq!(w.append(&good), Ok(()));
    let bytes = w.finish();
    assert_eq!(bytes.len(), 28);
    assert_eq!(bytes[..14], bytes[14..]);
}

#[test]
fn defaults_are_a_present_zero() {
    assert_eq!(MyDouble::default(), MyDouble::Present(0.0f64.to_bits()));
    assert_eq!(MyFloat::default(), MyFloat::Present(0.0f32.to_bits()));
    assert_eq!(
        MyDouble::default().to_host(),
        HostValue::Sum(Presence::Present(Scalar::Double(0)))
    );
    assert_eq!(MyFloat::Absent.to_host(), HostValue::Sum(Presence::Absent));
}

#[test]
fn writers_share_one_schema() {
    let model = schema(topic_type());
    let mut plain = Writer::new(&model, Policy::PlainScalar);
    let mut sum = Writer::new(&model, Policy::ExplicitSumType);
    let mut direct = Writer::new(&model, Policy::DirectOptional);
    let bits64 = 1234.5f64.to_bits();
    let bits32 = 5.4321f32.to_bits();
    assert_eq!(
        plain.append(&vec![
            host("double0", HostValue::Plain(Scalar::Double(bits64))),
            host("float0", HostValue::Plain(Scalar::Float(bits32))),
        ]),
        Ok(())
    );
    assert_eq!(
        sum.append(&vec![
            host("double0", MyDouble::Present(bits64).to_host()),
            host("float0", MyFloat::Present(bits32).to_host()),
        ]),
        Ok(())
    );
    assert_eq!(
        direct.append(&vec![
            host("double0", HostValue::Optional(Some(Scalar::Double(bits64)))),
            host("float0", HostValue::Optional(Some(Scalar::Float(bits32)))),
        ]),
        Ok(())
    );
    let bytes = plain.finish();
    assert_eq!(bytes.len(), 14);
    assert_eq!(sum.finish(), bytes);
    assert_eq!(direct.finish(), bytes);
}

#[test]
fn direct_optional_absent_is_written_as_the_null_branch() {
    let model = schema(topic_type());
    let mut w = Writer::new(&model, Policy::DirectOptional);
    let record = vec![
        host("float0", HostValue::Optional(None)),
        host("double0", HostValue::Optional(Some(Scalar::Double(0)))),
    ];
    assert_eq!(w.append(&record), Ok(()));
    assert_eq!(w.finish(), vec![0, 0, 0, 0, 0, 0, 0, 0, 0, 2]);
}

#[test]
fn new_writer_has_no_output() {
    let model = schema(topic_type());
    let w = Writer::new(&model, Policy::PlainScalar);
    assert_eq!(w.len(), 0);
    assert_eq!(w.finish(), Vec::<u8>::new());
}
