use crate::value::{items_of, Datum, Value};
use crate::wire::{long_bytes, write_bytes, write_count, write_long};
use vstd::bytes::{spec_u32_to_le_bytes, spec_u64_to_le_bytes, u32_to_le_bytes, u64_to_le_bytes};
use vstd::prelude::*;
use vstd::utf8::encode_utf8;

verus! {

/// The wire bytes of a datum.
///
/// - null: nothing;
/// - a boolean: one byte, 0 or 1;
/// - an int or a long: zig-zag, variable-length;
/// - a float or a double: the 4 or 8 bytes of its bit pattern, least
///   significant first;
/// - bytes or a string: the length in bytes as a long, then the bytes (of
///   a string: its UTF-8 form);
/// - a record: its fields' bytes one after the other, with no names;
/// - a resolved union: the branch index as a long, then the inner datum.
pub open spec fn encoding(d: Datum) -> Seq<u8>
    decreases d, 0nat,
{
    match d {
        Datum::Null => Seq::empty(),
        Datum::Boolean(b) => seq![if b { 1u8 } else { 0u8 }],
        Datum::Int(n) => long_bytes(n as int),
        Datum::Long(n) => long_bytes(n as int),
        Datum::Float(bits) => spec_u32_to_le_bytes(bits),
        Datum::Double(bits) => spec_u64_to_le_bytes(bits),
        Datum::Bytes(bytes) => long_bytes(bytes.len() as int) + bytes,
        Datum::Text(text) => long_bytes(encode_utf8(text).len() as int) + encode_utf8(text),
        Datum::Record(items) => encoding_fields(items, 0),
        Datum::Union(index, inner) => long_bytes(index as int) + encoding(*inner),
    }
}

/// The wire bytes of a record's items from index `from` on.
pub open spec fn encoding_fields(items: Seq<(Seq<char>, Datum)>, from: nat) -> Seq<u8>
    decreases items, items.len() - from,
{
    if from >= items.len() {
        Seq::empty()
    } else {
        encoding(items[from as int].1) + encoding_fields(items, from + 1)
    }
}

/// Appends the wire bytes of `value` to `out`.
pub fn encode(value: &Value, out: &mut Vec<u8>)
    ensures
        final(out)@ == old(out)@ + encoding(value@),
    decreases value,
{
    let ghost before = out@;
    match value {
        Value::Null => {
            assert(out@ =~= before + encoding(value@));
        },
        Value::Boolean(b) => {
            out.push(if *b { 1u8 } else { 0u8 });
            assert(out@ =~= before + encoding(value@));
        },
        Value::Int(n) => {
            write_long(*n as i64, out);
        },
        Value::Long(n) => {
            write_long(*n, out);
        },
        Value::Float(bits) => {
            let bytes: Vec<u8> = u32_to_le_bytes(*bits);
            write_bytes(bytes.as_slice(), out);
        },
        Value::Double(bits) => {
            let bytes: Vec<u8> = u64_to_le_bytes(*bits);
            write_bytes(bytes.as_slice(), out);
        },
        Value::Bytes(bytes) => {
            write_count(bytes.len(), out);
            write_bytes(bytes.as_slice(), out);
            assert(out@ =~= before + encoding(value@));
        },
        Value::String(text) => {
            let bytes: &[u8] = text.as_str().as_bytes();
            write_count(bytes.len(), out);
            write_bytes(bytes, out);
            assert(out@ =~= before + encoding(value@));
        },
        Value::Record(fields) => {
            assert(value@ == Datum::Record(items_of(*fields))) by {
                assert(value@->Record_0 =~= items_of(*fields));
            }
            let mut i: usize = 0;
            assert(out@ + encoding_fields(items_of(*fields), 0) =~= before + encoding_fields(
                items_of(*fields),
                0,
            ));
            while i < fields.len()
                invariant
                    i <= fields.len(),
                    *value matches Value::Record(fs) && fs == *fields,
                    out@ + encoding_fields(items_of(*fields), i as nat) == before
                        + encoding_fields(items_of(*fields), 0),
                decreases fields.len() - i,
            {
                let ghost prev = out@;
                encode(&fields[i].value, out);
                proof {
                    assert(out@ + encoding_fields(items_of(*fields), (i + 1) as nat) =~= prev
                        + encoding_fields(items_of(*fields), i as nat));
                }
                i = i + 1;
            }
            assert(out@ =~= out@ + encoding_fields(items_of(*fields), i as nat));
        },
        Value::Union(index, inner) => {
            write_count(*index, out);
            encode(inner, out);
            assert(out@ =~= before + encoding(value@));
        },
    }
}

/// The wire bytes of `value`.
pub fn encode_to_vec(value: &Value) -> (bytes: Vec<u8>)
    ensures
        bytes@ == encoding(value@),
{
    let mut out: Vec<u8> = Vec::new();
    encode(value, &mut out);
    assert(out@ =~= encoding(value@));
    out
}

} // verus!
