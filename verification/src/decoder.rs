use crate::encoder::encoding;
use crate::schema::Kind;
use crate::validator::kind_of;
use crate::value::Datum;
use crate::wire::{long_bytes, varint, zigzag};
use vstd::bytes::{
    lemma_auto_spec_u32_to_from_le_bytes, lemma_auto_spec_u64_to_from_le_bytes,
    spec_u32_from_le_bytes, spec_u32_to_le_bytes, spec_u64_from_le_bytes, spec_u64_to_le_bytes,
};
use vstd::prelude::*;
use vstd::utf8::{decode_utf8, encode_utf8, encode_utf8_decode_utf8, encode_utf8_valid_utf8, valid_utf8};

verus! {

/// The number that the variable-length encoding at the start of `bytes`
/// holds, and how many bytes it takes; `None` where the bytes end before
/// the number does.
pub open spec fn read_varint(bytes: Seq<u8>) -> Option<(nat, nat)>
    decreases bytes.len(),
{
    if bytes.len() == 0 {
        None
    } else if bytes[0] < 128 {
        Some((bytes[0] as nat, 1))
    } else {
        match read_varint(bytes.subrange(1, bytes.len() as int)) {
            Some((high, used)) => Some(((bytes[0] - 128) as nat + 128 * high, used + 1)),
            None => None,
        }
    }
}

/// The signed number that the zig-zag mapping sends to `z`.
pub open spec fn unzigzag(z: nat) -> int {
    if z % 2 == 0 {
        z as int / 2
    } else {
        -((z as int + 1) / 2)
    }
}

/// The signed number at the start of `bytes`, and how many bytes it takes.
pub open spec fn read_long(bytes: Seq<u8>) -> Option<(int, nat)> {
    match read_varint(bytes) {
        Some((z, used)) => Some((unzigzag(z), used)),
        None => None,
    }
}

/// The `count` bytes that follow a length at the start of `bytes`, and how
/// many bytes length and content take together.
pub open spec fn read_block(bytes: Seq<u8>) -> Option<(Seq<u8>, nat)> {
    match read_long(bytes) {
        Some((count, used)) => if 0 <= count && used + count <= bytes.len() {
            Some((bytes.subrange(used as int, used + count), (used + count) as nat))
        } else {
            None
        },
        None => None,
    }
}

/// The datum of primitive kind `kind` at the start of `bytes`, and how
/// many bytes it takes; `None` where the bytes hold no such datum.
pub open spec fn read_primitive(kind: Kind, bytes: Seq<u8>) -> Option<(Datum, nat)> {
    match kind {
        Kind::Null => Some((Datum::Null, 0)),
        Kind::Boolean => if bytes.len() >= 1 && bytes[0] <= 1 {
            Some((Datum::Boolean(bytes[0] == 1), 1))
        } else {
            None
        },
        Kind::Int => match read_long(bytes) {
            Some((n, used)) => if i32::MIN <= n <= i32::MAX {
                Some((Datum::Int(n as i32), used))
            } else {
                None
            },
            None => None,
        },
        Kind::Long => match read_long(bytes) {
            Some((n, used)) => if i64::MIN <= n <= i64::MAX {
                Some((Datum::Long(n as i64), used))
            } else {
                None
            },
            None => None,
        },
        Kind::Float => if bytes.len() >= 4 {
            Some((Datum::Float(spec_u32_from_le_bytes(bytes.subrange(0, 4))), 4))
        } else {
            None
        },
        Kind::Double => if bytes.len() >= 8 {
            Some((Datum::Double(spec_u64_from_le_bytes(bytes.subrange(0, 8))), 8))
        } else {
            None
        },
        Kind::Bytes => match read_block(bytes) {
            Some((content, used)) => Some((Datum::Bytes(content), used)),
            None => None,
        },
        Kind::String => match read_block(bytes) {
            Some((content, used)) => if valid_utf8(content) {
                Some((Datum::Text(decode_utf8(content)), used))
            } else {
                None
            },
            None => None,
        },
    }
}

/// The datum at the start of `bytes` under a union of the primitive kinds
/// `members`: the branch index, then the datum of the member at that
/// index.
pub open spec fn read_branch(members: Seq<Kind>, bytes: Seq<u8>) -> Option<(Datum, nat)> {
    match read_long(bytes) {
        Some((index, used)) => if 0 <= index < members.len() {
            match read_primitive(members[index], bytes.subrange(used as int, bytes.len() as int)) {
                Some((inner, more)) => Some(
                    (Datum::Union(index as nat, Box::new(inner)), used + more),
                ),
                None => None,
            }
        } else {
            None
        },
        None => None,
    }
}

/// Reading what `varint` wrote gives the number back, whatever follows.
pub proof fn varint_round_trip(n: nat, rest: Seq<u8>)
    ensures
        read_varint(varint(n) + rest) == Some((n, varint(n).len())),
    decreases n,
{
    let bytes = varint(n) + rest;
    if n < 128 {
        assert(bytes[0] == n as u8);
    } else {
        let tail = varint(n / 128);
        varint_round_trip(n / 128, rest);
        assert(bytes[0] == (n % 128 + 128) as u8);
        assert(bytes.subrange(1, bytes.len() as int) =~= tail + rest);
        assert(varint(n).len() == tail.len() + 1);
        assert((n % 128) + 128 * (n / 128) == n);
    }
}

/// Reading what `long_bytes` wrote gives the number back, whatever
/// follows.
pub proof fn long_round_trip(n: int, rest: Seq<u8>)
    ensures
        read_long(long_bytes(n) + rest) == Some((n, long_bytes(n).len())),
{
    varint_round_trip(zigzag(n), rest);
    assert(unzigzag(zigzag(n)) == n);
}

/// Reading what the encoder wrote for a primitive datum gives the datum
/// back, whatever follows it.
pub proof fn primitive_round_trip(d: Datum, kind: Kind, rest: Seq<u8>)
    requires
        kind_of(d) == Some(kind),
    ensures
        read_primitive(kind, encoding(d) + rest) == Some((d, encoding(d).len())),
{
    let bytes = encoding(d) + rest;
    match d {
        Datum::Null => {},
        Datum::Boolean(b) => {
            assert(bytes[0] == encoding(d)[0]);
        },
        Datum::Int(n) => {
            long_round_trip(n as int, rest);
        },
        Datum::Long(n) => {
            long_round_trip(n as int, rest);
        },
        Datum::Float(bits) => {
            lemma_auto_spec_u32_to_from_le_bytes();
            assert(spec_u32_to_le_bytes(bits).len() == 4);
            assert(bytes.subrange(0, 4) =~= spec_u32_to_le_bytes(bits));
        },
        Datum::Double(bits) => {
            lemma_auto_spec_u64_to_from_le_bytes();
            assert(spec_u64_to_le_bytes(bits).len() == 8);
            assert(bytes.subrange(0, 8) =~= spec_u64_to_le_bytes(bits));
        },
        Datum::Bytes(content) => {
            block_round_trip(content, rest);
        },
        Datum::Text(text) => {
            let content = encode_utf8(text);
            block_round_trip(content, rest);
            encode_utf8_valid_utf8(text);
            encode_utf8_decode_utf8(text);
        },
        Datum::Record(_) => {},
        Datum::Union(_, _) => {},
    }
}

/// Reading a length and the content after it gives the content back,
/// whatever follows.
pub proof fn block_round_trip(content: Seq<u8>, rest: Seq<u8>)
    ensures
        read_block(long_bytes(content.len() as int) + content + rest) == Some(
            (content, (long_bytes(content.len() as int) + content).len()),
        ),
{
    let head = long_bytes(content.len() as int);
    let bytes = head + content + rest;
    long_round_trip(content.len() as int, content + rest);
    assert(bytes =~= head + (content + rest));
    assert(bytes.subrange(head.len() as int, (head.len() + content.len()) as int) =~= content);
}

/// Reading what the encoder wrote for a resolved union of primitives
/// gives the branch index and the inner datum back.
pub proof fn branch_round_trip(members: Seq<Kind>, index: nat, inner: Datum)
    requires
        index < members.len(),
        kind_of(inner) == Some(members[index as int]),
    ensures
        read_branch(members, encoding(Datum::Union(index, Box::new(inner)))) == Some(
            (
                Datum::Union(index, Box::new(inner)),
                encoding(Datum::Union(index, Box::new(inner))).len(),
            ),
        ),
{
    let head = long_bytes(index as int);
    let bytes = encoding(Datum::Union(index, Box::new(inner)));
    assert(bytes == head + encoding(inner));
    long_round_trip(index as int, encoding(inner));
    primitive_round_trip(inner, members[index as int], Seq::empty());
    assert(bytes.subrange(head.len() as int, bytes.len() as int) =~= encoding(inner)
        + Seq::<u8>::empty());
}

} // verus!
