use crate::decoder::{branch_round_trip, read_branch};
use crate::encoder::encoding;
use crate::error::EncodeError;
use crate::mapper::{mapped, scalar_datum, scalar_kind, HostValue, Policy, Presence, Scalar};
use crate::schema::{pair_of, Kind, Shape};
use crate::validator::{first_match, kind_of, resolve, resolve_fields};
use crate::value::Datum;
use crate::wire::{long_bytes, varint, zigzag};
use crate::writer::written;
use vstd::prelude::*;

verus! {

/// The bytes that one host field gives when it is mapped under `policy`,
/// validated against `t` and encoded.
pub open spec fn field_bytes(policy: Policy, host: HostValue, t: Shape) -> Result<
    Seq<u8>,
    EncodeError,
> {
    match mapped(policy, host) {
        Ok(d) => written(t, d),
        Err(e) => Err(e),
    }
}

/// The branch indices 0 and 1 are written as the single bytes 0 and 2.
pub proof fn branch_bytes()
    ensures
        long_bytes(0) == seq![0u8],
        long_bytes(1) == seq![2u8],
        encoding(Datum::Union(0, Box::new(Datum::Null))) == seq![0u8],
        encoding(Datum::Union(1, Box::new(Datum::Null))) == seq![2u8],
{
    reveal_with_fuel(encoding, 2);
    assert(encoding(Datum::Null) == Seq::<u8>::empty());
    assert(seq![0u8] + Seq::<u8>::empty() =~= seq![0u8]);
    assert(seq![2u8] + Seq::<u8>::empty() =~= seq![2u8]);
    assert(zigzag(0) == 0);
    assert(zigzag(1) == 2);
    assert(varint(0) == seq![0u8]);
    assert(varint(2) == seq![2u8]);
}

/// A union is resolved to its first member, in declared order, that
/// accepts the datum: every member before it refuses the datum, and the
/// inner datum is what that member resolves it to. Where every member
/// refuses, the result is a union mismatch.
pub proof fn first_match_is_first(d: Datum, members: Seq<Shape>, from: nat)
    ensures
        match first_match(d, members, from) {
            Ok(resolved) => {
                &&& resolved matches Datum::Union(index, inner)
                &&& from <= index < members.len()
                &&& resolve(d, members[index as int]) == Ok::<Datum, EncodeError>(*inner)
                &&& forall|j: int| from <= j < index ==> resolve(d, #[trigger] members[j]) is Err
            },
            Err(e) => {
                &&& e == EncodeError::UnionMismatch
                &&& forall|j: int|
                    from <= j < members.len() ==> resolve(d, #[trigger] members[j]) is Err
            },
        },
    decreases members.len() - from,
{
    if from < members.len() {
        first_match_is_first(d, members, from + 1);
    }
}

/// The fields that `resolve_fields` adds to `done` carry the declared
/// names in declared order, and what was done stays.
pub proof fn resolved_fields_follow_schema(
    items: Seq<(Seq<char>, Datum)>,
    fields: Seq<(Seq<char>, Shape)>,
    from: nat,
    done: Seq<(Seq<char>, Datum)>,
)
    requires
        done.len() == from,
        from <= fields.len(),
    ensures
        resolve_fields(items, fields, from, done) matches Ok(all) ==> {
            &&& all.len() == fields.len()
            &&& forall|i: int| 0 <= i < from ==> all[i] == done[i]
            &&& forall|i: int| from <= i < fields.len() ==> all[i].0 == (#[trigger] fields[i]).0
        },
    decreases fields.len() - from,
{
    if from < fields.len() {
        match crate::validator::position(items, fields[from as int].0, 0) {
            Some(at) => match resolve(items[at as int].1, fields[from as int].1) {
                Ok(inner) => {
                    let next = done.push((fields[from as int].0, inner));
                    resolved_fields_follow_schema(items, fields, from + 1, next);
                },
                Err(_) => {},
            },
            None => {},
        }
    }
}

/// Whatever order the fields of a record value stand in, the resolved
/// record holds one field for each declared field, under the declared
/// name and in declared order: the schema alone fixes the layout of the
/// bytes.
pub proof fn resolved_record_follows_schema(d: Datum, t: Shape)
    requires
        t is Record,
    ensures
        resolve(d, t) matches Ok(resolved) ==> {
            &&& resolved matches Datum::Record(all)
            &&& all.len() == t->Record_1.len()
            &&& forall|i: int|
                0 <= i < all.len() ==> all[i].0 == (#[trigger] t->Record_1[i]).0
        },
{
    match d {
        Datum::Record(items) => {
            resolved_fields_follow_schema(items, t->Record_1, 0, Seq::empty());
        },
        _ => {},
    }
}

/// A scalar's datum has the scalar's kind, which is never null.
pub proof fn scalar_has_its_kind(s: Scalar)
    ensures
        kind_of(scalar_datum(s)) == Some(scalar_kind(s)),
        scalar_kind(s) != Kind::Null,
{
}

/// A primitive datum resolves against a union of two primitives to the
/// first of them that has its kind, and to a union mismatch if neither
/// has.
pub proof fn resolve_against_pair(d: Datum, first: Kind, second: Kind)
    ensures
        kind_of(d) == Some(first) ==> resolve(d, pair_of(first, second)) == Ok::<
            Datum,
            EncodeError,
        >(Datum::Union(0, Box::new(d))),
        kind_of(d) != Some(first) && kind_of(d) == Some(second) ==> resolve(
            d,
            pair_of(first, second),
        ) == Ok::<Datum, EncodeError>(Datum::Union(1, Box::new(d))),
        kind_of(d) != Some(first) && kind_of(d) != Some(second) ==> resolve(
            d,
            pair_of(first, second),
        ) == Err::<Datum, EncodeError>(EncodeError::UnionMismatch),
{
    let members = seq![Shape::Primitive(first), Shape::Primitive(second)];
    reveal_with_fuel(first_match, 3);
    assert(members[0] == Shape::Primitive(first));
    assert(members[1] == Shape::Primitive(second));
    assert(resolve(d, pair_of(first, second)) == first_match(d, members, 0));
}

/// Under the explicit sum type, against the union of a kind and null: a
/// present value of that kind is written as the byte 0, for the first
/// branch, followed by the value's own bytes; an absent one as the single
/// byte 2, for the second branch.
pub proof fn explicit_sum_type_bytes(s: Scalar)
    ensures
        field_bytes(
            Policy::ExplicitSumType,
            HostValue::Sum(Presence::Present(s)),
            pair_of(scalar_kind(s), Kind::Null),
        ) == Ok::<Seq<u8>, EncodeError>(seq![0u8] + encoding(scalar_datum(s))),
        field_bytes(
            Policy::ExplicitSumType,
            HostValue::Sum(Presence::Absent),
            pair_of(scalar_kind(s), Kind::Null),
        ) == Ok::<Seq<u8>, EncodeError>(seq![2u8]),
{
    branch_bytes();
    resolve_against_pair(scalar_datum(s), scalar_kind(s), Kind::Null);
    resolve_against_pair(Datum::Null, scalar_kind(s), Kind::Null);
}

/// Under the explicit sum type, against the union of a kind and null,
/// what is written reads back as what was given: a present value of that
/// kind as itself on the first branch, an absent one as null on the
/// second. This holds of every primitive kind that a scalar can have.
pub proof fn explicit_sum_type_round_trip(s: Scalar)
    ensures
        field_bytes(
            Policy::ExplicitSumType,
            HostValue::Sum(Presence::Present(s)),
            pair_of(scalar_kind(s), Kind::Null),
        ) matches Ok(bytes) && read_branch(seq![scalar_kind(s), Kind::Null], bytes) == Some(
            (Datum::Union(0, Box::new(scalar_datum(s))), bytes.len()),
        ),
        field_bytes(
            Policy::ExplicitSumType,
            HostValue::Sum(Presence::Absent),
            pair_of(scalar_kind(s), Kind::Null),
        ) matches Ok(bytes) && read_branch(seq![scalar_kind(s), Kind::Null], bytes) == Some(
            (Datum::Union(1, Box::new(Datum::Null)), bytes.len()),
        ),
{
    let members = seq![scalar_kind(s), Kind::Null];
    scalar_has_its_kind(s);
    resolve_against_pair(scalar_datum(s), scalar_kind(s), Kind::Null);
    resolve_against_pair(Datum::Null, scalar_kind(s), Kind::Null);
    branch_round_trip(members, 0, scalar_datum(s));
    branch_round_trip(members, 1, Datum::Null);
}

/// A plain scalar always maps, always validates against the union of its
/// kind and null, and always takes the first branch, that of its kind.
pub proof fn plain_scalar_takes_value_branch(s: Scalar)
    ensures
        mapped(Policy::PlainScalar, HostValue::Plain(s)) == Ok::<Datum, EncodeError>(
            scalar_datum(s),
        ),
        resolve(scalar_datum(s), pair_of(scalar_kind(s), Kind::Null)) == Ok::<
            Datum,
            EncodeError,
        >(Datum::Union(0, Box::new(scalar_datum(s)))),
{
    scalar_has_its_kind(s);
    resolve_against_pair(scalar_datum(s), scalar_kind(s), Kind::Null);
}

/// Whatever the members of a union are, a plain scalar is never resolved
/// to a member that is null.
pub proof fn plain_scalar_never_null(s: Scalar, members: Seq<Shape>, from: nat)
    ensures
        first_match(scalar_datum(s), members, from) matches Ok(Datum::Union(index, inner)) ==> {
            &&& from <= index < members.len()
            &&& members[index as int] != Shape::Primitive(Kind::Null)
        },
    decreases members.len() - from,
{
    scalar_has_its_kind(s);
    if from < members.len() {
        plain_scalar_never_null(s, members, from + 1);
        if members[from as int] == Shape::Primitive(Kind::Null) {
            assert(resolve(scalar_datum(s), members[from as int]) is Err);
        }
    }
}

/// A present native optional maps to the same untagged datum as the plain
/// scalar, so the two resolve alike against any type.
pub proof fn direct_optional_present_is_plain(s: Scalar, t: Shape)
    ensures
        mapped(Policy::DirectOptional, HostValue::Optional(Some(s))) == mapped(
            Policy::PlainScalar,
            HostValue::Plain(s),
        ),
        field_bytes(Policy::DirectOptional, HostValue::Optional(Some(s)), t) == field_bytes(
            Policy::PlainScalar,
            HostValue::Plain(s),
            t,
        ),
{
}

/// A value that already carries a branch tag is accepted by no type: the
/// validator alone resolves unions. Against a union the error is a union
/// mismatch.
pub proof fn tagged_value_never_resolves(index: nat, inner: Datum, t: Shape)
    ensures
        resolve(Datum::Union(index, Box::new(inner)), t) is Err,
        t is Union ==> resolve(Datum::Union(index, Box::new(inner)), t) == Err::<
            Datum,
            EncodeError,
        >(EncodeError::UnionMismatch),
    decreases t, 0nat,
{
    match t {
        Shape::Union(members) => {
            tagged_value_matches_no_member(index, inner, members, 0);
        },
        _ => {},
    }
}

/// A value that already carries a branch tag matches no member of a
/// union, from whichever member the search starts.
pub proof fn tagged_value_matches_no_member(
    index: nat,
    inner: Datum,
    members: Seq<Shape>,
    from: nat,
)
    ensures
        first_match(Datum::Union(index, Box::new(inner)), members, from) == Err::<
            Datum,
            EncodeError,
        >(EncodeError::UnionMismatch),
    decreases members, members.len() - from,
{
    if from < members.len() {
        tagged_value_never_resolves(index, inner, members[from as int]);
        tagged_value_matches_no_member(index, inner, members, from + 1);
    }
}

/// The branch index follows the declared order of the members: with the
/// two members swapped, the same datum is written with the other index
/// byte in front, and the same bytes after it.
pub proof fn branch_index_follows_order(d: Datum, kind: Kind)
    requires
        kind != Kind::Null,
    ensures
        kind_of(d) == Some(kind) ==> {
            &&& written(pair_of(kind, Kind::Null), d) == Ok::<Seq<u8>, EncodeError>(
                seq![0u8] + encoding(d),
            )
            &&& written(pair_of(Kind::Null, kind), d) == Ok::<Seq<u8>, EncodeError>(
                seq![2u8] + encoding(d),
            )
        },
        written(pair_of(kind, Kind::Null), Datum::Null) == Ok::<Seq<u8>, EncodeError>(seq![2u8]),
        written(pair_of(Kind::Null, kind), Datum::Null) == Ok::<Seq<u8>, EncodeError>(seq![0u8]),
{
    branch_bytes();
    resolve_against_pair(d, kind, Kind::Null);
    resolve_against_pair(d, Kind::Null, kind);
    resolve_against_pair(Datum::Null, kind, Kind::Null);
    resolve_against_pair(Datum::Null, Kind::Null, kind);
}

} // verus!
