use crate::encoder::{encode, encoding};
use crate::error::EncodeError;
use crate::mapper::{map_record, mapped_record, HostField, Policy};
use crate::schema::{SchemaModel, Shape};
use crate::validator::{resolve, validate};
use crate::value::{Datum, Value};
use crate::wire::write_bytes;
use vstd::prelude::*;

verus! {

/// The bytes that validating `d` against `schema` and encoding the result
/// give, or the validator's error.
pub open spec fn written(schema: Shape, d: Datum) -> Result<Seq<u8>, EncodeError> {
    match resolve(d, schema) {
        Ok(resolved) => Ok(encoding(resolved)),
        Err(e) => Err(e),
    }
}

/// The bytes that one host record adds to the output under `schema` and
/// `policy`: the record is mapped, the result validated against the
/// schema, and the resolved value encoded. The first step that fails gives
/// the error.
pub open spec fn appended(schema: Shape, policy: Policy, host: Seq<HostField>) -> Result<
    Seq<u8>,
    EncodeError,
> {
    match schema {
        Shape::Record(_, fields) => match mapped_record(policy, fields.len(), host) {
            Ok(d) => written(schema, d),
            Err(e) => Err(e),
        },
        _ => Err(EncodeError::SchemaConstruction),
    }
}

/// Encodes records one after the other under one schema and one policy,
/// and collects the bytes. The schema is only read, so any number of
/// writers can share it.
pub struct Writer<'a> {
    schema: &'a SchemaModel,
    policy: Policy,
    out: Vec<u8>,
}

impl<'a> Writer<'a> {
    /// The shape of the top-level type of the writer's schema.
    pub closed spec fn schema(&self) -> Shape {
        self.schema.root()
    }

    /// The writer's mapping policy.
    pub closed spec fn policy(&self) -> Policy {
        self.policy
    }

    /// The bytes collected so far.
    pub closed spec fn output(&self) -> Seq<u8> {
        self.out@
    }

    /// A writer over `schema` with no output yet.
    pub fn new(schema: &'a SchemaModel, policy: Policy) -> (w: Writer<'a>)
        ensures
            w.schema() == schema.root(),
            w.policy() == policy,
            w.output() == Seq::<u8>::empty(),
    {
        Writer { schema, policy, out: Vec::new() }
    }

    /// The number of bytes collected so far.
    pub fn len(&self) -> (n: usize)
        ensures
            n == self.output().len(),
    {
        self.out.len()
    }

    /// Validates `value` against the schema, encodes it and adds the bytes
    /// to the output. On an error the output stays as it was.
    pub fn append_value(&mut self, value: &Value) -> (result: Result<(), EncodeError>)
        ensures
            final(self).schema() == old(self).schema(),
            final(self).policy() == old(self).policy(),
            match written(old(self).schema(), value@) {
                Ok(bytes) => result is Ok && final(self).output() == old(self).output() + bytes,
                Err(e) => result == Err::<(), EncodeError>(e) && final(self).output() == old(
                    self,
                ).output(),
            },
    {
        match validate(value, self.schema.type_ref()) {
            Ok(resolved) => {
                let mut scratch: Vec<u8> = Vec::new();
                encode(&resolved, &mut scratch);
                assert(scratch@ =~= encoding(resolved@));
                write_bytes(scratch.as_slice(), &mut self.out);
                Ok(())
            },
            Err(e) => Err(e),
        }
    }

    /// Maps `record` under the writer's policy, validates the result
    /// against the schema, encodes it and adds the bytes to the output. On
    /// an error the output stays as it was.
    pub fn append(&mut self, record: &Vec<HostField>) -> (result: Result<(), EncodeError>)
        ensures
            final(self).schema() == old(self).schema(),
            final(self).policy() == old(self).policy(),
            match appended(old(self).schema(), old(self).policy(), record@) {
                Ok(bytes) => result is Ok && final(self).output() == old(self).output() + bytes,
                Err(e) => result == Err::<(), EncodeError>(e) && final(self).output() == old(
                    self,
                ).output(),
            },
    {
        match map_record(self.policy, self.schema.fields(), record) {
            Ok(value) => self.append_value(&value),
            Err(e) => Err(e),
        }
    }

    /// The bytes of all records appended, in the order of the calls.
    pub fn finish(self) -> (bytes: Vec<u8>)
        ensures
            bytes@ == self.output(),
    {
        self.out
    }
}

} // verus!
