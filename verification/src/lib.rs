//! A schema-directed encoder: a host record is mapped to a value tree
//! under one of three policies for "this field may be absent", the tree
//! is validated against a record schema, which resolves each union to its
//! first matching member, and the resolved tree is written as bytes.

pub mod decoder;
pub mod encoder;
pub mod error;
pub mod laws;
pub mod mapper;
pub mod schema;
pub mod validator;
pub mod value;
pub mod wire;
pub mod writer;
