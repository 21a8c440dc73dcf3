//! A self-describing binary envelope: a schema, the encoded value after it, optional
//! compression and optional authenticated encryption, with the inverse pipeline.

pub mod bytes;
pub mod compression;
pub mod deserializer;
pub mod schema;
pub mod security;
pub mod serializer;
