//! Shipping scripting-language scalar functions inside serialized query plans.
//!
//! The library holds the parts of the extension codec that decide and frame:
//! the wire record that carries a foreign function's metadata and opaque body,
//! the choice between this codec's own path and the inner codec, the function
//! wrapper's metadata, and the `CREATE FUNCTION` handling of the factory.
pub mod varint;
pub mod wire;
pub mod codec;
pub mod factory;
pub mod udf;
