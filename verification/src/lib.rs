//! Marshalling bridge between a native columnar table engine and a
//! dynamic-language host runtime.
//!
//! The bridge translates a recursive data-type tree, named typed columns and
//! whole tables across the boundary, and serializes deferred query plans as a
//! compact self-describing binary blob when no columnar representation
//! applies. Host objects are represented here as plain values; the thin glue
//! that reads and builds actual host objects lives outside the library.
pub mod chunk;
pub mod codec;
pub mod dtype;
pub mod error;
pub mod host;
pub mod plan;
pub mod series;
pub mod table;
