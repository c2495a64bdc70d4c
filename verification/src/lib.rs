//! Columnar data interchange and foreign-function bridge.
//!
//! The library translates typed native columns into the foreign runtime's
//! array representation and back, preserving type, length and null
//! information exactly; it manages the transfer of raw memory buffers
//! between the two sides' allocators without copying; and it wraps a
//! host-supplied callable as a scalar function that a query engine can
//! invoke per row or per batch.
//!
//! The crossings into the foreign runtime themselves (constructing host
//! objects, invoking the callable) live outside this crate; the library
//! works on plain descriptors of what crosses the boundary and states
//! exactly what each step preserves.

pub mod array;
pub mod batch;
pub mod bitmap;
pub mod buffer;
pub mod errors;
pub mod scalar;
pub mod types;
pub mod udf;

pub use errors::DataFusionError;
