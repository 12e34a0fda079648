//! Decoding of fixed-layout, bit-packed binary records.
//!
//! A record layout is described by an ordered list of field descriptors
//! (width in bits, target kind, optional transform, optional skip with
//! default).  The schema compiler turns the descriptors into an ordered list
//! of decode steps, and the decode engine runs those steps over a byte
//! buffer through a bit cursor, yielding the decoded field values or a
//! classified error.

use vstd::prelude::*;

pub mod bits;
pub mod cursor;
pub mod engine;
pub mod laws;
pub mod policy;
pub mod schema;

verus! {

/// The ways a decode call can fail.
#[derive(Clone, Copy, Debug, PartialEq, Eq, Structural)]
pub enum ReadError {
    /// A read step would extract bits beyond the buffer's bit length.
    OutOfBounds,
    /// A value transform could not be applied to the extracted raw value.
    TransformFailure,
}

/// A type that can be populated by decoding a bit-packed byte buffer.
///
/// The library's engine decodes to a generic record; implementors of this
/// trait assemble such a record (or the engine's primitives) into a concrete
/// struct of their own.
pub trait BitRead {
    fn read_from(data: &[u8]) -> Result<Self, ReadError> where Self: Sized;
}

}
