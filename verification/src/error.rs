//! The error kinds at the boundary of the core: what can go wrong while
//! loading a scene or decoding a binary frame.

use vstd::prelude::*;

verus! {

/// An error at the boundary of the core.
#[derive(Clone, Copy, Debug, PartialEq, Eq, Structural)]
pub enum Error {
    /// A file or stream operation failed.
    Io,
    /// The external CAD loader reported a failure.
    CadImport,
    /// A file has either no extension or an invalid extension.
    InvalidFileExtension,
    /// No loader was found for the given file.
    NoLoaderFound,
    /// Data could not be serialized.
    SerializationError,
    /// Data could not be deserialized, e.g. a truncated binary frame.
    DeserializationError,
}

} // verus!
