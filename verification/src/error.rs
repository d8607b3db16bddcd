//! Error kinds surfaced by the decoder.
use vstd::prelude::*;

verus! {

/// Faults in the chunk graph itself: a child offset of the wrong kind, or an
/// index past the end of a group.
#[derive(Clone, Copy, Debug, PartialEq, Eq, Structural)]
pub enum InternalError {
    GroupChunkReadAsDataChunk,
    DataChunkReadAsGroupChunk,
    OutOfBounds,
    Unreachable,
    InvalidChunkBy,
}

/// Malformed or out-of-scope archive content.
#[derive(Clone, Copy, Debug, PartialEq, Eq, Structural)]
pub enum ParsingError {
    InvalidAlembicFile,
    UnsupportedAlembicFile,
    IncompatibleSchema,
    FromUtf8Error,
}

/// Misuse of the decoder by its caller.
#[derive(Clone, Copy, Debug, PartialEq, Eq, Structural)]
pub enum UserError {
    OutOfBounds,
    InvalidParameter,
}

/// The one error type every decoding operation returns: an internal chunk
/// fault, a parsing fault, caller misuse, or a read past the end of the
/// byte source.
#[derive(Clone, Copy, Debug, PartialEq, Eq, Structural)]
pub enum OgawaError {
    InternalError(InternalError),
    ParsingError(ParsingError),
    UserError(UserError),
    IoError,
}

impl OgawaError {
    /// A short description, in place of a `Display` impl.
    pub fn describe(&self) -> (r: &'static str)
    {
        match self {
            OgawaError::InternalError(_) => "internal error",
            OgawaError::ParsingError(_) => "parsing error",
            OgawaError::UserError(_) => "user error",
            OgawaError::IoError => "i/o error",
        }
    }
}

} // verus!
