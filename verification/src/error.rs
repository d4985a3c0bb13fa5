//! Error type for GIF processing operations.

use vstd::prelude::*;

verus! {

/// Errors that can occur during GIF processing.
#[derive(Debug)]
pub enum Error {
    /// Error during GIF decoding.
    DecodeError(String),
    /// Invalid or truncated GIF data.
    InvalidGif(String),
    /// Error during GIF encoding.
    EncodeError(String),
    /// Error during image resizing.
    ResizeError(String),
    /// Invalid dimensions for an operation.
    InvalidDimensions(String),
}

/// Result type for GIF operations.
pub type Result<T> = core::result::Result<T, Error>;

impl Error {
    /// The human-readable message of this error: a fixed prefix naming the
    /// kind of error, followed by the detail text.
    pub open spec fn message_spec(&self) -> Seq<char> {
        match self {
            Error::DecodeError(s) => "decode error: "@ + s@,
            Error::InvalidGif(s) => "invalid GIF: "@ + s@,
            Error::EncodeError(s) => "encode error: "@ + s@,
            Error::ResizeError(s) => "resize error: "@ + s@,
            Error::InvalidDimensions(s) => "invalid dimensions: "@ + s@,
        }
    }

    /// Render the error as its human-readable message.
    pub fn message(&self) -> (r: String)
        ensures
            r@ == self.message_spec(),
    {
        let (prefix, detail) = match self {
            Error::DecodeError(s) => ("decode error: ", s),
            Error::InvalidGif(s) => ("invalid GIF: ", s),
            Error::EncodeError(s) => ("encode error: ", s),
            Error::ResizeError(s) => ("resize error: ", s),
            Error::InvalidDimensions(s) => ("invalid dimensions: ", s),
        };
        let mut out = String::from_str(prefix);
        out.append(detail.as_str());
        out
    }
}

} // verus!
