//! The closed set of failures a drain operation can report.

use vstd::prelude::*;

verus! {

/// Everything that can go wrong while draining a source.
///
/// The three kinds do not overlap: `IoError` comes from the generic reader
/// path, `HyperError` from the chunked body path, and `EncodingError` from
/// UTF-8 validation of what was read. Each carries the diagnostic message of
/// the underlying failure.
#[derive(Debug)]
pub enum StreamConverterError {
    /// The underlying generic reader failed to produce bytes.
    IoError(String),
    /// The bytes read are not valid UTF-8 text.
    EncodingError(String),
    /// The underlying chunked body failed to produce a chunk.
    HyperError(String),
}

impl StreamConverterError {
    /// The diagnostic message carried by the error, whatever its kind.
    pub open spec fn message_view(&self) -> Seq<char> {
        match self {
            StreamConverterError::IoError(m) => m@,
            StreamConverterError::EncodingError(m) => m@,
            StreamConverterError::HyperError(m) => m@,
        }
    }

    /// The diagnostic message of the underlying failure.
    pub fn message(&self) -> (r: &String)
        ensures
            r@ == self.message_view(),
    {
        match self {
            StreamConverterError::IoError(m) => m,
            StreamConverterError::EncodingError(m) => m,
            StreamConverterError::HyperError(m) => m,
        }
    }
}

} // verus!
