use vstd::prelude::*;

verus! {

/// Why a byte sequence could not be decoded into a raster.
#[derive(Clone, Copy, Debug, PartialEq, Eq, Structural)]
pub enum DecodeError {
    /// The first four bytes are not the format's tag.
    InvalidFormat,
    /// The source ends before the twelve header bytes are complete.
    TruncatedHeader,
    /// The compressed payload is not a valid zlib stream.
    CorruptPayload,
    /// The payload holds fewer bytes than the declared dimensions need.
    SizeMismatch,
}

/// Why a raster could not be encoded.
#[derive(Clone, Copy, Debug, PartialEq, Eq, Structural)]
pub enum EncodeError {
    /// The compression backend reported a failure.
    EncodeBackendFailure,
}

impl DecodeError {
    /// A short human-readable description.
    pub fn message(&self) -> (r: String)
        ensures
            r@ == match self {
                DecodeError::InvalidFormat => "invalid .shivanosh file"@,
                DecodeError::TruncatedHeader => "truncated header"@,
                DecodeError::CorruptPayload => "corrupt compressed payload"@,
                DecodeError::SizeMismatch => "payload smaller than the declared dimensions"@,
            },
    {
        match self {
            DecodeError::InvalidFormat => String::from_str("invalid .shivanosh file"),
            DecodeError::TruncatedHeader => String::from_str("truncated header"),
            DecodeError::CorruptPayload => String::from_str("corrupt compressed payload"),
            DecodeError::SizeMismatch => String::from_str("payload smaller than the declared dimensions"),
        }
    }
}

impl EncodeError {
    /// A short human-readable description.
    pub fn message(&self) -> (r: String)
        ensures
            r@ == match self {
                EncodeError::EncodeBackendFailure => "compression failed"@,
            },
    {
        match self {
            EncodeError::EncodeBackendFailure => String::from_str("compression failed"),
        }
    }
}

} // verus!
