//! The closed error taxonomy shared by every component of the SDK.

use vstd::prelude::*;

verus! {

/// The transaction-wire field that ran out of data or was malformed while
/// decoding; a parse error is always tagged with the field that failed.
#[derive(Debug, Clone, Copy, PartialEq, Eq, Structural)]
pub enum ParseField {
    Version,
    InputCount,
    Prevout,
    Vout,
    ScriptLength,
    ScriptBytes,
    Sequence,
    OutputCount,
    Value,
    Locktime,
}

/// Unified SDK error type.
///
/// This core produces only `InvalidArgument` (malformed values handed in
/// directly by a caller, such as bad hex or a checksum mismatch) and
/// `ParseError` (malformed binary wire data discovered during decoding).
#[derive(Debug)]
pub enum SdkError {
    NotImplemented(&'static str),
    InvalidArgument(&'static str),
    ParseError(ParseField),
    CryptoError(&'static str),
    IoError,
    NetworkError,
}

} // verus!
