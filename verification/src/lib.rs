//! Binary wire-format layer of a ledger-transaction SDK: CompactSize varints,
//! script push-data encoding and parsing, transaction serialization, and
//! checksummed base-58 text encodings, all with verified contracts.

use vstd::prelude::*;

pub mod address;
pub mod auth;
pub mod crypto;
pub mod error;
pub mod identity;
pub mod messages;
pub mod net;
pub mod overlay;
pub mod script;
pub mod storage;
pub mod transaction;
pub mod util;
pub mod wallet;

pub use error::SdkError;

verus! {

/// The crate version string.
pub fn version() -> (r: &'static str)
    ensures
        r@ == "0.1.0"@,
{
    "0.1.0"
}

} // verus!
