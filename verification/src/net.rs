//! Network abstractions behind a trait so clients can provide their own
//! transport (placeholders).

use crate::error::SdkError;
use vstd::prelude::*;

verus! {

pub trait HttpClient {
    fn get(&self, _url: &str) -> Result<Vec<u8>, SdkError> {
        Err(SdkError::NotImplemented("HttpClient::get"))
    }

    fn post(&self, _url: &str, _body: &[u8]) -> Result<Vec<u8>, SdkError> {
        Err(SdkError::NotImplemented("HttpClient::post"))
    }
}

#[derive(Debug, Default, Clone)]
pub struct FeeQuote;

#[derive(Debug, Default, Clone)]
pub struct BroadcastResponse;

} // verus!
