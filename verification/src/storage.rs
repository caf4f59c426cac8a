//! Storage abstractions for pluggable backends (placeholders).

use crate::error::SdkError;
use vstd::prelude::*;

verus! {

#[derive(Debug, Default, Clone)]
pub struct Record {
    pub key: String,
    pub value: Vec<u8>,
}

pub trait Storage {
    fn get(&self, _key: &str) -> Result<Option<Vec<u8>>, SdkError> {
        Err(SdkError::NotImplemented("Storage::get"))
    }

    fn put(&mut self, _key: &str, _value: &[u8]) -> Result<(), SdkError> {
        Err(SdkError::NotImplemented("Storage::put"))
    }

    fn delete(&mut self, _key: &str) -> Result<(), SdkError> {
        Err(SdkError::NotImplemented("Storage::delete"))
    }
}

} // verus!
