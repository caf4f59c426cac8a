//! Authentication and session handling (placeholders).

use crate::error::SdkError;
use vstd::prelude::*;

verus! {

#[derive(Debug, Default, Clone)]
pub struct AuthSession {
    pub token: Option<String>,
}

pub trait AuthProvider {
    fn start(&self) -> Result<AuthSession, SdkError> {
        Err(SdkError::NotImplemented("AuthProvider::start"))
    }

    fn complete(&self, _session: &AuthSession) -> Result<AuthSession, SdkError> {
        Err(SdkError::NotImplemented("AuthProvider::complete"))
    }
}

} // verus!
