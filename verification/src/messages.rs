//! Signed message exchange (placeholders).

use crate::crypto::PrivateKey;
use crate::crypto::PublicKey;
use crate::error::SdkError;
use vstd::prelude::*;

verus! {

#[derive(Debug, Default, Clone)]
pub struct Message {
    pub data: Vec<u8>,
}

#[derive(Debug, Default, Clone)]
pub struct SignedMessage {
    pub data: Vec<u8>,
    pub signature: Vec<u8>,
    pub pubkey: PublicKey,
}

pub fn sign_message(_msg: &Message, _priv: &PrivateKey) -> (r: Result<SignedMessage, SdkError>)
    ensures
        r matches Err(SdkError::NotImplemented(_)),
{
    Err(SdkError::NotImplemented("sign_message"))
}

pub fn verify_message(_signed: &SignedMessage) -> (r: Result<bool, SdkError>)
    ensures
        r matches Err(SdkError::NotImplemented(_)),
{
    Err(SdkError::NotImplemented("verify_message"))
}

} // verus!
