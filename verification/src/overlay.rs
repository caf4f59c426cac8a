//! Overlay-protocol messaging (placeholders).

use crate::error::SdkError;
use vstd::prelude::*;

verus! {

#[derive(Debug, Default, Clone)]
pub struct OverlayMessage {
    pub kind: String,
    pub payload: Vec<u8>,
}

pub trait OverlayClient {
    fn send(&self, _msg: &OverlayMessage) -> Result<(), SdkError> {
        Err(SdkError::NotImplemented("OverlayClient::send"))
    }

    fn receive(&self) -> Result<OverlayMessage, SdkError> {
        Err(SdkError::NotImplemented("OverlayClient::receive"))
    }
}

} // verus!
