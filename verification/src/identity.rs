//! Identity management (placeholders).

use crate::crypto::PrivateKey;
use crate::crypto::PublicKey;
use vstd::prelude::*;

verus! {

#[derive(Debug, Default, Clone)]
pub struct Identity {
    pub id: String,
    pub pubkey: PublicKey,
}

#[derive(Debug, Default, Clone)]
pub struct IdentityManager;

impl IdentityManager {
    pub fn new() -> (r: Self) {
        IdentityManager
    }

    pub fn from_private_key(_pk: &PrivateKey) -> (r: Identity)
        ensures
            r.id@.len() == 0,
            r.pubkey.0@ =~= Seq::new(33, |i: int| 0u8),
    {
        Identity { id: String::new(), pubkey: PublicKey([0u8; 33]) }
    }
}

} // verus!
