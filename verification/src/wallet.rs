//! Wallet facade over keys, storage, and network (placeholders).

use crate::crypto::KeyPair;
use crate::error::SdkError;
use crate::storage::Storage;
use vstd::prelude::*;

verus! {

#[derive(Debug, Default)]
pub struct WalletConfig {
    pub network: String,
}

#[derive(Debug, Default)]
pub struct Wallet<S: Storage> {
    pub cfg: WalletConfig,
    pub keypair: Option<KeyPair>,
    pub storage: S,
}

impl<S: Storage> Wallet<S> {
    pub fn new(cfg: WalletConfig, storage: S) -> (r: Self)
        ensures
            r.keypair is None,
            r.cfg == cfg,
            r.storage == storage,
    {
        Wallet { cfg, keypair: None, storage }
    }

    pub fn set_keypair(&mut self, kp: KeyPair)
        ensures
            final(self).keypair == Some(kp),
            final(self).cfg == old(self).cfg,
            final(self).storage == old(self).storage,
    {
        self.keypair = Some(kp);
    }

    pub fn balance(&self) -> (r: Result<u64, SdkError>)
        ensures
            r matches Err(SdkError::NotImplemented(_)),
    {
        Err(SdkError::NotImplemented("Wallet::balance"))
    }
}

} // verus!
