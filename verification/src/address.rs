//! Address and WIF helpers (placeholders; specified only by the interface
//! they must expose).

use crate::crypto::PrivateKey;
use crate::crypto::PublicKey;
use crate::error::SdkError;
use vstd::prelude::*;

verus! {

#[derive(Debug, Clone, Copy)]
pub enum Network {
    Mainnet,
    Testnet,
}

impl Default for Network {
    fn default() -> (r: Self)
        ensures
            r is Mainnet,
    {
        Network::Mainnet
    }
}

#[derive(Debug, Default, Clone)]
pub struct Address {
    pub network: Network,
    pub payload: [u8; 20],
}

pub fn from_pubkey(_pk: &PublicKey, _net: Network) -> (r: Address)
    ensures
        r.network is Mainnet,
        r.payload@ =~= Seq::new(20, |i: int| 0u8),
{
    Address { network: Network::Mainnet, payload: [0u8; 20] }
}

pub fn parse(_s: &str) -> (r: Result<Address, SdkError>)
    ensures
        r matches Err(SdkError::NotImplemented(_)),
{
    Err(SdkError::NotImplemented("address::parse"))
}

pub fn to_string(_a: &Address) -> (r: String)
    ensures
        r@.len() == 0,
{
    String::new()
}

pub fn wif_from_private_key(_pk: &PrivateKey, _net: Network, _compressed: bool) -> (r: String)
    ensures
        r@.len() == 0,
{
    String::new()
}

pub fn wif_to_private_key(_wif: &str) -> (r: Result<(PrivateKey, Network, bool), SdkError>)
    ensures
        r matches Err(SdkError::NotImplemented(_)),
{
    Err(SdkError::NotImplemented("wif_to_private_key"))
}

} // verus!
