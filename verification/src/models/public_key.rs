//! Public keys of the accounts that sign.

use vstd::prelude::*;

verus! {

#[derive(Debug, Clone, Copy, PartialEq, Eq, Structural)]
pub enum CurveType {
    ED25519,
    SECP256K1,
}

/// A public key: the curve and the key's bytes, 32 of them on Ed25519 and 64
/// on secp256k1.
#[derive(Debug, Clone)]
pub struct PublicKey {
    pub curve: CurveType,
    pub key: Vec<u8>,
}

} // verus!
