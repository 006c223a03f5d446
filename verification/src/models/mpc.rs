//! What goes to the signer and what comes back from it.

use vstd::prelude::*;

verus! {

/// A signature as the signer returns it.
pub struct SignResult {
    pub big_r: AffinePoint,
    pub s: Scalar,
    pub recovery_id: u8,
}

/// A point of the curve, as the signer writes it.
pub struct AffinePoint {
    pub affine_point: String,
}

/// A scalar, as the signer writes it.
pub struct Scalar {
    pub scalar: String,
}

/// A request to sign a 32-byte payload under the key that `path` derives.
#[derive(Clone)]
pub struct MPCSignPayload {
    pub payload: [u8; 32],
    pub path: String,
    pub key_version: u32,
}

pub struct MPCSignPayloadView {
    pub payload: Seq<u8>,
    pub path: Seq<char>,
    pub key_version: u32,
}

impl View for MPCSignPayload {
    type V = MPCSignPayloadView;

    open spec fn view(&self) -> MPCSignPayloadView {
        MPCSignPayloadView {
            payload: self.payload@,
            path: self.path@,
            key_version: self.key_version,
        }
    }
}

} // verus!
