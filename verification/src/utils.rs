//! Hashing, signatures and the arguments of a call of the signer.

use crate::encoding::{batch_json, canonical_json, push_quoted};
use crate::json::{decimal, joined, push_decimal, quoted};
use crate::models::intents::{DefuseIntents, DefuseIntentsView};
use crate::models::mpc::{MPCSignPayload, MPCSignPayloadView};
use crate::models::public_key::{CurveType, PublicKey};
use crate::models::error::ProxyError;
use crate::outside::{
    base58, base58_text, ed25519_check, ed25519_valid, hex_bytes, hex_decode, is_hex_text,
    keccak256, keccak256_digest, vec_into_array,
};
use vstd::pervasive::unreached;
use vstd::prelude::*;
use vstd::slice::slice_subrange;
use vstd::string::{StrSliceExecFns, StringExecFns};
use vstd::utf8::encode_utf8;

verus! {

/// A vector of 64 bytes as an array; nothing for any other length.
pub fn vec_to_64_byte_array(vec: Vec<u8>) -> (out: Option<[u8; 64]>)
    ensures
        out is Some <==> vec@.len() == 64,
        out matches Some(a) ==> a@ == vec@,
{
    if vec.len() != 64 {
        return None;
    }
    Some(vec_to_fixed(vec))
}

/// A vector of exactly `N` items as an array.
pub fn vec_to_fixed<T, const N: usize>(v: Vec<T>) -> (out: [T; N])
    requires
        v@.len() == N,
    ensures
        out@ == v@,
{
    match vec_into_array(v) {
        Ok(a) => a,
        Err(_) => unreached(),
    }
}

/// The arguments of a call of the signer: the request, wrapped in an object
/// under the name `request`.
pub open spec fn sign_request_json(request: MPCSignPayloadView) -> Seq<char> {
    "{\"request\":{\"payload\":["@ + joined(request.payload.map_values(|b: u8| decimal(b as nat)))
        + "],\"path\":"@ + quoted(request.path) + ",\"key_version\":"@ + decimal(
        request.key_version as nat,
    ) + "}}"@
}

/// Writes the arguments of a call of the signer.
pub fn sign_request_text(request: &MPCSignPayload) -> (text: String)
    ensures
        text@ == sign_request_json(request@),
{
    let ghost numbers = request.payload@.map_values(|b: u8| decimal(b as nat));
    let mut out = String::from_str("{\"request\":{\"payload\":[");
    let ghost head = out@;
    let mut i: usize = 0;
    while i < 32
        invariant
            i <= 32,
            head == "{\"request\":{\"payload\":["@,
            numbers == request.payload@.map_values(|b: u8| decimal(b as nat)),
            out@ == head + joined(numbers.take(i as int)),
        decreases 32 - i,
    {
        if i > 0 {
            proof {
                reveal_strlit(",");
            }
            out.append(",");
        }
        push_decimal(&mut out, request.payload[i] as u128);
        proof {
            assert(numbers.take(i + 1).drop_last() =~= numbers.take(i as int));
            assert(out@ =~= head + joined(numbers.take(i + 1)));
        }
        i += 1;
    }
    out.append("],\"path\":");
    push_quoted(&mut out, request.path.as_str());
    out.append(",\"key_version\":");
    push_decimal(&mut out, request.key_version as u128);
    out.append("}}");
    proof {
        assert(numbers.take(32) =~= numbers);
        assert(out@ =~= sign_request_json(request@));
    }
    out
}

/// Builds the arguments of a call that asks the signer to sign the 32-byte
/// `payload` under the key that `path` derives, at key version 0.
pub fn create_sign_request_from_transaction(payload: Vec<u8>, path: &str) -> (text: String)
    requires
        payload@.len() == 32,
    ensures
        text@ == sign_request_json(
            MPCSignPayloadView { payload: payload@, path: path@, key_version: 0 },
        ),
{
    let sign_request = MPCSignPayload {
        payload: vec_to_fixed(payload),
        path: String::from_str(path),
        key_version: 0,
    };
    sign_request_text(&sign_request)
}

/// The text of a public key: the curve's name, a colon, the key in Base58.
pub open spec fn public_key_text(curve: CurveType, key: Seq<u8>) -> Seq<char> {
    match curve {
        CurveType::ED25519 => "ed25519:"@ + base58(key),
        CurveType::SECP256K1 => "secp256k1:"@ + base58(key),
    }
}

/// Writes a public key as text.
pub fn public_key_to_string(public_key: &PublicKey) -> (text: String)
    ensures
        text@ == public_key_text(public_key.curve, public_key.key@),
{
    let encoded = base58_text(public_key.key.as_slice());
    let mut text = match public_key.curve {
        CurveType::ED25519 => String::from_str("ed25519:"),
        CurveType::SECP256K1 => String::from_str("secp256k1:"),
    };
    text.append(encoded.as_str());
    text
}

/// What is hashed in place of a text: the marker of a signed message, the
/// number of bytes of the text in decimal, and the text, all in UTF-8.
pub open spec fn erc191_message(text: Seq<char>) -> Seq<u8> {
    encode_utf8("\x19Ethereum Signed Message:\n"@ + decimal(encode_utf8(text).len()))
        + encode_utf8(text)
}

/// The hash of a text: the Keccak-256 digest of its signed-message form.
pub open spec fn erc191_hash(text: Seq<char>) -> Seq<u8> {
    keccak256(erc191_message(text))
}

/// The hash of a batch: the hash of its canonical text.
pub open spec fn batch_hash(batch: DefuseIntentsView) -> Seq<u8> {
    erc191_hash(batch_json(batch))
}

/// Hashes a text.
pub fn erc191_digest(text: &str) -> (digest: [u8; 32])
    ensures
        digest@ == erc191_hash(text@),
{
    let mut body: Vec<u8> = text.as_bytes_vec();
    let mut prefix = String::from_str("\x19Ethereum Signed Message:\n");
    push_decimal(&mut prefix, body.len() as u128);
    let mut combined: Vec<u8> = prefix.as_str().as_bytes_vec();
    combined.append(&mut body);
    assert(combined@ =~= erc191_message(text@));
    keccak256_digest(combined.as_slice())
}

/// Hashes a batch of intents: canonical text, signed-message prefix,
/// Keccak-256.
pub fn compute_erc191_hash(value: &DefuseIntents) -> (digest: [u8; 32])
    ensures
        digest@ == batch_hash(value@),
{
    let json_str = canonical_json(value);
    erc191_digest(json_str.as_str())
}

/// Whether `signature` is a valid signature of `payload` under `public_key`:
/// the key has 32 bytes, the signature has 64, and the signature holds on
/// Ed25519.
pub open spec fn signature_valid(payload: Seq<u8>, signature: Seq<u8>, key: Seq<u8>) -> bool {
    key.len() == 32 && signature.len() == 64 && ed25519_valid(signature, payload, key)
}

/// Verifies a signature of `payload_bytes` under `public_key`.
pub fn verify_signature(payload_bytes: &[u8], signature: &Vec<u8>, public_key: &PublicKey) -> (ok:
    bool)
    ensures
        ok == signature_valid(payload_bytes@, signature@, public_key.key@),
{
    if public_key.key.len() != 32 {
        return false;
    }
    let key_bytes_array: [u8; 32] = vec_to_fixed(public_key.key.clone());
    let sig_bytes: [u8; 64] = match vec_to_64_byte_array(signature.clone()) {
        Some(bytes) => bytes,
        None => {
            return false;
        },
    };
    ed25519_check(&sig_bytes, payload_bytes, &key_bytes_array)
}

/// Verifies a single signature of `data`.
pub fn is_single_signature_valid(data: &[u8], public_key: &PublicKey, signature: &Vec<u8>) -> (ok:
    bool)
    ensures
        ok == signature_valid(data@, signature@, public_key.key@),
{
    verify_signature(data, signature, public_key)
}

/// The 32 bytes that a hash handed in as text stands for. The text must be
/// `0x` followed by 64 hexadecimal digits of either case.
pub open spec fn claimed_hash(hash: Seq<char>) -> Result<Seq<u8>, ProxyError> {
    let bytes = encode_utf8(hash);
    if bytes.len() < 2 || bytes[0] != 0x30 || bytes[1] != 0x78 || !is_hex_text(bytes.skip(2)) {
        Err(ProxyError::MalformedHash)
    } else if hex_bytes(bytes.skip(2)).len() != 32 {
        Err(ProxyError::HashLength(hex_bytes(bytes.skip(2)).len() as usize))
    } else {
        Ok(hex_bytes(bytes.skip(2)))
    }
}

/// Reads a hash that was handed in as text.
pub fn parse_hash(hash: &str) -> (parsed: Result<[u8; 32], ProxyError>)
    ensures
        match parsed {
            Ok(h) => claimed_hash(hash@) == Ok::<Seq<u8>, ProxyError>(h@),
            Err(e) => claimed_hash(hash@) == Err::<Seq<u8>, ProxyError>(e),
        },
{
    let bytes = hash.as_bytes();
    if bytes.len() < 2 {
        return Err(ProxyError::MalformedHash);
    }
    if bytes[0] != 0x30 || bytes[1] != 0x78 {
        return Err(ProxyError::MalformedHash);
    }
    let digits = slice_subrange(bytes, 2, bytes.len());
    assert(digits@ =~= encode_utf8(hash@).skip(2));
    match hex_decode(digits) {
        Ok(raw_bytes) => {
            if raw_bytes.len() != 32 {
                Err(ProxyError::HashLength(raw_bytes.len()))
            } else {
                Ok(vec_to_fixed(raw_bytes))
            }
        },
        Err(_) => Err(ProxyError::MalformedHash),
    }
}

/// Whether two hashes are the same.
pub fn same_hash(a: &[u8; 32], b: &[u8; 32]) -> (same: bool)
    ensures
        same == (a@ == b@),
{
    let mut i: usize = 0;
    while i < 32
        invariant
            i <= 32,
            forall|j: int| 0 <= j < i ==> a@[j] == b@[j],
        decreases 32 - i,
    {
        if a[i] != b[i] {
            return false;
        }
        i += 1;
    }
    assert(a@ =~= b@);
    true
}

} // verus!
