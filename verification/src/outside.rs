//! What this crate takes on trust: the outside functions it calls, each with the
//! contract that the rest of the crate is proved against.

use crate::json::quoted;
use indexmap::IndexMap;
use vstd::prelude::*;

verus! {

/// `serde_json::Error`, which is handed on unread.
#[verifier::external_type_specification]
#[verifier::external_body]
pub struct ExJsonError(serde_json::Error);

/// `hex::FromHexError`, which is handed on unread.
#[verifier::external_type_specification]
#[verifier::external_body]
pub struct ExFromHexError(hex::FromHexError);

/// `indexmap::IndexMap`. What a map from strings to strings holds is named by
/// [`index_map_entries`].
#[verifier::external_type_specification]
#[verifier::external_body]
#[verifier::reject_recursive_types(K)]
#[verifier::reject_recursive_types(V)]
#[verifier::reject_recursive_types(S)]
pub struct ExIndexMap<K, V, S>(IndexMap<K, V, S>);

/// `serde_json::to_string` on a string slice. It writes into a buffer in
/// memory, which cannot fail, so the result is always `Ok`; the text is the
/// string between two quotes, with `"` and `\` behind a backslash, backspace,
/// form feed, line feed, carriage return and tab as `\b \f \n \r \t`, every
/// other character below U+0020 as `\u00` and two lower-case hexadecimal
/// digits, and all other characters unchanged.
#[verifier::external_body]
pub(crate) fn json_string(s: &str) -> (text: Result<String, serde_json::Error>)
    ensures
        text is Ok,
        text matches Ok(t) ==> t@ == quoted(s@),
{
    serde_json::to_string(s)
}

/// The value of one hexadecimal digit, upper or lower case.
pub open spec fn hex_digit_value(c: u8) -> Option<int> {
    if 0x30 <= c <= 0x39 {
        Some(c - 0x30)
    } else if 0x41 <= c <= 0x46 {
        Some(c - 0x41 + 10)
    } else if 0x61 <= c <= 0x66 {
        Some(c - 0x61 + 10)
    } else {
        None
    }
}

/// Hexadecimal text that can be decoded: an even number of digits.
pub open spec fn is_hex_text(text: Seq<u8>) -> bool {
    &&& text.len() % 2 == 0
    &&& forall|i: int| 0 <= i < text.len() ==> hex_digit_value(#[trigger] text[i]) is Some
}

/// The bytes that hexadecimal text stands for, two digits to a byte, the high
/// digit first.
pub open spec fn hex_bytes(text: Seq<u8>) -> Seq<u8> {
    Seq::new(
        text.len() / 2,
        |i: int| (16 * hex_digit_value(text[2 * i])->0 + hex_digit_value(text[2 * i + 1])->0) as u8,
    )
}

/// `hex::decode`. It succeeds exactly on an even number of hexadecimal digits
/// of either case, and then gives one byte for each pair of digits.
#[verifier::external_body]
pub(crate) fn hex_decode(text: &[u8]) -> (bytes: Result<Vec<u8>, hex::FromHexError>)
    ensures
        bytes is Ok <==> is_hex_text(text@),
        bytes matches Ok(b) ==> b@ == hex_bytes(text@),
{
    hex::decode(text)
}

/// The Keccak-256 digest of a byte string.
pub uninterp spec fn keccak256(data: Seq<u8>) -> Seq<u8>;

/// `near_sdk::env::keccak256_array`: the 32-byte Keccak-256 digest of `data`.
#[verifier::external_body]
pub(crate) fn keccak256_digest(data: &[u8]) -> (digest: [u8; 32])
    ensures
        digest@ == keccak256(data@),
{
    near_sdk::env::keccak256_array(data)
}

/// Whether `signature` is a valid Ed25519 signature of `message` under
/// `public_key`.
pub uninterp spec fn ed25519_valid(signature: Seq<u8>, message: Seq<u8>, public_key: Seq<u8>) -> bool;

/// `near_sdk::env::ed25519_verify` on a 64-byte signature and a 32-byte key.
#[verifier::external_body]
pub(crate) fn ed25519_check(signature: &[u8; 64], message: &[u8], public_key: &[u8; 32]) -> (ok:
    bool)
    ensures
        ok == ed25519_valid(signature@, message@, public_key@),
{
    near_sdk::env::ed25519_verify(signature, message, public_key)
}

/// The Base58 text of a byte string, in the Bitcoin alphabet.
pub uninterp spec fn base58(data: Seq<u8>) -> Seq<char>;

/// `bs58::encode(..).into_string()` with the default alphabet.
#[verifier::external_body]
pub(crate) fn base58_text(data: &[u8]) -> (text: String)
    ensures
        text@ == base58(data@),
{
    bs58::encode(data).into_string()
}

/// The entries of an `IndexMap` from strings to strings, in the order in which
/// the map walks them. As long as nothing is removed from a map, that is the
/// order in which its keys were first inserted.
pub uninterp spec fn index_map_entries(m: IndexMap<String, String>) -> Seq<(Seq<char>, Seq<char>)>;

/// `IndexMap::len`: the number of entries.
#[verifier::external_body]
pub(crate) fn index_map_len(m: &IndexMap<String, String>) -> (n: usize)
    ensures
        n == index_map_entries(*m).len(),
{
    m.len()
}

/// `IndexMap::get_index`: the entry at a position in the map's order, if the
/// position is below the map's length.
#[verifier::external_body]
pub(crate) fn index_map_entry(m: &IndexMap<String, String>, i: usize) -> (entry: Option<
    (&String, &String),
>)
    ensures
        entry is Some <==> i < index_map_entries(*m).len(),
        entry matches Some((k, v)) ==> k@ == index_map_entries(*m)[i as int].0 && v@
            == index_map_entries(*m)[i as int].1,
{
    m.get_index(i)
}

/// `TryFrom<Vec<T>>` for `[T; N]` of the standard library: the vector's items
/// as an array when there are exactly `N` of them, the vector itself otherwise.
#[verifier::external_body]
pub(crate) fn vec_into_array<T, const N: usize>(v: Vec<T>) -> (out: Result<[T; N], Vec<T>>)
    ensures
        out is Ok <==> v@.len() == N,
        out matches Ok(a) ==> a@ == v@,
        out matches Err(w) ==> w@ == v@,
{
    v.try_into()
}

} // verus!
