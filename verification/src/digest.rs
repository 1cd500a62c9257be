//! What is assumed of the hash and key-derivation crates: BLAKE3, SHA3-512, Argon2 and
//! the salt text. Every executable function here calls into one of them; its contract is
//! believed, not proved.

use sha3::Digest;
use vstd::prelude::*;

verus! {

/// The BLAKE3 hash of a byte string.
pub uninterp spec fn blake3_digest(data: Seq<u8>) -> [u8; 32];

/// The BLAKE3 keyed hash of a byte string under a 32-byte key.
pub uninterp spec fn blake3_keyed_digest(key: Seq<u8>, data: Seq<u8>) -> [u8; 32];

/// The BLAKE3 key-derivation output for a context string and key material.
pub uninterp spec fn blake3_derived_key(context: Seq<char>, material: Seq<u8>) -> [u8; 32];

/// The SHA3-512 hash of a byte string.
pub uninterp spec fn sha3_512_digest(data: Seq<u8>) -> [u8; 64];

/// Calls `blake3::hash`. The hash depends on the input bytes alone; the
/// contract names it and claims nothing else.
#[verifier::external_body]
pub(crate) fn blake3_hash(data: &[u8]) -> (r: [u8; 32])
    ensures
        r == blake3_digest(data@),
{
    *blake3::hash(data).as_bytes()
}

/// Calls `blake3::keyed_hash`. The hash depends on the key and the input
/// bytes alone; the contract names it and claims nothing else.
#[verifier::external_body]
pub(crate) fn blake3_keyed_hash(key: &[u8; 32], data: &[u8]) -> (r: [u8; 32])
    ensures
        r == blake3_keyed_digest(key@, data@),
{
    *blake3::keyed_hash(key, data).as_bytes()
}

/// Calls `blake3::derive_key`. The derived key depends on the context string
/// and the key material alone; the contract names it and claims nothing else.
#[verifier::external_body]
pub(crate) fn blake3_derive_key(context: &str, material: &[u8]) -> (r: [u8; 32])
    ensures
        r == blake3_derived_key(context@, material@),
{
    blake3::derive_key(context, material)
}

/// Calls `sha3::Sha3_512::digest`. The hash depends on the input bytes
/// alone; the contract names it and claims nothing else.
#[verifier::external_body]
pub(crate) fn sha3_512(data: &[u8]) -> (r: [u8; 64])
    ensures
        r == sha3_512_digest(data@),
{
    sha3::Sha3_512::digest(data).into()
}

/// The unpadded Base64 text, as bytes, that `password_hash` makes of a salt.
pub uninterp spec fn salt_b64(input: Seq<u8>) -> Seq<u8>;

/// The length of the unpadded Base64 text of `len` bytes: four characters
/// for every three bytes, rounded up.
pub open spec fn b64_len(len: int) -> int {
    (4 * len) / 3 + if (4 * len) % 3 != 0 {
        1int
    } else {
        0int
    }
}

/// The Argon2id output of `len` bytes, with the default parameters of the
/// `argon2` crate, for a password and a salt.
pub uninterp spec fn argon2_output(pwd: Seq<u8>, salt: Seq<u8>, len: nat) -> Seq<u8>;

/// The lengths that Argon2 with default parameters accepts: an output of 4
/// bytes or more, a salt of 8 bytes or more, none of the three over
/// `0xFFFFFFFF` bytes.
pub open spec fn argon2_accepts(pwd_len: nat, salt_len: nat, out_len: nat) -> bool {
    &&& 4 <= out_len <= 0xFFFF_FFFF
    &&& pwd_len <= 0xFFFF_FFFF
    &&& 8 <= salt_len <= 0xFFFF_FFFF
}

/// Calls `password_hash::SaltString::encode_b64` and hands back the text of
/// the salt string as bytes, or the text of the error. The source encodes
/// into a buffer of 64 characters, so it succeeds exactly for inputs of at
/// most 48 bytes; the text has the unpadded Base64 length and is named.
#[verifier::external_body]
pub(crate) fn encode_salt(input: &[u8]) -> (r: Result<Vec<u8>, String>)
    ensures
        (r is Ok) == (input@.len() <= 48),
        r matches Ok(text) ==> text@ == salt_b64(input@) && text@.len() == b64_len(
            input@.len() as int,
        ),
{
    match argon2::password_hash::SaltString::encode_b64(input) {
        Ok(salt) => Ok(salt.as_str().as_bytes().to_vec()),
        Err(e) => Err(e.to_string()),
    }
}

/// Calls `argon2::Argon2::default().hash_password_into`, which fills the
/// whole of `out`. The source refuses an output under 4 bytes, a salt under 8
/// bytes, and any of the three over `0xFFFFFFFF` bytes, and has no other
/// failure; the bytes written are named. On failure the text of the error
/// comes back.
#[verifier::external_body]
pub(crate) fn argon2_fill(pwd: &[u8], salt: &[u8], out: &mut Vec<u8>) -> (r: Result<(), String>)
    ensures
        final(out)@.len() == old(out)@.len(),
        (r is Ok) == argon2_accepts(pwd@.len(), salt@.len(), old(out)@.len()),
        r is Ok ==> final(out)@ == argon2_output(pwd@, salt@, old(out)@.len()),
{
    match argon2::Argon2::default().hash_password_into(pwd, salt, out) {
        Ok(()) => Ok(()),
        Err(e) => Err(e.to_string()),
    }
}

/// The lower-case hexadecimal digit of a number below sixteen.
pub open spec fn hex_digit(n: u8) -> char {
    if n == 0 {
        '0'
    } else if n == 1 {
        '1'
    } else if n == 2 {
        '2'
    } else if n == 3 {
        '3'
    } else if n == 4 {
        '4'
    } else if n == 5 {
        '5'
    } else if n == 6 {
        '6'
    } else if n == 7 {
        '7'
    } else if n == 8 {
        '8'
    } else if n == 9 {
        '9'
    } else if n == 10 {
        'a'
    } else if n == 11 {
        'b'
    } else if n == 12 {
        'c'
    } else if n == 13 {
        'd'
    } else if n == 14 {
        'e'
    } else {
        'f'
    }
}

/// The lower-case hexadecimal text of a byte string: two digits a byte, the
/// high half first.
pub open spec fn hex_text(bytes: Seq<u8>) -> Seq<char> {
    Seq::new(
        2 * bytes.len(),
        |i: int|
            if i % 2 == 0 {
                hex_digit(bytes[i / 2] / 16)
            } else {
                hex_digit(bytes[i / 2] % 16)
            },
    )
}

/// Calls `blake3::Hash::to_hex` on the hash with these bytes, which encodes
/// them in lower-case hexadecimal, and hands the text back as a `String`.
#[verifier::external_body]
pub(crate) fn hash_hex(bytes: &[u8; 32]) -> (r: String)
    ensures
        r@ == hex_text(bytes@),
{
    blake3::Hash::from_bytes(*bytes).to_hex().to_string()
}

} // verus!
