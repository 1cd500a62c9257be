//! The password key: Argon2 over the first key, salted with the nonce or the salt.

use crate::digest::argon2_fill;
use crate::digest::argon2_output;
use crate::digest::encode_salt;
use crate::digest::salt_b64;
use crate::errors::Errors;
use crate::salt::Salt;
use crate::secrets::ct_eq_bytes;
use crate::secrets::ct_eq_usize;
use vstd::prelude::*;

verus! {

/// The bytes that serve as Argon2 salt: those of the custom salt where one
/// is given, those of the nonce otherwise.
pub open spec fn effective_salt(salt: Seq<u8>, custom_salt: Option<Seq<u8>>) -> Seq<u8> {
    match custom_salt {
        Some(custom) => custom,
        None => salt,
    }
}

/// The bytes of an optional salt.
pub open spec fn salt_view(custom_salt: Option<Salt>) -> Option<Seq<u8>> {
    match custom_salt {
        Some(custom) => Some(custom@),
        None => None,
    }
}

/// The 32-byte password key: Argon2 over the 32-byte derived key `pwd`,
/// salted with the Base64 text of the effective salt.
pub open spec fn spec_password_key(
    pwd: Seq<u8>,
    salt: Seq<u8>,
    custom_salt: Option<Seq<u8>>,
) -> Seq<u8> {
    argon2_output(pwd, salt_b64(effective_salt(salt, custom_salt)), 32)
}

/// The inputs for which a password key can be derived: a `pwd` of 32 bytes
/// and a `salt` of at most 48, which is the most that the salt text holds,
/// and of at least 6 where it is the Argon2 salt itself, so that its text has
/// the 8 characters Argon2 asks for.
pub open spec fn key_derivable(pwd: Seq<u8>, salt: Seq<u8>, custom_salt: Option<Salt>) -> bool {
    &&& pwd.len() == 32
    &&& salt.len() <= 48
    &&& (custom_salt is Some || salt.len() >= 6)
}

/// Derives the password key. It succeeds exactly on the inputs that
/// [`key_derivable`] describes; every failure is an `Argon2Failed`, and for a
/// `pwd` of another length than 32 its detail is "Invalid Password".
pub fn derive_password_key(
    pwd: &[u8],
    salt: &[u8],
    custom_salt: Option<Salt>,
) -> (r: Result<Vec<u8>, Errors>)
    ensures
        r is Ok <==> key_derivable(pwd@, salt@, custom_salt),
        r matches Ok(key) ==> key@ == spec_password_key(pwd@, salt@, salt_view(custom_salt))
            && key@.len() == 32,
        r matches Err(e) ==> e is Argon2Failed,
        pwd@.len() != 32 ==> (r matches Err(Errors::Argon2Failed(m)) && m@ == "Invalid Password"@),
{
    if !ct_eq_usize(pwd.len(), 32) {
        return Err(Errors::Argon2Failed("Invalid Password".to_owned()));
    }
    let mut salt_text = match encode_salt(salt) {
        Ok(text) => text,
        Err(e) => {
            return Err(Errors::Argon2Failed(e));
        },
    };
    if let Some(custom) = custom_salt {
        salt_text = match encode_salt(custom.as_bytes()) {
            Ok(text) => text,
            Err(e) => {
                return Err(Errors::Argon2Failed(e));
            },
        };
    }
    let mut out: Vec<u8> = vec![0u8; 32];
    match argon2_fill(pwd, salt_text.as_slice(), &mut out) {
        Ok(()) => Ok(out),
        Err(e) => Err(Errors::Argon2Failed(e)),
    }
}

/// Whether two keys are the same, bytes and length, compared in constant time.
pub fn verify_keys_constant_time(key1: &[u8], key2: &[u8]) -> (r: Result<bool, Errors>)
    ensures
        r matches Ok(same) && same == (key1@ == key2@),
{
    if !ct_eq_usize(key1.len(), key2.len()) {
        return Ok(false);
    }
    let result = ct_eq_bytes(key1, key2);
    Ok(result)
}

} // verus!
