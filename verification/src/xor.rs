//! The keyed XOR pass and its inverse.

use crate::byteops::lemma_add_then_sub;
use crate::byteops::lemma_rotate_left_then_right;
use crate::byteops::lemma_rotate_right_then_left;
use crate::byteops::lemma_xor_twice;
use crate::byteops::rotate_left8;
use crate::byteops::rotate_right8;
use crate::byteops::rotl8;
use crate::byteops::rotr8;
use crate::byteops::wadd8;
use crate::byteops::wrapping_add8;
use crate::byteops::wrapping_sub8;
use crate::byteops::wsub8;
use crate::errors::Errors;
use crate::parallel::par_map_indexed;
use crate::parallel::pool_map;
use vstd::prelude::*;

verus! {

/// One byte of the keyed XOR pass, for the nonce byte `n` and the key byte
/// `p`: mask with `n ^ p`, rotate left by `n ^ (p mod 8)` places (taken modulo
/// eight), then add `p` and `n` modulo 256.
pub open spec fn xor_encrypt_byte(n: u8, p: u8, b: u8) -> u8 {
    wadd8(wadd8(rotl8(b ^ (n ^ p), n ^ (p % 8)), p), n)
}

/// The inverse of [`xor_encrypt_byte`]: subtract `n` and `p`, rotate right by
/// the same amount, then mask with `n ^ p`.
pub open spec fn xor_decrypt_byte(n: u8, p: u8, c: u8) -> u8 {
    rotr8(wsub8(wsub8(c, n), p), n ^ (p % 8)) ^ (n ^ p)
}

/// The keyed XOR pass over a buffer: byte `i` is keyed by the nonce byte and
/// the key byte at `i` modulo their lengths.
pub open spec fn spec_xor_encrypt(nonce: Seq<u8>, key: Seq<u8>, input: Seq<u8>) -> Seq<u8> {
    Seq::new(
        input.len(),
        |i: int|
            xor_encrypt_byte(
                nonce[i % (nonce.len() as int)],
                key[i % (key.len() as int)],
                input[i],
            ),
    )
}

/// The inverse pass over a buffer.
pub open spec fn spec_xor_decrypt(nonce: Seq<u8>, key: Seq<u8>, input: Seq<u8>) -> Seq<u8> {
    Seq::new(
        input.len(),
        |i: int|
            xor_decrypt_byte(
                nonce[i % (nonce.len() as int)],
                key[i % (key.len() as int)],
                input[i],
            ),
    )
}

/// The two byte transforms undo each other, in both orders, for every nonce
/// byte and key byte.
pub proof fn lemma_xor_byte_round_trip(n: u8, p: u8, b: u8)
    ensures
        xor_decrypt_byte(n, p, xor_encrypt_byte(n, p, b)) == b,
        xor_encrypt_byte(n, p, xor_decrypt_byte(n, p, b)) == b,
{
    let k = n ^ (p % 8);
    let m = n ^ p;
    let rotated = rotl8(b ^ m, k);
    lemma_add_then_sub(wadd8(rotated, p), n);
    lemma_add_then_sub(rotated, p);
    lemma_rotate_left_then_right(b ^ m, k);
    lemma_xor_twice(b, m);
    let unrotated = rotr8(wsub8(wsub8(b, n), p), k);
    lemma_xor_twice(unrotated, m);
    lemma_rotate_right_then_left(wsub8(wsub8(b, n), p), k);
    lemma_add_then_sub(wsub8(b, n), p);
    lemma_add_then_sub(b, n);
}

/// Decrypting what the pass encrypted, under the same nonce and key, gives
/// the buffer back; so does encrypting what it decrypted.
pub proof fn lemma_xor_round_trip(nonce: Seq<u8>, key: Seq<u8>, input: Seq<u8>)
    ensures
        spec_xor_decrypt(nonce, key, spec_xor_encrypt(nonce, key, input)) == input,
        spec_xor_encrypt(nonce, key, spec_xor_decrypt(nonce, key, input)) == input,
{
    assert forall|i: int| 0 <= i < input.len() implies #[trigger] spec_xor_decrypt(
        nonce,
        key,
        spec_xor_encrypt(nonce, key, input),
    )[i] == input[i] && spec_xor_encrypt(nonce, key, spec_xor_decrypt(nonce, key, input))[i]
        == input[i] by {
        lemma_xor_byte_round_trip(
            nonce[i % (nonce.len() as int)],
            key[i % (key.len() as int)],
            input[i],
        );
    }
    assert(spec_xor_decrypt(nonce, key, spec_xor_encrypt(nonce, key, input)) =~= input);
    assert(spec_xor_encrypt(nonce, key, spec_xor_decrypt(nonce, key, input)) =~= input);
}

/// The encrypted byte for position `i` of a buffer.
pub fn xor_encrypt_at(nonce: &[u8], pwd: &[u8], i: usize, b: u8) -> (r: u8)
    requires
        nonce@.len() > 0,
        pwd@.len() > 0,
    ensures
        r == xor_encrypt_byte(
            nonce@[(i as int) % (nonce@.len() as int)],
            pwd@[(i as int) % (pwd@.len() as int)],
            b,
        ),
{
    let n = nonce[i % nonce.len()];
    let p = pwd[i % pwd.len()];
    let masked = b ^ (n ^ p);
    let rotated = rotate_left8(masked, n ^ (p % 8));
    wrapping_add8(wrapping_add8(rotated, p), n)
}

/// The decrypted byte for position `i` of a buffer.
pub fn xor_decrypt_at(nonce: &[u8], pwd: &[u8], i: usize, b: u8) -> (r: u8)
    requires
        nonce@.len() > 0,
        pwd@.len() > 0,
    ensures
        r == xor_decrypt_byte(
            nonce@[(i as int) % (nonce@.len() as int)],
            pwd@[(i as int) % (pwd@.len() as int)],
            b,
        ),
{
    let n = nonce[i % nonce.len()];
    let p = pwd[i % pwd.len()];
    let lowered = wrapping_sub8(wrapping_sub8(b, n), p);
    let rotated = rotate_right8(lowered, n ^ (p % 8));
    rotated ^ (n ^ p)
}

/// The keyed XOR pass over `input` on the workers of `pool`.
pub fn xor_encrypt_in(
    pool: &rayon::ThreadPool,
    nonce: &[u8],
    pwd: &[u8],
    input: &[u8],
) -> (r: Vec<u8>)
    requires
        input@.len() > 0 ==> nonce@.len() > 0 && pwd@.len() > 0,
    ensures
        r@ == spec_xor_encrypt(nonce@, pwd@, input@),
{
    let f = |i: usize, b: u8| -> (x: u8)
        requires
            nonce@.len() > 0 && pwd@.len() > 0,
        ensures
            x == xor_encrypt_byte(
                nonce@[(i as int) % (nonce@.len() as int)],
                pwd@[(i as int) % (pwd@.len() as int)],
                b,
            ),
        { xor_encrypt_at(nonce, pwd, i, b) };
    let count = input.len();
    let out = pool_map(pool, input, f);
    assert forall|i: int| 0 <= i < input@.len() implies #[trigger] out@[i] == spec_xor_encrypt(
        nonce@,
        pwd@,
        input@,
    )[i] by {
        assert(i < count);
        assert(call_ensures(f, (i as usize, input@[i]), out@[i]));
    }
    assert(out@ =~= spec_xor_encrypt(nonce@, pwd@, input@));
    out
}

/// The inverse pass over `input` on the workers of `pool`.
pub fn xor_decrypt_in(
    pool: &rayon::ThreadPool,
    nonce: &[u8],
    pwd: &[u8],
    input: &[u8],
) -> (r: Vec<u8>)
    requires
        input@.len() > 0 ==> nonce@.len() > 0 && pwd@.len() > 0,
    ensures
        r@ == spec_xor_decrypt(nonce@, pwd@, input@),
{
    let f = |i: usize, b: u8| -> (x: u8)
        requires
            nonce@.len() > 0 && pwd@.len() > 0,
        ensures
            x == xor_decrypt_byte(
                nonce@[(i as int) % (nonce@.len() as int)],
                pwd@[(i as int) % (pwd@.len() as int)],
                b,
            ),
        { xor_decrypt_at(nonce, pwd, i, b) };
    let count = input.len();
    let out = pool_map(pool, input, f);
    assert forall|i: int| 0 <= i < input@.len() implies #[trigger] out@[i] == spec_xor_decrypt(
        nonce@,
        pwd@,
        input@,
    )[i] by {
        assert(i < count);
        assert(call_ensures(f, (i as usize, input@[i]), out@[i]));
    }
    assert(out@ =~= spec_xor_decrypt(nonce@, pwd@, input@));
    out
}

/// The keyed XOR pass over `input`, on rayon's current pool. An empty input
/// is refused with `InvalidXor`; every other input is encrypted.
pub fn xor_encrypt(nonce: &[u8], pwd: &[u8], input: &[u8]) -> (r: Result<Vec<u8>, Errors>)
    requires
        input@.len() > 0 ==> nonce@.len() > 0 && pwd@.len() > 0,
    ensures
        r is Err <==> input@.len() == 0,
        r matches Ok(v) ==> v@ == spec_xor_encrypt(nonce@, pwd@, input@),
        r matches Err(e) ==> e matches Errors::InvalidXor(m) && m@ == "Empty vector"@,
{
    let f = |i: usize, b: u8| -> (x: u8)
        requires
            nonce@.len() > 0 && pwd@.len() > 0,
        ensures
            x == xor_encrypt_byte(
                nonce@[(i as int) % (nonce@.len() as int)],
                pwd@[(i as int) % (pwd@.len() as int)],
                b,
            ),
        { xor_encrypt_at(nonce, pwd, i, b) };
    let count = input.len();
    let out = par_map_indexed(input, f);
    assert forall|i: int| 0 <= i < input@.len() implies #[trigger] out@[i] == spec_xor_encrypt(
        nonce@,
        pwd@,
        input@,
    )[i] by {
        assert(i < count);
        assert(call_ensures(f, (i as usize, input@[i]), out@[i]));
    }
    assert(out@ =~= spec_xor_encrypt(nonce@, pwd@, input@));
    if out.is_empty() {
        Err(Errors::InvalidXor("Empty vector".to_owned()))
    } else {
        Ok(out)
    }
}

/// The inverse pass over `input`, on rayon's current pool. An empty input is
/// refused with `InvalidXor`; every other input is decrypted.
pub fn xor_decrypt(nonce: &[u8], pwd: &[u8], input: &[u8]) -> (r: Result<Vec<u8>, Errors>)
    requires
        input@.len() > 0 ==> nonce@.len() > 0 && pwd@.len() > 0,
    ensures
        r is Err <==> input@.len() == 0,
        r matches Ok(v) ==> v@ == spec_xor_decrypt(nonce@, pwd@, input@),
        r matches Err(e) ==> e matches Errors::InvalidXor(m) && m@ == "Empty vector"@,
{
    let f = |i: usize, b: u8| -> (x: u8)
        requires
            nonce@.len() > 0 && pwd@.len() > 0,
        ensures
            x == xor_decrypt_byte(
                nonce@[(i as int) % (nonce@.len() as int)],
                pwd@[(i as int) % (pwd@.len() as int)],
                b,
            ),
        { xor_decrypt_at(nonce, pwd, i, b) };
    let count = input.len();
    let out = par_map_indexed(input, f);
    assert forall|i: int| 0 <= i < input@.len() implies #[trigger] out@[i] == spec_xor_decrypt(
        nonce@,
        pwd@,
        input@,
    )[i] by {
        assert(i < count);
        assert(call_ensures(f, (i as usize, input@[i]), out@[i]));
    }
    assert(out@ =~= spec_xor_decrypt(nonce@, pwd@, input@));
    if out.is_empty() {
        Err(Errors::InvalidXor("Empty vector".to_owned()))
    } else {
        Ok(out)
    }
}

} // verus!
