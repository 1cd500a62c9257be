//! The byte mixing pass and its inverse.

use crate::byteops::lemma_add_then_sub;
use crate::byteops::lemma_rotate_left_then_right;
use crate::byteops::lemma_rotate_right_then_left;
use crate::byteops::lemma_xor_twice;
use crate::byteops::rotate_left8;
use crate::byteops::rotate_right8;
use crate::byteops::rotl8;
use crate::byteops::rotr8;
use crate::byteops::wadd8;
use crate::byteops::wrapping_add8;
use crate::byteops::wrapping_sub8;
use crate::byteops::wsub8;
use crate::config::Config;
use crate::digest::blake3_digest;
use crate::digest::blake3_hash;
use crate::errors::Errors;
use crate::parallel::concat_bytes;
use crate::parallel::make_pool;
use crate::parallel::pool_map;
use crate::secrets::ct_eq_usize;
use vstd::prelude::*;
use vstd::slice::slice_to_vec;

verus! {

/// One byte of the mixing pass under the key byte `t`: add `t`, rotate right
/// by `t mod 8`, mask with `t`, add `t` again.
pub open spec fn mix_byte(t: u8, b: u8) -> u8 {
    wadd8(rotr8(wadd8(b, t), t % 8) ^ t, t)
}

/// The inverse of [`mix_byte`]: subtract `t`, mask with `t`, rotate left by
/// `t mod 8`, subtract `t` again.
pub open spec fn unmix_byte(t: u8, c: u8) -> u8 {
    wsub8(rotl8(wsub8(c, t) ^ t, t % 8), t)
}

/// The 32 key bytes of the mixing pass: the hash of the nonce followed by the key.
pub open spec fn mix_key(nonce: Seq<u8>, key: Seq<u8>) -> Seq<u8> {
    blake3_digest(nonce + key)@
}

/// The mixing pass over a buffer. A buffer of exactly three bytes is left as
/// it is; in any other, byte `i` is mixed under key byte `i mod 32`.
pub open spec fn spec_mix_blocks(data: Seq<u8>, nonce: Seq<u8>, key: Seq<u8>) -> Seq<u8> {
    if data.len() == 3 {
        data
    } else {
        Seq::new(data.len(), |i: int| mix_byte(mix_key(nonce, key)[i % 32], data[i]))
    }
}

/// The inverse pass over a buffer, with the same exception for three bytes.
pub open spec fn spec_unmix_blocks(data: Seq<u8>, nonce: Seq<u8>, key: Seq<u8>) -> Seq<u8> {
    if data.len() == 3 {
        data
    } else {
        Seq::new(data.len(), |i: int| unmix_byte(mix_key(nonce, key)[i % 32], data[i]))
    }
}

/// The two byte transforms undo each other, in both orders, for every key byte.
pub proof fn lemma_mix_byte_round_trip(t: u8, b: u8)
    ensures
        unmix_byte(t, mix_byte(t, b)) == b,
        mix_byte(t, unmix_byte(t, b)) == b,
{
    let k = t % 8;
    let turned = rotr8(wadd8(b, t), k);
    lemma_add_then_sub(turned ^ t, t);
    lemma_xor_twice(turned, t);
    lemma_rotate_right_then_left(wadd8(b, t), k);
    lemma_add_then_sub(b, t);
    let back = rotl8(wsub8(b, t) ^ t, k);
    lemma_add_then_sub(back, t);
    lemma_rotate_left_then_right(wsub8(b, t) ^ t, k);
    lemma_xor_twice(wsub8(b, t), t);
}

/// Unmixing what the pass mixed, under the same nonce and key, gives the
/// buffer back; so does mixing what it unmixed.
pub proof fn lemma_mix_round_trip(data: Seq<u8>, nonce: Seq<u8>, key: Seq<u8>)
    ensures
        spec_unmix_blocks(spec_mix_blocks(data, nonce, key), nonce, key) == data,
        spec_mix_blocks(spec_unmix_blocks(data, nonce, key), nonce, key) == data,
{
    assert forall|i: int| 0 <= i < data.len() implies #[trigger] spec_unmix_blocks(
        spec_mix_blocks(data, nonce, key),
        nonce,
        key,
    )[i] == data[i] && spec_mix_blocks(spec_unmix_blocks(data, nonce, key), nonce, key)[i]
        == data[i] by {
        lemma_mix_byte_round_trip(mix_key(nonce, key)[i % 32], data[i]);
    }
    assert(spec_unmix_blocks(spec_mix_blocks(data, nonce, key), nonce, key) =~= data);
    assert(spec_mix_blocks(spec_unmix_blocks(data, nonce, key), nonce, key) =~= data);
}

/// The mixed byte for position `i` under the 32 key bytes `table`.
pub fn mix_at(table: &[u8; 32], i: usize, b: u8) -> (r: u8)
    ensures
        r == mix_byte(table@[(i as int) % 32], b),
{
    let n = table[i % 32];
    let mut byte = wrapping_add8(b, n);
    byte = rotate_right8(byte, n % 8);
    byte = byte ^ n;
    wrapping_add8(byte, n)
}

/// The unmixed byte for position `i` under the 32 key bytes `table`.
pub fn unmix_at(table: &[u8; 32], i: usize, b: u8) -> (r: u8)
    ensures
        r == unmix_byte(table@[(i as int) % 32], b),
{
    let n = table[i % 32];
    let mut byte = wrapping_sub8(b, n);
    byte = byte ^ n;
    byte = rotate_left8(byte, n % 8);
    wrapping_sub8(byte, n)
}

/// The mixing pass over `data` on the workers of `pool`.
pub fn mix_blocks_in(
    pool: &rayon::ThreadPool,
    data: &[u8],
    nonce: &[u8],
    pwd: &[u8],
) -> (r: Vec<u8>)
    ensures
        r@ == spec_mix_blocks(data@, nonce@, pwd@),
{
    let joined = concat_bytes(nonce, pwd);
    let table = blake3_hash(joined.as_slice());
    let count = data.len();
    if ct_eq_usize(count, 3) {
        let kept = slice_to_vec(data);
        return kept;
    }
    let f = |i: usize, b: u8| -> (x: u8)
        ensures
            x == mix_byte(table@[(i as int) % 32], b),
        { mix_at(&table, i, b) };
    let out = pool_map(pool, data, f);
    assert forall|i: int| 0 <= i < data@.len() implies #[trigger] out@[i] == spec_mix_blocks(
        data@,
        nonce@,
        pwd@,
    )[i] by {
        assert(i < count);
        assert(call_ensures(f, (i as usize, data@[i]), out@[i]));
    }
    assert(out@ =~= spec_mix_blocks(data@, nonce@, pwd@));
    out
}

/// The inverse pass over `data` on the workers of `pool`.
pub fn unmix_blocks_in(
    pool: &rayon::ThreadPool,
    data: &[u8],
    nonce: &[u8],
    pwd: &[u8],
) -> (r: Vec<u8>)
    ensures
        r@ == spec_unmix_blocks(data@, nonce@, pwd@),
{
    let joined = concat_bytes(nonce, pwd);
    let table = blake3_hash(joined.as_slice());
    let count = data.len();
    if ct_eq_usize(count, 3) {
        let kept = slice_to_vec(data);
        return kept;
    }
    let f = |i: usize, b: u8| -> (x: u8)
        ensures
            x == unmix_byte(table@[(i as int) % 32], b),
        { unmix_at(&table, i, b) };
    let out = pool_map(pool, data, f);
    assert forall|i: int| 0 <= i < data@.len() implies #[trigger] out@[i] == spec_unmix_blocks(
        data@,
        nonce@,
        pwd@,
    )[i] by {
        assert(i < count);
        assert(call_ensures(f, (i as usize, data@[i]), out@[i]));
    }
    assert(out@ =~= spec_unmix_blocks(data@, nonce@, pwd@));
    out
}

/// The mixing pass over `data` on a pool of `config.thread_num` workers. It
/// fails only where the pool cannot be built.
pub fn mix_blocks(
    data: &[u8],
    nonce: &[u8],
    pwd: &[u8],
    config: Config,
) -> (r: Result<Vec<u8>, Errors>)
    ensures
        r matches Ok(v) ==> v@ == spec_mix_blocks(data@, nonce@, pwd@),
        r matches Err(e) ==> e is ThreadPool,
{
    match make_pool(config.thread_num) {
        Ok(pool) => Ok(mix_blocks_in(&pool, data, nonce, pwd)),
        Err(e) => Err(e),
    }
}

/// The inverse pass over `data` on a pool of `config.thread_num` workers. It
/// fails only where the pool cannot be built.
pub fn unmix_blocks(
    data: &[u8],
    nonce: &[u8],
    pwd: &[u8],
    config: Config,
) -> (r: Result<Vec<u8>, Errors>)
    ensures
        r matches Ok(v) ==> v@ == spec_unmix_blocks(data@, nonce@, pwd@),
        r matches Err(e) ==> e is ThreadPool,
{
    match make_pool(config.thread_num) {
        Ok(pool) => Ok(unmix_blocks_in(&pool, data, nonce, pwd)),
        Err(e) => Err(e),
    }
}

} // verus!
