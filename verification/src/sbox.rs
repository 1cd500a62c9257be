//! The substitution box: a seeded shuffle of the bytes, its inverse table, and the
//! substitution of a buffer through either.

use crate::config::Config;
use crate::config::SboxTypes;
use crate::digest::blake3_digest;
use crate::digest::blake3_hash;
use crate::errors::Errors;
use crate::parallel::concat_bytes;
use crate::parallel::make_pool;
use crate::parallel::pool_map;
use crate::secrets::wipe_array;
use vstd::prelude::*;

verus! {

/// The 32 bytes that drive the shuffle: the hash of the key, of the nonce, or
/// of the nonce followed by the key.
pub open spec fn sbox_seed(nonce: Seq<u8>, key: Seq<u8>, kind: SboxTypes) -> Seq<u8> {
    match kind {
        SboxTypes::PasswordBased => blake3_digest(key)@,
        SboxTypes::NonceBased => blake3_digest(nonce)@,
        SboxTypes::PasswordAndNonceBased => blake3_digest(nonce + key)@,
    }
}

/// The box that maps every byte to itself.
pub open spec fn identity_box() -> Seq<u8> {
    Seq::new(256, |i: int| i as u8)
}

/// The partner that position `i` is swapped with: the sum of two seed bytes,
/// modulo `i + 1`.
pub open spec fn swap_partner(seed: Seq<u8>, i: int) -> int {
    (seed[i % 32] + seed[(i * 7) % 32]) % (i + 1)
}

/// The sequence `s` with the entries at `i` and `j` exchanged.
pub open spec fn swapped(s: Seq<u8>, i: int, j: int) -> Seq<u8> {
    s.update(i, s[j]).update(j, s[i])
}

/// The box after the swaps for the positions 255, 254, ... down to `next`.
pub open spec fn shuffled(seed: Seq<u8>, next: int) -> Seq<u8>
    decreases 256 - next,
{
    if next >= 256 {
        identity_box()
    } else {
        swapped(shuffled(seed, next + 1), next, swap_partner(seed, next))
    }
}

/// The substitution box of a seed: the identity, shuffled by the swaps for
/// the positions 255 down to 1.
pub open spec fn spec_sbox(seed: Seq<u8>) -> Seq<u8> {
    shuffled(seed, 1)
}

/// A box of 256 entries in which no byte occurs twice.
pub open spec fn is_permutation(s: Seq<u8>) -> bool {
    &&& s.len() == 256
    &&& forall|i: int, j: int| 0 <= i < j < 256 ==> s[i] != s[j]
}

/// The table that the inversion loop leaves after reading the first `n`
/// entries of `s`: entry `s[i]` holds `i`, later positions overwriting earlier ones.
pub open spec fn inverted_upto(s: Seq<u8>, n: int) -> Seq<u8>
    decreases n,
{
    if n <= 0 {
        Seq::new(256, |i: int| 0u8)
    } else {
        inverted_upto(s, n - 1).update(s[n - 1] as int, (n - 1) as u8)
    }
}

/// The inverse table of a box: entry `s[i]` holds `i`.
pub open spec fn spec_inverse_box(s: Seq<u8>) -> Seq<u8> {
    inverted_upto(s, 256)
}

/// Every byte of `data` replaced by the entry of `table` at that byte.
pub open spec fn spec_substitute(data: Seq<u8>, table: Seq<u8>) -> Seq<u8> {
    Seq::new(data.len(), |i: int| table[data[i] as int])
}

/// Every swap keeps the box a permutation.
proof fn lemma_shuffled_is_permutation(seed: Seq<u8>, next: int)
    requires
        1 <= next <= 256,
    ensures
        is_permutation(shuffled(seed, next)),
    decreases 256 - next,
{
    if next < 256 {
        lemma_shuffled_is_permutation(seed, next + 1);
        let prev = shuffled(seed, next + 1);
        let j = swap_partner(seed, next);
        assert(0 <= j <= next);
        let cur = swapped(prev, next, j);
        assert forall|a: int, b: int| 0 <= a < b < 256 implies cur[a] != cur[b] by {
            let pa = if a == next {
                j
            } else if a == j {
                next
            } else {
                a
            };
            let pb = if b == next {
                j
            } else if b == j {
                next
            } else {
                b
            };
            assert(cur[a] == prev[pa]);
            assert(cur[b] == prev[pb]);
            assert(pa != pb);
            if pa < pb {
                assert(prev[pa] != prev[pb]);
            } else {
                assert(prev[pb] != prev[pa]);
            }
        }
    }
}

/// Whatever the seed, the substitution box is a permutation of the bytes.
pub proof fn lemma_sbox_is_permutation(seed: Seq<u8>)
    ensures
        is_permutation(spec_sbox(seed)),
{
    lemma_shuffled_is_permutation(seed, 1);
}

/// After reading `n` entries of a permutation, the table leads each of them
/// back to its position.
proof fn lemma_inverted_upto(s: Seq<u8>, n: int, i: int)
    requires
        is_permutation(s),
        0 <= i < n <= 256,
    ensures
        inverted_upto(s, n).len() == 256,
        inverted_upto(s, n)[s[i] as int] == i,
    decreases n,
{
    lemma_inverted_len(s, n - 1);
    if i < n - 1 {
        lemma_inverted_upto(s, n - 1, i);
        assert(s[i] != s[n - 1]);
    }
}

/// The inverse table has 256 entries at every step.
proof fn lemma_inverted_len(s: Seq<u8>, n: int)
    ensures
        inverted_upto(s, n).len() == 256,
    decreases n,
{
    if n > 0 {
        lemma_inverted_len(s, n - 1);
    }
}

/// The inverse table of a permutation leads every entry back to its position.
pub proof fn lemma_inverse_box(s: Seq<u8>, i: int)
    requires
        is_permutation(s),
        0 <= i < 256,
    ensures
        spec_inverse_box(s).len() == 256,
        spec_inverse_box(s)[s[i] as int] == i,
{
    lemma_inverted_upto(s, 256, i);
}

/// Substituting through a permutation and then through its inverse table
/// gives the buffer back.
pub proof fn lemma_substitute_round_trip(data: Seq<u8>, s: Seq<u8>)
    requires
        is_permutation(s),
    ensures
        spec_substitute(spec_substitute(data, s), spec_inverse_box(s)) == data,
{
    assert forall|i: int| 0 <= i < data.len() implies #[trigger] spec_substitute(
        spec_substitute(data, s),
        spec_inverse_box(s),
    )[i] == data[i] by {
        lemma_inverse_box(s, data[i] as int);
    }
    assert(spec_substitute(spec_substitute(data, s), spec_inverse_box(s)) =~= data);
}

/// A position at which the box after the swaps down to `next` holds `v`.
proof fn lemma_shuffled_covers(seed: Seq<u8>, next: int, v: u8) -> (i: int)
    requires
        1 <= next <= 256,
    ensures
        0 <= i < 256,
        shuffled(seed, next)[i] == v,
    decreases 256 - next,
{
    if next >= 256 {
        v as int
    } else {
        let before = lemma_shuffled_covers(seed, next + 1, v);
        let j = swap_partner(seed, next);
        assert(0 <= j <= next);
        lemma_shuffled_is_permutation(seed, next + 1);
        if before == j {
            next
        } else if before == next {
            j
        } else {
            before
        }
    }
}

/// Every byte occurs in the substitution box, and the box leads the entry
/// of its inverse table for a byte back to that byte.
pub proof fn lemma_sbox_covers(seed: Seq<u8>, v: u8)
    ensures
        spec_sbox(seed)[spec_inverse_box(spec_sbox(seed))[v as int] as int] == v,
{
    let i = lemma_shuffled_covers(seed, 1, v);
    lemma_sbox_is_permutation(seed);
    lemma_inverse_box(spec_sbox(seed), i);
}

/// Substituting through the inverse table of a substitution box and then
/// through the box gives the buffer back: with [`lemma_substitute_round_trip`],
/// the two substitutions are inverse bijections.
pub proof fn lemma_substitute_back_round_trip(data: Seq<u8>, seed: Seq<u8>)
    ensures
        spec_substitute(
            spec_substitute(data, spec_inverse_box(spec_sbox(seed))),
            spec_sbox(seed),
        ) == data,
{
    let sbox = spec_sbox(seed);
    assert forall|i: int| 0 <= i < data.len() implies #[trigger] spec_substitute(
        spec_substitute(data, spec_inverse_box(sbox)),
        sbox,
    )[i] == data[i] by {
        lemma_sbox_covers(seed, data[i]);
    }
    assert(spec_substitute(spec_substitute(data, spec_inverse_box(sbox)), sbox) =~= data);
}

/// The inverse table of `s_box`: entry `s_box[i]` holds `i`.
pub fn generate_inv_s_box(s_box: &[u8; 256]) -> (r: [u8; 256])
    ensures
        r@ == spec_inverse_box(s_box@),
{
    let mut inv_s_box: [u8; 256] = [0u8;256];
    assert(inv_s_box@ =~= inverted_upto(s_box@, 0));
    let mut i: usize = 0;
    while i < 256
        invariant
            i <= 256,
            inv_s_box@ == inverted_upto(s_box@, i as int),
        decreases 256 - i,
    {
        let val = s_box[i];
        inv_s_box[val as usize] = i as u8;
        i += 1;
    }
    inv_s_box
}

/// The substitution box for a nonce, a key and the seeding that `cfg` asks for.
pub fn generate_dynamic_sbox(nonce: &[u8], key: &[u8], cfg: Config) -> (r: [u8; 256])
    ensures
        r@ == spec_sbox(sbox_seed(nonce@, key@, cfg.sbox)),
        is_permutation(r@),
{
    let mut sbox: [u8; 256] = [0u8;256];
    let mut n: usize = 0;
    while n < 256
        invariant
            n <= 256,
            forall|k: int| 0 <= k < n ==> sbox@[k] == k as u8,
        decreases 256 - n,
    {
        sbox[n] = n as u8;
        n += 1;
    }
    assert(sbox@ =~= identity_box());
    let seed: [u8; 32] = match cfg.sbox {
        SboxTypes::PasswordBased => blake3_hash(key),
        SboxTypes::NonceBased => blake3_hash(nonce),
        SboxTypes::PasswordAndNonceBased => {
            let joined = concat_bytes(nonce, key);
            blake3_hash(joined.as_slice())
        },
    };
    assert(seed@ == sbox_seed(nonce@, key@, cfg.sbox));
    let mut i: usize = 255;
    while i >= 1
        invariant
            i <= 255,
            sbox@ == shuffled(seed@, i + 1),
        decreases i,
    {
        let index = (seed[i % 32] as usize + seed[(i * 7) % 32] as usize) % (i + 1);
        assert(index == swap_partner(seed@, i as int));
        let held = sbox[i];
        sbox[i] = sbox[index];
        sbox[index] = held;
        i -= 1;
    }
    proof {
        lemma_sbox_is_permutation(seed@);
    }
    sbox
}

/// `data` substituted through `table` on the workers of `pool`.
pub fn substitute_in(pool: &rayon::ThreadPool, data: &[u8], table: &[u8; 256]) -> (r: Vec<u8>)
    ensures
        r@ == spec_substitute(data@, table@),
{
    let count = data.len();
    let f = |i: usize, b: u8| -> (x: u8)
        ensures
            x == table@[b as int],
        { table[b as usize] };
    let out = pool_map(pool, data, f);
    assert forall|i: int| 0 <= i < data@.len() implies #[trigger] out@[i] == spec_substitute(
        data@,
        table@,
    )[i] by {
        assert(i < count);
        assert(call_ensures(f, (i as usize, data@[i]), out@[i]));
    }
    assert(out@ =~= spec_substitute(data@, table@));
    out
}

/// `data` substituted through `sbox` on a pool of `cfg.thread_num` workers.
/// It fails only where the pool cannot be built.
pub fn s_bytes(data: &[u8], sbox: &[u8; 256], cfg: Config) -> (r: Result<Vec<u8>, Errors>)
    ensures
        r matches Ok(v) ==> v@ == spec_substitute(data@, sbox@),
        r matches Err(e) ==> e is ThreadPool,
{
    match make_pool(cfg.thread_num) {
        Ok(pool) => Ok(substitute_in(&pool, data, sbox)),
        Err(e) => Err(e),
    }
}

/// `data` substituted through the inverse of the box that the nonce, the key
/// and `cfg` give, on the workers of `pool`.
pub fn in_s_bytes_in(
    pool: &rayon::ThreadPool,
    data: &[u8],
    nonce: &[u8],
    pwd: &[u8],
    cfg: Config,
) -> (r: Vec<u8>)
    ensures
        r@ == spec_substitute(
            data@,
            spec_inverse_box(spec_sbox(sbox_seed(nonce@, pwd@, cfg.sbox))),
        ),
{
    let mut sbox = generate_dynamic_sbox(nonce, pwd, cfg);
    let mut inv_sbox = generate_inv_s_box(&sbox);
    wipe_array(&mut sbox);
    let out = substitute_in(pool, data, &inv_sbox);
    wipe_array(&mut inv_sbox);
    out
}

/// `data` substituted through the inverse of the box that the nonce, the key
/// and `cfg` give, on a pool of `cfg.thread_num` workers. It fails only where
/// the pool cannot be built.
pub fn in_s_bytes(
    data: &[u8],
    nonce: &[u8],
    pwd: &[u8],
    cfg: Config,
) -> (r: Result<Vec<u8>, Errors>)
    ensures
        r matches Ok(v) ==> v@ == spec_substitute(
            data@,
            spec_inverse_box(spec_sbox(sbox_seed(nonce@, pwd@, cfg.sbox))),
        ),
        r matches Err(e) ==> e is ThreadPool,
{
    match make_pool(cfg.thread_num) {
        Ok(pool) => Ok(in_s_bytes_in(&pool, data, nonce, pwd, cfg)),
        Err(e) => Err(e),
    }
}

} // verus!
