//! The keyed XOR rounds and their inverses.

use crate::digest::blake3_digest;
use crate::digest::blake3_hash;
use crate::parallel::pool_map;
use crate::shift::SIZE_CEILING;
use crate::shift::dynamic_sizes;
use crate::shift::spec_dynamic_sizes;
use crate::xor::lemma_xor_byte_round_trip;
use crate::xor::spec_xor_encrypt;
use crate::xor::xor_decrypt_at;
use crate::xor::xor_decrypt_byte;
use crate::xor::xor_encrypt_at;
use crate::xor::xor_encrypt_byte;
use vstd::prelude::*;
use vstd::slice::slice_subrange;
use vstd::slice::slice_to_vec;

verus! {

/// How many leading bytes of the password key round `i` hashes: eight a
/// round, and no more than the key holds.
pub open spec fn round_key_span(key_len: int, i: int) -> int {
    if i * 8 < key_len {
        i * 8
    } else {
        key_len
    }
}

/// The key of round `i`: the hash of the leading bytes of the password key
/// that the round spans. Round zero hashes the empty string.
pub open spec fn round_key(k_pw: Seq<u8>, i: int) -> Seq<u8> {
    blake3_digest(k_pw.subrange(0, round_key_span(k_pw.len() as int, i)))@
}

/// One XOR round over a buffer: the buffer is cut into chunks of the base
/// chunk size of its length, and every chunk goes through the keyed XOR pass
/// on its own, so that byte `q` is keyed by its offset `q mod size` in its chunk.
pub open spec fn spec_round(nonce: Seq<u8>, key: Seq<u8>, buf: Seq<u8>) -> Seq<u8> {
    Seq::new(
        buf.len(),
        |q: int|
            {
                let at = q % spec_dynamic_sizes(buf.len() as int);
                xor_encrypt_byte(
                    nonce[at % (nonce.len() as int)],
                    key[at % (key.len() as int)],
                    buf[q],
                )
            },
    )
}

/// The inverse of one XOR round.
pub open spec fn spec_unround(nonce: Seq<u8>, key: Seq<u8>, buf: Seq<u8>) -> Seq<u8> {
    Seq::new(
        buf.len(),
        |q: int|
            {
                let at = q % spec_dynamic_sizes(buf.len() as int);
                xor_decrypt_byte(
                    nonce[at % (nonce.len() as int)],
                    key[at % (key.len() as int)],
                    buf[q],
                )
            },
    )
}

/// The buffer after the rounds `0, 1, ..., count - 1`, each under its round key.
pub open spec fn spec_rounds(nonce: Seq<u8>, k_pw: Seq<u8>, buf: Seq<u8>, count: nat) -> Seq<u8>
    decreases count,
{
    if count == 0 {
        buf
    } else {
        spec_round(
            nonce,
            round_key(k_pw, count - 1),
            spec_rounds(nonce, k_pw, buf, (count - 1) as nat),
        )
    }
}

/// The buffer after the inverse rounds `count - 1, ..., 1, 0`.
pub open spec fn spec_unrounds(nonce: Seq<u8>, k_pw: Seq<u8>, buf: Seq<u8>, count: nat) -> Seq<u8>
    decreases count,
{
    if count == 0 {
        buf
    } else {
        spec_unrounds(
            nonce,
            k_pw,
            spec_unround(nonce, round_key(k_pw, count - 1), buf),
            (count - 1) as nat,
        )
    }
}

/// Within one chunk a round is the keyed XOR pass over that chunk: the bytes
/// of the round's output from `start`, a multiple of the chunk size, up to
/// `end`, at most one chunk further, are the pass applied to the same bytes
/// of the input.
pub proof fn lemma_round_by_chunks(nonce: Seq<u8>, key: Seq<u8>, buf: Seq<u8>, start: int, end: int)
    requires
        0 <= start <= end <= buf.len(),
        start % spec_dynamic_sizes(buf.len() as int) == 0,
        end - start <= spec_dynamic_sizes(buf.len() as int),
    ensures
        spec_round(nonce, key, buf).subrange(start, end) == spec_xor_encrypt(
            nonce,
            key,
            buf.subrange(start, end),
        ),
{
    let size = spec_dynamic_sizes(buf.len() as int);
    let left = spec_round(nonce, key, buf).subrange(start, end);
    let right = spec_xor_encrypt(nonce, key, buf.subrange(start, end));
    assert forall|j: int| 0 <= j < end - start implies #[trigger] left[j] == right[j] by {
        assert((start + j) % size == j) by (nonlinear_arith)
            requires
                start % size == 0,
                0 <= j < size,
                size > 0,
                start >= 0,
        ;
    }
    assert(left =~= right);
}

/// One round keeps the length of the buffer.
pub proof fn lemma_rounds_len(nonce: Seq<u8>, k_pw: Seq<u8>, buf: Seq<u8>, count: nat)
    ensures
        spec_rounds(nonce, k_pw, buf, count).len() == buf.len(),
        spec_unrounds(nonce, k_pw, buf, count).len() == buf.len(),
    decreases count,
{
    if count > 0 {
        lemma_rounds_len(nonce, k_pw, buf, (count - 1) as nat);
        lemma_rounds_len(
            nonce,
            k_pw,
            spec_unround(nonce, round_key(k_pw, count - 1), buf),
            (count - 1) as nat,
        );
    }
}

/// The inverse of a round undoes the round.
pub proof fn lemma_round_round_trip(nonce: Seq<u8>, key: Seq<u8>, buf: Seq<u8>)
    ensures
        spec_unround(nonce, key, spec_round(nonce, key, buf)) == buf,
{
    let there = spec_round(nonce, key, buf);
    assert forall|q: int| 0 <= q < buf.len() implies #[trigger] spec_unround(nonce, key, there)[q]
        == buf[q] by {
        let at = q % spec_dynamic_sizes(buf.len() as int);
        lemma_xor_byte_round_trip(
            nonce[at % (nonce.len() as int)],
            key[at % (key.len() as int)],
            buf[q],
        );
    }
    assert(spec_unround(nonce, key, there) =~= buf);
}

/// Undoing `count` rounds after doing them gives the buffer back.
pub proof fn lemma_rounds_round_trip(nonce: Seq<u8>, k_pw: Seq<u8>, buf: Seq<u8>, count: nat)
    ensures
        spec_unrounds(nonce, k_pw, spec_rounds(nonce, k_pw, buf, count), count) == buf,
    decreases count,
{
    if count > 0 {
        let before = spec_rounds(nonce, k_pw, buf, (count - 1) as nat);
        lemma_round_round_trip(nonce, round_key(k_pw, count - 1), before);
        lemma_rounds_round_trip(nonce, k_pw, buf, (count - 1) as nat);
    }
}

/// A round undoes its inverse.
pub proof fn lemma_round_back_round_trip(nonce: Seq<u8>, key: Seq<u8>, buf: Seq<u8>)
    ensures
        spec_round(nonce, key, spec_unround(nonce, key, buf)) == buf,
{
    let back = spec_unround(nonce, key, buf);
    assert forall|q: int| 0 <= q < buf.len() implies #[trigger] spec_round(nonce, key, back)[q]
        == buf[q] by {
        let at = q % spec_dynamic_sizes(buf.len() as int);
        lemma_xor_byte_round_trip(
            nonce[at % (nonce.len() as int)],
            key[at % (key.len() as int)],
            buf[q],
        );
    }
    assert(spec_round(nonce, key, back) =~= buf);
}

/// Doing `count` rounds after undoing them gives the buffer back: the rounds
/// and their inverses are inverse bijections.
pub proof fn lemma_rounds_back_round_trip(nonce: Seq<u8>, k_pw: Seq<u8>, buf: Seq<u8>, count: nat)
    ensures
        spec_rounds(nonce, k_pw, spec_unrounds(nonce, k_pw, buf, count), count) == buf,
    decreases count,
{
    if count > 0 {
        let key = round_key(k_pw, count - 1);
        let first = spec_unround(nonce, key, buf);
        lemma_rounds_back_round_trip(nonce, k_pw, first, (count - 1) as nat);
        lemma_round_back_round_trip(nonce, key, buf);
    }
}

/// The key of round `i`.
pub fn round_key_of(k_pw: &[u8], i: usize) -> (r: [u8; 32])
    ensures
        r@ == round_key(k_pw@, i as int),
{
    let len = k_pw.len();
    let slice_end = if i <= len / 8 {
        if i * 8 < len {
            i * 8
        } else {
            len
        }
    } else {
        len
    };
    blake3_hash(slice_subrange(k_pw, 0, slice_end))
}

/// One round over `buf` on the workers of `pool`; `forward` chooses between
/// the round and its inverse.
pub fn round_in(
    pool: &rayon::ThreadPool,
    nonce: &[u8; 32],
    key: &[u8; 32],
    buf: &[u8],
    forward: bool,
) -> (r: Vec<u8>)
    requires
        buf@.len() < SIZE_CEILING,
    ensures
        forward ==> r@ == spec_round(nonce@, key@, buf@),
        !forward ==> r@ == spec_unround(nonce@, key@, buf@),
{
    let count = buf.len();
    let size = dynamic_sizes(count) as usize;
    let f = |q: usize, b: u8| -> (x: u8)
        ensures
            x == if forward {
                xor_encrypt_byte(
                    nonce@[(q % size) as int % 32],
                    key@[(q % size) as int % 32],
                    b,
                )
            } else {
                xor_decrypt_byte(
                    nonce@[(q % size) as int % 32],
                    key@[(q % size) as int % 32],
                    b,
                )
            },
        {
            if forward {
                xor_encrypt_at(nonce.as_slice(), key.as_slice(), q % size, b)
            } else {
                xor_decrypt_at(nonce.as_slice(), key.as_slice(), q % size, b)
            }
        };
    let out = pool_map(pool, buf, f);
    assert forall|q: int| 0 <= q < buf@.len() implies #[trigger] out@[q] == if forward {
        spec_round(nonce@, key@, buf@)[q]
    } else {
        spec_unround(nonce@, key@, buf@)[q]
    } by {
        assert(q < count);
        assert(call_ensures(f, (q as usize, buf@[q]), out@[q]));
    }
    if forward {
        assert(out@ =~= spec_round(nonce@, key@, buf@));
    } else {
        assert(out@ =~= spec_unround(nonce@, key@, buf@));
    }
    out
}

/// The rounds `0` to `rounds`, one more than `rounds` in all, over `buf`.
pub fn apply_rounds_in(
    pool: &rayon::ThreadPool,
    nonce: &[u8; 32],
    k_pw: &[u8],
    buf: &[u8],
    rounds: usize,
) -> (r: Vec<u8>)
    requires
        buf@.len() < SIZE_CEILING,
    ensures
        r@ == spec_rounds(nonce@, k_pw@, buf@, (rounds + 1) as nat),
{
    let mut round_data = slice_to_vec(buf);
    let mut i: usize = 0;
    loop
        invariant_except_break
            i <= rounds,
            round_data@ == spec_rounds(nonce@, k_pw@, buf@, i as nat),
        invariant
            buf@.len() < SIZE_CEILING,
            round_data@.len() == buf@.len(),
        ensures
            round_data@ == spec_rounds(nonce@, k_pw@, buf@, (rounds + 1) as nat),
        decreases rounds - i,
    {
        let key = round_key_of(k_pw, i);
        let next = round_in(pool, nonce, &key, round_data.as_slice(), true);
        round_data = next;
        if i == rounds {
            break ;
        }
        i += 1;
    }
    round_data
}

/// The inverse rounds `rounds` down to `0` over `buf`.
pub fn undo_rounds_in(
    pool: &rayon::ThreadPool,
    nonce: &[u8; 32],
    k_pw: &[u8],
    buf: &[u8],
    rounds: usize,
) -> (r: Vec<u8>)
    requires
        buf@.len() < SIZE_CEILING,
    ensures
        r@ == spec_unrounds(nonce@, k_pw@, buf@, (rounds + 1) as nat),
{
    let mut round_data = slice_to_vec(buf);
    let mut i: usize = rounds;
    loop
        invariant_except_break
            i <= rounds,
            spec_unrounds(nonce@, k_pw@, round_data@, (i + 1) as nat) == spec_unrounds(
                nonce@,
                k_pw@,
                buf@,
                (rounds + 1) as nat,
            ),
        invariant
            buf@.len() < SIZE_CEILING,
            round_data@.len() == buf@.len(),
        ensures
            round_data@ == spec_unrounds(nonce@, k_pw@, buf@, (rounds + 1) as nat),
        decreases i,
    {
        let key = round_key_of(k_pw, i);
        let ghost before = round_data@;
        let next = round_in(pool, nonce, &key, round_data.as_slice(), false);
        round_data = next;
        assert(spec_unrounds(nonce@, k_pw@, before, (i + 1) as nat) == spec_unrounds(
            nonce@,
            k_pw@,
            round_data@,
            i as nat,
        ));
        if i == 0 {
            break ;
        }
        i -= 1;
    }
    round_data
}

} // verus!
