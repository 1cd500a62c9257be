//! The chunked shift stage: the size schedule, the chunks, the per-chunk rotation and
//! mask, the reversal, and the choice of the backend that runs it.

use crate::byteops::lemma_rotate_left_then_right;
use crate::byteops::lemma_rotate_right_then_left;
use crate::byteops::lemma_xor_twice;
use crate::byteops::rotate_left8;
use crate::byteops::rotate_right8;
use crate::byteops::rotl8;
use crate::byteops::rotr8;
use crate::config::Config;
use crate::config::DeviceList;
use crate::digest::blake3_digest;
use crate::digest::blake3_hash;
use crate::errors::Errors;
use crate::parallel::concat_bytes;
use crate::parallel::make_pool;
use crate::parallel::pool_map;
use vstd::prelude::*;
use vstd::slice::slice_subrange;

verus! {

/// The length from which the size schedule is no longer defined: ten to the
/// nineteenth. Every buffer handed to the chunked stages is shorter.
pub const SIZE_CEILING: u64 = 10_000_000_000_000_000_000;

/// The base chunk size for a buffer of `len` bytes: a step function of the length.
pub open spec fn spec_dynamic_sizes(len: int) -> int {
    if len < 1_000 {
        14
    } else if len < 10_000 {
        24
    } else if len < 100_000 {
        64
    } else if len < 1_000_000 {
        128
    } else if len < 10_000_000 {
        4096
    } else if len < 100_000_000 {
        8096
    } else if len < 10_000_000_000 {
        16384
    } else if len < 1_000_000_000_000 {
        32768
    } else if len < 100_000_000_000_000 {
        65536
    } else if len < 10_000_000_000_000_000 {
        1048576
    } else if len < 1_000_000_000_000_000_000 {
        2097152
    } else {
        4194304
    }
}

/// A longer buffer never gets a smaller base chunk size.
pub proof fn lemma_dynamic_sizes_monotone(a: int, b: int)
    requires
        a <= b,
    ensures
        spec_dynamic_sizes(a) <= spec_dynamic_sizes(b),
{
}

/// The base chunk size for a buffer of `data_len` bytes.
pub fn dynamic_sizes(data_len: usize) -> (r: u32)
    requires
        data_len < SIZE_CEILING,
    ensures
        r == spec_dynamic_sizes(data_len as int),
        14 <= r <= 4194304,
{
    let len = data_len as u64;
    if len < 1_000 {
        14
    } else if len < 10_000 {
        24
    } else if len < 100_000 {
        64
    } else if len < 1_000_000 {
        128
    } else if len < 10_000_000 {
        4096
    } else if len < 100_000_000 {
        8096
    } else if len < 10_000_000_000 {
        16384
    } else if len < 1_000_000_000_000 {
        32768
    } else if len < 100_000_000_000_000 {
        65536
    } else if len < 10_000_000_000_000_000 {
        1048576
    } else if len < 1_000_000_000_000_000_000 {
        2097152
    } else {
        4194304
    }
}

/// The 32 key bytes of the shift stage: the hash of the nonce followed by
/// the password key.
pub open spec fn shift_key(nonce: Seq<u8>, password: Seq<u8>) -> Seq<u8> {
    blake3_digest(nonce + password)@
}

/// The size that the schedule gives a chunk starting at `cursor`, before it
/// is cut to what remains: the base plus a key byte modulo eight.
pub open spec fn chunk_step(base: int, seed: Seq<u8>, cursor: int) -> int {
    base + (seed[cursor % 32] % 8)
}

/// Where chunk number `index` starts.
pub open spec fn chunk_start(base: int, seed: Seq<u8>, index: nat) -> int
    decreases index,
{
    if index == 0 {
        0
    } else {
        let before = chunk_start(base, seed, (index - 1) as nat);
        before + chunk_step(base, seed, before)
    }
}

/// The number of the chunk that holds position `pos`, found by walking the
/// schedule from chunk `index`, which starts at `cursor`.
pub open spec fn chunk_index_from(
    base: int,
    seed: Seq<u8>,
    pos: int,
    cursor: int,
    index: int,
) -> int
    decreases pos - cursor,
{
    if base <= 0 || pos < cursor + chunk_step(base, seed, cursor) {
        index
    } else {
        chunk_index_from(
            base,
            seed,
            pos,
            cursor + chunk_step(base, seed, cursor),
            index + 1,
        )
    }
}

/// The number of the chunk that holds position `pos` of a buffer of `len` bytes.
pub open spec fn chunk_of(len: int, seed: Seq<u8>, pos: int) -> int {
    chunk_index_from(spec_dynamic_sizes(len), seed, pos, 0, 0)
}

/// One byte of the shift stage: rotate left, then mask.
pub open spec fn shift_byte(rot: u8, mask: u8, b: u8) -> u8 {
    rotl8(b, rot) ^ mask
}

/// The inverse of [`shift_byte`]: mask, then rotate right.
pub open spec fn unshift_byte(rot: u8, mask: u8, b: u8) -> u8 {
    rotr8(b ^ mask, rot)
}

/// The per-chunk transform at position `pos`: the byte there, rotated by the
/// nonce byte of its chunk modulo eight and masked with the key byte of its
/// chunk; `forward` chooses between the transform and its inverse.
pub open spec fn chunk_mapped_byte(
    data: Seq<u8>,
    nonce: Seq<u8>,
    seed: Seq<u8>,
    forward: bool,
    pos: int,
) -> u8 {
    let c = chunk_of(data.len() as int, seed, pos);
    let rot = nonce[c % (nonce.len() as int)] % 8;
    let mask = seed[c % 32];
    if forward {
        shift_byte(rot, mask, data[pos])
    } else {
        unshift_byte(rot, mask, data[pos])
    }
}

/// The per-chunk transform over a whole buffer.
pub open spec fn chunk_mapped(
    data: Seq<u8>,
    nonce: Seq<u8>,
    seed: Seq<u8>,
    forward: bool,
) -> Seq<u8> {
    Seq::new(data.len(), |pos: int| chunk_mapped_byte(data, nonce, seed, forward, pos))
}

/// The shift stage: every chunk transformed, then the whole buffer reversed.
pub open spec fn spec_dynamic_shift(data: Seq<u8>, nonce: Seq<u8>, password: Seq<u8>) -> Seq<u8> {
    chunk_mapped(data, nonce, shift_key(nonce, password), true).reverse()
}

/// The inverse stage: the buffer reversed, then every chunk transformed back.
pub open spec fn spec_dynamic_unshift(
    data: Seq<u8>,
    nonce: Seq<u8>,
    password: Seq<u8>,
) -> Seq<u8> {
    chunk_mapped(data.reverse(), nonce, shift_key(nonce, password), false)
}

/// Unshifting what the stage shifted, under the same nonce and password key,
/// gives the buffer back.
pub proof fn lemma_shift_round_trip(data: Seq<u8>, nonce: Seq<u8>, password: Seq<u8>)
    ensures
        spec_dynamic_unshift(spec_dynamic_shift(data, nonce, password), nonce, password) == data,
{
    let seed = shift_key(nonce, password);
    let forward = chunk_mapped(data, nonce, seed, true);
    assert(forward.reverse().reverse() =~= forward);
    let back = chunk_mapped(forward, nonce, seed, false);
    assert forall|pos: int| 0 <= pos < data.len() implies #[trigger] back[pos] == data[pos] by {
        let c = chunk_of(data.len() as int, seed, pos);
        let rot = nonce[c % (nonce.len() as int)] % 8;
        let mask = seed[c % 32];
        lemma_xor_twice(rotl8(data[pos], rot), mask);
        lemma_rotate_left_then_right(data[pos], rot);
    }
    assert(back =~= data);
}

/// Shifting what the inverse stage unshifted gives the buffer back as well.
pub proof fn lemma_unshift_round_trip(data: Seq<u8>, nonce: Seq<u8>, password: Seq<u8>)
    ensures
        spec_dynamic_shift(spec_dynamic_unshift(data, nonce, password), nonce, password) == data,
{
    let seed = shift_key(nonce, password);
    let turned = data.reverse();
    let back = chunk_mapped(turned, nonce, seed, false);
    let again = chunk_mapped(back, nonce, seed, true);
    assert forall|pos: int| 0 <= pos < data.len() implies #[trigger] again[pos] == turned[pos] by {
        let c = chunk_of(data.len() as int, seed, pos);
        let rot = nonce[c % (nonce.len() as int)] % 8;
        let mask = seed[c % 32];
        lemma_rotate_right_then_left(turned[pos] ^ mask, rot);
        lemma_xor_twice(turned[pos], mask);
    }
    assert(again =~= turned);
    assert(turned.reverse() =~= data);
}

/// Chunks start one after the other, the first at zero.
proof fn lemma_chunk_start_grows(base: int, seed: Seq<u8>, i: nat, j: nat)
    requires
        base > 0,
        i <= j,
    ensures
        0 <= chunk_start(base, seed, i) <= chunk_start(base, seed, j),
        i < j ==> chunk_start(base, seed, i) < chunk_start(base, seed, j),
    decreases j,
{
    if j > 0 {
        if i < j {
            lemma_chunk_start_grows(base, seed, i, (j - 1) as nat);
        } else {
            lemma_chunk_start_grows(base, seed, 0, (j - 1) as nat);
        }
    }
}

/// Walking the schedule from any earlier chunk finds the chunk of a position.
proof fn lemma_chunk_index_from(base: int, seed: Seq<u8>, pos: int, j: nat, i: nat)
    requires
        base > 0,
        j <= i,
        chunk_start(base, seed, i) <= pos < chunk_start(base, seed, i + 1),
    ensures
        chunk_index_from(base, seed, pos, chunk_start(base, seed, j), j as int) == i,
    decreases i - j,
{
    if j < i {
        lemma_chunk_start_grows(base, seed, j + 1, i);
        lemma_chunk_index_from(base, seed, pos, j + 1, i);
    }
}

/// A position between the start of chunk `i` and the start of the next lies
/// in chunk `i`.
pub proof fn lemma_chunk_of(len: int, seed: Seq<u8>, pos: int, i: nat)
    requires
        chunk_start(spec_dynamic_sizes(len), seed, i) <= pos < chunk_start(
            spec_dynamic_sizes(len),
            seed,
            i + 1,
        ),
    ensures
        chunk_of(len, seed, pos) == i,
{
    lemma_chunk_index_from(spec_dynamic_sizes(len), seed, pos, 0, i);
}

/// The size of chunk `i` of a buffer of `len` bytes: its scheduled size, cut
/// to what remains of the buffer.
pub open spec fn scheduled_size(len: int, seed: Seq<u8>, i: nat) -> int {
    let start = chunk_start(spec_dynamic_sizes(len), seed, i);
    let step = chunk_step(spec_dynamic_sizes(len), seed, start);
    if step < len - start {
        step
    } else {
        len - start
    }
}

/// `sizes` is the chunk schedule of a buffer of `len` bytes: every chunk
/// starts inside the buffer and has its scheduled size, and the chunk after
/// the last would start at or beyond the end.
pub open spec fn is_schedule(sizes: Seq<usize>, len: int, seed: Seq<u8>) -> bool {
    &&& forall|i: int|
        0 <= i < sizes.len() ==> #[trigger] chunk_start(spec_dynamic_sizes(len), seed, i as nat)
            < len
    &&& forall|i: int|
        0 <= i < sizes.len() ==> #[trigger] sizes[i] == scheduled_size(len, seed, i as nat)
    &&& chunk_start(spec_dynamic_sizes(len), seed, sizes.len()) >= len
}

/// The chunk sizes for a buffer of `data_len` bytes under the key bytes
/// `seed`: chunk `i` starts where the schedule says and takes its scheduled
/// size, cut to what remains; the chunks cover the buffer exactly.
pub fn get_chunk_sizes(data_len: usize, seed: &[u8; 32]) -> (sizes: Vec<usize>)
    requires
        data_len < SIZE_CEILING,
    ensures
        is_schedule(sizes@, data_len as int, seed@),
{
    let mut sizes: Vec<usize> = Vec::new();
    let base = dynamic_sizes(data_len) as u64;
    let total = data_len as u64;
    let mut pos: u64 = 0;
    while pos < total
        invariant
            total == data_len,
            total < SIZE_CEILING,
            base == spec_dynamic_sizes(data_len as int),
            14 <= base <= 4194304,
            pos == chunk_start(base as int, seed@, sizes@.len()),
            pos < total + 4194312,
            forall|i: int|
                0 <= i < sizes@.len() ==> #[trigger] chunk_start(base as int, seed@, i as nat)
                    < data_len,
            forall|i: int|
                0 <= i < sizes@.len() ==> #[trigger] sizes@[i] == scheduled_size(
                    data_len as int,
                    seed@,
                    i as nat,
                ),
        decreases total + 4194312 - pos,
    {
        let size = base + (seed[(pos % 32) as usize] % 8) as u64;
        let remaining = total - pos;
        let take = if size < remaining {
            size
        } else {
            remaining
        };
        let ghost index = sizes@.len();
        let ghost earlier = sizes@;
        assert(take == scheduled_size(data_len as int, seed@, index));
        sizes.push(take as usize);
        assert forall|i: int| 0 <= i < sizes@.len() implies #[trigger] sizes@[i]
            == scheduled_size(data_len as int, seed@, i as nat) by {
            if i < index {
                assert(sizes@[i] == earlier[i]);
            }
        }
        pos += size;
    }
    sizes
}

/// The per-chunk transform over `data` on the workers of `pool`, chunk by chunk.
pub fn map_chunks_in(
    pool: &rayon::ThreadPool,
    data: &[u8],
    nonce: &[u8],
    key: &[u8; 32],
    forward: bool,
) -> (r: Vec<u8>)
    requires
        data@.len() < SIZE_CEILING,
        data@.len() > 0 ==> nonce@.len() > 0,
    ensures
        r@ == chunk_mapped(data@, nonce@, key@, forward),
{
    let total = data.len();
    let chunk_sizes = get_chunk_sizes(total, key);
    let count = chunk_sizes.len();
    let ghost base = spec_dynamic_sizes(total as int);
    let mut mapped: Vec<u8> = Vec::new();
    let mut cursor: usize = 0;
    let mut i: usize = 0;
    while i < count
        invariant
            i <= count,
            count == chunk_sizes@.len(),
            total == data@.len(),
            base == spec_dynamic_sizes(total as int),
            base > 0,
            total > 0 ==> nonce@.len() > 0,
            is_schedule(chunk_sizes@, total as int, key@),
            cursor <= total,
            i < count ==> cursor == chunk_start(base, key@, i as nat),
            i == count ==> cursor == total,
            mapped@.len() == cursor,
            forall|pos: int|
                0 <= pos < cursor ==> #[trigger] mapped@[pos] == chunk_mapped_byte(
                    data@,
                    nonce@,
                    key@,
                    forward,
                    pos,
                ),
        decreases count - i,
    {
        let size = chunk_sizes[i];
        let ghost start = chunk_start(base, key@, i as nat);
        let ghost step = chunk_step(base, key@, start);
        assert(chunk_sizes@[i as int] == scheduled_size(total as int, key@, i as nat));
        let chunk = slice_subrange(data, cursor, cursor + size);
        let rotate_by = nonce[i % nonce.len()] % 8;
        let xor_val = key[i % 32];
        let f = |j: usize, b: u8| -> (x: u8)
            ensures
                x == if forward {
                    shift_byte(rotate_by, xor_val, b)
                } else {
                    unshift_byte(rotate_by, xor_val, b)
                },
            {
                if forward {
                    rotate_left8(b, rotate_by) ^ xor_val
                } else {
                    rotate_right8(b ^ xor_val, rotate_by)
                }
            };
        let mut piece = pool_map(pool, chunk, f);
        let ghost before = mapped@;
        let ghost piece_view = piece@;
        mapped.append(&mut piece);
        proof {
            assert(chunk_start(base, key@, (i + 1) as nat) == start + step);
            assert forall|pos: int| 0 <= pos < cursor + size implies #[trigger] mapped@[pos]
                == chunk_mapped_byte(data@, nonce@, key@, forward, pos) by {
                if pos < cursor {
                    assert(mapped@[pos] == before[pos]);
                } else {
                    let j = pos - cursor;
                    assert(mapped@[pos] == piece_view[j]);
                    assert(chunk@[j] == data@[pos]);
                    assert(call_ensures(f, (j as usize, chunk@[j]), piece_view[j]));
                    lemma_chunk_of(total as int, key@, pos, i as nat);
                }
            }
            if i + 1 < count {
                assert(chunk_sizes@[i + 1] == scheduled_size(total as int, key@, (i + 1) as nat));
            }
        }
        cursor += size;
        i += 1;
    }
    assert(mapped@ =~= chunk_mapped(data@, nonce@, key@, forward));
    mapped
}

/// The bytes of `data` in reverse order.
pub fn reversed(data: &[u8]) -> (r: Vec<u8>)
    ensures
        r@ == data@.reverse(),
{
    let total = data.len();
    let mut out: Vec<u8> = Vec::new();
    let mut i: usize = 0;
    while i < total
        invariant
            i <= total,
            total == data@.len(),
            out@.len() == i,
            forall|k: int| 0 <= k < i ==> out@[k] == data@[total - 1 - k],
        decreases total - i,
    {
        out.push(data[total - 1 - i]);
        i += 1;
    }
    assert(out@ =~= data@.reverse());
    out
}

/// The shift stage over `data` on the workers of `pool`.
pub fn dynamic_shift_in(
    pool: &rayon::ThreadPool,
    data: &[u8],
    nonce: &[u8],
    password: &[u8],
) -> (r: Vec<u8>)
    requires
        data@.len() < SIZE_CEILING,
        data@.len() > 0 ==> nonce@.len() > 0,
    ensures
        r@ == spec_dynamic_shift(data@, nonce@, password@),
{
    let joined = concat_bytes(nonce, password);
    let key = blake3_hash(joined.as_slice());
    let mapped = map_chunks_in(pool, data, nonce, &key, true);
    reversed(mapped.as_slice())
}

/// The inverse stage over `data` on the workers of `pool`.
pub fn dynamic_unshift_in(
    pool: &rayon::ThreadPool,
    data: &[u8],
    nonce: &[u8],
    password: &[u8],
) -> (r: Vec<u8>)
    requires
        data@.len() < SIZE_CEILING,
        data@.len() > 0 ==> nonce@.len() > 0,
    ensures
        r@ == spec_dynamic_unshift(data@, nonce@, password@),
{
    let turned = reversed(data);
    let joined = concat_bytes(nonce, password);
    let key = blake3_hash(joined.as_slice());
    map_chunks_in(pool, turned.as_slice(), nonce, &key, false)
}

/// The shift stage over `data` on a pool of `config.thread_num` workers. It
/// fails only where the pool cannot be built.
pub fn dynamic_shift(
    data: &[u8],
    nonce: &[u8],
    password: &[u8],
    config: Config,
) -> (r: Result<Vec<u8>, Errors>)
    requires
        data@.len() < SIZE_CEILING,
        data@.len() > 0 ==> nonce@.len() > 0,
    ensures
        r matches Ok(v) ==> v@ == spec_dynamic_shift(data@, nonce@, password@),
        r matches Err(e) ==> e is ThreadPool,
{
    match make_pool(config.thread_num) {
        Ok(pool) => Ok(dynamic_shift_in(&pool, data, nonce, password)),
        Err(e) => Err(e),
    }
}

/// The inverse stage over `data` on a pool of `config.thread_num` workers.
/// It fails only where the pool cannot be built.
pub fn dynamic_unshift(
    data: &[u8],
    nonce: &[u8],
    password: &[u8],
    config: Config,
) -> (r: Result<Vec<u8>, Errors>)
    requires
        data@.len() < SIZE_CEILING,
        data@.len() > 0 ==> nonce@.len() > 0,
    ensures
        r matches Ok(v) ==> v@ == spec_dynamic_unshift(data@, nonce@, password@),
        r matches Err(e) ==> e is ThreadPool,
{
    match make_pool(config.thread_num) {
        Ok(pool) => Ok(dynamic_unshift_in(&pool, data, nonce, password)),
        Err(e) => Err(e),
    }
}

/// Where the shift stage of a call runs.
#[derive(Debug, Clone, Copy)]
pub enum ShiftBackend {
    /// On the worker pool of the call.
    Workers,
    /// On a compute device, through a kernel.
    Kernel,
}

/// The backend that a device setting selects when `platforms` compute
/// platforms are present: the workers for `Cpu`, the kernel for `Gpu`, and for
/// `Auto` the kernel exactly where a platform is present.
pub open spec fn spec_shift_backend(device: DeviceList, platforms: usize) -> ShiftBackend {
    match device {
        DeviceList::Cpu => ShiftBackend::Workers,
        DeviceList::Gpu => ShiftBackend::Kernel,
        DeviceList::Auto => if platforms == 0 {
            ShiftBackend::Workers
        } else {
            ShiftBackend::Kernel
        },
    }
}

/// Decides where the shift stage runs, from the device setting and the
/// number of compute platforms that a probe found.
pub fn shift_backend(device: DeviceList, platforms: usize) -> (r: ShiftBackend)
    ensures
        r == spec_shift_backend(device, platforms),
{
    match device {
        DeviceList::Cpu => ShiftBackend::Workers,
        DeviceList::Gpu => ShiftBackend::Kernel,
        DeviceList::Auto => {
            if platforms == 0 {
                ShiftBackend::Workers
            } else {
                ShiftBackend::Kernel
            }
        },
    }
}

} // verus!
