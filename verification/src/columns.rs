//! The column mixer over groups of three bytes and its inverse.

use crate::byteops::lemma_xor_twice;
use crate::config::Config;
use crate::errors::Errors;
use crate::galois::GaloisField;
use crate::galois::gf_inverse;
use crate::galois::gf_mul;
use crate::galois::lemma_gf_cancel_back_five;
use crate::galois::lemma_gf_cancel_back_four;
use crate::galois::lemma_gf_cancel_back_three;
use crate::galois::lemma_gf_cancel_five;
use crate::galois::lemma_gf_cancel_four;
use crate::galois::lemma_gf_cancel_three;
use crate::galois::lemma_gf_one;
use crate::galois::lemma_inverse_below_is_inverse;
use crate::parallel::make_pool;
use crate::parallel::pool_map;
use vstd::prelude::*;

verus! {

/// The column mixer on one group of three bytes:
/// `(3a + 2b + c, 4b + c, 5c)` in the byte ring of `poly`.
pub open spec fn mix_group(poly: u8, a: u8, b: u8, c: u8) -> (u8, u8, u8) {
    (
        gf_mul(poly, 3, a) ^ gf_mul(poly, 2, b) ^ c,
        gf_mul(poly, 4, b) ^ c,
        gf_mul(poly, 5, c),
    )
}

/// The inverse mixer on one group, by back-substitution through the inverse
/// table entries of five, four and three.
pub open spec fn unmix_group(poly: u8, a: u8, b: u8, c: u8) -> (u8, u8, u8) {
    let c_prime = gf_mul(poly, gf_inverse(poly, 5), c);
    let b_prime = gf_mul(poly, gf_inverse(poly, 4), b ^ gf_mul(poly, 1, c_prime));
    let a_prime = gf_mul(poly, gf_inverse(poly, 3), a ^ gf_mul(poly, 2, b_prime) ^ c_prime);
    (a_prime, b_prime, c_prime)
}

/// The member of a triple that belongs to position `i` of its group.
pub open spec fn pick(t: (u8, u8, u8), i: int) -> u8 {
    if i % 3 == 0 {
        t.0
    } else if i % 3 == 1 {
        t.1
    } else {
        t.2
    }
}

/// Whether position `i` lies in a complete group of three.
pub open spec fn in_full_group(len: int, i: int) -> bool {
    3 * (i / 3) + 3 <= len
}

/// Byte `i` of the mixed buffer: its share of the mixed group, or the byte
/// itself in the one or two bytes that trail the last complete group.
pub open spec fn mixed_column_byte(poly: u8, data: Seq<u8>, i: int) -> u8 {
    let g = 3 * (i / 3);
    if in_full_group(data.len() as int, i) {
        pick(mix_group(poly, data[g], data[g + 1], data[g + 2]), i)
    } else {
        data[i]
    }
}

/// Byte `i` of the unmixed buffer.
pub open spec fn unmixed_column_byte(poly: u8, data: Seq<u8>, i: int) -> u8 {
    let g = 3 * (i / 3);
    if in_full_group(data.len() as int, i) {
        pick(unmix_group(poly, data[g], data[g + 1], data[g + 2]), i)
    } else {
        data[i]
    }
}

/// The column mixer over a buffer.
pub open spec fn spec_triangle_mix(poly: u8, data: Seq<u8>) -> Seq<u8> {
    Seq::new(data.len(), |i: int| mixed_column_byte(poly, data, i))
}

/// The inverse column mixer over a buffer.
pub open spec fn spec_inverse_triangle_mix(poly: u8, data: Seq<u8>) -> Seq<u8> {
    Seq::new(data.len(), |i: int| unmixed_column_byte(poly, data, i))
}

/// The three constants of the mixer have inverses under `poly`.
pub open spec fn mixer_invertible(poly: u8) -> bool {
    gf_inverse(poly, 3) != 0 && gf_inverse(poly, 4) != 0 && gf_inverse(poly, 5) != 0
}

/// Masking with `y` and `z` a second time strips both from `x ^ y ^ z`.
proof fn lemma_xor_strip(x: u8, y: u8, z: u8)
    by (bit_vector)
    ensures
        (((x ^ y) ^ z) ^ y) ^ z == x,
{
}

/// Where three, four and five have inverses, the inverse mixer undoes the
/// mixer on every group.
pub proof fn lemma_group_round_trip(poly: u8, a: u8, b: u8, c: u8)
    requires
        mixer_invertible(poly),
    ensures
        ({
            let m = mix_group(poly, a, b, c);
            unmix_group(poly, m.0, m.1, m.2) == (a, b, c)
        }),
{
    let m = mix_group(poly, a, b, c);
    lemma_inverse_below_is_inverse(poly, 3, 256);
    lemma_inverse_below_is_inverse(poly, 4, 256);
    lemma_inverse_below_is_inverse(poly, 5, 256);
    lemma_gf_cancel_five(poly, gf_inverse(poly, 5), c);
    lemma_gf_one(poly, c);
    lemma_xor_twice(gf_mul(poly, 4, b), c);
    lemma_gf_cancel_four(poly, gf_inverse(poly, 4), b);
    lemma_xor_strip(gf_mul(poly, 3, a), gf_mul(poly, 2, b), c);
    lemma_gf_cancel_three(poly, gf_inverse(poly, 3), a);
}

/// Where three, four and five have inverses, the mixer undoes the inverse
/// mixer on every group as well.
pub proof fn lemma_group_back_round_trip(poly: u8, a: u8, b: u8, c: u8)
    requires
        mixer_invertible(poly),
    ensures
        ({
            let u = unmix_group(poly, a, b, c);
            mix_group(poly, u.0, u.1, u.2) == (a, b, c)
        }),
{
    let u = unmix_group(poly, a, b, c);
    lemma_inverse_below_is_inverse(poly, 3, 256);
    lemma_inverse_below_is_inverse(poly, 4, 256);
    lemma_inverse_below_is_inverse(poly, 5, 256);
    lemma_gf_cancel_back_five(poly, gf_inverse(poly, 5), c);
    lemma_gf_one(poly, u.2);
    lemma_gf_cancel_back_four(poly, gf_inverse(poly, 4), b ^ u.2);
    lemma_xor_twice(b, u.2);
    lemma_gf_cancel_back_three(poly, gf_inverse(poly, 3), a ^ gf_mul(poly, 2, u.1) ^ u.2);
    lemma_xor_strip(a, gf_mul(poly, 2, u.1), u.2);
}

/// Where three, four and five have inverses under `poly`, the inverse mixer
/// gives back every buffer that the mixer was applied to.
pub proof fn lemma_triangle_round_trip(poly: u8, data: Seq<u8>)
    requires
        mixer_invertible(poly),
    ensures
        spec_inverse_triangle_mix(poly, spec_triangle_mix(poly, data)) == data,
{
    let mixed = spec_triangle_mix(poly, data);
    assert forall|i: int| 0 <= i < data.len() implies #[trigger] spec_inverse_triangle_mix(
        poly,
        mixed,
    )[i] == data[i] by {
        let g = 3 * (i / 3);
        if in_full_group(data.len() as int, i) {
            lemma_group_round_trip(poly, data[g], data[g + 1], data[g + 2]);
            assert(g / 3 == i / 3 && (g + 1) / 3 == i / 3 && (g + 2) / 3 == i / 3);
            assert(mixed[g] == mixed_column_byte(poly, data, g));
            assert(mixed[g + 1] == mixed_column_byte(poly, data, g + 1));
            assert(mixed[g + 2] == mixed_column_byte(poly, data, g + 2));
        }
    }
    assert(spec_inverse_triangle_mix(poly, mixed) =~= data);
}

/// Where three, four and five have inverses under `poly`, the mixer gives
/// back every buffer that the inverse mixer was applied to: the two are
/// inverse bijections on the buffers of every length.
pub proof fn lemma_triangle_back_round_trip(poly: u8, data: Seq<u8>)
    requires
        mixer_invertible(poly),
    ensures
        spec_triangle_mix(poly, spec_inverse_triangle_mix(poly, data)) == data,
{
    let unmixed = spec_inverse_triangle_mix(poly, data);
    assert forall|i: int| 0 <= i < data.len() implies #[trigger] spec_triangle_mix(poly, unmixed)[i]
        == data[i] by {
        let g = 3 * (i / 3);
        if in_full_group(data.len() as int, i) {
            lemma_group_back_round_trip(poly, data[g], data[g + 1], data[g + 2]);
            assert(g / 3 == i / 3 && (g + 1) / 3 == i / 3 && (g + 2) / 3 == i / 3);
            assert(unmixed[g] == unmixed_column_byte(poly, data, g));
            assert(unmixed[g + 1] == unmixed_column_byte(poly, data, g + 1));
            assert(unmixed[g + 2] == unmixed_column_byte(poly, data, g + 2));
        }
    }
    assert(spec_triangle_mix(poly, unmixed) =~= data);
}

/// Byte `i` of the mixed buffer, computed from the group it lies in.
pub fn mixed_column_at(gf: &GaloisField, data: &[u8], i: usize) -> (r: u8)
    requires
        gf.wf(),
        i < data@.len(),
    ensures
        r == mixed_column_byte(gf.poly(), data@, i as int),
{
    let g = 3 * (i / 3);
    if data.len() - g >= 3 {
        let a = data[g];
        let b = data[g + 1];
        let c = data[g + 2];
        if i % 3 == 0 {
            gf.fast_multiply(3, a) ^ gf.fast_multiply(2, b) ^ c
        } else if i % 3 == 1 {
            gf.fast_multiply(4, b) ^ c
        } else {
            gf.fast_multiply(5, c)
        }
    } else {
        data[i]
    }
}

/// Byte `i` of the unmixed buffer, computed from the group it lies in.
pub fn unmixed_column_at(gf: &GaloisField, data: &[u8], i: usize) -> (r: u8)
    requires
        gf.wf(),
        i < data@.len(),
    ensures
        r == unmixed_column_byte(gf.poly(), data@, i as int),
{
    let g = 3 * (i / 3);
    if data.len() - g >= 3 {
        let a = data[g];
        let b = data[g + 1];
        let c = data[g + 2];
        let inv_5 = match gf.inverse(5) {
            Some(v) => v,
            None => 1,
        };
        let c_prime = gf.fast_multiply(inv_5, c);
        if i % 3 == 2 {
            return c_prime;
        }
        let inv_4 = match gf.inverse(4) {
            Some(v) => v,
            None => 1,
        };
        let b_prime = gf.fast_multiply(inv_4, b ^ gf.fast_multiply(1, c_prime));
        if i % 3 == 1 {
            return b_prime;
        }
        let inv_3 = match gf.inverse(3) {
            Some(v) => v,
            None => 1,
        };
        gf.fast_multiply(inv_3, a ^ gf.fast_multiply(2, b_prime) ^ c_prime)
    } else {
        data[i]
    }
}

/// The column mixer over `data` on the workers of `pool`.
pub fn triangle_mix_columns_in(
    pool: &rayon::ThreadPool,
    data: &[u8],
    gf: &GaloisField,
) -> (r: Vec<u8>)
    requires
        gf.wf(),
    ensures
        r@ == spec_triangle_mix(gf.poly(), data@),
{
    let count = data.len();
    let f = |i: usize, b: u8| -> (x: u8)
        requires
            i < data@.len(),
        ensures
            x == mixed_column_byte(gf.poly(), data@, i as int),
        { mixed_column_at(gf, data, i) };
    assert forall|i: int| 0 <= i < data@.len() implies call_requires(
        f,
        (i as usize, #[trigger] data@[i]),
    ) by {
        assert(i < count);
    }
    let out = pool_map(pool, data, f);
    assert forall|i: int| 0 <= i < data@.len() implies #[trigger] out@[i] == mixed_column_byte(
        gf.poly(),
        data@,
        i,
    ) by {
        assert(i < count);
        assert(call_ensures(f, (i as usize, data@[i]), out@[i]));
    }
    assert(out@ =~= spec_triangle_mix(gf.poly(), data@));
    out
}

/// The inverse column mixer over `data` on the workers of `pool`.
pub fn inverse_triangle_mix_columns_in(
    pool: &rayon::ThreadPool,
    data: &[u8],
    gf: &GaloisField,
) -> (r: Vec<u8>)
    requires
        gf.wf(),
    ensures
        r@ == spec_inverse_triangle_mix(gf.poly(), data@),
{
    let count = data.len();
    let f = |i: usize, b: u8| -> (x: u8)
        requires
            i < data@.len(),
        ensures
            x == unmixed_column_byte(gf.poly(), data@, i as int),
        { unmixed_column_at(gf, data, i) };
    assert forall|i: int| 0 <= i < data@.len() implies call_requires(
        f,
        (i as usize, #[trigger] data@[i]),
    ) by {
        assert(i < count);
    }
    let out = pool_map(pool, data, f);
    assert forall|i: int| 0 <= i < data@.len() implies #[trigger] out@[i] == unmixed_column_byte(
        gf.poly(),
        data@,
        i,
    ) by {
        assert(i < count);
        assert(call_ensures(f, (i as usize, data@[i]), out@[i]));
    }
    assert(out@ =~= spec_inverse_triangle_mix(gf.poly(), data@));
    out
}

/// The column mixer over `data` on a pool of `config.thread_num` workers. It
/// fails only where the pool cannot be built.
pub fn triangle_mix_columns(
    data: &[u8],
    gf: &GaloisField,
    config: Config,
) -> (r: Result<Vec<u8>, Errors>)
    requires
        gf.wf(),
    ensures
        r matches Ok(v) ==> v@ == spec_triangle_mix(gf.poly(), data@),
        r matches Err(e) ==> e is ThreadPool,
{
    match make_pool(config.thread_num) {
        Ok(pool) => Ok(triangle_mix_columns_in(&pool, data, gf)),
        Err(e) => Err(e),
    }
}

/// The inverse column mixer over `data` on a pool of `config.thread_num`
/// workers. It fails only where the pool cannot be built.
pub fn inverse_triangle_mix_columns(
    data: &[u8],
    gf: &GaloisField,
    config: Config,
) -> (r: Result<Vec<u8>, Errors>)
    requires
        gf.wf(),
    ensures
        r matches Ok(v) ==> v@ == spec_inverse_triangle_mix(gf.poly(), data@),
        r matches Err(e) ==> e is ThreadPool,
{
    match make_pool(config.thread_num) {
        Ok(pool) => Ok(inverse_triangle_mix_columns_in(&pool, data, gf)),
        Err(e) => Err(e),
    }
}

} // verus!
