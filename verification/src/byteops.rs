//! Byte rotation and sums modulo 256, with the facts that make them invertible.

use vstd::prelude::*;

verus! {

/// The byte `b` with its bits rotated left by `k mod 8` places.
pub open spec fn rotl8(b: u8, k: u8) -> u8 {
    let s = k % 8;
    if s == 0 {
        b
    } else {
        (b << s) | (b >> ((8 - s) as u8))
    }
}

/// The byte `b` with its bits rotated right by `k mod 8` places.
pub open spec fn rotr8(b: u8, k: u8) -> u8 {
    let s = k % 8;
    if s == 0 {
        b
    } else {
        (b >> s) | (b << ((8 - s) as u8))
    }
}

/// The sum of two bytes modulo 256.
pub open spec fn wadd8(a: u8, b: u8) -> u8 {
    if a + b > 255 {
        (a + b - 256) as u8
    } else {
        (a + b) as u8
    }
}

/// The difference of two bytes modulo 256.
pub open spec fn wsub8(a: u8, b: u8) -> u8 {
    if a < b {
        (a - b + 256) as u8
    } else {
        (a - b) as u8
    }
}

/// Rotating right undoes rotating left by the same amount.
pub proof fn lemma_rotate_left_then_right(b: u8, k: u8)
    by (bit_vector)
    ensures
        rotr8(rotl8(b, k), k) == b,
{
}

/// Rotating left undoes rotating right by the same amount.
pub proof fn lemma_rotate_right_then_left(b: u8, k: u8)
    by (bit_vector)
    ensures
        rotl8(rotr8(b, k), k) == b,
{
}

/// Masking twice with the same byte changes nothing.
pub proof fn lemma_xor_twice(b: u8, m: u8)
    by (bit_vector)
    ensures
        (b ^ m) ^ m == b,
{
}

/// Adding and subtracting the same byte, modulo 256, undo each other.
pub proof fn lemma_add_then_sub(a: u8, b: u8)
    ensures
        wsub8(wadd8(a, b), b) == a,
        wadd8(wsub8(a, b), b) == a,
{
}

/// The byte `b` rotated left by `k mod 8` places.
pub fn rotate_left8(b: u8, k: u8) -> (r: u8)
    ensures
        r == rotl8(b, k),
{
    let s = k % 8;
    if s == 0 {
        b
    } else {
        (b << s) | (b >> (8 - s))
    }
}

/// The byte `b` rotated right by `k mod 8` places.
pub fn rotate_right8(b: u8, k: u8) -> (r: u8)
    ensures
        r == rotr8(b, k),
{
    let s = k % 8;
    if s == 0 {
        b
    } else {
        (b >> s) | (b << (8 - s))
    }
}

/// The sum of two bytes modulo 256.
pub fn wrapping_add8(a: u8, b: u8) -> (r: u8)
    ensures
        r == wadd8(a, b),
{
    a.wrapping_add(b)
}

/// The difference of two bytes modulo 256.
pub fn wrapping_sub8(a: u8, b: u8) -> (r: u8)
    ensures
        r == wsub8(a, b),
{
    a.wrapping_sub(b)
}

} // verus!
