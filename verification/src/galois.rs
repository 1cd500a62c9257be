//! The byte rings GF(2)[x] / (x^8 + p): product, inverse table, and the facts about
//! them that the column mixer rests on.

use vstd::prelude::*;

verus! {

/// Multiplication by `x` in the byte ring: one shift to the left, folding the
/// bit that leaves the byte back in through the polynomial `poly`.
pub open spec fn gf_double(poly: u8, a: u8) -> u8 {
    if a & 0x80 != 0 {
        (a << 1u8) ^ poly
    } else {
        a << 1u8
    }
}

/// The shift-and-add product over the lowest `steps` bits of `b`: the sum
/// (XOR) of `a * x^i` for every set bit `i` of `b` below `steps`.
pub open spec fn gf_mul_bits(poly: u8, a: u8, b: u8, steps: nat) -> u8
    decreases steps,
{
    if steps == 0 {
        0
    } else {
        let term = if b & 1 != 0 {
            a
        } else {
            0u8
        };
        term ^ gf_mul_bits(poly, gf_double(poly, a), b >> 1u8, (steps - 1) as nat)
    }
}

/// The product of `a` and `b` as polynomials over GF(2), reduced modulo
/// `x^8 + poly`.
pub open spec fn gf_mul(poly: u8, a: u8, b: u8) -> u8 {
    gf_mul_bits(poly, a, b, 8)
}

/// The largest `b` with `1 <= b < bound` and `a * b = 1`, or zero where there
/// is none.
pub open spec fn gf_inverse_below(poly: u8, a: u8, bound: nat) -> u8
    decreases bound,
{
    if bound <= 1 || bound > 256 {
        0
    } else if gf_mul(poly, a, (bound - 1) as u8) == 1 {
        (bound - 1) as u8
    } else {
        gf_inverse_below(poly, a, (bound - 1) as nat)
    }
}

/// The entry of the inverse table for `a`: the largest nonzero `b` with
/// `a * b = 1`, or zero where `a` has no inverse (as for `a = 0`).
pub open spec fn gf_inverse(poly: u8, a: u8) -> u8 {
    if a == 0 {
        0
    } else {
        gf_inverse_below(poly, a, 256)
    }
}

/// The number that `b` stays below once `done` of its eight bits are shifted out.
spec fn bits_left_bound(done: nat) -> int {
    if done == 0 {
        256
    } else if done == 1 {
        128
    } else if done == 2 {
        64
    } else if done == 3 {
        32
    } else if done == 4 {
        16
    } else if done == 5 {
        8
    } else if done == 6 {
        4
    } else if done == 7 {
        2
    } else {
        1
    }
}

/// XOR may be regrouped, has zero as its unit, and cancels a byte against itself.
proof fn lemma_xor_regroup(p: u8, t: u8, r: u8)
    by (bit_vector)
    ensures
        p ^ (t ^ r) == (p ^ t) ^ r,
        p ^ 0 == p,
        0 ^ p == p,
        p ^ p == 0,
{
}

/// Shifting right by one halves a byte; the bit facts about zero that the
/// product needs.
proof fn lemma_halve(b: u8)
    by (bit_vector)
    ensures
        b >> 1u8 == b / 2,
        0u8 & 1 == 0,
        0u8 & 0x80 == 0,
        0u8 << 1u8 == 0,
{
}

/// A product with a zero factor is zero.
proof fn lemma_mul_bits_zero(poly: u8, a: u8, b: u8, steps: nat)
    requires
        a == 0 || b == 0,
    ensures
        gf_mul_bits(poly, a, b, steps) == 0,
    decreases steps,
{
    if steps > 0 {
        lemma_halve(b);
        lemma_xor_regroup(0, 0, 0);
        lemma_mul_bits_zero(poly, gf_double(poly, a), b >> 1u8, (steps - 1) as nat);
    }
}

/// A factor with an inverse can be cancelled, here for the factor three:
/// where `3 * inv = 1`, multiplying `3 * x` by `inv` gives `x` back, whatever
/// the polynomial.
pub proof fn lemma_gf_cancel_three(poly: u8, inv: u8, x: u8)
    by (bit_vector)
    requires
        gf_mul(poly, 3, inv) == 1,
    ensures
        gf_mul(poly, inv, gf_mul(poly, 3, x)) == x,
{
}

/// The same for the factor four.
pub proof fn lemma_gf_cancel_four(poly: u8, inv: u8, x: u8)
    by (bit_vector)
    requires
        gf_mul(poly, 4, inv) == 1,
    ensures
        gf_mul(poly, inv, gf_mul(poly, 4, x)) == x,
{
}

/// The same for the factor five.
pub proof fn lemma_gf_cancel_five(poly: u8, inv: u8, x: u8)
    by (bit_vector)
    requires
        gf_mul(poly, 5, inv) == 1,
    ensures
        gf_mul(poly, inv, gf_mul(poly, 5, x)) == x,
{
}

/// Cancelling works in the other order too, here for the factor three:
/// where `3 * inv = 1`, multiplying `inv * x` by three gives `x` back.
pub proof fn lemma_gf_cancel_back_three(poly: u8, inv: u8, x: u8)
    by (bit_vector)
    requires
        gf_mul(poly, 3, inv) == 1,
    ensures
        gf_mul(poly, 3, gf_mul(poly, inv, x)) == x,
{
}

/// The same for the factor four.
pub proof fn lemma_gf_cancel_back_four(poly: u8, inv: u8, x: u8)
    by (bit_vector)
    requires
        gf_mul(poly, 4, inv) == 1,
    ensures
        gf_mul(poly, 4, gf_mul(poly, inv, x)) == x,
{
}

/// The same for the factor five.
pub proof fn lemma_gf_cancel_back_five(poly: u8, inv: u8, x: u8)
    by (bit_vector)
    requires
        gf_mul(poly, 5, inv) == 1,
    ensures
        gf_mul(poly, 5, gf_mul(poly, inv, x)) == x,
{
}

/// One is the unit of the product, on the left.
pub proof fn lemma_gf_one(poly: u8, x: u8)
    by (bit_vector)
    ensures
        gf_mul(poly, 1, x) == x,
{
}

/// Where the table entry for `a` is not zero, it is an inverse of `a`.
pub proof fn lemma_inverse_below_is_inverse(poly: u8, a: u8, bound: nat)
    ensures
        gf_inverse_below(poly, a, bound) != 0 ==> gf_mul(
            poly,
            a,
            gf_inverse_below(poly, a, bound),
        ) == 1,
    decreases bound,
{
    if bound > 1 && bound <= 256 {
        lemma_inverse_below_is_inverse(poly, a, (bound - 1) as nat);
    }
}

/// Where some nonzero `b` below `bound` multiplies `a` to one, the table
/// entry is not zero.
pub proof fn lemma_inverse_below_found(poly: u8, a: u8, b: u8, bound: nat)
    requires
        1 <= b < bound <= 256,
        gf_mul(poly, a, b) == 1,
    ensures
        gf_inverse_below(poly, a, bound) != 0,
    decreases bound,
{
    if gf_mul(poly, a, (bound - 1) as u8) != 1 {
        lemma_inverse_below_found(poly, a, b, (bound - 1) as nat);
    }
}

/// Under the AES polynomial the three constants of the column mixer have
/// inverses: `3 * 0xf6 = 4 * 0xcb = 5 * 0x52 = 1`.
pub proof fn lemma_aes_mixer_constants()
    ensures
        gf_inverse(0x1b, 3) != 0,
        gf_inverse(0x1b, 4) != 0,
        gf_inverse(0x1b, 5) != 0,
{
    assert(gf_mul(0x1b, 3, 0xf6) == 1 && gf_mul(0x1b, 4, 0xcb) == 1 && gf_mul(0x1b, 5, 0x52) == 1)
        by (bit_vector);
    lemma_inverse_below_found(0x1b, 3, 0xf6, 256);
    lemma_inverse_below_found(0x1b, 4, 0xcb, 256);
    lemma_inverse_below_found(0x1b, 5, 0x52, 256);
}

/// The product computed by shifting and adding, as the table builder does.
pub fn multiply_in(poly: u8, a: u8, b: u8) -> (p: u8)
    ensures
        p == gf_mul(poly, a, b),
{
    let mut p: u8 = 0;
    let mut a_val: u8 = a;
    let mut b_val: u8 = b;
    let ghost mut done: nat = 0;
    proof {
        lemma_xor_regroup(gf_mul(poly, a, b), 0, 0);
    }
    while a_val != 0 && b_val != 0
        invariant
            done <= 8,
            (b_val as int) < bits_left_bound(done),
            p ^ gf_mul_bits(poly, a_val, b_val, (8 - done) as nat) == gf_mul(poly, a, b),
        decreases b_val,
    {
        let ghost rest = gf_mul_bits(
            poly,
            gf_double(poly, a_val),
            b_val >> 1u8,
            (8 - done - 1) as nat,
        );
        proof {
            lemma_halve(b_val);
            assert(done < 8);
            lemma_xor_regroup(p, a_val, rest);
            lemma_xor_regroup(p, 0, rest);
        }
        if b_val & 1 != 0 {
            p ^= a_val;
        }
        let high_bit_set = a_val & 0x80;
        a_val = a_val << 1;
        if high_bit_set != 0 {
            a_val ^= poly;
        }
        b_val >>= 1;
        proof {
            done = done + 1;
        }
    }
    proof {
        lemma_mul_bits_zero(poly, a_val, b_val, (8 - done) as nat);
        lemma_xor_regroup(p, 0, 0);
    }
    p
}

/// The multiplication and inverse tables of the byte ring of one polynomial.
pub struct GaloisField {
    mul_table: Vec<u8>,
    inv_table: Vec<u8>,
    irreducible_poly: u8,
}

impl GaloisField {
    /// The polynomial the tables were built for.
    pub closed spec fn poly(&self) -> u8 {
        self.irreducible_poly
    }

    /// Both tables are complete: the product of `a` and `b` stands at
    /// `256 * a + b`, the inverse entry of `a` at `a`.
    pub closed spec fn wf(&self) -> bool {
        &&& self.mul_table@.len() == 65536
        &&& self.inv_table@.len() == 256
        &&& forall|a: u8, b: u8| #[trigger]
            self.mul_table@[256 * (a as int) + (b as int)] == gf_mul(self.irreducible_poly, a, b)
        &&& forall|a: u8| #[trigger]
            self.inv_table@[a as int] == gf_inverse(self.irreducible_poly, a)
    }

    /// Builds both tables for the polynomial `x^8 + irreducible_poly`.
    pub fn new(irreducible_poly: u8) -> (gf: Self)
        ensures
            gf.wf(),
            gf.poly() == irreducible_poly,
    {
        let mut gf = Self { mul_table: Vec::new(), inv_table: Vec::new(), irreducible_poly };
        gf.initialize_tables();
        gf
    }

    /// Fills both tables, which must be empty.
    fn initialize_tables(&mut self)
        requires
            old(self).mul_table@.len() == 0,
            old(self).inv_table@.len() == 0,
        ensures
            final(self).wf(),
            final(self).irreducible_poly == old(self).irreducible_poly,
    {
        let poly = self.irreducible_poly;
        let mut i: usize = 0;
        while i < 256
            invariant
                i <= 256,
                self.irreducible_poly == poly,
                self.inv_table@.len() == 0,
                self.mul_table@.len() == 256 * i,
                forall|a: u8, b: u8|
                    (a as int) < i ==> #[trigger] self.mul_table@[256 * (a as int) + (b as int)]
                        == gf_mul(poly, a, b),
            decreases 256 - i,
        {
            let mut j: usize = 0;
            while j < 256
                invariant
                    i < 256,
                    j <= 256,
                    self.irreducible_poly == poly,
                    self.inv_table@.len() == 0,
                    self.mul_table@.len() == 256 * i + j,
                    forall|a: u8, b: u8|
                        (a as int) < i ==> #[trigger] self.mul_table@[256 * (a as int) + (
                        b as int)] == gf_mul(poly, a, b),
                    forall|b: u8|
                        (b as int) < j ==> #[trigger] self.mul_table@[256 * (i as int) + (
                        b as int)] == gf_mul(poly, i as u8, b),
                decreases 256 - j,
            {
                let product = multiply_in(poly, i as u8, j as u8);
                self.mul_table.push(product);
                j += 1;
            }
            i += 1;
        }
        self.inv_table.push(0);
        let mut i: usize = 1;
        while i < 256
            invariant
                1 <= i <= 256,
                self.irreducible_poly == poly,
                self.mul_table@.len() == 65536,
                self.inv_table@.len() == i,
                forall|a: u8, b: u8| #[trigger]
                    self.mul_table@[256 * (a as int) + (b as int)] == gf_mul(poly, a, b),
                forall|a: u8|
                    (a as int) < i ==> #[trigger] self.inv_table@[a as int] == gf_inverse(poly, a),
            decreases 256 - i,
        {
            let mut found: u8 = 0;
            let mut j: usize = 1;
            while j < 256
                invariant
                    1 <= i < 256,
                    1 <= j <= 256,
                    self.mul_table@.len() == 65536,
                    forall|a: u8, b: u8| #[trigger]
                        self.mul_table@[256 * (a as int) + (b as int)] == gf_mul(poly, a, b),
                    found == gf_inverse_below(poly, i as u8, j as nat),
                decreases 256 - j,
            {
                assert(self.mul_table@[256 * ((i as u8) as int) + ((j as u8) as int)] == gf_mul(
                    poly,
                    i as u8,
                    j as u8,
                ));
                if self.mul_table[256 * i + j] == 1 {
                    found = j as u8;
                }
                j += 1;
            }
            self.inv_table.push(found);
            i += 1;
        }
    }

    /// The product of `a` and `b`, computed afresh.
    pub fn multiply(&self, a: u8, b: u8) -> (p: u8)
        ensures
            p == gf_mul(self.poly(), a, b),
    {
        multiply_in(self.irreducible_poly, a, b)
    }

    /// The product of `a` and `b`, read from the table.
    pub fn fast_multiply(&self, a: u8, b: u8) -> (p: u8)
        requires
            self.wf(),
        ensures
            p == gf_mul(self.poly(), a, b),
    {
        self.mul_table[256 * (a as usize) + (b as usize)]
    }

    /// The inverse-table entry of `a`; zero itself has none.
    pub fn inverse(&self, a: u8) -> (r: Option<u8>)
        requires
            self.wf(),
        ensures
            a == 0 <==> r is None,
            a != 0 ==> r == Some(gf_inverse(self.poly(), a)),
    {
        if a == 0 {
            None
        } else {
            Some(self.inv_table[a as usize])
        }
    }
}

} // verus!
