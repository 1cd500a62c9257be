//! Salts and how fresh ones are mixed.

use crate::byteops::wadd8;
use crate::byteops::wrapping_add8;
use crate::entropy::os_random_bytes;
use crate::entropy::thread_random_bytes;
use vstd::prelude::*;
use vstd::slice::slice_to_vec;

verus! {

/// A 32-byte Argon2 salt.
#[derive(Debug, Copy, Clone)]
pub enum Salt {
    Salt([u8; 32]),
}

impl View for Salt {
    type V = Seq<u8>;

    open spec fn view(&self) -> Seq<u8> {
        match self {
            Salt::Salt(bytes) => bytes@,
        }
    }
}

/// Byte `i` of a fresh salt, from the thread generator's bytes `rng` and the
/// system generator's bytes `mix_rng`: the `rng` byte plus the `mix_rng` byte
/// modulo `i + 1` plus the `rng` byte modulo eight, all modulo 256.
pub open spec fn salt_byte(rng: Seq<u8>, mix_rng: Seq<u8>, i: int) -> u8 {
    wadd8(rng[i], wadd8((mix_rng[i] as int % (i + 1)) as u8, rng[i] % 8))
}

/// The salt that two 32-byte draws give.
pub open spec fn spec_mix_salt(rng: Seq<u8>, mix_rng: Seq<u8>) -> Seq<u8> {
    Seq::new(32, |i: int| salt_byte(rng, mix_rng, i))
}

/// Mixes a draw from the thread generator with a draw from the system
/// generator into a salt.
pub fn mix_salt(rng: &[u8; 32], mix_rng: &[u8; 32]) -> (r: Salt)
    ensures
        r@ == spec_mix_salt(rng@, mix_rng@),
{
    let mut salt: [u8; 32] = [0u8;32];
    let mut i: usize = 0;
    while i < 32
        invariant
            i <= 32,
            forall|k: int| 0 <= k < i ==> salt@[k] == salt_byte(rng@, mix_rng@, k),
        decreases 32 - i,
    {
        let b = rng[i];
        let add = ((mix_rng[i % 32] as usize) % (i + 1)) as u8;
        let new_b = wrapping_add8(b, wrapping_add8(add, rng[i % 32] % 8));
        salt[i] = new_b;
        i += 1;
    }
    assert(salt@ =~= spec_mix_salt(rng@, mix_rng@));
    Salt::Salt(salt)
}

impl Salt {
    /// A fresh salt from the thread generator and the system generator. The
    /// draws are random; the salt is the mix of whatever they gave.
    pub fn new() -> (r: Self)
        ensures
            exists|rng: Seq<u8>, mix_rng: Seq<u8>| r@ == spec_mix_salt(rng, mix_rng),
    {
        let rng: [u8; 32] = thread_random_bytes();
        let mix_rng: [u8; 32] = os_random_bytes();
        mix_salt(&rng, &mix_rng)
    }

    /// The 32 bytes of the salt.
    pub fn as_bytes(&self) -> (r: &[u8])
        ensures
            r@ == self@,
    {
        match self {
            Salt::Salt(bytes) => bytes,
        }
    }

    /// The 32 bytes of the salt, copied.
    pub fn to_vec(&self) -> (r: Vec<u8>)
        ensures
            r@ == self@,
    {
        slice_to_vec(self.as_bytes())
    }
}

/// A fresh salt, as [`Salt::new`] makes it.
pub fn generate_salt() -> (r: Salt)
    ensures
        exists|rng: Seq<u8>, mix_rng: Seq<u8>| r@ == spec_mix_salt(rng, mix_rng),
{
    let rng: [u8; 32] = thread_random_bytes();
    let mix_rng: [u8; 32] = os_random_bytes();
    mix_salt(&rng, &mix_rng)
}

/// Reading a byte string as a salt.
pub trait AsSalt {
    /// The bytes that are read.
    spec fn salt_bytes(&self) -> Seq<u8>;

    /// The salt with these bytes, for a string of exactly 32 bytes.
    fn as_salt(&self) -> (r: Salt)
        requires
            self.salt_bytes().len() == 32,
        ensures
            r@ == self.salt_bytes(),
    ;

    /// The salt with these bytes, or an error for a string of another length.
    fn as_salt_safe(&self) -> (r: Result<Salt, String>)
        ensures
            r is Ok <==> self.salt_bytes().len() == 32,
            r matches Ok(salt) ==> salt@ == self.salt_bytes(),
            r matches Err(m) ==> m@ == "Salt input must be exactly 32 bytes"@,
    ;
}

/// The salt that holds the 32 bytes of `input`.
pub fn slice_to_salt(input: &[u8]) -> (r: Salt)
    requires
        input@.len() == 32,
    ensures
        r@ == input@,
{
    let mut arr: [u8; 32] = [0u8;32];
    let mut i: usize = 0;
    while i < 32
        invariant
            i <= 32,
            input@.len() == 32,
            forall|k: int| 0 <= k < i ==> arr@[k] == input@[k],
        decreases 32 - i,
    {
        arr[i] = input[i];
        i += 1;
    }
    assert(arr@ =~= input@);
    Salt::Salt(arr)
}

impl AsSalt for &[u8] {
    open spec fn salt_bytes(&self) -> Seq<u8> {
        self@
    }

    fn as_salt(&self) -> (r: Salt) {
        slice_to_salt(self)
    }

    fn as_salt_safe(&self) -> (r: Result<Salt, String>) {
        if self.len() != 32 {
            Err("Salt input must be exactly 32 bytes".to_owned())
        } else {
            Ok(slice_to_salt(self))
        }
    }
}

} // verus!
