//! Nonces, the draws they are made from, and identifiers bound to a machine.

use crate::byteops::wadd8;
use crate::byteops::wrapping_add8;
use crate::digest::blake3_digest;
use crate::digest::blake3_hash;
use crate::digest::hash_hex;
use crate::digest::hex_text;
use crate::entropy::device_name;
use crate::entropy::distro_name;
use crate::entropy::os_random_bytes;
use crate::entropy::random_below;
use crate::entropy::real_name;
use crate::entropy::thread_random_bytes;
use crate::entropy::user_name;
use vstd::prelude::*;
use vstd::slice::slice_to_vec;
use vstd::string::StringSliceAdditionalSpecFns;

verus! {

/// A 32-byte nonce, tagged with the way it was made. The tag plays no part
/// in the transforms, which read the 32 bytes only.
#[derive(Clone, Copy, PartialEq, Eq, Debug)]
pub enum NonceData {
    TaggedNonce([u8; 32]),
    HashedNonce([u8; 32]),
    Nonce([u8; 32]),
    MachineNonce([u8; 32]),
}

impl View for NonceData {
    type V = Seq<u8>;

    open spec fn view(&self) -> Seq<u8> {
        match self {
            NonceData::Nonce(n) => n@,
            NonceData::HashedNonce(n) => n@,
            NonceData::TaggedNonce(n) => n@,
            NonceData::MachineNonce(n) => n@,
        }
    }
}

impl NonceData {
    /// The 32 bytes of the nonce.
    pub fn as_bytes(&self) -> (r: &[u8; 32])
        ensures
            r@ == self@,
    {
        match self {
            NonceData::Nonce(n) => n,
            NonceData::HashedNonce(n) => n,
            NonceData::TaggedNonce(n) => n,
            NonceData::MachineNonce(n) => n,
        }
    }

    /// The 32 bytes of the nonce, copied.
    pub fn to_vec(&self) -> (r: Vec<u8>)
        ensures
            r@ == self@,
    {
        slice_to_vec(self.as_bytes().as_slice())
    }
}

/// The 32 bytes of `input` as an array.
pub fn to_array_32(input: &[u8]) -> (r: [u8; 32])
    requires
        input@.len() == 32,
    ensures
        r@ == input@,
{
    let mut arr: [u8; 32] = [0u8;32];
    let mut i: usize = 0;
    while i < 32
        invariant
            i <= 32,
            input@.len() == 32,
            forall|k: int| 0 <= k < i ==> arr@[k] == input@[k],
        decreases 32 - i,
    {
        arr[i] = input[i];
        i += 1;
    }
    assert(arr@ =~= input@);
    arr
}

/// A plain nonce with the bytes of `input`, which must be 32; any other
/// length is refused.
pub fn slice_to_nonce(input: &[u8]) -> (r: Result<NonceData, String>)
    ensures
        r is Ok <==> input@.len() == 32,
        r matches Ok(nonce) ==> nonce is Nonce && nonce@ == input@,
        r matches Err(m) ==> m@ == "Nonce length must be 32 bytes"@,
{
    if input.len() != 32 {
        Err("Nonce length must be 32 bytes".to_owned())
    } else {
        Ok(NonceData::Nonce(to_array_32(input)))
    }
}

/// Reading a byte string as a nonce.
pub trait AsNonce {
    /// The bytes that are read.
    spec fn nonce_bytes(&self) -> Seq<u8>;

    /// The plain nonce with these bytes, for a string of exactly 32 bytes.
    fn as_nonce(&self) -> (r: NonceData)
        requires
            self.nonce_bytes().len() == 32,
        ensures
            r is Nonce,
            r@ == self.nonce_bytes(),
    ;

    /// The plain nonce with these bytes, or an error for a string of another length.
    fn as_nonce_safe(&self) -> (r: Result<NonceData, String>)
        ensures
            r is Ok <==> self.nonce_bytes().len() == 32,
            r matches Ok(nonce) ==> nonce is Nonce && nonce@ == self.nonce_bytes(),
            r matches Err(m) ==> m@ == "Nonce length must be 32 bytes"@,
    ;
}

impl AsNonce for [u8] {
    open spec fn nonce_bytes(&self) -> Seq<u8> {
        self@
    }

    fn as_nonce(&self) -> (r: NonceData) {
        NonceData::Nonce(to_array_32(self))
    }

    fn as_nonce_safe(&self) -> (r: Result<NonceData, String>) {
        slice_to_nonce(self)
    }
}

impl AsNonce for Vec<u8> {
    open spec fn nonce_bytes(&self) -> Seq<u8> {
        self@
    }

    fn as_nonce(&self) -> (r: NonceData) {
        NonceData::Nonce(to_array_32(self.as_slice()))
    }

    fn as_nonce_safe(&self) -> (r: Result<NonceData, String>) {
        slice_to_nonce(self.as_slice())
    }
}

/// 32 random bytes, tagged with the generator they came from.
pub enum Rng {
    OsRngNonce([u8; 32]),
    TaggedOsRngNonce([u8; 32]),
    ThreadRngNonce([u8; 32]),
}

impl View for Rng {
    type V = Seq<u8>;

    open spec fn view(&self) -> Seq<u8> {
        match self {
            Rng::OsRngNonce(a) => a@,
            Rng::TaggedOsRngNonce(a) => a@,
            Rng::ThreadRngNonce(a) => a@,
        }
    }
}

/// Byte `i` of a tagged draw: the raw byte plus the tag byte at `i` modulo
/// the tag's length, masked with `i`; the sum is taken modulo 256.
pub open spec fn tagged_byte(raw: Seq<u8>, tag: Seq<u8>, i: int) -> u8 {
    wadd8(raw[i], tag[i % (tag.len() as int)] ^ (i as u8))
}

/// A raw draw with a tag worked into every byte.
pub open spec fn spec_tag_bytes(raw: Seq<u8>, tag: Seq<u8>) -> Seq<u8> {
    Seq::new(32, |i: int| tagged_byte(raw, tag, i))
}

/// Works `tag` into the 32 bytes of a raw draw.
pub fn tag_bytes(raw: &[u8; 32], tag: &[u8]) -> (r: [u8; 32])
    requires
        tag@.len() > 0,
    ensures
        r@ == spec_tag_bytes(raw@, tag@),
{
    let mut out: [u8; 32] = [0u8;32];
    let mut i: usize = 0;
    while i < 32
        invariant
            i <= 32,
            tag@.len() > 0,
            forall|k: int| 0 <= k < i ==> out@[k] == tagged_byte(raw@, tag@, k),
        decreases 32 - i,
    {
        out[i] = wrapping_add8(raw[i], tag[i % tag.len()] ^ (i as u8));
        i += 1;
    }
    assert(out@ =~= spec_tag_bytes(raw@, tag@));
    out
}

impl Rng {
    /// 32 bytes from the thread-local generator.
    pub fn thread_rng() -> (r: Self)
        ensures
            r is ThreadRngNonce,
    {
        Rng::ThreadRngNonce(thread_random_bytes())
    }

    /// 32 bytes from the operating system's generator.
    pub fn osrng() -> (r: Self)
        ensures
            r is OsRngNonce,
    {
        Rng::OsRngNonce(os_random_bytes())
    }

    /// 32 bytes from the operating system's generator with `tag` worked in.
    pub fn tagged_osrng(tag: &[u8]) -> (r: Self)
        requires
            tag@.len() > 0,
        ensures
            r is TaggedOsRngNonce,
            exists|raw: Seq<u8>| r@ == spec_tag_bytes(raw, tag@),
    {
        let raw: [u8; 32] = os_random_bytes();
        Rng::TaggedOsRngNonce(tag_bytes(&raw, tag))
    }

    /// The 32 bytes of the draw.
    pub fn as_bytes(&self) -> (r: &[u8; 32])
        ensures
            r@ == self@,
    {
        match self {
            Rng::OsRngNonce(a) => a,
            Rng::TaggedOsRngNonce(a) => a,
            Rng::ThreadRngNonce(a) => a,
        }
    }

    /// The 32 bytes of the draw, copied.
    pub fn to_vec(&self) -> (r: Vec<u8>)
        ensures
            r@ == self@,
    {
        slice_to_vec(self.as_bytes().as_slice())
    }
}

/// The bytes that identify a machine and a phrase: user name, device name
/// and real name, then the distribution where one is given, then the phrase.
pub open spec fn machine_phrase_bytes(
    user: Seq<u8>,
    device: Seq<u8>,
    full: Seq<u8>,
    distro: Option<Seq<u8>>,
    phrase: Seq<u8>,
) -> Seq<u8> {
    match distro {
        Some(d) => user + device + full + d + phrase,
        None => user + device + full + phrase,
    }
}

/// The identifier of a machine and a phrase: the lower-case hexadecimal text
/// of the hash of their bytes.
pub fn machine_phrase_id(
    user: &str,
    device: &str,
    full: &str,
    distro: Option<&str>,
    phrase: &str,
) -> (r: String)
    ensures
        r@ == hex_text(
            blake3_digest(
                machine_phrase_bytes(
                    user.spec_bytes(),
                    device.spec_bytes(),
                    full.spec_bytes(),
                    match distro {
                        Some(d) => Some(d.spec_bytes()),
                        None => None,
                    },
                    phrase.spec_bytes(),
                ),
            )@,
        ),
{
    let mut data: Vec<u8> = Vec::new();
    data.extend_from_slice(user.as_bytes());
    data.extend_from_slice(device.as_bytes());
    data.extend_from_slice(full.as_bytes());
    if let Some(d) = distro {
        data.extend_from_slice(d.as_bytes());
    }
    data.extend_from_slice(phrase.as_bytes());
    assert(data@ =~= machine_phrase_bytes(
        user.spec_bytes(),
        device.spec_bytes(),
        full.spec_bytes(),
        match distro {
            Some(d) => Some(d.spec_bytes()),
            None => None,
        },
        phrase.spec_bytes(),
    ));
    let hash = blake3_hash(data.as_slice());
    hash_hex(&hash)
}

/// The identifier for the names of a machine and a phrase; the distribution
/// counts only where `locked` is set.
pub open spec fn machine_id(
    user: Seq<u8>,
    device: Seq<u8>,
    full: Seq<u8>,
    distro: Seq<u8>,
    locked: bool,
    phrase: Seq<u8>,
) -> Seq<char> {
    hex_text(
        blake3_digest(
            machine_phrase_bytes(
                user,
                device,
                full,
                if locked {
                    Some(distro)
                } else {
                    None
                },
                phrase,
            ),
        )@,
    )
}

/// Deriving an identifier from a phrase and the machine it is used on.
pub trait MachineRng {
    /// The bytes of the phrase.
    spec fn phrase_bytes(&self) -> Seq<u8>;

    /// The identifier of this phrase on this machine, with the operating
    /// system distribution taken in where `distro_lock` is set. The names come
    /// from the machine; the identifier is the hash text for whatever they are.
    fn machine_rng(&self, distro_lock: bool) -> (r: String)
        ensures
            exists|user: Seq<u8>, device: Seq<u8>, full: Seq<u8>, distro: Seq<u8>|
                r@ == #[trigger] machine_id(
                    user,
                    device,
                    full,
                    distro,
                    distro_lock,
                    self.phrase_bytes(),
                ),
    ;
}

impl MachineRng for str {
    open spec fn phrase_bytes(&self) -> Seq<u8> {
        self.spec_bytes()
    }

    fn machine_rng(&self, distro_lock: bool) -> (r: String) {
        let user = user_name();
        let device = device_name();
        let full = real_name();
        let user_text = user.as_str();
        let device_text = device.as_str();
        let full_text = full.as_str();
        if distro_lock {
            let distro = distro_name();
            let distro_text = distro.as_str();
            let id = machine_phrase_id(user_text, device_text, full_text, Some(distro_text), self);
            assert(id@ == machine_id(
                user_text.spec_bytes(),
                device_text.spec_bytes(),
                full_text.spec_bytes(),
                distro_text.spec_bytes(),
                true,
                self.phrase_bytes(),
            ));
            id
        } else {
            let id = machine_phrase_id(user_text, device_text, full_text, None, self);
            assert(id@ == machine_id(
                user_text.spec_bytes(),
                device_text.spec_bytes(),
                full_text.spec_bytes(),
                Seq::<u8>::empty(),
                false,
                self.phrase_bytes(),
            ));
            id
        }
    }
}

/// The value after `rounds` links of the hash chain that starts at `start`:
/// link `k` hashes the value before it followed by the byte `k`.
pub open spec fn hash_chain(start: Seq<u8>, rounds: nat) -> Seq<u8>
    decreases rounds,
{
    if rounds == 0 {
        start
    } else {
        blake3_digest(hash_chain(start, (rounds - 1) as nat).push((rounds - 1) as u8))@
    }
}

/// Byte `i` of a stirred nonce: the byte of the draw plus that byte modulo
/// `i + 1` plus `number`, modulo 256.
pub open spec fn stirred_byte(raw: Seq<u8>, number: u8, i: int) -> u8 {
    wadd8(raw[i], wadd8((raw[i] as int % (i + 1)) as u8, number))
}

/// A draw stirred with a number.
pub open spec fn spec_stir(raw: Seq<u8>, number: u8) -> Seq<u8> {
    Seq::new(32, |i: int| stirred_byte(raw, number, i))
}

/// The bytes that a machine nonce hashes: user name, device name, full name
/// and distribution, then the bytes of the draw where one is given.
pub open spec fn machine_nonce_bytes(
    user: Seq<u8>,
    device: Seq<u8>,
    full: Seq<u8>,
    distro: Seq<u8>,
    draw: Option<Seq<u8>>,
) -> Seq<u8> {
    match draw {
        Some(bytes) => user + device + full + distro + bytes,
        None => user + device + full + distro,
    }
}

/// The view of an optional draw.
pub open spec fn draw_bytes(osrng: Option<Rng>) -> Option<Seq<u8>> {
    match osrng {
        Some(rng) => Some(rng@),
        None => None,
    }
}

/// The makers of nonces.
pub struct Nonce;

impl Nonce {
    /// The end of the hash chain of `number + 1` links from `start`.
    pub fn chain_hash(start: &[u8; 32], number: u8) -> (r: [u8; 32])
        ensures
            r@ == hash_chain(start@, (number + 1) as nat),
    {
        let mut nonce: [u8; 32] = *start;
        let mut i: u16 = 0;
        while i <= number as u16
            invariant
                i <= number + 1,
                nonce@ == hash_chain(start@, i as nat),
            decreases number + 1 - i,
        {
            let mut mix = slice_to_vec(nonce.as_slice());
            mix.push(i as u8);
            nonce = blake3_hash(mix.as_slice());
            i += 1;
        }
        nonce
    }

    /// The hashed nonce of a draw for a chain of `number + 1` links.
    pub fn hashed_nonce_with(osrng: &Rng, number: u8) -> (r: NonceData)
        ensures
            r is HashedNonce,
            r@ == hash_chain(osrng@, (number + 1) as nat),
    {
        NonceData::HashedNonce(Self::chain_hash(osrng.as_bytes(), number))
    }

    /// A hashed nonce: the draw run through a hash chain whose length, at
    /// most 255 links, is drawn at random.
    pub fn hashed_nonce(osrng: Rng) -> (r: NonceData)
        ensures
            r is HashedNonce,
            exists|links: nat| 1 <= links <= 255 && r@ == hash_chain(osrng@, links),
    {
        let number = random_below(255);
        let out = Self::hashed_nonce_with(&osrng, number);
        assert(out@ == hash_chain(osrng@, (number + 1) as nat));
        out
    }

    /// The tagged nonce of a draw for a chain of `number + 1` links: the hash
    /// of the end of the chain followed by the tag.
    pub fn tagged_nonce_with(osrng: &Rng, tag: &[u8], number: u8) -> (r: NonceData)
        ensures
            r is TaggedNonce,
            r@ == blake3_digest(hash_chain(osrng@, (number + 1) as nat) + tag@)@,
    {
        let nonce = Self::chain_hash(osrng.as_bytes(), number);
        let mut joined = slice_to_vec(nonce.as_slice());
        joined.extend_from_slice(tag);
        assert(joined@ =~= hash_chain(osrng@, (number + 1) as nat) + tag@);
        NonceData::TaggedNonce(blake3_hash(joined.as_slice()))
    }

    /// A tagged nonce: the draw run through a hash chain of random length,
    /// then hashed together with the tag.
    pub fn tagged_nonce(osrng: Rng, tag: &[u8]) -> (r: NonceData)
        ensures
            r is TaggedNonce,
            exists|links: nat|
                1 <= links <= 255 && r@ == blake3_digest(hash_chain(osrng@, links) + tag@)@,
    {
        let number = random_below(255);
        let out = Self::tagged_nonce_with(&osrng, tag, number);
        assert(out@ == blake3_digest(hash_chain(osrng@, (number + 1) as nat) + tag@)@);
        out
    }

    /// The machine nonce for the given names and an optional draw.
    pub fn machine_nonce_from(
        user: &str,
        device: &str,
        full: &str,
        distro: &str,
        osrng: Option<Rng>,
    ) -> (r: NonceData)
        ensures
            r is MachineNonce,
            r@ == blake3_digest(
                machine_nonce_bytes(
                    user.spec_bytes(),
                    device.spec_bytes(),
                    full.spec_bytes(),
                    distro.spec_bytes(),
                    draw_bytes(osrng),
                ),
            )@,
    {
        let mut all_data: Vec<u8> = Vec::new();
        all_data.extend_from_slice(user.as_bytes());
        all_data.extend_from_slice(device.as_bytes());
        all_data.extend_from_slice(full.as_bytes());
        all_data.extend_from_slice(distro.as_bytes());
        if let Some(rng) = osrng {
            all_data.extend_from_slice(rng.as_bytes().as_slice());
        }
        assert(all_data@ =~= machine_nonce_bytes(
            user.spec_bytes(),
            device.spec_bytes(),
            full.spec_bytes(),
            distro.spec_bytes(),
            draw_bytes(osrng),
        ));
        NonceData::MachineNonce(blake3_hash(all_data.as_slice()))
    }

    /// A machine nonce: the hash of the names of this machine and its user
    /// and of the draw where one is given. The names come from the machine;
    /// the nonce is the hash for whatever they are.
    pub fn machine_nonce(osrng: Option<Rng>) -> (r: NonceData)
        ensures
            r is MachineNonce,
            exists|user: Seq<u8>, device: Seq<u8>, full: Seq<u8>, distro: Seq<u8>|
                r@ == blake3_digest(
                    machine_nonce_bytes(user, device, full, distro, draw_bytes(osrng)),
                )@,
    {
        let user = user_name();
        let device = device_name();
        let full = real_name();
        let distro = distro_name();
        Self::machine_nonce_from(
            user.as_str(),
            device.as_str(),
            full.as_str(),
            distro.as_str(),
            osrng,
        )
    }

    /// The plain nonce of a draw stirred with `number`.
    pub fn nonce_with(osrng: &Rng, number: u8) -> (r: NonceData)
        ensures
            r is Nonce,
            r@ == spec_stir(osrng@, number),
    {
        let raw = osrng.as_bytes();
        let mut out: [u8; 32] = [0u8;32];
        let mut i: usize = 0;
        while i < 32
            invariant
                i <= 32,
                raw@ == osrng@,
                forall|k: int| 0 <= k < i ==> out@[k] == stirred_byte(raw@, number, k),
            decreases 32 - i,
        {
            let add = ((raw[i % 32] as usize) % (i + 1)) as u8;
            out[i] = wrapping_add8(raw[i], wrapping_add8(add, number));
            i += 1;
        }
        assert(out@ =~= spec_stir(osrng@, number));
        NonceData::Nonce(out)
    }

    /// A plain nonce: the draw stirred with a number below 255 drawn at random.
    pub fn nonce(osrng: Rng) -> (r: NonceData)
        ensures
            r is Nonce,
            exists|number: u8| number < 255 && r@ == spec_stir(osrng@, number),
    {
        let number = random_below(255);
        Self::nonce_with(&osrng, number)
    }
}

} // verus!
