//! The pipeline: key derivation, the order of the stages, the MAC, and the two halves
//! of each direction around the shift stage.

use crate::columns::inverse_triangle_mix_columns_in;
use crate::columns::spec_inverse_triangle_mix;
use crate::columns::spec_triangle_mix;
use crate::columns::triangle_mix_columns_in;
use crate::config::Config;
use crate::digest::blake3_derive_key;
use crate::digest::blake3_derived_key;
use crate::digest::blake3_digest;
use crate::digest::blake3_hash;
use crate::digest::blake3_keyed_digest;
use crate::digest::blake3_keyed_hash;
use crate::digest::sha3_512;
use crate::digest::sha3_512_digest;
use crate::errors::Errors;
use crate::errors::Rejection;
use crate::frame::BlobVersion;
use crate::frame::assemble;
use crate::frame::detect_version;
use crate::frame::min_blob_len;
use crate::frame::spec_after_tag;
use crate::frame::spec_assemble;
use crate::frame::spec_detect_version;
use crate::frame::spec_sealed_tag;
use crate::frame::spec_split_trailer;
use crate::frame::split_tag;
use crate::frame::split_trailer;
use crate::frame::version_key;
use crate::frame::version_key_bytes;
use crate::frame::version_tag;
use crate::frame::version_tag_bytes;
use crate::galois::GaloisField;
use crate::kdf::derive_password_key;
use crate::kdf::salt_view;
use crate::kdf::spec_password_key;
use crate::kdf::verify_keys_constant_time;
use crate::mix::mix_blocks_in;
use crate::mix::spec_mix_blocks;
use crate::mix::spec_unmix_blocks;
use crate::mix::unmix_blocks_in;
use crate::nonce::NonceData;
use crate::nonce::to_array_32;
use crate::parallel::concat_bytes;
use crate::parallel::make_pool;
use crate::rounds::apply_rounds_in;
use crate::rounds::spec_rounds;
use crate::rounds::spec_unrounds;
use crate::rounds::undo_rounds_in;
use crate::salt::Salt;
use crate::salt::slice_to_salt;
use crate::sbox::generate_dynamic_sbox;
use crate::sbox::in_s_bytes_in;
use crate::sbox::sbox_seed;
use crate::sbox::spec_inverse_box;
use crate::sbox::spec_sbox;
use crate::sbox::spec_substitute;
use crate::sbox::substitute_in;
use crate::secrets::ct_eq_bytes;
use crate::secrets::wipe_array;
use crate::secrets::wipe_vec;
use crate::shift::SIZE_CEILING;
use crate::shift::dynamic_shift_in;
use crate::shift::dynamic_unshift_in;
use crate::shift::spec_dynamic_shift;
use crate::shift::spec_dynamic_unshift;
use crate::xor::spec_xor_decrypt;
use crate::xor::spec_xor_encrypt;
use crate::xor::xor_decrypt_in;
use crate::xor::xor_encrypt_in;
use vstd::prelude::*;
use vstd::slice::slice_subrange;
use vstd::slice::slice_to_vec;

verus! {

/// The first key of a call: the keyed-hash derivation with the password as
/// context and the nonce as key material.
pub open spec fn derived_key(password: Seq<char>, nonce: Seq<u8>) -> Seq<u8> {
    blake3_derived_key(password, nonce)@
}

/// The password key of a call: Argon2 over the first key, salted with the
/// custom salt where one is given and with the nonce otherwise.
pub open spec fn password_key(
    password: Seq<char>,
    nonce: Seq<u8>,
    salt: Option<Seq<u8>>,
) -> Seq<u8> {
    spec_password_key(derived_key(password, nonce), nonce, salt)
}

/// The substitution box of a call.
pub open spec fn payload_box(nonce: Seq<u8>, key: Seq<u8>, config: Config) -> Seq<u8> {
    spec_sbox(sbox_seed(nonce, key, config.sbox))
}

/// The payload as it enters the shift stage: substituted, mixed, and run
/// through the column mixer.
pub open spec fn spec_before_shift(
    data: Seq<u8>,
    nonce: Seq<u8>,
    key: Seq<u8>,
    config: Config,
) -> Seq<u8> {
    spec_triangle_mix(
        config.gf_poly.spec_value(),
        spec_mix_blocks(spec_substitute(data, payload_box(nonce, key, config)), nonce, key),
    )
}

/// The body of a blob, from the payload as it leaves the shift stage:
/// substituted once more, then taken through the rounds `0` to `config.rounds`.
pub open spec fn spec_body(
    shifted: Seq<u8>,
    nonce: Seq<u8>,
    key: Seq<u8>,
    config: Config,
) -> Seq<u8> {
    spec_rounds(
        nonce,
        key,
        spec_substitute(shifted, payload_box(nonce, key, config)),
        (config.rounds + 1) as nat,
    )
}

/// The MAC of the current version: SHA3-512 over the body followed by the
/// hash of the plaintext after one keyed XOR pass under the password key.
pub open spec fn spec_mac(body: Seq<u8>, nonce: Seq<u8>, key: Seq<u8>, plain: Seq<u8>) -> Seq<u8> {
    sha3_512_digest(body + blake3_digest(spec_xor_encrypt(nonce, key, plain))@)@
}

/// The MAC of version `0x2`: the BLAKE3 hash, keyed with the hash of the
/// body, of the plaintext after one keyed XOR pass under the password key.
pub open spec fn spec_legacy_mac(
    body: Seq<u8>,
    nonce: Seq<u8>,
    key: Seq<u8>,
    plain: Seq<u8>,
) -> Seq<u8> {
    blake3_keyed_digest(blake3_digest(body)@, spec_xor_encrypt(nonce, key, plain))@
}

/// The MAC that a version asks for.
pub open spec fn spec_version_mac(
    version: BlobVersion,
    body: Seq<u8>,
    nonce: Seq<u8>,
    key: Seq<u8>,
    plain: Seq<u8>,
) -> Seq<u8> {
    match version {
        BlobVersion::Current => spec_mac(body, nonce, key, plain),
        BlobVersion::Legacy => spec_legacy_mac(body, nonce, key, plain),
    }
}

/// The encrypted version tag of a blob: the tag after one keyed XOR pass
/// under the fixed version key.
pub open spec fn spec_sealed_version(nonce: Seq<u8>) -> Seq<u8> {
    spec_xor_encrypt(nonce, version_key(), version_tag())
}

/// The blob for a payload that left the shift stage as `shifted`.
pub open spec fn spec_seal(
    shifted: Seq<u8>,
    data: Seq<u8>,
    nonce: Seq<u8>,
    key: Seq<u8>,
    config: Config,
    salt: Option<Seq<u8>>,
    wrap_all: bool,
) -> Seq<u8> {
    let body = spec_body(shifted, nonce, key, config);
    spec_assemble(
        nonce,
        salt,
        wrap_all,
        spec_sealed_version(nonce),
        body,
        spec_mac(body, nonce, key, data),
    )
}

/// The blob that encrypting `data` gives.
pub open spec fn spec_encrypt(
    password: Seq<char>,
    data: Seq<u8>,
    nonce: Seq<u8>,
    config: Config,
    salt: Option<Seq<u8>>,
    wrap_all: bool,
) -> Seq<u8> {
    let key = password_key(password, nonce, salt);
    spec_seal(
        spec_dynamic_shift(spec_before_shift(data, nonce, key, config), nonce, key),
        data,
        nonce,
        key,
        config,
        salt,
        wrap_all,
    )
}

/// The first key of a call.
pub fn derive_first_key(password: &str, nonce: &[u8; 32]) -> (r: [u8; 32])
    ensures
        r@ == derived_key(password@, nonce@),
{
    blake3_derive_key(password, nonce.as_slice())
}

/// Derives the password key from the first key and overwrites the first key
/// with zeros. With a 32-byte nonce the derivation has no failing input.
pub fn derive_from_first_key(
    first: &mut [u8; 32],
    nonce: &[u8; 32],
    custom_salt: Option<Salt>,
) -> (r: Result<Vec<u8>, Errors>)
    ensures
        r matches Ok(key) && key@ == spec_password_key(
            old(first)@,
            nonce@,
            salt_view(custom_salt),
        ) && key@.len() == 32,
        forall|i: int| 0 <= i < 32 ==> #[trigger] final(first)@[i] == 0u8,
{
    let out = derive_password_key(first.as_slice(), nonce.as_slice(), custom_salt);
    wipe_array(first);
    out
}

/// Derives the password key of a call. With a 32-byte nonce the derivation
/// has no failing input.
pub fn derive_keys(
    password: &str,
    nonce: &[u8; 32],
    custom_salt: Option<Salt>,
) -> (r: Result<Vec<u8>, Errors>)
    ensures
        r matches Ok(key) && key@ == password_key(password@, nonce@, salt_view(custom_salt))
            && key@.len() == 32,
{
    let mut first = derive_first_key(password, nonce);
    derive_from_first_key(&mut first, nonce, custom_salt)
}

/// An encryption that has reached the shift stage: the password key and the
/// payload as it enters the stage.
pub struct SealStage {
    pub key: Vec<u8>,
    pub columns: Vec<u8>,
}

/// Takes an encryption up to the shift stage, on the workers of `pool`.
pub fn encrypt_stage_in(
    pool: &rayon::ThreadPool,
    password: &str,
    data: &[u8],
    nonce: NonceData,
    config: Config,
    custom_salt: Option<Salt>,
) -> (r: Result<SealStage, Errors>)
    ensures
        r matches Ok(stage) && stage.key@ == password_key(
            password@,
            nonce@,
            salt_view(custom_salt),
        ) && stage.key@.len() == 32 && stage.columns@ == spec_before_shift(
            data@,
            nonce@,
            stage.key@,
            config,
        ) && stage.columns@.len() == data@.len(),
{
    let nonce_bytes = nonce.as_bytes();
    let key = match derive_keys(password, nonce_bytes, custom_salt) {
        Ok(key) => key,
        Err(e) => {
            return Err(e);
        },
    };
    let mut s_block = generate_dynamic_sbox(nonce_bytes.as_slice(), key.as_slice(), config);
    let mut boxed = substitute_in(pool, data, &s_block);
    wipe_array(&mut s_block);
    let mut mixed = mix_blocks_in(pool, boxed.as_slice(), nonce_bytes.as_slice(), key.as_slice());
    wipe_vec(&mut boxed);
    let field = GaloisField::new(config.gf_poly.value());
    let columns = triangle_mix_columns_in(pool, mixed.as_slice(), &field);
    wipe_vec(&mut mixed);
    Ok(SealStage { key, columns })
}

/// Takes an encryption from the shift stage to the blob, on the workers of
/// `pool`: `shifted` is what the shift stage made of `stage.columns`. Only an
/// empty `data` is refused. Whatever the outcome, the password key and the
/// payload in `stage` and in `shifted` are overwritten and left empty.
pub fn encrypt_finish_in(
    pool: &rayon::ThreadPool,
    stage: &mut SealStage,
    shifted: &mut Vec<u8>,
    data: &[u8],
    nonce: NonceData,
    config: Config,
    custom_salt: Option<Salt>,
    wrap_all: bool,
) -> (r: Result<Vec<u8>, Errors>)
    requires
        old(shifted)@.len() < SIZE_CEILING,
        old(stage).key@.len() == 32,
    ensures
        r is Ok <==> data@.len() > 0,
        r matches Ok(blob) ==> blob@ == spec_seal(
            old(shifted)@,
            data@,
            nonce@,
            old(stage).key@,
            config,
            salt_view(custom_salt),
            wrap_all,
        ),
        r matches Err(e) ==> e.reports(Rejection::EmptyPayload),
        final(stage).key@.len() == 0,
        final(stage).columns@.len() == 0,
        final(shifted)@.len() == 0,
{
    let nonce_bytes = nonce.as_bytes();
    wipe_vec(&mut stage.columns);
    let version_key = version_key_bytes();
    let tag = version_tag_bytes();
    let sealed_tag = xor_encrypt_in(
        pool,
        nonce_bytes.as_slice(),
        version_key.as_slice(),
        tag.as_slice(),
    );
    let mut s_block = generate_dynamic_sbox(nonce_bytes.as_slice(), stage.key.as_slice(), config);
    let mut boxed = substitute_in(pool, shifted.as_slice(), &s_block);
    wipe_array(&mut s_block);
    wipe_vec(shifted);
    let body = apply_rounds_in(
        pool,
        nonce_bytes,
        stage.key.as_slice(),
        boxed.as_slice(),
        config.rounds,
    );
    wipe_vec(&mut boxed);
    if data.len() == 0 {
        wipe_vec(&mut stage.key);
        return Err(Errors::from_rejection(Rejection::EmptyPayload));
    }
    let mut masked = xor_encrypt_in(pool, nonce_bytes.as_slice(), stage.key.as_slice(), data);
    let inner = blake3_hash(masked.as_slice());
    wipe_vec(&mut masked);
    let mac_input = concat_bytes(body.as_slice(), inner.as_slice());
    let mac = sha3_512(mac_input.as_slice());
    wipe_vec(&mut stage.key);
    let blob = match custom_salt {
        Some(salt) => assemble(
            nonce_bytes.as_slice(),
            Some(salt.as_bytes()),
            wrap_all,
            sealed_tag.as_slice(),
            body.as_slice(),
            mac.as_slice(),
        ),
        None => assemble(
            nonce_bytes.as_slice(),
            None,
            wrap_all,
            sealed_tag.as_slice(),
            body.as_slice(),
            mac.as_slice(),
        ),
    };
    Ok(blob)
}

/// Encrypts `data` on the workers of `pool`. Only an empty `data` is refused.
pub fn encrypt_in(
    pool: &rayon::ThreadPool,
    password: &str,
    data: &[u8],
    nonce: NonceData,
    config: Config,
    custom_salt: Option<Salt>,
    wrap_all: bool,
) -> (r: Result<Vec<u8>, Errors>)
    requires
        data@.len() < SIZE_CEILING,
    ensures
        r is Ok <==> data@.len() > 0,
        r matches Ok(blob) ==> blob@ == spec_encrypt(
            password@,
            data@,
            nonce@,
            config,
            salt_view(custom_salt),
            wrap_all,
        ),
        r matches Err(e) ==> e.reports(Rejection::EmptyPayload),
{
    let mut stage = match encrypt_stage_in(pool, password, data, nonce, config, custom_salt) {
        Ok(stage) => stage,
        Err(e) => {
            return Err(e);
        },
    };
    let mut shifted = dynamic_shift_in(
        pool,
        stage.columns.as_slice(),
        nonce.as_bytes().as_slice(),
        stage.key.as_slice(),
    );
    encrypt_finish_in(pool, &mut stage, &mut shifted, data, nonce, config, custom_salt, wrap_all)
}

/// Encrypts `data` under a password, a nonce and the settings of `config`
/// into a blob: the nonce where `wrap_all` is set, the encrypted version tag,
/// the body, the MAC, and where `wrap_all` is set the salt or the nonce again.
///
/// Every stage runs on a pool of `config.thread_num` workers, the shift
/// stage too: `config.device` leaves no trace in a blob, and a caller that
/// runs the stage on a device does so between [`encrypt_stage_in`] and
/// [`encrypt_finish_in`]. The call fails with `ThreadPool` where the pool
/// cannot be built. Otherwise only an empty `data` is refused.
pub fn encrypt(
    password: &str,
    data: &[u8],
    nonce: NonceData,
    config: Config,
    custom_salt: Option<Salt>,
    wrap_all: bool,
) -> (r: Result<Vec<u8>, Errors>)
    requires
        data@.len() < SIZE_CEILING,
    ensures
        r matches Ok(blob) ==> data@.len() > 0 && blob@ == spec_encrypt(
            password@,
            data@,
            nonce@,
            config,
            salt_view(custom_salt),
            wrap_all,
        ),
        r matches Err(e) ==> e is ThreadPool || (data@.len() == 0 && e.reports(
            Rejection::EmptyPayload,
        )),
{
    match make_pool(config.thread_num) {
        Ok(pool) => encrypt_in(&pool, password, data, nonce, config, custom_salt, wrap_all),
        Err(e) => Err(e),
    }
}

/// Whether a decryption reads a blob as wrapped: it does where no nonce is
/// handed in, and where `wrap_all` is set.
pub open spec fn spec_wrapped(nonce: Option<NonceData>, wrap_all: bool) -> bool {
    nonce is None || wrap_all
}

/// The nonce of a decryption: the one handed in, or the first 32 bytes of the blob.
pub open spec fn spec_blob_nonce(blob: Seq<u8>, nonce: Option<NonceData>) -> Seq<u8> {
    match nonce {
        Some(n) => n@,
        None => blob.subrange(0, 32),
    }
}

/// The salt of a decryption: the one handed in with the nonce, or the last
/// 32 bytes of the blob where no nonce is handed in.
pub open spec fn spec_blob_salt(
    blob: Seq<u8>,
    nonce: Option<NonceData>,
    custom_salt: Option<Salt>,
) -> Option<Seq<u8>> {
    match nonce {
        Some(_) => salt_view(custom_salt),
        None => Some(blob.subrange(blob.len() - 32, blob.len() as int)),
    }
}

/// A decryption that has reached the inverse shift stage, as values: the
/// password key, the nonce, the body and the MAC of the blob, its version, and
/// the payload as it enters the stage.
pub struct OpenView {
    pub key: Seq<u8>,
    pub nonce: Seq<u8>,
    pub body: Seq<u8>,
    pub mac: Seq<u8>,
    pub version: BlobVersion,
    pub unboxed: Seq<u8>,
}

/// A decryption that has reached the inverse shift stage.
pub struct OpenStage {
    pub key: Vec<u8>,
    pub nonce: [u8; 32],
    pub body: Vec<u8>,
    pub mac: Vec<u8>,
    pub version: BlobVersion,
    pub unboxed: Vec<u8>,
}

impl View for OpenStage {
    type V = OpenView;

    open spec fn view(&self) -> OpenView {
        OpenView {
            key: self.key@,
            nonce: self.nonce@,
            body: self.body@,
            mac: self.mac@,
            version: self.version,
            unboxed: self.unboxed@,
        }
    }
}

/// Reading a blob up to the inverse shift stage: the frame is taken apart,
/// the version decided from the two readings of the version tag, the rounds
/// undone from `config.rounds` down to `0`, and the last substitution undone.
pub open spec fn spec_open(
    password: Seq<char>,
    blob: Seq<u8>,
    nonce: Option<NonceData>,
    config: Config,
    custom_salt: Option<Salt>,
    wrap_all: bool,
) -> Result<OpenView, Rejection> {
    if blob.len() < min_blob_len() {
        Err(Rejection::TooShort)
    } else {
        let n = spec_blob_nonce(blob, nonce);
        let key = password_key(password, n, spec_blob_salt(blob, nonce, custom_salt));
        let wrapped = spec_wrapped(nonce, wrap_all);
        let sealed = spec_sealed_tag(blob, wrapped);
        match spec_detect_version(
            spec_xor_decrypt(n, version_key(), sealed),
            spec_xor_decrypt(n, key, sealed),
        ) {
            Err(why) => Err(why),
            Ok(version) => match spec_split_trailer(
                spec_after_tag(blob, wrapped),
                version,
                wrapped,
            ) {
                Err(why) => Err(why),
                Ok(parts) => Ok(
                    OpenView {
                        key,
                        nonce: n,
                        body: parts.0,
                        mac: parts.1,
                        version,
                        unboxed: spec_substitute(
                            spec_unrounds(n, key, parts.0, (config.rounds + 1) as nat),
                            spec_inverse_box(payload_box(n, key, config)),
                        ),
                    },
                ),
            },
        }
    }
}

/// The plaintext that the stages after the inverse shift make of `unshifted`.
pub open spec fn spec_plain(open: OpenView, unshifted: Seq<u8>, config: Config) -> Seq<u8> {
    spec_substitute(
        spec_unmix_blocks(
            spec_inverse_triangle_mix(config.gf_poly.spec_value(), unshifted),
            open.nonce,
            open.key,
        ),
        spec_inverse_box(payload_box(open.nonce, open.key, config)),
    )
}

/// Reading a blob from the inverse shift stage on: the column mixer, the
/// mixing pass and the first substitution undone, then the MAC of the version
/// recomputed and compared with the one in the blob.
pub open spec fn spec_close(
    open: OpenView,
    unshifted: Seq<u8>,
    config: Config,
) -> Result<Seq<u8>, Rejection> {
    let plain = spec_plain(open, unshifted, config);
    if plain.len() == 0 {
        Err(Rejection::EmptyPayload)
    } else if spec_version_mac(open.version, open.body, open.nonce, open.key, plain) != open.mac {
        Err(Rejection::FailedAuthentication)
    } else {
        Ok(plain)
    }
}

/// What decrypting a blob gives: the plaintext, or the reason the blob is
/// turned down.
pub open spec fn spec_decrypt(
    password: Seq<char>,
    blob: Seq<u8>,
    nonce: Option<NonceData>,
    config: Config,
    custom_salt: Option<Salt>,
    wrap_all: bool,
) -> Result<Seq<u8>, Rejection> {
    match spec_open(password, blob, nonce, config, custom_salt, wrap_all) {
        Err(why) => Err(why),
        Ok(open) => spec_close(
            open,
            spec_dynamic_unshift(open.unboxed, open.nonce, open.key),
            config,
        ),
    }
}

/// Whether the fault `e` reports the rejection that `outcome` ends in.
pub open spec fn refused_as<T>(outcome: Result<T, Rejection>, e: Errors) -> bool {
    match outcome {
        Ok(_) => false,
        Err(why) => e.reports(why),
    }
}

/// Takes a decryption up to the inverse shift stage, on the workers of `pool`.
pub fn decrypt_stage_in(
    pool: &rayon::ThreadPool,
    password: &str,
    data: &[u8],
    nonce: Option<NonceData>,
    config: Config,
    custom_salt: Option<Salt>,
    wrap_all: bool,
) -> (r: Result<OpenStage, Errors>)
    requires
        data@.len() < SIZE_CEILING,
    ensures
        match r {
            Ok(stage) => spec_open(password@, data@, nonce, config, custom_salt, wrap_all) == Ok::<
                OpenView,
                Rejection,
            >(stage@) && stage.key@.len() == 32 && stage.unboxed@.len() == stage.body@.len()
                && stage.body@.len() < data@.len(),
            Err(e) => refused_as(
                spec_open(password@, data@, nonce, config, custom_salt, wrap_all),
                e,
            ),
        },
{
    if data.len() < 48 {
        return Err(Errors::from_rejection(Rejection::TooShort));
    }
    let (nonce_data, salt): (NonceData, Option<Salt>) = match nonce {
        Some(n) => (n, custom_salt),
        None => {
            let tail = slice_subrange(data, data.len() - 32, data.len());
            let head = slice_subrange(data, 0, 32);
            (NonceData::Nonce(to_array_32(head)), Some(slice_to_salt(tail)))
        },
    };
    let nonce_bytes = nonce_data.as_bytes();
    assert(nonce_bytes@ == spec_blob_nonce(data@, nonce));
    assert(salt_view(salt) == spec_blob_salt(data@, nonce, custom_salt));
    let mut expected = match derive_keys(password, nonce_bytes, salt) {
        Ok(key) => key,
        Err(e) => {
            return Err(e);
        },
    };
    let mut key = match derive_keys(password, nonce_bytes, salt) {
        Ok(key) => key,
        Err(e) => {
            return Err(e);
        },
    };
    // Both derivations read the same inputs; comparing them is a self-check.
    let same = match verify_keys_constant_time(key.as_slice(), expected.as_slice()) {
        Ok(same) => same,
        Err(e) => {
            return Err(e);
        },
    };
    if !same {
        wipe_vec(&mut key);
        wipe_vec(&mut expected);
        return Err(Errors::InvalidMac("Invalid key".to_owned()));
    }
    wipe_vec(&mut expected);
    let wrapped = match nonce {
        Some(_) => wrap_all,
        None => true,
    };
    let (sealed_tag, rest) = split_tag(data, wrapped);
    let version_key = version_key_bytes();
    let by_fixed = xor_decrypt_in(
        pool,
        nonce_bytes.as_slice(),
        version_key.as_slice(),
        sealed_tag,
    );
    let by_key = xor_decrypt_in(pool, nonce_bytes.as_slice(), key.as_slice(), sealed_tag);
    let version = match detect_version(by_fixed.as_slice(), by_key.as_slice()) {
        Ok(version) => version,
        Err(why) => {
            wipe_vec(&mut key);
            return Err(Errors::from_rejection(why));
        },
    };
    let (crypted, mac_key) = match split_trailer(rest, version, wrapped) {
        Ok(parts) => parts,
        Err(why) => {
            wipe_vec(&mut key);
            return Err(Errors::from_rejection(why));
        },
    };
    let mut unrounded = undo_rounds_in(pool, nonce_bytes, key.as_slice(), crypted, config.rounds);
    let unboxed = in_s_bytes_in(
        pool,
        unrounded.as_slice(),
        nonce_bytes.as_slice(),
        key.as_slice(),
        config,
    );
    wipe_vec(&mut unrounded);
    proof {
        crate::rounds::lemma_rounds_len(
            nonce_bytes@,
            key@,
            crypted@,
            (config.rounds + 1) as nat,
        );
    }
    Ok(
        OpenStage {
            key,
            nonce: *nonce_bytes,
            body: slice_to_vec(crypted),
            mac: slice_to_vec(mac_key),
            version,
            unboxed,
        },
    )
}

/// Takes a decryption from the inverse shift stage to the plaintext, on the
/// workers of `pool`: `unshifted` is what the inverse shift stage made of
/// `stage.unboxed`. Whatever the outcome, the password key and the payload in
/// `stage` and in `unshifted` are overwritten and left empty.
pub fn decrypt_finish_in(
    pool: &rayon::ThreadPool,
    stage: &mut OpenStage,
    unshifted: &mut Vec<u8>,
    config: Config,
) -> (r: Result<Vec<u8>, Errors>)
    requires
        old(unshifted)@.len() < SIZE_CEILING,
        old(stage).key@.len() == 32,
    ensures
        match r {
            Ok(plain) => spec_close(old(stage)@, old(unshifted)@, config) == Ok::<
                Seq<u8>,
                Rejection,
            >(plain@),
            Err(e) => refused_as(spec_close(old(stage)@, old(unshifted)@, config), e),
        },
        final(stage).key@.len() == 0,
        final(stage).unboxed@.len() == 0,
        final(unshifted)@.len() == 0,
{
    wipe_vec(&mut stage.unboxed);
    let field = GaloisField::new(config.gf_poly.value());
    let mut inversed_columns = inverse_triangle_mix_columns_in(pool, unshifted.as_slice(), &field);
    wipe_vec(unshifted);
    let mut unmixed = unmix_blocks_in(
        pool,
        inversed_columns.as_slice(),
        stage.nonce.as_slice(),
        stage.key.as_slice(),
    );
    wipe_vec(&mut inversed_columns);
    let mut decrypted_data = in_s_bytes_in(
        pool,
        unmixed.as_slice(),
        stage.nonce.as_slice(),
        stage.key.as_slice(),
        config,
    );
    wipe_vec(&mut unmixed);
    if decrypted_data.len() == 0 {
        wipe_vec(&mut stage.key);
        return Err(Errors::from_rejection(Rejection::EmptyPayload));
    }
    let mut masked = xor_encrypt_in(
        pool,
        stage.nonce.as_slice(),
        stage.key.as_slice(),
        decrypted_data.as_slice(),
    );
    wipe_vec(&mut stage.key);
    let authentic = match stage.version {
        BlobVersion::Legacy => {
            let mac_key_hash = blake3_hash(stage.body.as_slice());
            let mac = blake3_keyed_hash(&mac_key_hash, masked.as_slice());
            ct_eq_bytes(mac.as_slice(), stage.mac.as_slice())
        },
        BlobVersion::Current => {
            let inner = blake3_hash(masked.as_slice());
            let mac_input = concat_bytes(stage.body.as_slice(), inner.as_slice());
            let mac = sha3_512(mac_input.as_slice());
            ct_eq_bytes(mac.as_slice(), stage.mac.as_slice())
        },
    };
    wipe_vec(&mut masked);
    if !authentic {
        wipe_vec(&mut decrypted_data);
        return Err(Errors::from_rejection(Rejection::FailedAuthentication));
    }
    Ok(decrypted_data)
}

/// Decrypts a blob on the workers of `pool`.
pub fn decrypt_in(
    pool: &rayon::ThreadPool,
    password: &str,
    data: &[u8],
    nonce: Option<NonceData>,
    config: Config,
    custom_salt: Option<Salt>,
    wrap_all: bool,
) -> (r: Result<Vec<u8>, Errors>)
    requires
        data@.len() < SIZE_CEILING,
    ensures
        match r {
            Ok(plain) => spec_decrypt(password@, data@, nonce, config, custom_salt, wrap_all)
                == Ok::<Seq<u8>, Rejection>(plain@),
            Err(e) => refused_as(
                spec_decrypt(password@, data@, nonce, config, custom_salt, wrap_all),
                e,
            ),
        },
{
    let mut stage = match decrypt_stage_in(
        pool,
        password,
        data,
        nonce,
        config,
        custom_salt,
        wrap_all,
    ) {
        Ok(stage) => stage,
        Err(e) => {
            return Err(e);
        },
    };
    let mut unshifted = dynamic_unshift_in(
        pool,
        stage.unboxed.as_slice(),
        stage.nonce.as_slice(),
        stage.key.as_slice(),
    );
    decrypt_finish_in(pool, &mut stage, &mut unshifted, config)
}

/// Decrypts a blob under a password and the settings it was made with. With
/// a nonce the blob is read with the caller's nonce and salt, and as wrapped
/// where `wrap_all` is set; without one it is read as wrapped, with the nonce
/// from its first 32 bytes and the salt from its last 32.
///
/// Every stage runs on a pool of `config.thread_num` workers, the inverse
/// shift stage too; a caller that runs that stage on a device does so between
/// [`decrypt_stage_in`] and [`decrypt_finish_in`]. The call fails with
/// `ThreadPool` where the pool cannot be built. Otherwise it gives the
/// plaintext or the fault that reports why the blob is turned down: too
/// short, no known version tag, a version or MAC that does not hold, or an
/// empty payload.
pub fn decrypt(
    password: &str,
    data: &[u8],
    nonce: Option<NonceData>,
    config: Config,
    custom_salt: Option<Salt>,
    wrap_all: bool,
) -> (r: Result<Vec<u8>, Errors>)
    requires
        data@.len() < SIZE_CEILING,
    ensures
        match r {
            Ok(plain) => spec_decrypt(password@, data@, nonce, config, custom_salt, wrap_all)
                == Ok::<Seq<u8>, Rejection>(plain@),
            Err(e) => e is ThreadPool || refused_as(
                spec_decrypt(password@, data@, nonce, config, custom_salt, wrap_all),
                e,
            ),
        },
{
    match make_pool(config.thread_num) {
        Ok(pool) => decrypt_in(&pool, password, data, nonce, config, custom_salt, wrap_all),
        Err(e) => Err(e),
    }
}

} // verus!
