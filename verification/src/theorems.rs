//! What holds of the cipher as a whole: the layout of a blob, that decryption undoes
//! encryption, that an altered MAC is turned down, and that the device leaves no trace.

use crate::cipher::OpenView;
use crate::cipher::password_key;
use crate::cipher::payload_box;
use crate::cipher::spec_before_shift;
use crate::cipher::spec_blob_nonce;
use crate::cipher::spec_blob_salt;
use crate::cipher::spec_body;
use crate::cipher::spec_decrypt;
use crate::cipher::spec_encrypt;
use crate::cipher::spec_mac;
use crate::cipher::spec_open;
use crate::cipher::spec_plain;
use crate::cipher::spec_sealed_version;
use crate::cipher::spec_version_mac;
use crate::cipher::spec_wrapped;
use crate::columns::lemma_triangle_round_trip;
use crate::columns::mixer_invertible;
use crate::columns::spec_inverse_triangle_mix;
use crate::config::Config;
use crate::errors::Rejection;
use crate::frame::BlobVersion;
use crate::frame::spec_after_tag;
use crate::frame::spec_assemble;
use crate::frame::spec_detect_version;
use crate::frame::spec_sealed_tag;
use crate::frame::spec_split_trailer;
use crate::frame::version_key;
use crate::frame::version_tag;
use crate::galois::lemma_aes_mixer_constants;
use crate::kdf::salt_view;
use crate::mix::lemma_mix_round_trip;
use crate::mix::spec_mix_blocks;
use crate::mix::spec_unmix_blocks;
use crate::nonce::NonceData;
use crate::rounds::lemma_rounds_len;
use crate::rounds::lemma_rounds_round_trip;
use crate::rounds::spec_unrounds;
use crate::salt::Salt;
use crate::sbox::lemma_sbox_is_permutation;
use crate::sbox::lemma_substitute_round_trip;
use crate::sbox::sbox_seed;
use crate::sbox::spec_inverse_box;
use crate::sbox::spec_substitute;
use crate::shift::lemma_shift_round_trip;
use crate::shift::spec_dynamic_shift;
use crate::shift::spec_dynamic_unshift;
use crate::xor::lemma_xor_round_trip;
use crate::xor::spec_xor_decrypt;
use vstd::prelude::*;

verus! {

/// The length that the frame adds on each side of a wrapped blob.
pub open spec fn wrap_len(wrap_all: bool) -> int {
    if wrap_all {
        32
    } else {
        0
    }
}

/// The stages between the plaintext and the body keep the length.
pub proof fn lemma_body_len(data: Seq<u8>, nonce: Seq<u8>, key: Seq<u8>, config: Config)
    ensures
        spec_before_shift(data, nonce, key, config).len() == data.len(),
        spec_dynamic_shift(spec_before_shift(data, nonce, key, config), nonce, key).len()
            == data.len(),
        spec_body(
            spec_dynamic_shift(spec_before_shift(data, nonce, key, config), nonce, key),
            nonce,
            key,
            config,
        ).len() == data.len(),
{
    let columns = spec_before_shift(data, nonce, key, config);
    let shifted = spec_dynamic_shift(columns, nonce, key);
    lemma_rounds_len(
        nonce,
        key,
        spec_substitute(shifted, payload_box(nonce, key, config)),
        (config.rounds + 1) as nat,
    );
}

/// The layout of a blob: the version tag takes 16 bytes, the body as many as
/// the plaintext, the MAC 64, and wrapping adds the 32 bytes of the nonce in
/// front and the 32 bytes of the suffix behind.
pub proof fn lemma_blob_len(
    password: Seq<char>,
    data: Seq<u8>,
    nonce: NonceData,
    config: Config,
    custom_salt: Option<Salt>,
    wrap_all: bool,
)
    ensures
        spec_encrypt(password, data, nonce@, config, salt_view(custom_salt), wrap_all).len()
            == wrap_len(wrap_all) + 16 + data.len() + 64 + wrap_len(wrap_all),
{
    let key = password_key(password, nonce@, salt_view(custom_salt));
    lemma_body_len(data, nonce@, key, config);
}

/// How a decryption has to be called for a blob: without a nonce where the
/// blob is wrapped, or with the nonce, the salt and the `wrap_all` that the
/// encryption was called with.
pub open spec fn framing_matches(
    nonce: NonceData,
    custom_salt: Option<Salt>,
    wrap_all: bool,
    given_nonce: Option<NonceData>,
    given_salt: Option<Salt>,
    given_wrap: bool,
) -> bool {
    match given_nonce {
        None => wrap_all,
        Some(n) => n@ == nonce@ && salt_view(given_salt) == salt_view(custom_salt) && given_wrap
            == wrap_all,
    }
}

/// A frame is read back as it was written: in the blob that [`spec_assemble`]
/// makes of a 32-byte nonce, a 16-byte encrypted version tag, a body, a
/// 64-byte MAC and a 32-byte salt, the tag, the body and the MAC are found
/// again, and in a wrapped blob the nonce in the first and the suffix in the
/// last 32 bytes.
pub proof fn lemma_frame_read_back(
    nonce: Seq<u8>,
    salt: Option<Seq<u8>>,
    wrap_all: bool,
    sealed: Seq<u8>,
    body: Seq<u8>,
    mac: Seq<u8>,
)
    requires
        nonce.len() == 32,
        sealed.len() == 16,
        mac.len() == 64,
        salt matches Some(s) ==> s.len() == 32,
    ensures
        ({
            let blob = spec_assemble(nonce, salt, wrap_all, sealed, body, mac);
            &&& blob.len() >= 48
            &&& spec_sealed_tag(blob, wrap_all) == sealed
            &&& spec_split_trailer(spec_after_tag(blob, wrap_all), BlobVersion::Current, wrap_all)
                == Ok::<(Seq<u8>, Seq<u8>), Rejection>((body, mac))
            &&& wrap_all ==> blob.subrange(0, 32) == nonce
            &&& wrap_all ==> blob.subrange(blob.len() - 32, blob.len() as int) == match salt {
                Some(s) => s,
                None => nonce,
            }
        }),
{
    let blob = spec_assemble(nonce, salt, wrap_all, sealed, body, mac);
    let suffix = match salt {
        Some(s) => s,
        None => nonce,
    };
    let rest = spec_after_tag(blob, wrap_all);
    assert(spec_sealed_tag(blob, wrap_all) =~= sealed);
    if wrap_all {
        assert(rest =~= body + mac + suffix);
        assert(blob.subrange(0, 32) =~= nonce);
        assert(blob.subrange(blob.len() - 32, blob.len() as int) =~= suffix);
    } else {
        assert(rest =~= body + mac);
    }
    assert(rest.subrange(0, body.len() as int) =~= body);
    assert(rest.subrange(body.len() as int, body.len() as int + 64) =~= mac);
}

/// The version tag that encryption writes reads as the current version,
/// whatever the reading under the password key shows.
pub proof fn lemma_version_read_back(nonce: Seq<u8>, by_key: Seq<u8>)
    ensures
        spec_detect_version(
            spec_xor_decrypt(nonce, version_key(), spec_sealed_version(nonce)),
            by_key,
        ) == Ok::<BlobVersion, Rejection>(BlobVersion::Current),
{
    lemma_xor_round_trip(nonce, version_key(), version_tag());
    let by_fixed = spec_xor_decrypt(nonce, version_key(), spec_sealed_version(nonce));
    assert(by_fixed.subrange(0, 16) =~= version_tag());
}

/// The stages of the payload are undone in turn: from the body the inverse
/// rounds and the inverse substitution lead back to the payload as it left the
/// shift stage, the inverse shift to the payload as it entered it, and the
/// inverse column mixer, the inverse mixing pass and the inverse substitution
/// to the plaintext.
pub proof fn lemma_payload_round_trip(data: Seq<u8>, nonce: Seq<u8>, key: Seq<u8>, config: Config)
    requires
        mixer_invertible(config.gf_poly.spec_value()),
    ensures
        ({
            let columns = spec_before_shift(data, nonce, key, config);
            let shifted = spec_dynamic_shift(columns, nonce, key);
            let body = spec_body(shifted, nonce, key, config);
            let inverse_box = spec_inverse_box(payload_box(nonce, key, config));
            &&& spec_substitute(
                spec_unrounds(nonce, key, body, (config.rounds + 1) as nat),
                inverse_box,
            ) == shifted
            &&& spec_dynamic_unshift(shifted, nonce, key) == columns
            &&& spec_substitute(
                spec_unmix_blocks(
                    spec_inverse_triangle_mix(config.gf_poly.spec_value(), columns),
                    nonce,
                    key,
                ),
                inverse_box,
            ) == data
        }),
{
    let sbox = payload_box(nonce, key, config);
    let boxed = spec_substitute(data, sbox);
    let mixed = spec_mix_blocks(boxed, nonce, key);
    let columns = spec_before_shift(data, nonce, key, config);
    let shifted = spec_dynamic_shift(columns, nonce, key);
    let reboxed = spec_substitute(shifted, sbox);
    lemma_rounds_round_trip(nonce, key, reboxed, (config.rounds + 1) as nat);
    lemma_sbox_is_permutation(sbox_seed(nonce, key, config.sbox));
    lemma_substitute_round_trip(shifted, sbox);
    lemma_shift_round_trip(columns, nonce, key);
    lemma_triangle_round_trip(config.gf_poly.spec_value(), mixed);
    lemma_mix_round_trip(boxed, nonce, key);
    lemma_substitute_round_trip(data, sbox);
}

/// The body of the blob that encrypting `data` gives.
pub open spec fn spec_encrypt_body(
    password: Seq<char>,
    data: Seq<u8>,
    nonce: Seq<u8>,
    config: Config,
    salt: Option<Seq<u8>>,
) -> Seq<u8> {
    let key = password_key(password, nonce, salt);
    spec_body(
        spec_dynamic_shift(spec_before_shift(data, nonce, key, config), nonce, key),
        nonce,
        key,
        config,
    )
}

/// The blob that encryption would give if it wrote `mac_field` where the
/// MAC belongs.
pub open spec fn spec_framed(
    password: Seq<char>,
    data: Seq<u8>,
    nonce: Seq<u8>,
    config: Config,
    salt: Option<Seq<u8>>,
    wrap_all: bool,
    mac_field: Seq<u8>,
) -> Seq<u8> {
    spec_assemble(
        nonce,
        salt,
        wrap_all,
        spec_sealed_version(nonce),
        spec_encrypt_body(password, data, nonce, config, salt),
        mac_field,
    )
}

/// What decryption makes of the frame of an encryption with any 64 bytes in
/// the place of the MAC: the plaintext where the bytes are the MAC, and a
/// failed authentication where they are not.
pub proof fn lemma_decrypt_framed(
    password: Seq<char>,
    data: Seq<u8>,
    nonce: NonceData,
    config: Config,
    custom_salt: Option<Salt>,
    wrap_all: bool,
    mac_field: Seq<u8>,
    given_nonce: Option<NonceData>,
    given_salt: Option<Salt>,
    given_wrap: bool,
)
    requires
        data.len() > 0,
        mac_field.len() == 64,
        mixer_invertible(config.gf_poly.spec_value()),
        framing_matches(nonce, custom_salt, wrap_all, given_nonce, given_salt, given_wrap),
    ensures
        ({
            let salt = salt_view(custom_salt);
            let key = password_key(password, nonce@, salt);
            let body = spec_encrypt_body(password, data, nonce@, config, salt);
            let blob = spec_framed(password, data, nonce@, config, salt, wrap_all, mac_field);
            let outcome = spec_decrypt(
                password,
                blob,
                given_nonce,
                config,
                given_salt,
                given_wrap,
            );
            outcome == if mac_field == spec_mac(body, nonce@, key, data) {
                Ok::<Seq<u8>, Rejection>(data)
            } else {
                Err::<Seq<u8>, Rejection>(Rejection::FailedAuthentication)
            }
        }),
{
    let n = nonce@;
    let salt = salt_view(custom_salt);
    let key = password_key(password, n, salt);
    let columns = spec_before_shift(data, n, key, config);
    let shifted = spec_dynamic_shift(columns, n, key);
    let body = spec_encrypt_body(password, data, n, config, salt);
    let sealed = spec_sealed_version(n);
    let blob = spec_framed(password, data, n, config, salt, wrap_all, mac_field);
    lemma_body_len(data, n, key, config);
    lemma_frame_read_back(n, salt, wrap_all, sealed, body, mac_field);
    let wrapped = spec_wrapped(given_nonce, given_wrap);
    assert(wrapped == wrap_all);
    assert(spec_blob_nonce(blob, given_nonce) == n);
    assert(password_key(password, n, spec_blob_salt(blob, given_nonce, given_salt)) == key);
    lemma_version_read_back(n, spec_xor_decrypt(n, key, sealed));
    lemma_payload_round_trip(data, n, key, config);
    let open = OpenView {
        key,
        nonce: n,
        body,
        mac: mac_field,
        version: BlobVersion::Current,
        unboxed: shifted,
    };
    assert(spec_open(password, blob, given_nonce, config, given_salt, given_wrap) == Ok::<
        OpenView,
        Rejection,
    >(open));
    assert(spec_plain(open, columns, config) == data);
    assert(spec_version_mac(BlobVersion::Current, body, n, key, data) == spec_mac(
        body,
        n,
        key,
        data,
    ));
}

/// Decryption undoes encryption. For every password, nonce, salt and
/// `wrap_all`, every plaintext that is not empty, and every setting under
/// whose polynomial the constants three, four and five of the column mixer
/// have inverses, decrypting the blob that encryption makes, under the same
/// password and settings and with the framing of [`framing_matches`], gives
/// the plaintext back.
pub proof fn lemma_decrypt_encrypt(
    password: Seq<char>,
    data: Seq<u8>,
    nonce: NonceData,
    config: Config,
    custom_salt: Option<Salt>,
    wrap_all: bool,
    given_nonce: Option<NonceData>,
    given_salt: Option<Salt>,
    given_wrap: bool,
)
    requires
        data.len() > 0,
        mixer_invertible(config.gf_poly.spec_value()),
        framing_matches(nonce, custom_salt, wrap_all, given_nonce, given_salt, given_wrap),
    ensures
        spec_decrypt(
            password,
            spec_encrypt(password, data, nonce@, config, salt_view(custom_salt), wrap_all),
            given_nonce,
            config,
            given_salt,
            given_wrap,
        ) == Ok::<Seq<u8>, Rejection>(data),
{
    let salt = salt_view(custom_salt);
    let key = password_key(password, nonce@, salt);
    let body = spec_encrypt_body(password, data, nonce@, config, salt);
    lemma_decrypt_framed(
        password,
        data,
        nonce,
        config,
        custom_salt,
        wrap_all,
        spec_mac(body, nonce@, key, data),
        given_nonce,
        given_salt,
        given_wrap,
    );
}

/// A blob whose MAC was altered is turned down. Where the 64 bytes in the
/// place of the MAC are not the ones encryption wrote, and the rest of the
/// blob is, decryption under the same password, settings and framing fails
/// its authentication, whatever the alteration.
pub proof fn lemma_altered_mac_is_rejected(
    password: Seq<char>,
    data: Seq<u8>,
    nonce: NonceData,
    config: Config,
    custom_salt: Option<Salt>,
    wrap_all: bool,
    mac_field: Seq<u8>,
    given_nonce: Option<NonceData>,
    given_salt: Option<Salt>,
    given_wrap: bool,
)
    requires
        data.len() > 0,
        mac_field.len() == 64,
        mixer_invertible(config.gf_poly.spec_value()),
        framing_matches(nonce, custom_salt, wrap_all, given_nonce, given_salt, given_wrap),
        spec_framed(password, data, nonce@, config, salt_view(custom_salt), wrap_all, mac_field)
            != spec_encrypt(password, data, nonce@, config, salt_view(custom_salt), wrap_all),
    ensures
        spec_decrypt(
            password,
            spec_framed(
                password,
                data,
                nonce@,
                config,
                salt_view(custom_salt),
                wrap_all,
                mac_field,
            ),
            given_nonce,
            config,
            given_salt,
            given_wrap,
        ) == Err::<Seq<u8>, Rejection>(Rejection::FailedAuthentication),
{
    lemma_decrypt_framed(
        password,
        data,
        nonce,
        config,
        custom_salt,
        wrap_all,
        mac_field,
        given_nonce,
        given_salt,
        given_wrap,
    );
}

/// With the AES polynomial the column mixer can always be undone, so that
/// the round trip holds for every setting that keeps that polynomial.
pub proof fn lemma_decrypt_encrypt_aes(
    password: Seq<char>,
    data: Seq<u8>,
    nonce: NonceData,
    config: Config,
    custom_salt: Option<Salt>,
    wrap_all: bool,
    given_nonce: Option<NonceData>,
    given_salt: Option<Salt>,
    given_wrap: bool,
)
    requires
        data.len() > 0,
        config.gf_poly is AES,
        framing_matches(nonce, custom_salt, wrap_all, given_nonce, given_salt, given_wrap),
    ensures
        spec_decrypt(
            password,
            spec_encrypt(password, data, nonce@, config, salt_view(custom_salt), wrap_all),
            given_nonce,
            config,
            given_salt,
            given_wrap,
        ) == Ok::<Seq<u8>, Rejection>(data),
{
    lemma_aes_mixer_constants();
    lemma_decrypt_encrypt(
        password,
        data,
        nonce,
        config,
        custom_salt,
        wrap_all,
        given_nonce,
        given_salt,
        given_wrap,
    );
}

/// Two settings that agree in rounds, substitution box seeding and
/// polynomial have the same blobs and read blobs alike: the device and the
/// number of workers leave no trace in the result.
pub open spec fn same_cipher(a: Config, b: Config) -> bool {
    a.rounds == b.rounds && a.sbox == b.sbox && a.gf_poly == b.gf_poly
}

/// The device and the number of workers do not change what encryption
/// writes or what decryption reads.
pub proof fn lemma_device_independent(
    password: Seq<char>,
    data: Seq<u8>,
    nonce: Seq<u8>,
    a: Config,
    b: Config,
    salt: Option<Seq<u8>>,
    wrap_all: bool,
    given_nonce: Option<NonceData>,
    given_salt: Option<Salt>,
)
    requires
        same_cipher(a, b),
    ensures
        spec_encrypt(password, data, nonce, a, salt, wrap_all) == spec_encrypt(
            password,
            data,
            nonce,
            b,
            salt,
            wrap_all,
        ),
        spec_decrypt(password, data, given_nonce, a, given_salt, wrap_all) == spec_decrypt(
            password,
            data,
            given_nonce,
            b,
            given_salt,
            wrap_all,
        ),
{
}

/// Whatever decryption accepts is authenticated: where it gives a plaintext,
/// the MAC field of the blob is the MAC that the detected version asks for
/// over the body of the blob and that plaintext.
pub proof fn lemma_accepted_is_authenticated(
    password: Seq<char>,
    blob: Seq<u8>,
    nonce: Option<NonceData>,
    config: Config,
    custom_salt: Option<Salt>,
    wrap_all: bool,
)
    requires
        spec_decrypt(password, blob, nonce, config, custom_salt, wrap_all) is Ok,
    ensures
        ({
            let open = spec_open(password, blob, nonce, config, custom_salt, wrap_all);
            let plain = spec_decrypt(password, blob, nonce, config, custom_salt, wrap_all);
            &&& open matches Ok(o)
            &&& plain matches Ok(p)
            &&& p.len() > 0
            &&& o.mac == spec_version_mac(o.version, o.body, o.nonce, o.key, p)
        }),
{
}

} // verus!
