use atomcrypte::kdf::derive_password_key;
use atomcrypte::kdf::verify_keys_constant_time;
use atomcrypte::nonce::machine_phrase_id;
use atomcrypte::nonce::slice_to_nonce;
use atomcrypte::nonce::tag_bytes;
use atomcrypte::salt::mix_salt;
use atomcrypte::salt::slice_to_salt;
use atomcrypte::cipher::derive_first_key;
use atomcrypte::cipher::derive_from_first_key;
use atomcrypte::cipher::derive_keys;
use atomcrypte::AsNonce;
use atomcrypte::AsSalt;
use atomcrypte::Errors;
use atomcrypte::MachineRng;
use atomcrypte::Nonce;
use atomcrypte::NonceData;
use atomcrypte::Rng;
use atomcrypte::Salt;
use atomcrypte::generate_salt;
use argon2::password_hash::SaltString;
use argon2::Argon2;

fn ramp() -> [u8; 32] {
    let mut out = [0u8; 32];
    for i in 0..32 {
        out[i] = (i as u8) * 9 + 4;
    }
    out
}

#[test]
fn nonce_of_31_bytes_is_an_error() {
    let short = vec![7u8; 31];
    match short.as_nonce_safe() {
        Err(m) => assert_eq!(m, "Nonce length must be 32 bytes"),
        Ok(_) => panic!("31 bytes are no nonce"),
    }
    let slice: &[u8] = &short;
    assert!(slice.as_nonce_safe().is_err());
    assert!(slice_to_nonce(&[0u8; 33]).is_err());
    assert!(slice_to_nonce(&[]).is_err());
}

#[test]
fn nonce_of_32_bytes_is_a_plain_nonce() {
    let bytes = ramp().to_vec();
    let nonce = bytes.as_nonce_safe().unwrap();
    assert_eq!(nonce, NonceData::Nonce(ramp()));
    assert_eq!(bytes.as_nonce(), NonceData::Nonce(ramp()));
    let slice: &[u8] = &bytes;
    assert_eq!(slice.as_nonce(), NonceData::Nonce(ramp()));
    assert_eq!(nonce.as_bytes(), &ramp());
    assert_eq!(nonce.to_vec(), bytes);
}

#[test]
fn every_nonce_variant_gives_its_bytes() {
    for nonce in [
        NonceData::TaggedNonce(ramp()),
        NonceData::HashedNonce(ramp()),
        NonceData::Nonce(ramp()),
        NonceData::MachineNonce(ramp()),
    ] {
        assert_eq!(nonce.as_bytes(), &ramp());
        assert_eq!(nonce.to_vec(), ramp().to_vec());
    }
}

#[test]
fn salt_of_other_lengths_is_an_error() {
    let short: &[u8] = &[1u8; 31];
    match short.as_salt_safe() {
        Err(m) => assert_eq!(m, "Salt input must be exactly 32 bytes"),
        Ok(_) => panic!("31 bytes are no salt"),
    }
    let long: &[u8] = &[1u8; 33];
    assert!(long.as_salt_safe().is_err());
    let right: &[u8] = &ramp();
    assert_eq!(right.as_salt_safe().unwrap().as_bytes(), &ramp()[..]);
    assert_eq!(right.as_salt().to_vec(), ramp().to_vec());
    assert_eq!(slice_to_salt(&ramp()).as_bytes(), &ramp()[..]);
}

#[test]
fn draws_have_their_tags_and_differ() {
    let a = Rng::osrng();
    let b = Rng::osrng();
    let c = Rng::thread_rng();
    assert!(matches!(a, Rng::OsRngNonce(_)));
    assert!(matches!(c, Rng::ThreadRngNonce(_)));
    assert!(matches!(Rng::tagged_osrng(b"tag"), Rng::TaggedOsRngNonce(_)));
    assert_ne!(a.to_vec(), b.to_vec());
    assert_ne!(a.to_vec(), c.to_vec());
    assert_ne!(a.to_vec(), vec![0u8; 32]);
    assert_eq!(a.to_vec(), a.as_bytes().to_vec());
}

#[test]
fn tag_is_worked_into_every_byte() {
    let raw = ramp();
    let tag = [0xf0u8, 0x0f, 0x55];
    let out = tag_bytes(&raw, &tag);
    for i in 0..32 {
        assert_eq!(out[i], raw[i].wrapping_add(tag[i % 3] ^ (i as u8)));
    }
    // Byte 1: 13 + (0x0f ^ 1) = 13 + 14.
    assert_eq!(out[1], 27);
}

#[test]
fn stirred_nonce_follows_the_formula() {
    let draw = Rng::OsRngNonce(ramp());
    let nonce = Nonce::nonce_with(&draw, 100);
    assert!(matches!(nonce, NonceData::Nonce(_)));
    let raw = ramp();
    for i in 0..32usize {
        let add = ((raw[i] as usize) % (i + 1)) as u8;
        assert_eq!(nonce.as_bytes()[i], raw[i].wrapping_add(add.wrapping_add(100)));
    }
    // Byte 0: 4 + (4 mod 1) + 100; byte 3: 31 + (31 mod 4) + 100.
    assert_eq!(nonce.as_bytes()[0], 104);
    assert_eq!(nonce.as_bytes()[3], 134);
}

#[test]
fn random_nonce_is_a_stirred_draw() {
    let raw = ramp();
    let nonce = Nonce::nonce(Rng::OsRngNonce(raw));
    let found = (0..255u8).any(|number| Nonce::nonce_with(&Rng::OsRngNonce(raw), number) == nonce);
    assert!(found);
}

fn plain_chain(start: [u8; 32], number: u8) -> [u8; 32] {
    let mut nonce = start;
    for i in 0..=number {
        let mut mix = nonce.to_vec();
        mix.push(i);
        nonce = *blake3::hash(&mix).as_bytes();
    }
    nonce
}

#[test]
fn hashed_nonce_is_the_end_of_the_chain() {
    let draw = Rng::OsRngNonce(ramp());
    for number in [0u8, 1, 7, 254, 255] {
        let nonce = Nonce::hashed_nonce_with(&draw, number);
        assert_eq!(nonce, NonceData::HashedNonce(plain_chain(ramp(), number)));
        assert_eq!(Nonce::chain_hash(&ramp(), number), plain_chain(ramp(), number));
    }
    assert_ne!(Nonce::chain_hash(&ramp(), 0), ramp());
}

#[test]
fn random_hashed_nonce_lies_on_the_chain() {
    let nonce = Nonce::hashed_nonce(Rng::OsRngNonce(ramp()));
    assert!(matches!(nonce, NonceData::HashedNonce(_)));
    let found = (0..255u8).any(|number| plain_chain(ramp(), number) == *nonce.as_bytes());
    assert!(found);
}

#[test]
fn tagged_nonce_hashes_chain_end_and_tag() {
    let draw = Rng::OsRngNonce(ramp());
    let tag = b"device-7";
    let nonce = Nonce::tagged_nonce_with(&draw, tag, 9);
    let mut joined = plain_chain(ramp(), 9).to_vec();
    joined.extend_from_slice(tag);
    assert_eq!(nonce, NonceData::TaggedNonce(*blake3::hash(&joined).as_bytes()));
    let random = Nonce::tagged_nonce(Rng::OsRngNonce(ramp()), tag);
    let found = (0..255u8).any(|number| {
        let mut joined = plain_chain(ramp(), number).to_vec();
        joined.extend_from_slice(tag);
        *blake3::hash(&joined).as_bytes() == *random.as_bytes()
    });
    assert!(found);
}

#[test]
fn machine_nonce_hashes_names_and_draw() {
    let nonce = Nonce::machine_nonce_from("ann", "box", "Ann Lee", "Linux 1", None);
    assert_eq!(
        nonce,
        NonceData::MachineNonce(*blake3::hash(b"annboxAnn LeeLinux 1").as_bytes())
    );
    let draw = Rng::OsRngNonce(ramp());
    let with_draw = Nonce::machine_nonce_from("ann", "box", "Ann Lee", "Linux 1", Some(draw));
    let mut all = b"annboxAnn LeeLinux 1".to_vec();
    all.extend_from_slice(&ramp());
    assert_eq!(with_draw, NonceData::MachineNonce(*blake3::hash(&all).as_bytes()));
}

#[test]
fn machine_nonce_is_stable_on_one_machine() {
    let a = Nonce::machine_nonce(None);
    let b = Nonce::machine_nonce(None);
    assert!(matches!(a, NonceData::MachineNonce(_)));
    assert_eq!(a, b);
    let expected = Nonce::machine_nonce_from(
        &whoami::username(),
        &whoami::devicename(),
        &whoami::realname(),
        &whoami::distro(),
        None,
    );
    assert_eq!(a, expected);
    let c = Nonce::machine_nonce(Some(Rng::OsRngNonce(ramp())));
    assert_ne!(a, c);
}

#[test]
fn machine_phrase_id_is_the_hex_of_the_hash() {
    let id = machine_phrase_id("ann", "box", "Ann Lee", None, "phrase");
    assert_eq!(id, blake3::hash(b"annboxAnn Leephrase").to_hex().to_string());
    assert_eq!(id.len(), 64);
    assert!(id.chars().all(|c| c.is_ascii_digit() || ('a'..='f').contains(&c)));
    let locked = machine_phrase_id("ann", "box", "Ann Lee", Some("Linux 1"), "phrase");
    assert_eq!(locked, blake3::hash(b"annboxAnn LeeLinux 1phrase").to_hex().to_string());
    assert_ne!(id, locked);
}

#[test]
fn machine_rng_uses_the_names_of_this_machine() {
    let plain = "secret".machine_rng(false);
    let expected = machine_phrase_id(
        &whoami::username(),
        &whoami::devicename(),
        &whoami::realname(),
        None,
        "secret",
    );
    assert_eq!(plain, expected);
    let locked = "secret".machine_rng(true);
    let expected_locked = machine_phrase_id(
        &whoami::username(),
        &whoami::devicename(),
        &whoami::realname(),
        Some(&whoami::distro()),
        "secret",
    );
    assert_eq!(locked, expected_locked);
    assert_ne!("secret".machine_rng(false), "other".machine_rng(false));
}

#[test]
fn salt_mix_follows_the_formula() {
    let rng = ramp();
    let mut mix_rng = [0u8; 32];
    for i in 0..32 {
        mix_rng[i] = 255 - (i as u8) * 5;
    }
    let salt = mix_salt(&rng, &mix_rng);
    for i in 0..32usize {
        let add = ((mix_rng[i] as usize) % (i + 1)) as u8;
        assert_eq!(salt.as_bytes()[i], rng[i].wrapping_add(add.wrapping_add(rng[i] % 8)));
    }
    // Byte 0: 4 + (255 mod 1) + (4 mod 8); byte 2: 22 + (245 mod 3) + (22 mod 8).
    assert_eq!(salt.as_bytes()[0], 8);
    assert_eq!(salt.as_bytes()[2], 30);
}

#[test]
fn fresh_salts_differ() {
    let a = Salt::new();
    let b = generate_salt();
    assert_eq!(a.as_bytes().len(), 32);
    assert_ne!(a.to_vec(), b.to_vec());
    assert_ne!(a.to_vec(), vec![0u8; 32]);
}

#[test]
fn password_key_is_argon2_over_the_salt_text() {
    let pwd = ramp();
    let nonce = [9u8; 32];
    let key = derive_password_key(&pwd, &nonce, None).unwrap();
    let text = SaltString::encode_b64(&nonce).unwrap();
    let mut expected = vec![0u8; 32];
    Argon2::default()
        .hash_password_into(&pwd, text.as_str().as_bytes(), &mut expected)
        .unwrap();
    assert_eq!(key, expected);
    assert_ne!(key, vec![0u8; 32]);

    let custom = Salt::Salt([0x33u8; 32]);
    let salted = derive_password_key(&pwd, &nonce, Some(custom)).unwrap();
    let text = SaltString::encode_b64(&[0x33u8; 32]).unwrap();
    Argon2::default()
        .hash_password_into(&pwd, text.as_str().as_bytes(), &mut expected)
        .unwrap();
    assert_eq!(salted, expected);
    assert_ne!(salted, key);
}

#[test]
fn password_key_needs_32_bytes_and_a_fitting_salt() {
    match derive_password_key(&[1u8; 31], &[9u8; 32], None) {
        Err(Errors::Argon2Failed(m)) => assert_eq!(m, "Invalid Password"),
        _ => panic!("a 31-byte key must be refused"),
    }
    match derive_password_key(&[1u8; 33], &[9u8; 32], None) {
        Err(Errors::Argon2Failed(m)) => assert_eq!(m, "Invalid Password"),
        _ => panic!("a 33-byte key must be refused"),
    }
    assert!(matches!(
        derive_password_key(&[1u8; 32], &[9u8; 49], None),
        Err(Errors::Argon2Failed(_))
    ));
    assert!(matches!(
        derive_password_key(&[1u8; 32], &[9u8; 49], Some(Salt::Salt([1u8; 32]))),
        Err(Errors::Argon2Failed(_))
    ));
    assert!(matches!(
        derive_password_key(&[1u8; 32], &[9u8; 5], None),
        Err(Errors::Argon2Failed(_))
    ));
    assert!(derive_password_key(&[1u8; 32], &[9u8; 48], None).is_ok());
    assert!(derive_password_key(&[1u8; 32], &[9u8; 6], None).is_ok());
    assert!(derive_password_key(&[1u8; 32], &[9u8; 5], Some(Salt::Salt([1u8; 32]))).is_ok());
}

#[test]
fn key_comparison_is_exact() {
    assert!(verify_keys_constant_time(&[1, 2, 3], &[1, 2, 3]).unwrap());
    assert!(!verify_keys_constant_time(&[1, 2, 3], &[1, 2, 4]).unwrap());
    assert!(!verify_keys_constant_time(&[1, 2, 3], &[1, 2]).unwrap());
    assert!(!verify_keys_constant_time(&[], &[0]).unwrap());
    assert!(verify_keys_constant_time(&[], &[]).unwrap());
}

#[test]
fn first_key_is_the_keyed_derivation() {
    let nonce = ramp();
    let first = derive_first_key("a password", &nonce);
    assert_eq!(first, blake3::derive_key("a password", &nonce));
    assert_ne!(first, nonce);
    assert_ne!(first, derive_first_key("a passwore", &nonce));
}

#[test]
fn deriving_the_password_key_zeroes_the_first_key() {
    let nonce = ramp();
    let mut first = derive_first_key("a password", &nonce);
    let copy = first;
    let key = derive_from_first_key(&mut first, &nonce, None).unwrap();
    assert_eq!(first, [0u8; 32]);
    assert_eq!(key, derive_password_key(&copy, &nonce, None).unwrap());
    assert_eq!(key, derive_keys("a password", &nonce, None).unwrap());
}
