use atomcrypte::frame::assemble;
use atomcrypte::frame::detect_version;
use atomcrypte::frame::has_prefix;
use atomcrypte::frame::legacy_tag_bytes;
use atomcrypte::frame::split_tag;
use atomcrypte::frame::split_trailer;
use atomcrypte::frame::tag_prefix_bytes;
use atomcrypte::frame::version_key_bytes;
use atomcrypte::frame::version_tag_bytes;
use atomcrypte::frame::BlobVersion;
use atomcrypte::parallel::concat_bytes;
use atomcrypte::parallel::make_pool;
use atomcrypte::parallel::pool_map;
use atomcrypte::parallel::pool_or_fault;
use atomcrypte::rounds::apply_rounds_in;
use atomcrypte::rounds::round_in;
use atomcrypte::rounds::round_key_of;
use atomcrypte::rounds::undo_rounds_in;
use atomcrypte::shift::reversed;
use atomcrypte::Errors;
use atomcrypte::Rejection;

fn plain_xor_encrypt(nonce: &[u8], key: &[u8], input: &[u8]) -> Vec<u8> {
    input
        .iter()
        .enumerate()
        .map(|(i, b)| {
            let n = nonce[i % nonce.len()];
            let p = key[i % key.len()];
            let masked = b ^ (n ^ p);
            let turned = masked.rotate_left((n ^ (p % 8)) as u32);
            turned.wrapping_add(p).wrapping_add(n)
        })
        .collect()
}

#[test]
fn tags_are_the_documented_texts() {
    assert_eq!(&version_tag_bytes(), b"atom-version:0x3");
    assert_eq!(&legacy_tag_bytes(), b"atom-version:0x2");
    assert_eq!(&tag_prefix_bytes(), b"atom-version");
    assert_eq!(version_key_bytes(), *blake3::hash(b"atom-crypte-password").as_bytes());
}

#[test]
fn prefix_test() {
    assert!(has_prefix(b"atom-version:0x3", b"atom-version"));
    assert!(has_prefix(b"atom", b"atom"));
    assert!(has_prefix(b"atom", b""));
    assert!(!has_prefix(b"ato", b"atom"));
    assert!(!has_prefix(b"atoM-version", b"atom"));
    assert!(!has_prefix(b"xatom", b"atom"));
}

#[test]
fn version_is_decided_by_the_two_readings() {
    let junk = [0u8; 16];
    assert!(matches!(detect_version(b"atom-version:0x3", &junk), Ok(BlobVersion::Current)));
    assert!(matches!(
        detect_version(b"atom-version:0x3", b"atom-version:0x2"),
        Ok(BlobVersion::Current)
    ));
    assert!(matches!(detect_version(&junk, b"atom-version:0x2"), Ok(BlobVersion::Legacy)));
    assert!(matches!(detect_version(b"atom-version:0x2", &junk), Ok(BlobVersion::Legacy)));
    assert!(matches!(
        detect_version(b"atom-version:0x4", &junk),
        Err(Rejection::FailedAuthentication)
    ));
    assert!(matches!(
        detect_version(&junk, b"atom-version:0x3"),
        Err(Rejection::FailedAuthentication)
    ));
    assert!(matches!(detect_version(&junk, &junk), Err(Rejection::UnknownAlgorithm)));
    assert!(matches!(detect_version(b"atom-versio", b""), Err(Rejection::UnknownAlgorithm)));
}

#[test]
fn assembled_fields_stand_in_order() {
    let nonce = [1u8; 32];
    let salt = [2u8; 32];
    let tag = [3u8; 16];
    let body = [4u8; 5];
    let mac = [5u8; 64];
    let plain = assemble(&nonce, Some(&salt), false, &tag, &body, &mac);
    assert_eq!(plain, [&tag[..], &body[..], &mac[..]].concat());
    let wrapped = assemble(&nonce, Some(&salt), true, &tag, &body, &mac);
    assert_eq!(wrapped, [&nonce[..], &tag[..], &body[..], &mac[..], &salt[..]].concat());
    let echoed = assemble(&nonce, None, true, &tag, &body, &mac);
    assert_eq!(echoed, [&nonce[..], &tag[..], &body[..], &mac[..], &nonce[..]].concat());
    assert_eq!(wrapped.len(), 32 + 16 + 5 + 64 + 32);
}

#[test]
fn frames_are_taken_apart_as_they_were_put_together() {
    let nonce = [1u8; 32];
    let salt = [2u8; 32];
    let tag = [3u8; 16];
    let body = [4u8; 7];
    let mac = [5u8; 64];
    let wrapped = assemble(&nonce, Some(&salt), true, &tag, &body, &mac);
    let (found_tag, rest) = split_tag(&wrapped, true);
    assert_eq!(found_tag, &tag[..]);
    let (found_body, found_mac) = split_trailer(rest, BlobVersion::Current, true).unwrap();
    assert_eq!(found_body, &body[..]);
    assert_eq!(found_mac, &mac[..]);

    let plain = assemble(&nonce, None, false, &tag, &body, &mac);
    let (found_tag, rest) = split_tag(&plain, false);
    assert_eq!(found_tag, &tag[..]);
    let (found_body, found_mac) = split_trailer(rest, BlobVersion::Current, false).unwrap();
    assert_eq!(found_body, &body[..]);
    assert_eq!(found_mac, &mac[..]);
}

#[test]
fn trailers_by_version() {
    let rest: Vec<u8> = (0..100u8).collect();
    let (body, mac) = split_trailer(&rest, BlobVersion::Legacy, false).unwrap();
    assert_eq!(body, &rest[..68]);
    assert_eq!(mac, &rest[68..]);
    let (body, mac) = split_trailer(&rest, BlobVersion::Legacy, true).unwrap();
    assert_eq!(body, &rest[..68]);
    assert_eq!(mac, &rest[68..]);
    let (body, mac) = split_trailer(&rest, BlobVersion::Current, false).unwrap();
    assert_eq!(body, &rest[..36]);
    assert_eq!(mac, &rest[36..]);
    let (body, mac) = split_trailer(&rest, BlobVersion::Current, true).unwrap();
    assert_eq!(body, &rest[..4]);
    assert_eq!(mac, &rest[4..68]);
    assert!(matches!(
        split_trailer(&rest[..95], BlobVersion::Current, true),
        Err(Rejection::TooShort)
    ));
    assert!(matches!(
        split_trailer(&rest[..63], BlobVersion::Current, false),
        Err(Rejection::TooShort)
    ));
    assert!(matches!(
        split_trailer(&rest[..31], BlobVersion::Legacy, false),
        Err(Rejection::TooShort)
    ));
    let (body, mac) = split_trailer(&rest[..64], BlobVersion::Current, false).unwrap();
    assert!(body.is_empty());
    assert_eq!(mac.len(), 64);
}

#[test]
fn round_keys_hash_a_growing_span() {
    let key: Vec<u8> = (100..132u8).collect();
    assert_eq!(round_key_of(&key, 0), *blake3::hash(b"").as_bytes());
    assert_eq!(round_key_of(&key, 1), *blake3::hash(&key[..8]).as_bytes());
    assert_eq!(round_key_of(&key, 3), *blake3::hash(&key[..24]).as_bytes());
    assert_eq!(round_key_of(&key, 4), *blake3::hash(&key).as_bytes());
    assert_eq!(round_key_of(&key, 5), *blake3::hash(&key).as_bytes());
    assert_eq!(round_key_of(&key, usize::MAX), *blake3::hash(&key).as_bytes());
    assert_eq!(round_key_of(&key[..10], 2), *blake3::hash(&key[..10]).as_bytes());
}

#[test]
fn a_round_encrypts_chunk_by_chunk() {
    let pool = make_pool(2).unwrap();
    let mut nonce = [0u8; 32];
    let mut key = [0u8; 32];
    for i in 0..32 {
        nonce[i] = (i as u8) * 7 + 1;
        key[i] = (i as u8) * 5 + 3;
    }
    let buf: Vec<u8> = (0..50u8).collect();
    let out = round_in(&pool, &nonce, &key, &buf, true);
    let mut expected = Vec::new();
    for chunk in buf.chunks(14) {
        expected.extend(plain_xor_encrypt(&nonce, &key, chunk));
    }
    assert_eq!(out, expected);
    assert_ne!(out, plain_xor_encrypt(&nonce, &key, &buf));
    assert_eq!(round_in(&pool, &nonce, &key, &out, false), buf);
}

#[test]
fn rounds_run_once_more_than_their_number() {
    let pool = make_pool(2).unwrap();
    let nonce = [0x21u8; 32];
    let key: Vec<u8> = (1..33u8).collect();
    let buf: Vec<u8> = (0..2000u32).map(|i| (i % 256) as u8).collect();
    for rounds in [0usize, 1, 3, 6] {
        let out = apply_rounds_in(&pool, &nonce, &key, &buf, rounds);
        let mut expected = buf.clone();
        for i in 0..=rounds {
            let round_key = *blake3::hash(&key[..(i * 8).min(32)]).as_bytes();
            let mut next = Vec::new();
            for chunk in expected.chunks(24) {
                next.extend(plain_xor_encrypt(&nonce, &round_key, chunk));
            }
            expected = next;
        }
        assert_eq!(out, expected);
        assert_eq!(undo_rounds_in(&pool, &nonce, &key, &out, rounds), buf);
    }
}

#[test]
fn pool_map_keeps_order_and_index() {
    let pool = make_pool(3).unwrap();
    let data: Vec<u8> = (0..=255u8).collect();
    let out = pool_map(&pool, &data, |i: usize, b: u8| b.wrapping_add((i % 7) as u8));
    let expected: Vec<u8> =
        data.iter().enumerate().map(|(i, b)| b.wrapping_add((i % 7) as u8)).collect();
    assert_eq!(out, expected);
    assert_ne!(out, data);
}

#[test]
fn bytes_are_joined_and_reversed() {
    assert_eq!(concat_bytes(&[1, 2], &[3]), vec![1, 2, 3]);
    assert_eq!(concat_bytes(&[], &[]), Vec::<u8>::new());
    assert_eq!(reversed(&[1, 2, 3]), vec![3, 2, 1]);
    assert_eq!(reversed(&[]), Vec::<u8>::new());
}

#[test]
fn a_built_pool_is_handed_on() {
    let built = rayon::ThreadPoolBuilder::new().num_threads(3).build();
    let pool = match pool_or_fault(built) {
        Ok(pool) => pool,
        Err(_) => panic!("a pool that was built must be handed on"),
    };
    assert_eq!(pool.current_num_threads(), 3);
    assert_eq!(make_pool(3).unwrap().current_num_threads(), 3);
}

#[test]
fn a_failed_build_is_a_thread_pool_fault() {
    let built = rayon::ThreadPoolBuilder::new()
        .num_threads(2)
        .spawn_handler(|_thread| {
            Err(std::io::Error::new(std::io::ErrorKind::Other, "no workers today"))
        })
        .build();
    assert!(built.is_err());
    match pool_or_fault(built) {
        Err(Errors::ThreadPool(m)) => assert!(m.contains("no workers today")),
        _ => panic!("a failed build must be reported as a thread pool fault"),
    }
}
