use atomcrypte::byteops::rotate_left8;
use atomcrypte::byteops::rotate_right8;
use atomcrypte::columns::inverse_triangle_mix_columns;
use atomcrypte::columns::triangle_mix_columns;
use atomcrypte::galois::multiply_in;
use atomcrypte::galois::GaloisField;
use atomcrypte::mix::mix_blocks;
use atomcrypte::mix::unmix_blocks;
use atomcrypte::sbox::generate_dynamic_sbox;
use atomcrypte::sbox::generate_inv_s_box;
use atomcrypte::sbox::in_s_bytes;
use atomcrypte::sbox::s_bytes;
use atomcrypte::shift::dynamic_shift;
use atomcrypte::shift::dynamic_sizes;
use atomcrypte::shift::dynamic_unshift;
use atomcrypte::shift::get_chunk_sizes;
use atomcrypte::shift::shift_backend;
use atomcrypte::shift::ShiftBackend;
use atomcrypte::xor::xor_decrypt;
use atomcrypte::xor::xor_encrypt;
use atomcrypte::Config;
use atomcrypte::DeviceList;
use atomcrypte::Errors;
use atomcrypte::IrreduciblePoly;
use atomcrypte::SboxTypes;

fn cfg() -> Config {
    Config::default().set_thread(2)
}

fn plain_xor_encrypt(nonce: &[u8], key: &[u8], input: &[u8]) -> Vec<u8> {
    input
        .iter()
        .enumerate()
        .map(|(i, b)| {
            let n = nonce[i % nonce.len()];
            let p = key[i % key.len()];
            let masked = b ^ (n ^ p);
            let turned = masked.rotate_left((n ^ (p % 8)) as u32);
            turned.wrapping_add(p).wrapping_add(n)
        })
        .collect()
}

fn plain_mix(table: &[u8; 32], input: &[u8]) -> Vec<u8> {
    input
        .iter()
        .enumerate()
        .map(|(i, b)| {
            let t = table[i % 32];
            let mut x = b.wrapping_add(t);
            x = x.rotate_right((t % 8) as u32);
            x ^= t;
            x.wrapping_add(t)
        })
        .collect()
}

fn plain_gf_mul(poly: u8, a: u8, b: u8) -> u8 {
    let mut acc: u16 = 0;
    for i in 0..8 {
        if (b >> i) & 1 == 1 {
            acc ^= (a as u16) << i;
        }
    }
    let modulus: u16 = 0x100 | poly as u16;
    for bit in (8..16).rev() {
        if (acc >> bit) & 1 == 1 {
            acc ^= modulus << (bit - 8);
        }
    }
    acc as u8
}

#[test]
fn rotations_agree_with_std() {
    for b in 0..=255u8 {
        for k in 0..=255u8 {
            assert_eq!(rotate_left8(b, k), b.rotate_left(k as u32));
            assert_eq!(rotate_right8(b, k), b.rotate_right(k as u32));
        }
    }
}

#[test]
fn xor_encrypt_exact_byte() {
    // n = 0x10, p = 0x03: mask 0x13, turn by (0x10 ^ 3) mod 8 = 3.
    // 0x41 ^ 0x13 = 0x52; rotl(0x52, 3) = 0x92; + 0x03 = 0x95; + 0x10 = 0xa5.
    let out = xor_encrypt(&[0x10], &[0x03], &[0x41]).unwrap();
    assert_eq!(out, vec![0xa5]);
    let back = xor_decrypt(&[0x10], &[0x03], &[0xa5]).unwrap();
    assert_eq!(back, vec![0x41]);
}

#[test]
fn xor_encrypt_exact_byte_with_wrapping_sums() {
    // n = 0xff, p = 0x0c: mask 0xf3, turn by (0xff ^ (0x0c mod 8)) mod 8 = 3.
    // 0x01 ^ 0xf3 = 0xf2; rotl(0xf2, 3) = 0x97; + 0x0c = 0xa3; + 0xff = 0xa2.
    let out = xor_encrypt(&[0xff], &[0x0c], &[0x01]).unwrap();
    assert_eq!(out, vec![0xa2]);
    assert_eq!(xor_decrypt(&[0xff], &[0x0c], &out).unwrap(), vec![0x01]);
}

#[test]
fn xor_encrypt_matches_the_formula_on_long_input() {
    let nonce: Vec<u8> = (0..32u8).map(|i| i.wrapping_mul(7).wrapping_add(3)).collect();
    let key: Vec<u8> = (0..32u8).map(|i| i.wrapping_mul(29).wrapping_add(11)).collect();
    let input: Vec<u8> = (0..1000u32).map(|i| (i * 31 % 251) as u8).collect();
    let out = xor_encrypt(&nonce, &key, &input).unwrap();
    assert_eq!(out, plain_xor_encrypt(&nonce, &key, &input));
    assert_ne!(out, input);
    assert_eq!(xor_decrypt(&nonce, &key, &out).unwrap(), input);
}

#[test]
fn xor_encrypt_cycles_through_short_nonce_and_key() {
    let nonce = [1u8, 2, 3];
    let key = [9u8, 8];
    let input = [0u8; 7];
    let out = xor_encrypt(&nonce, &key, &input).unwrap();
    assert_eq!(out, plain_xor_encrypt(&nonce, &key, &input));
}

#[test]
fn xor_passes_refuse_empty_input() {
    match xor_encrypt(&[1u8; 32], &[2u8; 32], &[]) {
        Err(Errors::InvalidXor(m)) => assert_eq!(m, "Empty vector"),
        _ => panic!("an empty input must be refused"),
    }
    match xor_decrypt(&[1u8; 32], &[2u8; 32], &[]) {
        Err(Errors::InvalidXor(m)) => assert_eq!(m, "Empty vector"),
        _ => panic!("an empty input must be refused"),
    }
    assert!(xor_encrypt(&[], &[], &[]).is_err());
}

#[test]
fn mix_blocks_matches_the_formula() {
    let nonce = [7u8; 32];
    let key = [9u8; 32];
    let table = *blake3::hash(&[&nonce[..], &key[..]].concat()).as_bytes();
    let data: Vec<u8> = (0..200u32).map(|i| (i * 13 % 256) as u8).collect();
    let mixed = mix_blocks(&data, &nonce, &key, cfg()).unwrap();
    assert_eq!(mixed, plain_mix(&table, &data));
    assert_ne!(mixed, data);
    assert_eq!(unmix_blocks(&mixed, &nonce, &key, cfg()).unwrap(), data);
}

#[test]
fn mix_blocks_leaves_three_bytes_alone() {
    let data = [1u8, 2, 3];
    assert_eq!(mix_blocks(&data, &[7u8; 32], &[9u8; 32], cfg()).unwrap(), data.to_vec());
    assert_eq!(unmix_blocks(&data, &[7u8; 32], &[9u8; 32], cfg()).unwrap(), data.to_vec());
    let four = [1u8, 2, 3, 4];
    assert_ne!(mix_blocks(&four, &[7u8; 32], &[9u8; 32], cfg()).unwrap(), four.to_vec());
    let two = [1u8, 2];
    assert_ne!(mix_blocks(&two, &[7u8; 32], &[9u8; 32], cfg()).unwrap(), two.to_vec());
}

#[test]
fn mix_blocks_of_nothing_is_nothing() {
    assert_eq!(mix_blocks(&[], &[7u8; 32], &[9u8; 32], cfg()).unwrap(), Vec::<u8>::new());
}

#[test]
fn galois_product_of_the_standard_example() {
    assert_eq!(multiply_in(0x1b, 0x57, 0x83), 0xc1);
    assert_eq!(multiply_in(0x1b, 0x57, 0x13), 0xfe);
    assert_eq!(multiply_in(0x1b, 0, 0x13), 0);
    assert_eq!(multiply_in(0x1b, 1, 0x13), 0x13);
}

#[test]
fn galois_tables_match_the_formula() {
    for poly in [0x1bu8, 0x4d, 0x00, 0x1d] {
        let gf = GaloisField::new(poly);
        for a in 0..=255u8 {
            for b in [0u8, 1, 2, 3, 4, 5, 0x53, 0x80, 0xca, 0xff] {
                assert_eq!(gf.fast_multiply(a, b), plain_gf_mul(poly, a, b));
                assert_eq!(gf.multiply(a, b), plain_gf_mul(poly, a, b));
            }
        }
    }
}

#[test]
fn galois_inverses_under_the_aes_polynomial() {
    let gf = GaloisField::new(0x1b);
    assert_eq!(gf.inverse(0), None);
    assert_eq!(gf.inverse(1), Some(1));
    assert_eq!(gf.inverse(3), Some(0xf6));
    assert_eq!(gf.inverse(4), Some(0xcb));
    assert_eq!(gf.inverse(5), Some(0x52));
    assert_eq!(gf.inverse(0x53), Some(0xca));
    for a in 1..=255u8 {
        let inv = gf.inverse(a).unwrap();
        assert_eq!(gf.fast_multiply(a, inv), 1);
    }
}

#[test]
fn galois_entry_is_zero_where_no_inverse_exists() {
    // Modulo x^8 the element x^2 is nilpotent.
    let gf = GaloisField::new(0x00);
    assert_eq!(gf.inverse(4), Some(0));
    assert_eq!(gf.inverse(0), None);
}

#[test]
fn triangle_mix_of_one_group() {
    let gf = GaloisField::new(IrreduciblePoly::AES.value());
    // a = 1, b = 2, c = 3: (3*1 ^ 2*2 ^ 3, 4*2 ^ 3, 5*3) = (3 ^ 4 ^ 3, 8 ^ 3, 15).
    let out = triangle_mix_columns(&[1, 2, 3], &gf, cfg()).unwrap();
    assert_eq!(out, vec![4, 11, 15]);
    let back = inverse_triangle_mix_columns(&out, &gf, cfg()).unwrap();
    assert_eq!(back, vec![1, 2, 3]);
}

#[test]
fn triangle_mix_leaves_trailing_bytes() {
    let gf = GaloisField::new(0x1b);
    let out = triangle_mix_columns(&[1, 2, 3, 0xaa, 0xbb], &gf, cfg()).unwrap();
    assert_eq!(out, vec![4, 11, 15, 0xaa, 0xbb]);
    let short = triangle_mix_columns(&[0xaa, 0xbb], &gf, cfg()).unwrap();
    assert_eq!(short, vec![0xaa, 0xbb]);
    let back = inverse_triangle_mix_columns(&out, &gf, cfg()).unwrap();
    assert_eq!(back, vec![1, 2, 3, 0xaa, 0xbb]);
}

#[test]
fn triangle_mix_round_trip_under_custom_polynomial() {
    let gf = GaloisField::new(IrreduciblePoly::Custom(0x4d).value());
    let data: Vec<u8> = (0..=255u8).collect();
    let mixed = triangle_mix_columns(&data, &gf, cfg()).unwrap();
    assert_ne!(mixed, data);
    assert_eq!(inverse_triangle_mix_columns(&mixed, &gf, cfg()).unwrap(), data);
}

#[test]
fn triangle_mix_is_not_undone_without_inverses() {
    let gf = GaloisField::new(0x00);
    let data = vec![0u8, 1, 0];
    let mixed = triangle_mix_columns(&data, &gf, cfg()).unwrap();
    assert_ne!(inverse_triangle_mix_columns(&mixed, &gf, cfg()).unwrap(), data);
}

fn plain_sbox(seed: &[u8; 32]) -> [u8; 256] {
    let mut sbox = [0u8; 256];
    for i in 0..256 {
        sbox[i] = i as u8;
    }
    for i in (1..256usize).rev() {
        let j = (seed[i % 32] as usize + seed[(i * 7) % 32] as usize) % (i + 1);
        sbox.swap(i, j);
    }
    sbox
}

#[test]
fn sbox_matches_the_formula_for_each_seeding() {
    let nonce = [5u8; 32];
    let key = [6u8; 32];
    let both = *blake3::hash(&[&nonce[..], &key[..]].concat()).as_bytes();
    let by_key = *blake3::hash(&key).as_bytes();
    let by_nonce = *blake3::hash(&nonce).as_bytes();
    let c = cfg();
    assert_eq!(
        generate_dynamic_sbox(&nonce, &key, c.with_sbox(SboxTypes::PasswordAndNonceBased)),
        plain_sbox(&both)
    );
    assert_eq!(
        generate_dynamic_sbox(&nonce, &key, c.with_sbox(SboxTypes::PasswordBased)),
        plain_sbox(&by_key)
    );
    assert_eq!(
        generate_dynamic_sbox(&nonce, &key, c.with_sbox(SboxTypes::NonceBased)),
        plain_sbox(&by_nonce)
    );
}

#[test]
fn sbox_is_a_permutation_and_inverts() {
    let sbox = generate_dynamic_sbox(&[1u8; 32], &[2u8; 32], cfg());
    let inv = generate_inv_s_box(&sbox);
    let mut seen = [false; 256];
    for i in 0..256 {
        assert!(!seen[sbox[i] as usize]);
        seen[sbox[i] as usize] = true;
        assert_eq!(inv[sbox[i] as usize] as usize, i);
    }
}

#[test]
fn inverse_box_of_a_box_with_repeats_keeps_the_last_position() {
    let mut table = [0u8; 256];
    table[10] = 7;
    table[20] = 7;
    let inv = generate_inv_s_box(&table);
    assert_eq!(inv[7], 20);
    assert_eq!(inv[0], 255);
    assert_eq!(inv[1], 0);
}

#[test]
fn substitution_round_trip() {
    let nonce = [3u8; 32];
    let key = [4u8; 32];
    let data: Vec<u8> = (0..=255u8).rev().collect();
    let sbox = generate_dynamic_sbox(&nonce, &key, cfg());
    let there = s_bytes(&data, &sbox, cfg()).unwrap();
    let expected: Vec<u8> = data.iter().map(|b| sbox[*b as usize]).collect();
    assert_eq!(there, expected);
    assert_eq!(in_s_bytes(&there, &nonce, &key, cfg()).unwrap(), data);
}

#[test]
fn dynamic_sizes_at_every_threshold() {
    assert_eq!(dynamic_sizes(0), 14);
    assert_eq!(dynamic_sizes(999), 14);
    assert_eq!(dynamic_sizes(1_000), 24);
    assert_eq!(dynamic_sizes(9_999), 24);
    assert_eq!(dynamic_sizes(10_000), 64);
    assert_eq!(dynamic_sizes(99_999), 64);
    assert_eq!(dynamic_sizes(100_000), 128);
    assert_eq!(dynamic_sizes(999_999), 128);
    assert_eq!(dynamic_sizes(1_000_000), 4096);
    assert_eq!(dynamic_sizes(9_999_999), 4096);
    assert_eq!(dynamic_sizes(10_000_000), 8096);
    assert_eq!(dynamic_sizes(99_999_999), 8096);
    assert_eq!(dynamic_sizes(100_000_000), 16384);
    assert_eq!(dynamic_sizes(9_999_999_999), 16384);
    assert_eq!(dynamic_sizes(10_000_000_000), 32768);
    assert_eq!(dynamic_sizes(999_999_999_999), 32768);
    assert_eq!(dynamic_sizes(1_000_000_000_000), 65536);
    assert_eq!(dynamic_sizes(99_999_999_999_999), 65536);
    assert_eq!(dynamic_sizes(100_000_000_000_000), 1048576);
    assert_eq!(dynamic_sizes(9_999_999_999_999_999), 1048576);
    assert_eq!(dynamic_sizes(10_000_000_000_000_000), 2097152);
    assert_eq!(dynamic_sizes(999_999_999_999_999_999), 2097152);
    assert_eq!(dynamic_sizes(1_000_000_000_000_000_000), 4194304);
    assert_eq!(dynamic_sizes(9_999_999_999_999_999_999), 4194304);
}

#[test]
fn dynamic_sizes_never_shrink() {
    let lens: [usize; 14] = [
        0,
        1,
        999,
        1_000,
        10_000,
        100_000,
        1_000_000,
        10_000_000,
        100_000_000,
        10_000_000_000,
        1_000_000_000_000,
        100_000_000_000_000,
        10_000_000_000_000_000,
        1_000_000_000_000_000_000,
    ];
    for pair in lens.windows(2) {
        assert!(dynamic_sizes(pair[0]) <= dynamic_sizes(pair[1]));
    }
}

#[test]
fn chunk_sizes_follow_the_schedule() {
    let mut seed = [0u8; 32];
    for i in 0..32 {
        seed[i] = (i as u8) * 3 + 1;
    }
    // len 40 has base 14. cursor 0: 14 + seed[0] % 8 = 14 + 1 = 15.
    // cursor 15: 14 + seed[15] % 8 = 14 + 46 % 8 = 20; cursor 35: 5 remain.
    assert_eq!(get_chunk_sizes(40, &seed), vec![15, 20, 5]);
    assert_eq!(get_chunk_sizes(0, &seed), Vec::<usize>::new());
    assert_eq!(get_chunk_sizes(15, &seed), vec![15]);
    assert_eq!(get_chunk_sizes(16, &seed), vec![15, 1]);
    let sizes = get_chunk_sizes(5_000, &seed);
    assert_eq!(sizes.iter().sum::<usize>(), 5_000);
    for s in &sizes[..sizes.len() - 1] {
        assert!(*s >= 24 && *s <= 31);
    }
}

fn plain_shift(data: &[u8], nonce: &[u8], password: &[u8]) -> Vec<u8> {
    let key = *blake3::hash(&[nonce, password].concat()).as_bytes();
    let sizes = get_chunk_sizes(data.len(), &key);
    let mut out = Vec::new();
    let mut cursor = 0;
    for (i, size) in sizes.iter().enumerate() {
        let rot = (nonce[i % nonce.len()] % 8) as u32;
        for b in &data[cursor..cursor + size] {
            out.push(b.rotate_left(rot) ^ key[i % 32]);
        }
        cursor += size;
    }
    out.reverse();
    out
}

#[test]
fn dynamic_shift_matches_the_formula() {
    let nonce: Vec<u8> = (0..32u8).map(|i| i.wrapping_mul(5).wrapping_add(1)).collect();
    let password = [0x42u8; 32];
    let data: Vec<u8> = (0..3000u32).map(|i| (i * 7 % 256) as u8).collect();
    let shifted = dynamic_shift(&data, &nonce, &password, cfg()).unwrap();
    assert_eq!(shifted, plain_shift(&data, &nonce, &password));
    assert_ne!(shifted, data);
    assert_eq!(dynamic_unshift(&shifted, &nonce, &password, cfg()).unwrap(), data);
}

#[test]
fn dynamic_shift_of_one_byte() {
    let nonce = [3u8; 32];
    let password = [0u8; 32];
    let key = *blake3::hash(&[&nonce[..], &password[..]].concat()).as_bytes();
    let out = dynamic_shift(&[0x81], &nonce, &password, cfg()).unwrap();
    assert_eq!(out, vec![0x81u8.rotate_left(3) ^ key[0]]);
    assert_eq!(dynamic_shift(&[], &nonce, &password, cfg()).unwrap(), Vec::<u8>::new());
}

#[test]
fn backend_follows_device_and_probe() {
    assert!(matches!(shift_backend(DeviceList::Cpu, 0), ShiftBackend::Workers));
    assert!(matches!(shift_backend(DeviceList::Cpu, 3), ShiftBackend::Workers));
    assert!(matches!(shift_backend(DeviceList::Gpu, 0), ShiftBackend::Kernel));
    assert!(matches!(shift_backend(DeviceList::Gpu, 1), ShiftBackend::Kernel));
    assert!(matches!(shift_backend(DeviceList::Auto, 0), ShiftBackend::Workers));
    assert!(matches!(shift_backend(DeviceList::Auto, 1), ShiftBackend::Kernel));
}

#[test]
fn every_stage_also_undoes_its_inverse() {
    let nonce: Vec<u8> = (0..32u8).map(|i| i.wrapping_mul(17).wrapping_add(2)).collect();
    let key = [0x6bu8; 32];
    let data: Vec<u8> = (0..600u32).map(|i| (i * 11 % 256) as u8).collect();
    let c = cfg();

    let back = xor_decrypt(&nonce, &key, &data).unwrap();
    assert_eq!(xor_encrypt(&nonce, &key, &back).unwrap(), data);

    let back = unmix_blocks(&data, &nonce, &key, c).unwrap();
    assert_eq!(mix_blocks(&back, &nonce, &key, c).unwrap(), data);

    let gf = GaloisField::new(0x1b);
    let back = inverse_triangle_mix_columns(&data, &gf, c).unwrap();
    assert_ne!(back, data);
    assert_eq!(triangle_mix_columns(&back, &gf, c).unwrap(), data);

    let back = dynamic_unshift(&data, &nonce, &key, c).unwrap();
    assert_eq!(dynamic_shift(&back, &nonce, &key, c).unwrap(), data);

    let sbox = generate_dynamic_sbox(&nonce, &key, c);
    let back = in_s_bytes(&data, &nonce, &key, c).unwrap();
    assert_eq!(s_bytes(&back, &sbox, c).unwrap(), data);
}
