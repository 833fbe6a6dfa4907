use sourcetrait::base62::CodeBase62;
use sourcetrait::nom::Nom;
use sourcetrait::nonce::{Nonce, NonceGenerator, NoncePair};

#[test]
fn base62_codes() {
    assert_eq!(CodeBase62::from_u64(0).take(), "0");
    assert_eq!(CodeBase62::from_u64(61).take(), "Z");
    assert_eq!(CodeBase62::from_u64(62).take(), "10");
    assert_eq!(CodeBase62::from_u64(u64::MAX).take(), "lYGhA16ahyf");
    assert!(CodeBase62::conforms("abcXYZ09"));
    assert!(!CodeBase62::conforms(""));
    assert!(!CodeBase62::conforms("ab-c"));
}

#[test]
fn nom_hashes_little_endian_bytes() {
    assert_eq!(Nom::from_u64(7).get(), xxhash_rust::xxh3::xxh3_64(&7u64.to_le_bytes()));
    assert_eq!(Nom::from_i32(-3).get(), xxhash_rust::xxh3::xxh3_64(&(-3i32).to_le_bytes()));
    assert_eq!(Nom::from_u16(513).get(), xxhash_rust::xxh3::xxh3_64(&513u16.to_le_bytes()));
    assert_eq!(Nom::from_i8(-1).get(), xxhash_rust::xxh3::xxh3_64(&[255u8]));
    assert_eq!(Nom::from_usize(9).get(), xxhash_rust::xxh3::xxh3_64(&9usize.to_le_bytes()));
    assert_eq!(Nom::from_str("abc").get(), xxhash_rust::xxh3::xxh3_64(b"abc"));
    assert_ne!(Nom::from_str("abc").get(), Nom::from_str("abd").get());
    let n = Nom::from_u8(1);
    assert_eq!(n.to_string(), CodeBase62::from_u64(n.get()).take());
}

#[test]
fn nonce_of_text_and_code() {
    let n = Nonce::parse_str("hello");
    assert_eq!(n.get(), xxhash_rust::xxh3::xxh3_64(b"hello"));
    let pair: NoncePair = n.into_pair();
    assert_eq!(pair.nom(), n.get());
    assert_eq!(pair.as_str(), CodeBase62::from_u64(n.get()).take());
    assert_eq!(pair.to_nonce(), n);
    assert_eq!(Nonce::from_str(&n.to_string()), Ok(n));
}

#[test]
fn nonce_code_roundtrip_values() {
    for v in [0u64, 1, 61, 62, 3843, 1 << 40, u64::MAX] {
        let n = Nonce::new_unchecked(v);
        assert_eq!(Nonce::from_str(&n.to_string()), Ok(n));
    }
}

#[test]
fn nonce_decode_errors() {
    assert_eq!(Nonce::from_str(""), Err("Invalid base62"));
    assert_eq!(Nonce::from_str("ab-c"), Err("Invalid base62"));
    // one past u64::MAX
    assert_eq!(Nonce::from_str("lYGhA16ahyg"), Err("Invalid base62"));
    assert_eq!(Nonce::from_str("lYGhA16ahyf"), Ok(Nonce::new_unchecked(u64::MAX)));
    assert_eq!(Nonce::from_str("0010"), Ok(Nonce::new_unchecked(62)));
}

#[test]
fn nonce_pairs() {
    let p = NoncePair::new_unchecked(62, CodeBase62::from_u64(62));
    assert_eq!(p.as_str(), "10");
    assert_eq!(p.base62().get(), "10");
    let (n, c) = NoncePair::from_tuple_unchecked((5, CodeBase62::from_u64(5))).take();
    assert_eq!(n, 5);
    assert_eq!(c.take(), "5");
    assert_eq!(p.into_nonce().take(), 62);
}

#[test]
fn generated_nonces_differ() {
    let g = NonceGenerator::new();
    let a = g.generate();
    let b = g.generate();
    assert_ne!(a, b);
    let c = Nonce::generate_with(&g, b"key");
    let d = Nonce::generate_with(&g, b"key");
    assert_ne!(c, d);
    let _ = Nonce::generate(&g);
}

#[test]
fn nom_of_float_bits() {
    let x = 1.5f32;
    assert_eq!(Nom::from_u32(x.to_bits()).get(), xxhash_rust::xxh3::xxh3_64(&x.to_le_bytes()));
    let y = -2.25f64;
    assert_eq!(Nom::from_u64(y.to_bits()).get(), xxhash_rust::xxh3::xxh3_64(&y.to_le_bytes()));
}

#[test]
fn conversions_into_codes() {
    assert_eq!(Nom::from(7u64), Nom::from_u64(7));
    assert_eq!(Nom::from(-3i32), Nom::from_i32(-3));
    assert_eq!(Nom::from("abc"), Nom::from_str("abc"));
    assert_eq!(Nom::from(String::from("abc")), Nom::from_str("abc"));
    assert_eq!(Nom::from_u32(u32::from_le_bytes(*b"abcd")), Nom::from_str("abcd"));
    assert_eq!(CodeBase62::from(62u64).take(), "10");
}

#[test]
fn base62_code_shape() {
    assert_eq!(CodeBase62::from_u64(u64::MAX).take().len(), 11);
    assert_eq!(CodeBase62::from_u64(3843).take(), "ZZ");
    assert_eq!(CodeBase62::from_u64(3844).take(), "100");
    assert_eq!(CodeBase62::from_u64(0).take(), "0");
    assert!(!CodeBase62::from_u64(62).take().starts_with('0'));
}
