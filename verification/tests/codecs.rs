use libpep::arithmetic::GroupElement;
use libpep::arithmetic::ScalarCanBeZero;
use libpep::arithmetic::ScalarNonZero;
use libpep::elgamal::decrypt;
use libpep::elgamal::encrypt;
use libpep::elgamal::ElGamal;
use libpep::utils::decode_hex;
use libpep::utils::encode_hex;
use libpep::utils::sha512;
use libpep::zkps::create_proof;
use libpep::zkps::verify_proof;
use libpep::zkps::Proof;

#[test]
fn point_codec_roundtrip() {
    let p = GroupElement::random();
    let encoded = p.encode();
    assert_eq!(GroupElement::decode(&encoded), Some(p));
    assert_eq!(GroupElement::decode_from_slice(&encoded), Some(p));
}

#[test]
fn point_generator_encoding() {
    // The canonical encoding of the ristretto255 base point.
    let expected = "e2f2ae0a6abc4e71a884a961c500515f58e30b6aa582dd8db6a65945e08d2d76";
    let g = GroupElement::generator();
    assert_eq!(encode_hex(&g.encode()), expected);
    let decoded = GroupElement::decode_from_slice(decode_hex(expected).unwrap().as_slice());
    assert_eq!(decoded, Some(g));
}

#[test]
fn point_decode_rejects_malformed() {
    // Wrong length.
    assert!(GroupElement::decode_from_slice(&[1u8; 31]).is_none());
    // 32 bytes that are not a canonical point encoding.
    assert!(GroupElement::decode_from_slice(&[0xffu8; 32]).is_none());
}

#[test]
fn scalar_codec_roundtrip() {
    let s = ScalarNonZero::random();
    let encoded = s.encode();
    assert_eq!(ScalarNonZero::decode(&encoded), Some(s));
    assert_eq!(ScalarNonZero::decode_from_slice(&encoded), Some(s));

    let z = ScalarCanBeZero::zero();
    let encoded = z.encode();
    assert_eq!(encoded, [0u8; 32]);
    assert_eq!(ScalarCanBeZero::decode(&encoded), Some(z));
    // Zero is refused as a non-zero scalar.
    assert!(ScalarNonZero::decode(&encoded).is_none());
}

#[test]
fn scalar_one_encoding() {
    let one = ScalarNonZero::one();
    let mut expected = [0u8; 32];
    expected[0] = 1;
    assert_eq!(one.encode(), expected);
}

#[test]
fn scalar_decode_rejects_non_canonical() {
    // 2^256 - 1 is far above the group order.
    assert!(ScalarCanBeZero::decode(&[0xffu8; 32]).is_none());
    assert!(ScalarNonZero::decode_from_slice(&[0xffu8; 31]).is_none());
}

#[test]
fn elgamal_codec_roundtrip() {
    let y = ScalarNonZero::random();
    let gy = y.mul_point(&GroupElement::generator());
    let m = GroupElement::random();
    let e = encrypt(&m, &gy);

    let encoded = e.encode();
    assert_eq!(encoded.len(), 64);
    let mut arr = [0u8; 64];
    arr.copy_from_slice(encoded.as_slice());
    assert_eq!(ElGamal::decode(&arr), Some(e));
    assert_eq!(ElGamal::decode_from_slice(encoded.as_slice()), Some(e));
    assert!(ElGamal::decode_from_slice(&encoded.as_slice()[..63]).is_none());

    let b64 = e.encode_to_base64();
    assert_eq!(b64.len(), 88);
    let decoded = ElGamal::decode_from_base64(&b64);
    assert_eq!(decoded, Some(e));
    assert!(ElGamal::decode_from_base64("not base64 at all!").is_none());

    let copy = e.clone();
    assert_eq!(copy, e);
    assert_eq!(decrypt(&copy, &y), m);
}

#[test]
fn proof_codec_roundtrip() {
    let a = ScalarNonZero::random();
    let m = GroupElement::random();
    let (ga, p) = create_proof(&a, &m);

    let encoded = p.encode();
    assert_eq!(encoded.len(), 128);
    let decoded = Proof::decode_from_slice(encoded.as_slice()).unwrap();
    assert!(decoded.n == p.n);
    assert!(decoded.c1 == p.c1);
    assert!(decoded.c2 == p.c2);
    assert!(decoded.s == p.s);
    assert!(verify_proof(&ga, &m, &decoded));

    assert!(Proof::decode_from_slice(&encoded.as_slice()[..127]).is_none());
}

#[test]
fn hex_codec() {
    assert_eq!(encode_hex(&[]), "");
    assert_eq!(encode_hex(&[0x00, 0x1f, 0xab]), "001fab");
    assert_eq!(decode_hex("001fab"), Some(vec![0x00, 0x1f, 0xab]));
    // Uppercase digits are accepted.
    assert_eq!(decode_hex("AB"), Some(vec![0xab]));
    // Odd length and non-digits are refused.
    assert_eq!(decode_hex("abc"), None);
    assert_eq!(decode_hex("zz"), None);

    let bytes = GroupElement::random().encode();
    let hex = encode_hex(&bytes);
    assert_eq!(hex.len(), 64);
    assert_eq!(decode_hex(&hex), Some(bytes.to_vec()));
}

#[test]
fn sha512_known_digest() {
    let digest = sha512(b"abc");
    let expected = "ddaf35a193617abacc417349ae20413112e6fa4e89a97ea20a9eeee64b55d39a\
                    2192992a274fc1a836ba3c23a3feebbd454d4423643ce80e2a9ac94fa54ca49f";
    assert_eq!(encode_hex(&digest), expected);
}
