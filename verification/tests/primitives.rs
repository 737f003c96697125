use libpep::arithmetic::GroupElement;
use libpep::arithmetic::ScalarNonZero;
use libpep::elgamal::decrypt;
use libpep::elgamal::encrypt;
use libpep::elgamal::ElGamal;
use libpep::primitives::rekey;
use libpep::primitives::rekey2;
use libpep::primitives::rerandomize;
use libpep::primitives::reshuffle;
use libpep::primitives::reshuffle2;
use libpep::primitives::rsk;
use libpep::primitives::rsk2;
use libpep::primitives::rrsk;
use libpep::primitives::rrsk2;

fn generator() -> GroupElement {
    GroupElement::generator()
}

#[test]
fn elgamal_encryption() {
    // secret key
    let s = ScalarNonZero::random();
    // public key
    let p = s.mul_point(&generator());

    // choose a random value to encrypt
    let value = GroupElement::random();

    // encrypt/decrypt this value
    let encrypted = encrypt(&value, &p);
    let decrypted = decrypt(&encrypted, &s);

    assert_eq!(value, decrypted);

    let encoded = encrypted.encode();
    let decoded = ElGamal::decode_from_slice(encoded.as_slice());

    assert_eq!(Some(encrypted), decoded);
}

#[test]
fn pep_rekey() {
    // secret key
    let y = ScalarNonZero::random();
    // public key
    let gy = y.mul_point(&generator());

    let k = ScalarNonZero::random();

    // choose a random value to encrypt
    let m = GroupElement::random();

    // encrypt/decrypt this value
    let encrypted = encrypt(&m, &gy);

    let rekeyed = rekey(&encrypted, &k);

    let decrypted = decrypt(&rekeyed, &k.mul(&y));

    assert_eq!(m, decrypted);
}

#[test]
fn pep_reshuffle() {
    // secret key
    let y = ScalarNonZero::random();
    // public key
    let gy = y.mul_point(&generator());

    let s = ScalarNonZero::random();

    // choose a random value to encrypt
    let m = GroupElement::random();

    // encrypt/decrypt this value
    let encrypted = encrypt(&m, &gy);

    let reshuffled = reshuffle(&encrypted, &s);

    let decrypted = decrypt(&reshuffled, &y);

    assert_eq!(s.mul_point(&m), decrypted);
}

#[test]
fn pep_rsk() {
    // secret key
    let y = ScalarNonZero::random();
    // public key
    let gy = y.mul_point(&generator());

    let k = ScalarNonZero::random();
    let s = ScalarNonZero::random();

    // choose a random value to encrypt
    let m = GroupElement::random();

    // encrypt/decrypt this value
    let encrypted = encrypt(&m, &gy);

    let rsked = rsk(&encrypted, &s, &k);

    let decrypted = decrypt(&rsked, &k.mul(&y));

    assert_eq!(s.mul_point(&m), decrypted);
}

#[test]
fn pep_rekey_from_to() {
    // secret key
    let y = ScalarNonZero::random();
    // public key
    let gy = y.mul_point(&generator());

    let k_from = ScalarNonZero::random();
    let k_to = ScalarNonZero::random();

    // choose a random value to encrypt
    let m = GroupElement::random();

    // encrypt/decrypt this value
    let encrypted = encrypt(&m, &k_from.mul_point(&gy));

    let rekeyed = rekey2(&encrypted, &k_from, &k_to);

    let decrypted = decrypt(&rekeyed, &k_to.mul(&y));

    assert_eq!(m, decrypted);
}

#[test]
fn pep_reshuffle_from_to() {
    // secret key
    let y = ScalarNonZero::random();
    // public key
    let gy = y.mul_point(&generator());

    let s_from = ScalarNonZero::random();
    let s_to = ScalarNonZero::random();

    // choose a random value to encrypt
    let m = GroupElement::random();

    // encrypt/decrypt this value
    let encrypted = encrypt(&m, &gy);

    let reshuffled = reshuffle2(&encrypted, &s_from, &s_to);

    let decrypted = decrypt(&reshuffled, &y);

    assert_eq!(s_from.invert().mul(&s_to).mul_point(&m), decrypted);
}

#[test]
fn pep_rsk_from_to() {
    // secret key
    let y = ScalarNonZero::random();
    // public key
    let gy = y.mul_point(&generator());

    let s_from = ScalarNonZero::random();
    let s_to = ScalarNonZero::random();
    let k_from = ScalarNonZero::random();
    let k_to = ScalarNonZero::random();

    // choose a random value to encrypt
    let m = GroupElement::random();

    // encrypt/decrypt this value
    let encrypted = encrypt(&m, &k_from.mul_point(&gy));

    let rsked = rsk2(&encrypted, &s_from, &s_to, &k_from, &k_to);

    let decrypted = decrypt(&rsked, &k_to.mul(&y));

    assert_eq!(s_from.invert().mul(&s_to).mul_point(&m), decrypted);
}

#[test]
fn pep_rerandomize() {
    let y = ScalarNonZero::random();
    let gy = y.mul_point(&generator());
    let r = ScalarNonZero::random();
    let m = GroupElement::random();

    let encrypted = encrypt(&m, &gy);
    let rerandomized = rerandomize(&encrypted, &gy, &r);

    // the ciphertext changes, the plaintext does not
    assert!(encrypted != rerandomized);
    assert_eq!(m, decrypt(&rerandomized, &y));
}

#[test]
fn pep_rrsk() {
    let y = ScalarNonZero::random();
    let gy = y.mul_point(&generator());
    let r = ScalarNonZero::random();
    let s = ScalarNonZero::random();
    let k = ScalarNonZero::random();
    let m = GroupElement::random();

    let encrypted = encrypt(&m, &gy);
    let transformed = rrsk(&encrypted, &gy, &r, &s, &k);

    let decrypted = decrypt(&transformed, &k.mul(&y));
    assert_eq!(s.mul_point(&m), decrypted);
}

#[test]
fn pep_rrsk_from_to() {
    let y = ScalarNonZero::random();
    let gy = y.mul_point(&generator());
    let r = ScalarNonZero::random();
    let s_from = ScalarNonZero::random();
    let s_to = ScalarNonZero::random();
    let k_from = ScalarNonZero::random();
    let k_to = ScalarNonZero::random();
    let m = GroupElement::random();

    let encrypted = encrypt(&m, &k_from.mul_point(&gy));
    let transformed = rrsk2(&encrypted, &k_from.mul_point(&gy), &r, &s_from, &s_to, &k_from, &k_to);

    let decrypted = decrypt(&transformed, &k_to.mul(&y));
    assert_eq!(s_from.invert().mul(&s_to).mul_point(&m), decrypted);
}
