use libpep::arithmetic::GroupElement;
use libpep::arithmetic::ScalarNonZero;
use libpep::zkps::create_proof;
use libpep::zkps::sign;
use libpep::zkps::verify;
use libpep::zkps::verify_proof;
use libpep::zkps::Proof;

// Proof soundness: an honest proof verifies, and a shifted public point
// does not.
#[test]
fn proof_soundness() {
    let a = ScalarNonZero::random();
    let m = GroupElement::random();

    let (ga, p) = create_proof(&a, &m);
    assert!(verify_proof(&ga, &m, &p));

    let wrong = ga.add(&GroupElement::generator());
    assert!(!verify_proof(&wrong, &m, &p));
}

// Any single-byte change to an encoded proof makes verification fail.
#[test]
fn proof_mutation_fails() {
    let a = ScalarNonZero::random();
    let m = GroupElement::random();
    let (ga, p) = create_proof(&a, &m);

    let encoded = p.encode();
    let mut i: usize = 0;
    while i < encoded.len() {
        let mut mutated = encoded.clone();
        mutated[i] ^= 0x01;
        match Proof::decode_from_slice(mutated.as_slice()) {
            Some(bad) => assert!(!verify_proof(&ga, &m, &bad)),
            // A mutation that is no longer a canonical encoding is equally
            // rejected.
            None => {}
        }
        i += 1;
    }
}

// A signature verifies against the signer's public key and against no
// other.
#[test]
fn signature_verification() {
    let sk = ScalarNonZero::random();
    let pk = sk.mul_point(&GroupElement::generator());
    let message = GroupElement::random();

    let signature = sign(&message, &sk);
    assert!(verify(&message, &signature, &pk));

    let other_sk = ScalarNonZero::random();
    let other_pk = other_sk.mul_point(&GroupElement::generator());
    assert!(!verify(&message, &signature, &other_pk));

    // Nor does it verify for a different message.
    let other_message = GroupElement::random();
    assert!(!verify(&other_message, &signature, &pk));
}
