use libpep::arithmetic::GroupElement;
use libpep::arithmetic::ScalarNonZero;
use libpep::elgamal::decrypt;
use libpep::high_level::contexts::EncryptionContext;
use libpep::high_level::contexts::EncryptionSecret;
use libpep::high_level::contexts::PseudonymizationContext;
use libpep::high_level::contexts::PseudonymizationSecret;
use libpep::high_level::contexts::PseudonymizationInfo;
use libpep::high_level::contexts::RekeyInfo;
use libpep::high_level::contexts::make_pseudonymisation_factor_typed;
use libpep::high_level::data_types::DataPoint;
use libpep::high_level::data_types::Pseudonym;
use libpep::high_level::data_types::EncryptedDataPoint;
use libpep::high_level::data_types::EncryptedPseudonym;
use libpep::high_level::keys::make_global_keys;
use libpep::high_level::keys::make_session_keys;
use libpep::high_level::keys::GlobalPublicKey;
use libpep::high_level::keys::PublicKey;
use libpep::high_level::keys::SessionPublicKey;
use libpep::high_level::decrypt_data;
use libpep::high_level::decrypt_pseudonym;
use libpep::high_level::encrypt_data;
use libpep::high_level::encrypt_pseudonym;
use libpep::high_level::pseudonymize;
use libpep::high_level::rekey;
use libpep::high_level::rerandomize_encrypted;
use libpep::high_level::rerandomize_encrypted_pseudonym;
use libpep::utils::convert_to_local_pseudonym;
use libpep::utils::convert_from_local_pseudonym;
use libpep::utils::decrypt_local_pseudonym;
use libpep::utils::generate_global_keys;
use libpep::utils::generate_pseudonym;
use libpep::utils::make_decryption_factor;
use libpep::utils::make_local_decryption_key;
use libpep::utils::make_pseudonymisation_factor;
use libpep::utils::rerandomize_global;
use libpep::utils::sha512;

fn setup() -> (PseudonymizationContext, PseudonymizationContext, EncryptionContext, EncryptionContext, PseudonymizationSecret, EncryptionSecret) {
    (
        PseudonymizationContext::from(String::from("context-a")),
        PseudonymizationContext::from(String::from("context-b")),
        EncryptionContext::from(String::from("session-a")),
        EncryptionContext::from(String::from("session-b")),
        PseudonymizationSecret::from(b"pseudonymization-secret".to_vec()),
        EncryptionSecret::from(b"encryption-secret".to_vec()),
    )
}

// Round-trip pseudonym: encrypting the pseudonym of an identity under the
// global key and decrypting with the global secret gives the hash point of
// the identity.
#[test]
fn round_trip_pseudonym() {
    let sk = ScalarNonZero::from_hash(&sha512(b"test"));
    let pk = sk.mul_point(&GroupElement::generator());

    let encrypted = generate_pseudonym("alice", &pk);
    let decrypted = decrypt(&encrypted, &sk);

    let expected = GroupElement::decode_from_hash(&sha512(b"alice"));
    assert_eq!(expected, decrypted);
}

// Cross-context pseudonymisation: decrypting the transformed ciphertext
// under the target session key gives the source plaintext multiplied by
// the reshuffle transition factor.
#[test]
fn cross_context_pseudonymisation() {
    let (pc_a, pc_b, ec_a, ec_b, ps, es) = setup();
    let (_gpk, gsk) = make_global_keys();
    let (spk_a, ssk_a) = make_session_keys(&gsk, &ec_a, &es);
    let (_spk_b, ssk_b) = make_session_keys(&gsk, &ec_b, &es);

    let p = Pseudonym::random();
    let e_a = encrypt_pseudonym(&p, &spk_a);

    let info = PseudonymizationInfo::new(&pc_a, &pc_b, &ec_a, &ec_b, &ps, &es);
    let e_b = pseudonymize(&e_a, &info);

    let d_a = decrypt_pseudonym(&e_a, &ssk_a);
    let d_b = decrypt_pseudonym(&e_b, &ssk_b);

    let s_a = make_pseudonymisation_factor_typed(&ps, &pc_a);
    let s_b = make_pseudonymisation_factor_typed(&ps, &pc_b);
    let expected = s_a.invert().mul(&s_b).mul_point(&d_a.value);
    assert_eq!(expected, d_b.value);
}

// Reversibility: pseudonymizing there and back again returns the original
// plaintext under the original session key.
#[test]
fn pseudonymisation_reversible() {
    let (pc_a, pc_b, ec_a, ec_b, ps, es) = setup();
    let (_gpk, gsk) = make_global_keys();
    let (spk_a, ssk_a) = make_session_keys(&gsk, &ec_a, &es);

    let p = Pseudonym::random();
    let e = encrypt_pseudonym(&p, &spk_a);

    let info = PseudonymizationInfo::new(&pc_a, &pc_b, &ec_a, &ec_b, &ps, &es);
    let there = pseudonymize(&e, &info);
    let back = pseudonymize(&there, &info.reverse());

    let decrypted = decrypt_pseudonym(&back, &ssk_a);
    assert_eq!(p, decrypted);
}

// Rekey-only: after a rekey the new session key opens the ciphertext to
// the same plaintext, and the old session key no longer does.
#[test]
fn rekey_only() {
    let (_pc_a, _pc_b, ec_a, ec_b, _ps, es) = setup();
    let (_gpk, gsk) = make_global_keys();
    let (spk_a, ssk_a) = make_session_keys(&gsk, &ec_a, &es);
    let (_spk_b, ssk_b) = make_session_keys(&gsk, &ec_b, &es);

    let data = DataPoint::random();
    let e = encrypt_data(&data, &spk_a);

    let info = RekeyInfo::new(&ec_a, &ec_b, &es);
    let rekeyed = rekey(&e, &info);

    assert_eq!(data, decrypt_data(&rekeyed, &ssk_b));
    assert!(data != decrypt_data(&rekeyed, &ssk_a));
}

// Rerandomisation changes the ciphertext but never the plaintext.
#[test]
fn rerandomize_keeps_plaintext() {
    let (_pc_a, _pc_b, ec_a, _ec_b, _ps, es) = setup();
    let (_gpk, gsk) = make_global_keys();
    let (spk_a, ssk_a) = make_session_keys(&gsk, &ec_a, &es);

    let p = Pseudonym::random();
    let e = encrypt_pseudonym(&p, &spk_a);
    let r = rerandomize_encrypted_pseudonym(&e, &spk_a);
    assert!(e.value != r.value);
    assert_eq!(p, decrypt_pseudonym(&r, &ssk_a));

    let d = DataPoint::random();
    let e = encrypt_data(&d, &spk_a);
    let r = rerandomize_encrypted(&e, &spk_a);
    assert!(e.value != r.value);
    assert_eq!(d, decrypt_data(&r, &ssk_a));
}

// Domain separation: the pseudonymisation and decryption factors of the
// same secret and context differ.
#[test]
fn factor_domain_separation() {
    let u = make_pseudonymisation_factor("secret", "context");
    let t = make_decryption_factor("secret", "context");
    assert!(u != t);
}

// Factor derivation is deterministic: the same inputs give the same
// factor, and different contexts give different factors.
#[test]
fn factor_derivation_deterministic() {
    let a = make_pseudonymisation_factor("secret", "context");
    let b = make_pseudonymisation_factor("secret", "context");
    assert_eq!(a, b);
    let c = make_pseudonymisation_factor("secret", "other");
    assert!(a != c);
}

// The one-server workflow: convert a global encrypted pseudonym to a
// local one, decrypt it with the local key, and convert it back.
#[test]
fn local_pseudonym_workflow() {
    let (gpk, gsk) = generate_global_keys();

    let global = generate_pseudonym("alice@example.com", &gpk);
    let global = rerandomize_global(&global, &gpk);

    let local = convert_to_local_pseudonym(&global, "server-secret", "decrypt-ctx", "pseudo-ctx");
    let key = make_local_decryption_key(&gsk, "server-secret", "decrypt-ctx");
    let pseudonym_once = decrypt_local_pseudonym(&local, &key);

    // The same identity yields the same local pseudonym again.
    let global2 = generate_pseudonym("alice@example.com", &gpk);
    let local2 = convert_to_local_pseudonym(&global2, "server-secret", "decrypt-ctx", "pseudo-ctx");
    assert_eq!(pseudonym_once, decrypt_local_pseudonym(&local2, &key));

    // Converting back gives a ciphertext that decrypts under the global key
    // to the original pseudonym point.
    let back = convert_from_local_pseudonym(&local, "server-secret", "decrypt-ctx", "pseudo-ctx");
    let expected = GroupElement::decode_from_hash(&sha512(b"alice@example.com"));
    assert_eq!(expected, decrypt(&back, &gsk));
}

// Public keys encode to 64 hex characters and decode back to the same
// point.
#[test]
fn public_key_hex_roundtrip() {
    let (gpk, gsk) = make_global_keys();
    let hex = gpk.as_hex();
    assert_eq!(hex.len(), 64);
    let decoded = GlobalPublicKey::from_hex(&hex).unwrap();
    assert_eq!(decoded.0, gpk.0);
    assert!(GlobalPublicKey::from_hex("no hex").is_none());

    let (_pc_a, _pc_b, ec_a, _ec_b, _ps, es) = setup();
    let (spk, _ssk) = make_session_keys(&gsk, &ec_a, &es);
    let encoded = spk.encode();
    let decoded = SessionPublicKey::decode(&encoded).unwrap();
    assert_eq!(decoded.0, spk.0);
    let decoded = SessionPublicKey::decode_from_slice(&encoded).unwrap();
    assert_eq!(decoded.0, spk.0);
}

// Encrypted pseudonyms and data points survive their canonical and base64
// encodings.
#[test]
fn encrypted_value_codecs() {
    let (_pc_a, _pc_b, ec_a, _ec_b, _ps, es) = setup();
    let (_gpk, gsk) = make_global_keys();
    let (spk, ssk) = make_session_keys(&gsk, &ec_a, &es);

    let p = Pseudonym::random();
    let e = encrypt_pseudonym(&p, &spk);
    let decoded = EncryptedPseudonym::decode_from_slice(e.encode().as_slice()).unwrap();
    assert_eq!(decoded.value, e.value);
    let decoded = EncryptedPseudonym::from_base64(&e.as_base64()).unwrap();
    assert_eq!(decoded.value, e.value);
    assert_eq!(p, decrypt_pseudonym(&decoded, &ssk));

    let d = DataPoint::random();
    let e = encrypt_data(&d, &spk);
    let decoded = EncryptedDataPoint::decode_from_slice(e.encode().as_slice()).unwrap();
    assert_eq!(decoded.value, e.value);
    let decoded = EncryptedDataPoint::from_base64(&e.as_base64()).unwrap();
    assert_eq!(decoded.value, e.value);
}

// Pseudonyms survive their hex encoding; malformed hex is refused.
#[test]
fn pseudonym_hex_roundtrip() {
    let p = Pseudonym::random();
    let hex = p.encode_as_hex();
    assert_eq!(hex.len(), 64);
    assert_eq!(Pseudonym::decode_from_hex(&hex), Some(p));
    assert!(Pseudonym::decode_from_hex("xyz").is_none());

    let d = DataPoint::random();
    let hex = d.encode_as_hex();
    assert_eq!(DataPoint::decode_from_hex(&hex), Some(d));
    assert!(DataPoint::decode(&[0xffu8; 32]).is_none());
}
