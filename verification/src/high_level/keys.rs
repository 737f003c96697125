//! Global and session key pairs.  A session key pair is derived from the
//! global secret, an encryption context and the encryption secret, so a
//! holder of the session secret can open ciphertexts rekeyed to that
//! context.

use crate::arithmetic::group_order;
use crate::arithmetic::mul_md;
use crate::arithmetic::point_bytes;
use crate::arithmetic::point_of_bytes;
use crate::arithmetic::GroupElement;
use crate::arithmetic::ScalarNonZero;
use crate::high_level::contexts::EncryptionContext;
use crate::high_level::contexts::EncryptionSecret;
use crate::utils::decryption_domain;
use crate::utils::decryption_domain_bytes;
use crate::utils::encode_hex;
use crate::utils::factor_val;
use crate::utils::hex_bytes_of;
use crate::utils::hex_chars;
use crate::utils::hex_ok;
use crate::utils::make_factor;
use crate::utils::decode_hex;
use vstd::prelude::*;
use vstd::string::StringSliceAdditionalSpecFns;

verus! {

/// The public key of the whole system: `sk·G` for the global secret `sk`.
#[derive(Clone, Copy)]
pub struct GlobalPublicKey(pub GroupElement);

/// The global secret key; never one.
#[derive(Clone, Copy)]
pub struct GlobalSecretKey(pub(crate) ScalarNonZero);

/// The public key of one encryption context.
#[derive(Clone, Copy)]
pub struct SessionPublicKey(pub GroupElement);

/// The secret key of one encryption context.
#[derive(Clone, Copy)]
pub struct SessionSecretKey(pub(crate) ScalarNonZero);

impl View for GlobalSecretKey {
    type V = int;

    closed spec fn view(&self) -> int {
        self.0@
    }
}

impl View for SessionSecretKey {
    type V = int;

    closed spec fn view(&self) -> int {
        self.0@
    }
}

/// A wrapper around a public point, with the canonical and hex encodings.
pub trait PublicKey: Sized {
    spec fn value_spec(&self) -> int;

    fn value(&self) -> (r: &GroupElement)
        ensures
            r@ == self.value_spec(),
    ;

    fn encode(&self) -> (r: [u8; 32])
        ensures
            r@ == point_bytes(self.value_spec()),
            point_of_bytes(r@) == self.value_spec(),
    ;

    fn as_hex(&self) -> (r: String)
        ensures
            r@ == hex_chars(point_bytes(self.value_spec())),
    ;

    fn decode(bytes: &[u8; 32]) -> (r: Option<Self>)
        ensures
            (r matches Some(k) ==> k.value_spec() == point_of_bytes(bytes@) && bytes@
                == point_bytes(k.value_spec())),
            (r is None ==> forall|x: int|
                0 <= x < crate::arithmetic::group_order() ==> bytes@ != point_bytes(x)),
    ;

    fn decode_from_slice(slice: &[u8]) -> (r: Option<Self>)
        ensures
            (r matches Some(k) ==> k.value_spec() == point_of_bytes(slice@) && slice@
                == point_bytes(k.value_spec())),
            (r is None ==> slice@.len() != 32 || forall|x: int|
                0 <= x < crate::arithmetic::group_order() ==> slice@ != point_bytes(x)),
    ;

    fn from_hex(s: &str) -> (r: Option<Self>)
        ensures
            (r matches Some(k) ==> hex_ok(s.spec_bytes()) && k.value_spec() == point_of_bytes(
                hex_bytes_of(s.spec_bytes()),
            ) && hex_bytes_of(s.spec_bytes()) == point_bytes(k.value_spec())),
            (r is None ==> !hex_ok(s.spec_bytes()) || hex_bytes_of(s.spec_bytes()).len() != 32 || (
            forall|x: int|
                0 <= x < crate::arithmetic::group_order() ==> hex_bytes_of(s.spec_bytes())
                    != point_bytes(x))),
    ;
}

/// A wrapper around a secret scalar.
pub trait SecretKey: Sized {
    spec fn secret_spec(&self) -> int;

    fn value(&self) -> (r: &ScalarNonZero)
        ensures
            r@ == self.secret_spec(),
    ;
}

impl PublicKey for GlobalPublicKey {
    open spec fn value_spec(&self) -> int {
        self.0@
    }

    fn value(&self) -> (r: &GroupElement) {
        &self.0
    }

    fn encode(&self) -> (r: [u8; 32]) {
        self.0.encode()
    }

    fn as_hex(&self) -> (r: String) {
        let bytes = self.0.encode();
        encode_hex(bytes.as_slice())
    }

    fn decode(bytes: &[u8; 32]) -> (r: Option<GlobalPublicKey>) {
        match GroupElement::decode(bytes) {
            Some(v) => Some(GlobalPublicKey(v)),
            None => None,
        }
    }

    fn decode_from_slice(slice: &[u8]) -> (r: Option<GlobalPublicKey>) {
        match GroupElement::decode_from_slice(slice) {
            Some(v) => Some(GlobalPublicKey(v)),
            None => None,
        }
    }

    fn from_hex(s: &str) -> (r: Option<GlobalPublicKey>) {
        match decode_hex(s) {
            Some(bytes) => Self::decode_from_slice(bytes.as_slice()),
            None => None,
        }
    }
}

impl PublicKey for SessionPublicKey {
    open spec fn value_spec(&self) -> int {
        self.0@
    }

    fn value(&self) -> (r: &GroupElement) {
        &self.0
    }

    fn encode(&self) -> (r: [u8; 32]) {
        self.0.encode()
    }

    fn as_hex(&self) -> (r: String) {
        let bytes = self.0.encode();
        encode_hex(bytes.as_slice())
    }

    fn decode(bytes: &[u8; 32]) -> (r: Option<SessionPublicKey>) {
        match GroupElement::decode(bytes) {
            Some(v) => Some(SessionPublicKey(v)),
            None => None,
        }
    }

    fn decode_from_slice(slice: &[u8]) -> (r: Option<SessionPublicKey>) {
        match GroupElement::decode_from_slice(slice) {
            Some(v) => Some(SessionPublicKey(v)),
            None => None,
        }
    }

    fn from_hex(s: &str) -> (r: Option<SessionPublicKey>) {
        match decode_hex(s) {
            Some(bytes) => Self::decode_from_slice(bytes.as_slice()),
            None => None,
        }
    }
}

impl SecretKey for GlobalSecretKey {
    open spec fn secret_spec(&self) -> int {
        self@
    }

    fn value(&self) -> (r: &ScalarNonZero) {
        &self.0
    }
}

impl SecretKey for SessionSecretKey {
    open spec fn secret_spec(&self) -> int {
        self@
    }

    fn value(&self) -> (r: &ScalarNonZero) {
        &self.0
    }
}

/// Generate the global key pair.  The secret is sampled at random; the
/// draw of one is rejected and resampled, and after 64 such draws in a
/// row, which no real randomness source produces, two is used.
pub fn make_global_keys() -> (r: (GlobalPublicKey, GlobalSecretKey))
    ensures
        1 < r.1@ < group_order(),
        r.0.0@ == mul_md(r.1@, 1),
{
    let one = ScalarNonZero::one();
    let mut attempts: usize = 0;
    while attempts < 64
        invariant
            one@ == 1int,
        decreases 64 - attempts,
    {
        let sk = ScalarNonZero::random();
        if !sk.eq(&one) {
            let pk = sk.mul_point(&GroupElement::generator());
            return (GlobalPublicKey(pk), GlobalSecretKey(sk));
        }
        attempts = attempts + 1;
    }
    let sum = one.to_can_be_zero().add(&one.to_can_be_zero());
    proof {
        crate::arithmetic::lemma_md_small(2);
    }
    let two = match sum.try_into_non_zero() {
        Some(s) => s,
        None => ScalarNonZero::one(),
    };
    let pk = two.mul_point(&GroupElement::generator());
    (GlobalPublicKey(pk), GlobalSecretKey(two))
}

/// Derive the session key pair of an encryption context: the session
/// secret is the context's rekey factor times the global secret.
pub fn make_session_keys(
    global: &GlobalSecretKey,
    context: &EncryptionContext,
    secret: &EncryptionSecret,
) -> (r: (SessionPublicKey, SessionSecretKey))
    ensures
        r.1@ == mul_md(factor_val(decryption_domain(), secret@, context@), global@),
        r.0.0@ == mul_md(r.1@, 1),
        1 <= r.1@ < group_order(),
{
    let domain = decryption_domain_bytes();
    let k = make_factor(domain.as_slice(), secret.as_byte_slice(), context.as_byte_slice());
    let sk = k.mul(global.value());
    let pk = sk.mul_point(&GroupElement::generator());
    (SessionPublicKey(pk), SessionSecretKey(sk))
}

} // verus!
