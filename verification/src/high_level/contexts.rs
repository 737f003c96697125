//! Contexts, secrets and transformation factors for the typed API.
//!
//! A context is a caller-supplied string naming a pseudonymisation or
//! encryption domain; a secret is a byte string held by a transcryptor.
//! Factor bundles pair the factors of the source and target contexts and
//! can be reversed by swapping the pair.

use crate::arithmetic::ScalarNonZero;
use crate::utils::decryption_domain;
use crate::utils::factor_val;
use crate::utils::make_factor;
use crate::utils::pseudonym_domain;
use vstd::prelude::*;
use vstd::utf8::encode_utf8;

verus! {

/// A pseudonymisation domain, named by a caller-supplied string.
#[derive(Clone)]
pub struct PseudonymizationContext(pub String);

/// An encryption domain, named by a caller-supplied string.
#[derive(Clone)]
pub struct EncryptionContext(pub String);

/// The secret of a transcryptor used to derive pseudonymisation factors.
#[derive(Clone)]
pub struct PseudonymizationSecret(pub(crate) Vec<u8>);

/// The secret of a transcryptor used to derive rekey factors.
#[derive(Clone)]
pub struct EncryptionSecret(pub(crate) Vec<u8>);

impl View for PseudonymizationContext {
    type V = Seq<u8>;

    closed spec fn view(&self) -> Seq<u8> {
        encode_utf8(self.0@)
    }
}

impl View for EncryptionContext {
    type V = Seq<u8>;

    closed spec fn view(&self) -> Seq<u8> {
        encode_utf8(self.0@)
    }
}

impl View for PseudonymizationSecret {
    type V = Seq<u8>;

    closed spec fn view(&self) -> Seq<u8> {
        self.0@
    }
}

impl View for EncryptionSecret {
    type V = Seq<u8>;

    closed spec fn view(&self) -> Seq<u8> {
        self.0@
    }
}

impl PseudonymizationContext {
    pub fn from(value: String) -> (r: PseudonymizationContext)
        ensures
            r@ == encode_utf8(value@),
    {
        PseudonymizationContext(value)
    }

    pub fn as_byte_slice(&self) -> (r: &[u8])
        ensures
            r@ == self@,
    {
        self.0.as_str().as_bytes()
    }
}

impl EncryptionContext {
    pub fn from(value: String) -> (r: EncryptionContext)
        ensures
            r@ == encode_utf8(value@),
    {
        EncryptionContext(value)
    }

    pub fn as_byte_slice(&self) -> (r: &[u8])
        ensures
            r@ == self@,
    {
        self.0.as_str().as_bytes()
    }
}

impl PseudonymizationSecret {
    pub fn from(secret: Vec<u8>) -> (r: PseudonymizationSecret)
        ensures
            r@ == secret@,
    {
        PseudonymizationSecret(secret)
    }

    pub fn as_byte_slice(&self) -> (r: &[u8])
        ensures
            r@ == self@,
    {
        self.0.as_slice()
    }
}

impl EncryptionSecret {
    pub fn from(secret: Vec<u8>) -> (r: EncryptionSecret)
        ensures
            r@ == secret@,
    {
        EncryptionSecret(secret)
    }

    pub fn as_byte_slice(&self) -> (r: &[u8])
        ensures
            r@ == self@,
    {
        self.0.as_slice()
    }
}

/// A fresh factor used to rerandomize a ciphertext.
#[derive(Clone, Copy)]
pub struct RerandomizeFactor(pub ScalarNonZero);

/// A factor applied to the plaintext by a reshuffle.
#[derive(Clone, Copy)]
pub struct ReshuffleFactor(pub ScalarNonZero);

/// A factor applied to the key by a rekey.
#[derive(Clone, Copy)]
pub struct RekeyFactor(pub ScalarNonZero);

/// The reshuffle factors of the source and target pseudonymisation
/// contexts.
#[derive(Clone, Copy)]
pub struct Reshuffle2Factors {
    pub from: ReshuffleFactor,
    pub to: ReshuffleFactor,
}

/// The rekey factors of the source and target encryption contexts.
#[derive(Clone, Copy)]
pub struct Rekey2Factors {
    pub from: RekeyFactor,
    pub to: RekeyFactor,
}

/// The factor bundle of a pseudonymisation: a reshuffle pair and a rekey
/// pair.
#[derive(Clone, Copy)]
pub struct RSK2Factors {
    pub s: Reshuffle2Factors,
    pub k: Rekey2Factors,
}

impl Reshuffle2Factors {
    /// Swap source and target, undoing the transformation's direction.
    pub fn reverse(self) -> (r: Reshuffle2Factors)
        ensures
            r.from == self.to,
            r.to == self.from,
    {
        Reshuffle2Factors { from: self.to, to: self.from }
    }
}

impl Rekey2Factors {
    /// Swap source and target, undoing the transformation's direction.
    pub fn reverse(self) -> (r: Rekey2Factors)
        ensures
            r.from == self.to,
            r.to == self.from,
    {
        Rekey2Factors { from: self.to, to: self.from }
    }
}

/// All factors of a pseudonymisation between two context pairs.
pub type PseudonymizationInfo = RSK2Factors;

/// The factors of a rekeying between two encryption contexts.
pub type RekeyInfo = Rekey2Factors;

impl RSK2Factors {
    /// Derive all four factors from the two context pairs and the two
    /// secrets.
    pub fn new(
        from_pseudo_context: &PseudonymizationContext,
        to_pseudo_context: &PseudonymizationContext,
        from_enc_context: &EncryptionContext,
        to_enc_context: &EncryptionContext,
        pseudonymization_secret: &PseudonymizationSecret,
        encryption_secret: &EncryptionSecret,
    ) -> (r: RSK2Factors)
        ensures
            r.s.from.0@ == factor_val(
                pseudonym_domain(),
                pseudonymization_secret@,
                from_pseudo_context@,
            ),
            r.s.to.0@ == factor_val(
                pseudonym_domain(),
                pseudonymization_secret@,
                to_pseudo_context@,
            ),
            r.k.from.0@ == factor_val(decryption_domain(), encryption_secret@, from_enc_context@),
            r.k.to.0@ == factor_val(decryption_domain(), encryption_secret@, to_enc_context@),
    {
        let s_from = make_pseudonymisation_factor_typed(
            pseudonymization_secret,
            from_pseudo_context,
        );
        let s_to = make_pseudonymisation_factor_typed(pseudonymization_secret, to_pseudo_context);
        let reshuffle_factors = Reshuffle2Factors {
            from: ReshuffleFactor(s_from),
            to: ReshuffleFactor(s_to),
        };
        let rekey_factors = Rekey2Factors::new(from_enc_context, to_enc_context, encryption_secret);
        RSK2Factors { s: reshuffle_factors, k: rekey_factors }
    }

    /// Swap source and target in both pairs.
    pub fn reverse(self) -> (r: RSK2Factors)
        ensures
            r.s.from == self.s.to,
            r.s.to == self.s.from,
            r.k.from == self.k.to,
            r.k.to == self.k.from,
    {
        RSK2Factors { s: self.s.reverse(), k: self.k.reverse() }
    }
}

impl Rekey2Factors {
    /// Derive the rekey factors of two encryption contexts from the
    /// encryption secret.
    pub fn new(
        from_session: &EncryptionContext,
        to_session: &EncryptionContext,
        encryption_secret: &EncryptionSecret,
    ) -> (r: Rekey2Factors)
        ensures
            r.from.0@ == factor_val(decryption_domain(), encryption_secret@, from_session@),
            r.to.0@ == factor_val(decryption_domain(), encryption_secret@, to_session@),
    {
        let k_from = make_rekey_factor_typed(encryption_secret, from_session);
        let k_to = make_rekey_factor_typed(encryption_secret, to_session);
        Rekey2Factors { from: RekeyFactor(k_from), to: RekeyFactor(k_to) }
    }
}

impl From<RSK2Factors> for Rekey2Factors {
    /// The rekey half of a pseudonymisation factor bundle.
    fn from(x: RSK2Factors) -> (r: Rekey2Factors) {
        x.k
    }
}

impl vstd::std_specs::convert::FromSpecImpl<RSK2Factors> for Rekey2Factors {
    open spec fn obeys_from_spec() -> bool {
        true
    }

    open spec fn from_spec(x: RSK2Factors) -> Rekey2Factors {
        x.k
    }
}

/// The reshuffle factor of one pseudonymisation context.
pub fn make_pseudonymisation_factor_typed(
    secret: &PseudonymizationSecret,
    context: &PseudonymizationContext,
) -> (r: ScalarNonZero)
    ensures
        r@ == factor_val(pseudonym_domain(), secret@, context@),
{
    let domain = crate::utils::pseudonym_domain_bytes();
    make_factor(domain.as_slice(), secret.0.as_slice(), context.0.as_str().as_bytes())
}

/// The rekey factor of one encryption context.
pub fn make_rekey_factor_typed(secret: &EncryptionSecret, context: &EncryptionContext) -> (r:
    ScalarNonZero)
    ensures
        r@ == factor_val(decryption_domain(), secret@, context@),
{
    let domain = crate::utils::decryption_domain_bytes();
    make_factor(domain.as_slice(), secret.0.as_slice(), context.0.as_str().as_bytes())
}

} // verus!
