//! The typed API: encryption and decryption of pseudonyms and data points,
//! rerandomisation, pseudonymisation between contexts, and rekeying
//! between sessions.

pub mod contexts;
pub mod data_types;
pub mod keys;

use crate::arithmetic::add_md;
use crate::arithmetic::group_order;
use crate::arithmetic::mul_md;
use crate::arithmetic::ScalarNonZero;
use crate::elgamal::decrypt;
use crate::elgamal::decrypt_val;
use crate::elgamal::encrypt;
use crate::elgamal::encrypt_b_val;
use crate::elgamal::encrypt_c_val;
use crate::high_level::contexts::PseudonymizationInfo;
use crate::high_level::contexts::RekeyInfo;
use crate::high_level::data_types::DataPoint;
use crate::high_level::data_types::EncryptedDataPoint;
use crate::high_level::data_types::EncryptedPseudonym;
use crate::high_level::data_types::Pseudonym;
use crate::high_level::keys::SecretKey;
use crate::high_level::keys::SessionPublicKey;
use crate::high_level::keys::SessionSecretKey;
use crate::primitives::factor2;
use crate::primitives::rekey2;
use crate::primitives::rerandomize;
use crate::primitives::rsk2;
use crate::primitives::rsk_b_val;
use crate::primitives::rsk_c_val;
use vstd::prelude::*;

verus! {

/// Encrypt a pseudonym under a session public key.
pub fn encrypt_pseudonym(p: &Pseudonym, pk: &SessionPublicKey) -> (r: EncryptedPseudonym)
    requires
        pk.0@ != 0,
    ensures
        exists|rv: int|
            #![auto]
            1 <= rv < group_order() && r.value.b@ == encrypt_b_val(rv) && r.value.c@
                == encrypt_c_val(p.value@, pk.0@, rv),
{
    EncryptedPseudonym { value: encrypt(&p.value, &pk.0) }
}

/// Decrypt an encrypted pseudonym with a session secret key.
pub fn decrypt_pseudonym(p: &EncryptedPseudonym, sk: &SessionSecretKey) -> (r: Pseudonym)
    ensures
        r.value@ == decrypt_val(p.value.b@, p.value.c@, sk@),
{
    Pseudonym { value: decrypt(&p.value, sk.value()) }
}

/// Encrypt a data point under a session public key.
pub fn encrypt_data(data: &DataPoint, pk: &SessionPublicKey) -> (r: EncryptedDataPoint)
    requires
        pk.0@ != 0,
    ensures
        exists|rv: int|
            #![auto]
            1 <= rv < group_order() && r.value.b@ == encrypt_b_val(rv) && r.value.c@
                == encrypt_c_val(data.value@, pk.0@, rv),
{
    EncryptedDataPoint { value: encrypt(&data.value, &pk.0) }
}

/// Decrypt an encrypted data point with a session secret key.
pub fn decrypt_data(data: &EncryptedDataPoint, sk: &SessionSecretKey) -> (r: DataPoint)
    ensures
        r.value@ == decrypt_val(data.value.b@, data.value.c@, sk@),
{
    DataPoint { value: decrypt(&data.value, sk.value()) }
}

/// Rerandomize an encrypted pseudonym with a fresh factor; `pk` is the
/// session public key it was encrypted under.
pub fn rerandomize_encrypted_pseudonym(encrypted: &EncryptedPseudonym, pk: &SessionPublicKey) -> (r:
    EncryptedPseudonym)
    ensures
        exists|rv: int|
            #![auto]
            1 <= rv < group_order() && r.value.b@ == add_md(mul_md(rv, 1), encrypted.value.b@)
                && r.value.c@ == add_md(mul_md(rv, pk.0@), encrypted.value.c@),
{
    let rnd = ScalarNonZero::random();
    let out = rerandomize(&encrypted.value, &pk.0, &rnd);
    proof {
        assert(1 <= rnd@ < group_order() && out.b@ == add_md(mul_md(rnd@, 1), encrypted.value.b@)
            && out.c@ == add_md(mul_md(rnd@, pk.0@), encrypted.value.c@));
    }
    EncryptedPseudonym { value: out }
}

/// Rerandomize an encrypted data point with a fresh factor; `pk` is the
/// session public key it was encrypted under.
pub fn rerandomize_encrypted(encrypted: &EncryptedDataPoint, pk: &SessionPublicKey) -> (r:
    EncryptedDataPoint)
    ensures
        exists|rv: int|
            #![auto]
            1 <= rv < group_order() && r.value.b@ == add_md(mul_md(rv, 1), encrypted.value.b@)
                && r.value.c@ == add_md(mul_md(rv, pk.0@), encrypted.value.c@),
{
    let rnd = ScalarNonZero::random();
    let out = rerandomize(&encrypted.value, &pk.0, &rnd);
    proof {
        assert(1 <= rnd@ < group_order() && out.b@ == add_md(mul_md(rnd@, 1), encrypted.value.b@)
            && out.c@ == add_md(mul_md(rnd@, pk.0@), encrypted.value.c@));
    }
    EncryptedDataPoint { value: out }
}

/// Pseudonymize an encrypted pseudonym from one context pair to another:
/// reshuffle and rekey by the paired factors.
pub fn pseudonymize(p: &EncryptedPseudonym, pseudonymization_info: &PseudonymizationInfo) -> (r:
    EncryptedPseudonym)
    ensures
        r.value.b@ == rsk_b_val(
            p.value.b@,
            factor2(pseudonymization_info.s.from.0@, pseudonymization_info.s.to.0@),
            factor2(pseudonymization_info.k.from.0@, pseudonymization_info.k.to.0@),
        ),
        r.value.c@ == rsk_c_val(
            p.value.c@,
            factor2(pseudonymization_info.s.from.0@, pseudonymization_info.s.to.0@),
        ),
{
    EncryptedPseudonym {
        value: rsk2(
            &p.value,
            &pseudonymization_info.s.from.0,
            &pseudonymization_info.s.to.0,
            &pseudonymization_info.k.from.0,
            &pseudonymization_info.k.to.0,
        ),
    }
}

/// Rekey an encrypted data point from one session to another, so the
/// target session's key opens it.
pub fn rekey(p: &EncryptedDataPoint, rekey_info: &RekeyInfo) -> (r: EncryptedDataPoint)
    ensures
        r.value.b@ == mul_md(
            crate::arithmetic::inv_md(factor2(rekey_info.from.0@, rekey_info.to.0@)),
            p.value.b@,
        ),
        r.value.c@ == p.value.c@,
{
    EncryptedDataPoint { value: rekey2(&p.value, &rekey_info.from.0, &rekey_info.to.0) }
}

} // verus!
