//! ElGamal ciphertexts over the Ristretto group: a pair `(B, C)` of group
//! elements, with encryption, decryption and the canonical 64-byte encoding.

use crate::arithmetic::add_md;
use crate::arithmetic::group_order;
use crate::arithmetic::lemma_add_md_right;
use crate::arithmetic::lemma_md_small;
use crate::arithmetic::lemma_mul_md_one;
use crate::arithmetic::lemma_sub_md_left;
use crate::arithmetic::lemma_sub_md_right;
use crate::arithmetic::mul_md;
use crate::arithmetic::point_bytes;
use crate::arithmetic::point_of_bytes;
use crate::arithmetic::sub_md;
use crate::arithmetic::GroupElement;
use crate::arithmetic::ScalarNonZero;
use vstd::prelude::*;

verus! {

/// The length in bytes of an encoded ciphertext.
pub const ELGAMAL_LENGTH: usize = 64;

/// An ElGamal ciphertext: `B = r·G` and `C = m + r·pk` for plaintext `m`.
#[derive(Clone, Copy, Debug)]
pub struct ElGamal {
    pub b: GroupElement,
    pub c: GroupElement,
}

/// The model of the `B` component of an encryption with random factor `r`.
pub open spec fn encrypt_b_val(r: int) -> int {
    mul_md(r, 1)
}

/// The model of the `C` component of an encryption of `m` under public key
/// `pk` with random factor `r`.
pub open spec fn encrypt_c_val(m: int, pk: int, r: int) -> int {
    add_md(m, mul_md(r, pk))
}

/// The model of decryption: `C - y·B`.
pub open spec fn decrypt_val(b: int, c: int, y: int) -> int {
    sub_md(c, mul_md(y, b))
}

impl ElGamal {
    /// The canonical encoding: `B` then `C`, 32 bytes each.
    pub fn encode(&self) -> (r: Vec<u8>)
        ensures
            r@ == point_bytes(self.b@) + point_bytes(self.c@),
            r@.len() == ELGAMAL_LENGTH,
            r@.subrange(0, 32) == point_bytes(self.b@),
            r@.subrange(32, 64) == point_bytes(self.c@),
            point_of_bytes(r@.subrange(0, 32)) == self.b@,
            point_of_bytes(r@.subrange(32, 64)) == self.c@,
    {
        let bb = self.b.encode();
        let cb = self.c.encode();
        let mut out: Vec<u8> = Vec::new();
        let mut i: usize = 0;
        while i < 32
            invariant
                i <= 32,
                bb@.len() == 32,
                out@ =~= bb@.subrange(0, i as int),
            decreases 32 - i,
        {
            out.push(bb[i]);
            i = i + 1;
        }
        let mut j: usize = 0;
        while j < 32
            invariant
                j <= 32,
                bb@.len() == 32,
                cb@.len() == 32,
                out@ =~= bb@ + cb@.subrange(0, j as int),
            decreases 32 - j,
        {
            out.push(cb[j]);
            j = j + 1;
        }
        proof {
            assert(out@ =~= bb@ + cb@);
            assert(out@.subrange(0, 32) =~= bb@);
            assert(out@.subrange(32, 64) =~= cb@);
        }
        out
    }

    pub fn decode(v: &[u8; 64]) -> (r: Option<ElGamal>)
        ensures
            (r matches Some(e) ==> e.b@ == point_of_bytes(v@.subrange(0, 32)) && e.c@
                == point_of_bytes(v@.subrange(32, 64)) && v@.subrange(0, 32) == point_bytes(e.b@)
                && v@.subrange(32, 64) == point_bytes(e.c@)),
            (r is None ==> (forall|x: int|
                0 <= x < group_order() ==> v@.subrange(0, 32) != point_bytes(x)) || (forall|y: int|
                0 <= y < group_order() ==> v@.subrange(32, 64) != point_bytes(y))),
    {
        let bs = &v[0..32];
        let cs = &v[32..64];
        match (GroupElement::decode_from_slice(bs), GroupElement::decode_from_slice(cs)) {
            (Some(b), Some(c)) => Some(ElGamal { b, c }),
            _ => None,
        }
    }

    pub fn decode_from_slice(v: &[u8]) -> (r: Option<ElGamal>)
        ensures
            (r matches Some(e) ==> v@.len() == 64 && e.b@ == point_of_bytes(v@.subrange(0, 32))
                && e.c@ == point_of_bytes(v@.subrange(32, 64)) && v@.subrange(0, 32) == point_bytes(
                e.b@,
            ) && v@.subrange(32, 64) == point_bytes(e.c@)),
            (r is None ==> v@.len() != 64 || (forall|x: int|
                0 <= x < group_order() ==> v@.subrange(0, 32) != point_bytes(x)) || (forall|y: int|
                0 <= y < group_order() ==> v@.subrange(32, 64) != point_bytes(y))),
    {
        if v.len() != ELGAMAL_LENGTH {
            None
        } else {
            let bs = &v[0..32];
            let cs = &v[32..64];
            match (GroupElement::decode_from_slice(bs), GroupElement::decode_from_slice(cs)) {
                (Some(b), Some(c)) => Some(ElGamal { b, c }),
                _ => None,
            }
        }
    }

    /// The base64 spelling of the canonical encoding.
    pub fn encode_to_base64(&self) -> (r: String)
        ensures
            r@ == b64_of(point_bytes(self.b@) + point_bytes(self.c@)),
    {
        let bytes = self.encode();
        b64_encode(bytes.as_slice())
    }

    pub fn decode_from_base64(s: &str) -> (r: Option<ElGamal>)
        ensures
            (r matches Some(e) ==> exists|m: Seq<u8>|
                #![auto]
                s@ == b64_of(m) && m.len() == 64 && e.b@ == point_of_bytes(m.subrange(0, 32))
                    && e.c@ == point_of_bytes(m.subrange(32, 64)) && m.subrange(0, 32)
                    == point_bytes(e.b@) && m.subrange(32, 64) == point_bytes(e.c@)),
            (r is None ==> forall|m: Seq<u8>|
                s@ == b64_of(m) ==> (m.len() != 64 || (forall|x: int|
                    0 <= x < group_order() ==> m.subrange(0, 32) != point_bytes(x)) || (forall|y: int|
                    0 <= y < group_order() ==> m.subrange(32, 64) != point_bytes(y)))),
    {
        match b64_decode(s) {
            Some(v) => {
                let r = ElGamal::decode_from_slice(v.as_slice());
                proof {
                    if r is Some {
                        assert(s@ == b64_of(v@) && v@.len() == 64);
                    } else {
                        assert forall|m: Seq<u8>| s@ == b64_of(m) implies (m.len() != 64 || (
                        forall|x: int|
                            0 <= x < group_order() ==> m.subrange(0, 32) != point_bytes(x)) || (
                        forall|y: int|
                            0 <= y < group_order() ==> m.subrange(32, 64) != point_bytes(
                                y,
                            ))) by {
                            assert(m == v@);
                        }
                    }
                }
                r
            },
            None => None,
        }
    }

    /// A copy of the ciphertext.
    pub fn clone(&self) -> (r: ElGamal)
        ensures
            r == *self,
    {
        ElGamal { b: self.b, c: self.c }
    }
}

impl PartialEq for ElGamal {
    fn eq(&self, other: &ElGamal) -> (r: bool) {
        self.b.equals(&other.b) && self.c.equals(&other.c)
    }
}

impl vstd::std_specs::cmp::PartialEqSpecImpl for ElGamal {
    open spec fn obeys_eq_spec() -> bool {
        true
    }

    open spec fn eq_spec(&self, other: &ElGamal) -> bool {
        self.b@ == other.b@ && self.c@ == other.c@
    }
}

/// The URL-safe base64 spelling of a byte string, with padding: a function
/// of the bytes alone.
pub uninterp spec fn b64_of(b: Seq<u8>) -> Seq<char>;

/// Relies on base64's `URL_SAFE` engine: the URL-safe alphabet with
/// canonical padding.
#[verifier::external_body]
fn b64_encode(v: &[u8]) -> (r: String)
    ensures
        r@ == b64_of(v@),
{
    base64::Engine::encode(&base64::engine::general_purpose::URL_SAFE, v)
}

/// Relies on base64's `URL_SAFE` decode: it accepts exactly the canonical
/// encodings and inverts `encode`, so a successful decode returns the one
/// byte string whose encoding was given.
#[verifier::external_body]
fn b64_decode(s: &str) -> (r: Option<Vec<u8>>)
    ensures
        (r matches Some(v) ==> s@ == b64_of(v@) && forall|m: Seq<u8>|
            s@ == b64_of(m) ==> m == v@),
        (r is None ==> forall|m: Seq<u8>| s@ != b64_of(m)),
{
    match base64::Engine::decode(&base64::engine::general_purpose::URL_SAFE, s) {
        Ok(v) => Some(v),
        Err(_) => None,
    }
}

/// Encrypt `msg` under `public_key` with the given random factor: the
/// deterministic part of encryption.  The identity is refused as a public
/// key, since ciphertexts under it would expose the plaintext.
pub fn encrypt_with(msg: &GroupElement, public_key: &GroupElement, rnd: &ScalarNonZero) -> (r:
    ElGamal)
    requires
        public_key@ != 0,
    ensures
        r.b@ == encrypt_b_val(rnd@),
        r.c@ == encrypt_c_val(msg@, public_key@, rnd@),
{
    let g = GroupElement::generator();
    ElGamal { b: rnd.mul_point(&g), c: msg.add(&rnd.mul_point(public_key)) }
}

/// Encrypt `msg` under `public_key` with a fresh random factor.
pub fn encrypt(msg: &GroupElement, public_key: &GroupElement) -> (r: ElGamal)
    requires
        public_key@ != 0,
    ensures
        exists|rv: int|
            #![auto]
            1 <= rv < group_order() && r.b@ == encrypt_b_val(rv) && r.c@ == encrypt_c_val(
                msg@,
                public_key@,
                rv,
            ),
{
    let rnd = ScalarNonZero::random();
    let r = encrypt_with(msg, public_key, &rnd);
    proof {
        assert(1 <= rnd@ < group_order() && r.b@ == encrypt_b_val(rnd@) && r.c@ == encrypt_c_val(
            msg@,
            public_key@,
            rnd@,
        ));
    }
    r
}

/// Decrypt a ciphertext with the secret key: `C - y·B`.
pub fn decrypt(s: &ElGamal, secret_key: &ScalarNonZero) -> (r: GroupElement)
    ensures
        r@ == decrypt_val(s.b@, s.c@, secret_key@),
{
    s.c.sub(&secret_key.mul_point(&s.b))
}

/// Decryption inverts encryption: for every plaintext `m`, secret key `y`
/// and random factor `rv`, decrypting the encryption of `m` under `y`'s
/// public key `y·G` with `y` returns `m`.
pub proof fn lemma_encrypt_decrypt(m: int, y: int, rv: int)
    requires
        0 <= m < group_order(),
        0 <= y < group_order(),
        0 <= rv < group_order(),
    ensures
        decrypt_val(encrypt_b_val(rv), encrypt_c_val(m, mul_md(y, 1), rv), y) == m,
{
    let l = group_order();
    lemma_mul_md_one(y);
    lemma_mul_md_one(rv);
    assert(encrypt_b_val(rv) == rv);
    assert(encrypt_c_val(m, y, rv) == (m + rv * y) % l) by {
        lemma_add_md_right(m, rv * y);
    }
    assert(decrypt_val(rv, (m + rv * y) % l, y) == ((m + rv * y) - (y * rv) % l) % l) by {
        lemma_sub_md_left(m + rv * y, mul_md(y, rv));
    }
    assert(((m + rv * y) - (y * rv) % l) % l == ((m + rv * y) - y * rv) % l) by {
        lemma_sub_md_right(m + rv * y, y * rv);
    }
    lemma_md_small(m);
}

} // verus!
