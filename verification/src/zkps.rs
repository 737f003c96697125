//! Offline Schnorr proofs using the Fiat-Shamir transform.
//!
//! A proof shows that for a secret scalar `a` and public points `M`,
//! `A = a·G`, the member `N` equals `a·M`, without revealing `a`.
//! Signatures reuse the proof with the message as `M` and the signing key
//! as `a`.

use crate::arithmetic::add_md;
use crate::arithmetic::group_order;
use crate::arithmetic::int_of_le;
use crate::arithmetic::le_bytes32;
use crate::arithmetic::lemma_add_md_left;
use crate::arithmetic::lemma_add_md_right;
use crate::arithmetic::lemma_mul_md_left;
use crate::arithmetic::lemma_mul_md_one;
use crate::arithmetic::lemma_mul_md_right;
use crate::arithmetic::mul_md;
use crate::arithmetic::point_bytes;
use crate::arithmetic::point_of_bytes;
use crate::arithmetic::scalar_from_hash_val;
use crate::arithmetic::GroupElement;
use crate::arithmetic::ScalarCanBeZero;
use crate::arithmetic::ScalarNonZero;
use crate::utils::push_all;
use crate::utils::sha512;
use crate::utils::sha512_of;
use vstd::arithmetic::div_mod::lemma_mod_bound;
use vstd::prelude::*;

verus! {

/// A non-interactive proof that `N = a·M`, for a prover who also published
/// `A = a·G`: commitments `C1 = r·G`, `C2 = r·M` and the response
/// `s = a·e + r` under the Fiat-Shamir challenge `e`.
pub struct Proof {
    pub n: GroupElement,
    pub c1: GroupElement,
    pub c2: GroupElement,
    pub s: ScalarCanBeZero,
}

/// The Fiat-Shamir challenge: the hash of the five public points' canonical
/// encodings, reduced to a non-zero scalar.
pub open spec fn challenge_val(av: int, mv: int, nv: int, c1v: int, c2v: int) -> int {
    scalar_from_hash_val(
        sha512_of(
            point_bytes(av) + point_bytes(mv) + point_bytes(nv) + point_bytes(c1v) + point_bytes(
                c2v,
            ),
        ),
    )
}

/// Both verification equations: `s·G = e·A + C1` and `s·M = e·N + C2`,
/// under the challenge recomputed from all five public values.
pub open spec fn verify_proof_val(av: int, mv: int, nv: int, c1v: int, c2v: int, sv: int) -> bool {
    let e = challenge_val(av, mv, nv, c1v, c2v);
    &&& mul_md(sv, 1) == add_md(mul_md(e, av), c1v)
    &&& mul_md(sv, mv) == add_md(mul_md(e, nv), c2v)
}

fn compute_challenge(
    ga: &GroupElement,
    gm: &GroupElement,
    gn: &GroupElement,
    gc1: &GroupElement,
    gc2: &GroupElement,
) -> (r: ScalarNonZero)
    ensures
        r@ == challenge_val(ga@, gm@, gn@, gc1@, gc2@),
{
    let mut buf: Vec<u8> = Vec::new();
    let ba = ga.encode();
    push_all(&mut buf, ba.as_slice());
    let bm = gm.encode();
    push_all(&mut buf, bm.as_slice());
    let bn = gn.encode();
    push_all(&mut buf, bn.as_slice());
    let b1 = gc1.encode();
    push_all(&mut buf, b1.as_slice());
    let b2 = gc2.encode();
    push_all(&mut buf, b2.as_slice());
    proof {
        assert(buf@ =~= point_bytes(ga@) + point_bytes(gm@) + point_bytes(gn@) + point_bytes(gc1@)
            + point_bytes(gc2@));
    }
    let digest = sha512(buf.as_slice());
    ScalarNonZero::from_hash(&digest)
}

/// Create the proof that `a·M = N`: returns `A = a·G` and the proof with
/// `N = a·M`.  The proof always passes verification against `A` and `M`.
pub fn create_proof(a: &ScalarNonZero, gm: &GroupElement) -> (out: (GroupElement, Proof))
    ensures
        out.0@ == mul_md(a@, 1),
        out.1.n@ == mul_md(a@, gm@),
        verify_proof_val(out.0@, gm@, out.1.n@, out.1.c1@, out.1.c2@, out.1.s@),
        exists|rv: int|
            #![auto]
            1 <= rv < group_order() && out.1.c1@ == mul_md(rv, 1) && out.1.c2@ == mul_md(rv, gm@)
                && out.1.s@ == add_md(
                mul_md(a@, challenge_val(out.0@, gm@, out.1.n@, out.1.c1@, out.1.c2@)),
                rv,
            ),
{
    let g = GroupElement::generator();
    let r = ScalarNonZero::random();
    let ga = a.mul_point(&g);
    let gn = a.mul_point(gm);
    let gc1 = r.mul_point(&g);
    let gc2 = r.mul_point(gm);
    let e = compute_challenge(&ga, gm, &gn, &gc1, &gc2);
    let s = a.mul(&e).to_can_be_zero().add(&r.to_can_be_zero());
    proof {
        use_type_invariant(a);
        use_type_invariant(gm);
        crate::arithmetic::lemma_nonzero_scalar_range(*a);
        crate::arithmetic::lemma_point_range(*gm);
        lemma_proof_verifies(a@, gm@, r@);
        assert(1 <= r@ < group_order() && gc1@ == mul_md(r@, 1) && gc2@ == mul_md(r@, gm@) && s@
            == add_md(mul_md(a@, challenge_val(ga@, gm@, gn@, gc1@, gc2@)), r@));
    }
    (ga, Proof { n: gn, c1: gc1, c2: gc2, s })
}

/// Verify the two proof equations against the split public values.
#[must_use]
pub fn verify_proof_split(
    ga: &GroupElement,
    gm: &GroupElement,
    gn: &GroupElement,
    gc1: &GroupElement,
    gc2: &GroupElement,
    s: &ScalarCanBeZero,
) -> (r: bool)
    ensures
        r == verify_proof_val(ga@, gm@, gn@, gc1@, gc2@, s@),
{
    let g = GroupElement::generator();
    let e = compute_challenge(ga, gm, gn, gc1, gc2);
    let lhs1 = s.mul_point(&g);
    let rhs1 = e.mul_point(ga).add(gc1);
    let lhs2 = s.mul_point(gm);
    let rhs2 = e.mul_point(gn).add(gc2);
    let ok1 = lhs1.equals(&rhs1);
    let ok2 = lhs2.equals(&rhs2);
    ok1 && ok2
}

/// Verify a proof against the prover's public point `A` and the base `M`.
#[must_use]
pub fn verify_proof(ga: &GroupElement, gm: &GroupElement, p: &Proof) -> (r: bool)
    ensures
        r == verify_proof_val(ga@, gm@, p.n@, p.c1@, p.c2@, p.s@),
{
    verify_proof_split(ga, gm, &p.n, &p.c1, &p.c2, &p.s)
}

/// Sign a message point with a secret key: the proof with the message as
/// base.  The signature always verifies against `pk = sk·G`.
pub fn sign(message: &GroupElement, secret_key: &ScalarNonZero) -> (p: Proof)
    ensures
        p.n@ == mul_md(secret_key@, message@),
        verify_proof_val(mul_md(secret_key@, 1), message@, p.n@, p.c1@, p.c2@, p.s@),
{
    create_proof(secret_key, message).1
}

/// Verify a signature against the signer's public key.
#[must_use]
pub fn verify(message: &GroupElement, p: &Proof, public_key: &GroupElement) -> (r: bool)
    ensures
        r == verify_proof_val(public_key@, message@, p.n@, p.c1@, p.c2@, p.s@),
{
    verify_proof(public_key, message, p)
}

/// A little-endian byte string denotes a non-negative integer.
pub proof fn lemma_int_of_le_nonneg(b: Seq<u8>)
    ensures
        int_of_le(b) >= 0,
    decreases b.len(),
{
    if b.len() != 0 {
        lemma_int_of_le_nonneg(b.drop_first());
    }
}

/// The challenge is a non-zero scalar below the group order.
pub proof fn lemma_challenge_range(av: int, mv: int, nv: int, c1v: int, c2v: int)
    ensures
        1 <= challenge_val(av, mv, nv, c1v, c2v) < group_order(),
{
    let h = sha512_of(
        point_bytes(av) + point_bytes(mv) + point_bytes(nv) + point_bytes(c1v) + point_bytes(c2v),
    );
    lemma_int_of_le_nonneg(h);
    lemma_mod_bound(int_of_le(h), group_order());
}

/// Honest proofs verify: for every secret `a`, base point `m` and
/// commitment randomness `rv`, the constructed proof satisfies both
/// verification equations.
pub proof fn lemma_proof_verifies(a: int, m: int, rv: int)
    requires
        1 <= a < group_order(),
        0 <= m < group_order(),
        1 <= rv < group_order(),
    ensures
        verify_proof_val(
            mul_md(a, 1),
            m,
            mul_md(a, m),
            mul_md(rv, 1),
            mul_md(rv, m),
            add_md(
                mul_md(a, challenge_val(mul_md(a, 1), m, mul_md(a, m), mul_md(rv, 1), mul_md(rv, m))),
                rv,
            ),
        ),
{
    let l = group_order();
    let av = mul_md(a, 1);
    let nv = mul_md(a, m);
    let c1v = mul_md(rv, 1);
    let c2v = mul_md(rv, m);
    let e = challenge_val(av, m, nv, c1v, c2v);
    let sv = add_md(mul_md(a, e), rv);
    lemma_mul_md_one(a);
    lemma_mul_md_one(rv);
    lemma_challenge_range(av, m, nv, c1v, c2v);
    lemma_mod_bound(mul_md(a, e) + rv, l);
    lemma_mul_md_one(sv);
    // First equation: s·G == e·A + C1.
    assert(mul_md(e, av) == mul_md(a, e)) by {
        assert(e * a == a * e) by (nonlinear_arith);
    }
    assert(mul_md(sv, 1) == add_md(mul_md(e, av), c1v));
    // Second equation: s·M == e·N + C2.
    let t = mul_md(a, e);
    assert(mul_md(sv, m) == ((t + rv) * m) % l) by {
        lemma_mul_md_left(t + rv, m);
    }
    assert((t + rv) * m == t * m + rv * m) by (nonlinear_arith);
    assert((t * m + rv * m) % l == ((a * e) * m + rv * m) % l) by {
        lemma_add_md_left(t * m, rv * m);
        lemma_mul_md_left(a * e, m);
        lemma_add_md_left((a * e) * m, rv * m);
    }
    assert(mul_md(e, nv) == (e * (a * m)) % l) by {
        lemma_mul_md_right(e, a * m);
    }
    assert(add_md(mul_md(e, nv), c2v) == ((e * (a * m)) % l + (rv * m) % l) % l);
    assert(((e * (a * m)) % l + (rv * m) % l) % l == (e * (a * m) + rv * m) % l) by {
        lemma_add_md_left(e * (a * m), (rv * m) % l);
        lemma_add_md_right(e * (a * m), rv * m);
    }
    assert((a * e) * m == e * (a * m)) by (nonlinear_arith);
}

impl Proof {
    /// The canonical 128-byte encoding: `N`, `C1`, `C2`, then `s`.
    pub fn encode(&self) -> (r: Vec<u8>)
        ensures
            r@ == point_bytes(self.n@) + point_bytes(self.c1@) + point_bytes(self.c2@) + le_bytes32(
                self.s@,
            ),
            r@.len() == 128,
    {
        let mut out: Vec<u8> = Vec::new();
        let bn = self.n.encode();
        push_all(&mut out, bn.as_slice());
        let b1 = self.c1.encode();
        push_all(&mut out, b1.as_slice());
        let b2 = self.c2.encode();
        push_all(&mut out, b2.as_slice());
        let bs = self.s.encode();
        push_all(&mut out, bs.as_slice());
        proof {
            assert(out@ =~= point_bytes(self.n@) + point_bytes(self.c1@) + point_bytes(self.c2@)
                + le_bytes32(self.s@));
            lemma_le_bytes32_len(self.s@);
        }
        out
    }

    pub fn decode_from_slice(v: &[u8]) -> (r: Option<Proof>)
        ensures
            (r matches Some(p) ==> v@.len() == 128 && p.n@ == point_of_bytes(v@.subrange(0, 32))
                && p.c1@ == point_of_bytes(v@.subrange(32, 64)) && p.c2@ == point_of_bytes(
                v@.subrange(64, 96),
            ) && v@.subrange(0, 32) == point_bytes(p.n@) && v@.subrange(32, 64) == point_bytes(
                p.c1@,
            ) && v@.subrange(64, 96) == point_bytes(p.c2@) && p.s@ == int_of_le(
                v@.subrange(96, 128),
            ) && v@.subrange(96, 128) == le_bytes32(p.s@)),
            (r is None ==> v@.len() != 128 || (forall|x: int|
                0 <= x < group_order() ==> v@.subrange(0, 32) != point_bytes(x)) || (forall|x: int|
                0 <= x < group_order() ==> v@.subrange(32, 64) != point_bytes(x)) || (forall|
                x: int,
            |
                0 <= x < group_order() ==> v@.subrange(64, 96) != point_bytes(x)) || int_of_le(
                v@.subrange(96, 128),
            ) >= group_order()),
    {
        if v.len() != 128 {
            return None;
        }
        let n = GroupElement::decode_from_slice(&v[0..32]);
        let c1 = GroupElement::decode_from_slice(&v[32..64]);
        let c2 = GroupElement::decode_from_slice(&v[64..96]);
        let s = ScalarCanBeZero::decode_from_slice(&v[96..128]);
        match (n, c1, c2, s) {
            (Some(n), Some(c1), Some(c2), Some(s)) => Some(Proof { n, c1, c2, s }),
            _ => None,
        }
    }
}

/// The little-endian scalar encoding has 32 bytes.
pub proof fn lemma_le_bytes32_len(x: int)
    ensures
        le_bytes32(x).len() == 32,
{
    lemma_le_bytes_len(x, 32);
}

proof fn lemma_le_bytes_len(x: int, n: nat)
    ensures
        crate::arithmetic::le_bytes(x, n).len() == n,
    decreases n,
{
    if n != 0 {
        lemma_le_bytes_len(x / 256, (n - 1) as nat);
    }
}

} // verus!
