//! The PEP transformations on ElGamal ciphertexts: rerandomise, reshuffle,
//! rekey, their combinations, and the paired "from/to" variants, together
//! with the algebraic laws each of them preserves.

use crate::arithmetic::add_md;
use crate::arithmetic::group_order;
use crate::arithmetic::inv_md;
use crate::arithmetic::is_inv_md;
use crate::arithmetic::lemma_add_md_left;
use crate::arithmetic::lemma_md_small;
use crate::arithmetic::lemma_mul_md_assoc;
use crate::arithmetic::lemma_mul_md_left;
use crate::arithmetic::lemma_mul_md_one;
use crate::arithmetic::lemma_mul_md_right;
use crate::arithmetic::lemma_sub_md_left;
use crate::arithmetic::lemma_sub_md_right;
use crate::arithmetic::mul_md;
use crate::arithmetic::GroupElement;
use crate::arithmetic::ScalarNonZero;
use crate::elgamal::decrypt_val;
use crate::elgamal::ElGamal;
use vstd::arithmetic::div_mod::lemma_mod_bound;
use vstd::prelude::*;

verus! {

/// The model of the `B` component after `rsk` with reshuffle factor `s` and
/// rekey factor `k`: `(s·k⁻¹)·B`.
pub open spec fn rsk_b_val(b: int, s: int, k: int) -> int {
    mul_md(mul_md(s, inv_md(k)), b)
}

/// The model of the `C` component after a reshuffle by `s`: `s·C`.
pub open spec fn rsk_c_val(c: int, s: int) -> int {
    mul_md(s, c)
}

/// The combined factor of a "from/to" transformation: `from⁻¹·to`.
pub open spec fn factor2(f: int, t: int) -> int {
    mul_md(inv_md(f), t)
}

/// Change the representation of a ciphertext without changing its plaintext:
/// `(B + r·G, C + r·Y)`, where `Y` is the public key the ciphertext was made
/// for.
pub fn rerandomize(m: &ElGamal, gy: &GroupElement, r: &ScalarNonZero) -> (out: ElGamal)
    ensures
        out.b@ == add_md(mul_md(r@, 1), m.b@),
        out.c@ == add_md(mul_md(r@, gy@), m.c@),
{
    let g = GroupElement::generator();
    ElGamal { b: r.mul_point(&g).add(&m.b), c: r.mul_point(gy).add(&m.c) }
}

/// Multiply the plaintext inside the ciphertext by `s`: `(s·B, s·C)`.
pub fn reshuffle(m: &ElGamal, s: &ScalarNonZero) -> (out: ElGamal)
    ensures
        out.b@ == mul_md(s@, m.b@),
        out.c@ == mul_md(s@, m.c@),
{
    ElGamal { b: s.mul_point(&m.b), c: s.mul_point(&m.c) }
}

/// Make the ciphertext decryptable by `k·y` instead of `y`: `(k⁻¹·B, C)`.
pub fn rekey(m: &ElGamal, k: &ScalarNonZero) -> (out: ElGamal)
    ensures
        out.b@ == mul_md(inv_md(k@), m.b@),
        out.c@ == m.c@,
        is_inv_md(k@, inv_md(k@)),
{
    let ki = k.invert();
    ElGamal { b: ki.mul_point(&m.b), c: m.c }
}

/// Combined reshuffle by `s` and rekey by `k`: `((s·k⁻¹)·B, s·C)`.
pub fn rsk(m: &ElGamal, s: &ScalarNonZero, k: &ScalarNonZero) -> (out: ElGamal)
    ensures
        out.b@ == rsk_b_val(m.b@, s@, k@),
        out.c@ == rsk_c_val(m.c@, s@),
        is_inv_md(k@, inv_md(k@)),
{
    let ki = k.invert();
    ElGamal { b: s.mul(&ki).mul_point(&m.b), c: s.mul_point(&m.c) }
}

/// Combined rerandomize by `r`, reshuffle by `s` and rekey by `k`.
pub fn rrsk(m: &ElGamal, gy: &GroupElement, r: &ScalarNonZero, s: &ScalarNonZero, k: &ScalarNonZero)
    -> (out: ElGamal)
    ensures
        out.b@ == add_md(
            mul_md(mul_md(s@, inv_md(k@)), m.b@),
            mul_md(mul_md(mul_md(s@, inv_md(k@)), r@), 1),
        ),
        out.c@ == add_md(mul_md(mul_md(s@, r@), gy@), mul_md(s@, m.c@)),
        is_inv_md(k@, inv_md(k@)),
{
    let g = GroupElement::generator();
    let ski = s.mul(&k.invert());
    ElGamal {
        b: ski.mul_point(&m.b).add(&ski.mul(&r).mul_point(&g)),
        c: s.mul(&r).mul_point(gy).add(&s.mul_point(&m.c)),
    }
}

/// Reshuffle from factor `s_from` to factor `s_to`: reshuffle by
/// `s_from⁻¹·s_to`.
pub fn reshuffle2(m: &ElGamal, s_from: &ScalarNonZero, s_to: &ScalarNonZero) -> (out: ElGamal)
    ensures
        out.b@ == mul_md(factor2(s_from@, s_to@), m.b@),
        out.c@ == mul_md(factor2(s_from@, s_to@), m.c@),
        is_inv_md(s_from@, inv_md(s_from@)),
{
    let s = s_from.invert().mul(s_to);
    reshuffle(m, &s)
}

/// Rekey from factor `k_from` to factor `k_to`: rekey by `k_from⁻¹·k_to`.
pub fn rekey2(m: &ElGamal, k_from: &ScalarNonZero, k_to: &ScalarNonZero) -> (out: ElGamal)
    ensures
        out.b@ == mul_md(inv_md(factor2(k_from@, k_to@)), m.b@),
        out.c@ == m.c@,
        is_inv_md(k_from@, inv_md(k_from@)),
        is_inv_md(factor2(k_from@, k_to@), inv_md(factor2(k_from@, k_to@))),
{
    let k = k_from.invert().mul(k_to);
    rekey(m, &k)
}

/// Combined reshuffle and rekey, each from one factor to another.
pub fn rsk2(
    m: &ElGamal,
    s_from: &ScalarNonZero,
    s_to: &ScalarNonZero,
    k_from: &ScalarNonZero,
    k_to: &ScalarNonZero,
) -> (out: ElGamal)
    ensures
        out.b@ == rsk_b_val(m.b@, factor2(s_from@, s_to@), factor2(k_from@, k_to@)),
        out.c@ == rsk_c_val(m.c@, factor2(s_from@, s_to@)),
        is_inv_md(s_from@, inv_md(s_from@)),
        is_inv_md(k_from@, inv_md(k_from@)),
        is_inv_md(factor2(k_from@, k_to@), inv_md(factor2(k_from@, k_to@))),
{
    let s = s_from.invert().mul(s_to);
    let k = k_from.invert().mul(k_to);
    rsk(m, &s, &k)
}

/// Combined rerandomize, reshuffle and rekey, the factors given as
/// "from/to" pairs.
pub fn rrsk2(
    m: &ElGamal,
    gy: &GroupElement,
    r: &ScalarNonZero,
    s_from: &ScalarNonZero,
    s_to: &ScalarNonZero,
    k_from: &ScalarNonZero,
    k_to: &ScalarNonZero,
) -> (out: ElGamal)
    ensures
        out.b@ == add_md(
            mul_md(mul_md(factor2(s_from@, s_to@), inv_md(factor2(k_from@, k_to@))), m.b@),
            mul_md(mul_md(mul_md(factor2(s_from@, s_to@), inv_md(factor2(k_from@, k_to@))), r@), 1),
        ),
        out.c@ == add_md(
            mul_md(mul_md(factor2(s_from@, s_to@), r@), gy@),
            mul_md(factor2(s_from@, s_to@), m.c@),
        ),
        is_inv_md(s_from@, inv_md(s_from@)),
        is_inv_md(k_from@, inv_md(k_from@)),
        is_inv_md(factor2(k_from@, k_to@), inv_md(factor2(k_from@, k_to@))),
{
    let s = s_from.invert().mul(s_to);
    let k = k_from.invert().mul(k_to);
    rrsk(m, gy, r, &s, &k)
}

/// Decryption written without the inner reduction: `(c - y·b) mod ℓ`.
pub proof fn lemma_decrypt_open(b: int, c: int, y: int)
    ensures
        decrypt_val(b, c, y) == (c - y * b) % group_order(),
{
    lemma_sub_md_right(c, y * b);
}

/// The result of decryption lies in `[0, group_order())`.
pub proof fn lemma_decrypt_range(b: int, c: int, y: int)
    ensures
        0 <= decrypt_val(b, c, y) < group_order(),
{
    lemma_sub_md_right(c, y * b);
    lemma_mod_bound(c - y * b, group_order());
}

/// Rerandomisation does not change the plaintext: decrypting
/// `(B + r·G, C + r·Y)` under `y`, where `Y = y·G`, gives the same point as
/// decrypting `(B, C)` under `y`.
pub proof fn lemma_rerandomize(b: int, c: int, y: int, rv: int)
    requires
        0 <= y < group_order(),
        0 <= rv < group_order(),
    ensures
        decrypt_val(add_md(mul_md(rv, 1), b), add_md(mul_md(rv, mul_md(y, 1)), c), y)
            == decrypt_val(b, c, y),
{
    let l = group_order();
    lemma_mul_md_one(y);
    lemma_mul_md_one(rv);
    let bb = add_md(rv, b);
    let cc = add_md(mul_md(rv, y), c);
    lemma_decrypt_open(bb, cc, y);
    assert(cc == (rv * y + c) % l) by {
        lemma_add_md_left(rv * y, c);
    }
    assert((cc - y * bb) % l == ((rv * y + c) - y * bb) % l) by {
        lemma_sub_md_left(rv * y + c, y * bb);
        lemma_sub_md_right(rv * y + c, y * bb);
    }
    assert(((rv * y + c) - y * bb) % l == ((rv * y + c) - y * ((rv + b) % l)) % l);
    assert(((rv * y + c) - y * ((rv + b) % l)) % l == ((rv * y + c) - (y * ((rv + b) % l)) % l) % l)
        by {
        lemma_sub_md_right(rv * y + c, y * ((rv + b) % l));
    }
    assert((y * ((rv + b) % l)) % l == (y * (rv + b)) % l) by {
        lemma_mul_md_right(y, rv + b);
    }
    assert(((rv * y + c) - (y * (rv + b)) % l) % l == ((rv * y + c) - y * (rv + b)) % l) by {
        lemma_sub_md_right(rv * y + c, y * (rv + b));
    }
    assert(rv * y + c - y * (rv + b) == c - y * b) by (nonlinear_arith);
    lemma_decrypt_open(b, c, y);
}

/// Reshuffling multiplies the plaintext: decrypting `(s·B, s·C)` under `y`
/// gives `s` times the decryption of `(B, C)` under `y`.
pub proof fn lemma_reshuffle(b: int, c: int, y: int, s: int)
    ensures
        decrypt_val(mul_md(s, b), mul_md(s, c), y) == mul_md(s, decrypt_val(b, c, y)),
{
    let l = group_order();
    let bb = mul_md(s, b);
    let cc = mul_md(s, c);
    lemma_decrypt_open(bb, cc, y);
    assert((cc - y * bb) % l == (s * c - y * bb) % l) by {
        lemma_sub_md_left(s * c, y * bb);
        lemma_sub_md_right(s * c, y * bb);
    }
    assert((s * c - y * bb) % l == (s * c - (y * bb) % l) % l) by {
        lemma_sub_md_right(s * c, y * bb);
    }
    assert((y * bb) % l == (y * (s * b)) % l) by {
        lemma_mul_md_right(y, s * b);
    }
    assert((s * c - (y * (s * b)) % l) % l == (s * c - y * (s * b)) % l) by {
        lemma_sub_md_right(s * c, y * (s * b));
    }
    assert(s * c - y * (s * b) == s * (c - y * b)) by (nonlinear_arith);
    lemma_decrypt_open(b, c, y);
    assert(mul_md(s, (c - y * b) % l) == (s * (c - y * b)) % l) by {
        lemma_mul_md_right(s, c - y * b);
    }
}

/// Rekeying moves the ciphertext to the key `k·y`: decrypting `(k⁻¹·B, C)`
/// under `k·y` gives the decryption of `(B, C)` under `y`.
pub proof fn lemma_rekey(b: int, c: int, y: int, k: int, ki: int)
    requires
        is_inv_md(k, ki),
    ensures
        decrypt_val(mul_md(ki, b), c, mul_md(k, y)) == decrypt_val(b, c, y),
{
    let l = group_order();
    let bb = mul_md(ki, b);
    let yy = mul_md(k, y);
    lemma_decrypt_open(bb, c, yy);
    assert((c - yy * bb) % l == (c - (yy * bb) % l) % l) by {
        lemma_sub_md_right(c, yy * bb);
    }
    assert((yy * bb) % l == ((k * y) * (ki * b)) % l) by {
        lemma_mul_md_left(k * y, bb);
        lemma_mul_md_right(k * y, ki * b);
    }
    assert((k * y) * (ki * b) == (k * ki) * (y * b)) by (nonlinear_arith);
    assert(((k * ki) * (y * b)) % l == (1 * (y * b)) % l) by {
        lemma_mul_md_left(k * ki, y * b);
        assert(mul_md(k, ki) == 1);
        lemma_mul_md_left(1, y * b);
    }
    assert((c - (1 * (y * b)) % l) % l == decrypt_val(b, c, y)) by {
        assert(1 * (y * b) == y * b) by (nonlinear_arith);
    }
}

/// Reshuffle-and-rekey combined: decrypting `((s·k⁻¹)·B, s·C)` under `k·y`
/// gives `s` times the decryption of `(B, C)` under `y`.
pub proof fn lemma_rsk(b: int, c: int, y: int, s: int, k: int, ki: int)
    requires
        is_inv_md(k, ki),
        ki == inv_md(k),
    ensures
        decrypt_val(rsk_b_val(b, s, k), rsk_c_val(c, s), mul_md(k, y)) == mul_md(
            s,
            decrypt_val(b, c, y),
        ),
{
    let l = group_order();
    let bb = rsk_b_val(b, s, k);
    let cc = rsk_c_val(c, s);
    let yy = mul_md(k, y);
    assert(bb == ((s * ki) * b) % l) by {
        lemma_mul_md_left(s * ki, b);
    }
    lemma_decrypt_open(bb, cc, yy);
    assert((cc - yy * bb) % l == (s * c - yy * bb) % l) by {
        lemma_sub_md_left(s * c, yy * bb);
        lemma_sub_md_right(s * c, yy * bb);
    }
    assert((s * c - yy * bb) % l == (s * c - (yy * bb) % l) % l) by {
        lemma_sub_md_right(s * c, yy * bb);
    }
    assert((yy * bb) % l == ((k * y) * ((s * ki) * b)) % l) by {
        lemma_mul_md_left(k * y, bb);
        lemma_mul_md_right(k * y, (s * ki) * b);
    }
    assert((k * y) * ((s * ki) * b) == (k * ki) * (s * (y * b))) by (nonlinear_arith);
    assert(((k * ki) * (s * (y * b))) % l == (s * (y * b)) % l) by {
        lemma_mul_md_left(k * ki, s * (y * b));
        assert(mul_md(k, ki) == 1);
        lemma_mul_md_left(1, s * (y * b));
        assert(1 * (s * (y * b)) == s * (y * b)) by (nonlinear_arith);
    }
    assert((s * c - (s * (y * b)) % l) % l == (s * c - s * (y * b)) % l) by {
        lemma_sub_md_right(s * c, s * (y * b));
    }
    assert(s * c - s * (y * b) == s * (c - y * b)) by (nonlinear_arith);
    lemma_decrypt_open(b, c, y);
    assert(mul_md(s, (c - y * b) % l) == (s * (c - y * b)) % l) by {
        lemma_mul_md_right(s, c - y * b);
    }
}

/// The combined factors of a transformation and of its reverse cancel:
/// `(t⁻¹·f)·(f⁻¹·t) = 1`.
pub proof fn lemma_factor2_cancel(f: int, fi: int, t: int, ti: int)
    requires
        is_inv_md(f, fi),
        fi == inv_md(f),
        is_inv_md(t, ti),
        ti == inv_md(t),
    ensures
        mul_md(factor2(t, f), factor2(f, t)) == 1,
{
    let l = group_order();
    assert(mul_md((ti * f) % l, (fi * t) % l) == ((ti * f) * (fi * t)) % l) by {
        lemma_mul_md_left(ti * f, (fi * t) % l);
        lemma_mul_md_right(ti * f, fi * t);
    }
    assert((ti * f) * (fi * t) == (f * fi) * (t * ti)) by (nonlinear_arith);
    assert(((f * fi) * (t * ti)) % l == (t * ti) % l) by {
        lemma_mul_md_left(f * fi, t * ti);
        assert(mul_md(f, fi) == 1);
        lemma_mul_md_left(1, t * ti);
        assert(1 * (t * ti) == t * ti) by (nonlinear_arith);
    }
    assert((t * ti) % l == 1);
}

/// A "from/to" reshuffle-and-rekey followed by the reverse one returns the
/// ciphertext to the original plaintext and key: applying factors
/// `(a→b2, p→q)` and then `(b2→a, q→p)` to a ciphertext decryptable by `y`
/// yields a ciphertext that decrypts under `y` to the original plaintext.
pub proof fn lemma_rsk2_inverse(b: int, c: int, y: int, a: int, b2: int, p: int, q: int)
    requires
        0 <= y < group_order(),
        is_inv_md(a, inv_md(a)),
        is_inv_md(b2, inv_md(b2)),
        is_inv_md(p, inv_md(p)),
        is_inv_md(q, inv_md(q)),
        is_inv_md(factor2(p, q), inv_md(factor2(p, q))),
        is_inv_md(factor2(q, p), inv_md(factor2(q, p))),
    ensures
        mul_md(factor2(q, p), mul_md(factor2(p, q), y)) == y,
        decrypt_val(
            rsk_b_val(rsk_b_val(b, factor2(a, b2), factor2(p, q)), factor2(b2, a), factor2(q, p)),
            rsk_c_val(rsk_c_val(c, factor2(a, b2)), factor2(b2, a)),
            mul_md(factor2(q, p), mul_md(factor2(p, q), y)),
        ) == decrypt_val(b, c, y),
{
    let l = group_order();
    let s1 = factor2(a, b2);
    let k1 = factor2(p, q);
    let s2 = factor2(b2, a);
    let k2 = factor2(q, p);
    let d = decrypt_val(b, c, y);
    lemma_decrypt_range(b, c, y);
    lemma_rsk(b, c, y, s1, k1, inv_md(k1));
    let b1 = rsk_b_val(b, s1, k1);
    let c1 = rsk_c_val(c, s1);
    let y1 = mul_md(k1, y);
    lemma_rsk(b1, c1, y1, s2, k2, inv_md(k2));
    assert(decrypt_val(rsk_b_val(b1, s2, k2), rsk_c_val(c1, s2), mul_md(k2, y1)) == mul_md(
        s2,
        mul_md(s1, d),
    ));
    lemma_mul_md_assoc(s2, s1, d);
    lemma_factor2_cancel(a, inv_md(a), b2, inv_md(b2));
    assert(mul_md(s2, s1) == 1);
    lemma_mul_md_one(d);
    assert(mul_md(mul_md(s2, s1), d) == d) by {
        lemma_mul_md_left(1, d);
        lemma_md_small(d);
        assert(mul_md(1, d) == d);
    }
    lemma_mul_md_assoc(k2, k1, y);
    lemma_factor2_cancel(p, inv_md(p), q, inv_md(q));
    assert(mul_md(k2, k1) == 1);
    assert(mul_md(mul_md(k2, k1), y) == y) by {
        lemma_mul_md_one(y);
    }
}

} // verus!
