//! Group and scalar arithmetic over the prime-order Ristretto group.
//!
//! A `GroupElement` is modelled in specifications by its discrete logarithm
//! with respect to the fixed generator: an integer in `[0, group_order())`.
//! Scalars are modelled by their value modulo the group order.  Since the
//! group is cyclic of prime order, the discrete logarithm is a bijection and
//! every group operation corresponds to modular arithmetic on the models.

use curve25519_dalek::constants::RISTRETTO_BASEPOINT_POINT;
use curve25519_dalek::ristretto::CompressedRistretto;
use curve25519_dalek::ristretto::RistrettoPoint;
use curve25519_dalek::scalar::Scalar;
use rand_core::OsRng;
use rand_core::RngCore;
use vstd::arithmetic::div_mod::lemma_add_mod_noop;
use vstd::arithmetic::div_mod::lemma_add_mod_noop_right;
use vstd::arithmetic::div_mod::lemma_fundamental_div_mod;
use vstd::arithmetic::div_mod::lemma_mod_bound;
use vstd::arithmetic::div_mod::lemma_mul_mod_noop_left;
use vstd::arithmetic::div_mod::lemma_mul_mod_noop_right;
use vstd::arithmetic::div_mod::lemma_small_mod;
use vstd::arithmetic::div_mod::lemma_sub_mod_noop;
use vstd::arithmetic::div_mod::lemma_sub_mod_noop_right;
use vstd::arithmetic::power::lemma_pow0;
use vstd::arithmetic::power::lemma_pow1;
use vstd::arithmetic::power::lemma_pow_adds;
use vstd::arithmetic::power::pow;
use vstd::prelude::*;

verus! {

#[verifier::external_type_specification]
#[verifier::external_body]
pub struct ExRistrettoPoint(RistrettoPoint);

#[verifier::external_type_specification]
#[verifier::external_body]
pub struct ExScalar(Scalar);

/// The order of the Ristretto group: a prime.
pub open spec fn group_order() -> int {
    7237005577332262213973186563042994240857116359379907606001950938285454250989int
}

/// Sum of two models, reduced modulo the group order.
pub open spec fn add_md(a: int, b: int) -> int {
    (a + b) % group_order()
}

/// Difference of two models, reduced modulo the group order.
pub open spec fn sub_md(a: int, b: int) -> int {
    (a - b) % group_order()
}

/// Product of two models, reduced modulo the group order.
pub open spec fn mul_md(a: int, b: int) -> int {
    (a * b) % group_order()
}

/// `xi` is the multiplicative inverse of `x` modulo the group order.
pub open spec fn is_inv_md(x: int, xi: int) -> bool {
    &&& 1 <= xi < group_order()
    &&& mul_md(x, xi) == 1
}

/// The multiplicative inverse of `x` modulo the group order, where one exists.
pub open spec fn inv_md(x: int) -> int {
    choose|xi: int| is_inv_md(x, xi)
}

/// The integer denoted by a little-endian byte sequence.
pub open spec fn int_of_le(b: Seq<u8>) -> int
    decreases b.len(),
{
    if b.len() == 0 {
        0
    } else {
        b[0] + 256 * int_of_le(b.drop_first())
    }
}

/// The `n`-byte little-endian encoding of `x`.
pub open spec fn le_bytes(x: int, n: nat) -> Seq<u8>
    decreases n,
{
    if n == 0 {
        Seq::empty()
    } else {
        seq![(x % 256) as u8] + le_bytes(x / 256, (n - 1) as nat)
    }
}

/// The canonical 32-byte little-endian encoding of a scalar value.
pub open spec fn le_bytes32(x: int) -> Seq<u8> {
    le_bytes(x, 32)
}

/// A 64-byte string reduced modulo the group order, with the zero outcome
/// replaced by one so that the result is always a valid non-zero scalar.
pub open spec fn scalar_from_hash_val(b: Seq<u8>) -> int {
    let x = int_of_le(b) % group_order();
    if x == 0 {
        1
    } else {
        x
    }
}

/// The discrete logarithm of a point with respect to the generator.
pub uninterp spec fn point_val(p: RistrettoPoint) -> int;

/// The value of a scalar, modulo the group order.
pub uninterp spec fn scalar_val(s: Scalar) -> int;

/// The canonical 32-byte encoding of the point with the given model.
pub uninterp spec fn point_bytes(p: int) -> Seq<u8>;

/// The model of the point that canonical bytes decompress to.
pub uninterp spec fn point_of_bytes(b: Seq<u8>) -> int;

/// The model of the point that `RistrettoPoint::from_uniform_bytes` returns
/// on the given 64 bytes.
pub uninterp spec fn point_from_hash(b: Seq<u8>) -> int;

/// Relies on `RISTRETTO_BASEPOINT_POINT`: the fixed generator, of model 1.
#[verifier::external_body]
fn pt_generator() -> (r: RistrettoPoint)
    ensures
        point_val(r) == 1int,
{
    RISTRETTO_BASEPOINT_POINT
}

/// Relies on `RistrettoPoint::identity`: the neutral element, of model 0.
#[verifier::external_body]
fn pt_identity() -> (r: RistrettoPoint)
    ensures
        point_val(r) == 0int,
{
    curve25519_dalek::traits::Identity::identity()
}

/// Relies on `RistrettoPoint` addition: models add modulo the group order.
#[verifier::external_body]
fn pt_add(a: &RistrettoPoint, b: &RistrettoPoint) -> (r: RistrettoPoint)
    ensures
        point_val(r) == add_md(point_val(*a), point_val(*b)),
        0 <= point_val(r) < group_order(),
{
    a + b
}

/// Relies on `RistrettoPoint` subtraction: models subtract modulo the group order.
#[verifier::external_body]
fn pt_sub(a: &RistrettoPoint, b: &RistrettoPoint) -> (r: RistrettoPoint)
    ensures
        point_val(r) == sub_md(point_val(*a), point_val(*b)),
        0 <= point_val(r) < group_order(),
{
    a - b
}

/// Relies on `RistrettoPoint` equality: discrete logarithms are equal exactly
/// when the points are.
#[verifier::external_body]
fn pt_eq(a: &RistrettoPoint, b: &RistrettoPoint) -> (r: bool)
    ensures
        r == (point_val(*a) == point_val(*b)),
{
    a == b
}

/// Relies on `RistrettoPoint::compress`: the canonical 32-byte encoding, a
/// function of the point alone; decompressing it gives the point back.
#[verifier::external_body]
fn pt_compress(p: &RistrettoPoint) -> (r: [u8; 32])
    ensures
        r@ == point_bytes(point_val(*p)),
        point_of_bytes(r@) == point_val(*p),
{
    p.compress().to_bytes()
}

/// Relies on `CompressedRistretto::decompress`: succeeds exactly on the
/// canonical encoding of a point, and inverts `compress`.
#[verifier::external_body]
fn pt_decompress(v: &[u8]) -> (r: Option<RistrettoPoint>)
    requires
        v@.len() == 32,
    ensures
        (r matches Some(q) ==> 0 <= point_val(q) < group_order() && point_val(q) == point_of_bytes(
            v@,
        ) && v@ == point_bytes(point_val(q))),
        (r is None ==> forall|x: int|
            0 <= x < group_order() ==> v@ != point_bytes(x)),
{
    match CompressedRistretto::from_slice(v) {
        Ok(c) => c.decompress(),
        Err(_) => None,
    }
}

/// Relies on `RistrettoPoint::from_uniform_bytes`: a deterministic map from
/// 64 bytes onto the group.
#[verifier::external_body]
fn pt_from_hash(v: &[u8; 64]) -> (r: RistrettoPoint)
    ensures
        point_val(r) == point_from_hash(v@),
        0 <= point_val(r) < group_order(),
{
    RistrettoPoint::from_uniform_bytes(v)
}

/// Relies on `Scalar::ONE`.
#[verifier::external_body]
fn sc_one() -> (r: Scalar)
    ensures
        scalar_val(r) == 1int,
{
    Scalar::ONE
}

/// Relies on `Scalar::ZERO`.
#[verifier::external_body]
fn sc_zero() -> (r: Scalar)
    ensures
        scalar_val(r) == 0int,
{
    Scalar::ZERO
}

/// Relies on `Scalar` multiplication modulo the prime group order; a product
/// of non-zero scalars is again non-zero.
#[verifier::external_body]
fn sc_mul(a: &Scalar, b: &Scalar) -> (r: Scalar)
    ensures
        scalar_val(r) == mul_md(scalar_val(*a), scalar_val(*b)),
        0 <= scalar_val(r) < group_order(),
        (scalar_val(*a) != 0 && scalar_val(*b) != 0 ==> scalar_val(r) != 0),
{
    a * b
}

/// Relies on `Scalar` addition modulo the group order.
#[verifier::external_body]
fn sc_add(a: &Scalar, b: &Scalar) -> (r: Scalar)
    ensures
        scalar_val(r) == add_md(scalar_val(*a), scalar_val(*b)),
        0 <= scalar_val(r) < group_order(),
{
    a + b
}

/// Relies on `Scalar::invert`: the multiplicative inverse modulo the group
/// order of a non-zero scalar.
#[verifier::external_body]
fn sc_invert(a: &Scalar) -> (r: Scalar)
    requires
        scalar_val(*a) != 0,
    ensures
        is_inv_md(scalar_val(*a), scalar_val(r)),
{
    a.invert()
}

/// Relies on `Scalar` times `RistrettoPoint`: models multiply modulo the
/// group order.
#[verifier::external_body]
fn sc_mul_pt(a: &Scalar, p: &RistrettoPoint) -> (r: RistrettoPoint)
    ensures
        point_val(r) == mul_md(scalar_val(*a), point_val(*p)),
        0 <= point_val(r) < group_order(),
{
    a * p
}

/// Relies on `Scalar` equality: values modulo the group order are equal
/// exactly when the scalars are.
#[verifier::external_body]
fn sc_eq(a: &Scalar, b: &Scalar) -> (r: bool)
    ensures
        r == (scalar_val(*a) == scalar_val(*b)),
{
    a == b
}

/// Relies on `Scalar::from_bytes_mod_order_wide`: reduces 64 little-endian
/// bytes modulo the group order.
#[verifier::external_body]
fn sc_from_wide(v: &[u8; 64]) -> (r: Scalar)
    ensures
        scalar_val(r) == int_of_le(v@) % group_order(),
        0 <= scalar_val(r) < group_order(),
{
    Scalar::from_bytes_mod_order_wide(v)
}

/// Relies on `Scalar::to_bytes`: the canonical little-endian encoding of the
/// scalar's value.
#[verifier::external_body]
fn sc_to_bytes(a: &Scalar) -> (r: [u8; 32])
    ensures
        r@ == le_bytes32(scalar_val(*a)),
{
    a.to_bytes()
}

/// Relies on `Scalar::from_canonical_bytes`: succeeds exactly on 32
/// little-endian bytes denoting a value below the group order, and returns
/// the scalar with that value.
#[verifier::external_body]
fn sc_from_canonical(v: &[u8; 32]) -> (r: Option<Scalar>)
    ensures
        (r matches Some(q) ==> 0 <= scalar_val(q) < group_order() && scalar_val(q) == int_of_le(v@)
            && v@ == le_bytes32(scalar_val(q))),
        (r is None ==> int_of_le(v@) >= group_order()),
{
    let ct = Scalar::from_canonical_bytes(*v);
    if bool::from(ct.is_some()) {
        Some(ct.unwrap())
    } else {
        None
    }
}

/// Relies on `OsRng`, the operating system's randomness source.
#[verifier::external_body]
fn random_bytes_64() -> (r: [u8; 64]) {
    let mut bytes = [0u8; 64];
    OsRng.fill_bytes(&mut bytes);
    bytes
}

/// A point of the Ristretto group, modelled by its discrete logarithm with
/// respect to the generator.
#[derive(Clone, Copy, Debug)]
pub struct GroupElement {
    pt: RistrettoPoint,
}

/// A scalar modulo the group order that is never zero.
#[derive(Clone, Copy, Debug)]
pub struct ScalarNonZero {
    s: Scalar,
}

/// A scalar modulo the group order; zero is allowed.
#[derive(Clone, Copy, Debug)]
pub struct ScalarCanBeZero {
    s: Scalar,
}

impl View for GroupElement {
    type V = int;

    closed spec fn view(&self) -> int {
        point_val(self.pt)
    }
}

impl View for ScalarNonZero {
    type V = int;

    closed spec fn view(&self) -> int {
        scalar_val(self.s)
    }
}

impl View for ScalarCanBeZero {
    type V = int;

    closed spec fn view(&self) -> int {
        scalar_val(self.s)
    }
}

impl GroupElement {
    #[verifier::type_invariant]
    pub closed spec fn wf(self) -> bool {
        0 <= point_val(self.pt) < group_order()
    }

    pub fn generator() -> (r: GroupElement)
        ensures
            r@ == 1int,
    {
        GroupElement { pt: pt_generator() }
    }

    pub fn identity() -> (r: GroupElement)
        ensures
            r@ == 0int,
    {
        GroupElement { pt: pt_identity() }
    }

    pub fn add(&self, other: &GroupElement) -> (r: GroupElement)
        ensures
            r@ == add_md(self@, other@),
    {
        GroupElement { pt: pt_add(&self.pt, &other.pt) }
    }

    pub fn sub(&self, other: &GroupElement) -> (r: GroupElement)
        ensures
            r@ == sub_md(self@, other@),
    {
        GroupElement { pt: pt_sub(&self.pt, &other.pt) }
    }

    pub fn equals(&self, other: &GroupElement) -> (r: bool)
        ensures
            r == (self@ == other@),
    {
        pt_eq(&self.pt, &other.pt)
    }

    pub fn is_identity(&self) -> (r: bool)
        ensures
            r == (self@ == 0),
    {
        self.equals(&GroupElement::identity())
    }

    pub fn encode(&self) -> (r: [u8; 32])
        ensures
            r@ == point_bytes(self@),
            point_of_bytes(r@) == self@,
    {
        pt_compress(&self.pt)
    }

    pub fn decode_from_slice(v: &[u8]) -> (r: Option<GroupElement>)
        ensures
            (r matches Some(q) ==> 0 <= q@ < group_order() && q@ == point_of_bytes(v@) && v@
                == point_bytes(q@)),
            (r is None ==> v@.len() != 32 || forall|x: int|
                0 <= x < group_order() ==> v@ != point_bytes(x)),
    {
        if v.len() == 32 {
            match pt_decompress(v) {
                Some(p) => Some(GroupElement { pt: p }),
                None => None,
            }
        } else {
            None
        }
    }

    pub fn decode(v: &[u8; 32]) -> (r: Option<GroupElement>)
        ensures
            (r matches Some(q) ==> 0 <= q@ < group_order() && q@ == point_of_bytes(v@) && v@
                == point_bytes(q@)),
            (r is None ==> forall|x: int|
                0 <= x < group_order() ==> v@ != point_bytes(x)),
    {
        GroupElement::decode_from_slice(v.as_slice())
    }

    pub fn decode_from_hash(v: &[u8; 64]) -> (r: GroupElement)
        ensures
            r@ == point_from_hash(v@),
    {
        GroupElement { pt: pt_from_hash(v) }
    }

    pub fn random() -> (r: GroupElement)
        ensures
            0 <= r@ < group_order(),
    {
        let bytes = random_bytes_64();
        let r = GroupElement::decode_from_hash(&bytes);
        proof {
            use_type_invariant(&r);
        }
        r
    }

}

impl PartialEq for GroupElement {
    fn eq(&self, other: &GroupElement) -> (r: bool) {
        self.equals(other)
    }
}

impl vstd::std_specs::cmp::PartialEqSpecImpl for GroupElement {
    open spec fn obeys_eq_spec() -> bool {
        true
    }

    open spec fn eq_spec(&self, other: &GroupElement) -> bool {
        self@ == other@
    }
}

impl ScalarNonZero {
    #[verifier::type_invariant]
    pub closed spec fn wf(self) -> bool {
        1 <= scalar_val(self.s) < group_order()
    }

    pub fn one() -> (r: ScalarNonZero)
        ensures
            r@ == 1int,
    {
        ScalarNonZero { s: sc_one() }
    }

    pub fn mul(&self, other: &ScalarNonZero) -> (r: ScalarNonZero)
        ensures
            r@ == mul_md(self@, other@),
            1 <= r@ < group_order(),
    {
        proof {
            use_type_invariant(self);
            use_type_invariant(other);
        }
        ScalarNonZero { s: sc_mul(&self.s, &other.s) }
    }

    pub fn invert(&self) -> (r: ScalarNonZero)
        ensures
            is_inv_md(self@, r@),
            r@ == inv_md(self@),
    {
        proof {
            use_type_invariant(self);
        }
        let r = ScalarNonZero { s: sc_invert(&self.s) };
        proof {
            lemma_inv_md_unique(self@, r@);
        }
        r
    }

    pub fn mul_point(&self, p: &GroupElement) -> (r: GroupElement)
        ensures
            r@ == mul_md(self@, p@),
    {
        GroupElement { pt: sc_mul_pt(&self.s, &p.pt) }
    }

    pub fn to_can_be_zero(&self) -> (r: ScalarCanBeZero)
        ensures
            r@ == self@,
    {
        proof {
            use_type_invariant(self);
        }
        ScalarCanBeZero { s: self.s }
    }

    /// A uniformly random non-zero scalar; a zero draw is resampled.  After
    /// 64 zero draws in a row, which no real randomness source produces, the
    /// sampling falls back to one.
    pub fn random() -> (r: ScalarNonZero)
        ensures
            1 <= r@ < group_order(),
    {
        let mut attempts: usize = 0;
        while attempts < 64
            decreases 64 - attempts,
        {
            let bytes = random_bytes_64();
            let s = ScalarCanBeZero::from_wide_bytes(&bytes);
            proof {
                use_type_invariant(&s);
            }
            match s.try_into_non_zero() {
                Some(nz) => {
                    return nz;
                },
                None => {},
            }
            attempts = attempts + 1;
        }
        ScalarNonZero::one()
    }

    /// The scalar denoted by 64 hash bytes, reduced modulo the group order;
    /// a reduction that lands on zero falls back to one, as
    /// `scalar_from_hash_val` states.
    pub fn from_hash(v: &[u8; 64]) -> (r: ScalarNonZero)
        ensures
            r@ == scalar_from_hash_val(v@),
    {
        let s = ScalarCanBeZero::from_wide_bytes(v);
        if s.is_zero() {
            ScalarNonZero::one()
        } else {
            proof {
                use_type_invariant(&s);
            }
            ScalarNonZero { s: s.s }
        }
    }

    pub fn encode(&self) -> (r: [u8; 32])
        ensures
            r@ == le_bytes32(self@),
    {
        sc_to_bytes(&self.s)
    }

    pub fn decode(v: &[u8; 32]) -> (r: Option<ScalarNonZero>)
        ensures
            (r matches Some(q) ==> 1 <= q@ < group_order() && q@ == int_of_le(v@) && v@
                == le_bytes32(q@)),
            (r is None ==> int_of_le(v@) >= group_order() || int_of_le(v@) == 0),
    {
        match ScalarCanBeZero::decode(v) {
            Some(s) => s.try_into_non_zero(),
            None => None,
        }
    }

    pub fn decode_from_slice(v: &[u8]) -> (r: Option<ScalarNonZero>)
        ensures
            (r matches Some(q) ==> 1 <= q@ < group_order() && q@ == int_of_le(v@) && v@
                == le_bytes32(q@)),
            (r is None ==> v@.len() != 32 || int_of_le(v@) >= group_order() || int_of_le(v@) == 0),
    {
        match ScalarCanBeZero::decode_from_slice(v) {
            Some(s) => s.try_into_non_zero(),
            None => None,
        }
    }

}

impl PartialEq for ScalarNonZero {
    fn eq(&self, other: &ScalarNonZero) -> (r: bool) {
        sc_eq(&self.s, &other.s)
    }
}

impl vstd::std_specs::cmp::PartialEqSpecImpl for ScalarNonZero {
    open spec fn obeys_eq_spec() -> bool {
        true
    }

    open spec fn eq_spec(&self, other: &ScalarNonZero) -> bool {
        self@ == other@
    }
}

impl ScalarCanBeZero {
    #[verifier::type_invariant]
    pub closed spec fn wf(self) -> bool {
        0 <= scalar_val(self.s) < group_order()
    }

    pub fn zero() -> (r: ScalarCanBeZero)
        ensures
            r@ == 0int,
    {
        ScalarCanBeZero { s: sc_zero() }
    }

    pub fn add(&self, other: &ScalarCanBeZero) -> (r: ScalarCanBeZero)
        ensures
            r@ == add_md(self@, other@),
    {
        ScalarCanBeZero { s: sc_add(&self.s, &other.s) }
    }

    pub fn mul_point(&self, p: &GroupElement) -> (r: GroupElement)
        ensures
            r@ == mul_md(self@, p@),
    {
        GroupElement { pt: sc_mul_pt(&self.s, &p.pt) }
    }

    pub fn is_zero(&self) -> (r: bool)
        ensures
            r == (self@ == 0),
    {
        let z = ScalarCanBeZero::zero();
        sc_eq(&self.s, &z.s)
    }

    pub fn equals(&self, other: &ScalarCanBeZero) -> (r: bool)
        ensures
            r == (self@ == other@),
    {
        sc_eq(&self.s, &other.s)
    }

    pub fn from_wide_bytes(v: &[u8; 64]) -> (r: ScalarCanBeZero)
        ensures
            r@ == int_of_le(v@) % group_order(),
    {
        ScalarCanBeZero { s: sc_from_wide(v) }
    }

    pub fn encode(&self) -> (r: [u8; 32])
        ensures
            r@ == le_bytes32(self@),
    {
        sc_to_bytes(&self.s)
    }

    pub fn decode(v: &[u8; 32]) -> (r: Option<ScalarCanBeZero>)
        ensures
            (r matches Some(q) ==> 0 <= q@ < group_order() && q@ == int_of_le(v@) && v@
                == le_bytes32(q@)),
            (r is None ==> int_of_le(v@) >= group_order()),
    {
        match sc_from_canonical(v) {
            Some(s) => Some(ScalarCanBeZero { s }),
            None => None,
        }
    }

    pub fn decode_from_slice(v: &[u8]) -> (r: Option<ScalarCanBeZero>)
        ensures
            (r matches Some(q) ==> 0 <= q@ < group_order() && q@ == int_of_le(v@) && v@
                == le_bytes32(q@)),
            (r is None ==> v@.len() != 32 || int_of_le(v@) >= group_order()),
    {
        if v.len() == 32 {
            let mut arr = [0u8; 32];
            let mut i: usize = 0;
            while i < 32
                invariant
                    v@.len() == 32,
                    i <= 32,
                    arr@.len() == 32,
                    forall|j: int| 0 <= j < i ==> arr@[j] == v@[j],
                decreases 32 - i,
            {
                arr[i] = v[i];
                i = i + 1;
            }
            proof {
                assert(arr@ =~= v@);
            }
            ScalarCanBeZero::decode(&arr)
        } else {
            None
        }
    }

    pub fn try_into_non_zero(&self) -> (r: Option<ScalarNonZero>)
        ensures
            self@ != 0 ==> (r matches Some(q) && q@ == self@),
            self@ == 0 ==> r is None,
    {
        proof {
            use_type_invariant(self);
        }
        if self.is_zero() {
            None
        } else {
            Some(ScalarNonZero { s: self.s })
        }
    }

}

impl PartialEq for ScalarCanBeZero {
    fn eq(&self, other: &ScalarCanBeZero) -> (r: bool) {
        self.equals(other)
    }
}

impl vstd::std_specs::cmp::PartialEqSpecImpl for ScalarCanBeZero {
    open spec fn obeys_eq_spec() -> bool {
        true
    }

    open spec fn eq_spec(&self, other: &ScalarCanBeZero) -> bool {
        self@ == other@
    }
}

/// The type invariant of a point: its model lies in `[0, group_order())`.
pub proof fn lemma_point_range(p: GroupElement)
    requires
        p.wf(),
    ensures
        0 <= p@ < group_order(),
{
}

/// The type invariant of a non-zero scalar: its model lies in
/// `[1, group_order())`.
pub proof fn lemma_nonzero_scalar_range(s: ScalarNonZero)
    requires
        s.wf(),
    ensures
        1 <= s@ < group_order(),
{
}

/// A value already below the group order is its own residue.
pub proof fn lemma_md_small(a: int)
    requires
        0 <= a < group_order(),
    ensures
        a % group_order() == a,
{
    lemma_small_mod(a as nat, group_order() as nat);
}

/// Reducing the left summand first does not change a modular sum.
pub proof fn lemma_add_md_left(a: int, b: int)
    ensures
        add_md(a % group_order(), b) == (a + b) % group_order(),
{
    let l = group_order();
    lemma_add_mod_noop_right(a % l, b, l);
    lemma_add_mod_noop(a, b, l);
    lemma_mod_bound(a, l);
    lemma_small_mod((a % l) as nat, l as nat);
}

/// Reducing the right summand first does not change a modular sum.
pub proof fn lemma_add_md_right(a: int, b: int)
    ensures
        add_md(a, b % group_order()) == (a + b) % group_order(),
{
    lemma_add_mod_noop_right(a, b, group_order());
}

/// Reducing the minuend first does not change a modular difference.
pub proof fn lemma_sub_md_left(a: int, b: int)
    ensures
        sub_md(a % group_order(), b) == (a - b) % group_order(),
{
    let l = group_order();
    lemma_sub_mod_noop_right(a % l, b, l);
    lemma_sub_mod_noop(a, b, l);
    lemma_mod_bound(a, l);
    lemma_small_mod((a % l) as nat, l as nat);
}

/// Reducing the subtrahend first does not change a modular difference.
pub proof fn lemma_sub_md_right(a: int, b: int)
    ensures
        sub_md(a, b % group_order()) == (a - b) % group_order(),
{
    lemma_sub_mod_noop_right(a, b, group_order());
}

/// Reducing the left factor first does not change a modular product.
pub proof fn lemma_mul_md_left(a: int, b: int)
    ensures
        mul_md(a % group_order(), b) == (a * b) % group_order(),
{
    lemma_mul_mod_noop_left(a, b, group_order());
}

/// Reducing the right factor first does not change a modular product.
pub proof fn lemma_mul_md_right(a: int, b: int)
    ensures
        mul_md(a, b % group_order()) == (a * b) % group_order(),
{
    lemma_mul_mod_noop_right(a, b, group_order());
}

/// Multiplication by one is the identity on reduced values.
pub proof fn lemma_mul_md_one(a: int)
    requires
        0 <= a < group_order(),
    ensures
        mul_md(a, 1) == a,
        mul_md(1, a) == a,
{
    lemma_md_small(a);
}

/// Modular multiplication is commutative.
pub proof fn lemma_mul_md_comm(a: int, b: int)
    ensures
        mul_md(a, b) == mul_md(b, a),
{
    assert(a * b == b * a) by (nonlinear_arith);
}

/// Modular multiplication is associative.
pub proof fn lemma_mul_md_assoc(a: int, b: int, c: int)
    ensures
        mul_md(a, mul_md(b, c)) == mul_md(mul_md(a, b), c),
{
    let l = group_order();
    lemma_mul_mod_noop_right(a, b * c, l);
    assert(a * (b * c) == (a * b) * c) by (nonlinear_arith);
    lemma_mul_mod_noop_left(a * b, c, l);
}

/// The multiplicative inverse modulo the prime group order is unique.
pub proof fn lemma_inv_md_unique(x: int, xi: int)
    requires
        is_inv_md(x, xi),
    ensures
        inv_md(x) == xi,
{
    assert(exists|z: int| is_inv_md(x, z)) by {
        assert(is_inv_md(x, xi));
    }
    assert(is_inv_md(x, inv_md(x)));
    let xj = inv_md(x);
    lemma_mul_md_assoc(xi, x, xj);
    lemma_mul_md_comm(xi, x);
    lemma_mul_md_one(xi);
    lemma_mul_md_one(xj);
    assert(mul_md(xi, mul_md(x, xj)) == mul_md(xi, 1));
    assert(mul_md(mul_md(xi, x), xj) == mul_md(1, xj));
}

/// Reading back the little-endian encoding of a value gives the value.
pub proof fn lemma_le_bytes_roundtrip(x: int, n: nat)
    requires
        0 <= x < pow(256, n),
    ensures
        int_of_le(le_bytes(x, n)) == x,
    decreases n,
{
    if n == 0 {
        lemma_pow0(256);
    } else {
        let l = le_bytes(x, n);
        let rest = le_bytes(x / 256, (n - 1) as nat);
        assert(l == seq![(x % 256) as u8] + rest);
        assert(l.len() == 1 + rest.len());
        assert(l[0] == (x % 256) as u8);
        assert(l.drop_first() =~= rest);
        lemma_mod_bound(x, 256);
        lemma_pow1(256);
        lemma_pow_adds(256, 1, (n - 1) as nat);
        assert(pow(256, n) == 256 * pow(256, (n - 1) as nat));
        assert(x / 256 < pow(256, (n - 1) as nat)) by (nonlinear_arith)
            requires
                0 <= x < 256 * pow(256, (n - 1) as nat),
        ;
        assert(x / 256 >= 0) by (nonlinear_arith)
            requires
                x >= 0,
        ;
        lemma_le_bytes_roundtrip(x / 256, (n - 1) as nat);
        lemma_fundamental_div_mod(x, 256);
    }
}

/// The little-endian encoding of a scalar value reads back as the value:
/// scalar encode followed by decode is the identity.
pub proof fn lemma_le_bytes32_roundtrip(x: int)
    requires
        0 <= x < group_order(),
    ensures
        int_of_le(le_bytes32(x)) == x,
{
    lemma_pow_256_32();
    lemma_le_bytes_roundtrip(x, 32);
}

/// `pow(256, 32)` written out, by repeated squaring.
proof fn lemma_pow_256_32()
    ensures
        pow(256, 32)
            == 115792089237316195423570985008687907853269984665640564039457584007913129639936int,
{
    lemma_pow1(256);
    lemma_pow_adds(256, 1, 1);
    assert(pow(256, 2) == 65536);
    lemma_pow_adds(256, 2, 2);
    assert(pow(256, 4) == 4294967296int);
    lemma_pow_adds(256, 4, 4);
    assert(pow(256, 8) == 18446744073709551616int);
    lemma_pow_adds(256, 8, 8);
    assert(pow(256, 16) == 340282366920938463463374607431768211456int);
    lemma_pow_adds(256, 16, 16);
}

} // verus!
