//! Deterministic factor derivation, hex encoding, and the one-server
//! pseudonym workflow: generate an encrypted global pseudonym, convert it to
//! a local one, and decrypt it with a local decryption key.

use crate::arithmetic::group_order;
use crate::arithmetic::inv_md;
use crate::arithmetic::mul_md;
use crate::arithmetic::point_from_hash;
use crate::arithmetic::scalar_from_hash_val;
use crate::arithmetic::GroupElement;
use crate::arithmetic::ScalarNonZero;
use crate::elgamal::decrypt;
use crate::elgamal::decrypt_val;
use crate::elgamal::encrypt;
use crate::elgamal::encrypt_b_val;
use crate::elgamal::encrypt_c_val;
use crate::elgamal::ElGamal;
use crate::primitives::rerandomize;
use crate::primitives::rsk;
use crate::primitives::rsk_b_val;
use crate::primitives::rsk_c_val;
use sha2::Digest;
use sha2::Sha512;
use vstd::prelude::*;
use vstd::string::StringSliceAdditionalSpecFns;

verus! {

/// The 64-byte SHA-512 digest of a byte string: a function of the input
/// alone.
pub uninterp spec fn sha512_of(b: Seq<u8>) -> Seq<u8>;

/// Relies on sha2's `Sha512`: the 64-byte digest of the input.
#[verifier::external_body]
pub fn sha512(data: &[u8]) -> (r: [u8; 64])
    ensures
        r@ == sha512_of(data@),
{
    let mut out = [0u8; 64];
    let digest = Sha512::digest(data);
    out.copy_from_slice(&digest);
    out
}

/// Relies on `String::push`.
#[verifier::external_body]
fn push_char(s: &mut String, c: char)
    ensures
        final(s)@ == old(s)@.push(c),
{
    s.push(c);
}

/// The bytes of the domain tag for pseudonymisation factors: `pseudonym`.
pub open spec fn pseudonym_domain() -> Seq<u8> {
    seq![112u8, 115u8, 101u8, 117u8, 100u8, 111u8, 110u8, 121u8, 109u8]
}

/// The bytes of the domain tag for rekey factors: `decryption`.
pub open spec fn decryption_domain() -> Seq<u8> {
    seq![100u8, 101u8, 99u8, 114u8, 121u8, 112u8, 116u8, 105u8, 111u8, 110u8]
}

/// The input that factor derivation hashes: `domain | secret | context`,
/// with an ASCII bar between the parts.
pub open spec fn factor_bytes(domain: Seq<u8>, secret: Seq<u8>, context: Seq<u8>) -> Seq<u8> {
    domain + seq![124u8] + secret + seq![124u8] + context
}

/// The derived factor: the hash of `domain | secret | context` reduced to a
/// non-zero scalar.  A pure function of its arguments: deriving twice from
/// the same inputs gives the same factor.
pub open spec fn factor_val(domain: Seq<u8>, secret: Seq<u8>, context: Seq<u8>) -> int {
    scalar_from_hash_val(sha512_of(factor_bytes(domain, secret, context)))
}

pub(crate) fn push_all(out: &mut Vec<u8>, s: &[u8])
    ensures
        final(out)@ == old(out)@ + s@,
{
    let mut i: usize = 0;
    while i < s.len()
        invariant
            i <= s@.len(),
            out@ =~= old(out)@ + s@.subrange(0, i as int),
        decreases s@.len() - i,
    {
        out.push(s[i]);
        i = i + 1;
    }
    proof {
        assert(out@ =~= old(out)@ + s@);
    }
}

/// Derive a non-zero scalar from a domain tag, a secret and a context.
pub fn make_factor(domain: &[u8], secret: &[u8], context: &[u8]) -> (r: ScalarNonZero)
    ensures
        r@ == factor_val(domain@, secret@, context@),
{
    let mut input: Vec<u8> = Vec::new();
    push_all(&mut input, domain);
    input.push(124u8);
    push_all(&mut input, secret);
    input.push(124u8);
    push_all(&mut input, context);
    proof {
        assert(input@ =~= factor_bytes(domain@, secret@, context@));
    }
    let digest = sha512(input.as_slice());
    ScalarNonZero::from_hash(&digest)
}

pub(crate) fn pseudonym_domain_bytes() -> (r: Vec<u8>)
    ensures
        r@ == pseudonym_domain(),
{
    let mut v: Vec<u8> = Vec::new();
    v.push(112u8);
    v.push(115u8);
    v.push(101u8);
    v.push(117u8);
    v.push(100u8);
    v.push(111u8);
    v.push(110u8);
    v.push(121u8);
    v.push(109u8);
    proof {
        assert(v@ =~= pseudonym_domain());
    }
    v
}

pub(crate) fn decryption_domain_bytes() -> (r: Vec<u8>)
    ensures
        r@ == decryption_domain(),
{
    let mut v: Vec<u8> = Vec::new();
    v.push(100u8);
    v.push(101u8);
    v.push(99u8);
    v.push(114u8);
    v.push(121u8);
    v.push(112u8);
    v.push(116u8);
    v.push(105u8);
    v.push(111u8);
    v.push(110u8);
    proof {
        assert(v@ =~= decryption_domain());
    }
    v
}

/// The reshuffle factor for a pseudonymisation context: derived under the
/// `pseudonym` domain tag.
pub fn make_pseudonymisation_factor(secret: &str, context: &str) -> (r: ScalarNonZero)
    ensures
        r@ == factor_val(pseudonym_domain(), secret.spec_bytes(), context.spec_bytes()),
{
    let domain = pseudonym_domain_bytes();
    make_factor(domain.as_slice(), secret.as_bytes(), context.as_bytes())
}

/// The rekey factor for a decryption context: derived under the
/// `decryption` domain tag, which never coincides with the `pseudonym` one.
pub fn make_decryption_factor(secret: &str, context: &str) -> (r: ScalarNonZero)
    ensures
        r@ == factor_val(decryption_domain(), secret.spec_bytes(), context.spec_bytes()),
{
    let domain = decryption_domain_bytes();
    make_factor(domain.as_slice(), secret.as_bytes(), context.as_bytes())
}

/// Generate the global key pair: a random non-zero secret and its public
/// point.
pub fn generate_global_keys() -> (r: (GroupElement, ScalarNonZero))
    ensures
        r.0@ == mul_md(r.1@, 1),
        1 <= r.1@ < group_order(),
{
    let y = ScalarNonZero::random();
    let gy = y.mul_point(&GroupElement::generator());
    (gy, y)
}

/// Encrypt the pseudonym of `identity` under the global public key: the
/// identity string is hashed onto the group and encrypted.
pub fn generate_pseudonym(identity: &str, pk: &GroupElement) -> (r: ElGamal)
    requires
        pk@ != 0,
    ensures
        exists|rv: int|
            #![auto]
            1 <= rv < group_order() && r.b@ == encrypt_b_val(rv) && r.c@ == encrypt_c_val(
                point_from_hash(sha512_of(identity.spec_bytes())),
                pk@,
                rv,
            ),
{
    let digest = sha512(identity.as_bytes());
    let p = GroupElement::decode_from_hash(&digest);
    encrypt(&p, pk)
}

/// Convert a global encrypted pseudonym to a local one: reshuffle by the
/// pseudonymisation factor and rekey by the decryption factor.
pub fn convert_to_local_pseudonym(
    p: &ElGamal,
    secret: &str,
    decryption_context: &str,
    pseudonimisation_context: &str,
) -> (r: ElGamal)
    ensures
        r.b@ == rsk_b_val(
            p.b@,
            factor_val(pseudonym_domain(), secret.spec_bytes(), pseudonimisation_context.spec_bytes()),
            factor_val(decryption_domain(), secret.spec_bytes(), decryption_context.spec_bytes()),
        ),
        r.c@ == rsk_c_val(
            p.c@,
            factor_val(pseudonym_domain(), secret.spec_bytes(), pseudonimisation_context.spec_bytes()),
        ),
{
    let u = make_pseudonymisation_factor(secret, pseudonimisation_context);
    let t = make_decryption_factor(secret, decryption_context);
    rsk(p, &u, &t)
}

/// Undo `convert_to_local_pseudonym`: reshuffle and rekey by the inverted
/// factors.
pub fn convert_from_local_pseudonym(
    p: &ElGamal,
    secret: &str,
    decryption_context: &str,
    pseudonimisation_context: &str,
) -> (r: ElGamal)
    ensures
        r.b@ == rsk_b_val(
            p.b@,
            inv_md(
                factor_val(
                    pseudonym_domain(),
                    secret.spec_bytes(),
                    pseudonimisation_context.spec_bytes(),
                ),
            ),
            inv_md(
                factor_val(decryption_domain(), secret.spec_bytes(), decryption_context.spec_bytes()),
            ),
        ),
        r.c@ == rsk_c_val(
            p.c@,
            inv_md(
                factor_val(
                    pseudonym_domain(),
                    secret.spec_bytes(),
                    pseudonimisation_context.spec_bytes(),
                ),
            ),
        ),
{
    let u = make_pseudonymisation_factor(secret, pseudonimisation_context).invert();
    let t = make_decryption_factor(secret, decryption_context).invert();
    rsk(p, &u, &t)
}

/// The local decryption key: the decryption factor times the global secret.
pub fn make_local_decryption_key(k: &ScalarNonZero, secret: &str, decryption_context: &str) -> (r:
    ScalarNonZero)
    ensures
        r@ == mul_md(
            factor_val(decryption_domain(), secret.spec_bytes(), decryption_context.spec_bytes()),
            k@,
        ),
{
    let t = make_decryption_factor(secret, decryption_context);
    t.mul(k)
}

/// Decrypt a local encrypted pseudonym with the local decryption key.
pub fn decrypt_local_pseudonym(p: &ElGamal, k: &ScalarNonZero) -> (r: GroupElement)
    ensures
        r@ == decrypt_val(p.b@, p.c@, k@),
{
    decrypt(p, k)
}

/// Rerandomize a global encrypted pseudonym with a fresh factor; `gy` is the
/// global public key the ciphertext was made for.
pub fn rerandomize_global(p: &ElGamal, gy: &GroupElement) -> (r: ElGamal)
    ensures
        exists|rv: int|
            #![auto]
            1 <= rv < group_order() && r.b@ == crate::arithmetic::add_md(mul_md(rv, 1), p.b@)
                && r.c@ == crate::arithmetic::add_md(mul_md(rv, gy@), p.c@),
{
    let rnd = ScalarNonZero::random();
    let r = rerandomize(p, gy, &rnd);
    proof {
        assert(1 <= rnd@ < group_order() && r.b@ == crate::arithmetic::add_md(mul_md(rnd@, 1), p.b@)
            && r.c@ == crate::arithmetic::add_md(mul_md(rnd@, gy@), p.c@));
    }
    r
}

/// Rerandomize a local encrypted pseudonym with a fresh factor; `gy` is the
/// session public key the ciphertext was made for.
pub fn rerandomize_local(p: &ElGamal, gy: &GroupElement) -> (r: ElGamal)
    ensures
        exists|rv: int|
            #![auto]
            1 <= rv < group_order() && r.b@ == crate::arithmetic::add_md(mul_md(rv, 1), p.b@)
                && r.c@ == crate::arithmetic::add_md(mul_md(rv, gy@), p.c@),
{
    rerandomize_global(p, gy)
}

/// The hex character for a value below 16.
pub open spec fn hex_digit_char(n: int) -> char {
    if n == 0 {
        '0'
    } else if n == 1 {
        '1'
    } else if n == 2 {
        '2'
    } else if n == 3 {
        '3'
    } else if n == 4 {
        '4'
    } else if n == 5 {
        '5'
    } else if n == 6 {
        '6'
    } else if n == 7 {
        '7'
    } else if n == 8 {
        '8'
    } else if n == 9 {
        '9'
    } else if n == 10 {
        'a'
    } else if n == 11 {
        'b'
    } else if n == 12 {
        'c'
    } else if n == 13 {
        'd'
    } else if n == 14 {
        'e'
    } else {
        'f'
    }
}

/// The lowercase hex spelling of a byte string, two characters per byte.
pub open spec fn hex_chars(b: Seq<u8>) -> Seq<char>
    decreases b.len(),
{
    if b.len() == 0 {
        Seq::empty()
    } else {
        seq![hex_digit_char(b[0] as int / 16), hex_digit_char(b[0] as int % 16)] + hex_chars(b.drop_first())
    }
}

/// A byte is an ASCII hex digit: `0-9`, `a-f` or `A-F`.
pub open spec fn is_hex_digit(c: u8) -> bool {
    (48 <= c <= 57) || (97 <= c <= 102) || (65 <= c <= 70)
}

/// The value of an ASCII hex digit.
pub open spec fn hex_digit_val(c: u8) -> int {
    if 48 <= c <= 57 {
        c - 48
    } else if 97 <= c <= 102 {
        c - 87
    } else {
        c - 55
    }
}

/// A byte string spells hex: even length, hex digits throughout.
pub open spec fn hex_ok(sb: Seq<u8>) -> bool {
    sb.len() % 2 == 0 && (forall|i: int| 0 <= i < sb.len() ==> is_hex_digit(#[trigger] sb[i]))
}

/// The bytes spelled by a hex byte string.
pub open spec fn hex_bytes_of(sb: Seq<u8>) -> Seq<u8>
    decreases sb.len(),
{
    if sb.len() < 2 {
        Seq::empty()
    } else {
        seq![(hex_digit_val(sb[0]) * 16 + hex_digit_val(sb[1])) as u8] + hex_bytes_of(
            sb.subrange(2, sb.len() as int),
        )
    }
}

proof fn lemma_hex_chars_snoc(b: Seq<u8>, x: u8)
    ensures
        hex_chars(b.push(x)) == hex_chars(b) + seq![
            hex_digit_char(x as int / 16),
            hex_digit_char(x as int % 16),
        ],
    decreases b.len(),
{
    if b.len() == 0 {
        assert(b =~= Seq::<u8>::empty());
        assert(hex_chars(b) == Seq::<char>::empty());
        assert(b.push(x) =~= seq![x]);
        assert(seq![x].drop_first() =~= Seq::<u8>::empty());
        assert(seq![x][0] == x);
        assert(hex_chars(seq![x]) == seq![
            hex_digit_char(x as int / 16),
            hex_digit_char(x as int % 16),
        ] + hex_chars(Seq::<u8>::empty()));
        assert(hex_chars(b.push(x)) =~= hex_chars(b) + seq![
            hex_digit_char(x as int / 16),
            hex_digit_char(x as int % 16),
        ]);
    } else {
        assert(b.push(x).drop_first() =~= b.drop_first().push(x));
        lemma_hex_chars_snoc(b.drop_first(), x);
        assert(hex_chars(b.push(x)) =~= hex_chars(b) + seq![
            hex_digit_char(x as int / 16),
            hex_digit_char(x as int % 16),
        ]);
    }
}

fn hex_digit_exec(n: u8) -> (c: char)
    requires
        n < 16,
    ensures
        c == hex_digit_char(n as int),
{
    if n == 0 {
        '0'
    } else if n == 1 {
        '1'
    } else if n == 2 {
        '2'
    } else if n == 3 {
        '3'
    } else if n == 4 {
        '4'
    } else if n == 5 {
        '5'
    } else if n == 6 {
        '6'
    } else if n == 7 {
        '7'
    } else if n == 8 {
        '8'
    } else if n == 9 {
        '9'
    } else if n == 10 {
        'a'
    } else if n == 11 {
        'b'
    } else if n == 12 {
        'c'
    } else if n == 13 {
        'd'
    } else if n == 14 {
        'e'
    } else {
        'f'
    }
}

/// The lowercase hex spelling of a byte string.
pub fn encode_hex(bytes: &[u8]) -> (r: String)
    ensures
        r@ == hex_chars(bytes@),
{
    let mut s = String::new();
    let mut i: usize = 0;
    while i < bytes.len()
        invariant
            i <= bytes@.len(),
            s@ =~= hex_chars(bytes@.subrange(0, i as int)),
        decreases bytes@.len() - i,
    {
        let b = bytes[i];
        push_char(&mut s, hex_digit_exec(b / 16));
        push_char(&mut s, hex_digit_exec(b % 16));
        proof {
            assert(bytes@.subrange(0, i + 1int) =~= bytes@.subrange(0, i as int).push(bytes@[i as int]));
            lemma_hex_chars_snoc(bytes@.subrange(0, i as int), bytes@[i as int]);
        }
        i = i + 1;
    }
    proof {
        assert(bytes@.subrange(0, bytes@.len() as int) =~= bytes@);
    }
    s
}

proof fn lemma_hex_bytes_snoc(t: Seq<u8>, a: u8, b: u8)
    requires
        t.len() % 2 == 0,
    ensures
        hex_bytes_of(t + seq![a, b]) == hex_bytes_of(t).push(
            (hex_digit_val(a) * 16 + hex_digit_val(b)) as u8,
        ),
    decreases t.len(),
{
    if t.len() == 0 {
        assert((t + seq![a, b]) =~= seq![a, b]);
        assert(hex_bytes_of(seq![a, b]).drop_first() =~= hex_bytes_of(
            seq![a, b].subrange(2, 2),
        ));
        assert(seq![a, b].subrange(2, 2) =~= Seq::<u8>::empty());
        assert(hex_bytes_of(t + seq![a, b]) =~= hex_bytes_of(t).push(
            (hex_digit_val(a) * 16 + hex_digit_val(b)) as u8,
        ));
    } else {
        let u = t + seq![a, b];
        assert(u.subrange(2, u.len() as int) =~= t.subrange(2, t.len() as int) + seq![a, b]);
        lemma_hex_bytes_snoc(t.subrange(2, t.len() as int), a, b);
        assert(hex_bytes_of(u) =~= hex_bytes_of(t).push(
            (hex_digit_val(a) * 16 + hex_digit_val(b)) as u8,
        ));
    }
}

fn hex_digit_val_exec(c: u8) -> (r: Option<u8>)
    ensures
        is_hex_digit(c) ==> (r matches Some(v) && v == hex_digit_val(c) && v < 16),
        !is_hex_digit(c) ==> r is None,
{
    if 48 <= c && c <= 57 {
        Some(c - 48)
    } else if 97 <= c && c <= 102 {
        Some(c - 87)
    } else if 65 <= c && c <= 70 {
        Some(c - 55)
    } else {
        None
    }
}

/// The bytes spelled by a hex string; malformed input yields no value.
pub fn decode_hex(s: &str) -> (r: Option<Vec<u8>>)
    ensures
        (r matches Some(v) ==> hex_ok(s.spec_bytes()) && v@ == hex_bytes_of(s.spec_bytes())),
        (r is None ==> !hex_ok(s.spec_bytes())),
{
    let sb = s.as_bytes();
    if sb.len() % 2 != 0 {
        return None;
    }
    let mut out: Vec<u8> = Vec::new();
    let mut i: usize = 0;
    while i + 1 < sb.len()
        invariant
            i % 2 == 0,
            i <= sb@.len(),
            sb@.len() % 2 == 0,
            sb@ == s.spec_bytes(),
            out@ =~= hex_bytes_of(sb@.subrange(0, i as int)),
            forall|j: int| 0 <= j < i ==> is_hex_digit(#[trigger] sb@[j]),
        decreases sb@.len() - i,
    {
        let hi = match hex_digit_val_exec(sb[i]) {
            Some(v) => v,
            None => {
                proof {
                    assert(!is_hex_digit(sb@[i as int]));
                    assert(!hex_ok(sb@));
                    assert(!hex_ok(s.spec_bytes()));
                }
                return None;
            },
        };
        let lo = match hex_digit_val_exec(sb[i + 1]) {
            Some(v) => v,
            None => {
                proof {
                    assert(!is_hex_digit(sb@[i + 1int]));
                    assert(!hex_ok(sb@));
                    assert(!hex_ok(s.spec_bytes()));
                }
                return None;
            },
        };
        out.push(hi * 16 + lo);
        proof {
            assert(sb@.subrange(0, i + 2int) =~= sb@.subrange(0, i as int) + seq![
                sb@[i as int],
                sb@[i + 1int],
            ]);
            lemma_hex_bytes_snoc(sb@.subrange(0, i as int), sb@[i as int], sb@[i + 1int]);
        }
        i = i + 2;
    }
    proof {
        assert(i == sb@.len());
        assert(sb@.subrange(0, sb@.len() as int) =~= sb@);
    }
    Some(out)
}

} // verus!
