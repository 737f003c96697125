//! Typed pseudonyms and data points, and their encrypted forms, with the
//! canonical, hex and base64 encodings of each.
//!
//! The Lizard embedding of raw 16-byte payloads into group elements is not
//! offered: it needs the invertible single-Elligator map, which
//! curve25519-dalek does not expose.

use crate::arithmetic::group_order;
use crate::arithmetic::point_bytes;
use crate::arithmetic::point_from_hash;
use crate::arithmetic::point_of_bytes;
use crate::arithmetic::GroupElement;
use crate::elgamal::b64_of;
use crate::elgamal::ElGamal;
use crate::utils::decode_hex;
use crate::utils::encode_hex;
use crate::utils::hex_bytes_of;
use crate::utils::hex_chars;
use crate::utils::hex_ok;
use vstd::prelude::*;
use vstd::string::StringSliceAdditionalSpecFns;

verus! {

/// A pseudonym: a group element standing for an identity.
#[derive(Clone, Copy, Debug)]
pub struct Pseudonym {
    pub value: GroupElement,
}

/// A data point: a group element carrying a payload.
#[derive(Clone, Copy, Debug)]
pub struct DataPoint {
    pub value: GroupElement,
}

/// An encrypted pseudonym.
#[derive(Clone, Copy, Debug)]
pub struct EncryptedPseudonym {
    pub value: ElGamal,
}

/// An encrypted data point.
#[derive(Clone, Copy, Debug)]
pub struct EncryptedDataPoint {
    pub value: ElGamal,
}

/// A plaintext value that can be encrypted: a wrapper around one group
/// element.
pub trait Encryptable: Sized {
    spec fn value_spec(&self) -> int;

    fn value(&self) -> (r: &GroupElement)
        ensures
            r@ == self.value_spec(),
    ;

    fn from_value(value: GroupElement) -> (r: Self)
        ensures
            r.value_spec() == value@,
    ;
}

/// An encrypted value: a wrapper around one ElGamal ciphertext.
pub trait Encrypted: Sized {
    spec fn b_spec(&self) -> int;

    spec fn c_spec(&self) -> int;

    fn value(&self) -> (r: &ElGamal)
        ensures
            r.b@ == self.b_spec(),
            r.c@ == self.c_spec(),
    ;

    fn from_value(value: ElGamal) -> (r: Self)
        ensures
            r.b_spec() == value.b@,
            r.c_spec() == value.c@,
    ;
}

impl Encryptable for Pseudonym {
    open spec fn value_spec(&self) -> int {
        self.value@
    }

    fn value(&self) -> (r: &GroupElement) {
        &self.value
    }

    fn from_value(value: GroupElement) -> (r: Pseudonym) {
        Pseudonym { value }
    }
}

impl Encryptable for DataPoint {
    open spec fn value_spec(&self) -> int {
        self.value@
    }

    fn value(&self) -> (r: &GroupElement) {
        &self.value
    }

    fn from_value(value: GroupElement) -> (r: DataPoint) {
        DataPoint { value }
    }
}

impl Encrypted for EncryptedPseudonym {
    open spec fn b_spec(&self) -> int {
        self.value.b@
    }

    open spec fn c_spec(&self) -> int {
        self.value.c@
    }

    fn value(&self) -> (r: &ElGamal) {
        &self.value
    }

    fn from_value(value: ElGamal) -> (r: EncryptedPseudonym) {
        EncryptedPseudonym { value }
    }
}

impl Encrypted for EncryptedDataPoint {
    open spec fn b_spec(&self) -> int {
        self.value.b@
    }

    open spec fn c_spec(&self) -> int {
        self.value.c@
    }

    fn value(&self) -> (r: &ElGamal) {
        &self.value
    }

    fn from_value(value: ElGamal) -> (r: EncryptedDataPoint) {
        EncryptedDataPoint { value }
    }
}

impl Pseudonym {
    pub fn new(value: GroupElement) -> (r: Pseudonym)
        ensures
            r.value == value,
    {
        Pseudonym { value }
    }

    pub fn from_point(value: GroupElement) -> (r: Pseudonym)
        ensures
            r.value == value,
    {
        Pseudonym { value }
    }

    pub fn random() -> (r: Pseudonym)
        ensures
            0 <= r.value@ < group_order(),
    {
        Pseudonym { value: GroupElement::random() }
    }

    pub fn encode(&self) -> (r: [u8; 32])
        ensures
            r@ == point_bytes(self.value@),
            point_of_bytes(r@) == self.value@,
    {
        self.value.encode()
    }

    pub fn encode_as_hex(&self) -> (r: String)
        ensures
            r@ == hex_chars(point_bytes(self.value@)),
    {
        let bytes = self.value.encode();
        encode_hex(bytes.as_slice())
    }

    pub fn decode(bytes: &[u8; 32]) -> (r: Option<Pseudonym>)
        ensures
            (r matches Some(p) ==> p.value@ == point_of_bytes(bytes@) && bytes@ == point_bytes(
                p.value@,
            )),
            (r is None ==> forall|x: int|
                0 <= x < group_order() ==> bytes@ != point_bytes(x)),
    {
        match GroupElement::decode(bytes) {
            Some(v) => Some(Pseudonym { value: v }),
            None => None,
        }
    }

    pub fn decode_from_slice(slice: &[u8]) -> (r: Option<Pseudonym>)
        ensures
            (r matches Some(p) ==> p.value@ == point_of_bytes(slice@) && slice@ == point_bytes(
                p.value@,
            )),
            (r is None ==> slice@.len() != 32 || forall|x: int|
                0 <= x < group_order() ==> slice@ != point_bytes(x)),
    {
        match GroupElement::decode_from_slice(slice) {
            Some(v) => Some(Pseudonym { value: v }),
            None => None,
        }
    }

    pub fn decode_from_hex(hex: &str) -> (r: Option<Pseudonym>)
        ensures
            (r matches Some(p) ==> hex_ok(hex.spec_bytes()) && p.value@ == point_of_bytes(
                hex_bytes_of(hex.spec_bytes()),
            ) && hex_bytes_of(hex.spec_bytes()) == point_bytes(p.value@)),
            (r is None ==> !hex_ok(hex.spec_bytes()) || hex_bytes_of(hex.spec_bytes()).len() != 32
                || (forall|x: int|
                0 <= x < group_order() ==> hex_bytes_of(hex.spec_bytes()) != point_bytes(x))),
    {
        match decode_hex(hex) {
            Some(bytes) => Pseudonym::decode_from_slice(bytes.as_slice()),
            None => None,
        }
    }

    pub fn from_hash(hash: &[u8; 64]) -> (r: Pseudonym)
        ensures
            r.value@ == point_from_hash(hash@),
    {
        Pseudonym { value: GroupElement::decode_from_hash(hash) }
    }
}

impl DataPoint {
    pub fn new(value: GroupElement) -> (r: DataPoint)
        ensures
            r.value == value,
    {
        DataPoint { value }
    }

    pub fn from_point(value: GroupElement) -> (r: DataPoint)
        ensures
            r.value == value,
    {
        DataPoint { value }
    }

    pub fn random() -> (r: DataPoint)
        ensures
            0 <= r.value@ < group_order(),
    {
        DataPoint { value: GroupElement::random() }
    }

    pub fn encode(&self) -> (r: [u8; 32])
        ensures
            r@ == point_bytes(self.value@),
            point_of_bytes(r@) == self.value@,
    {
        self.value.encode()
    }

    pub fn encode_as_hex(&self) -> (r: String)
        ensures
            r@ == hex_chars(point_bytes(self.value@)),
    {
        let bytes = self.value.encode();
        encode_hex(bytes.as_slice())
    }

    pub fn decode(bytes: &[u8; 32]) -> (r: Option<DataPoint>)
        ensures
            (r matches Some(p) ==> p.value@ == point_of_bytes(bytes@) && bytes@ == point_bytes(
                p.value@,
            )),
            (r is None ==> forall|x: int|
                0 <= x < group_order() ==> bytes@ != point_bytes(x)),
    {
        match GroupElement::decode(bytes) {
            Some(v) => Some(DataPoint { value: v }),
            None => None,
        }
    }

    pub fn decode_from_slice(slice: &[u8]) -> (r: Option<DataPoint>)
        ensures
            (r matches Some(p) ==> p.value@ == point_of_bytes(slice@) && slice@ == point_bytes(
                p.value@,
            )),
            (r is None ==> slice@.len() != 32 || forall|x: int|
                0 <= x < group_order() ==> slice@ != point_bytes(x)),
    {
        match GroupElement::decode_from_slice(slice) {
            Some(v) => Some(DataPoint { value: v }),
            None => None,
        }
    }

    pub fn decode_from_hex(hex: &str) -> (r: Option<DataPoint>)
        ensures
            (r matches Some(p) ==> hex_ok(hex.spec_bytes()) && p.value@ == point_of_bytes(
                hex_bytes_of(hex.spec_bytes()),
            ) && hex_bytes_of(hex.spec_bytes()) == point_bytes(p.value@)),
            (r is None ==> !hex_ok(hex.spec_bytes()) || hex_bytes_of(hex.spec_bytes()).len() != 32
                || (forall|x: int|
                0 <= x < group_order() ==> hex_bytes_of(hex.spec_bytes()) != point_bytes(x))),
    {
        match decode_hex(hex) {
            Some(bytes) => DataPoint::decode_from_slice(bytes.as_slice()),
            None => None,
        }
    }

    pub fn from_hash(hash: &[u8; 64]) -> (r: DataPoint)
        ensures
            r.value@ == point_from_hash(hash@),
    {
        DataPoint { value: GroupElement::decode_from_hash(hash) }
    }
}

impl EncryptedPseudonym {
    pub fn new(value: ElGamal) -> (r: EncryptedPseudonym)
        ensures
            r.value == value,
    {
        EncryptedPseudonym { value }
    }

    pub fn encode(&self) -> (r: Vec<u8>)
        ensures
            r@ == point_bytes(self.value.b@) + point_bytes(self.value.c@),
            r@.len() == 64,
            r@.subrange(0, 32) == point_bytes(self.value.b@),
            r@.subrange(32, 64) == point_bytes(self.value.c@),
            point_of_bytes(r@.subrange(0, 32)) == self.value.b@,
            point_of_bytes(r@.subrange(32, 64)) == self.value.c@,
    {
        self.value.encode()
    }

    pub fn decode(v: &[u8; 64]) -> (r: Option<EncryptedPseudonym>)
        ensures
            (r matches Some(e) ==> e.value.b@ == point_of_bytes(v@.subrange(0, 32)) && e.value.c@
                == point_of_bytes(v@.subrange(32, 64)) && v@.subrange(0, 32) == point_bytes(
                e.value.b@,
            ) && v@.subrange(32, 64) == point_bytes(e.value.c@)),
            (r is None ==> (forall|x: int|
                0 <= x < group_order() ==> v@.subrange(0, 32) != point_bytes(x)) || (forall|y: int|
                0 <= y < group_order() ==> v@.subrange(32, 64) != point_bytes(y))),
    {
        match ElGamal::decode(v) {
            Some(e) => Some(EncryptedPseudonym { value: e }),
            None => None,
        }
    }

    pub fn decode_from_slice(v: &[u8]) -> (r: Option<EncryptedPseudonym>)
        ensures
            (r matches Some(e) ==> v@.len() == 64 && e.value.b@ == point_of_bytes(
                v@.subrange(0, 32),
            ) && e.value.c@ == point_of_bytes(v@.subrange(32, 64)) && v@.subrange(0, 32)
                == point_bytes(e.value.b@) && v@.subrange(32, 64) == point_bytes(e.value.c@)),
            (r is None ==> v@.len() != 64 || (forall|x: int|
                0 <= x < group_order() ==> v@.subrange(0, 32) != point_bytes(x)) || (forall|y: int|
                0 <= y < group_order() ==> v@.subrange(32, 64) != point_bytes(y))),
    {
        match ElGamal::decode_from_slice(v) {
            Some(e) => Some(EncryptedPseudonym { value: e }),
            None => None,
        }
    }

    pub fn as_base64(&self) -> (r: String)
        ensures
            r@ == b64_of(point_bytes(self.value.b@) + point_bytes(self.value.c@)),
    {
        self.value.encode_to_base64()
    }

    pub fn from_base64(s: &str) -> (r: Option<EncryptedPseudonym>)
        ensures
            (r matches Some(e) ==> exists|m: Seq<u8>|
                #![auto]
                s@ == b64_of(m) && m.len() == 64 && e.value.b@ == point_of_bytes(m.subrange(0, 32))
                    && e.value.c@ == point_of_bytes(m.subrange(32, 64)) && m.subrange(0, 32)
                    == point_bytes(e.value.b@) && m.subrange(32, 64) == point_bytes(e.value.c@)),
            (r is None ==> forall|m: Seq<u8>|
                s@ == b64_of(m) ==> (m.len() != 64 || (forall|x: int|
                    0 <= x < group_order() ==> m.subrange(0, 32) != point_bytes(x)) || (forall|y: int|
                    0 <= y < group_order() ==> m.subrange(32, 64) != point_bytes(y)))),
    {
        match ElGamal::decode_from_base64(s) {
            Some(e) => Some(EncryptedPseudonym { value: e }),
            None => None,
        }
    }
}

impl EncryptedDataPoint {
    pub fn new(value: ElGamal) -> (r: EncryptedDataPoint)
        ensures
            r.value == value,
    {
        EncryptedDataPoint { value }
    }

    pub fn encode(&self) -> (r: Vec<u8>)
        ensures
            r@ == point_bytes(self.value.b@) + point_bytes(self.value.c@),
            r@.len() == 64,
            r@.subrange(0, 32) == point_bytes(self.value.b@),
            r@.subrange(32, 64) == point_bytes(self.value.c@),
            point_of_bytes(r@.subrange(0, 32)) == self.value.b@,
            point_of_bytes(r@.subrange(32, 64)) == self.value.c@,
    {
        self.value.encode()
    }

    pub fn decode(v: &[u8; 64]) -> (r: Option<EncryptedDataPoint>)
        ensures
            (r matches Some(e) ==> e.value.b@ == point_of_bytes(v@.subrange(0, 32)) && e.value.c@
                == point_of_bytes(v@.subrange(32, 64)) && v@.subrange(0, 32) == point_bytes(
                e.value.b@,
            ) && v@.subrange(32, 64) == point_bytes(e.value.c@)),
            (r is None ==> (forall|x: int|
                0 <= x < group_order() ==> v@.subrange(0, 32) != point_bytes(x)) || (forall|y: int|
                0 <= y < group_order() ==> v@.subrange(32, 64) != point_bytes(y))),
    {
        match ElGamal::decode(v) {
            Some(e) => Some(EncryptedDataPoint { value: e }),
            None => None,
        }
    }

    pub fn decode_from_slice(v: &[u8]) -> (r: Option<EncryptedDataPoint>)
        ensures
            (r matches Some(e) ==> v@.len() == 64 && e.value.b@ == point_of_bytes(
                v@.subrange(0, 32),
            ) && e.value.c@ == point_of_bytes(v@.subrange(32, 64)) && v@.subrange(0, 32)
                == point_bytes(e.value.b@) && v@.subrange(32, 64) == point_bytes(e.value.c@)),
            (r is None ==> v@.len() != 64 || (forall|x: int|
                0 <= x < group_order() ==> v@.subrange(0, 32) != point_bytes(x)) || (forall|y: int|
                0 <= y < group_order() ==> v@.subrange(32, 64) != point_bytes(y))),
    {
        match ElGamal::decode_from_slice(v) {
            Some(e) => Some(EncryptedDataPoint { value: e }),
            None => None,
        }
    }

    pub fn as_base64(&self) -> (r: String)
        ensures
            r@ == b64_of(point_bytes(self.value.b@) + point_bytes(self.value.c@)),
    {
        self.value.encode_to_base64()
    }

    pub fn from_base64(s: &str) -> (r: Option<EncryptedDataPoint>)
        ensures
            (r matches Some(e) ==> exists|m: Seq<u8>|
                #![auto]
                s@ == b64_of(m) && m.len() == 64 && e.value.b@ == point_of_bytes(m.subrange(0, 32))
                    && e.value.c@ == point_of_bytes(m.subrange(32, 64)) && m.subrange(0, 32)
                    == point_bytes(e.value.b@) && m.subrange(32, 64) == point_bytes(e.value.c@)),
            (r is None ==> forall|m: Seq<u8>|
                s@ == b64_of(m) ==> (m.len() != 64 || (forall|x: int|
                    0 <= x < group_order() ==> m.subrange(0, 32) != point_bytes(x)) || (forall|y: int|
                    0 <= y < group_order() ==> m.subrange(32, 64) != point_bytes(y)))),
    {
        match ElGamal::decode_from_base64(s) {
            Some(e) => Some(EncryptedDataPoint { value: e }),
            None => None,
        }
    }
}

impl PartialEq for Pseudonym {
    fn eq(&self, other: &Pseudonym) -> (r: bool) {
        self.value.equals(&other.value)
    }
}

impl vstd::std_specs::cmp::PartialEqSpecImpl for Pseudonym {
    open spec fn obeys_eq_spec() -> bool {
        true
    }

    open spec fn eq_spec(&self, other: &Pseudonym) -> bool {
        self.value@ == other.value@
    }
}

impl PartialEq for DataPoint {
    fn eq(&self, other: &DataPoint) -> (r: bool) {
        self.value.equals(&other.value)
    }
}

impl vstd::std_specs::cmp::PartialEqSpecImpl for DataPoint {
    open spec fn obeys_eq_spec() -> bool {
        true
    }

    open spec fn eq_spec(&self, other: &DataPoint) -> bool {
        self.value@ == other.value@
    }
}

} // verus!
