//! The boundary to the Jubjub curve arithmetic of the `jubjub` and
//! `bls12_381` crates. Points and scalars are carried as their canonical
//! 32-byte encodings; every operation goes through a trusted wrapper whose
//! contract names the operation's result on those encodings.

use vstd::prelude::*;
use crate::bytes::{le_nat, pow256, copy_bytes, bytes_eq, u64_le};
use ff::Field;
use rand::RngCore;

verus! {

/// The order of the Jubjub prime-order subgroup: the modulus of the
/// scalar field Fs.
pub open spec fn fs_modulus() -> nat {
    6554484396890773809930967563523245729705921265872317281365359162392183254199nat
}

/// The modulus of the BLS12-381 scalar field Fr, in which the affine
/// coordinates of Jubjub points live.
pub open spec fn fr_modulus() -> nat {
    52435875175126190479447740508185965837690552500527637822603658699938581184513nat
}

/// Whether a 32-byte string is the canonical encoding of a point of the
/// prime-order subgroup.
pub uninterp spec fn is_subgroup_point(b: Seq<u8>) -> bool;

/// Whether a 32-byte string is the canonical encoding of some point of the
/// curve, of any order.
pub uninterp spec fn is_curve_point(b: Seq<u8>) -> bool;

/// The encoding of the sum of the points that two encodings denote.
pub uninterp spec fn pt_add(p: Seq<u8>, q: Seq<u8>) -> Seq<u8>;

/// The encoding of a point multiplied by the scalar that a canonical
/// 32-byte little-endian string denotes.
pub uninterp spec fn pt_mul(p: Seq<u8>, s: Seq<u8>) -> Seq<u8>;

/// The encoding of a point multiplied by the cofactor 8.
pub uninterp spec fn cofactor_mul(p: Seq<u8>) -> Seq<u8>;

/// The encoding of the affine u-coordinate of a point.
pub uninterp spec fn pt_u(p: Seq<u8>) -> Seq<u8>;

/// The canonical encoding of the sum of two scalars of Fs.
pub uninterp spec fn fs_add(a: Seq<u8>, b: Seq<u8>) -> Seq<u8>;

/// The canonical encoding of the product of two scalars of Fs.
pub uninterp spec fn fs_mul(a: Seq<u8>, b: Seq<u8>) -> Seq<u8>;

/// The canonical encoding of the negation of a scalar of Fs.
pub uninterp spec fn fs_neg(a: Seq<u8>) -> Seq<u8>;

/// The canonical encoding of a 64-byte little-endian integer reduced
/// modulo the order of Fs.
pub uninterp spec fn fs_from_wide(w: Seq<u8>) -> Seq<u8>;

/// The 32-byte scalar encoding of a small integer.
pub open spec fn u64_scalar_bytes(k: u64) -> Seq<u8> {
    u64_le(k) + Seq::<u8>::new(24, |i: int| 0u8)
}

/// The canonical encoding of the identity point (u = 0, v = 1).
pub open spec fn identity_bytes() -> Seq<u8> {
    seq![1u8] + Seq::<u8>::new(31, |i: int| 0u8)
}

/// The identity encoding as a vector.
pub fn identity_vec() -> (r: Vec<u8>)
    ensures
        r@ == identity_bytes(),
{
    let mut v: Vec<u8> = Vec::new();
    v.push(1u8);
    let mut i: usize = 0;
    while i < 31
        invariant
            i <= 31,
            v@ == seq![1u8] + Seq::<u8>::new(i as nat, |j: int| 0u8),
        decreases 31 - i,
    {
        v.push(0u8);
        proof {
            assert(v@ =~= seq![1u8] + Seq::<u8>::new((i + 1) as nat, |j: int| 0u8));
        }
        i = i + 1;
    }
    v
}

/// Appending zero bytes does not change the little-endian value.
pub proof fn lemma_le_nat_zero_pad(s: Seq<u8>, n: nat)
    ensures
        le_nat(s + Seq::<u8>::new(n, |i: int| 0u8)) == le_nat(s),
    decreases n,
{
    if n == 0 {
        assert(s + Seq::<u8>::new(0, |i: int| 0u8) =~= s);
    } else {
        lemma_le_nat_zero_pad(s, (n - 1) as nat);
        let t = s + Seq::<u8>::new(n, |i: int| 0u8);
        assert(t.drop_last() =~= s + Seq::<u8>::new((n - 1) as nat, |i: int| 0u8));
        assert(t.last() == 0);
    }
}

/// A point of the Jubjub prime-order subgroup, held as its canonical
/// 32-byte encoding.
pub struct PointBytes {
    b: Vec<u8>,
}

impl View for PointBytes {
    type V = Seq<u8>;

    closed spec fn view(&self) -> Seq<u8> {
        self.b@
    }
}

impl PointBytes {
    #[verifier::type_invariant]
    spec fn type_inv(self) -> bool {
        self@.len() == 32 && is_subgroup_point(self@)
    }

    /// The canonical encoding: 32 bytes, in the subgroup.
    pub fn as_bytes(&self) -> (r: &Vec<u8>)
        ensures
            r@ == self@,
            self@.len() == 32,
            is_subgroup_point(self@),
    {
        proof {
            use_type_invariant(self);
        }
        &self.b
    }

    /// Accepts exactly the canonical encodings of subgroup points.
    pub fn from_bytes(v: &Vec<u8>) -> (r: Option<PointBytes>)
        ensures
            match r {
                Some(p) => p@ == v@ && v@.len() == 32 && is_subgroup_point(v@),
                None => !(v@.len() == 32 && is_subgroup_point(v@)),
            },
    {
        if v.len() != 32 {
            return None;
        }
        if point_check(v) {
            Some(PointBytes { b: copy_bytes(v) })
        } else {
            None
        }
    }

    /// Whether two values denote the same point: encodings are canonical,
    /// so point equality is byte equality.
    pub fn equals(&self, other: &PointBytes) -> (r: bool)
        ensures
            r == (self@ == other@),
    {
        bytes_eq(&self.b, &other.b)
    }
}

impl Clone for PointBytes {
    fn clone(&self) -> (r: Self)
        ensures
            r@ == self@,
    {
        proof {
            use_type_invariant(self);
        }
        PointBytes { b: copy_bytes(&self.b) }
    }
}

/// A scalar of the Jubjub scalar field Fs, held as its canonical 32-byte
/// little-endian encoding, an integer below the field order.
pub struct ScalarBytes {
    b: Vec<u8>,
}

impl View for ScalarBytes {
    type V = Seq<u8>;

    closed spec fn view(&self) -> Seq<u8> {
        self.b@
    }
}

impl ScalarBytes {
    #[verifier::type_invariant]
    spec fn type_inv(self) -> bool {
        self@.len() == 32 && le_nat(self@) < fs_modulus()
    }

    /// The canonical encoding: 32 bytes below the order of Fs.
    pub fn as_bytes(&self) -> (r: &Vec<u8>)
        ensures
            r@ == self@,
            self@.len() == 32,
            le_nat(self@) < fs_modulus(),
    {
        proof {
            use_type_invariant(self);
        }
        &self.b
    }

    /// Accepts exactly the canonical encodings: 32 bytes denoting an
    /// integer below the order of Fs.
    pub fn from_bytes(v: &Vec<u8>) -> (r: Option<ScalarBytes>)
        ensures
            match r {
                Some(s) => s@ == v@ && v@.len() == 32 && le_nat(v@) < fs_modulus(),
                None => !(v@.len() == 32 && le_nat(v@) < fs_modulus()),
            },
    {
        if v.len() != 32 {
            return None;
        }
        if scalar_check(v) {
            Some(ScalarBytes { b: copy_bytes(v) })
        } else {
            None
        }
    }

    pub fn equals(&self, other: &ScalarBytes) -> (r: bool)
        ensures
            r == (self@ == other@),
    {
        bytes_eq(&self.b, &other.b)
    }

    /// Wraps bytes already proved canonical.
    pub fn from_proven(v: Vec<u8>) -> (r: ScalarBytes)
        requires
            v@.len() == 32,
            le_nat(v@) < fs_modulus(),
        ensures
            r@ == v@,
    {
        ScalarBytes { b: v }
    }

    /// The scalar zero, encoded.
    pub fn zero() -> (r: ScalarBytes)
        ensures
            r@ == Seq::<u8>::new(32, |i: int| 0u8),
    {
        let v = crate::bytes::zero_bytes(32);
        proof {
            assert(Seq::<u8>::empty() + Seq::<u8>::new(32, |i: int| 0u8) =~= Seq::<u8>::new(
                32,
                |i: int| 0u8,
            ));
            lemma_le_nat_zero_pad(Seq::<u8>::empty(), 32);
        }
        ScalarBytes { b: v }
    }

    /// The scalar one, encoded.
    pub fn one() -> (r: ScalarBytes)
        ensures
            r@ == seq![1u8] + Seq::<u8>::new(31, |i: int| 0u8),
    {
        let v = identity_vec();
        proof {
            lemma_le_nat_zero_pad(seq![1u8], 31);
            assert(seq![1u8].drop_last() =~= Seq::<u8>::empty());
            assert(le_nat(Seq::<u8>::empty()) == 0);
            assert(pow256(0) == 1);
            assert(le_nat(seq![1u8]) == 1);
        }
        ScalarBytes { b: v }
    }
}

impl Clone for ScalarBytes {
    fn clone(&self) -> (r: Self)
        ensures
            r@ == self@,
    {
        proof {
            use_type_invariant(self);
        }
        ScalarBytes { b: copy_bytes(&self.b) }
    }
}

/// An element of the BLS12-381 scalar field Fr, held as its canonical
/// 32-byte little-endian encoding; note commitments and Merkle nodes
/// live here.
pub struct FrBytes {
    b: Vec<u8>,
}

impl View for FrBytes {
    type V = Seq<u8>;

    closed spec fn view(&self) -> Seq<u8> {
        self.b@
    }
}

impl FrBytes {
    #[verifier::type_invariant]
    spec fn type_inv(self) -> bool {
        self@.len() == 32 && le_nat(self@) < fr_modulus()
    }

    /// The canonical encoding: 32 bytes below the order of Fr.
    pub fn as_bytes(&self) -> (r: &Vec<u8>)
        ensures
            r@ == self@,
            self@.len() == 32,
            le_nat(self@) < fr_modulus(),
    {
        proof {
            use_type_invariant(self);
        }
        &self.b
    }

    /// Accepts exactly the canonical encodings: 32 bytes denoting an
    /// integer below the order of Fr.
    pub fn from_bytes(v: &Vec<u8>) -> (r: Option<FrBytes>)
        ensures
            match r {
                Some(s) => s@ == v@ && v@.len() == 32 && le_nat(v@) < fr_modulus(),
                None => !(v@.len() == 32 && le_nat(v@) < fr_modulus()),
            },
    {
        if v.len() != 32 {
            return None;
        }
        if fr_check(v) {
            Some(FrBytes { b: copy_bytes(v) })
        } else {
            None
        }
    }

    /// The field element one, encoded.
    pub fn one() -> (r: FrBytes)
        ensures
            r@ == seq![1u8] + Seq::<u8>::new(31, |i: int| 0u8),
    {
        let mut v: Vec<u8> = Vec::new();
        v.push(1u8);
        let mut i: usize = 0;
        while i < 31
            invariant
                i <= 31,
                v@ == seq![1u8] + Seq::<u8>::new(i as nat, |j: int| 0u8),
            decreases 31 - i,
        {
            v.push(0u8);
            proof {
                assert(v@ =~= seq![1u8] + Seq::<u8>::new((i + 1) as nat, |j: int| 0u8));
            }
            i = i + 1;
        }
        proof {
            lemma_le_nat_zero_pad(seq![1u8], 31);
            assert(seq![1u8].drop_last() =~= Seq::<u8>::empty());
            assert(le_nat(Seq::<u8>::empty()) == 0);
            assert(pow256(0) == 1);
            assert(le_nat(seq![1u8]) == 1);
        }
        FrBytes { b: v }
    }

    pub fn equals(&self, other: &FrBytes) -> (r: bool)
        ensures
            r == (self@ == other@),
    {
        bytes_eq(&self.b, &other.b)
    }
}

impl Clone for FrBytes {
    fn clone(&self) -> (r: Self)
        ensures
            r@ == self@,
    {
        proof {
            use_type_invariant(self);
        }
        FrBytes { b: copy_bytes(&self.b) }
    }
}

/// Relies on `jubjub::AffinePoint::from_bytes` and `is_torsion_free`:
/// whether the bytes decode to a curve point of the prime-order subgroup.
#[verifier::external_body]
fn point_check(v: &Vec<u8>) -> (r: bool)
    requires
        v@.len() == 32,
    ensures
        r == is_subgroup_point(v@),
{
    let mut a = [0u8; 32];
    a.copy_from_slice(v.as_slice());
    let p = jubjub::AffinePoint::from_bytes(a);
    if bool::from(p.is_some()) {
        bool::from(p.unwrap().is_torsion_free())
    } else {
        false
    }
}

/// Relies on `jubjub::AffinePoint::from_bytes`: whether the bytes decode
/// to some point of the curve.
#[verifier::external_body]
pub(crate) fn curve_check(v: &Vec<u8>) -> (r: bool)
    requires
        v@.len() == 32,
    ensures
        r == is_curve_point(v@),
{
    let mut a = [0u8; 32];
    a.copy_from_slice(v.as_slice());
    bool::from(jubjub::AffinePoint::from_bytes(a).is_some())
}

/// Relies on point addition of `jubjub::ExtendedPoint`.
#[verifier::external_body]
pub(crate) fn point_add(p: &PointBytes, q: &PointBytes) -> (r: PointBytes)
    ensures
        r@ == pt_add(p@, q@),
{
    let mut pa = [0u8; 32];
    pa.copy_from_slice(p.b.as_slice());
    let mut qa = [0u8; 32];
    qa.copy_from_slice(q.b.as_slice());
    let pe = jubjub::ExtendedPoint::from(jubjub::AffinePoint::from_bytes(pa).unwrap());
    let qe = jubjub::ExtendedPoint::from(jubjub::AffinePoint::from_bytes(qa).unwrap());
    let s = jubjub::AffinePoint::from(pe + qe);
    PointBytes { b: s.to_bytes().to_vec() }
}

/// Relies on scalar multiplication of `jubjub::ExtendedPoint` by `jubjub::Fr`.
#[verifier::external_body]
pub(crate) fn point_mul(p: &PointBytes, s: &ScalarBytes) -> (r: PointBytes)
    ensures
        r@ == pt_mul(p@, s@),
{
    let mut pa = [0u8; 32];
    pa.copy_from_slice(p.b.as_slice());
    let mut sa = [0u8; 32];
    sa.copy_from_slice(s.b.as_slice());
    let pe = jubjub::ExtendedPoint::from(jubjub::AffinePoint::from_bytes(pa).unwrap());
    let sc = jubjub::Fr::from_bytes(&sa).unwrap();
    PointBytes { b: jubjub::AffinePoint::from(pe * sc).to_bytes().to_vec() }
}

/// Relies on scalar multiplication of `jubjub::ExtendedPoint`, the scalar
/// lifted from a machine integer by `jubjub::Fr::from`.
#[verifier::external_body]
pub(crate) fn point_mul_u64(p: &PointBytes, k: u64) -> (r: PointBytes)
    ensures
        r@ == pt_mul(p@, u64_scalar_bytes(k)),
{
    let mut pa = [0u8; 32];
    pa.copy_from_slice(p.b.as_slice());
    let pe = jubjub::ExtendedPoint::from(jubjub::AffinePoint::from_bytes(pa).unwrap());
    let sc = jubjub::Fr::from(k);
    PointBytes { b: jubjub::AffinePoint::from(pe * sc).to_bytes().to_vec() }
}

/// Relies on `jubjub::ExtendedPoint::mul_by_cofactor`: the result lies in
/// the prime-order subgroup.
#[verifier::external_body]
pub(crate) fn clear_cofactor(v: &Vec<u8>) -> (r: PointBytes)
    requires
        v@.len() == 32,
        is_curve_point(v@),
    ensures
        r@ == cofactor_mul(v@),
{
    let mut a = [0u8; 32];
    a.copy_from_slice(v.as_slice());
    let pe = jubjub::ExtendedPoint::from(jubjub::AffinePoint::from_bytes(a).unwrap());
    let c = jubjub::AffinePoint::from(pe.mul_by_cofactor());
    PointBytes { b: c.to_bytes().to_vec() }
}

/// Relies on `jubjub::AffinePoint::get_u` and `bls12_381::Scalar::to_bytes`:
/// the canonical encoding of the affine u-coordinate.
#[verifier::external_body]
pub(crate) fn point_u(p: &PointBytes) -> (r: FrBytes)
    ensures
        r@ == pt_u(p@),
{
    let mut a = [0u8; 32];
    a.copy_from_slice(p.b.as_slice());
    let af = jubjub::AffinePoint::from_bytes(a).unwrap();
    FrBytes { b: af.get_u().to_bytes().to_vec() }
}

/// Relies on addition in `jubjub::Fr`.
#[verifier::external_body]
pub(crate) fn scalar_add(a: &ScalarBytes, b: &ScalarBytes) -> (r: ScalarBytes)
    ensures
        r@ == fs_add(a@, b@),
{
    let mut aa = [0u8; 32];
    aa.copy_from_slice(a.b.as_slice());
    let mut ba = [0u8; 32];
    ba.copy_from_slice(b.b.as_slice());
    let s = jubjub::Fr::from_bytes(&aa).unwrap() + jubjub::Fr::from_bytes(&ba).unwrap();
    ScalarBytes { b: s.to_bytes().to_vec() }
}

/// Relies on multiplication in `jubjub::Fr`.
#[verifier::external_body]
pub(crate) fn scalar_mul(a: &ScalarBytes, b: &ScalarBytes) -> (r: ScalarBytes)
    ensures
        r@ == fs_mul(a@, b@),
{
    let mut aa = [0u8; 32];
    aa.copy_from_slice(a.b.as_slice());
    let mut ba = [0u8; 32];
    ba.copy_from_slice(b.b.as_slice());
    let s = jubjub::Fr::from_bytes(&aa).unwrap() * jubjub::Fr::from_bytes(&ba).unwrap();
    ScalarBytes { b: s.to_bytes().to_vec() }
}

/// Relies on negation in `jubjub::Fr`.
#[verifier::external_body]
pub(crate) fn scalar_neg(a: &ScalarBytes) -> (r: ScalarBytes)
    ensures
        r@ == fs_neg(a@),
{
    let mut aa = [0u8; 32];
    aa.copy_from_slice(a.b.as_slice());
    let s = -jubjub::Fr::from_bytes(&aa).unwrap();
    ScalarBytes { b: s.to_bytes().to_vec() }
}

/// Relies on `jubjub::Fr::from_bytes_wide`: a 64-byte little-endian
/// integer reduced modulo the order of Fs.
#[verifier::external_body]
pub(crate) fn scalar_from_wide(w: &Vec<u8>) -> (r: ScalarBytes)
    requires
        w@.len() == 64,
    ensures
        r@ == fs_from_wide(w@),
{
    let mut a = [0u8; 64];
    a.copy_from_slice(w.as_slice());
    let s = jubjub::Fr::from_bytes_wide(&a);
    ScalarBytes { b: s.to_bytes().to_vec() }
}

/// Relies on `jubjub::Fr::from_bytes`, which accepts exactly the canonical
/// encodings: 32 little-endian bytes denoting an integer below the order.
#[verifier::external_body]
fn scalar_check(v: &Vec<u8>) -> (r: bool)
    requires
        v@.len() == 32,
    ensures
        r == (le_nat(v@) < fs_modulus()),
{
    let mut a = [0u8; 32];
    a.copy_from_slice(v.as_slice());
    bool::from(jubjub::Fr::from_bytes(&a).is_some())
}

/// Relies on `bls12_381::Scalar::from_bytes`, which accepts exactly the
/// canonical encodings: 32 little-endian bytes denoting an integer below
/// the order.
#[verifier::external_body]
fn fr_check(v: &Vec<u8>) -> (r: bool)
    requires
        v@.len() == 32,
    ensures
        r == (le_nat(v@) < fr_modulus()),
{
    let mut a = [0u8; 32];
    a.copy_from_slice(v.as_slice());
    bool::from(bls12_381::Scalar::from_bytes(&a).is_some())
}

/// Relies on `jubjub::Fr::random` over the operating system's RNG. Nothing
/// is promised of which scalar comes back.
#[verifier::external_body]
pub(crate) fn random_scalar() -> (r: ScalarBytes)
    ensures
        r@.len() == 32,
{
    let s = jubjub::Fr::random(&mut rand::rngs::OsRng);
    ScalarBytes { b: s.to_bytes().to_vec() }
}

/// Relies on `rand::rngs::OsRng::fill_bytes`. Nothing is promised of the
/// contents.
#[verifier::external_body]
pub(crate) fn random_bytes(n: usize) -> (r: Vec<u8>)
    ensures
        r@.len() == n,
{
    let mut v = vec![0u8; n];
    rand::rngs::OsRng.fill_bytes(&mut v);
    v
}

} // verus!
