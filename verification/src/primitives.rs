//! The Sapling primitives: diversifiers and their base points, viewing
//! keys and payment addresses, value commitments, notes with their
//! commitments and nullifiers. Every byte layout fed to a hash is stated
//! bit-exactly in the contracts.

use vstd::prelude::*;
use crate::bytes::{le_nat, u64_le, bits_of_bytes, copy_bytes, bytes_eq, append_bytes, push_u64_le,
    pow256, lemma_le_nat_bound};
use crate::consts::{crh_ivk_tag, crh_ivk, prf_nf_tag, prf_nf, key_diversification_tag,
    key_diversification};
use crate::curve::{PointBytes, ScalarBytes, FrBytes, pt_add, pt_mul, pt_u, u64_scalar_bytes,
    fs_modulus, point_add, point_mul, point_mul_u64, point_u};
use crate::hash::{blake2s_of, blake2s_32};
use crate::params::{SaplingParams, spec_group_hash, spec_gen_sk, spec_gen_pgk, spec_gen_np,
    spec_gen_vcv, spec_gen_vcr, spec_gen_ncr};
use crate::pedersen::{spec_pedersen, pedersen_hash};

verus! {

/// An 11-byte diversifier.
pub struct Diversifier {
    b: Vec<u8>,
}

impl View for Diversifier {
    type V = Seq<u8>;

    closed spec fn view(&self) -> Seq<u8> {
        self.b@
    }
}

/// The diversified base of a diversifier: the group hash of its bytes
/// under the diversification tag; not every diversifier has one.
pub open spec fn spec_g_d(d: Seq<u8>) -> Option<Seq<u8>> {
    spec_group_hash(key_diversification_tag(), d)
}

impl Diversifier {
    #[verifier::type_invariant]
    spec fn type_inv(self) -> bool {
        self@.len() == 11
    }

    /// Accepts exactly 11 bytes.
    pub fn from_bytes(v: &Vec<u8>) -> (r: Option<Diversifier>)
        ensures
            match r {
                Some(d) => d@ == v@ && v@.len() == 11,
                None => v@.len() != 11,
            },
    {
        if v.len() == 11 {
            Some(Diversifier { b: copy_bytes(v) })
        } else {
            None
        }
    }

    /// The 11 bytes.
    pub fn as_bytes(&self) -> (r: &Vec<u8>)
        ensures
            r@ == self@,
            self@.len() == 11,
    {
        proof {
            use_type_invariant(self);
        }
        &self.b
    }

    pub fn equals(&self, other: &Diversifier) -> (r: bool)
        ensures
            r == (self@ == other@),
    {
        bytes_eq(&self.b, &other.b)
    }

    /// The diversified base point, if the group hash lands in the subgroup.
    pub fn g_d(&self, params: &SaplingParams) -> (r: Option<PointBytes>)
        ensures
            match r {
                Some(p) => spec_g_d(self@) == Some(p@),
                None => spec_g_d(self@) is None,
            },
    {
        crate::params::group_hash(&key_diversification(), &self.b)
    }
}

impl Clone for Diversifier {
    fn clone(&self) -> (r: Self)
        ensures
            r@ == self@,
    {
        proof {
            use_type_invariant(self);
        }
        Diversifier { b: copy_bytes(&self.b) }
    }
}

/// A homomorphic commitment to a value: `value · G_V + randomness · G_R`.
pub struct ValueCommitment {
    pub value: u64,
    pub randomness: ScalarBytes,
}

/// The value-commitment point.
pub open spec fn spec_value_commit(value: u64, randomness: Seq<u8>) -> Seq<u8> {
    pt_add(
        pt_mul(spec_gen_vcv().unwrap(), u64_scalar_bytes(value)),
        pt_mul(spec_gen_vcr().unwrap(), randomness),
    )
}

impl ValueCommitment {
    /// The commitment point of this value and randomness.
    pub fn cm(&self, params: &SaplingParams) -> (r: PointBytes)
        ensures
            r@ == spec_value_commit(self.value, self.randomness@),
    {
        let v = point_mul_u64(params.gen_vcv(), self.value);
        let q = point_mul(params.gen_vcr(), &self.randomness);
        point_add(&v, &q)
    }
}

impl Clone for ValueCommitment {
    fn clone(&self) -> (r: Self)
        ensures
            r.value == self.value,
            r.randomness@ == self.randomness@,
    {
        ValueCommitment { value: self.value, randomness: self.randomness.clone() }
    }
}

/// The proof-generation key: the spend-auth point and the secret
/// nullifier-deriving scalar.
pub struct ProofGenerationKey {
    pub ak: PointBytes,
    pub nsk: ScalarBytes,
}

impl ProofGenerationKey {
    /// The viewing key: `ak` kept, `nk = nsk · G_PGK`.
    pub fn into_viewing_key(&self, params: &SaplingParams) -> (r: ViewingKey)
        ensures
            r.ak@ == self.ak@,
            r.nk@ == pt_mul(spec_gen_pgk().unwrap(), self.nsk@),
    {
        ViewingKey { ak: self.ak.clone(), nk: point_mul(params.gen_pgk(), &self.nsk) }
    }
}

impl Clone for ProofGenerationKey {
    fn clone(&self) -> (r: Self)
        ensures
            r.ak@ == self.ak@,
            r.nsk@ == self.nsk@,
    {
        ProofGenerationKey { ak: self.ak.clone(), nsk: self.nsk.clone() }
    }
}

/// The incoming viewing key of `(ak, nk)`: BLAKE2s of the two encodings
/// under the ivk tag, the top five bits of the last byte cleared so the
/// value lies in Fs.
pub open spec fn spec_ivk(ak: Seq<u8>, nk: Seq<u8>) -> Seq<u8> {
    let h = blake2s_of(crh_ivk_tag(), ak + nk);
    h.update(h.len() - 1, (h.last() & 0x07) as u8)
}

/// The diversified transmission key of a viewing key at a diversifier
/// whose base exists.
pub open spec fn spec_pk_d(ak: Seq<u8>, nk: Seq<u8>, d: Seq<u8>) -> Seq<u8> {
    pt_mul(spec_g_d(d).unwrap(), spec_ivk(ak, nk))
}

/// The value of `256^31`, unfolded step by step.
proof fn lemma_pow256_31()
    ensures
        pow256(31) == 452312848583266388373324160190187140051835877600158453279131187530910662656nat,
{
    assert(pow256(1) == 256 * pow256(0));
    assert(pow256(2) == 256 * pow256(1));
    assert(pow256(3) == 256 * pow256(2));
    assert(pow256(4) == 256 * pow256(3));
    assert(pow256(5) == 256 * pow256(4));
    assert(pow256(6) == 256 * pow256(5));
    assert(pow256(7) == 256 * pow256(6));
    assert(pow256(8) == 256 * pow256(7));
    assert(pow256(9) == 256 * pow256(8));
    assert(pow256(10) == 256 * pow256(9));
    assert(pow256(11) == 256 * pow256(10));
    assert(pow256(12) == 256 * pow256(11));
    assert(pow256(13) == 256 * pow256(12));
    assert(pow256(14) == 256 * pow256(13));
    assert(pow256(15) == 256 * pow256(14));
    assert(pow256(16) == 256 * pow256(15));
    assert(pow256(17) == 256 * pow256(16));
    assert(pow256(18) == 256 * pow256(17));
    assert(pow256(19) == 256 * pow256(18));
    assert(pow256(20) == 256 * pow256(19));
    assert(pow256(21) == 256 * pow256(20));
    assert(pow256(22) == 256 * pow256(21));
    assert(pow256(23) == 256 * pow256(22));
    assert(pow256(24) == 256 * pow256(23));
    assert(pow256(25) == 256 * pow256(24));
    assert(pow256(26) == 256 * pow256(25));
    assert(pow256(27) == 256 * pow256(26));
    assert(pow256(28) == 256 * pow256(27));
    assert(pow256(29) == 256 * pow256(28));
    assert(pow256(30) == 256 * pow256(29));
    assert(pow256(31) == 256 * pow256(30));
}

/// A 32-byte string whose last byte is below 8 denotes an integer below
/// the order of Fs.
pub proof fn lemma_masked_in_fs(s: Seq<u8>)
    requires
        s.len() == 32,
        s.last() < 8,
    ensures
        le_nat(s) < fs_modulus(),
{
    lemma_le_nat_bound(s.drop_last());
    assert((s.last() as nat) * pow256(31) <= 7 * pow256(31)) by (nonlinear_arith)
        requires s.last() <= 7,
    ;
    lemma_pow256_31();
}

/// A full viewing key's shared part: the spend-auth point and the
/// nullifier-deriving point.
pub struct ViewingKey {
    pub ak: PointBytes,
    pub nk: PointBytes,
}

impl ViewingKey {
    /// The re-randomized spend-auth key `ak + ar · G_SK`.
    pub fn rk(&self, ar: &ScalarBytes, params: &SaplingParams) -> (r: PointBytes)
        ensures
            r@ == pt_add(self.ak@, pt_mul(spec_gen_sk().unwrap(), ar@)),
    {
        point_add(&self.ak, &point_mul(params.gen_sk(), ar))
    }

    /// The incoming viewing key. It is a function of `(ak, nk)` alone,
    /// always lies in Fs, and the top five bits of its last byte are zero.
    pub fn ivk(&self) -> (r: ScalarBytes)
        ensures
            r@ == spec_ivk(self.ak@, self.nk@),
            r@.len() == 32,
            r@.last() & 0xf8 == 0,
    {
        let mut preimage = copy_bytes(self.ak.as_bytes());
        append_bytes(&mut preimage, self.nk.as_bytes());
        let mut h = blake2s_32(&crh_ivk(), &preimage);
        let last = match h.pop() {
            Some(b) => b,
            None => vstd::pervasive::unreached(),
        };
        h.push(last & 0x07);
        proof {
            let full = blake2s_of(crh_ivk_tag(), self.ak@ + self.nk@);
            assert(h@ =~= full.update(full.len() - 1, (full.last() & 0x07) as u8));
            assert(h@.last() == last & 0x07);
            assert(last & 0x07 < 8 && (last & 0x07) & 0xf8 == 0) by (bit_vector);
            lemma_masked_in_fs(h@);
        }
        ScalarBytes::from_proven(h)
    }

    /// The payment address at a diversifier: fails exactly when the
    /// diversifier has no base point; otherwise `pk_d = ivk · g_d`.
    pub fn into_payment_address(&self, diversifier: &Diversifier, params: &SaplingParams) -> (r:
        Option<PaymentAddress>)
        ensures
            match r {
                Some(a) => {
                    &&& spec_g_d(diversifier@) is Some
                    &&& a.pk_d@ == spec_pk_d(self.ak@, self.nk@, diversifier@)
                    &&& a.diversifier@ == diversifier@
                },
                None => spec_g_d(diversifier@) is None,
            },
    {
        match diversifier.g_d(params) {
            Some(g_d) => {
                let pk_d = point_mul(&g_d, &self.ivk());
                Some(PaymentAddress { pk_d, diversifier: diversifier.clone() })
            },
            None => None,
        }
    }
}

impl Clone for ViewingKey {
    fn clone(&self) -> (r: Self)
        ensures
            r.ak@ == self.ak@,
            r.nk@ == self.nk@,
    {
        ViewingKey { ak: self.ak.clone(), nk: self.nk.clone() }
    }
}

/// The address round-trip law: at any diversifier whose base exists, the
/// transmission key of the derived address is the viewing key's `ivk`
/// times that base.
pub proof fn lemma_address_roundtrip(ak: Seq<u8>, nk: Seq<u8>, d: Seq<u8>)
    requires
        spec_g_d(d) is Some,
    ensures
        spec_pk_d(ak, nk, d) == pt_mul(spec_g_d(d).unwrap(), spec_ivk(ak, nk)),
{
}

/// A shielded payment address: a diversifier and its transmission key.
pub struct PaymentAddress {
    pub pk_d: PointBytes,
    pub diversifier: Diversifier,
}

impl PaymentAddress {
    /// The diversified base of the address's diversifier.
    pub fn g_d(&self, params: &SaplingParams) -> (r: Option<PointBytes>)
        ensures
            match r {
                Some(p) => spec_g_d(self.diversifier@) == Some(p@),
                None => spec_g_d(self.diversifier@) is None,
            },
    {
        self.diversifier.g_d(params)
    }

    /// A note paying this address: fails exactly when the address's
    /// diversifier has no base point.
    pub fn create_note(&self, value: u64, randomness: &ScalarBytes, params: &SaplingParams) -> (r:
        Option<Note>)
        ensures
            match r {
                Some(n) => {
                    &&& spec_g_d(self.diversifier@) == Some(n.g_d@)
                    &&& n.pk_d@ == self.pk_d@
                    &&& n.value == value
                    &&& n.r@ == randomness@
                },
                None => spec_g_d(self.diversifier@) is None,
            },
    {
        match self.g_d(params) {
            Some(g_d) => Some(
                Note { value, r: randomness.clone(), g_d, pk_d: self.pk_d.clone() },
            ),
            None => None,
        }
    }
}

impl Clone for PaymentAddress {
    fn clone(&self) -> (r: Self)
        ensures
            r.pk_d@ == self.pk_d@,
            r.diversifier@ == self.diversifier@,
    {
        PaymentAddress { pk_d: self.pk_d.clone(), diversifier: self.diversifier.clone() }
    }
}

impl PartialEq for PaymentAddress {
    fn eq(&self, other: &Self) -> (r: bool) {
        self.pk_d.equals(&other.pk_d) && self.diversifier.equals(&other.diversifier)
    }
}

impl vstd::std_specs::cmp::PartialEqSpecImpl for PaymentAddress {
    open spec fn obeys_eq_spec() -> bool {
        true
    }

    open spec fn eq_spec(&self, other: &Self) -> bool {
        self.pk_d@ == other.pk_d@ && self.diversifier@ == other.diversifier@
    }
}

/// A note: a value, the address data it pays, and commitment randomness.
pub struct Note {
    /// The value of the note.
    pub value: u64,
    /// The diversified base of the address.
    pub g_d: PointBytes,
    /// The transmission key of the address.
    pub pk_d: PointBytes,
    /// The commitment randomness.
    pub r: ScalarBytes,
}

/// The note contents fed to the Pedersen hash: the value in eight
/// little-endian bytes, then the encodings of `g_d` and `pk_d`; order and
/// absence of any length prefix are part of the protocol.
pub open spec fn spec_note_contents(value: u64, g_d: Seq<u8>, pk_d: Seq<u8>) -> Seq<u8> {
    u64_le(value) + g_d + pk_d
}

/// The note-commitment personalization: six bits, `1 1 0 0 0 0`.
pub open spec fn note_commitment_pers_bits() -> Seq<bool> {
    seq![true, true, false, false, false, false]
}

/// The full note-commitment point:
/// `r · G_NC + PedersenHash(personalization ++ contents)`.
pub open spec fn spec_cm_full(value: u64, g_d: Seq<u8>, pk_d: Seq<u8>, r: Seq<u8>) -> Seq<u8> {
    pt_add(
        pt_mul(spec_gen_ncr().unwrap(), r),
        spec_pedersen(
            note_commitment_pers_bits() + bits_of_bytes(spec_note_contents(value, g_d, pk_d)),
        ),
    )
}

/// The exposed note commitment: the affine u-coordinate of the full point.
pub open spec fn spec_cm(value: u64, g_d: Seq<u8>, pk_d: Seq<u8>, r: Seq<u8>) -> Seq<u8> {
    pt_u(spec_cm_full(value, g_d, pk_d, r))
}

/// The nullifier of a note at a position under nullifier key `nk`:
/// `BLAKE2s(nf tag, nk ++ rho)` with
/// `rho = cm_full + position · G_NP`.
pub open spec fn spec_nf(
    value: u64,
    g_d: Seq<u8>,
    pk_d: Seq<u8>,
    r: Seq<u8>,
    nk: Seq<u8>,
    position: u64,
) -> Seq<u8> {
    let rho = pt_add(
        spec_cm_full(value, g_d, pk_d, r),
        pt_mul(spec_gen_np().unwrap(), u64_scalar_bytes(position)),
    );
    blake2s_of(prf_nf_tag(), nk + rho)
}

impl Note {
    /// The Merkle-tree leaf value for empty slots: the field element one,
    /// the smallest u-coordinate on no curve point.
    pub fn uncommitted() -> (r: FrBytes)
        ensures
            r@ == seq![1u8] + Seq::<u8>::new(31, |i: int| 0u8),
    {
        FrBytes::one()
    }

    /// The full note-commitment point.
    fn cm_full_point(&self, params: &SaplingParams) -> (r: PointBytes)
        ensures
            r@ == spec_cm_full(self.value, self.g_d@, self.pk_d@, self.r@),
    {
        let mut note_contents: Vec<u8> = Vec::new();
        push_u64_le(&mut note_contents, self.value);
        append_bytes(&mut note_contents, self.g_d.as_bytes());
        append_bytes(&mut note_contents, self.pk_d.as_bytes());
        let mut bits: Vec<bool> = Vec::new();
        bits.push(true);
        bits.push(true);
        bits.push(false);
        bits.push(false);
        bits.push(false);
        bits.push(false);
        crate::bytes::push_bits(&mut bits, &note_contents);
        proof {
            assert(bits@ =~= note_commitment_pers_bits() + bits_of_bytes(note_contents@));
        }
        let hash_of_contents = pedersen_hash(params, &bits);
        point_add(&point_mul(params.gen_ncr(), &self.r), &hash_of_contents)
    }

    /// The note commitment exposed to the rest of the system. The
    /// commitment lies in the prime-order subgroup, so the u-coordinate
    /// is an injective encoding of it.
    pub fn cm(&self, params: &SaplingParams) -> (r: FrBytes)
        ensures
            r@ == spec_cm(self.value, self.g_d@, self.pk_d@, self.r@),
    {
        point_u(&self.cm_full_point(params))
    }

    /// The nullifier of this note at a position, under a viewing key's
    /// nullifier key.
    pub fn nf(&self, viewing_key: &ViewingKey, position: u64, params: &SaplingParams) -> (r: Vec<
        u8,
    >)
        ensures
            r@ == spec_nf(self.value, self.g_d@, self.pk_d@, self.r@, viewing_key.nk@, position),
            r@.len() == 32,
    {
        let rho = point_add(
            &self.cm_full_point(params),
            &point_mul_u64(params.gen_np(), position),
        );
        let mut nf_preimage = copy_bytes(viewing_key.nk.as_bytes());
        append_bytes(&mut nf_preimage, rho.as_bytes());
        blake2s_32(&prf_nf(), &nf_preimage)
    }
}

impl Clone for Note {
    fn clone(&self) -> (r: Self)
        ensures
            r.value == self.value,
            r.g_d@ == self.g_d@,
            r.pk_d@ == self.pk_d@,
            r.r@ == self.r@,
    {
        Note {
            value: self.value,
            g_d: self.g_d.clone(),
            pk_d: self.pk_d.clone(),
            r: self.r.clone(),
        }
    }
}

impl PartialEq for Note {
    fn eq(&self, other: &Self) -> (r: bool) {
        self.value == other.value && self.g_d.equals(&other.g_d) && self.pk_d.equals(&other.pk_d)
            && self.r.equals(&other.r)
    }
}

impl vstd::std_specs::cmp::PartialEqSpecImpl for Note {
    open spec fn obeys_eq_spec() -> bool {
        true
    }

    open spec fn eq_spec(&self, other: &Self) -> bool {
        self.value == other.value && self.g_d@ == other.g_d@ && self.pk_d@ == other.pk_d@
            && self.r@ == other.r@
    }
}

/// The commitment-determinism half of commitment injectivity: notes with
/// equal `(value, g_d, pk_d, r)` have equal commitments, whatever the
/// route by which each was encoded.
pub proof fn lemma_cm_deterministic(
    v1: u64,
    g1: Seq<u8>,
    p1: Seq<u8>,
    r1: Seq<u8>,
    v2: u64,
    g2: Seq<u8>,
    p2: Seq<u8>,
    r2: Seq<u8>,
)
    requires
        v1 == v2,
        g1 == g2,
        p1 == p2,
        r1 == r2,
    ensures
        spec_cm(v1, g1, p1, r1) == spec_cm(v2, g2, p2, r2),
{
}

/// The nullifier-determinism law: the nullifier is a function of the
/// note's contents, the nullifier key and the position alone.
pub proof fn lemma_nf_deterministic(
    v1: u64,
    g1: Seq<u8>,
    p1: Seq<u8>,
    r1: Seq<u8>,
    nk1: Seq<u8>,
    pos1: u64,
    v2: u64,
    g2: Seq<u8>,
    p2: Seq<u8>,
    r2: Seq<u8>,
    nk2: Seq<u8>,
    pos2: u64,
)
    requires
        v1 == v2,
        g1 == g2,
        p1 == p2,
        r1 == r2,
        nk1 == nk2,
        pos1 == pos2,
    ensures
        spec_nf(v1, g1, p1, r1, nk1, pos1) == spec_nf(v2, g2, p2, r2, nk2, pos2),
{
}

} // verus!
