//! Hierarchical key derivation for Sapling: master keys from a seed,
//! hardened child derivation, full viewing keys, and the diversifier key
//! with its FF1-encrypted default address.

use vstd::prelude::*;
use crate::bytes::{append_bytes, copy_bytes, sub_bytes, push_u32_le, zero_bytes, u32_le};
use crate::consts::{zip32_master_tag, zip32_master, prf_expand_tag, prf_expand};
use crate::curve::{PointBytes, ScalarBytes, pt_mul, fs_add, fs_from_wide, point_mul, scalar_add,
    scalar_from_wide};
use crate::hash::{blake2b_of, blake2b_hash};
use crate::params::{SaplingParams, spec_gen_sk, spec_gen_pgk};
use crate::primitives::{ViewingKey, Diversifier, PaymentAddress, ProofGenerationKey, spec_g_d,
    spec_ivk};

verus! {

/// The expansion PRF: BLAKE2b-512 of the key and the tagged input.
pub open spec fn spec_expand(sk: Seq<u8>, t: Seq<u8>) -> Seq<u8> {
    blake2b_of(prf_expand_tag(), 64, sk + t)
}

/// What FF1-AES256 encryption of an 88-bit index under a diversifier key
/// returns.
pub uninterp spec fn ff1_of(key: Seq<u8>, x: Seq<u8>) -> Seq<u8>;

/// Relies on `fpe::ff1::FF1` over `aes::Aes256` with radix 2: the
/// diversifier of an index. The result depends on the arguments alone.
#[verifier::external_body]
fn ff1_encrypt(key: &Vec<u8>, x: &Vec<u8>) -> (r: Vec<u8>)
    requires
        key@.len() == 32,
        x@.len() == 11,
    ensures
        r@ == ff1_of(key@, x@),
        r@.len() == 11,
{
    let ff = fpe::ff1::FF1::<aes::Aes256>::new(key.as_slice(), 2).unwrap();
    let bns = fpe::ff1::BinaryNumeralString::from_bytes_le(x.as_slice());
    ff.encrypt(&[], &bns).unwrap().to_bytes_le()
}

/// The ghost image of an extended spending key: every field as bytes.
pub struct XskView {
    pub chain: Seq<u8>,
    pub ask: Seq<u8>,
    pub nsk: Seq<u8>,
    pub ovk: Seq<u8>,
    pub dk: Seq<u8>,
}

/// The expanded part of a spending key.
pub struct ExpandedSpendingKey {
    ask: ScalarBytes,
    nsk: ScalarBytes,
    ovk: Vec<u8>,
}

/// An extended spending key: the expanded key, a chain code and a
/// diversifier key.
pub struct ExtendedSpendingKey {
    chain: Vec<u8>,
    expsk: ExpandedSpendingKey,
    dk: Vec<u8>,
}

impl View for ExtendedSpendingKey {
    type V = XskView;

    closed spec fn view(&self) -> XskView {
        XskView {
            chain: self.chain@,
            ask: self.expsk.ask@,
            nsk: self.expsk.nsk@,
            ovk: self.expsk.ovk@,
            dk: self.dk@,
        }
    }
}

/// The master view of a seed.
pub open spec fn spec_master(seed: Seq<u8>) -> XskView {
    let i = blake2b_of(zip32_master_tag(), 64, seed);
    let sk = i.take(32);
    XskView {
        chain: i.skip(32),
        ask: fs_from_wide(spec_expand(sk, seq![0x00u8])),
        nsk: fs_from_wide(spec_expand(sk, seq![0x01u8])),
        ovk: spec_expand(sk, seq![0x02u8]).take(32),
        dk: spec_expand(sk, seq![0x10u8]).take(32),
    }
}

/// The serialized expanded key fed into child derivation:
/// `ask ++ nsk ++ ovk`.
pub open spec fn spec_expsk_bytes(v: XskView) -> Seq<u8> {
    v.ask + v.nsk + v.ovk
}

/// One hardened child step at raw index `idx` (the hardened bit already
/// set).
pub open spec fn spec_derive_child(v: XskView, idx: u32) -> XskView {
    let i = spec_expand(v.chain, seq![0x11u8] + spec_expsk_bytes(v) + u32_le(idx));
    let i_l = i.take(32);
    XskView {
        chain: i.skip(32),
        ask: fs_add(fs_from_wide(spec_expand(i_l, seq![0x13u8])), v.ask),
        nsk: fs_add(fs_from_wide(spec_expand(i_l, seq![0x14u8])), v.nsk),
        ovk: spec_expand(i_l, seq![0x15u8] + v.ovk).take(32),
        dk: spec_expand(i_l, seq![0x16u8] + v.dk).take(32),
    }
}

/// The hardened path `32' / coin_type' / account'` from a master key.
pub open spec fn spec_from_path(m: XskView, coin_type: u32, account: u32) -> XskView {
    spec_derive_child(
        spec_derive_child(spec_derive_child(m, (32 + 0x8000_0000) as u32), coin_type | 0x8000_0000),
        account | 0x8000_0000,
    )
}

/// The expansion PRF over a key and tag bytes.
fn prf_expand_vec(sk: &Vec<u8>, t: &Vec<u8>) -> (r: Vec<u8>)
    ensures
        r@ == spec_expand(sk@, t@),
        r@.len() == 64,
{
    let mut buf = copy_bytes(sk);
    append_bytes(&mut buf, t);
    blake2b_hash(&prf_expand(), 64, &buf)
}

/// A one-byte vector.
fn byte1(t: u8) -> (r: Vec<u8>)
    ensures
        r@ == seq![t],
{
    let mut v: Vec<u8> = Vec::new();
    v.push(t);
    proof {
        assert(v@ =~= seq![t]);
    }
    v
}

impl ExtendedSpendingKey {
    #[verifier::type_invariant]
    spec fn type_inv(self) -> bool {
        self@.chain.len() == 32 && self@.ovk.len() == 32 && self@.dk.len() == 32
    }

    /// The master key of a seed.
    pub fn master(seed: &Vec<u8>) -> (r: ExtendedSpendingKey)
        ensures
            r@ == spec_master(seed@),
    {
        let i = blake2b_hash(&zip32_master(), 64, seed);
        let sk = sub_bytes(&i, 0, 32);
        let chain = sub_bytes(&i, 32, 64);
        let ask = scalar_from_wide(&prf_expand_vec(&sk, &byte1(0x00)));
        let nsk = scalar_from_wide(&prf_expand_vec(&sk, &byte1(0x01)));
        let ovk = sub_bytes(&prf_expand_vec(&sk, &byte1(0x02)), 0, 32);
        let dk = sub_bytes(&prf_expand_vec(&sk, &byte1(0x10)), 0, 32);
        proof {
            let iv = blake2b_of(zip32_master_tag(), 64, seed@);
            assert(sk@ =~= iv.take(32));
            assert(chain@ =~= iv.skip(32));
            assert(ovk@ =~= spec_expand(sk@, seq![0x02u8]).take(32));
            assert(dk@ =~= spec_expand(sk@, seq![0x10u8]).take(32));
        }
        ExtendedSpendingKey { chain, expsk: ExpandedSpendingKey { ask, nsk, ovk }, dk }
    }

    /// One hardened child at raw index `idx`.
    fn derive_child(&self, idx: u32) -> (r: ExtendedSpendingKey)
        ensures
            r@ == spec_derive_child(self@, idx),
    {
        proof {
            use_type_invariant(self);
        }
        let mut t = byte1(0x11);
        append_bytes(&mut t, self.expsk.ask.as_bytes());
        append_bytes(&mut t, self.expsk.nsk.as_bytes());
        append_bytes(&mut t, &self.expsk.ovk);
        push_u32_le(&mut t, idx);
        proof {
            assert(t@ =~= seq![0x11u8] + spec_expsk_bytes(self@) + u32_le(idx));
        }
        let i = prf_expand_vec(&self.chain, &t);
        let i_l = sub_bytes(&i, 0, 32);
        let chain = sub_bytes(&i, 32, 64);
        let ask = scalar_add(&scalar_from_wide(&prf_expand_vec(&i_l, &byte1(0x13))), &self.expsk.ask);
        let nsk = scalar_add(&scalar_from_wide(&prf_expand_vec(&i_l, &byte1(0x14))), &self.expsk.nsk);
        let mut t_ovk = byte1(0x15);
        append_bytes(&mut t_ovk, &self.expsk.ovk);
        let ovk = sub_bytes(&prf_expand_vec(&i_l, &t_ovk), 0, 32);
        let mut t_dk = byte1(0x16);
        append_bytes(&mut t_dk, &self.dk);
        let dk = sub_bytes(&prf_expand_vec(&i_l, &t_dk), 0, 32);
        proof {
            let iv = spec_expand(self@.chain, seq![0x11u8] + spec_expsk_bytes(self@) + u32_le(idx));
            assert(i_l@ =~= iv.take(32));
            assert(chain@ =~= iv.skip(32));
            assert(t_ovk@ =~= seq![0x15u8] + self@.ovk);
            assert(t_dk@ =~= seq![0x16u8] + self@.dk);
        }
        ExtendedSpendingKey { chain, expsk: ExpandedSpendingKey { ask, nsk, ovk }, dk }
    }

    /// The hardened derivation path `32' / coin_type' / account'` used for
    /// every account key.
    pub fn from_path(master: &ExtendedSpendingKey, coin_type: u32, account: u32) -> (r:
        ExtendedSpendingKey)
        requires
            coin_type < 0x8000_0000,
            account < 0x8000_0000,
        ensures
            r@ == spec_from_path(master@, coin_type, account),
    {
        let a = master.derive_child(32 + 0x8000_0000);
        let b = a.derive_child(coin_type | 0x8000_0000);
        b.derive_child(account | 0x8000_0000)
    }

    /// The spend-auth secret scalar.
    pub fn ask(&self) -> (r: &ScalarBytes)
        ensures
            r@ == self@.ask,
    {
        &self.expsk.ask
    }

    /// The proof-generation key of the expanded key.
    pub fn proof_generation_key(&self, params: &SaplingParams) -> (r: ProofGenerationKey)
        ensures
            r.ak@ == pt_mul(spec_gen_sk().unwrap(), self@.ask),
            r.nsk@ == self@.nsk,
    {
        ProofGenerationKey {
            ak: point_mul(params.gen_sk(), &self.expsk.ask),
            nsk: self.expsk.nsk.clone(),
        }
    }

    /// The default address of this key: its full viewing key's first
    /// diversified address.
    pub fn default_address(&self, params: &SaplingParams) -> (r: Option<(u64, PaymentAddress)>)
        ensures
            match r {
                Some(p) => spec_default_address(xfvk_of(self@), 0) matches Some(a)
                    && p.1.diversifier@ == a.0 && p.1.pk_d@ == a.1,
                None => spec_default_address(xfvk_of(self@), 0) is None,
            },
    {
        ExtendedFullViewingKey::from_xsk(self, params).default_address(params)
    }
}

impl Clone for ExtendedSpendingKey {
    fn clone(&self) -> (r: Self)
        ensures
            r@ == self@,
    {
        proof {
            use_type_invariant(self);
        }
        ExtendedSpendingKey {
            chain: copy_bytes(&self.chain),
            expsk: ExpandedSpendingKey {
                ask: self.expsk.ask.clone(),
                nsk: self.expsk.nsk.clone(),
                ovk: copy_bytes(&self.expsk.ovk),
            },
            dk: copy_bytes(&self.dk),
        }
    }
}

/// The ghost image of an extended full viewing key.
pub struct XfvkView {
    pub ak: Seq<u8>,
    pub nk: Seq<u8>,
    pub ovk: Seq<u8>,
    pub dk: Seq<u8>,
}

/// The full viewing key a spending key determines: `ak = ask · G_SK`,
/// `nk = nsk · G_PGK`.
pub open spec fn xfvk_of(v: XskView) -> XfvkView {
    XfvkView {
        ak: pt_mul(spec_gen_sk().unwrap(), v.ask),
        nk: pt_mul(spec_gen_pgk().unwrap(), v.nsk),
        ovk: v.ovk,
        dk: v.dk,
    }
}

/// An extended full viewing key: the viewing key pair, the outgoing
/// viewing key and the diversifier key.
pub struct ExtendedFullViewingKey {
    vk: ViewingKey,
    ovk: Vec<u8>,
    dk: Vec<u8>,
}

impl View for ExtendedFullViewingKey {
    type V = XfvkView;

    closed spec fn view(&self) -> XfvkView {
        XfvkView { ak: self.vk.ak@, nk: self.vk.nk@, ovk: self.ovk@, dk: self.dk@ }
    }
}

/// The 11-byte little-endian encoding of a diversifier index.
pub open spec fn spec_index_bytes(j: int) -> Seq<u8> {
    Seq::<u8>::new(11, |i: int| if i == 0 { (j % 256) as u8 } else { 0u8 })
}

/// The first diversifier index at or after `j` whose FF1 diversifier has
/// a base point, with the address data it yields.
pub open spec fn spec_default_address(x: XfvkView, j: int) -> Option<(Seq<u8>, Seq<u8>)>
    decreases 256 - j,
{
    if j < 0 || j >= 256 {
        None
    } else {
        let d = ff1_of(x.dk, spec_index_bytes(j));
        if spec_g_d(d) is Some {
            Some((d, pt_mul(spec_g_d(d).unwrap(), spec_ivk(x.ak, x.nk))))
        } else {
            spec_default_address(x, j + 1)
        }
    }
}

impl ExtendedFullViewingKey {
    #[verifier::type_invariant]
    spec fn type_inv(self) -> bool {
        self@.ovk.len() == 32 && self@.dk.len() == 32
    }

    /// The full viewing key of a spending key.
    pub fn from_xsk(xsk: &ExtendedSpendingKey, params: &SaplingParams) -> (r:
        ExtendedFullViewingKey)
        ensures
            r@ == xfvk_of(xsk@),
    {
        proof {
            use_type_invariant(xsk);
        }
        let pgk = xsk.proof_generation_key(params);
        let vk = pgk.into_viewing_key(params);
        ExtendedFullViewingKey {
            vk,
            ovk: copy_bytes(&xsk.expsk.ovk),
            dk: copy_bytes(&xsk.dk),
        }
    }

    /// The viewing key pair.
    pub fn vk(&self) -> (r: &ViewingKey)
        ensures
            r.ak@ == self@.ak,
            r.nk@ == self@.nk,
    {
        &self.vk
    }

    /// The outgoing viewing key.
    pub fn ovk(&self) -> (r: &Vec<u8>)
        ensures
            r@ == self@.ovk,
            self@.ovk.len() == 32,
    {
        proof {
            use_type_invariant(self);
        }
        &self.ovk
    }

    /// The incoming viewing key of the pair.
    pub fn ivk(&self) -> (r: ScalarBytes)
        ensures
            r@ == spec_ivk(self@.ak, self@.nk),
    {
        self.vk.ivk()
    }

    /// The first diversified address of this key: diversifier indices are
    /// tried upward, each FF1-encrypted under the diversifier key, until
    /// one has a base point.
    pub fn default_address(&self, params: &SaplingParams) -> (r: Option<(u64, PaymentAddress)>)
        ensures
            match r {
                Some(p) => spec_default_address(self@, 0) matches Some(a) && p.1.diversifier@
                    == a.0 && p.1.pk_d@ == a.1,
                None => spec_default_address(self@, 0) is None,
            },
    {
        proof {
            use_type_invariant(self);
        }
        let mut j: u64 = 0;
        while j < 256
            invariant
                j <= 256,
                self@.dk.len() == 32,
                spec_default_address(self@, 0) == spec_default_address(self@, j as int),
            decreases 256 - j,
        {
            let mut idx = byte1(j as u8);
            let zeros = zero_bytes(10);
            append_bytes(&mut idx, &zeros);
            proof {
                assert(idx@ =~= spec_index_bytes(j as int));
            }
            let d_bytes = ff1_encrypt(&self.dk, &idx);
            let d = match Diversifier::from_bytes(&d_bytes) {
                Some(d) => d,
                None => vstd::pervasive::unreached(),
            };
            match self.vk.into_payment_address(&d, params) {
                Some(addr) => {
                    return Some((j, addr));
                },
                None => {},
            }
            j = j + 1;
        }
        None
    }
}

impl Clone for ExtendedFullViewingKey {
    fn clone(&self) -> (r: Self)
        ensures
            r@ == self@,
    {
        proof {
            use_type_invariant(self);
        }
        ExtendedFullViewingKey {
            vk: self.vk.clone(),
            ovk: copy_bytes(&self.ovk),
            dk: copy_bytes(&self.dk),
        }
    }
}

} // verus!
