//! The group hash onto the Jubjub prime-order subgroup, the search for
//! fixed generators, and the parameter table holding every fixed generator
//! the protocol uses.

use vstd::prelude::*;
use crate::bytes::append_bytes;
use crate::consts::{
    urs_block, urs_first_block, spending_key_gen_tag, spending_key_gen, proof_gen_key_tag,
    proof_gen_key, nullifier_position_gen_tag, nullifier_position_gen, value_commitment_gen_tag,
    value_commitment_gen, pedersen_hash_gen_tag, pedersen_hash_gen,
};
use crate::curve::{
    PointBytes, is_curve_point, cofactor_mul, identity_bytes, identity_vec, curve_check,
    clear_cofactor,
};
use crate::hash::{blake2s_of, blake2s_32};

verus! {

/// The group hash: BLAKE2s over the fixed first block and the message,
/// decoded as a curve point, cleared of its cofactor; it fails when the
/// digest decodes to no point or the result is the identity.
pub open spec fn spec_group_hash(pers: Seq<u8>, msg: Seq<u8>) -> Option<Seq<u8>> {
    let h = blake2s_of(pers, urs_block() + msg);
    if is_curve_point(h) {
        let p = cofactor_mul(h);
        if p == identity_bytes() {
            None
        } else {
            Some(p)
        }
    } else {
        None
    }
}

/// Hashes a message onto the prime-order subgroup, or fails as
/// `spec_group_hash` says.
pub fn group_hash(pers: &Vec<u8>, msg: &Vec<u8>) -> (r: Option<PointBytes>)
    requires
        pers@.len() == 8,
    ensures
        match r {
            Some(p) => spec_group_hash(pers@, msg@) == Some(p@),
            None => spec_group_hash(pers@, msg@) is None,
        },
{
    let mut input = urs_first_block();
    append_bytes(&mut input, msg);
    let h = blake2s_32(pers, &input);
    if !curve_check(&h) {
        return None;
    }
    let p = clear_cofactor(&h);
    let id = identity_vec();
    if crate::bytes::bytes_eq(p.as_bytes(), &id) {
        return None;
    }
    Some(p)
}

/// The first success of the group hash on `msg` extended by one index
/// byte, searched from index `i` upward.
pub open spec fn spec_find_from(pers: Seq<u8>, msg: Seq<u8>, i: int) -> Option<Seq<u8>>
    decreases 256 - i,
{
    if i < 0 || i >= 256 {
        None
    } else {
        match spec_group_hash(pers, msg.push(i as u8)) {
            Some(p) => Some(p),
            None => spec_find_from(pers, msg, i + 1),
        }
    }
}

/// The generator a personalization and a message name: the first index
/// byte whose extended message hashes onto a point.
pub open spec fn spec_find_group_hash(pers: Seq<u8>, msg: Seq<u8>) -> Option<Seq<u8>> {
    spec_find_from(pers, msg, 0)
}

/// Searches index bytes upward for the first group-hash success.
pub fn find_group_hash(pers: &Vec<u8>, msg: &Vec<u8>) -> (r: Option<PointBytes>)
    requires
        pers@.len() == 8,
    ensures
        match r {
            Some(p) => spec_find_group_hash(pers@, msg@) == Some(p@),
            None => spec_find_group_hash(pers@, msg@) is None,
        },
{
    let mut i: usize = 0;
    while i < 256
        invariant
            pers@.len() == 8,
            i <= 256,
            spec_find_from(pers@, msg@, 0) == spec_find_from(pers@, msg@, i as int),
        decreases 256 - i,
    {
        let mut candidate = crate::bytes::copy_bytes(msg);
        candidate.push(i as u8);
        proof {
            assert(candidate@ =~= msg@.push(i as u8));
        }
        match group_hash(pers, &candidate) {
            Some(p) => {
                return Some(p);
            },
            None => {},
        }
        proof {
            lemma_find_skip(pers@, msg@, i as int);
        }
        i = i + 1;
    }
    None
}

/// When the group hash fails at index `i`, the search from `i` equals the
/// search from `i + 1`.
proof fn lemma_find_skip(pers: Seq<u8>, msg: Seq<u8>, i: int)
    requires
        0 <= i < 256,
        spec_group_hash(pers, msg.push(i as u8)) is None,
    ensures
        spec_find_from(pers, msg, i) == spec_find_from(pers, msg, i + 1),
{
}

/// The six fixed generators, each named by the search that derives it.
pub open spec fn spec_gen_sk() -> Option<Seq<u8>> {
    spec_find_group_hash(spending_key_gen_tag(), Seq::<u8>::empty())
}

pub open spec fn spec_gen_pgk() -> Option<Seq<u8>> {
    spec_find_group_hash(proof_gen_key_tag(), Seq::<u8>::empty())
}

pub open spec fn spec_gen_np() -> Option<Seq<u8>> {
    spec_find_group_hash(nullifier_position_gen_tag(), Seq::<u8>::empty())
}

pub open spec fn spec_gen_vcv() -> Option<Seq<u8>> {
    spec_find_group_hash(value_commitment_gen_tag(), seq![0x76u8])
}

pub open spec fn spec_gen_vcr() -> Option<Seq<u8>> {
    spec_find_group_hash(value_commitment_gen_tag(), seq![0x72u8])
}

pub open spec fn spec_gen_ncr() -> Option<Seq<u8>> {
    spec_find_group_hash(pedersen_hash_gen_tag(), seq![0x72u8])
}

/// The Pedersen-hash generator of segment `seg`, named by its search: the
/// segment index as four little-endian bytes.
pub open spec fn spec_ped_gen(seg: int) -> Option<Seq<u8>> {
    spec_find_group_hash(pedersen_hash_gen_tag(), crate::bytes::u32_le(seg as u32))
}

/// How many Pedersen segments the parameter table provides: enough for
/// the longest input hashed here, the note contents.
pub const PEDERSEN_SEGMENTS: usize = 4;

/// The fixed-generator table: built once, then read-only.
pub struct SaplingParams {
    g_sk: PointBytes,
    g_pgk: PointBytes,
    g_np: PointBytes,
    g_vcv: PointBytes,
    g_vcr: PointBytes,
    g_ncr: PointBytes,
    ped: Vec<PointBytes>,
}

impl SaplingParams {
    #[verifier::type_invariant]
    spec fn type_inv(self) -> bool {
        &&& spec_gen_sk() == Some(self.g_sk@)
        &&& spec_gen_pgk() == Some(self.g_pgk@)
        &&& spec_gen_np() == Some(self.g_np@)
        &&& spec_gen_vcv() == Some(self.g_vcv@)
        &&& spec_gen_vcr() == Some(self.g_vcr@)
        &&& spec_gen_ncr() == Some(self.g_ncr@)
        &&& self.ped@.len() == PEDERSEN_SEGMENTS
        &&& forall|i: int|
            0 <= i < self.ped@.len() ==> spec_ped_gen(i) == Some(#[trigger] self.ped@[i]@)
    }

    /// Derives the whole table; fails exactly when some generator
    /// search does.
    pub fn new() -> (r: Option<SaplingParams>)
        ensures
            r is Some ==> {
                &&& spec_gen_sk() is Some
                &&& spec_gen_pgk() is Some
                &&& spec_gen_np() is Some
                &&& spec_gen_vcv() is Some
                &&& spec_gen_vcr() is Some
                &&& spec_gen_ncr() is Some
            },
            r is None ==> {
                ||| spec_gen_sk() is None
                ||| spec_gen_pgk() is None
                ||| spec_gen_np() is None
                ||| spec_gen_vcv() is None
                ||| spec_gen_vcr() is None
                ||| spec_gen_ncr() is None
                ||| exists|s: int| 0 <= s < PEDERSEN_SEGMENTS && spec_ped_gen(s) is None
            },
    {
        let empty: Vec<u8> = Vec::new();
        proof {
            assert(empty@ =~= Seq::<u8>::empty());
        }
        let mut v_tag: Vec<u8> = Vec::new();
        v_tag.push(0x76u8);
        let mut r_tag: Vec<u8> = Vec::new();
        r_tag.push(0x72u8);
        proof {
            assert(v_tag@ =~= seq![0x76u8]);
            assert(r_tag@ =~= seq![0x72u8]);
        }
        let g_sk = match find_group_hash(&spending_key_gen(), &empty) {
            Some(p) => p,
            None => { return None; },
        };
        let g_pgk = match find_group_hash(&proof_gen_key(), &empty) {
            Some(p) => p,
            None => { return None; },
        };
        let g_np = match find_group_hash(&nullifier_position_gen(), &empty) {
            Some(p) => p,
            None => { return None; },
        };
        let g_vcv = match find_group_hash(&value_commitment_gen(), &v_tag) {
            Some(p) => p,
            None => { return None; },
        };
        let g_vcr = match find_group_hash(&value_commitment_gen(), &r_tag) {
            Some(p) => p,
            None => { return None; },
        };
        let g_ncr = match find_group_hash(&pedersen_hash_gen(), &r_tag) {
            Some(p) => p,
            None => { return None; },
        };
        let mut ped: Vec<PointBytes> = Vec::new();
        let mut seg: usize = 0;
        while seg < PEDERSEN_SEGMENTS
            invariant
                seg <= PEDERSEN_SEGMENTS,
                ped@.len() == seg,
                forall|i: int| 0 <= i < seg ==> spec_ped_gen(i) == Some(#[trigger] ped@[i]@),
            decreases PEDERSEN_SEGMENTS - seg,
        {
            let mut msg: Vec<u8> = Vec::new();
            crate::bytes::push_u32_le(&mut msg, seg as u32);
            proof {
                assert(msg@ =~= crate::bytes::u32_le(seg as u32));
            }
            let g = match find_group_hash(&pedersen_hash_gen(), &msg) {
                Some(p) => p,
                None => {
                    proof {
                        assert(spec_ped_gen(seg as int) is None);
                    }
                    return None;
                },
            };
            ped.push(g);
            seg = seg + 1;
        }
        Some(SaplingParams { g_sk, g_pgk, g_np, g_vcv, g_vcr, g_ncr, ped })
    }

    /// The spend-auth generator.
    pub fn gen_sk(&self) -> (r: &PointBytes)
        ensures
            spec_gen_sk() == Some(r@),
    {
        proof {
            use_type_invariant(self);
        }
        &self.g_sk
    }

    /// The proof-generation-key generator.
    pub fn gen_pgk(&self) -> (r: &PointBytes)
        ensures
            spec_gen_pgk() == Some(r@),
    {
        proof {
            use_type_invariant(self);
        }
        &self.g_pgk
    }

    /// The nullifier-position generator.
    pub fn gen_np(&self) -> (r: &PointBytes)
        ensures
            spec_gen_np() == Some(r@),
    {
        proof {
            use_type_invariant(self);
        }
        &self.g_np
    }

    /// The value-commitment value generator.
    pub fn gen_vcv(&self) -> (r: &PointBytes)
        ensures
            spec_gen_vcv() == Some(r@),
    {
        proof {
            use_type_invariant(self);
        }
        &self.g_vcv
    }

    /// The value-commitment randomness generator.
    pub fn gen_vcr(&self) -> (r: &PointBytes)
        ensures
            spec_gen_vcr() == Some(r@),
    {
        proof {
            use_type_invariant(self);
        }
        &self.g_vcr
    }

    /// The note-commitment randomness generator.
    pub fn gen_ncr(&self) -> (r: &PointBytes)
        ensures
            spec_gen_ncr() == Some(r@),
    {
        proof {
            use_type_invariant(self);
        }
        &self.g_ncr
    }

    /// The Pedersen generator of a segment.
    pub fn ped_gen(&self, seg: usize) -> (r: &PointBytes)
        requires
            seg < PEDERSEN_SEGMENTS,
        ensures
            spec_ped_gen(seg as int) == Some(r@),
    {
        proof {
            use_type_invariant(self);
        }
        &self.ped[seg]
    }
}

} // verus!
