//! The bit-exact protocol constants: every personalization tag and the
//! fixed first block of the group hash, each as a spec sequence with the
//! executable vector proved equal to it.

use vstd::prelude::*;

verus! {

/// The BLAKE2s personalization of the incoming-viewing-key hash, "Zcashivk".
pub open spec fn crh_ivk_tag() -> Seq<u8> {
    seq![0x5au8, 0x63u8, 0x61u8, 0x73u8, 0x68u8, 0x69u8, 0x76u8, 0x6bu8]
}

pub fn crh_ivk() -> (r: Vec<u8>)
    ensures
        r@ == crh_ivk_tag(),
{
    let mut v: Vec<u8> = Vec::new();
    v.push(0x5a);
    v.push(0x63);
    v.push(0x61);
    v.push(0x73);
    v.push(0x68);
    v.push(0x69);
    v.push(0x76);
    v.push(0x6b);
    proof {
        assert(v@ =~= crh_ivk_tag());
    }
    v
}

/// The BLAKE2s personalization of the nullifier PRF, "Zcash_nf".
pub open spec fn prf_nf_tag() -> Seq<u8> {
    seq![0x5au8, 0x63u8, 0x61u8, 0x73u8, 0x68u8, 0x5fu8, 0x6eu8, 0x66u8]
}

pub fn prf_nf() -> (r: Vec<u8>)
    ensures
        r@ == prf_nf_tag(),
{
    let mut v: Vec<u8> = Vec::new();
    v.push(0x5a);
    v.push(0x63);
    v.push(0x61);
    v.push(0x73);
    v.push(0x68);
    v.push(0x5f);
    v.push(0x6e);
    v.push(0x66);
    proof {
        assert(v@ =~= prf_nf_tag());
    }
    v
}

/// The BLAKE2s personalization of the diversifier group hash, "Zcash_gd".
pub open spec fn key_diversification_tag() -> Seq<u8> {
    seq![0x5au8, 0x63u8, 0x61u8, 0x73u8, 0x68u8, 0x5fu8, 0x67u8, 0x64u8]
}

pub fn key_diversification() -> (r: Vec<u8>)
    ensures
        r@ == key_diversification_tag(),
{
    let mut v: Vec<u8> = Vec::new();
    v.push(0x5a);
    v.push(0x63);
    v.push(0x61);
    v.push(0x73);
    v.push(0x68);
    v.push(0x5f);
    v.push(0x67);
    v.push(0x64);
    proof {
        assert(v@ =~= key_diversification_tag());
    }
    v
}

/// The group-hash personalization of the spend-auth generator, "Zcash_G_".
pub open spec fn spending_key_gen_tag() -> Seq<u8> {
    seq![0x5au8, 0x63u8, 0x61u8, 0x73u8, 0x68u8, 0x5fu8, 0x47u8, 0x5fu8]
}

pub fn spending_key_gen() -> (r: Vec<u8>)
    ensures
        r@ == spending_key_gen_tag(),
{
    let mut v: Vec<u8> = Vec::new();
    v.push(0x5a);
    v.push(0x63);
    v.push(0x61);
    v.push(0x73);
    v.push(0x68);
    v.push(0x5f);
    v.push(0x47);
    v.push(0x5f);
    proof {
        assert(v@ =~= spending_key_gen_tag());
    }
    v
}

/// The group-hash personalization of the proof-generation-key generator, "Zcash_H_".
pub open spec fn proof_gen_key_tag() -> Seq<u8> {
    seq![0x5au8, 0x63u8, 0x61u8, 0x73u8, 0x68u8, 0x5fu8, 0x48u8, 0x5fu8]
}

pub fn proof_gen_key() -> (r: Vec<u8>)
    ensures
        r@ == proof_gen_key_tag(),
{
    let mut v: Vec<u8> = Vec::new();
    v.push(0x5a);
    v.push(0x63);
    v.push(0x61);
    v.push(0x73);
    v.push(0x68);
    v.push(0x5f);
    v.push(0x48);
    v.push(0x5f);
    proof {
        assert(v@ =~= proof_gen_key_tag());
    }
    v
}

/// The group-hash personalization of the nullifier-position generator, "Zcash_J_".
pub open spec fn nullifier_position_gen_tag() -> Seq<u8> {
    seq![0x5au8, 0x63u8, 0x61u8, 0x73u8, 0x68u8, 0x5fu8, 0x4au8, 0x5fu8]
}

pub fn nullifier_position_gen() -> (r: Vec<u8>)
    ensures
        r@ == nullifier_position_gen_tag(),
{
    let mut v: Vec<u8> = Vec::new();
    v.push(0x5a);
    v.push(0x63);
    v.push(0x61);
    v.push(0x73);
    v.push(0x68);
    v.push(0x5f);
    v.push(0x4a);
    v.push(0x5f);
    proof {
        assert(v@ =~= nullifier_position_gen_tag());
    }
    v
}

/// The group-hash personalization of the value-commitment generators, "Zcash_cv".
pub open spec fn value_commitment_gen_tag() -> Seq<u8> {
    seq![0x5au8, 0x63u8, 0x61u8, 0x73u8, 0x68u8, 0x5fu8, 0x63u8, 0x76u8]
}

pub fn value_commitment_gen() -> (r: Vec<u8>)
    ensures
        r@ == value_commitment_gen_tag(),
{
    let mut v: Vec<u8> = Vec::new();
    v.push(0x5a);
    v.push(0x63);
    v.push(0x61);
    v.push(0x73);
    v.push(0x68);
    v.push(0x5f);
    v.push(0x63);
    v.push(0x76);
    proof {
        assert(v@ =~= value_commitment_gen_tag());
    }
    v
}

/// The personalization of the Pedersen hash and its generators, "Zcash_PH".
pub open spec fn pedersen_hash_gen_tag() -> Seq<u8> {
    seq![0x5au8, 0x63u8, 0x61u8, 0x73u8, 0x68u8, 0x5fu8, 0x50u8, 0x48u8]
}

pub fn pedersen_hash_gen() -> (r: Vec<u8>)
    ensures
        r@ == pedersen_hash_gen_tag(),
{
    let mut v: Vec<u8> = Vec::new();
    v.push(0x5a);
    v.push(0x63);
    v.push(0x61);
    v.push(0x73);
    v.push(0x68);
    v.push(0x5f);
    v.push(0x50);
    v.push(0x48);
    proof {
        assert(v@ =~= pedersen_hash_gen_tag());
    }
    v
}

/// The BLAKE2b personalization of the master-key derivation, "ZcashIP32Sapling".
pub open spec fn zip32_master_tag() -> Seq<u8> {
    seq![0x5au8, 0x63u8, 0x61u8, 0x73u8, 0x68u8, 0x49u8, 0x50u8, 0x33u8, 0x32u8, 0x53u8, 0x61u8, 0x70u8, 0x6cu8, 0x69u8, 0x6eu8, 0x67u8]
}

pub fn zip32_master() -> (r: Vec<u8>)
    ensures
        r@ == zip32_master_tag(),
{
    let mut v: Vec<u8> = Vec::new();
    v.push(0x5a);
    v.push(0x63);
    v.push(0x61);
    v.push(0x73);
    v.push(0x68);
    v.push(0x49);
    v.push(0x50);
    v.push(0x33);
    v.push(0x32);
    v.push(0x53);
    v.push(0x61);
    v.push(0x70);
    v.push(0x6c);
    v.push(0x69);
    v.push(0x6e);
    v.push(0x67);
    proof {
        assert(v@ =~= zip32_master_tag());
    }
    v
}

/// The BLAKE2b personalization of the expansion PRF, "Zcash_ExpandSeed".
pub open spec fn prf_expand_tag() -> Seq<u8> {
    seq![0x5au8, 0x63u8, 0x61u8, 0x73u8, 0x68u8, 0x5fu8, 0x45u8, 0x78u8, 0x70u8, 0x61u8, 0x6eu8, 0x64u8, 0x53u8, 0x65u8, 0x65u8, 0x64u8]
}

pub fn prf_expand() -> (r: Vec<u8>)
    ensures
        r@ == prf_expand_tag(),
{
    let mut v: Vec<u8> = Vec::new();
    v.push(0x5a);
    v.push(0x63);
    v.push(0x61);
    v.push(0x73);
    v.push(0x68);
    v.push(0x5f);
    v.push(0x45);
    v.push(0x78);
    v.push(0x70);
    v.push(0x61);
    v.push(0x6e);
    v.push(0x64);
    v.push(0x53);
    v.push(0x65);
    v.push(0x65);
    v.push(0x64);
    proof {
        assert(v@ =~= prf_expand_tag());
    }
    v
}

/// The BLAKE2b personalization of the note-encryption KDF, "Zcash_SaplingKDF".
pub open spec fn kdf_sapling_tag() -> Seq<u8> {
    seq![0x5au8, 0x63u8, 0x61u8, 0x73u8, 0x68u8, 0x5fu8, 0x53u8, 0x61u8, 0x70u8, 0x6cu8, 0x69u8, 0x6eu8, 0x67u8, 0x4bu8, 0x44u8, 0x46u8]
}

pub fn kdf_sapling() -> (r: Vec<u8>)
    ensures
        r@ == kdf_sapling_tag(),
{
    let mut v: Vec<u8> = Vec::new();
    v.push(0x5a);
    v.push(0x63);
    v.push(0x61);
    v.push(0x73);
    v.push(0x68);
    v.push(0x5f);
    v.push(0x53);
    v.push(0x61);
    v.push(0x70);
    v.push(0x6c);
    v.push(0x69);
    v.push(0x6e);
    v.push(0x67);
    v.push(0x4b);
    v.push(0x44);
    v.push(0x46);
    proof {
        assert(v@ =~= kdf_sapling_tag());
    }
    v
}

/// The BLAKE2b personalization of the outgoing cipher key PRF, "Zcash_Derive_ock".
pub open spec fn prf_ock_tag() -> Seq<u8> {
    seq![0x5au8, 0x63u8, 0x61u8, 0x73u8, 0x68u8, 0x5fu8, 0x44u8, 0x65u8, 0x72u8, 0x69u8, 0x76u8, 0x65u8, 0x5fu8, 0x6fu8, 0x63u8, 0x6bu8]
}

pub fn prf_ock() -> (r: Vec<u8>)
    ensures
        r@ == prf_ock_tag(),
{
    let mut v: Vec<u8> = Vec::new();
    v.push(0x5a);
    v.push(0x63);
    v.push(0x61);
    v.push(0x73);
    v.push(0x68);
    v.push(0x5f);
    v.push(0x44);
    v.push(0x65);
    v.push(0x72);
    v.push(0x69);
    v.push(0x76);
    v.push(0x65);
    v.push(0x5f);
    v.push(0x6f);
    v.push(0x63);
    v.push(0x6b);
    proof {
        assert(v@ =~= prf_ock_tag());
    }
    v
}

/// The BLAKE2b personalization of the RedJubjub hash-to-scalar, "Zcash_RedJubjubH".
pub open spec fn red_jubjub_tag() -> Seq<u8> {
    seq![0x5au8, 0x63u8, 0x61u8, 0x73u8, 0x68u8, 0x5fu8, 0x52u8, 0x65u8, 0x64u8, 0x4au8, 0x75u8, 0x62u8, 0x6au8, 0x75u8, 0x62u8, 0x48u8]
}

pub fn red_jubjub() -> (r: Vec<u8>)
    ensures
        r@ == red_jubjub_tag(),
{
    let mut v: Vec<u8> = Vec::new();
    v.push(0x5a);
    v.push(0x63);
    v.push(0x61);
    v.push(0x73);
    v.push(0x68);
    v.push(0x5f);
    v.push(0x52);
    v.push(0x65);
    v.push(0x64);
    v.push(0x4a);
    v.push(0x75);
    v.push(0x62);
    v.push(0x6a);
    v.push(0x75);
    v.push(0x62);
    v.push(0x48);
    proof {
        assert(v@ =~= red_jubjub_tag());
    }
    v
}

/// The BLAKE2b personalization of the transparent-prevouts digest, "ZcashPrevoutHash".
pub open spec fn prevouts_hash_tag() -> Seq<u8> {
    seq![0x5au8, 0x63u8, 0x61u8, 0x73u8, 0x68u8, 0x50u8, 0x72u8, 0x65u8, 0x76u8, 0x6fu8, 0x75u8, 0x74u8, 0x48u8, 0x61u8, 0x73u8, 0x68u8]
}

pub fn prevouts_hash() -> (r: Vec<u8>)
    ensures
        r@ == prevouts_hash_tag(),
{
    let mut v: Vec<u8> = Vec::new();
    v.push(0x5a);
    v.push(0x63);
    v.push(0x61);
    v.push(0x73);
    v.push(0x68);
    v.push(0x50);
    v.push(0x72);
    v.push(0x65);
    v.push(0x76);
    v.push(0x6f);
    v.push(0x75);
    v.push(0x74);
    v.push(0x48);
    v.push(0x61);
    v.push(0x73);
    v.push(0x68);
    proof {
        assert(v@ =~= prevouts_hash_tag());
    }
    v
}

/// The BLAKE2b personalization of the sequence digest, "ZcashSequencHash".
pub open spec fn sequence_hash_tag() -> Seq<u8> {
    seq![0x5au8, 0x63u8, 0x61u8, 0x73u8, 0x68u8, 0x53u8, 0x65u8, 0x71u8, 0x75u8, 0x65u8, 0x6eu8, 0x63u8, 0x48u8, 0x61u8, 0x73u8, 0x68u8]
}

pub fn sequence_hash() -> (r: Vec<u8>)
    ensures
        r@ == sequence_hash_tag(),
{
    let mut v: Vec<u8> = Vec::new();
    v.push(0x5a);
    v.push(0x63);
    v.push(0x61);
    v.push(0x73);
    v.push(0x68);
    v.push(0x53);
    v.push(0x65);
    v.push(0x71);
    v.push(0x75);
    v.push(0x65);
    v.push(0x6e);
    v.push(0x63);
    v.push(0x48);
    v.push(0x61);
    v.push(0x73);
    v.push(0x68);
    proof {
        assert(v@ =~= sequence_hash_tag());
    }
    v
}

/// The BLAKE2b personalization of the transparent-outputs digest, "ZcashOutputsHash".
pub open spec fn outputs_hash_tag() -> Seq<u8> {
    seq![0x5au8, 0x63u8, 0x61u8, 0x73u8, 0x68u8, 0x4fu8, 0x75u8, 0x74u8, 0x70u8, 0x75u8, 0x74u8, 0x73u8, 0x48u8, 0x61u8, 0x73u8, 0x68u8]
}

pub fn outputs_hash() -> (r: Vec<u8>)
    ensures
        r@ == outputs_hash_tag(),
{
    let mut v: Vec<u8> = Vec::new();
    v.push(0x5a);
    v.push(0x63);
    v.push(0x61);
    v.push(0x73);
    v.push(0x68);
    v.push(0x4f);
    v.push(0x75);
    v.push(0x74);
    v.push(0x70);
    v.push(0x75);
    v.push(0x74);
    v.push(0x73);
    v.push(0x48);
    v.push(0x61);
    v.push(0x73);
    v.push(0x68);
    proof {
        assert(v@ =~= outputs_hash_tag());
    }
    v
}

/// The BLAKE2b personalization of the shielded-spends digest, "ZcashSSpendsHash".
pub open spec fn spends_hash_tag() -> Seq<u8> {
    seq![0x5au8, 0x63u8, 0x61u8, 0x73u8, 0x68u8, 0x53u8, 0x53u8, 0x70u8, 0x65u8, 0x6eu8, 0x64u8, 0x73u8, 0x48u8, 0x61u8, 0x73u8, 0x68u8]
}

pub fn spends_hash() -> (r: Vec<u8>)
    ensures
        r@ == spends_hash_tag(),
{
    let mut v: Vec<u8> = Vec::new();
    v.push(0x5a);
    v.push(0x63);
    v.push(0x61);
    v.push(0x73);
    v.push(0x68);
    v.push(0x53);
    v.push(0x53);
    v.push(0x70);
    v.push(0x65);
    v.push(0x6e);
    v.push(0x64);
    v.push(0x73);
    v.push(0x48);
    v.push(0x61);
    v.push(0x73);
    v.push(0x68);
    proof {
        assert(v@ =~= spends_hash_tag());
    }
    v
}

/// The BLAKE2b personalization of the shielded-outputs digest, "ZcashSOutputHash".
pub open spec fn shielded_outputs_hash_tag() -> Seq<u8> {
    seq![0x5au8, 0x63u8, 0x61u8, 0x73u8, 0x68u8, 0x53u8, 0x4fu8, 0x75u8, 0x74u8, 0x70u8, 0x75u8, 0x74u8, 0x48u8, 0x61u8, 0x73u8, 0x68u8]
}

pub fn shielded_outputs_hash() -> (r: Vec<u8>)
    ensures
        r@ == shielded_outputs_hash_tag(),
{
    let mut v: Vec<u8> = Vec::new();
    v.push(0x5a);
    v.push(0x63);
    v.push(0x61);
    v.push(0x73);
    v.push(0x68);
    v.push(0x53);
    v.push(0x4f);
    v.push(0x75);
    v.push(0x74);
    v.push(0x70);
    v.push(0x75);
    v.push(0x74);
    v.push(0x48);
    v.push(0x61);
    v.push(0x73);
    v.push(0x68);
    proof {
        assert(v@ =~= shielded_outputs_hash_tag());
    }
    v
}

/// The first 12 bytes of the sighash personalization, "ZcashSigHash";
/// the consensus branch id fills the last 4.
pub open spec fn sighash_tag_prefix() -> Seq<u8> {
    seq![0x5au8, 0x63u8, 0x61u8, 0x73u8, 0x68u8, 0x53u8, 0x69u8, 0x67u8, 0x48u8, 0x61u8, 0x73u8, 0x68u8]
}

pub fn sighash_personalization_prefix() -> (r: Vec<u8>)
    ensures
        r@ == sighash_tag_prefix(),
{
    let mut v: Vec<u8> = Vec::new();
    v.push(0x5a);
    v.push(0x63);
    v.push(0x61);
    v.push(0x73);
    v.push(0x68);
    v.push(0x53);
    v.push(0x69);
    v.push(0x67);
    v.push(0x48);
    v.push(0x61);
    v.push(0x73);
    v.push(0x68);
    proof {
        assert(v@ =~= sighash_tag_prefix());
    }
    v
}

/// The fixed first block hashed before the message in every group hash:
/// the 64 ASCII digits of the uniform random string.
pub open spec fn urs_block() -> Seq<u8> {
    seq![0x30u8, 0x39u8, 0x36u8, 0x62u8, 0x33u8, 0x36u8, 0x61u8, 0x35u8, 0x38u8, 0x30u8, 0x34u8, 0x62u8, 0x66u8, 0x61u8, 0x63u8, 0x65u8,
         0x66u8, 0x31u8, 0x36u8, 0x39u8, 0x31u8, 0x65u8, 0x31u8, 0x37u8, 0x33u8, 0x63u8, 0x33u8, 0x36u8, 0x36u8, 0x61u8, 0x34u8, 0x37u8,
         0x66u8, 0x66u8, 0x35u8, 0x62u8, 0x61u8, 0x38u8, 0x34u8, 0x61u8, 0x34u8, 0x34u8, 0x66u8, 0x32u8, 0x36u8, 0x64u8, 0x64u8, 0x64u8,
         0x37u8, 0x65u8, 0x38u8, 0x64u8, 0x39u8, 0x66u8, 0x37u8, 0x39u8, 0x64u8, 0x35u8, 0x62u8, 0x34u8, 0x32u8, 0x64u8, 0x66u8, 0x30u8]
}

pub fn urs_first_block() -> (r: Vec<u8>)
    ensures
        r@ == urs_block(),
{
    let mut v: Vec<u8> = Vec::new();
    v.push(0x30);
    v.push(0x39);
    v.push(0x36);
    v.push(0x62);
    v.push(0x33);
    v.push(0x36);
    v.push(0x61);
    v.push(0x35);
    v.push(0x38);
    v.push(0x30);
    v.push(0x34);
    v.push(0x62);
    v.push(0x66);
    v.push(0x61);
    v.push(0x63);
    v.push(0x65);
    v.push(0x66);
    v.push(0x31);
    v.push(0x36);
    v.push(0x39);
    v.push(0x31);
    v.push(0x65);
    v.push(0x31);
    v.push(0x37);
    v.push(0x33);
    v.push(0x63);
    v.push(0x33);
    v.push(0x36);
    v.push(0x36);
    v.push(0x61);
    v.push(0x34);
    v.push(0x37);
    v.push(0x66);
    v.push(0x66);
    v.push(0x35);
    v.push(0x62);
    v.push(0x61);
    v.push(0x38);
    v.push(0x34);
    v.push(0x61);
    v.push(0x34);
    v.push(0x34);
    v.push(0x66);
    v.push(0x32);
    v.push(0x36);
    v.push(0x64);
    v.push(0x64);
    v.push(0x64);
    v.push(0x37);
    v.push(0x65);
    v.push(0x38);
    v.push(0x64);
    v.push(0x39);
    v.push(0x66);
    v.push(0x37);
    v.push(0x39);
    v.push(0x64);
    v.push(0x35);
    v.push(0x62);
    v.push(0x34);
    v.push(0x32);
    v.push(0x64);
    v.push(0x66);
    v.push(0x30);
    proof {
        assert(v@ =~= urs_block());
    }
    v
}

} // verus!
