//! The injected proving capability: what a prover must return for spend
//! and output descriptions and for the binding signature, a mock that
//! returns structurally valid artifacts but refuses the binding
//! signature, and the RedJubjub spend-authorization signature.

use vstd::prelude::*;
use crate::bytes::{append_bytes, copy_bytes, zero_bytes};
use crate::consts::{red_jubjub_tag, red_jubjub};
use crate::curve::{PointBytes, ScalarBytes, FrBytes, pt_add, pt_mul, fs_add, fs_mul, fs_from_wide,
    point_add, point_mul, scalar_add, scalar_mul, scalar_from_wide, random_scalar, random_bytes};
use crate::hash::{blake2b_of, blake2b_hash};
use crate::params::{SaplingParams, spec_gen_sk};
use crate::primitives::{ProofGenerationKey, PaymentAddress, Diversifier, ValueCommitment,
    spec_value_commit};
use crate::merkle::MerklePath;

verus! {

/// The length of a Groth16 proof.
pub const GROTH_PROOF_SIZE: usize = 192;

/// What a prover hands back for one spend.
pub struct SpendProof {
    pub zkproof: Vec<u8>,
    pub cv: PointBytes,
    pub rk: PointBytes,
}

/// What a prover hands back for one output.
pub struct OutputProof {
    pub zkproof: Vec<u8>,
    pub cv: PointBytes,
}

/// The injected prover capability. An implementation accumulates the
/// commitment randomness it draws, so that its binding signature can
/// attest value conservation over the whole build.
pub trait TxProver {
    /// Proves one spend; may fail.
    fn spend_proof(
        &mut self,
        params: &SaplingParams,
        pgk: &ProofGenerationKey,
        diversifier: &Diversifier,
        rcm: &ScalarBytes,
        ar: &ScalarBytes,
        value: u64,
        anchor: &FrBytes,
        path: &MerklePath,
    ) -> (r: Result<SpendProof, ()>)
        ensures
            r matches Ok(p) ==> p.zkproof@.len() == GROTH_PROOF_SIZE,
    ;

    /// Proves one output.
    fn output_proof(
        &mut self,
        params: &SaplingParams,
        esk: &ScalarBytes,
        to: &PaymentAddress,
        rcm: &ScalarBytes,
        value: u64,
    ) -> (r: OutputProof)
        ensures
            r.zkproof@.len() == GROTH_PROOF_SIZE,
    ;

    /// The binding signature over the final value balance and sighash;
    /// fails when the accumulated randomness cannot attest the balance.
    fn binding_sig(&mut self, value_balance: i64, sighash: &Vec<u8>) -> (r: Result<Vec<u8>, ()>)
        ensures
            r matches Ok(s) ==> s@.len() == 64,
    ;
}

/// A prover for tests: its proofs are zero bytes, its value commitments
/// carry fresh randomness it does not accumulate, and its binding
/// signature therefore always fails.
pub struct MockTxProver;

impl TxProver for MockTxProver {
    fn spend_proof(
        &mut self,
        params: &SaplingParams,
        pgk: &ProofGenerationKey,
        diversifier: &Diversifier,
        rcm: &ScalarBytes,
        ar: &ScalarBytes,
        value: u64,
        anchor: &FrBytes,
        path: &MerklePath,
    ) -> (r: Result<SpendProof, ()>)
        ensures
            r matches Ok(p) && p.zkproof@ == Seq::<u8>::new(GROTH_PROOF_SIZE as nat, |i: int| 0u8)
                && p.rk@ == pt_add(pgk.ak@, pt_mul(spec_gen_sk().unwrap(), ar@)) && exists|
                rcv: Seq<u8>,
            |
                p.cv@ == spec_value_commit(value, rcv),
    {
        let rcv = random_scalar();
        let ghost rcv_v = rcv@;
        let cv = ValueCommitment { value, randomness: rcv }.cm(params);
        let rk = point_add(&pgk.ak, &point_mul(params.gen_sk(), ar));
        proof {
            assert(cv@ == spec_value_commit(value, rcv_v));
        }
        Ok(SpendProof { zkproof: zero_bytes(GROTH_PROOF_SIZE), cv, rk })
    }

    fn output_proof(
        &mut self,
        params: &SaplingParams,
        esk: &ScalarBytes,
        to: &PaymentAddress,
        rcm: &ScalarBytes,
        value: u64,
    ) -> (r: OutputProof)
        ensures
            r.zkproof@ == Seq::<u8>::new(GROTH_PROOF_SIZE as nat, |i: int| 0u8),
            exists|rcv: Seq<u8>| r.cv@ == spec_value_commit(value, rcv),
    {
        let rcv = random_scalar();
        let ghost rcv_v = rcv@;
        let cv = ValueCommitment { value, randomness: rcv }.cm(params);
        proof {
            assert(cv@ == spec_value_commit(value, rcv_v));
        }
        OutputProof { zkproof: zero_bytes(GROTH_PROOF_SIZE), cv }
    }

    fn binding_sig(&mut self, value_balance: i64, sighash: &Vec<u8>) -> (r: Result<Vec<u8>, ()>)
        ensures
            r is Err,
    {
        Err(())
    }
}

/// The RedJubjub hash-to-scalar: BLAKE2b-512 under its tag, reduced into
/// Fs.
pub open spec fn spec_h_star(data: Seq<u8>) -> Seq<u8> {
    fs_from_wide(blake2b_of(red_jubjub_tag(), 64, data))
}

/// A spend-authorization signature under randomizer `ar` for a message,
/// built from the 80 random bytes `t`:
/// `rsk = ask + ar`, `rk = rsk · G_SK`, `r = H*(t ++ rk ++ msg)`,
/// `R = r · G_SK`, `S = r + H*(R ++ rk ++ msg) · rsk`, the signature
/// `R ++ S`.
pub open spec fn spec_spend_sig(t: Seq<u8>, ask: Seq<u8>, ar: Seq<u8>, sighash: Seq<u8>) -> Seq<
    u8,
> {
    let rsk = fs_add(ask, ar);
    let rk = pt_mul(spec_gen_sk().unwrap(), rsk);
    let msg = rk + sighash;
    let r = spec_h_star(t + msg);
    let rbar = pt_mul(spec_gen_sk().unwrap(), r);
    let c = spec_h_star(rbar + msg);
    rbar + fs_add(r, fs_mul(c, rsk))
}

/// Signs a sighash with the re-randomized spend-auth key. The 80-byte
/// prefix is drawn from the system RNG, so only its existence is stated.
pub fn spend_sig(params: &SaplingParams, ask: &ScalarBytes, ar: &ScalarBytes, sighash: &Vec<u8>)
    -> (r: Vec<u8>)
    requires
        sighash@.len() == 32,
    ensures
        exists|t: Seq<u8>| t.len() == 80 && r@ == spec_spend_sig(t, ask@, ar@, sighash@),
        r@.len() == 64,
{
    let t = random_bytes(80);
    let rsk = scalar_add(ask, ar);
    let rk = point_mul(params.gen_sk(), &rsk);
    let mut msg = copy_bytes(rk.as_bytes());
    append_bytes(&mut msg, sighash);
    let mut t_msg = copy_bytes(&t);
    append_bytes(&mut t_msg, &msg);
    let r_scalar = scalar_from_wide(&blake2b_hash(&red_jubjub(), 64, &t_msg));
    let rbar = point_mul(params.gen_sk(), &r_scalar);
    let mut c_input = copy_bytes(rbar.as_bytes());
    append_bytes(&mut c_input, &msg);
    let c = scalar_from_wide(&blake2b_hash(&red_jubjub(), 64, &c_input));
    let s = scalar_add(&r_scalar, &scalar_mul(&c, &rsk));
    let mut sig = copy_bytes(rbar.as_bytes());
    append_bytes(&mut sig, s.as_bytes());
    proof {
        assert(t_msg@ =~= t@ + (rk@ + sighash@));
        assert(c_input@ =~= rbar@ + (rk@ + sighash@));
        assert(sig@ =~= spec_spend_sig(t@, ask@, ar@, sighash@));
    }
    sig
}

} // verus!
