//! The block scanner: trial-decrypts every compact output of a block
//! against a set of incoming viewing keys and assembles the wallet's view
//! of each transaction that pays it.

use vstd::prelude::*;
use crate::bytes::{le_nat, copy_bytes};
use crate::curve::{FrBytes, PointBytes, ScalarBytes, fr_modulus, is_subgroup_point};
use crate::encryption::{spec_compact_decrypt, try_compact_note_decryption};
use crate::params::SaplingParams;
use crate::primitives::spec_ivk;
use crate::zip32::ExtendedFullViewingKey;

verus! {

/// One spent note of a compact transaction: its nullifier.
pub struct CompactSpend {
    pub nf: Vec<u8>,
}

/// One output of a compact transaction: the commitment, the ephemeral
/// key and the 52-byte ciphertext fragment, all as raw wire bytes.
pub struct CompactOutput {
    pub cmu: Vec<u8>,
    pub epk: Vec<u8>,
    pub ciphertext: Vec<u8>,
}

/// A compact transaction.
pub struct CompactTx {
    pub txid: Vec<u8>,
    pub spends: Vec<CompactSpend>,
    pub outputs: Vec<CompactOutput>,
}

/// A compact block: its transactions in order.
pub struct CompactBlock {
    pub vtx: Vec<CompactTx>,
}

/// The ghost image of a recognized output.
pub struct WalletOutputView {
    pub index: int,
    pub cmu: Seq<u8>,
    pub epk: Seq<u8>,
    pub enc_ct: Seq<u8>,
    pub account: int,
    pub value: u64,
}

/// The ghost image of a recognized transaction.
pub struct WalletTxView {
    pub txid: Seq<u8>,
    pub num_spends: int,
    pub num_outputs: int,
    pub outs: Seq<WalletOutputView>,
}

/// An output recognized as the wallet's: its position in the
/// transaction, the parsed commitment and ephemeral key, the ciphertext
/// fragment, and the first account whose key decrypted it with the note
/// value found.
pub struct WalletShieldedOutput {
    pub index: usize,
    pub cmu: FrBytes,
    pub epk: PointBytes,
    pub enc_ct: Vec<u8>,
    pub account: usize,
    pub value: u64,
}

impl View for WalletShieldedOutput {
    type V = WalletOutputView;

    open spec fn view(&self) -> WalletOutputView {
        WalletOutputView {
            index: self.index as int,
            cmu: self.cmu@,
            epk: self.epk@,
            enc_ct: self.enc_ct@,
            account: self.account as int,
            value: self.value,
        }
    }
}

/// A transaction that pays at least one of the wallet's keys.
pub struct WalletTx {
    pub txid: Vec<u8>,
    pub num_spends: usize,
    pub num_outputs: usize,
    pub shielded_outputs: Vec<WalletShieldedOutput>,
}

impl View for WalletTx {
    type V = WalletTxView;

    open spec fn view(&self) -> WalletTxView {
        WalletTxView {
            txid: self.txid@,
            num_spends: self.num_spends as int,
            num_outputs: self.num_outputs as int,
            outs: Seq::new(self.shielded_outputs@.len(), |i: int| self.shielded_outputs@[i]@),
        }
    }
}

/// The views of a vector of recognized transactions.
pub open spec fn wallet_txs_views(s: Seq<WalletTx>) -> Seq<WalletTxView> {
    Seq::new(s.len(), |i: int| s[i]@)
}

/// The first key that decrypts an output, searched in the callers'
/// order: that order is the tie-break.
pub open spec fn spec_first_match(
    ivks: Seq<Seq<u8>>,
    epk: Seq<u8>,
    cmu: Seq<u8>,
    ct: Seq<u8>,
    i: int,
) -> Option<(int, u64)>
    decreases ivks.len() - i,
{
    if i < 0 || i >= ivks.len() {
        None
    } else {
        match spec_compact_decrypt(ivks[i], epk, cmu, ct) {
            Option::Some(v) => Option::Some((i, v)),
            Option::None => spec_first_match(ivks, epk, cmu, ct, i + 1),
        }
    }
}

/// What scanning one output yields: nothing when the commitment is not a
/// canonical field element, when the ephemeral key is not a point of the
/// subgroup, or when no key decrypts it; otherwise the first match.
pub open spec fn spec_scan_output(o: CompactOutput, index: int, ivks: Seq<Seq<u8>>) -> Option<
    WalletOutputView,
> {
    if !(o.cmu@.len() == 32 && le_nat(o.cmu@) < fr_modulus()) {
        None
    } else if !(o.epk@.len() == 32 && is_subgroup_point(o.epk@)) {
        None
    } else {
        match spec_first_match(ivks, o.epk@, o.cmu@, o.ciphertext@, 0) {
            Option::Some(av) => Option::Some(
                WalletOutputView {
                    index,
                    cmu: o.cmu@,
                    epk: o.epk@,
                    enc_ct: o.ciphertext@,
                    account: av.0,
                    value: av.1,
                },
            ),
            Option::None => None,
        }
    }
}

/// The recognized outputs of a transaction, in order.
pub open spec fn spec_found_outputs(outputs: Seq<CompactOutput>, ivks: Seq<Seq<u8>>) -> Seq<
    WalletOutputView,
>
    decreases outputs.len(),
{
    if outputs.len() == 0 {
        Seq::empty()
    } else {
        let rest = spec_found_outputs(outputs.drop_last(), ivks);
        match spec_scan_output(outputs.last(), outputs.len() - 1, ivks) {
            Option::Some(o) => rest.push(o),
            Option::None => rest,
        }
    }
}

/// What scanning one transaction yields: nothing when no output is
/// recognized, else the wallet's view of it.
pub open spec fn spec_scan_tx(tx: CompactTx, ivks: Seq<Seq<u8>>) -> Option<WalletTxView> {
    let outs = spec_found_outputs(tx.outputs@, ivks);
    if outs.len() == 0 {
        None
    } else {
        Some(
            WalletTxView {
                txid: tx.txid@,
                num_spends: tx.spends@.len() as int,
                num_outputs: tx.outputs@.len() as int,
                outs,
            },
        )
    }
}

/// What scanning a block yields: the views of its recognized
/// transactions, in block order.
pub open spec fn spec_scan_block(vtx: Seq<CompactTx>, ivks: Seq<Seq<u8>>) -> Seq<WalletTxView>
    decreases vtx.len(),
{
    if vtx.len() == 0 {
        Seq::empty()
    } else {
        let rest = spec_scan_block(vtx.drop_last(), ivks);
        match spec_scan_tx(vtx.last(), ivks) {
            Option::Some(t) => rest.push(t),
            Option::None => rest,
        }
    }
}

/// The incoming viewing keys of a set of full viewing keys, in order.
pub open spec fn spec_ivks_of(fvks: Seq<ExtendedFullViewingKey>) -> Seq<Seq<u8>> {
    Seq::new(fvks.len(), |i: int| spec_ivk(fvks[i]@.ak, fvks[i]@.nk))
}

/// Trial-decrypts one output under one key.
fn trial_decrypt(
    cmu: &FrBytes,
    epk: &PointBytes,
    enc_ct: &Vec<u8>,
    ivk: &ScalarBytes,
    params: &SaplingParams,
) -> (r: Option<u64>)
    ensures
        r == spec_compact_decrypt(ivk@, epk@, cmu@, enc_ct@),
{
    try_compact_note_decryption(ivk, epk, cmu, enc_ct, params)
}

/// Scans one output against every key, the first match winning.
fn scan_output(
    index: usize,
    output: &CompactOutput,
    ivks: &Vec<ScalarBytes>,
    params: &SaplingParams,
) -> (r: Option<WalletShieldedOutput>)
    ensures
        match r {
            Some(w) => spec_scan_output(*output, index as int, ivks_views(ivks@)) == Some(w@),
            None => spec_scan_output(*output, index as int, ivks_views(ivks@)) is None,
        },
{
    let cmu = match FrBytes::from_bytes(&output.cmu) {
        Some(c) => c,
        None => {
            return None;
        },
    };
    let epk = match PointBytes::from_bytes(&output.epk) {
        Some(p) => p,
        None => {
            return None;
        },
    };
    let n = ivks.len();
    let mut account: usize = 0;
    while account < n
        invariant
            n == ivks@.len(),
            account <= n,
            cmu@ == output.cmu@,
            epk@ == output.epk@,
            output.cmu@.len() == 32 && le_nat(output.cmu@) < fr_modulus(),
            output.epk@.len() == 32 && is_subgroup_point(output.epk@),
            spec_first_match(ivks_views(ivks@), output.epk@, output.cmu@, output.ciphertext@, 0)
                == spec_first_match(
                ivks_views(ivks@),
                output.epk@,
                output.cmu@,
                output.ciphertext@,
                account as int,
            ),
        decreases n - account,
    {
        proof {
            assert(ivks_views(ivks@)[account as int] == ivks@[account as int]@);
        }
        match trial_decrypt(&cmu, &epk, &output.ciphertext, &ivks[account], params) {
            Some(value) => {
                proof {
                    assert(spec_first_match(
                        ivks_views(ivks@),
                        output.epk@,
                        output.cmu@,
                        output.ciphertext@,
                        account as int,
                    ) == Option::<(int, u64)>::Some((account as int, value)));
                }
                return Some(
                    WalletShieldedOutput {
                        index,
                        cmu,
                        epk,
                        enc_ct: copy_bytes(&output.ciphertext),
                        account,
                        value,
                    },
                );
            },
            None => {},
        }
        account = account + 1;
    }
    None
}

/// The views of a vector of scalars.
pub open spec fn ivks_views(s: Seq<ScalarBytes>) -> Seq<Seq<u8>> {
    Seq::new(s.len(), |i: int| s[i]@)
}

/// Scans one transaction.
fn scan_tx(tx: &CompactTx, ivks: &Vec<ScalarBytes>, params: &SaplingParams) -> (r: Option<
    WalletTx,
>)
    ensures
        match r {
            Some(w) => spec_scan_tx(*tx, ivks_views(ivks@)) == Some(w@),
            None => spec_scan_tx(*tx, ivks_views(ivks@)) is None,
        },
{
    let mut shielded_outputs: Vec<WalletShieldedOutput> = Vec::new();
    let n = tx.outputs.len();
    let mut i: usize = 0;
    while i < n
        invariant
            n == tx.outputs@.len(),
            i <= n,
            Seq::new(shielded_outputs@.len(), |k: int| shielded_outputs@[k]@)
                == spec_found_outputs(tx.outputs@.take(i as int), ivks_views(ivks@)),
        decreases n - i,
    {
        let ghost pre = Seq::new(shielded_outputs@.len(), |k: int| shielded_outputs@[k]@);
        match scan_output(i, &tx.outputs[i], ivks, params) {
            Some(w) => {
                let ghost wv = w@;
                shielded_outputs.push(w);
                proof {
                    assert(Seq::new(shielded_outputs@.len(), |k: int| shielded_outputs@[k]@)
                        =~= pre.push(wv));
                }
            },
            None => {},
        }
        proof {
            assert(tx.outputs@.take(i + 1).drop_last() =~= tx.outputs@.take(i as int));
            assert(tx.outputs@.take(i + 1).last() == tx.outputs@[i as int]);
        }
        i = i + 1;
    }
    proof {
        assert(tx.outputs@.take(n as int) =~= tx.outputs@);
    }
    if shielded_outputs.len() == 0 {
        None
    } else {
        Some(
            WalletTx {
                txid: copy_bytes(&tx.txid),
                num_spends: tx.spends.len(),
                num_outputs: tx.outputs.len(),
                shielded_outputs,
            },
        )
    }
}

/// Scans a block: every transaction in order, each against the keys'
/// incoming viewing keys; a transaction is reported iff one of its
/// outputs decrypts, and under the first key that does.
pub fn scan_block(
    block: &CompactBlock,
    extfvks: &Vec<ExtendedFullViewingKey>,
    params: &SaplingParams,
) -> (r: Vec<WalletTx>)
    ensures
        wallet_txs_views(r@) == spec_scan_block(block.vtx@, spec_ivks_of(extfvks@)),
{
    let mut ivks: Vec<ScalarBytes> = Vec::new();
    let nk = extfvks.len();
    let mut i: usize = 0;
    while i < nk
        invariant
            nk == extfvks@.len(),
            i <= nk,
            ivks_views(ivks@) == spec_ivks_of(extfvks@).take(i as int),
        decreases nk - i,
    {
        let ghost pre = ivks_views(ivks@);
        let ivk = extfvks[i].ivk();
        let ghost iv = ivk@;
        ivks.push(ivk);
        proof {
            assert(ivks_views(ivks@) =~= pre.push(iv));
            assert(spec_ivks_of(extfvks@).take(i + 1) =~= spec_ivks_of(extfvks@).take(
                i as int,
            ).push(spec_ivks_of(extfvks@)[i as int]));
        }
        i = i + 1;
    }
    proof {
        assert(spec_ivks_of(extfvks@).take(nk as int) =~= spec_ivks_of(extfvks@));
    }
    let mut r: Vec<WalletTx> = Vec::new();
    let nt = block.vtx.len();
    let mut t: usize = 0;
    while t < nt
        invariant
            nt == block.vtx@.len(),
            t <= nt,
            ivks_views(ivks@) == spec_ivks_of(extfvks@),
            wallet_txs_views(r@) == spec_scan_block(block.vtx@.take(t as int), spec_ivks_of(
                extfvks@,
            )),
        decreases nt - t,
    {
        let ghost pre = wallet_txs_views(r@);
        match scan_tx(&block.vtx[t], &ivks, params) {
            Some(w) => {
                let ghost wv = w@;
                r.push(w);
                proof {
                    assert(wallet_txs_views(r@) =~= pre.push(wv));
                }
            },
            None => {},
        }
        proof {
            assert(block.vtx@.take(t + 1).drop_last() =~= block.vtx@.take(t as int));
            assert(block.vtx@.take(t + 1).last() == block.vtx@[t as int]);
        }
        t = t + 1;
    }
    proof {
        assert(block.vtx@.take(nt as int) =~= block.vtx@);
    }
    r
}

/// The idempotence law: scanning is a function of the block and the keys
/// alone, so two results of the same scan are equal.
pub proof fn lemma_scan_idempotent(
    vtx: Seq<CompactTx>,
    ivks: Seq<Seq<u8>>,
    r1: Seq<WalletTxView>,
    r2: Seq<WalletTxView>,
)
    requires
        r1 == spec_scan_block(vtx, ivks),
        r2 == spec_scan_block(vtx, ivks),
    ensures
        r1 == r2,
{
}

} // verus!
