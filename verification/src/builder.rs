//! The shielded transaction builder: it accumulates spends and outputs,
//! keeps the value balance and the common anchor, and at build time
//! derives the account keys, drives the prover, computes the sighash and
//! assembles the signatures.

use vstd::prelude::*;
use crate::bytes::{append_bytes, copy_bytes, zero_bytes, u64_le, u32_le, push_u64_le, push_u32_le,
    hex_string, spec_hex};
use crate::consts::{prevouts_hash, prevouts_hash_tag, sequence_hash, sequence_hash_tag,
    outputs_hash, outputs_hash_tag, spends_hash, spends_hash_tag, shielded_outputs_hash,
    shielded_outputs_hash_tag, sighash_personalization_prefix, sighash_tag_prefix, prf_ock_tag};
use crate::curve::{PointBytes, ScalarBytes, FrBytes, random_scalar, pt_mul};
use crate::encryption::{MemoBytes, NoteEncryptor, spec_kdf, zero_nonce, spec_note_plaintext,
    chacha_seal};
use crate::hash::{blake2b_of, blake2b_hash};
use crate::merkle::{IncrementalWitness, MerklePath, spec_tree_root, spec_auth_sibling};
use crate::params::{SaplingParams, spec_gen_pgk};
use crate::primitives::{Diversifier, Note, PaymentAddress, spec_g_d, spec_cm, spec_nf};
use crate::prover::{TxProver, spend_sig, spec_spend_sig};
use crate::zip32::{ExtendedSpendingKey, ExtendedFullViewingKey, XskView, xfvk_of, spec_from_path};

verus! {

/// An amount in zatoshi; the value balance is signed.
pub struct Amount(pub i64);

/// The default fee, in zatoshi.
pub const DEFAULT_FEE: i64 = 10_000;

/// Why an operation on the builder failed.
#[derive(Debug)]
pub enum Error {
    /// A later witness root disagrees with the anchor of the first
    /// spend: the recorded anchor and the root that disagreed.
    AnchorMismatch { expected: Vec<u8>, got: Vec<u8> },
    /// The target address's diversifier has no base point.
    InvalidTargetAddress,
    /// The value balance does not cover the outputs and the fee.
    ChangeNegative(i64),
    /// Change is positive but no spend or change address can receive it.
    NoChangeAddress,
    /// The prover refused a spend proof.
    ProverFailure,
    /// The prover refused the binding signature.
    BindingSigFailed,
}

/// The decimal digits of a natural number, most significant first.
pub open spec fn spec_dec_nat(n: nat) -> Seq<char>
    decreases n,
{
    let d = if n % 10 == 0 {
        '0'
    } else if n % 10 == 1 {
        '1'
    } else if n % 10 == 2 {
        '2'
    } else if n % 10 == 3 {
        '3'
    } else if n % 10 == 4 {
        '4'
    } else if n % 10 == 5 {
        '5'
    } else if n % 10 == 6 {
        '6'
    } else if n % 10 == 7 {
        '7'
    } else if n % 10 == 8 {
        '8'
    } else {
        '9'
    };
    if n < 10 {
        seq![d]
    } else {
        spec_dec_nat(n / 10).push(d)
    }
}

/// The decimal rendering of a signed number.
pub open spec fn spec_dec_int(v: int) -> Seq<char> {
    if v < 0 {
        seq!['-'] + spec_dec_nat((-v) as nat)
    } else {
        spec_dec_nat(v as nat)
    }
}

/// The decimal rendering of an unsigned number, most significant digit
/// first, no leading zeros.
fn dec_nat_string(n: u64) -> (r: String)
    ensures
        r@ == spec_dec_nat(n as nat),
    decreases n,
{
    let d = crate::bytes::hex_digit_str((n % 10) as u8);
    proof {
        assert(d@ =~= seq![
            if n as nat % 10 == 0 {
                '0'
            } else if n as nat % 10 == 1 {
                '1'
            } else if n as nat % 10 == 2 {
                '2'
            } else if n as nat % 10 == 3 {
                '3'
            } else if n as nat % 10 == 4 {
                '4'
            } else if n as nat % 10 == 5 {
                '5'
            } else if n as nat % 10 == 6 {
                '6'
            } else if n as nat % 10 == 7 {
                '7'
            } else if n as nat % 10 == 8 {
                '8'
            } else {
                '9'
            },
        ]);
    }
    if n < 10 {
        String::from_str(d)
    } else {
        let mut r = dec_nat_string(n / 10);
        r.append(d);
        proof {
            assert(r@ =~= spec_dec_nat(n as nat));
        }
        r
    }
}

/// The decimal rendering of a signed number: a minus sign, then the
/// digits of the magnitude.
fn i64_to_string(v: i64) -> (r: String)
    ensures
        r@ == spec_dec_int(v as int),
{
    if v >= 0 {
        dec_nat_string(v as u64)
    } else {
        let mag: u64 = if v == i64::MIN {
            0x8000_0000_0000_0000u64
        } else {
            (-v) as u64
        };
        let mut r = String::from_str("-");
        proof {
            reveal_strlit("-");
            assert(r@ =~= seq!['-']);
            assert(mag as nat == (-(v as int)) as nat);
        }
        r.append(dec_nat_string(mag).as_str());
        proof {
            assert(r@ =~= seq!['-'] + spec_dec_nat((-(v as int)) as nat));
        }
        r
    }
}

impl Error {
    /// The message a caller reads.
    pub fn message(&self) -> (r: String)
        ensures
            self matches Error::AnchorMismatch { expected, got } ==> r@ == "Anchor mismatch (expected "@
                + spec_hex(expected@) + ", got "@ + spec_hex(got@) + ")"@,
            self is InvalidTargetAddress ==> r@ == "Invalid target address"@,
            self matches Error::ChangeNegative(c) ==> r@ == "Change is negative: "@ + spec_dec_int(
                c as int,
            ),
            self is NoChangeAddress ==> r@ == "No change address"@,
            self is ProverFailure ==> r@ == "Failed to create proof"@,
            self is BindingSigFailed ==> r@ == "Failed to create bindingSig"@,
    {
        match self {
            Error::AnchorMismatch { expected, got } => {
                let r = String::from_str("Anchor mismatch (expected ").concat(
                    hex_string(expected).as_str(),
                ).concat(", got ").concat(hex_string(got).as_str()).concat(")");
                proof {
                    assert(r@ =~= "Anchor mismatch (expected "@ + spec_hex(expected@) + ", got "@
                        + spec_hex(got@) + ")"@);
                }
                r
            },
            Error::InvalidTargetAddress => String::from_str("Invalid target address"),
            Error::ChangeNegative(c) => String::from_str("Change is negative: ").concat(
                i64_to_string(*c).as_str(),
            ),
            Error::NoChangeAddress => String::from_str("No change address"),
            Error::ProverFailure => String::from_str("Failed to create proof"),
            Error::BindingSigFailed => String::from_str("Failed to create bindingSig"),
        }
    }
}

/// One accumulated spend.
struct SpendDescriptionInfo {
    account_id: u32,
    diversifier: Diversifier,
    note: Note,
    ar: ScalarBytes,
    path: MerklePath,
}

/// One accumulated output.
struct OutputDescriptionInfo {
    ovk: Vec<u8>,
    to: PaymentAddress,
    note: Note,
    memo: MemoBytes,
}

/// A finished spend description.
pub struct SpendDescription {
    pub cv: PointBytes,
    pub anchor: FrBytes,
    pub nullifier: Vec<u8>,
    pub rk: PointBytes,
    pub zkproof: Vec<u8>,
    pub spend_auth_sig: Option<Vec<u8>>,
}

/// A finished output description.
pub struct OutputDescription {
    pub cv: PointBytes,
    pub cmu: FrBytes,
    pub ephemeral_key: PointBytes,
    pub enc_ciphertext: Vec<u8>,
    pub out_ciphertext: Vec<u8>,
    pub zkproof: Vec<u8>,
}

/// A frozen shielded transaction.
pub struct Transaction {
    pub value_balance: i64,
    pub shielded_spends: Vec<SpendDescription>,
    pub shielded_outputs: Vec<OutputDescription>,
    pub binding_sig: Option<Vec<u8>>,
}

/// The serialized fields of one spend the sighash covers: the signature
/// is not among them.
pub open spec fn spec_spend_digest(s: SpendDescription) -> Seq<u8> {
    s.cv@ + s.anchor@ + s.nullifier@ + s.rk@ + s.zkproof@
}

/// The concatenation of all spend digests, in order.
pub open spec fn spec_spends_digest(s: Seq<SpendDescription>) -> Seq<u8>
    decreases s.len(),
{
    if s.len() == 0 {
        Seq::empty()
    } else {
        spec_spends_digest(s.drop_last()) + spec_spend_digest(s.last())
    }
}

/// The serialized fields of one output the sighash covers.
pub open spec fn spec_output_digest(o: OutputDescription) -> Seq<u8> {
    o.cv@ + o.cmu@ + o.ephemeral_key@ + o.enc_ciphertext@ + o.out_ciphertext@ + o.zkproof@
}

/// The concatenation of all output digests, in order.
pub open spec fn spec_outputs_digest(s: Seq<OutputDescription>) -> Seq<u8>
    decreases s.len(),
{
    if s.len() == 0 {
        Seq::empty()
    } else {
        spec_outputs_digest(s.drop_last()) + spec_output_digest(s.last())
    }
}

/// Thirty-two zero bytes: the digest of an absent bundle.
pub open spec fn zero32() -> Seq<u8> {
    Seq::<u8>::new(32, |i: int| 0u8)
}

/// The transaction digest of a shielded-only transaction: the version-4
/// header and Sapling version group, empty transparent digests, the
/// shielded digests, zero lock time and expiry, the value balance, and
/// the hash-all type, hashed under a personalization that carries the
/// consensus branch.
pub open spec fn spec_sighash(
    branch: u32,
    spends: Seq<SpendDescription>,
    outputs: Seq<OutputDescription>,
    value_balance: i64,
) -> Seq<u8> {
    let h_spends = if spends.len() == 0 {
        zero32()
    } else {
        blake2b_of(spends_hash_tag(), 32, spec_spends_digest(spends))
    };
    let h_outputs = if outputs.len() == 0 {
        zero32()
    } else {
        blake2b_of(shielded_outputs_hash_tag(), 32, spec_outputs_digest(outputs))
    };
    let preimage = u32_le(0x80000004u32) + u32_le(0x892F2085u32) + blake2b_of(
        prevouts_hash_tag(),
        32,
        Seq::<u8>::empty(),
    ) + blake2b_of(sequence_hash_tag(), 32, Seq::<u8>::empty()) + blake2b_of(
        outputs_hash_tag(),
        32,
        Seq::<u8>::empty(),
    ) + zero32() + h_spends + h_outputs + u32_le(0u32) + u32_le(0u32) + u64_le(
        value_balance as u64,
    ) + u32_le(1u32);
    blake2b_of(sighash_tag_prefix() + u32_le(branch), 32, preimage)
}

/// Computes the transaction digest.
fn sighash_data(
    branch: u32,
    spends: &Vec<SpendDescription>,
    outputs: &Vec<OutputDescription>,
    value_balance: i64,
) -> (r: Vec<u8>)
    ensures
        r@ == spec_sighash(branch, spends@, outputs@, value_balance),
        r@.len() == 32,
{
    let empty: Vec<u8> = Vec::new();
    let h_spends: Vec<u8> = if spends.len() == 0 {
        zero_bytes(32)
    } else {
        let mut digest: Vec<u8> = Vec::new();
        let n = spends.len();
        let mut i: usize = 0;
        while i < n
            invariant
                n == spends@.len(),
                i <= n,
                digest@ == spec_spends_digest(spends@.take(i as int)),
            decreases n - i,
        {
            let s = &spends[i];
            append_bytes(&mut digest, s.cv.as_bytes());
            append_bytes(&mut digest, s.anchor.as_bytes());
            append_bytes(&mut digest, &s.nullifier);
            append_bytes(&mut digest, s.rk.as_bytes());
            append_bytes(&mut digest, &s.zkproof);
            proof {
                assert(spends@.take(i + 1).drop_last() =~= spends@.take(i as int));
                assert(digest@ =~= spec_spends_digest(spends@.take(i + 1)));
            }
            i = i + 1;
        }
        proof {
            assert(spends@.take(n as int) =~= spends@);
        }
        blake2b_hash(&spends_hash(), 32, &digest)
    };
    let h_outputs: Vec<u8> = if outputs.len() == 0 {
        zero_bytes(32)
    } else {
        let mut digest: Vec<u8> = Vec::new();
        let n = outputs.len();
        let mut i: usize = 0;
        while i < n
            invariant
                n == outputs@.len(),
                i <= n,
                digest@ == spec_outputs_digest(outputs@.take(i as int)),
            decreases n - i,
        {
            let o = &outputs[i];
            append_bytes(&mut digest, o.cv.as_bytes());
            append_bytes(&mut digest, o.cmu.as_bytes());
            append_bytes(&mut digest, o.ephemeral_key.as_bytes());
            append_bytes(&mut digest, &o.enc_ciphertext);
            append_bytes(&mut digest, &o.out_ciphertext);
            append_bytes(&mut digest, &o.zkproof);
            proof {
                assert(outputs@.take(i + 1).drop_last() =~= outputs@.take(i as int));
                assert(digest@ =~= spec_outputs_digest(outputs@.take(i + 1)));
            }
            i = i + 1;
        }
        proof {
            assert(outputs@.take(n as int) =~= outputs@);
        }
        blake2b_hash(&shielded_outputs_hash(), 32, &digest)
    };
    let mut preimage: Vec<u8> = Vec::new();
    push_u32_le(&mut preimage, 0x80000004u32);
    push_u32_le(&mut preimage, 0x892F2085u32);
    append_bytes(&mut preimage, &blake2b_hash(&prevouts_hash(), 32, &empty));
    append_bytes(&mut preimage, &blake2b_hash(&sequence_hash(), 32, &empty));
    append_bytes(&mut preimage, &blake2b_hash(&outputs_hash(), 32, &empty));
    append_bytes(&mut preimage, &zero_bytes(32));
    append_bytes(&mut preimage, &h_spends);
    append_bytes(&mut preimage, &h_outputs);
    push_u32_le(&mut preimage, 0u32);
    push_u32_le(&mut preimage, 0u32);
    push_u64_le(&mut preimage, value_balance as u64);
    push_u32_le(&mut preimage, 1u32);
    let mut personal = sighash_personalization_prefix();
    push_u32_le(&mut personal, branch);
    proof {
        assert(personal@ =~= sighash_tag_prefix() + u32_le(branch));
        assert(preimage@ =~= u32_le(0x80000004u32) + u32_le(0x892F2085u32) + blake2b_of(
            prevouts_hash_tag(),
            32,
            Seq::<u8>::empty(),
        ) + blake2b_of(sequence_hash_tag(), 32, Seq::<u8>::empty()) + blake2b_of(
            outputs_hash_tag(),
            32,
            Seq::<u8>::empty(),
        ) + zero32() + (if spends@.len() == 0 {
            zero32()
        } else {
            blake2b_of(spends_hash_tag(), 32, spec_spends_digest(spends@))
        }) + (if outputs@.len() == 0 {
            zero32()
        } else {
            blake2b_of(shielded_outputs_hash_tag(), 32, spec_outputs_digest(outputs@))
        }) + u32_le(0u32) + u32_le(0u32) + u64_le(value_balance as u64) + u32_le(1u32));
    }
    blake2b_hash(&personal, 32, &preimage)
}

/// The nullifier a finished spend must carry: that of the record's note
/// under the nullifier key derived from the master key for the record's
/// account, at the witnessed position.
pub open spec fn spec_spend_nullifier_ok(
    s: SpendDescription,
    rec: SpendRecord,
    m: XskView,
    coin_type: u32,
) -> bool {
    s.nullifier@ == spec_nf(
        rec.value,
        rec.g_d,
        rec.pk_d,
        rec.rcm,
        pt_mul(spec_gen_pgk().unwrap(), spec_from_path(m, coin_type, rec.account_id).nsk),
        rec.position,
    )
}

/// The signature a signed spend must carry: a spend-authorization
/// signature by the derived key's secret, re-randomized by the record's
/// `ar`, over the transaction digest.
pub open spec fn spec_spend_sig_ok(
    s: SpendDescription,
    rec: SpendRecord,
    m: XskView,
    coin_type: u32,
    sighash: Seq<u8>,
) -> bool {
    s.spend_auth_sig matches Some(sig) ==> exists|t: Seq<u8>|
        t.len() == 80 && sig@ == #[trigger] spec_spend_sig(
            t,
            spec_from_path(m, coin_type, rec.account_id).ask,
            rec.ar,
            sighash,
        )
}

/// What a finished output description holds for its record: the
/// commitment of the record's note, and the two ciphertexts the
/// encryptor seals under some ephemeral secret.
pub open spec fn spec_output_description_ok(o: OutputDescription, rec: OutputRecord) -> bool {
    &&& o.cmu@ == spec_cm(rec.value, rec.g_d, rec.to_pk_d, rec.rcm)
    &&& exists|esk: Seq<u8>|
        {
            &&& o.ephemeral_key@ == #[trigger] pt_mul(rec.g_d, esk)
            &&& o.enc_ciphertext@ == chacha_seal(
                spec_kdf(pt_mul(rec.to_pk_d, esk), pt_mul(rec.g_d, esk)),
                zero_nonce(),
                spec_note_plaintext(rec.to_d, rec.value, rec.rcm, rec.memo),
            )
            &&& o.out_ciphertext@ == chacha_seal(
                blake2b_of(prf_ock_tag(), 32, rec.ovk + o.cv@ + o.cmu@ + o.ephemeral_key@),
                zero_nonce(),
                rec.to_pk_d + esk,
            )
        }
}

/// Two spend lists with the same signature-free fields have the same
/// digest: the signature is not among the hashed fields.
proof fn lemma_spends_digest_same(a: Seq<SpendDescription>, b: Seq<SpendDescription>)
    requires
        a.len() == b.len(),
        forall|i: int|
            0 <= i < a.len() ==> {
                &&& (#[trigger] a[i]).cv@ == b[i].cv@
                &&& a[i].anchor@ == b[i].anchor@
                &&& a[i].nullifier@ == b[i].nullifier@
                &&& a[i].rk@ == b[i].rk@
                &&& a[i].zkproof@ == b[i].zkproof@
            },
    ensures
        spec_spends_digest(a) == spec_spends_digest(b),
    decreases a.len(),
{
    if a.len() > 0 {
        assert forall|i: int|
            0 <= i < a.drop_last().len() implies {
            &&& (#[trigger] a.drop_last()[i]).cv@ == b.drop_last()[i].cv@
            &&& a.drop_last()[i].anchor@ == b.drop_last()[i].anchor@
            &&& a.drop_last()[i].nullifier@ == b.drop_last()[i].nullifier@
            &&& a.drop_last()[i].rk@ == b.drop_last()[i].rk@
            &&& a.drop_last()[i].zkproof@ == b.drop_last()[i].zkproof@
        } by {
            assert(a[i].cv@ == b[i].cv@);
        }
        lemma_spends_digest_same(a.drop_last(), b.drop_last());
    }
}

/// The sum of a sequence of values.
pub open spec fn sum_seq(s: Seq<int>) -> int
    decreases s.len(),
{
    if s.len() == 0 {
        0
    } else {
        sum_seq(s.drop_last()) + s.last()
    }
}

/// Appending a value adds it to the sum.
proof fn lemma_sum_push(s: Seq<int>, v: int)
    ensures
        sum_seq(s.push(v)) == sum_seq(s) + v,
{
    assert(s.push(v).drop_last() =~= s);
}

/// The ghost image of one recorded spend: everything the build step
/// later reads from it.
pub struct SpendRecord {
    pub account_id: u32,
    pub diversifier: Seq<u8>,
    pub value: u64,
    pub g_d: Seq<u8>,
    pub pk_d: Seq<u8>,
    pub rcm: Seq<u8>,
    pub ar: Seq<u8>,
    pub position: u64,
    pub auth: Seq<Seq<u8>>,
}

/// The bytes of an optional memo: the empty memo when absent.
pub open spec fn spec_memo_of(m: Option<MemoBytes>) -> Seq<u8> {
    match m {
        Option::Some(x) => x@,
        Option::None => Seq::new(512, |i: int| 0u8),
    }
}

/// The ghost image of one recorded output.
pub struct OutputRecord {
    pub ovk: Seq<u8>,
    pub to_d: Seq<u8>,
    pub to_pk_d: Seq<u8>,
    pub value: u64,
    pub g_d: Seq<u8>,
    pub rcm: Seq<u8>,
    pub memo: Seq<u8>,
}

/// The record an output entry makes: its base point is the target
/// diversifier's.
pub open spec fn spec_output_record(
    ovk: Seq<u8>,
    to_d: Seq<u8>,
    to_pk_d: Seq<u8>,
    value: u64,
    rcm: Seq<u8>,
    memo: Seq<u8>,
) -> OutputRecord {
    OutputRecord { ovk, to_d, to_pk_d, value, g_d: spec_g_d(to_d).unwrap(), rcm, memo }
}

/// Generates a transaction from its inputs and outputs.
pub struct Builder {
    coin_type: u32,
    fee: i64,
    value_balance: i64,
    anchor: Option<FrBytes>,
    spends: Vec<SpendDescriptionInfo>,
    outputs: Vec<OutputDescriptionInfo>,
    change_address: Option<(Vec<u8>, PaymentAddress)>,
}

impl Builder {
    /// The accumulated value balance.
    pub closed spec fn value_balance_of(self) -> int {
        self.value_balance as int
    }

    /// The fee the build will charge.
    pub closed spec fn fee_of(self) -> int {
        self.fee as int
    }

    /// The coin type of the account keys.
    pub closed spec fn coin_type_of(self) -> u32 {
        self.coin_type
    }

    /// The values of the accumulated spends, in order.
    pub closed spec fn spend_values(self) -> Seq<int> {
        Seq::new(self.spends@.len(), |i: int| self.spends@[i].note.value as int)
    }

    /// The values of the accumulated outputs, in order.
    pub closed spec fn output_values(self) -> Seq<int> {
        Seq::new(self.outputs@.len(), |i: int| self.outputs@[i].note.value as int)
    }

    /// Everything each recorded spend holds, in order.
    pub closed spec fn spend_records(self) -> Seq<SpendRecord> {
        Seq::new(
            self.spends@.len(),
            |i: int|
                SpendRecord {
                    account_id: self.spends@[i].account_id,
                    diversifier: self.spends@[i].diversifier@,
                    value: self.spends@[i].note.value,
                    g_d: self.spends@[i].note.g_d@,
                    pk_d: self.spends@[i].note.pk_d@,
                    rcm: self.spends@[i].note.r@,
                    ar: self.spends@[i].ar@,
                    position: self.spends@[i].path.position_of(),
                    auth: self.spends@[i].path.auth_of(),
                },
        )
    }

    /// Everything each recorded output holds, in order.
    pub closed spec fn output_records(self) -> Seq<OutputRecord> {
        Seq::new(
            self.outputs@.len(),
            |i: int|
                OutputRecord {
                    ovk: self.outputs@[i].ovk@,
                    to_d: self.outputs@[i].to.diversifier@,
                    to_pk_d: self.outputs@[i].to.pk_d@,
                    value: self.outputs@[i].note.value,
                    g_d: self.outputs@[i].note.g_d@,
                    rcm: self.outputs@[i].note.r@,
                    memo: self.outputs@[i].memo@,
                },
        )
    }

    /// The diversifier the change would target: the explicit change
    /// address's when one is set, else the first spend's.
    pub closed spec fn change_target_d(self) -> Seq<u8> {
        match self.change_address {
            Option::Some(p) => p.1.diversifier@,
            Option::None => self.spends@[0].diversifier@,
        }
    }

    /// The transmission key the change would target.
    pub closed spec fn change_target_pk_d(self) -> Seq<u8> {
        match self.change_address {
            Option::Some(p) => p.1.pk_d@,
            Option::None => self.spends@[0].note.pk_d@,
        }
    }

    /// The outgoing viewing key the change would carry: the explicit
    /// change address's when one is set, else the one derived from the
    /// first spend's account key.
    pub open spec fn spec_change_ovk(self, m: XskView) -> Seq<u8> {
        if self.has_change_address() {
            self.explicit_change_ovk()
        } else {
            xfvk_of(
                spec_from_path(
                    m,
                    self.coin_type_of(),
                    self.spend_records()[0].account_id,
                ),
            ).ovk
        }
    }

    /// The stored change address's outgoing viewing key.
    pub closed spec fn explicit_change_ovk(self) -> Seq<u8> {
        match self.change_address {
            Option::Some(p) => p.0@,
            Option::None => Seq::empty(),
        }
    }

    /// The change output's record, for a given change value and drawn
    /// commitment randomness.
    pub open spec fn spec_change_record(
        self,
        m: XskView,
        change: int,
        rcm: Seq<u8>,
    ) -> OutputRecord {
        OutputRecord {
            ovk: self.spec_change_ovk(m),
            to_d: self.change_target_d(),
            to_pk_d: self.change_target_pk_d(),
            value: change as u64,
            g_d: spec_g_d(self.change_target_d()).unwrap(),
            rcm,
            memo: Seq::new(512, |i: int| 0u8),
        }
    }

    /// The recorded anchor.
    pub closed spec fn anchor_of(self) -> Option<Seq<u8>> {
        match self.anchor {
            Option::None => Option::None,
            Option::Some(a) => Option::Some(a@),
        }
    }

    /// Whether an explicit change address is set.
    pub closed spec fn has_change_address(self) -> bool {
        self.change_address is Some
    }

    /// The value-balance accounting law: the balance always equals the
    /// spend values minus the output values; and every part the build
    /// step relies on is in range.
    pub closed spec fn wf(self) -> bool {
        &&& self.value_balance_of() == sum_seq(self.spend_values()) - sum_seq(self.output_values())
        &&& self.spends@.len() > 0 ==> self.anchor is Some
        &&& self.coin_type < 0x8000_0000
        &&& forall|i: int|
            0 <= i < self.spends@.len() ==> (#[trigger] self.spends@[i]).account_id < 0x8000_0000
        &&& forall|i: int| 0 <= i < self.outputs@.len() ==> (#[trigger] self.outputs@[i]).ovk@.len()
            == 32
        &&& forall|i: int|
            0 <= i < self.outputs@.len() ==> (#[trigger] self.outputs@[i]).note.pk_d@
                == self.outputs@[i].to.pk_d@
        &&& self.change_address matches Some(p) ==> p.0@.len() == 32
    }

    /// The value-balance accounting law: in every builder the operations
    /// of this library can produce, the value balance equals the sum of
    /// the spend values minus the sum of the output values.
    pub proof fn lemma_value_balance_accounting(self)
        requires
            self.wf(),
        ensures
            self.value_balance_of() == sum_seq(self.spend_values()) - sum_seq(
                self.output_values(),
            ),
    {
    }

    /// An empty builder with the default fee.
    pub fn new(coin_type: u32) -> (r: Builder)
        requires
            coin_type < 0x8000_0000,
        ensures
            r.wf(),
            r.coin_type_of() == coin_type,
            r.fee_of() == DEFAULT_FEE,
            r.value_balance_of() == 0,
            r.spend_values() == Seq::<int>::empty(),
            r.output_values() == Seq::<int>::empty(),
            r.anchor_of() is None,
            !r.has_change_address(),
    {
        let r = Builder {
            coin_type,
            fee: DEFAULT_FEE,
            value_balance: 0,
            anchor: None,
            spends: Vec::new(),
            outputs: Vec::new(),
            change_address: None,
        };
        proof {
            assert(r.spend_values() =~= Seq::<int>::empty());
            assert(r.output_values() =~= Seq::<int>::empty());
        }
        r
    }

    /// Replaces the fee. Infeasibility is caught by the value check at
    /// build time, not here.
    pub fn set_fee(&mut self, fee: Amount)
        ensures
            final(self).fee_of() == fee.0 as int,
            final(self).wf() == old(self).wf(),
            final(self).value_balance_of() == old(self).value_balance_of(),
            final(self).spend_values() == old(self).spend_values(),
            final(self).output_values() == old(self).output_values(),
            final(self).anchor_of() == old(self).anchor_of(),
            final(self).has_change_address() == old(self).has_change_address(),
            final(self).coin_type_of() == old(self).coin_type_of(),
    {
        self.fee = fee.0;
    }

    /// Adds a spend of a note at a witnessed position. The first spend
    /// fixes the anchor; a later witness whose root disagrees is refused
    /// and the builder is left unchanged.
    pub fn add_sapling_spend(
        &mut self,
        account_id: u32,
        diversifier: &Diversifier,
        note: &Note,
        ar: &ScalarBytes,
        witness: &IncrementalWitness,
        params: &SaplingParams,
    ) -> (r: Result<(), Error>)
        requires
            old(self).wf(),
            account_id < 0x8000_0000,
            note.value <= i64::MAX,
            old(self).value_balance_of() + note.value <= i64::MAX,
        ensures
            match r {
                Ok(()) => {
                    &&& final(self).wf()
                    &&& final(self).value_balance_of() == old(self).value_balance_of()
                        + note.value
                    &&& final(self).spend_values() == old(self).spend_values().push(
                        note.value as int,
                    )
                    &&& final(self).spend_records() == old(self).spend_records().push(
                        SpendRecord {
                            account_id,
                            diversifier: diversifier@,
                            value: note.value,
                            g_d: note.g_d@,
                            pk_d: note.pk_d@,
                            rcm: note.r@,
                            ar: ar@,
                            position: witness.position_of() as u64,
                            auth: Seq::new(
                                32,
                                |l: int|
                                    spec_auth_sibling(
                                        witness.leaves_of(),
                                        witness.position_of(),
                                        l,
                                    ),
                            ),
                        },
                    )
                    &&& final(self).output_values() == old(self).output_values()
                    &&& final(self).output_records() == old(self).output_records()
                    &&& final(self).anchor_of() == (if old(self).anchor_of() is Some {
                        old(self).anchor_of()
                    } else {
                        Option::Some(spec_tree_root(witness.leaves_of()))
                    })
                    &&& old(self).anchor_of() matches Some(a) ==> a == spec_tree_root(
                        witness.leaves_of(),
                    )
                },
                Err(e) => {
                    &&& e matches Error::AnchorMismatch { expected, got } && Some(expected@) == old(
                        self,
                    ).anchor_of() && got@ == spec_tree_root(witness.leaves_of())
                    &&& *final(self) == *old(self)
                    &&& old(self).anchor_of() matches Some(a) && a != spec_tree_root(
                        witness.leaves_of(),
                    )
                },
            },
            final(self).fee_of() == old(self).fee_of(),
            final(self).coin_type_of() == old(self).coin_type_of(),
            final(self).has_change_address() == old(self).has_change_address(),
    {
        let root = witness.root(params);
        match &self.anchor {
            Some(anchor) => {
                if !anchor.equals(&root) {
                    return Err(
                        Error::AnchorMismatch {
                            expected: copy_bytes(anchor.as_bytes()),
                            got: copy_bytes(root.as_bytes()),
                        },
                    );
                }
            },
            None => {
                self.anchor = Some(root);
            },
        }
        let ghost pre_spends = self.spend_values();
        let ghost pre_outputs = self.output_values();
        let ghost pre_srec = self.spend_records();
        let ghost pre_orec = self.output_records();
        self.value_balance = self.value_balance + (note.value as i64);
        let path = witness.path(params);
        let ghost path_g = path;
        self.spends.push(
            SpendDescriptionInfo {
                account_id,
                diversifier: diversifier.clone(),
                note: note.clone(),
                ar: ar.clone(),
                path,
            },
        );
        proof {
            assert(self.spend_values() =~= pre_spends.push(note.value as int));
            assert(self.output_values() =~= pre_outputs);
            assert(self.output_records() =~= pre_orec);
            assert(path_g.auth_of() =~= Seq::new(
                32,
                |l: int| spec_auth_sibling(witness.leaves_of(), witness.position_of(), l),
            ));
            assert(self.spend_records() =~= pre_srec.push(
                SpendRecord {
                    account_id,
                    diversifier: diversifier@,
                    value: note.value,
                    g_d: note.g_d@,
                    pk_d: note.pk_d@,
                    rcm: note.r@,
                    ar: ar@,
                    position: witness.position_of() as u64,
                    auth: Seq::new(
                        32,
                        |l: int| spec_auth_sibling(witness.leaves_of(), witness.position_of(), l),
                    ),
                },
            ));
            lemma_sum_push(pre_spends, note.value as int);
            assert forall|i: int|
                0 <= i < self.spends@.len() implies (#[trigger] self.spends@[i]).account_id
                < 0x8000_0000 by {
                if i < self.spends@.len() - 1 {
                    assert(self.spends@[i] == old(self).spends@[i]);
                    assert(old(self).spends@[i].account_id < 0x8000_0000);
                }
            }
        }
        Ok(())
    }

    /// Adds an output paying `value` to an address, with an optional
    /// memo; fails exactly when the address's diversifier has no base
    /// point, leaving the builder unchanged. The commitment randomness is
    /// drawn from the system RNG.
    pub fn add_sapling_output(
        &mut self,
        ovk: &Vec<u8>,
        to: &PaymentAddress,
        value: Amount,
        memo: Option<MemoBytes>,
        params: &SaplingParams,
    ) -> (r: Result<(), Error>)
        requires
            old(self).wf(),
            ovk@.len() == 32,
            value.0 >= 0,
            old(self).value_balance_of() - value.0 >= i64::MIN,
        ensures
            match r {
                Ok(()) => {
                    &&& final(self).wf()
                    &&& spec_g_d(to.diversifier@) is Some
                    &&& final(self).value_balance_of() == old(self).value_balance_of() - value.0
                    &&& final(self).output_values() == old(self).output_values().push(
                        value.0 as int,
                    )
                    &&& exists|rcm: Seq<u8>|
                        final(self).output_records() == old(self).output_records().push(
                            #[trigger] spec_output_record(
                                ovk@,
                                to.diversifier@,
                                to.pk_d@,
                                value.0 as u64,
                                rcm,
                                spec_memo_of(memo),
                            ),
                        )
                    &&& final(self).spend_values() == old(self).spend_values()
                    &&& final(self).spend_records() == old(self).spend_records()
                    &&& final(self).anchor_of() == old(self).anchor_of()
                },
                Err(e) => {
                    &&& e == Error::InvalidTargetAddress
                    &&& *final(self) == *old(self)
                    &&& spec_g_d(to.diversifier@) is None
                },
            },
            final(self).fee_of() == old(self).fee_of(),
            final(self).coin_type_of() == old(self).coin_type_of(),
            final(self).has_change_address() == old(self).has_change_address(),
    {
        let g_d = match to.g_d(params) {
            Some(g_d) => g_d,
            None => {
                return Err(Error::InvalidTargetAddress);
            },
        };
        let rcm = random_scalar();
        let ghost rcm_v = rcm@;
        let ghost pre_spends = self.spend_values();
        let ghost pre_outputs = self.output_values();
        let ghost pre_srec = self.spend_records();
        let ghost pre_orec = self.output_records();
        self.value_balance = self.value_balance - value.0;
        let note = Note { g_d, pk_d: to.pk_d.clone(), value: value.0 as u64, r: rcm };
        let memo_bytes = match memo {
            Some(m) => m,
            None => MemoBytes::empty(),
        };
        let ghost memo_v = memo_bytes@;
        self.outputs.push(
            OutputDescriptionInfo { ovk: copy_bytes(ovk), to: to.clone(), note, memo: memo_bytes },
        );
        proof {
            assert(self.output_values() =~= pre_outputs.push(value.0 as int));
            assert(self.spend_values() =~= pre_spends);
            assert(self.spend_records() =~= pre_srec);
            assert(memo_v == spec_memo_of(memo));
            assert(self.output_records() =~= pre_orec.push(
                spec_output_record(ovk@, to.diversifier@, to.pk_d@, value.0 as u64, rcm_v, memo_v),
            ));
            lemma_sum_push(pre_outputs, value.0 as int);
            assert forall|i: int|
                0 <= i < self.outputs@.len() implies (#[trigger] self.outputs@[i]).ovk@.len()
                == 32 by {
                if i < self.outputs@.len() - 1 {
                    assert(self.outputs@[i] == old(self).outputs@[i]);
                    assert(old(self).outputs@[i].ovk@.len() == 32);
                }
            }
            assert forall|i: int|
                0 <= i < self.outputs@.len() implies (#[trigger] self.outputs@[i]).note.pk_d@
                == self.outputs@[i].to.pk_d@ by {
                if i < self.outputs@.len() - 1 {
                    assert(self.outputs@[i] == old(self).outputs@[i]);
                    assert(old(self).outputs@[i].note.pk_d@ == old(self).outputs@[i].to.pk_d@);
                }
            }
        }
        Ok(())
    }

    /// Builds the transaction: checks the change, adds a change output
    /// if one is due, derives each spend's account key, drives the
    /// prover over every spend and output, computes the sighash, signs
    /// the spends, and asks the prover for the binding signature.
    pub fn build<P: TxProver>(
        self,
        consensus_branch_id: u32,
        master: &ExtendedSpendingKey,
        prover: P,
        params: &SaplingParams,
    ) -> (r: Result<Transaction, Error>)
        requires
            self.wf(),
            i64::MIN <= self.value_balance_of() - self.fee_of() <= i64::MAX,
        ensures
            ({
                let change = self.value_balance_of() - self.fee_of();
                match r {
                    Ok(tx) => {
                        &&& change >= 0
                        &&& tx.value_balance == self.fee_of()
                        &&& tx.shielded_spends@.len() == self.spend_values().len()
                        &&& tx.shielded_outputs@.len() == self.output_values().len() + (
                        if change > 0 {
                            1int
                        } else {
                            0int
                        })
                        &&& forall|i: int|
                            0 <= i < tx.shielded_spends@.len() ==> (#[trigger] tx.shielded_spends@[
                                i
                            ]).spend_auth_sig is Some
                        &&& tx.binding_sig matches Some(bs) && bs@.len() == 64
                        &&& tx.shielded_spends@.len() == self.spend_records().len()
                        &&& forall|i: int|
                            0 <= i < tx.shielded_spends@.len() ==> Some(
                                (#[trigger] tx.shielded_spends@[i]).anchor@,
                            ) == self.anchor_of()
                        &&& forall|i: int|
                            0 <= i < tx.shielded_spends@.len() ==> spec_spend_nullifier_ok(
                                #[trigger] tx.shielded_spends@[i],
                                self.spend_records()[i],
                                master@,
                                self.coin_type_of(),
                            )
                        &&& forall|i: int|
                            0 <= i < tx.shielded_spends@.len() ==> spec_spend_sig_ok(
                                #[trigger] tx.shielded_spends@[i],
                                self.spend_records()[i],
                                master@,
                                self.coin_type_of(),
                                spec_sighash(
                                    consensus_branch_id,
                                    tx.shielded_spends@,
                                    tx.shielded_outputs@,
                                    tx.value_balance,
                                ),
                            )
                        &&& change == 0 ==> {
                            &&& tx.shielded_outputs@.len() == self.output_records().len()
                            &&& forall|j: int|
                                0 <= j < tx.shielded_outputs@.len()
                                    ==> spec_output_description_ok(
                                    #[trigger] tx.shielded_outputs@[j],
                                    self.output_records()[j],
                                )
                        }
                        &&& change > 0 ==> (self.has_change_address()
                            || self.spend_values().len() > 0) && spec_g_d(
                            self.change_target_d(),
                        ) is Some && exists|
                            change_rcm: Seq<u8>,
                        |
                            {
                                &&& tx.shielded_outputs@.len() == self.output_records().len() + 1
                                &&& forall|j: int|
                                    0 <= j < self.output_records().len()
                                        ==> spec_output_description_ok(
                                        #[trigger] tx.shielded_outputs@[j],
                                        self.output_records()[j],
                                    )
                                &&& spec_output_description_ok(
                                    tx.shielded_outputs@.last(),
                                    #[trigger] self.spec_change_record(
                                        master@,
                                        change,
                                        change_rcm,
                                    ),
                                )
                            }
                    },
                    Err(Error::ChangeNegative(c)) => change < 0 && c == change,
                    Err(Error::NoChangeAddress) => change > 0 && !self.has_change_address()
                        && self.spend_values().len() == 0,
                    Err(Error::InvalidTargetAddress) => change > 0 && (self.has_change_address()
                        || self.spend_values().len() > 0) && spec_g_d(self.change_target_d())
                        is None,
                    Err(Error::ProverFailure) => change >= 0 && self.spend_values().len() > 0
                        && (change > 0 ==> spec_g_d(self.change_target_d()) is Some),
                    Err(Error::BindingSigFailed) => change >= 0 && (change > 0 ==> (
                    self.has_change_address() || self.spend_values().len() > 0) && spec_g_d(
                        self.change_target_d(),
                    ) is Some),
                    Err(Error::AnchorMismatch { .. }) => false,
                }
            }),
            ({
                let change = self.value_balance_of() - self.fee_of();
                change > 0 && !self.has_change_address() && self.spend_values().len() == 0
                    ==> r == Result::<Transaction, Error>::Err(Error::NoChangeAddress)
            }),
            ({
                let change = self.value_balance_of() - self.fee_of();
                change > 0 && (self.has_change_address() || self.spend_values().len() > 0)
                    && spec_g_d(self.change_target_d()) is None ==> r == Result::<
                    Transaction,
                    Error,
                >::Err(Error::InvalidTargetAddress)
            }),
            self.value_balance_of() - self.fee_of() < 0 ==> r == Result::<Transaction, Error>::Err(
                Error::ChangeNegative((self.value_balance_of() - self.fee_of()) as i64),
            ),
    {
        self.build_inner(consensus_branch_id, master, prover, params, true)
    }

    /// Builds as `build` does but leaves every spend-authorization
    /// signature blank, for a flow where an external co-signer supplies
    /// them; the binding signature is still emitted, since its key
    /// depends only on the prover's accumulated randomness.
    pub fn build_no_sign<P: TxProver>(
        self,
        consensus_branch_id: u32,
        master: &ExtendedSpendingKey,
        prover: P,
        params: &SaplingParams,
    ) -> (r: Result<Transaction, Error>)
        requires
            self.wf(),
            i64::MIN <= self.value_balance_of() - self.fee_of() <= i64::MAX,
        ensures
            ({
                let change = self.value_balance_of() - self.fee_of();
                match r {
                    Ok(tx) => {
                        &&& change >= 0
                        &&& tx.value_balance == self.fee_of()
                        &&& tx.shielded_spends@.len() == self.spend_values().len()
                        &&& tx.shielded_outputs@.len() == self.output_values().len() + (
                        if change > 0 {
                            1int
                        } else {
                            0int
                        })
                        &&& forall|i: int|
                            0 <= i < tx.shielded_spends@.len() ==> (#[trigger] tx.shielded_spends@[
                                i
                            ]).spend_auth_sig is None
                        &&& tx.binding_sig matches Some(bs) && bs@.len() == 64
                        &&& tx.shielded_spends@.len() == self.spend_records().len()
                        &&& forall|i: int|
                            0 <= i < tx.shielded_spends@.len() ==> Some(
                                (#[trigger] tx.shielded_spends@[i]).anchor@,
                            ) == self.anchor_of()
                        &&& forall|i: int|
                            0 <= i < tx.shielded_spends@.len() ==> spec_spend_nullifier_ok(
                                #[trigger] tx.shielded_spends@[i],
                                self.spend_records()[i],
                                master@,
                                self.coin_type_of(),
                            )
                        &&& forall|i: int|
                            0 <= i < tx.shielded_spends@.len() ==> spec_spend_sig_ok(
                                #[trigger] tx.shielded_spends@[i],
                                self.spend_records()[i],
                                master@,
                                self.coin_type_of(),
                                spec_sighash(
                                    consensus_branch_id,
                                    tx.shielded_spends@,
                                    tx.shielded_outputs@,
                                    tx.value_balance,
                                ),
                            )
                        &&& change == 0 ==> {
                            &&& tx.shielded_outputs@.len() == self.output_records().len()
                            &&& forall|j: int|
                                0 <= j < tx.shielded_outputs@.len()
                                    ==> spec_output_description_ok(
                                    #[trigger] tx.shielded_outputs@[j],
                                    self.output_records()[j],
                                )
                        }
                        &&& change > 0 ==> (self.has_change_address()
                            || self.spend_values().len() > 0) && spec_g_d(
                            self.change_target_d(),
                        ) is Some && exists|
                            change_rcm: Seq<u8>,
                        |
                            {
                                &&& tx.shielded_outputs@.len() == self.output_records().len() + 1
                                &&& forall|j: int|
                                    0 <= j < self.output_records().len()
                                        ==> spec_output_description_ok(
                                        #[trigger] tx.shielded_outputs@[j],
                                        self.output_records()[j],
                                    )
                                &&& spec_output_description_ok(
                                    tx.shielded_outputs@.last(),
                                    #[trigger] self.spec_change_record(
                                        master@,
                                        change,
                                        change_rcm,
                                    ),
                                )
                            }
                    },
                    Err(Error::ChangeNegative(c)) => change < 0 && c == change,
                    Err(Error::NoChangeAddress) => change > 0 && !self.has_change_address()
                        && self.spend_values().len() == 0,
                    Err(Error::InvalidTargetAddress) => change > 0 && (self.has_change_address()
                        || self.spend_values().len() > 0) && spec_g_d(self.change_target_d())
                        is None,
                    Err(Error::ProverFailure) => change >= 0 && self.spend_values().len() > 0
                        && (change > 0 ==> spec_g_d(self.change_target_d()) is Some),
                    Err(Error::BindingSigFailed) => change >= 0 && (change > 0 ==> (
                    self.has_change_address() || self.spend_values().len() > 0) && spec_g_d(
                        self.change_target_d(),
                    ) is Some),
                    Err(Error::AnchorMismatch { .. }) => false,
                }
            }),
            ({
                let change = self.value_balance_of() - self.fee_of();
                change > 0 && !self.has_change_address() && self.spend_values().len() == 0
                    ==> r == Result::<Transaction, Error>::Err(Error::NoChangeAddress)
            }),
            ({
                let change = self.value_balance_of() - self.fee_of();
                change > 0 && (self.has_change_address() || self.spend_values().len() > 0)
                    && spec_g_d(self.change_target_d()) is None ==> r == Result::<
                    Transaction,
                    Error,
                >::Err(Error::InvalidTargetAddress)
            }),
            self.value_balance_of() - self.fee_of() < 0 ==> r == Result::<Transaction, Error>::Err(
                Error::ChangeNegative((self.value_balance_of() - self.fee_of()) as i64),
            ),
    {
        self.build_inner(consensus_branch_id, master, prover, params, false)
    }

    /// The shared build path; `sign_spends` decides whether the
    /// spend-authorization signatures are attached.
    #[verifier::loop_isolation(false)]
    fn build_inner<P: TxProver>(
        self,
        consensus_branch_id: u32,
        master: &ExtendedSpendingKey,
        prover: P,
        params: &SaplingParams,
        sign_spends: bool,
    ) -> (r: Result<Transaction, Error>)
        requires
            self.wf(),
            i64::MIN <= self.value_balance_of() - self.fee_of() <= i64::MAX,
        ensures
            ({
                let change = self.value_balance_of() - self.fee_of();
                match r {
                    Ok(tx) => {
                        &&& change >= 0
                        &&& tx.value_balance == self.fee_of()
                        &&& tx.shielded_spends@.len() == self.spend_values().len()
                        &&& tx.shielded_outputs@.len() == self.output_values().len() + (
                        if change > 0 {
                            1int
                        } else {
                            0int
                        })
                        &&& forall|i: int|
                            0 <= i < tx.shielded_spends@.len() ==> ((#[trigger] tx.shielded_spends@[
                                i
                            ]).spend_auth_sig is Some <==> sign_spends)
                        &&& tx.binding_sig matches Some(bs) && bs@.len() == 64
                        &&& tx.shielded_spends@.len() == self.spend_records().len()
                        &&& forall|i: int|
                            0 <= i < tx.shielded_spends@.len() ==> Some(
                                (#[trigger] tx.shielded_spends@[i]).anchor@,
                            ) == self.anchor_of()
                        &&& forall|i: int|
                            0 <= i < tx.shielded_spends@.len() ==> spec_spend_nullifier_ok(
                                #[trigger] tx.shielded_spends@[i],
                                self.spend_records()[i],
                                master@,
                                self.coin_type_of(),
                            )
                        &&& forall|i: int|
                            0 <= i < tx.shielded_spends@.len() ==> spec_spend_sig_ok(
                                #[trigger] tx.shielded_spends@[i],
                                self.spend_records()[i],
                                master@,
                                self.coin_type_of(),
                                spec_sighash(
                                    consensus_branch_id,
                                    tx.shielded_spends@,
                                    tx.shielded_outputs@,
                                    tx.value_balance,
                                ),
                            )
                        &&& change == 0 ==> {
                            &&& tx.shielded_outputs@.len() == self.output_records().len()
                            &&& forall|j: int|
                                0 <= j < tx.shielded_outputs@.len()
                                    ==> spec_output_description_ok(
                                    #[trigger] tx.shielded_outputs@[j],
                                    self.output_records()[j],
                                )
                        }
                        &&& change > 0 ==> (self.has_change_address()
                            || self.spend_values().len() > 0) && spec_g_d(
                            self.change_target_d(),
                        ) is Some && exists|
                            change_rcm: Seq<u8>,
                        |
                            {
                                &&& tx.shielded_outputs@.len() == self.output_records().len() + 1
                                &&& forall|j: int|
                                    0 <= j < self.output_records().len()
                                        ==> spec_output_description_ok(
                                        #[trigger] tx.shielded_outputs@[j],
                                        self.output_records()[j],
                                    )
                                &&& spec_output_description_ok(
                                    tx.shielded_outputs@.last(),
                                    #[trigger] self.spec_change_record(
                                        master@,
                                        change,
                                        change_rcm,
                                    ),
                                )
                            }
                    },
                    Err(Error::ChangeNegative(c)) => change < 0 && c == change,
                    Err(Error::NoChangeAddress) => change > 0 && !self.has_change_address()
                        && self.spend_values().len() == 0,
                    Err(Error::InvalidTargetAddress) => change > 0 && (self.has_change_address()
                        || self.spend_values().len() > 0) && spec_g_d(self.change_target_d())
                        is None,
                    Err(Error::ProverFailure) => change >= 0 && self.spend_values().len() > 0
                        && (change > 0 ==> spec_g_d(self.change_target_d()) is Some),
                    Err(Error::BindingSigFailed) => change >= 0 && (change > 0 ==> (
                    self.has_change_address() || self.spend_values().len() > 0) && spec_g_d(
                        self.change_target_d(),
                    ) is Some),
                    Err(Error::AnchorMismatch { .. }) => false,
                }
            }),
            ({
                let change = self.value_balance_of() - self.fee_of();
                change > 0 && !self.has_change_address() && self.spend_values().len() == 0
                    ==> r == Result::<Transaction, Error>::Err(Error::NoChangeAddress)
            }),
            ({
                let change = self.value_balance_of() - self.fee_of();
                change > 0 && (self.has_change_address() || self.spend_values().len() > 0)
                    && spec_g_d(self.change_target_d()) is None ==> r == Result::<
                    Transaction,
                    Error,
                >::Err(Error::InvalidTargetAddress)
            }),
            self.value_balance_of() - self.fee_of() < 0 ==> r == Result::<
                Transaction,
                Error,
            >::Err(Error::ChangeNegative((self.value_balance_of() - self.fee_of()) as i64)),
    {
        let ghost input = self;
        let mut this = self;
        let mut prover = prover;
        let change = this.value_balance - this.fee;
        if change < 0 {
            return Err(Error::ChangeNegative(change));
        }
        let ghost mut change_rcm: Seq<u8> = Seq::empty();
        if change > 0 {
            let (change_ovk, change_to): (Vec<u8>, PaymentAddress) = match &this.change_address {
                Some(pair) => (copy_bytes(&pair.0), pair.1.clone()),
                None => {
                    if this.spends.len() > 0 {
                        let xsk = ExtendedSpendingKey::from_path(
                            master,
                            this.coin_type,
                            this.spends[0].account_id,
                        );
                        let xfvk = ExtendedFullViewingKey::from_xsk(&xsk, params);
                        let ovk = copy_bytes(xfvk.ovk());
                        let addr = PaymentAddress {
                            diversifier: this.spends[0].diversifier.clone(),
                            pk_d: this.spends[0].note.pk_d.clone(),
                        };
                        proof {
                            assert(input.spend_records()[0].account_id
                                == input.spends@[0].account_id);
                            assert(ovk@ == input.spec_change_ovk(master@));
                        }
                        (ovk, addr)
                    } else {
                        return Err(Error::NoChangeAddress);
                    }
                },
            };
            proof {
                assert(change_to.diversifier@ == input.change_target_d());
                assert(change_to.pk_d@ == input.change_target_pk_d());
                assert(change_ovk@ == input.spec_change_ovk(master@));
            }
            match this.add_sapling_output(&change_ovk, &change_to, Amount(change), None, params) {
                Ok(()) => {},
                Err(_) => {
                    return Err(Error::InvalidTargetAddress);
                },
            }
            proof {
                change_rcm = choose|rcm: Seq<u8>|
                    this.output_records() == input.output_records().push(
                        #[trigger] spec_output_record(
                            change_ovk@,
                            change_to.diversifier@,
                            change_to.pk_d@,
                            change as u64,
                            rcm,
                            spec_memo_of(None),
                        ),
                    );
                assert(this.output_records() == input.output_records().push(
                    input.spec_change_record(master@, change as int, change_rcm),
                ));
            }
        }
        let num_spends = this.spends.len();
        let num_outputs = this.outputs.len();
        let mut spend_parts: Vec<SpendDescription> = Vec::new();
        let mut spend_keys: Vec<ExtendedSpendingKey> = Vec::new();
        if num_spends > 0 {
            let anchor = match &this.anchor {
                Some(a) => a.clone(),
                None => vstd::pervasive::unreached(),
            };
            proof {
                assert(Some(anchor@) == self.anchor_of());
            }
            let mut i: usize = 0;
            while i < num_spends
                invariant
                    num_spends == this.spends@.len(),
                    i <= num_spends,
                    spend_parts@.len() == i,
                    spend_keys@.len() == i,
                    this.wf(),
                    change >= 0,
                    change == input.value_balance_of() - input.fee_of(),
                    Some(anchor@) == self.anchor_of(),
                    this.spend_records() == input.spend_records(),
                    forall|k: int|
                        0 <= k < i ==> (#[trigger] spend_parts@[k]).spend_auth_sig is None,
                    forall|k: int|
                        0 <= k < i ==> Some((#[trigger] spend_parts@[k]).anchor@)
                            == self.anchor_of(),
                    forall|k: int|
                        0 <= k < i ==> spec_spend_nullifier_ok(
                            #[trigger] spend_parts@[k],
                            input.spend_records()[k],
                            master@,
                            input.coin_type_of(),
                        ),
                    forall|k: int|
                        0 <= k < i ==> (#[trigger] spend_keys@[k])@ == spec_from_path(
                            master@,
                            input.coin_type_of(),
                            input.spend_records()[k].account_id,
                        ),
                decreases num_spends - i,
            {
                let spend = &this.spends[i];
                proof {
                    assert(input.spend_records()[i as int] == this.spend_records()[i as int]);
                    assert(this.spend_records()[i as int].account_id
                        == this.spends@[i as int].account_id);
                }
                let xsk = ExtendedSpendingKey::from_path(master, this.coin_type, spend.account_id);
                let pgk = xsk.proof_generation_key(params);
                let vk = pgk.into_viewing_key(params);
                let nullifier = spend.note.nf(&vk, spend.path.position(), params);
                let proof_parts = match prover.spend_proof(
                    params,
                    &pgk,
                    &spend.diversifier,
                    &spend.note.r,
                    &spend.ar,
                    spend.note.value,
                    &anchor,
                    &spend.path,
                ) {
                    Ok(p) => p,
                    Err(_) => {
                        return Err(Error::ProverFailure);
                    },
                };
                let ghost null_v = nullifier@;
                spend_parts.push(
                    SpendDescription {
                        cv: proof_parts.cv,
                        anchor: anchor.clone(),
                        nullifier,
                        rk: proof_parts.rk,
                        zkproof: proof_parts.zkproof,
                        spend_auth_sig: None,
                    },
                );
                spend_keys.push(xsk);
                proof {
                    assert(spend_parts@[i as int].nullifier@ == null_v);
                    assert(spec_spend_nullifier_ok(
                        spend_parts@[i as int],
                        input.spend_records()[i as int],
                        master@,
                        input.coin_type_of(),
                    ));
                }
                i = i + 1;
            }
        }
        let mut output_parts: Vec<OutputDescription> = Vec::new();
        let mut j: usize = 0;
        while j < num_outputs
            invariant
                num_outputs == this.outputs@.len(),
                j <= num_outputs,
                output_parts@.len() == j,
                this.wf(),
                forall|m: int|
                    0 <= m < j ==> spec_output_description_ok(
                        #[trigger] output_parts@[m],
                        this.output_records()[m],
                    ),
            decreases num_outputs - j,
        {
            let output = &this.outputs[j];
            let ghost rec = this.output_records()[j as int];
            proof {
                assert(this.outputs@[j as int].ovk@.len() == 32);
                assert(this.outputs@[j as int].note.pk_d@ == this.outputs@[j as int].to.pk_d@);
                assert(rec == OutputRecord {
                    ovk: this.outputs@[j as int].ovk@,
                    to_d: this.outputs@[j as int].to.diversifier@,
                    to_pk_d: this.outputs@[j as int].to.pk_d@,
                    value: this.outputs@[j as int].note.value,
                    g_d: this.outputs@[j as int].note.g_d@,
                    rcm: this.outputs@[j as int].note.r@,
                    memo: this.outputs@[j as int].memo@,
                });
            }
            let encryptor = NoteEncryptor::new(
                &output.ovk,
                &output.note,
                &output.to,
                output.memo.clone(),
                params,
            );
            let ghost esk_w = encryptor.esk_of();
            let proof_parts = prover.output_proof(
                params,
                encryptor.esk(),
                &output.to,
                &output.note.r,
                output.note.value,
            );
            let cmu = output.note.cm(params);
            let enc_ciphertext = encryptor.encrypt_note_plaintext();
            let out_ciphertext = encryptor.encrypt_outgoing_plaintext(&proof_parts.cv, &cmu);
            let ephemeral_key = encryptor.epk().clone();
            output_parts.push(
                OutputDescription {
                    cv: proof_parts.cv,
                    cmu,
                    ephemeral_key,
                    enc_ciphertext,
                    out_ciphertext,
                    zkproof: proof_parts.zkproof,
                },
            );
            proof {
                let o = output_parts@[j as int];
                assert(o.ephemeral_key@ == pt_mul(rec.g_d, esk_w));
                assert(o.enc_ciphertext@ == chacha_seal(
                    spec_kdf(pt_mul(rec.to_pk_d, esk_w), pt_mul(rec.g_d, esk_w)),
                    zero_nonce(),
                    spec_note_plaintext(rec.to_d, rec.value, rec.rcm, rec.memo),
                ));
                assert(o.out_ciphertext@ == chacha_seal(
                    blake2b_of(prf_ock_tag(), 32, rec.ovk + o.cv@ + o.cmu@ + o.ephemeral_key@),
                    zero_nonce(),
                    rec.to_pk_d + esk_w,
                ));
                assert(spec_output_description_ok(o, rec));
            }
            j = j + 1;
        }
        let sighash = sighash_data(consensus_branch_id, &spend_parts, &output_parts,
            this.value_balance);
        let ghost sighash_v = sighash@;
        let mut signed_spends: Vec<SpendDescription> = Vec::new();
        let mut k: usize = 0;
        while k < num_spends
            invariant
                num_spends == this.spends@.len() == spend_parts@.len() == spend_keys@.len(),
                k <= num_spends,
                signed_spends@.len() == k,
                sighash@.len() == 32,
                this.wf(),
                forall|m: int|
                    0 <= m < k ==> ((#[trigger] signed_spends@[m]).spend_auth_sig is Some
                        <==> sign_spends),
                forall|m: int|
                    0 <= m < num_spends ==> Some((#[trigger] spend_parts@[m]).anchor@)
                        == self.anchor_of(),
                forall|m: int|
                    0 <= m < k ==> Some((#[trigger] signed_spends@[m]).anchor@)
                        == self.anchor_of(),
                forall|m: int|
                    0 <= m < k ==> {
                        &&& (#[trigger] signed_spends@[m]).cv@ == spend_parts@[m].cv@
                        &&& signed_spends@[m].anchor@ == spend_parts@[m].anchor@
                        &&& signed_spends@[m].nullifier@ == spend_parts@[m].nullifier@
                        &&& signed_spends@[m].rk@ == spend_parts@[m].rk@
                        &&& signed_spends@[m].zkproof@ == spend_parts@[m].zkproof@
                    },
                forall|m: int|
                    0 <= m < k ==> spec_spend_sig_ok(
                        #[trigger] signed_spends@[m],
                        input.spend_records()[m],
                        master@,
                        input.coin_type_of(),
                        sighash_v,
                    ),
            decreases num_spends - k,
        {
            let part = &spend_parts[k];
            proof {
                assert(input.spend_records()[k as int].ar == this.spends@[k as int].ar@);
            }
            let sig: Option<Vec<u8>> = if sign_spends {
                Some(spend_sig(params, spend_keys[k].ask(), &this.spends[k].ar, &sighash))
            } else {
                None
            };
            let ghost sig_g = sig;
            signed_spends.push(
                SpendDescription {
                    cv: part.cv.clone(),
                    anchor: part.anchor.clone(),
                    nullifier: copy_bytes(&part.nullifier),
                    rk: part.rk.clone(),
                    zkproof: copy_bytes(&part.zkproof),
                    spend_auth_sig: sig,
                },
            );
            proof {
                assert(spec_spend_sig_ok(
                    signed_spends@[k as int],
                    input.spend_records()[k as int],
                    master@,
                    input.coin_type_of(),
                    sighash_v,
                ));
            }
            k = k + 1;
        }
        let binding_sig = match prover.binding_sig(this.value_balance, &sighash) {
            Ok(s) => s,
            Err(_) => {
                return Err(Error::BindingSigFailed);
            },
        };
        let tx = Transaction {
            value_balance: this.value_balance,
            shielded_spends: signed_spends,
            shielded_outputs: output_parts,
            binding_sig: Some(binding_sig),
        };
        proof {
            lemma_spends_digest_same(tx.shielded_spends@, spend_parts@);
            assert(spec_sighash(
                consensus_branch_id,
                tx.shielded_spends@,
                tx.shielded_outputs@,
                tx.value_balance,
            ) == sighash_v);
            assert forall|i: int|
                0 <= i < tx.shielded_spends@.len() implies spec_spend_nullifier_ok(
                #[trigger] tx.shielded_spends@[i],
                input.spend_records()[i],
                master@,
                input.coin_type_of(),
            ) by {
                assert(spec_spend_nullifier_ok(
                    spend_parts@[i],
                    input.spend_records()[i],
                    master@,
                    input.coin_type_of(),
                ));
            }
            if change > 0 {
                assert(tx.shielded_outputs@.len() == input.output_records().len() + 1);
                assert forall|jj: int|
                    0 <= jj < input.output_records().len() implies spec_output_description_ok(
                    #[trigger] tx.shielded_outputs@[jj],
                    input.output_records()[jj],
                ) by {
                    assert(spec_output_description_ok(
                        output_parts@[jj],
                        this.output_records()[jj],
                    ));
                    assert(this.output_records()[jj] == input.output_records()[jj]);
                }
                assert(spec_output_description_ok(
                    tx.shielded_outputs@.last(),
                    input.spec_change_record(master@, change as int, change_rcm),
                ));
            }
        }
        Ok(tx)
    }
}

} // verus!
