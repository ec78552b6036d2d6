//! Note encryption and compact trial decryption: the Sapling KDF over a
//! Diffie-Hellman shared point, ChaCha20-Poly1305 with a zero nonce for
//! the ciphertexts, and the bit-exact note-plaintext layout.

use vstd::prelude::*;
use chacha20poly1305::aead::{Aead, KeyInit};
use chacha20::cipher::{KeyIvInit, StreamCipher, StreamCipherSeek};
use crate::bytes::{le_nat, u64_le, copy_bytes, sub_bytes, append_bytes, zero_bytes, push_u64_le,
    pow256, lemma_le_nat_bound};
use crate::consts::{kdf_sapling_tag, kdf_sapling, prf_ock_tag, prf_ock};
use crate::curve::{PointBytes, ScalarBytes, FrBytes, pt_mul, random_scalar, point_mul};
use crate::hash::{blake2b_of, blake2b_hash};
use crate::params::SaplingParams;
use crate::primitives::{Note, PaymentAddress, Diversifier, spec_g_d, spec_cm};

verus! {

/// What ChaCha20-Poly1305 sealing returns for a key, a nonce and a
/// plaintext: the ciphertext followed by the 16-byte tag.
pub uninterp spec fn chacha_seal(key: Seq<u8>, nonce: Seq<u8>, pt: Seq<u8>) -> Seq<u8>;

/// What the ChaCha20 keystream holds in block one (the first block after
/// the Poly1305 key block) for a key and a nonce.
pub uninterp spec fn chacha_block1_stream(key: Seq<u8>, nonce: Seq<u8>) -> Seq<u8>;

/// Relies on `chacha20poly1305::ChaCha20Poly1305::encrypt`: the sealed
/// ciphertext, 16 bytes longer than the plaintext. The result depends on
/// the arguments alone.
#[verifier::external_body]
fn aead_seal(key: &Vec<u8>, nonce: &Vec<u8>, pt: &Vec<u8>) -> (r: Vec<u8>)
    requires
        key@.len() == 32,
        nonce@.len() == 12,
        pt@.len() <= 0x10000,
    ensures
        r@ == chacha_seal(key@, nonce@, pt@),
        r@.len() == pt@.len() + 16,
{
    let cipher = chacha20poly1305::ChaCha20Poly1305::new(key.as_slice().into());
    cipher.encrypt(nonce.as_slice().into(), pt.as_slice()).unwrap()
}

/// Relies on `chacha20::ChaCha20`: 64 keystream bytes at block one. The
/// result depends on the arguments alone.
#[verifier::external_body]
fn chacha20_block1(key: &Vec<u8>, nonce: &Vec<u8>) -> (r: Vec<u8>)
    requires
        key@.len() == 32,
        nonce@.len() == 12,
    ensures
        r@ == chacha_block1_stream(key@, nonce@),
        r@.len() == 64,
{
    let mut cipher = chacha20::ChaCha20::new(key.as_slice().into(), nonce.as_slice().into());
    cipher.seek(64u32);
    let mut buf = vec![0u8; 64];
    cipher.apply_keystream(&mut buf);
    buf
}

/// The exclusive-or of a string with a prefix of another.
pub open spec fn spec_xor(a: Seq<u8>, b: Seq<u8>) -> Seq<u8> {
    Seq::new(a.len(), |i: int| a[i] ^ b[i])
}

/// Exclusive-ors `a` with the first `a.len()` bytes of `b`.
fn xor_bytes(a: &Vec<u8>, b: &Vec<u8>) -> (r: Vec<u8>)
    requires
        a@.len() <= b@.len(),
    ensures
        r@ == spec_xor(a@, b@),
{
    let mut r: Vec<u8> = Vec::new();
    let n = a.len();
    let mut i: usize = 0;
    while i < n
        invariant
            n == a@.len() <= b@.len(),
            i <= n,
            r@ == spec_xor(a@, b@).take(i as int),
        decreases n - i,
    {
        r.push(a[i] ^ b[i]);
        proof {
            assert(r@ =~= spec_xor(a@, b@).take(i + 1));
        }
        i = i + 1;
    }
    proof {
        assert(spec_xor(a@, b@).take(n as int) =~= spec_xor(a@, b@));
    }
    r
}

/// The twelve-byte zero nonce every note ciphertext uses.
pub open spec fn zero_nonce() -> Seq<u8> {
    Seq::<u8>::new(12, |i: int| 0u8)
}

/// The encryption key for a shared secret and an ephemeral key:
/// BLAKE2b-256 of the two encodings under the KDF tag.
pub open spec fn spec_kdf(shared: Seq<u8>, epk: Seq<u8>) -> Seq<u8> {
    blake2b_of(kdf_sapling_tag(), 32, shared + epk)
}

/// The note plaintext: a leading one byte, the diversifier, the value in
/// eight little-endian bytes, the commitment randomness, the memo.
pub open spec fn spec_note_plaintext(d: Seq<u8>, value: u64, rcm: Seq<u8>, memo: Seq<u8>) -> Seq<
    u8,
> {
    seq![1u8] + d + u64_le(value) + rcm + memo
}

/// A 512-byte memo.
pub struct MemoBytes {
    b: Vec<u8>,
}

impl View for MemoBytes {
    type V = Seq<u8>;

    closed spec fn view(&self) -> Seq<u8> {
        self.b@
    }
}

impl MemoBytes {
    #[verifier::type_invariant]
    spec fn type_inv(self) -> bool {
        self@.len() == 512
    }

    /// The empty memo: 512 zero bytes.
    pub fn empty() -> (r: MemoBytes)
        ensures
            r@ == Seq::<u8>::new(512, |i: int| 0u8),
    {
        MemoBytes { b: zero_bytes(512) }
    }

    /// A memo from at most 512 bytes, zero-padded on the right.
    pub fn from_slice(v: &Vec<u8>) -> (r: Option<MemoBytes>)
        ensures
            match r {
                Some(m) => v@.len() <= 512 && m@ == v@ + Seq::<u8>::new(
                    (512 - v@.len()) as nat,
                    |i: int| 0u8,
                ),
                None => v@.len() > 512,
            },
    {
        if v.len() > 512 {
            return None;
        }
        let mut b = copy_bytes(v);
        let pad = zero_bytes(512 - v.len());
        append_bytes(&mut b, &pad);
        Some(MemoBytes { b })
    }

    pub fn as_bytes(&self) -> (r: &Vec<u8>)
        ensures
            r@ == self@,
            self@.len() == 512,
    {
        proof {
            use_type_invariant(self);
        }
        &self.b
    }
}

impl Clone for MemoBytes {
    fn clone(&self) -> (r: Self)
        ensures
            r@ == self@,
    {
        proof {
            use_type_invariant(self);
        }
        MemoBytes { b: copy_bytes(&self.b) }
    }
}

/// A note encryptor bound to one output: it draws a fresh ephemeral
/// secret at construction and seals the note and outgoing plaintexts.
pub struct NoteEncryptor {
    esk: ScalarBytes,
    epk: PointBytes,
    pk_d: PointBytes,
    d: Diversifier,
    value: u64,
    rcm: ScalarBytes,
    memo: MemoBytes,
    ovk: Vec<u8>,
}

impl NoteEncryptor {
    #[verifier::type_invariant]
    spec fn type_inv(self) -> bool {
        self.ovk@.len() == 32
    }

    /// Binds an encryptor to an outgoing viewing key, a note and its
    /// address data, and a memo. The ephemeral secret is drawn from the
    /// system RNG; the ephemeral key is `esk · g_d`.
    pub fn new(ovk: &Vec<u8>, note: &Note, to: &PaymentAddress, memo: MemoBytes, params:
        &SaplingParams) -> (r: NoteEncryptor)
        requires
            ovk@.len() == 32,
        ensures
            r.value_of() == note.value,
            r.rcm_of() == note.r@,
            r.d_of() == to.diversifier@,
            r.pk_d_of() == note.pk_d@,
            r.memo_of() == memo@,
            r.ovk_of() == ovk@,
            r.epk_of() == pt_mul(note.g_d@, r.esk_of()),
    {
        let esk = random_scalar();
        let epk = point_mul(&note.g_d, &esk);
        NoteEncryptor {
            esk,
            epk,
            pk_d: note.pk_d.clone(),
            d: to.diversifier.clone(),
            value: note.value,
            rcm: note.r.clone(),
            memo,
            ovk: copy_bytes(ovk),
        }
    }

    pub closed spec fn esk_of(self) -> Seq<u8> {
        self.esk@
    }

    pub closed spec fn epk_of(self) -> Seq<u8> {
        self.epk@
    }

    pub closed spec fn pk_d_of(self) -> Seq<u8> {
        self.pk_d@
    }

    pub closed spec fn d_of(self) -> Seq<u8> {
        self.d@
    }

    pub closed spec fn value_of(self) -> u64 {
        self.value
    }

    pub closed spec fn rcm_of(self) -> Seq<u8> {
        self.rcm@
    }

    pub closed spec fn memo_of(self) -> Seq<u8> {
        self.memo@
    }

    pub closed spec fn ovk_of(self) -> Seq<u8> {
        self.ovk@
    }

    /// The ephemeral secret.
    pub fn esk(&self) -> (r: &ScalarBytes)
        ensures
            r@ == self.esk_of(),
    {
        &self.esk
    }

    /// The ephemeral public key.
    pub fn epk(&self) -> (r: &PointBytes)
        ensures
            r@ == self.epk_of(),
    {
        &self.epk
    }

    /// Seals the note plaintext under the key derived from
    /// `esk · pk_d`: 580 bytes.
    pub fn encrypt_note_plaintext(&self) -> (r: Vec<u8>)
        ensures
            r@ == chacha_seal(
                spec_kdf(pt_mul(self.pk_d_of(), self.esk_of()), self.epk_of()),
                zero_nonce(),
                spec_note_plaintext(self.d_of(), self.value_of(), self.rcm_of(), self.memo_of()),
            ),
            r@.len() == 580,
    {
        proof {
            use_type_invariant(self);
        }
        let shared = point_mul(&self.pk_d, &self.esk);
        let mut kdf_input = copy_bytes(shared.as_bytes());
        append_bytes(&mut kdf_input, self.epk.as_bytes());
        let key = blake2b_hash(&kdf_sapling(), 32, &kdf_input);
        let mut pt: Vec<u8> = Vec::new();
        pt.push(1u8);
        append_bytes(&mut pt, self.d.as_bytes());
        push_u64_le(&mut pt, self.value);
        append_bytes(&mut pt, self.rcm.as_bytes());
        append_bytes(&mut pt, self.memo.as_bytes());
        proof {
            assert(pt@ =~= spec_note_plaintext(self.d_of(), self.value_of(), self.rcm_of(),
                self.memo_of()));
            assert(kdf_input@ =~= pt_mul(self.pk_d_of(), self.esk_of()) + self.epk_of());
        }
        let nonce = zero_bytes(12);
        aead_seal(&key, &nonce, &pt)
    }

    /// Seals the outgoing plaintext `pk_d ++ esk` under the outgoing
    /// cipher key derived from the outgoing viewing key, `cv`, `cmu` and
    /// `epk`: 80 bytes.
    pub fn encrypt_outgoing_plaintext(&self, cv: &PointBytes, cmu: &FrBytes) -> (r: Vec<u8>)
        ensures
            r@ == chacha_seal(
                blake2b_of(
                    prf_ock_tag(),
                    32,
                    self.ovk_of() + cv@ + cmu@ + self.epk_of(),
                ),
                zero_nonce(),
                self.pk_d_of() + self.esk_of(),
            ),
            r@.len() == 80,
    {
        proof {
            use_type_invariant(self);
        }
        let mut ock_input = copy_bytes(&self.ovk);
        append_bytes(&mut ock_input, cv.as_bytes());
        append_bytes(&mut ock_input, cmu.as_bytes());
        append_bytes(&mut ock_input, self.epk.as_bytes());
        let ock = blake2b_hash(&prf_ock(), 32, &ock_input);
        let mut op = copy_bytes(self.pk_d.as_bytes());
        append_bytes(&mut op, self.esk.as_bytes());
        proof {
            assert(ock_input@ =~= self.ovk_of() + cv@ + cmu@ + self.epk_of());
            assert(op@ =~= self.pk_d_of() + self.esk_of());
        }
        let nonce = zero_bytes(12);
        aead_seal(&ock, &nonce, &op)
    }
}

/// `256^8`, the bound of an eight-byte value.
proof fn lemma_pow256_8()
    ensures
        pow256(8) == 0x1_0000_0000_0000_0000nat,
{
    assert(pow256(1) == 256 * pow256(0));
    assert(pow256(2) == 256 * pow256(1));
    assert(pow256(3) == 256 * pow256(2));
    assert(pow256(4) == 256 * pow256(3));
    assert(pow256(5) == 256 * pow256(4));
    assert(pow256(6) == 256 * pow256(5));
    assert(pow256(7) == 256 * pow256(6));
    assert(pow256(8) == 256 * pow256(7));
}

/// Reads the eight bytes at `off` as a little-endian `u64`.
fn u64_from_le_at(v: &Vec<u8>, off: usize) -> (r: u64)
    requires
        off + 8 <= v@.len(),
    ensures
        u64_le(r) == v@.subrange(off as int, off as int + 8),
        r == le_nat(v@.subrange(off as int, off as int + 8)),
{
    let n = v.len();
    let b0 = v[off];
    let b1 = v[off + 1];
    let b2 = v[off + 2];
    let b3 = v[off + 3];
    let b4 = v[off + 4];
    let b5 = v[off + 5];
    let b6 = v[off + 6];
    let b7 = v[off + 7];
    let r: u64 = (b0 as u64) | ((b1 as u64) << 8) | ((b2 as u64) << 16) | ((b3 as u64) << 24) | (
    (b4 as u64) << 32) | ((b5 as u64) << 40) | ((b6 as u64) << 48) | ((b7 as u64) << 56);
    proof {
        assert({
            &&& (r & 0xff) as u8 == b0
            &&& ((r >> 8) & 0xff) as u8 == b1
            &&& ((r >> 16) & 0xff) as u8 == b2
            &&& ((r >> 24) & 0xff) as u8 == b3
            &&& ((r >> 32) & 0xff) as u8 == b4
            &&& ((r >> 40) & 0xff) as u8 == b5
            &&& ((r >> 48) & 0xff) as u8 == b6
            &&& ((r >> 56) & 0xff) as u8 == b7
        }) by (bit_vector)
            requires
                r == (b0 as u64) | ((b1 as u64) << 8) | ((b2 as u64) << 16) | ((b3 as u64) << 24)
                    | ((b4 as u64) << 32) | ((b5 as u64) << 40) | ((b6 as u64) << 48) | ((b7
                    as u64) << 56),
        ;
        assert(u64_le(r) =~= v@.subrange(off as int, off as int + 8));
        lemma_le_nat_u64(r);
    }
    r
}

/// Appending one byte adds its value at the next power.
proof fn lemma_le_nat_push(s: Seq<u8>, b: u8)
    ensures
        le_nat(s.push(b)) == le_nat(s) + (b as nat) * pow256(s.len()),
{
    assert(s.push(b).drop_last() =~= s);
    assert(s.push(b).last() == b);
}

/// The little-endian reading of `u64_le(v)` is `v`.
proof fn lemma_le_nat_u64(v: u64)
    ensures
        le_nat(u64_le(v)) == v,
{
    let b0 = (v & 0xff) as u8;
    let b1 = ((v >> 8) & 0xff) as u8;
    let b2 = ((v >> 16) & 0xff) as u8;
    let b3 = ((v >> 24) & 0xff) as u8;
    let b4 = ((v >> 32) & 0xff) as u8;
    let b5 = ((v >> 40) & 0xff) as u8;
    let b6 = ((v >> 48) & 0xff) as u8;
    let b7 = ((v >> 56) & 0xff) as u8;
    assert(pow256(0) == 1);
    assert(pow256(1) == 256 * pow256(0));
    assert(pow256(2) == 256 * pow256(1));
    assert(pow256(3) == 256 * pow256(2));
    assert(pow256(4) == 256 * pow256(3));
    assert(pow256(5) == 256 * pow256(4));
    assert(pow256(6) == 256 * pow256(5));
    assert(pow256(7) == 256 * pow256(6));
    assert({
        &&& v & 0xff < 256
        &&& (v >> 8) & 0xff < 256
        &&& (v >> 16) & 0xff < 256
        &&& (v >> 24) & 0xff < 256
        &&& (v >> 32) & 0xff < 256
        &&& (v >> 40) & 0xff < 256
        &&& (v >> 48) & 0xff < 256
        &&& (v >> 56) & 0xff < 256
    }) by (bit_vector);
    let s0 = Seq::<u8>::empty();
    let s1 = s0.push(b0);
    let s2 = s1.push(b1);
    let s3 = s2.push(b2);
    let s4 = s3.push(b3);
    let s5 = s4.push(b4);
    let s6 = s5.push(b5);
    let s7 = s6.push(b6);
    let s8 = s7.push(b7);
    lemma_le_nat_push(s0, b0);
    lemma_le_nat_push(s1, b1);
    lemma_le_nat_push(s2, b2);
    lemma_le_nat_push(s3, b3);
    lemma_le_nat_push(s4, b4);
    lemma_le_nat_push(s5, b5);
    lemma_le_nat_push(s6, b6);
    lemma_le_nat_push(s7, b7);
    assert(s8 =~= u64_le(v));
    assert((v & 0xff) + ((v >> 8) & 0xff) * 0x100 + ((v >> 16) & 0xff) * 0x1_0000 + ((v >> 24)
        & 0xff) * 0x100_0000 + ((v >> 32) & 0xff) * 0x1_0000_0000 + ((v >> 40) & 0xff)
        * 0x100_0000_0000 + ((v >> 48) & 0xff) * 0x1_0000_0000_0000 + ((v >> 56) & 0xff)
        * 0x100_0000_0000_0000 == v) by (bit_vector);
}

/// What compact trial decryption recovers: the note value, when the
/// ciphertext is 52 bytes, decrypts under the key to a version-one
/// plaintext whose randomness is canonical, whose diversifier has a base,
/// and whose reconstructed note commits to `cmu`.
pub open spec fn spec_compact_decrypt(ivk: Seq<u8>, epk: Seq<u8>, cmu: Seq<u8>, ct: Seq<u8>) -> (
    r: Option<u64>) {
    if ct.len() != 52 {
        None
    } else {
        let key = spec_kdf(pt_mul(epk, ivk), epk);
        let pt = spec_xor(ct, chacha_block1_stream(key, zero_nonce()));
        if pt[0] != 1u8 {
            None
        } else {
            let d = pt.subrange(1, 12);
            let vb = pt.subrange(12, 20);
            let rcm = pt.subrange(20, 52);
            if le_nat(rcm) >= crate::curve::fs_modulus() {
                None
            } else {
                match spec_g_d(d) {
                    Option::None => None,
                    Option::Some(g) => {
                        let pkd = pt_mul(g, ivk);
                        if spec_cm(le_nat(vb) as u64, g, pkd, rcm) == cmu {
                            Some(le_nat(vb) as u64)
                        } else {
                            None
                        }
                    },
                }
            }
        }
    }
}

/// Trial-decrypts a compact output under one incoming viewing key.
pub fn try_compact_note_decryption(ivk: &ScalarBytes, epk: &PointBytes, cmu: &FrBytes, ct: &Vec<
    u8,
>, params: &SaplingParams) -> (r: Option<u64>)
    ensures
        r == spec_compact_decrypt(ivk@, epk@, cmu@, ct@),
{
    if ct.len() != 52 {
        return None;
    }
    let shared = point_mul(epk, ivk);
    let mut kdf_input = copy_bytes(shared.as_bytes());
    append_bytes(&mut kdf_input, epk.as_bytes());
    let key = blake2b_hash(&kdf_sapling(), 32, &kdf_input);
    proof {
        assert(kdf_input@ =~= pt_mul(epk@, ivk@) + epk@);
    }
    let nonce = zero_bytes(12);
    let stream = chacha20_block1(&key, &nonce);
    let pt = xor_bytes(ct, &stream);
    if pt[0] != 1u8 {
        return None;
    }
    let d_bytes = sub_bytes(&pt, 1, 12);
    let value = u64_from_le_at(&pt, 12);
    let rcm_bytes = sub_bytes(&pt, 20, 52);
    let rcm = match ScalarBytes::from_bytes(&rcm_bytes) {
        Some(s) => s,
        None => {
            return None;
        },
    };
    let d = match Diversifier::from_bytes(&d_bytes) {
        Some(d) => d,
        None => vstd::pervasive::unreached(),
    };
    let g_d = match d.g_d(params) {
        Some(g) => g,
        None => {
            return None;
        },
    };
    let pk_d = point_mul(&g_d, ivk);
    let note = Note { value, g_d, pk_d, r: rcm };
    let cm = note.cm(params);
    if cm.equals(cmu) {
        Some(value)
    } else {
        None
    }
}

} // verus!
