use sapling_client::curve::ScalarBytes;
use sapling_client::encryption::{MemoBytes, NoteEncryptor};
use sapling_client::params::SaplingParams;
use sapling_client::scanner::{scan_block, CompactBlock, CompactOutput, CompactSpend, CompactTx};
use sapling_client::zip32::{ExtendedFullViewingKey, ExtendedSpendingKey};
use ff::Field;

fn random_scalar_bytes() -> ScalarBytes {
    let fr = jubjub::Fr::random(&mut rand::rngs::OsRng);
    ScalarBytes::from_bytes(&fr.to_bytes().to_vec()).unwrap()
}

fn block_with_output_for(
    extfvk: &ExtendedFullViewingKey,
    value: u64,
    params: &SaplingParams,
) -> CompactBlock {
    let to = extfvk.default_address(params).unwrap().1;
    let note = to.create_note(value, &random_scalar_bytes(), params).unwrap();
    let ovk = extfvk.ovk().clone();
    let encryptor = NoteEncryptor::new(&ovk, &note, &to, MemoBytes::empty(), params);
    let enc_ct = encryptor.encrypt_note_plaintext();
    let cmu = note.cm(params);
    let output = CompactOutput {
        cmu: cmu.as_bytes().clone(),
        epk: encryptor.epk().as_bytes().clone(),
        ciphertext: enc_ct[..52].to_vec(),
    };
    let tx = CompactTx {
        txid: vec![0u8; 32],
        spends: vec![CompactSpend { nf: vec![1u8; 32] }],
        outputs: vec![output],
    };
    CompactBlock { vtx: vec![tx] }
}

#[test]
fn scanner_finds_own_output() {
    let params = SaplingParams::new().expect("params");
    let master = ExtendedSpendingKey::master(&vec![0u8; 32]);
    let extfvk = ExtendedFullViewingKey::from_xsk(&master, &params);
    let block = block_with_output_for(&extfvk, 12345, &params);
    let txs = scan_block(&block, &vec![extfvk], &params);
    assert_eq!(txs.len(), 1);
    let wtx = &txs[0];
    assert_eq!(wtx.num_spends, 1);
    assert_eq!(wtx.num_outputs, 1);
    assert_eq!(wtx.shielded_outputs.len(), 1);
    let out = &wtx.shielded_outputs[0];
    assert_eq!(out.index, 0);
    assert_eq!(out.account, 0);
    assert_eq!(out.value, 12345);
}

#[test]
fn scanning_twice_yields_identical_output() {
    let params = SaplingParams::new().expect("params");
    let master = ExtendedSpendingKey::master(&vec![7u8; 16]);
    let extfvk = ExtendedFullViewingKey::from_xsk(&master, &params);
    let block = block_with_output_for(&extfvk, 999, &params);
    let extfvk2 = ExtendedFullViewingKey::from_xsk(&master, &params);
    let txs1 = scan_block(&block, &vec![extfvk], &params);
    let txs2 = scan_block(&block, &vec![extfvk2], &params);
    assert_eq!(txs1.len(), txs2.len());
    for (a, b) in txs1.iter().zip(txs2.iter()) {
        assert_eq!(a.txid, b.txid);
        assert_eq!(a.num_spends, b.num_spends);
        assert_eq!(a.num_outputs, b.num_outputs);
        assert_eq!(a.shielded_outputs.len(), b.shielded_outputs.len());
        for (x, y) in a.shielded_outputs.iter().zip(b.shielded_outputs.iter()) {
            assert_eq!(x.index, y.index);
            assert_eq!(x.account, y.account);
            assert_eq!(x.value, y.value);
            assert_eq!(x.cmu.as_bytes(), y.cmu.as_bytes());
            assert_eq!(x.epk.as_bytes(), y.epk.as_bytes());
            assert_eq!(x.enc_ct, y.enc_ct);
        }
    }
}

#[test]
fn scanner_skips_other_keys_and_malformed_outputs() {
    let params = SaplingParams::new().expect("params");
    let master = ExtendedSpendingKey::master(&vec![8u8; 16]);
    let extfvk = ExtendedFullViewingKey::from_xsk(&master, &params);
    let block = block_with_output_for(&extfvk, 1, &params);

    // A stranger's key sees nothing.
    let other = ExtendedFullViewingKey::from_xsk(
        &ExtendedSpendingKey::master(&vec![9u8; 16]),
        &params,
    );
    assert!(scan_block(&block, &vec![other], &params).is_empty());

    // A malformed commitment is silently skipped.
    let mut bad = block_with_output_for(&extfvk, 1, &params);
    bad.vtx[0].outputs[0].cmu = vec![0u8; 31];
    assert!(scan_block(&bad, &vec![extfvk], &params).is_empty());
}
