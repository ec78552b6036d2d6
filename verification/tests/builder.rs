use sapling_client::builder::{Amount, Builder, Error};
use sapling_client::curve::ScalarBytes;
use sapling_client::merkle::{CommitmentTree, IncrementalWitness};
use sapling_client::params::SaplingParams;
use sapling_client::prover::MockTxProver;
use sapling_client::zip32::{ExtendedFullViewingKey, ExtendedSpendingKey};
use ff::Field;

fn random_scalar_bytes() -> ScalarBytes {
    let fr = jubjub::Fr::random(&mut rand::rngs::OsRng);
    ScalarBytes::from_bytes(&fr.to_bytes().to_vec()).unwrap()
}

#[test]
fn addresses_match() {}

#[test]
fn fails_on_negative_change() {
    let params = SaplingParams::new().expect("params");

    let master = ExtendedSpendingKey::master(&vec![]);

    // Fails with no inputs or outputs
    // 0.0001 t-ZEC fee
    {
        let builder = Builder::new(1);
        match builder.build(1, &master, MockTxProver, &params) {
            Err(e) => assert_eq!(e.message().as_str(), "Change is negative: -10000"),
            Ok(_) => panic!("Should have failed"),
        }
    }

    let extfvk = ExtendedFullViewingKey::from_xsk(&master, &params);
    let ovk = extfvk.ovk().clone();
    let to = master.default_address(&params).unwrap().1;

    // Fail if there is only a Sapling output
    // 0.0005 z-ZEC out, 0.0001 t-ZEC fee
    {
        let mut builder = Builder::new(1);
        builder
            .add_sapling_output(&ovk, &to, Amount(50000), None, &params)
            .unwrap();
        match builder.build(1, &master, MockTxProver, &params) {
            Err(e) => assert_eq!(e.message().as_str(), "Change is negative: -60000"),
            Ok(_) => panic!("Should have failed"),
        }
    }

    let note1 = to.create_note(59999, &random_scalar_bytes(), &params).unwrap();
    let cm1 = note1.cm(&params);
    let mut tree = CommitmentTree::new();
    tree.append(cm1).unwrap();
    let mut witness1 = IncrementalWitness::from_tree(&tree).unwrap();

    // Fail if there is insufficient input
    // 0.0005 z-ZEC out, 0.0001 t-ZEC fee, 0.00059999 z-ZEC in
    {
        let mut builder = Builder::new(1);
        builder
            .add_sapling_spend(
                0,
                &to.diversifier,
                &note1,
                &random_scalar_bytes(),
                &witness1,
                &params,
            )
            .unwrap();
        builder
            .add_sapling_output(&ovk, &to, Amount(50000), None, &params)
            .unwrap();
        match builder.build(1, &master, MockTxProver, &params) {
            Err(e) => assert_eq!(e.message().as_str(), "Change is negative: -1"),
            Ok(_) => panic!("Should have failed"),
        }
    }

    let note2 = to.create_note(1, &random_scalar_bytes(), &params).unwrap();
    let cm2 = note2.cm(&params);
    tree.append(cm2.clone()).unwrap();
    witness1.append(cm2).unwrap();
    let witness2 = IncrementalWitness::from_tree(&tree).unwrap();

    // Succeeds if there is sufficient input
    // 0.0005 z-ZEC out, 0.0001 t-ZEC fee, 0.0006 z-ZEC in
    //
    // (Still fails because the mock prover does not accumulate the
    // value-commitment randomness the binding signature needs.)
    {
        let mut builder = Builder::new(1);
        builder
            .add_sapling_spend(
                0,
                &to.diversifier,
                &note1,
                &random_scalar_bytes(),
                &witness1,
                &params,
            )
            .unwrap();
        builder
            .add_sapling_spend(
                0,
                &to.diversifier,
                &note2,
                &random_scalar_bytes(),
                &witness2,
                &params,
            )
            .unwrap();
        builder
            .add_sapling_output(&ovk, &to, Amount(50000), None, &params)
            .unwrap();
        match builder.build(1, &master, MockTxProver, &params) {
            Err(e) => assert_eq!(e.message().as_str(), "Failed to create bindingSig"),
            Ok(_) => panic!("Should have failed"),
        }
    }
}

#[test]
fn anchor_mismatch_between_trees() {
    let params = SaplingParams::new().expect("params");
    let master = ExtendedSpendingKey::master(&vec![]);
    let to = master.default_address(&params).unwrap().1;

    let note1 = to.create_note(100, &random_scalar_bytes(), &params).unwrap();
    let note2 = to.create_note(200, &random_scalar_bytes(), &params).unwrap();

    let mut tree1 = CommitmentTree::new();
    tree1.append(note1.cm(&params)).unwrap();
    let witness1 = IncrementalWitness::from_tree(&tree1).unwrap();

    let mut tree2 = CommitmentTree::new();
    tree2.append(note2.cm(&params)).unwrap();
    let witness2 = IncrementalWitness::from_tree(&tree2).unwrap();

    let mut builder = Builder::new(1);
    builder
        .add_sapling_spend(
            0,
            &to.diversifier,
            &note1,
            &random_scalar_bytes(),
            &witness1,
            &params,
        )
        .unwrap();
    match builder.add_sapling_spend(
        0,
        &to.diversifier,
        &note2,
        &random_scalar_bytes(),
        &witness2,
        &params,
    ) {
        Err(Error::AnchorMismatch { expected, got }) => {
            // The payload carries the recorded anchor and the
            // disagreeing root.
            assert_eq!(&expected, witness1.root(&params).as_bytes());
            assert_eq!(&got, witness2.root(&params).as_bytes());
            let msg = Error::AnchorMismatch { expected, got }.message();
            assert!(msg.starts_with("Anchor mismatch (expected "));
            assert!(msg.ends_with(")"));
        }
        Err(_) => panic!("wrong error"),
        Ok(_) => panic!("Should have failed"),
    }
}

#[test]
fn default_fee_and_no_change_address() {
    let params = SaplingParams::new().expect("params");
    let master = ExtendedSpendingKey::master(&vec![]);

    // A builder with a negative fee has positive change but no spend to
    // route it to.
    let mut builder = Builder::new(1);
    builder.set_fee(Amount(-5));
    match builder.build(1, &master, MockTxProver, &params) {
        Err(Error::NoChangeAddress) => {}
        Err(_) => panic!("wrong error"),
        Ok(_) => panic!("Should have failed"),
    }
}

#[test]
fn invalid_memo_too_long() {
    let long = vec![0u8; 513];
    assert!(sapling_client::encryption::MemoBytes::from_slice(&long).is_none());
    let ok = vec![7u8; 512];
    assert!(sapling_client::encryption::MemoBytes::from_slice(&ok).is_some());
}

#[test]
fn value_balance_feeds_the_change_check() {
    let params = SaplingParams::new().expect("params");
    let master = ExtendedSpendingKey::master(&vec![]);
    let extfvk = ExtendedFullViewingKey::from_xsk(&master, &params);
    let ovk = extfvk.ovk().clone();
    let to = master.default_address(&params).unwrap().1;

    // One spend of 100 and one output of 30: the balance is 70, so the
    // change against the default fee is 70 - 10000 = -9930.
    let note = to.create_note(100, &random_scalar_bytes(), &params).unwrap();
    let mut tree = CommitmentTree::new();
    tree.append(note.cm(&params)).unwrap();
    let witness = IncrementalWitness::from_tree(&tree).unwrap();

    let mut builder = Builder::new(1);
    builder
        .add_sapling_spend(
            0,
            &to.diversifier,
            &note,
            &random_scalar_bytes(),
            &witness,
            &params,
        )
        .unwrap();
    builder
        .add_sapling_output(&ovk, &to, Amount(30), None, &params)
        .unwrap();
    match builder.build(1, &master, MockTxProver, &params) {
        Err(e) => assert_eq!(e.message().as_str(), "Change is negative: -9930"),
        Ok(_) => panic!("Should have failed"),
    }
}

#[test]
fn build_no_sign_checks_change_the_same_way() {
    let params = SaplingParams::new().expect("params");
    let master = ExtendedSpendingKey::master(&vec![]);
    let builder = Builder::new(1);
    match builder.build_no_sign(1, &master, MockTxProver, &params) {
        Err(e) => assert_eq!(e.message().as_str(), "Change is negative: -10000"),
        Ok(_) => panic!("Should have failed"),
    }
}
