use sapling_client::curve::{FrBytes, PointBytes, ScalarBytes};
use sapling_client::params::SaplingParams;
use sapling_client::primitives::{Diversifier, Note, ValueCommitment};
use sapling_client::zip32::ExtendedSpendingKey;
use ff::Field;

fn random_scalar_bytes() -> ScalarBytes {
    let fr = jubjub::Fr::random(&mut rand::rngs::OsRng);
    ScalarBytes::from_bytes(&fr.to_bytes().to_vec()).unwrap()
}

#[test]
fn ivk_is_deterministic_and_lies_in_fs() {
    let params = SaplingParams::new().expect("params");
    let master = ExtendedSpendingKey::master(&vec![1, 2, 3]);
    let vk = master
        .proof_generation_key(&params)
        .into_viewing_key(&params);
    let ivk1 = vk.ivk();
    let ivk2 = vk.ivk();
    assert_eq!(ivk1.as_bytes(), ivk2.as_bytes());
    // The top five bits of the last byte are clear.
    assert_eq!(ivk1.as_bytes()[31] & 0xf8, 0);
    // The value is a canonical Fs scalar.
    assert!(ScalarBytes::from_bytes(ivk1.as_bytes()).is_some());
}

#[test]
fn address_roundtrip_pk_d_is_ivk_times_g_d() {
    let params = SaplingParams::new().expect("params");
    let master = ExtendedSpendingKey::master(&vec![9]);
    let vk = master
        .proof_generation_key(&params)
        .into_viewing_key(&params);
    let to = master.default_address(&params).unwrap().1;
    let addr = vk
        .into_payment_address(&to.diversifier, &params)
        .expect("diversifier of the default address has a base point");
    // Recompute ivk * g_d with the curve crate directly.
    let g_d = addr.g_d(&params).unwrap();
    let mut g_arr = [0u8; 32];
    g_arr.copy_from_slice(g_d.as_bytes());
    let g = jubjub::ExtendedPoint::from(jubjub::AffinePoint::from_bytes(g_arr).unwrap());
    let mut ivk_arr = [0u8; 32];
    ivk_arr.copy_from_slice(vk.ivk().as_bytes());
    let ivk = jubjub::Fr::from_bytes(&ivk_arr).unwrap();
    let expected = jubjub::AffinePoint::from(g * ivk).to_bytes().to_vec();
    assert_eq!(addr.pk_d.as_bytes(), &expected);
    // And the address equals the default address.
    assert!(addr == to);
}

#[test]
fn note_commitment_stable_and_injective_on_value() {
    let params = SaplingParams::new().expect("params");
    let master = ExtendedSpendingKey::master(&vec![4]);
    let to = master.default_address(&params).unwrap().1;
    let r = random_scalar_bytes();
    let note_a = to.create_note(1000, &r, &params).unwrap();
    let note_b = to.create_note(1001, &r, &params).unwrap();
    let cm_a1 = note_a.cm(&params);
    let cm_a2 = note_a.cm(&params);
    assert_eq!(cm_a1.as_bytes(), cm_a2.as_bytes());
    assert_ne!(cm_a1.as_bytes(), note_b.cm(&params).as_bytes());
    let r2 = random_scalar_bytes();
    let note_c = to.create_note(1000, &r2, &params).unwrap();
    assert_ne!(cm_a1.as_bytes(), note_c.cm(&params).as_bytes());
}

#[test]
fn nullifier_depends_on_note_position_and_key() {
    let params = SaplingParams::new().expect("params");
    let master = ExtendedSpendingKey::master(&vec![5]);
    let vk = master
        .proof_generation_key(&params)
        .into_viewing_key(&params);
    let to = master.default_address(&params).unwrap().1;
    let note = to.create_note(77, &random_scalar_bytes(), &params).unwrap();
    let nf_a = note.nf(&vk, 0, &params);
    let nf_b = note.nf(&vk, 0, &params);
    assert_eq!(nf_a, nf_b);
    assert_eq!(nf_a.len(), 32);
    // A different position changes the nullifier.
    assert_ne!(nf_a, note.nf(&vk, 1, &params));
    // A different note changes the nullifier.
    let other = to.create_note(78, &random_scalar_bytes(), &params).unwrap();
    assert_ne!(nf_a, other.nf(&vk, 0, &params));
    // A different viewing key changes the nullifier.
    let master2 = ExtendedSpendingKey::master(&vec![6]);
    let vk2 = master2
        .proof_generation_key(&params)
        .into_viewing_key(&params);
    assert_ne!(nf_a, note.nf(&vk2, 0, &params));
}

#[test]
fn uncommitted_is_one() {
    let one = Note::uncommitted();
    let mut expected = vec![0u8; 32];
    expected[0] = 1;
    assert_eq!(one.as_bytes(), &expected);
}

#[test]
fn value_commitment_is_deterministic_in_its_inputs() {
    let params = SaplingParams::new().expect("params");
    let r = random_scalar_bytes();
    let a = ValueCommitment {
        value: 5,
        randomness: r.clone(),
    };
    let b = ValueCommitment {
        value: 5,
        randomness: r.clone(),
    };
    assert_eq!(a.cm(&params).as_bytes(), b.cm(&params).as_bytes());
    let c = ValueCommitment {
        value: 6,
        randomness: r,
    };
    assert_ne!(a.cm(&params).as_bytes(), c.cm(&params).as_bytes());
}

#[test]
fn byte_parsers_reject_bad_input() {
    // A diversifier must have 11 bytes.
    assert!(Diversifier::from_bytes(&vec![0u8; 10]).is_none());
    assert!(Diversifier::from_bytes(&vec![0u8; 11]).is_some());
    // A scalar must be canonical: the all-ones string is over the order.
    assert!(ScalarBytes::from_bytes(&vec![0xffu8; 32]).is_none());
    assert!(ScalarBytes::from_bytes(&vec![0u8; 32]).is_some());
    // A field element must be canonical too.
    assert!(FrBytes::from_bytes(&vec![0xffu8; 32]).is_none());
    assert!(FrBytes::from_bytes(&vec![0u8; 31]).is_none());
    // A point encoding must decode and be torsion free.
    assert!(PointBytes::from_bytes(&vec![0xffu8; 32]).is_none());
}
