use ff::{FromUniformBytes, PrimeField};
use pqc_crosschain::relayer::LockEvent;
use pqc_crosschain::zk_batch::{
    ada_claim_payload, dkg_setup_from_seed, generate_dkg_setup, DkgError, PQCBatchCircuit, ProvingKey,
};

#[test]
fn setup_needs_a_participant() {
    assert!(matches!(generate_dkg_setup(&[]), Err(DkgError::NoParticipants)));
}

#[test]
fn setup_records_its_secret_in_the_layout() {
    let pk = generate_dkg_setup(&["alice".to_string(), "bob".to_string()]).unwrap();
    let config = pk.config();
    assert_eq!(config.commits(), 0);
    assert_eq!(config.merkle_roots(), 0);
    assert_eq!(config.validity_windows(), 0);
    assert_eq!(config.dkg_tau(), Some(pk.tau()));
    let other = generate_dkg_setup(&["carol".to_string()]).unwrap();
    assert_ne!(other.tau(), pk.tau());
}

#[test]
fn layout_without_witnesses() {
    let circuit = PQCBatchCircuit { commits: vec![[1u8; 32]], merkle_roots: vec![], validity_windows: vec![3] };
    let config = circuit.without_witnesses();
    assert_eq!(config.commits(), 0);
    assert_eq!(config.dkg_tau(), None);
}

#[test]
fn key_from_a_given_secret() {
    let pk = ProvingKey::from_tau([5u8; 32]);
    assert_eq!(pk.tau(), [5u8; 32]);
    assert_eq!(pk.config().dkg_tau(), Some([5u8; 32]));
    assert_eq!(pk.config().validity_windows(), 0);
}

#[test]
fn ada_claim_carries_the_event_with_base64_ciphertext() {
    let event = LockEvent {
        tx_signature: "5xYz".to_string(),
        ct: vec![0xfbu8, 0xff, 0x00, 0x41],
        lock_height: 77,
        target_chain: "ada".to_string(),
    };
    let p = ada_claim_payload(&event);
    assert_eq!(p.tx_signature, "5xYz");
    assert_eq!(p.ciphertext, "+/8AQQ==");
    assert_eq!(p.lock_height, 77);
    assert_eq!(p.target_chain, "ada");
    let long = LockEvent { ct: vec![7u8; 768], ..event };
    let q = ada_claim_payload(&long);
    assert_eq!(q.ciphertext.len(), 1024);
    assert_eq!(q.ciphertext, base64::Engine::encode(&base64::engine::general_purpose::STANDARD, vec![7u8; 768]));
}

#[test]
fn setup_secret_is_the_seed_reduced_to_a_scalar() {
    let participants = vec!["alice".to_string()];
    let mut seed = [0u8; 64];
    seed[0] = 7;
    let pk = dkg_setup_from_seed(&participants, &seed).unwrap();
    // a small integer is its own canonical encoding
    let mut want = [0u8; 32];
    want[0] = 7;
    assert_eq!(pk.tau(), want);
    assert_eq!(pk.config().dkg_tau(), Some(want));
    // 2^256 is reduced modulo the field order
    let mut big = [0u8; 64];
    big[32] = 1;
    let reduced = dkg_setup_from_seed(&participants, &big).unwrap().tau();
    assert_eq!(reduced, halo2curves::bn256::Fr::from_uniform_bytes(&big).to_repr());
    assert_ne!(reduced[..], big[..32]);
    assert!(matches!(dkg_setup_from_seed(&[], &seed), Err(DkgError::NoParticipants)));
}
