use pqc_crosschain::keygen::wots_plus_sign;
use pqc_crosschain::mixer::{verify_wots_signature, PqcMixer};

#[test]
fn test_mixer_deposit_and_mix() {
    let mut mixer = PqcMixer::new();
    let (ct, ss) = mixer.deposit("SOL", 100).unwrap();

    assert_eq!(ct.len(), 768);
    assert_eq!(ss.len(), 32);

    let mixed = mixer.mix("SOL", &ct, &ss);
    assert!(mixed.is_some());
}

#[test]
fn mix_of_unknown_mint_is_none() {
    let mut mixer = PqcMixer::new();
    let (ct, ss) = mixer.deposit("SOL", 100).unwrap();
    assert!(mixer.mix("USDC", &ct, &ss).is_none());
    let empty = PqcMixer::new();
    assert!(empty.mix("SOL", &ct, &ss).is_none());
}

#[test]
fn mix_returns_a_fresh_kyber_ciphertext() {
    let mut mixer = PqcMixer::new();
    let (ct, ss) = mixer.deposit("SOL", 5).unwrap();
    let mixed = mixer.mix("SOL", &ct, &ss).unwrap();
    assert_eq!(mixed.len(), 768);
    assert_ne!(mixed, vec![0u8; 768]);
    assert_ne!(&mixed[..], &ct[..]);
}

#[test]
fn withdraw_after_deposit() {
    let mut mixer = PqcMixer::new();
    let nonce = [4u8; 32];
    mixer.record_deposit("SOL", vec![7u8; 800], 100, nonce);
    let sig = wots_plus_sign(&[11u8; 32], &nonce);
    assert!(mixer.withdraw("SOL", 100, &sig));
    assert!(mixer.withdraw("SOL", 1, &sig));
    assert!(!mixer.withdraw("SOL", 101, &sig));
    // no signature, or a malformed one, is refused
    assert!(!mixer.withdraw("SOL", 100, &[]));
    assert!(!mixer.withdraw("SOL", 1, &[1, 2, 3]));
    let nonce2 = [5u8; 32];
    mixer.record_deposit("SOL", vec![8u8; 800], 500, nonce2);
    let sig2 = wots_plus_sign(&[12u8; 32], &nonce2);
    assert!(mixer.withdraw("SOL", 101, &sig2));
    assert!(!mixer.withdraw("SOL", 501, &sig2));
}

#[test]
fn deposits_are_kept_per_mint() {
    let mut mixer = PqcMixer::new();
    mixer.record_deposit("SOL", vec![7u8; 800], 10, [1u8; 32]);
    mixer.record_deposit("ETH", vec![8u8; 800], 1000, [2u8; 32]);
    let eth_sig = wots_plus_sign(&[3u8; 32], &[2u8; 32]);
    let sol_sig = wots_plus_sign(&[3u8; 32], &[1u8; 32]);
    assert!(mixer.withdraw("ETH", 1000, &eth_sig));
    assert!(!mixer.withdraw("SOL", 11, &sol_sig));
    mixer.record_deposit("SOL", vec![9u8; 800], 20, [3u8; 32]);
    let sol_sig2 = wots_plus_sign(&[3u8; 32], &[3u8; 32]);
    assert!(mixer.withdraw("SOL", 20, &sol_sig2));
    assert!(!mixer.withdraw("ETH", 1001, &eth_sig));
}

#[test]
fn zero_amount_withdrawal_from_a_pool() {
    let mut mixer = PqcMixer::new();
    mixer.record_deposit("SOL", vec![], 0, [0u8; 32]);
    let sig = wots_plus_sign(&[1u8; 32], &[0u8; 32]);
    assert!(mixer.withdraw("SOL", 0, &sig));
    assert!(!mixer.withdraw("SOL", 1, &sig));
}

#[test]
fn wots_signature_check_against_the_nonce() {
    assert!(!verify_wots_signature([0u8; 32], &[]));
    assert!(!verify_wots_signature([9u8; 32], &[1, 2, 3]));
    let mut nonce = [0u8; 32];
    for (i, b) in nonce.iter_mut().enumerate() {
        *b = (i % 8) as u8;
    }
    // sixteen equal blocks end their chains at different points for this nonce
    assert!(!verify_wots_signature(nonce, &[0u8; 512]));
    let sig = wots_plus_sign(&[42u8; 32], &nonce);
    assert_eq!(sig.len(), 512);
    assert!(verify_wots_signature(nonce, &sig));
    let mut tampered = sig.clone();
    tampered[0] ^= 1;
    assert!(!verify_wots_signature(nonce, &tampered));
}
