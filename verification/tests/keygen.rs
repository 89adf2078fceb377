use hmac::Mac;
use pqc_crosschain::keygen::{
    bytes32_eq, bytes_to_array, hkdf_sha256, wots_plus_hash_chain, wots_plus_sign, wots_plus_verify,
    PqcKeypairs, WotsPlusKeyPair, LAMPORT_PK_LABEL, LAMPORT_SK_LABEL, WOTS_K, WOTS_W,
};
use pqcrypto::traits::sign::{DetachedSignature, PublicKey};
use sha2::Digest;

fn sha(data: &[u8]) -> [u8; 32] {
    sha2::Sha256::digest(data).into()
}

fn chain(x: &[u8], n: usize) -> Vec<u8> {
    let mut cur = x.to_vec();
    for _ in 0..n {
        cur = sha(&cur).to_vec();
    }
    cur
}

#[test]
fn hash_chain_is_sixteen_sha256_rounds() {
    let seed = [42u8; 32];
    assert_eq!(wots_plus_hash_chain(&seed).to_vec(), chain(&seed, 16));
    assert_eq!(WOTS_W, 16);
    assert_eq!(WOTS_K, 4);
}

#[test]
fn key_pair_from_secret() {
    let kp = WotsPlusKeyPair::from_secret([3u8; 32]);
    assert_eq!(kp.pk.to_vec(), chain(&[3u8; 32], 16));
}

#[test]
fn generated_key_pairs_differ() {
    let a = WotsPlusKeyPair::generate().unwrap();
    let b = WotsPlusKeyPair::generate().unwrap();
    assert_ne!(a.pk, b.pk);
}

#[test]
fn sign_layout_follows_digest_chunks() {
    let sk = [5u8; 32];
    let mut h = [0u8; 32];
    h[0] = 1;
    h[1] = 2; // chunk 0: 3 steps
    h[2] = 200;
    h[3] = 100; // chunk 1: 300, which a u8 sum wraps to 44 steps
    h[4] = 8;
    h[5] = 8; // chunk 2: 16 steps, the whole chain
    h[6] = 8;
    h[7] = 7; // chunk 3: 15 steps
    let sig = wots_plus_sign(&sk, &h);
    assert_eq!(sig.len(), 512);
    assert_eq!(&sig[0..32], &chain(&sk, 3)[..]);
    assert_eq!(&sig[32..64], &chain(&sk, 44)[..]);
    assert_eq!(&sig[64..96], &chain(&sk, 16)[..]);
    assert_eq!(&sig[64..96], &wots_plus_hash_chain(&sk)[..]);
    assert_eq!(&sig[96..128], &chain(&sk, 15)[..]);
    for k in 4..16 {
        assert_eq!(&sig[32 * k..32 * k + 32], &sk[..]);
    }
}

/// A digest whose chunk sums are 0, 1, ..., 15 (each at most 16).
fn fitting_digest() -> [u8; 32] {
    let mut h = [0u8; 32];
    for k in 0..16 {
        h[2 * k] = (k / 2) as u8;
        h[2 * k + 1] = (k - k / 2) as u8;
    }
    h
}

#[test]
fn honest_signature_reconstructs_the_public_key() {
    let sk = [11u8; 32];
    for h in [[0u8; 32], [8u8; 32], fitting_digest()] {
        let sig = wots_plus_sign(&sk, &h);
        // every block completed to the end of its chain is the public key
        for k in 0..16 {
            let steps = h[2 * k] as usize + h[2 * k + 1] as usize;
            assert_eq!(chain(&sig[32 * k..32 * k + 32], 16 - steps), wots_plus_hash_chain(&sk).to_vec());
        }
        assert_eq!(wots_plus_verify(&sig, &h), wots_plus_hash_chain(&sk));
    }
}

#[test]
fn overshooting_chains_do_not_give_the_key() {
    // a chunk of 17 steps runs past the public key, and verification adds none
    let sk = [11u8; 32];
    let mut h = [0u8; 32];
    h[0] = 9;
    h[1] = 8;
    let sig = wots_plus_sign(&sk, &h);
    assert_eq!(&sig[0..32], &chain(&sk, 17)[..]);
    assert_eq!(wots_plus_verify(&sig, &h), [0u8; 32]);
}

#[test]
fn malformed_signatures_give_the_zero_key() {
    let h = fitting_digest();
    // no block: the zero key
    assert_eq!(wots_plus_verify(&[], &h), [0u8; 32]);
    assert_eq!(wots_plus_verify(&[], &[0u8; 32]), [0u8; 32]);
    // a single block is completed on its own
    assert_eq!(wots_plus_verify(&[9u8; 32], &h).to_vec(), chain(&[9u8; 32], 16));
    // sixteen equal blocks whose chains end at different points
    assert_eq!(wots_plus_verify(&[0u8; 512], &h), [0u8; 32]);
    // one changed block breaks an honest signature
    let mut sig = wots_plus_sign(&[1u8; 32], &h);
    sig[100] ^= 0x80;
    assert_eq!(wots_plus_verify(&sig, &h), [0u8; 32]);
    // blocks past the sixteenth are not read
    let mut long = wots_plus_sign(&[1u8; 32], &h);
    long.extend_from_slice(&[7u8; 40]);
    assert_eq!(wots_plus_verify(&long, &h), wots_plus_hash_chain(&[1u8; 32]));
    // a short last block whose chain needs no step is no 32-byte key
    let mut full = [0u8; 32];
    full[2] = 8;
    full[3] = 8; // chunk 1 takes the whole chain
    let mut short = wots_plus_sign(&[1u8; 32], &full)[..32].to_vec();
    short.extend_from_slice(&[1u8; 8]);
    assert_eq!(wots_plus_verify(&short, &full), [0u8; 32]);
    // for a digest whose chunks all take no step, equal blocks agree on their end
    assert_eq!(wots_plus_verify(&[3u8; 512], &[0u8; 32]).to_vec(), chain(&[3u8; 32], 16));
}

#[test]
fn key_pair_verify_compares_the_computed_key() {
    let kp = WotsPlusKeyPair::from_secret([1u8; 32]);
    let msg = b"transfer 10 SOL";
    let sig = kp.sign(msg);
    assert_eq!(sig, wots_plus_sign(&[1u8; 32], &sha(msg)));
    assert_eq!(kp.verify(msg, &sig), wots_plus_verify(&sig, &sha(msg)) == kp.pk);
    // a digest whose chunk sums all fit in the chain verifies under the key
    let h = fitting_digest();
    assert_eq!(wots_plus_verify(&wots_plus_sign(&[1u8; 32], &h), &h), kp.pk);
    let other = WotsPlusKeyPair::from_secret([2u8; 32]);
    assert_ne!(wots_plus_verify(&wots_plus_sign(&[1u8; 32], &h), &h), other.pk);
    assert!(!kp.verify(msg, &[]));
}

#[test]
fn hkdf_follows_rfc5869() {
    // RFC 5869, test case 3: 22 bytes of 0x0b, empty salt, empty info
    let mut out = [0u8; 32];
    hkdf_sha256(&[0x0bu8; 22], &[], &mut out);
    let want: [u8; 32] = [
        0x8d, 0xa4, 0xe7, 0x75, 0xa5, 0x63, 0xc1, 0x8f, 0x71, 0x5f, 0x80, 0x2a, 0x06, 0x3c, 0x5a, 0x31,
        0xb8, 0xa1, 0x1f, 0x5c, 0x5e, 0xe1, 0x87, 0x9e, 0xc3, 0x45, 0x4e, 0x5f, 0x3c, 0x73, 0x8d, 0x2d,
    ];
    assert_eq!(out, want);
}

#[test]
fn hkdf_is_extract_then_expand() {
    let mut out = [0u8; 32];
    hkdf_sha256(b"input key", b"context", &mut out);
    let mut extract = hmac::Hmac::<sha2::Sha256>::new_from_slice(&[0u8; 32]).unwrap();
    extract.update(b"input key");
    let prk: [u8; 32] = extract.finalize().into_bytes().into();
    let mut expand = hmac::Hmac::<sha2::Sha256>::new_from_slice(&prk).unwrap();
    expand.update(b"context\x01");
    let want: [u8; 32] = expand.finalize().into_bytes().into();
    assert_eq!(out, want);
    // a plain HMAC of the context under the input key is something else
    let mut plain = hmac::Hmac::<sha2::Sha256>::new_from_slice(b"input key").unwrap();
    plain.update(b"context");
    let plain: [u8; 32] = plain.finalize().into_bytes().into();
    assert_ne!(out, plain);
}

#[test]
fn lamport_labels() {
    assert_eq!(&LAMPORT_SK_LABEL, b"PQC_LAMPORT_SK");
    assert_eq!(&LAMPORT_PK_LABEL, b"PQC_LAMPORT_PK");
}

#[test]
fn byte_helpers() {
    let a: [u8; 4] = bytes_to_array(&[1, 2, 3, 4]);
    assert_eq!(a, [1, 2, 3, 4]);
    assert!(bytes32_eq(&[7u8; 32], &[7u8; 32]));
    let mut b = [7u8; 32];
    b[31] = 8;
    assert!(!bytes32_eq(&[7u8; 32], &b));
}

#[test]
fn generated_key_sizes() {
    let keys = PqcKeypairs::generate().unwrap();
    assert_eq!(keys.kyber_pk.len(), 800);
    assert_eq!(keys.dilithium_pk.len(), 1312);
}

#[test]
fn session_encapsulation() {
    let keys = PqcKeypairs::generate().unwrap();
    let (ct1, k1) = keys.encaps_session(b"ctx");
    let (ct2, k2) = keys.encaps_session(b"ctx");
    assert_eq!(ct1.len(), 768);
    assert_ne!(ct1, ct2);
    assert_ne!(k1, k2);
}

#[test]
fn transfer_signature_verifies_with_dilithium2() {
    let keys = PqcKeypairs::generate().unwrap();
    let payload = b"lock 5 BTC";
    let sig = keys.sign_transfer(payload);
    assert_eq!(sig.len(), 2420);
    assert_eq!(keys.sign_transfer(payload), sig);
    assert_ne!(keys.sign_transfer(b"lock 6 BTC"), sig);
    let pk = pqcrypto::sign::dilithium2::PublicKey::from_bytes(&keys.dilithium_pk).unwrap();
    let sig = pqcrypto::sign::dilithium2::DetachedSignature::from_bytes(&sig).unwrap();
    assert!(pqcrypto::sign::dilithium2::verify_detached_signature(&sig, payload, &pk).is_ok());
    assert!(pqcrypto::sign::dilithium2::verify_detached_signature(&sig, b"other", &pk).is_err());
}

#[test]
fn otp_keys_are_deterministic_and_labelled() {
    let keys = PqcKeypairs::generate().unwrap();
    let (sk0, pk0) = keys.derive_otp_keys(0);
    assert_eq!(keys.derive_otp_keys(0), (sk0, pk0));
    assert_ne!(sk0, pk0);
    let (sk2, _) = keys.derive_otp_keys(2);
    assert_ne!(sk0, sk2);
}

#[test]
fn wots_signing_through_the_key_set() {
    let keys = PqcKeypairs::generate().unwrap();
    let sig = keys.sign_wots_plus(b"msg");
    assert_eq!(sig.len(), 512);
    assert_eq!(keys.sign_wots_plus(b"msg"), sig);
    assert_ne!(keys.sign_wots_plus(b"other"), sig);
    assert!(!keys.verify_wots_plus(b"msg", &[]));
}

#[test]
fn generated_keys_are_paired() {
    let keys = PqcKeypairs::generate().unwrap();
    // the Dilithium public key checks what the set's secret key signs
    let sig = keys.sign_transfer(b"pairing");
    let pk = pqcrypto::sign::dilithium2::PublicKey::from_bytes(&keys.dilithium_pk).unwrap();
    let sig = pqcrypto::sign::dilithium2::DetachedSignature::from_bytes(&sig).unwrap();
    assert!(pqcrypto::sign::dilithium2::verify_detached_signature(&sig, b"pairing", &pk).is_ok());
}

#[test]
fn zeroize_wipes_one_time_secrets() {
    let mut keys = PqcKeypairs::generate().unwrap();
    let kyber_pk = keys.kyber_pk.clone();
    let dilithium_pk = keys.dilithium_pk.clone();
    keys.zeroize();
    assert_eq!(keys.kyber_pk, kyber_pk);
    assert_eq!(keys.dilithium_pk, dilithium_pk);
    let once = keys.sign_wots_plus(b"m");
    keys.zeroize();
    assert_eq!(keys.sign_wots_plus(b"m"), once);
    // the one-time secret is now all zeros
    assert_eq!(keys.sign_wots_plus(b"m"), wots_plus_sign(&[0u8; 32], &sha(b"m")));
    let (sk, pk) = keys.derive_otp_keys(1);
    let mut want_sk = [0u8; 32];
    hkdf_sha256(&[0u8; 32], b"PQC_LAMPORT_SK", &mut want_sk);
    let mut want_pk = [0u8; 32];
    hkdf_sha256(&[0u8; 32], b"PQC_LAMPORT_PK", &mut want_pk);
    assert_eq!((sk, pk), (want_sk, want_pk));
}
