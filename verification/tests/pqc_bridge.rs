use pqc_crosschain::pqc_bridge::{
    init_pqc_state, pqc_verify, verify_pqc_transfer, InitPqcState, PqcError, PqcState, VerifyPqcTransfer,
};
use pqc_crosschain::keygen::PqcKeypairs;
use pqcrypto::traits::sign::{DetachedSignature, PublicKey};
use sha2::Digest;

const TOKEN_2022: [u8; 32] = [6u8; 32];

fn state(nonce: [u8; 32], authority: [u8; 32]) -> PqcState {
    let mut ctx = InitPqcState { state: PqcState::zeroed(), authority };
    init_pqc_state(&mut ctx, nonce).unwrap();
    ctx.state
}

#[test]
fn init_stores_nonce_and_authority() {
    let s = state([4u8; 32], [9u8; 32]);
    assert_eq!(s.nonce(), [4u8; 32]);
    assert_eq!(s.authority(), [9u8; 32]);
    let z = PqcState::zeroed();
    assert_eq!(z.nonce(), [0u8; 32]);
}

#[test]
fn transfer_checks_in_order() {
    let ct = [0u8; 768];
    let sig = [0u8; 2420];
    let mut wrong_sender = VerifyPqcTransfer { state: state([1; 32], [2; 32]), sender: [3; 32], token_program: [0; 32], mint: None };
    assert_eq!(verify_pqc_transfer(&mut wrong_sender, ct, sig, &[], TOKEN_2022), Err(PqcError::AuthorityMismatch));
    let mut wrong_program = VerifyPqcTransfer { state: state([1; 32], [2; 32]), sender: [2; 32], token_program: [0; 32], mint: None };
    assert_eq!(verify_pqc_transfer(&mut wrong_program, ct, sig, &[], TOKEN_2022), Err(PqcError::InvalidTokenProgram));
    let mut no_mint = VerifyPqcTransfer { state: state([1; 32], [2; 32]), sender: [2; 32], token_program: TOKEN_2022, mint: None };
    assert_eq!(verify_pqc_transfer(&mut no_mint, ct, sig, &[], TOKEN_2022), Err(PqcError::MissingMint));
    let mut bad_sig = VerifyPqcTransfer { state: state([1; 32], [2; 32]), sender: [2; 32], token_program: TOKEN_2022, mint: Some([5; 32]) };
    assert_eq!(verify_pqc_transfer(&mut bad_sig, ct, sig, &[0u8; 1312], TOKEN_2022), Err(PqcError::PqcVerificationFailed));
}

#[test]
fn error_numbers() {
    assert_eq!(PqcError::AuthorityMismatch.number(), 1);
    assert_eq!(PqcError::InvalidTokenProgram.number(), 2);
    assert_eq!(PqcError::MissingMint.number(), 3);
    assert_eq!(PqcError::PqcVerificationFailed.number(), 4);
    assert_eq!(PqcError::NonceConsumed.number(), 5);
}

fn transfer_digest(nonce: &[u8; 32], ct: &[u8; 768]) -> [u8; 32] {
    let mut msg = nonce.to_vec();
    msg.extend_from_slice(ct);
    sha2::Sha256::digest(&msg).into()
}

#[test]
fn signature_check_refuses_forgeries() {
    let (pk, _sk) = pqcrypto::sign::dilithium2::keypair();
    assert_eq!(pqc_verify(&[1u8; 32], &[2u8; 768], &[3u8; 2420], pk.as_bytes()), Ok(false));
    assert_eq!(pqc_verify(&[1u8; 32], &[2u8; 768], &[3u8; 2420], &[0u8; 5]), Ok(false));
}

#[test]
fn signature_check_uses_the_nonce_bound_digest() {
    let (pk, sk) = pqcrypto::sign::dilithium2::keypair();
    let nonce = [1u8; 32];
    let ct = [2u8; 768];
    let digest = transfer_digest(&nonce, &ct);
    let sig = pqcrypto::sign::dilithium2::detached_sign(&digest, &sk);
    let mut sig_arr = [0u8; 2420];
    sig_arr.copy_from_slice(sig.as_bytes());
    assert_eq!(pqc_verify(&nonce, &ct, &sig_arr, pk.as_bytes()), Ok(true));
    // a signature over the nonce alone, or under another nonce, is refused
    let other = pqcrypto::sign::dilithium2::detached_sign(&nonce, &sk);
    let mut other_arr = [0u8; 2420];
    other_arr.copy_from_slice(other.as_bytes());
    assert_eq!(pqc_verify(&nonce, &ct, &other_arr, pk.as_bytes()), Ok(false));
    assert_eq!(pqc_verify(&[9u8; 32], &ct, &sig_arr, pk.as_bytes()), Ok(false));
}

#[test]
fn signed_transfer_is_accepted_end_to_end() {
    let keys = PqcKeypairs::generate().unwrap();
    let nonce = [7u8; 32];
    let (ct, _session) = keys.encaps_session(b"bridge-transfer");
    let digest = transfer_digest(&nonce, &ct);
    let sig = keys.sign_transfer(&digest);
    assert_eq!(sig.len(), 2420);
    let mut sig_arr = [0u8; 2420];
    sig_arr.copy_from_slice(&sig);
    assert_eq!(pqc_verify(&nonce, &ct, &sig_arr, &keys.dilithium_pk), Ok(true));
    let mut ctx = VerifyPqcTransfer { state: state(nonce, [2; 32]), sender: [2; 32], token_program: TOKEN_2022, mint: Some([5; 32]) };
    assert_eq!(verify_pqc_transfer(&mut ctx, ct, sig_arr, &keys.dilithium_pk, TOKEN_2022), Ok(()));
    // the accepted transfer consumed the nonce: the same call is refused now
    assert_eq!(ctx.state.nonce(), [0u8; 32]);
    assert_eq!(ctx.state.authority(), [2; 32]);
    assert_eq!(
        verify_pqc_transfer(&mut ctx, ct, sig_arr, &keys.dilithium_pk, TOKEN_2022),
        Err(PqcError::NonceConsumed)
    );
    // the same signature does not carry over to a state with another nonce
    let mut replay = VerifyPqcTransfer { state: state([8u8; 32], [2; 32]), sender: [2; 32], token_program: TOKEN_2022, mint: Some([5; 32]) };
    assert_eq!(
        verify_pqc_transfer(&mut replay, ct, sig_arr, &keys.dilithium_pk, TOKEN_2022),
        Err(PqcError::PqcVerificationFailed)
    );
}

#[test]
fn refused_transfer_keeps_the_nonce() {
    let mut ctx = VerifyPqcTransfer { state: state([3u8; 32], [2; 32]), sender: [2; 32], token_program: TOKEN_2022, mint: Some([5; 32]) };
    assert_eq!(
        verify_pqc_transfer(&mut ctx, [0u8; 768], [0u8; 2420], &[0u8; 1312], TOKEN_2022),
        Err(PqcError::PqcVerificationFailed)
    );
    assert_eq!(ctx.state.nonce(), [3u8; 32]);
    let mut consumed = VerifyPqcTransfer { state: state([0u8; 32], [2; 32]), sender: [2; 32], token_program: TOKEN_2022, mint: Some([5; 32]) };
    assert_eq!(
        verify_pqc_transfer(&mut consumed, [0u8; 768], [0u8; 2420], &[0u8; 1312], TOKEN_2022),
        Err(PqcError::NonceConsumed)
    );
}
