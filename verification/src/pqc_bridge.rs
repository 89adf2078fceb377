//! The on-chain bridge program's logic: state initialisation and the
//! post-quantum check of a transfer (authority, token program, mint and a
//! Dilithium2 signature over the nonce-bound Kyber ciphertext), whose nonce
//! an accepted transfer consumes.

use vstd::prelude::*;
use crate::keygen::bytes32_eq;
use crate::primitives::{dilithium2_accepts, dilithium2_verify, sha256, sha256_spec};

verus! {

/// The bridge's program state: the replay nonce, the authority allowed to
/// transfer, and reserved space.
pub struct PqcState {
    pub nonce: [u8; 32],
    pub authority: [u8; 32],
    _padding: [u64; 15],
}

impl PqcState {
    const BUMP: u8 = 0;

    /// The replay nonce.
    pub closed spec fn nonce_view(&self) -> [u8; 32] {
        self.nonce
    }

    /// The authority's public key.
    pub closed spec fn authority_view(&self) -> [u8; 32] {
        self.authority
    }

    /// The reserved words of the state.
    pub closed spec fn padding_view(&self) -> [u64; 15] {
        self._padding
    }

    /// A freshly created, all-zero state account.
    pub fn zeroed() -> (s: Self)
        ensures
            s.nonce_view()@ == Seq::new(32, |i: int| 0u8),
            s.authority_view()@ == Seq::new(32, |i: int| 0u8),
    {
        let s = PqcState { nonce: [0u8; 32], authority: [0u8; 32], _padding: [0u64; 15] };
        assert(s.nonce@ =~= Seq::new(32, |i: int| 0u8));
        assert(s.authority@ =~= Seq::new(32, |i: int| 0u8));
        s
    }

    /// The replay nonce.
    pub fn nonce(&self) -> (res: [u8; 32])
        ensures
            res == self.nonce_view(),
    {
        self.nonce
    }

    /// The authority's public key.
    pub fn authority(&self) -> (res: [u8; 32])
        ensures
            res == self.authority_view(),
    {
        self.authority
    }
}

/// Why the bridge program refused an instruction.
#[derive(Debug, Clone, Copy, PartialEq, Eq)]
pub enum PqcError {
    AuthorityMismatch,
    InvalidTokenProgram,
    MissingMint,
    PqcVerificationFailed,
    NonceConsumed,
}

impl PqcError {
    /// The program's number for this error.
    pub fn number(&self) -> (n: u32)
        ensures
            n == match self {
                PqcError::AuthorityMismatch => 1u32,
                PqcError::InvalidTokenProgram => 2u32,
                PqcError::MissingMint => 3u32,
                PqcError::PqcVerificationFailed => 4u32,
                PqcError::NonceConsumed => 5u32,
            },
    {
        match self {
            PqcError::AuthorityMismatch => 1,
            PqcError::InvalidTokenProgram => 2,
            PqcError::MissingMint => 3,
            PqcError::PqcVerificationFailed => 4,
            PqcError::NonceConsumed => 5,
        }
    }
}

/// The accounts of the initialisation instruction: the state account being
/// created and the authority that pays for it.
pub struct InitPqcState {
    pub state: PqcState,
    pub authority: [u8; 32],
}

/// The accounts of the transfer instruction: the program state, the signing
/// sender, the token program and the optional mint.
pub struct VerifyPqcTransfer {
    pub state: PqcState,
    pub sender: [u8; 32],
    pub token_program: [u8; 32],
    pub mint: Option<[u8; 32]>,
}

/// Stores `nonce` and the paying authority in the state account.
pub fn init_pqc_state(ctx: &mut InitPqcState, nonce: [u8; 32]) -> (res: Result<(), PqcError>)
    ensures
        res is Ok,
        final(ctx).state.nonce_view() == nonce,
        final(ctx).state.authority_view() == old(ctx).authority,
        final(ctx).state.padding_view() == old(ctx).state.padding_view(),
        final(ctx).authority == old(ctx).authority,
{
    ctx.state.nonce = nonce;
    ctx.state.authority = ctx.authority;
    Ok(())
}

/// The message a transfer signature covers: the state nonce followed by the
/// Kyber-512 ciphertext (800 bytes in all), hashed with SHA-256.
pub open spec fn transfer_digest(nonce: Seq<u8>, ciphertext: Seq<u8>) -> Seq<u8> {
    sha256_spec(nonce + ciphertext)@
}

/// Whether `signature` is a valid Dilithium2 signature under `public_key` of
/// the digest of `nonce` and `ciphertext`.
pub fn pqc_verify(
    nonce: &[u8; 32],
    ciphertext: &[u8; 768],
    signature: &[u8; 2420],
    public_key: &[u8],
) -> (res: Result<bool, PqcError>)
    ensures
        res == Ok::<bool, PqcError>(dilithium2_accepts(signature@, transfer_digest(nonce@, ciphertext@), public_key@)),
{
    let mut msg_buf: [u8; 800] = [0u8; 800];
    for i in 0..32usize
        invariant
            forall|j: int| 0 <= j < i ==> #[trigger] msg_buf@[j] == nonce@[j],
    {
        msg_buf[i] = nonce[i];
    }
    for i in 0..768usize
        invariant
            forall|j: int| 0 <= j < 32 ==> #[trigger] msg_buf@[j] == nonce@[j],
            forall|j: int| 32 <= j < 32 + i ==> #[trigger] msg_buf@[j] == ciphertext@[j - 32],
    {
        msg_buf[32 + i] = ciphertext[i];
    }
    assert(msg_buf@ =~= nonce@ + ciphertext@);
    let msg_hash = sha256(msg_buf.as_slice());
    Ok(dilithium2_verify(signature.as_slice(), msg_hash.as_slice(), public_key))
}

/// Whether the state's nonce has been used up by an accepted transfer: a
/// consumed nonce is all zeros.
pub open spec fn nonce_consumed(state: PqcState) -> bool {
    state.nonce_view()@ == Seq::new(32, |i: int| 0u8)
}

/// The answer to a transfer of `ciphertext` signed with `signature` under
/// `dilithium_pk`, checked against the accounts `ctx` with the expected
/// token program `program`: the first failing check decides the error.
pub open spec fn transfer_check(
    ctx: VerifyPqcTransfer,
    ciphertext: Seq<u8>,
    signature: Seq<u8>,
    dilithium_pk: Seq<u8>,
    program: Seq<u8>,
) -> Result<(), PqcError> {
    if ctx.sender@ != ctx.state.authority_view()@ {
        Err(PqcError::AuthorityMismatch)
    } else if ctx.token_program@ != program {
        Err(PqcError::InvalidTokenProgram)
    } else if ctx.mint is None {
        Err(PqcError::MissingMint)
    } else if nonce_consumed(ctx.state) {
        Err(PqcError::NonceConsumed)
    } else if dilithium2_accepts(signature, transfer_digest(ctx.state.nonce_view()@, ciphertext), dilithium_pk) {
        Ok(())
    } else {
        Err(PqcError::PqcVerificationFailed)
    }
}

/// `after` is `before` once a transfer went through: the state's nonce is
/// consumed, and the authority, the reserved words and the other accounts
/// are kept.
pub open spec fn transferred(after: VerifyPqcTransfer, before: VerifyPqcTransfer) -> bool {
    &&& nonce_consumed(after.state)
    &&& after.state.authority_view() == before.state.authority_view()
    &&& after.state.padding_view() == before.state.padding_view()
    &&& after.sender == before.sender
    &&& after.token_program == before.token_program
    &&& after.mint == before.mint
}

/// Checks a post-quantum transfer: the sender must be the state's authority,
/// the token program must be `token_2022_program`, a mint must be given, the
/// state's nonce must not be consumed yet, and the signature must verify
/// under `dilithium_pk`; the first failing check decides the error. An
/// accepted transfer consumes the nonce; a refused one changes nothing.
pub fn verify_pqc_transfer(
    ctx: &mut VerifyPqcTransfer,
    ciphertext: [u8; 768],
    signature: [u8; 2420],
    dilithium_pk: &[u8],
    token_2022_program: [u8; 32],
) -> (res: Result<(), PqcError>)
    ensures
        res == transfer_check(*old(ctx), ciphertext@, signature@, dilithium_pk@, token_2022_program@),
        res is Ok ==> transferred(*final(ctx), *old(ctx)),
        res is Err ==> *final(ctx) == *old(ctx),
{
    if !bytes32_eq(&ctx.sender, &ctx.state.authority) {
        assert(ctx.sender@ != ctx.state.authority@);
        return Err(PqcError::AuthorityMismatch);
    }
    if !bytes32_eq(&ctx.token_program, &token_2022_program) {
        assert(ctx.token_program@ != token_2022_program@);
        return Err(PqcError::InvalidTokenProgram);
    }
    if ctx.mint.is_none() {
        return Err(PqcError::MissingMint);
    }
    let zero: [u8; 32] = [0u8; 32];
    assert(zero@ =~= Seq::new(32, |i: int| 0u8));
    if bytes32_eq(&ctx.state.nonce, &zero) {
        return Err(PqcError::NonceConsumed);
    }
    let verified = match pqc_verify(&ctx.state.nonce, &ciphertext, &signature, dilithium_pk) {
        Ok(v) => v,
        Err(e) => return Err(e),
    };
    if !verified {
        return Err(PqcError::PqcVerificationFailed);
    }
    ctx.state.nonce = zero;
    Ok(())
}

/// No replay: once a transfer is accepted, the very same transfer (same
/// accounts, ciphertext, signature, key and token program) against the
/// resulting state is refused, because its nonce is consumed.
pub proof fn lemma_no_replay(
    before: VerifyPqcTransfer,
    after: VerifyPqcTransfer,
    ciphertext: Seq<u8>,
    signature: Seq<u8>,
    dilithium_pk: Seq<u8>,
    program: Seq<u8>,
)
    requires
        transfer_check(before, ciphertext, signature, dilithium_pk, program) is Ok,
        transferred(after, before),
    ensures
        transfer_check(after, ciphertext, signature, dilithium_pk, program) == Err::<(), PqcError>(PqcError::NonceConsumed),
{
}

/// What the transfer check answers, in terms of the accounts and inputs
/// themselves: a sender other than the authority is refused first; then a
/// token program that differs from the expected one in any byte; then a
/// missing mint; then an all-zero (consumed) nonce; and otherwise the
/// transfer is accepted exactly when the Dilithium2 signature verifies on
/// the SHA-256 digest of the nonce followed by the ciphertext.
pub proof fn lemma_transfer_decisions(
    ctx: VerifyPqcTransfer,
    ciphertext: Seq<u8>,
    signature: Seq<u8>,
    dilithium_pk: Seq<u8>,
    program: Seq<u8>,
)
    ensures
        ctx.sender@ != ctx.state.authority_view()@ ==> transfer_check(ctx, ciphertext, signature, dilithium_pk, program)
            == Err::<(), PqcError>(PqcError::AuthorityMismatch),
        ctx.sender@ == ctx.state.authority_view()@ && (exists|i: int|
            0 <= i < 32 && #[trigger] ctx.token_program@[i] != program[i]) ==> transfer_check(
            ctx,
            ciphertext,
            signature,
            dilithium_pk,
            program,
        ) == Err::<(), PqcError>(PqcError::InvalidTokenProgram),
        ctx.sender@ == ctx.state.authority_view()@ && ctx.token_program@ == program && ctx.mint is None
            ==> transfer_check(ctx, ciphertext, signature, dilithium_pk, program) == Err::<(), PqcError>(
            PqcError::MissingMint,
        ),
        ctx.sender@ == ctx.state.authority_view()@ && ctx.token_program@ == program && ctx.mint is Some
            && (forall|i: int| 0 <= i < 32 ==> #[trigger] ctx.state.nonce_view()@[i] == 0u8) ==> transfer_check(
            ctx,
            ciphertext,
            signature,
            dilithium_pk,
            program,
        ) == Err::<(), PqcError>(PqcError::NonceConsumed),
        ctx.sender@ == ctx.state.authority_view()@ && ctx.token_program@ == program && ctx.mint is Some
            && (exists|i: int| 0 <= i < 32 && #[trigger] ctx.state.nonce_view()@[i] != 0u8) ==> transfer_check(
            ctx,
            ciphertext,
            signature,
            dilithium_pk,
            program,
        ) == (if dilithium2_accepts(signature, sha256_spec(ctx.state.nonce_view()@ + ciphertext)@, dilithium_pk) {
            Ok::<(), PqcError>(())
        } else {
            Err::<(), PqcError>(PqcError::PqcVerificationFailed)
        }),
{
    let zero = Seq::new(32, |i: int| 0u8);
    if forall|i: int| 0 <= i < 32 ==> #[trigger] ctx.state.nonce_view()@[i] == 0u8 {
        assert(ctx.state.nonce_view()@ =~= zero);
    }
    if exists|i: int| 0 <= i < 32 && #[trigger] ctx.state.nonce_view()@[i] != 0u8 {
        let i = choose|i: int| 0 <= i < 32 && #[trigger] ctx.state.nonce_view()@[i] != 0u8;
        assert(ctx.state.nonce_view()@[i] != zero[i]);
    }
    if exists|i: int| 0 <= i < 32 && #[trigger] ctx.token_program@[i] != program[i] {
        let i = choose|i: int| 0 <= i < 32 && #[trigger] ctx.token_program@[i] != program[i];
        assert(ctx.token_program@[i] != program[i]);
    }
}

} // verus!
