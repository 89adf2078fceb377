//! Key material for the bridge client: Kyber-512 and Dilithium2 key pairs,
//! Lamport seeds, and WOTS+-style hash-chain one-time signatures.

use vstd::prelude::*;
use vstd::slice::slice_subrange;
use vstd::slice::slice_to_vec;
use crate::primitives::{
    dilithium2_detached_sign, dilithium2_keypair, hmac_sha256, hmac_sha256_spec, kyber512_encapsulates,
    kyber512_encapsulate, kyber512_keypair, os_random_bytes, sha256, sha256_spec, zeroize_array32,
    secret_bytes_as_slice, secret_bytes_clone, secret_bytes_new, secret_bytes_view, secret_bytes_wipe, SecretBytes,
    dilithium2_public_key_of, dilithium2_signature, dilithium2_well_formed_secret, dilithium2_accepts,
    DILITHIUM2_PK_LEN, KYBER512_SK_PK_OFFSET, DILITHIUM2_SIG_LEN, DILITHIUM2_SK_LEN, KYBER512_PK_LEN,
    KYBER512_SK_LEN,
};

verus! {

/// Winternitz parameter: the length of every full hash chain.
pub const WOTS_W: u8 = 16;

/// Number of hash-chain one-time key pairs held by a [`PqcKeypairs`].
pub const WOTS_K: usize = 4;

/// The operating system's source of randomness failed.
#[derive(Debug, Clone, Copy, PartialEq, Eq)]
pub enum EntropyError {
    CsprngFailure,
}

/// Copies a byte slice of length `N` into an array.
pub fn bytes_to_array<const N: usize>(v: &[u8]) -> (res: [u8; N])
    requires
        v@.len() == N,
    ensures
        res@ == v@,
{
    let mut res: [u8; N] = [0u8; N];
    for i in 0..N
        invariant
            v@.len() == N,
            res@.len() == N,
            forall|j: int| 0 <= j < i ==> #[trigger] res@[j] == v@[j],
    {
        res[i] = v[i];
    }
    assert(res@ =~= v@);
    res
}

/// Byte-wise equality of two 32-byte arrays.
pub fn bytes32_eq(a: &[u8; 32], b: &[u8; 32]) -> (res: bool)
    ensures
        res == (a@ == b@),
{
    for i in 0..32usize
        invariant
            forall|j: int| 0 <= j < i ==> #[trigger] a@[j] == b@[j],
    {
        if a[i] != b[i] {
            return false;
        }
    }
    assert(a@ =~= b@);
    true
}

/// `x` hashed `n` times in a row with SHA-256.
pub open spec fn hash_iter(x: Seq<u8>, n: nat) -> Seq<u8>
    decreases n,
{
    if n == 0 {
        x
    } else {
        sha256_spec(hash_iter(x, (n - 1) as nat))@
    }
}

/// The full hash chain of a secret seed: the WOTS+ public key.
pub fn wots_plus_hash_chain(seed: &[u8; 32]) -> (res: [u8; 32])
    ensures
        res@ == hash_iter(seed@, WOTS_W as nat),
{
    let mut current: [u8; 32] = *seed;
    for i in 0..WOTS_W
        invariant
            current@ == hash_iter(seed@, i as nat),
    {
        current = sha256(&current);
    }
    current
}


/// Number of hash steps the signature chain of the `k`-th two-byte chunk of
/// a digest takes: the chunk's byte sum, added up as a `u8` (a sum above 255
/// wraps around).
pub open spec fn chunk_steps(h: Seq<u8>, k: int) -> nat {
    ((h[2 * k] + h[2 * k + 1]) % 256) as nat
}

/// Number of further hash steps that complete the `k`-th chain to the chain
/// length `WOTS_W`: none once the chunk's own steps reach it.
pub open spec fn chunk_rest(h: Seq<u8>, k: int) -> nat {
    if chunk_steps(h, k) < WOTS_W {
        (WOTS_W - chunk_steps(h, k)) as nat
    } else {
        0
    }
}

/// Whether every chunk of the digest `h` asks for at most `WOTS_W` steps,
/// so that each signature chain stays within the chain of the public key.
pub open spec fn digest_fits_chains(h: Seq<u8>) -> bool {
    forall|k: int| 0 <= k < 16 ==> #[trigger] chunk_steps(h, k) <= WOTS_W
}

/// Step count of the `k`-th digest chunk (see `chunk_steps`).
fn digest_chunk_steps(msg_hash: &[u8; 32], k: usize) -> (steps: u8)
    requires
        k < 16,
    ensures
        steps as nat == chunk_steps(msg_hash@, k as int),
{
    let sum: u16 = msg_hash[2 * k] as u16 + msg_hash[2 * k + 1] as u16;
    (sum % 256) as u8
}

/// The first `n` signature chains of `sk` for digest `h`, concatenated.
pub open spec fn wots_sig_prefix(sk: Seq<u8>, h: Seq<u8>, n: nat) -> Seq<u8>
    decreases n,
{
    if n == 0 {
        Seq::empty()
    } else {
        wots_sig_prefix(sk, h, (n - 1) as nat) + hash_iter(sk, chunk_steps(h, n - 1))
    }
}

/// The one-time signature of digest `h` under secret `sk`: one chain per
/// two-byte chunk of the digest, sixteen chains in all.
pub open spec fn wots_sign_spec(sk: Seq<u8>, h: Seq<u8>) -> Seq<u8> {
    wots_sig_prefix(sk, h, 16)
}

/// Length in bytes of a one-time signature: sixteen 32-byte chain links.
pub const WOTS_SIG_LEN: usize = 512;

/// Signs a 32-byte digest with the hash-chain one-time scheme.
pub fn wots_plus_sign(sk: &[u8; 32], msg_hash: &[u8; 32]) -> (sig: Vec<u8>)
    ensures
        sig@ == wots_sign_spec(sk@, msg_hash@),
{
    let mut sig: Vec<u8> = Vec::with_capacity(64);
    for k in 0..16usize
        invariant
            sig@ == wots_sig_prefix(sk@, msg_hash@, k as nat),
    {
        let mut current: [u8; 32] = *sk;
        let steps: u8 = digest_chunk_steps(msg_hash, k);
        for i in 0..steps
            invariant
                current@ == hash_iter(sk@, i as nat),
        {
            current = sha256(&current);
        }
        let ghost before = sig@;
        sig.extend_from_slice(&current);
        assert(sig@ =~= before + current@);
    }
    sig
}

/// Number of signature blocks the verifier reads from a signature of `len`
/// bytes: one for every 32 bytes started, and at most one per digest chunk.
pub open spec fn sig_block_count(len: nat) -> nat {
    let n = (len + 31) / 32;
    if n < 16 {
        n
    } else {
        16
    }
}

/// The `k`-th block of a signature: its 32 bytes, or what is left of them
/// at the end of the signature.
pub open spec fn sig_block(sig: Seq<u8>, k: int) -> Seq<u8> {
    let end = if 32 * k + 32 <= sig.len() {
        32 * k + 32
    } else {
        sig.len() as int
    };
    sig.subrange(32 * k, end)
}

/// The `k`-th signature block pushed to the end of its chain: hashed as many
/// more times as the `k`-th digest chunk leaves of the `WOTS_W` steps.
pub open spec fn chain_end(sig: Seq<u8>, h: Seq<u8>, k: int) -> Seq<u8> {
    hash_iter(sig_block(sig, k), chunk_rest(h, k))
}

/// The public key that a signature of digest `h` reconstructs: the common
/// end of all its completed chains, when it has at least one block and
/// those ends agree on 32 bytes; otherwise none.
pub open spec fn wots_reconstruct(sig: Seq<u8>, h: Seq<u8>) -> Option<Seq<u8>> {
    let n = sig_block_count(sig.len());
    if n > 0 && chain_end(sig, h, 0).len() == 32 && forall|k: int|
        0 <= k < n ==> #[trigger] chain_end(sig, h, k) == chain_end(sig, h, 0) {
        Some(chain_end(sig, h, 0))
    } else {
        None
    }
}

/// The key that verification computes from a signature of digest `h`: the
/// reconstructed key, or 32 zero bytes when there is none (such as for an
/// empty signature).
pub open spec fn wots_verify_spec(sig: Seq<u8>, h: Seq<u8>) -> Seq<u8> {
    match wots_reconstruct(sig, h) {
        Some(k) => k,
        None => Seq::new(32, |i: int| 0u8),
    }
}

/// Completes the chain of the `k`-th signature block; `None` when the
/// completed chain is not 32 bytes long (a short last block that needs no
/// further step).
fn complete_chain(sig: &[u8], msg_hash: &[u8; 32], k: usize) -> (end: Option<[u8; 32]>)
    requires
        k < sig_block_count(sig@.len()),
    ensures
        match end {
            Some(e) => e@ == chain_end(sig@, msg_hash@, k as int),
            None => chain_end(sig@, msg_hash@, k as int).len() != 32,
        },
{
    let stop: usize = if sig.len() - 32 * k >= 32 {
        32 * k + 32
    } else {
        sig.len()
    };
    let block = slice_subrange(sig, 32 * k, stop);
    assert(block@ == sig_block(sig@, k as int));
    let steps: u8 = digest_chunk_steps(msg_hash, k);
    if steps >= WOTS_W {
        if block.len() == 32 {
            return Some(bytes_to_array(block));
        } else {
            return None;
        }
    }
    let rest: u8 = WOTS_W - steps;
    let mut current: [u8; 32] = sha256(block);
    assert(hash_iter(block@, 0) == block@);
    assert(current@ == hash_iter(block@, 1));
    for i in 1..rest
        invariant
            current@ == hash_iter(block@, i as nat),
    {
        current = sha256(&current);
    }
    Some(current)
}

/// Reconstructs the public key from a hash-chain signature of a 32-byte
/// digest: every block's chain is completed, and their common end is the key.
pub fn wots_plus_reconstruct(sig: &[u8], msg_hash: &[u8; 32]) -> (pk: Option<[u8; 32]>)
    ensures
        match pk {
            Some(p) => wots_reconstruct(sig@, msg_hash@) == Some(p@),
            None => wots_reconstruct(sig@, msg_hash@) is None,
        },
{
    let len = sig.len();
    let whole = len / 32;
    let started: usize = if len % 32 == 0 {
        whole
    } else {
        whole + 1
    };
    let n: usize = if started < 16 {
        started
    } else {
        16
    };
    assert(n == sig_block_count(sig@.len()));
    if n == 0 {
        return None;
    }
    let first = match complete_chain(sig, msg_hash, 0) {
        Some(e) => e,
        None => return None,
    };
    for k in 1..n
        invariant
            n == sig_block_count(sig@.len()),
            first@ == chain_end(sig@, msg_hash@, 0),
            forall|j: int| 0 <= j < k ==> #[trigger] chain_end(sig@, msg_hash@, j) == chain_end(sig@, msg_hash@, 0),
    {
        match complete_chain(sig, msg_hash, k) {
            Some(end) => {
                if !bytes32_eq(&end, &first) {
                    assert(chain_end(sig@, msg_hash@, k as int) != chain_end(sig@, msg_hash@, 0));
                    return None;
                }
            },
            None => {
                assert(chain_end(sig@, msg_hash@, k as int) != chain_end(sig@, msg_hash@, 0));
                return None;
            },
        }
    }
    Some(first)
}

/// Computes the public key from a hash-chain signature of a 32-byte digest:
/// the reconstructed key, or 32 zero bytes when the signature reconstructs
/// none.
pub fn wots_plus_verify(sig: &[u8], msg_hash: &[u8; 32]) -> (pk: [u8; 32])
    ensures
        pk@ == wots_verify_spec(sig@, msg_hash@),
{
    match wots_plus_reconstruct(sig, msg_hash) {
        Some(p) => p,
        None => {
            let zero: [u8; 32] = [0u8; 32];
            assert(zero@ =~= Seq::new(32, |i: int| 0u8));
            zero
        },
    }
}

/// Hashing `a` times and then `b` more times is hashing `a + b` times.
pub proof fn lemma_hash_iter_add(x: Seq<u8>, a: nat, b: nat)
    ensures
        hash_iter(hash_iter(x, a), b) == hash_iter(x, a + b),
    decreases b,
{
    if b > 0 {
        lemma_hash_iter_add(x, a, (b - 1) as nat);
        assert(hash_iter(x, a + b) == sha256_spec(hash_iter(x, (a + b - 1) as nat))@);
    }
}

/// Every link of a chain that starts from 32 bytes is 32 bytes long.
pub proof fn lemma_hash_iter_len(x: Seq<u8>, n: nat)
    requires
        x.len() == 32,
    ensures
        hash_iter(x, n).len() == 32,
{
    if n > 0 {
        assert(hash_iter(x, n) == sha256_spec(hash_iter(x, (n - 1) as nat))@);
    }
}

proof fn lemma_sig_prefix_layout(sk: Seq<u8>, h: Seq<u8>, n: nat)
    requires
        sk.len() == 32,
    ensures
        wots_sig_prefix(sk, h, n).len() == 32 * n,
        forall|k: int| 0 <= k < n ==> #[trigger] wots_sig_prefix(sk, h, n).subrange(32 * k, 32 * k + 32)
            == hash_iter(sk, chunk_steps(h, k)),
    decreases n,
{
    if n > 0 {
        let m = (n - 1) as nat;
        lemma_sig_prefix_layout(sk, h, m);
        lemma_hash_iter_len(sk, chunk_steps(h, m as int));
        let prev = wots_sig_prefix(sk, h, m);
        let cur = wots_sig_prefix(sk, h, n);
        assert(cur == prev + hash_iter(sk, chunk_steps(h, m as int)));
        assert forall|k: int| 0 <= k < n implies #[trigger] cur.subrange(32 * k, 32 * k + 32)
            == hash_iter(sk, chunk_steps(h, k)) by {
            if k < m {
                assert(cur.subrange(32 * k, 32 * k + 32) =~= prev.subrange(32 * k, 32 * k + 32));
            } else {
                assert(cur.subrange(32 * k, 32 * k + 32) =~= hash_iter(sk, chunk_steps(h, k)));
            }
        }
    }
}

/// The `k`-th block of an honest signature is the secret hashed as many
/// times as the `k`-th digest chunk asks, and the signature holds sixteen
/// such 32-byte blocks.
pub proof fn lemma_sign_layout(sk: Seq<u8>, h: Seq<u8>, k: int)
    requires
        sk.len() == 32,
        0 <= k < 16,
    ensures
        wots_sign_spec(sk, h).len() == WOTS_SIG_LEN,
        sig_block(wots_sign_spec(sk, h), k) == hash_iter(sk, chunk_steps(h, k)),
{
    lemma_sig_prefix_layout(sk, h, 16);
}

/// Chain completion: pushing a block of an honest signature to the end of
/// its chain yields the full chain of the secret, the public key, when its
/// chunk asks for at most `WOTS_W` steps.
pub proof fn lemma_chain_completion(sk: Seq<u8>, h: Seq<u8>, k: int)
    requires
        sk.len() == 32,
        0 <= k < 16,
        chunk_steps(h, k) <= WOTS_W,
    ensures
        chain_end(wots_sign_spec(sk, h), h, k) == hash_iter(sk, WOTS_W as nat),
{
    lemma_sign_layout(sk, h, k);
    let s = chunk_steps(h, k);
    lemma_hash_iter_add(sk, s, chunk_rest(h, k));
}

/// The verifier gives back the public key from every honest signature of a
/// digest whose chunks fit in the chains: verifying what the secret signs
/// reconstructs the full chain of the secret.
pub proof fn lemma_sign_then_verify(sk: Seq<u8>, h: Seq<u8>)
    requires
        sk.len() == 32,
        digest_fits_chains(h),
    ensures
        wots_reconstruct(wots_sign_spec(sk, h), h) == Some(hash_iter(sk, WOTS_W as nat)),
        wots_verify_spec(wots_sign_spec(sk, h), h) == hash_iter(sk, WOTS_W as nat),
{
    let sig = wots_sign_spec(sk, h);
    lemma_sign_layout(sk, h, 0);
    assert(sig_block_count(sig.len()) == 16);
    lemma_hash_iter_len(sk, WOTS_W as nat);
    assert(chunk_steps(h, 0) <= WOTS_W);
    lemma_chain_completion(sk, h, 0);
    assert forall|k: int| 0 <= k < 16 implies #[trigger] chain_end(sig, h, k) == chain_end(sig, h, 0) by {
        assert(chunk_steps(h, k) <= WOTS_W);
        lemma_chain_completion(sk, h, k);
    }
}

/// A hash-chain one-time key pair: the public key is the full chain of the secret.
#[derive(Clone)]
pub struct WotsPlusKeyPair {
    pub pk: [u8; 32],
    sk: [u8; 32],
}

impl WotsPlusKeyPair {
    /// The secret seed of this key pair.
    pub closed spec fn secret(&self) -> Seq<u8> {
        self.sk@
    }

    /// The public key of this key pair.
    pub closed spec fn public_key(&self) -> Seq<u8> {
        self.pk@
    }

    /// Builds the key pair whose secret is `sk`.
    pub fn from_secret(sk: [u8; 32]) -> (kp: Self)
        ensures
            kp.secret() == sk@,
            kp.public_key() == hash_iter(sk@, WOTS_W as nat),
    {
        let pk = wots_plus_hash_chain(&sk);
        WotsPlusKeyPair { pk, sk }
    }

    /// Draws a fresh secret from the operating system and builds its key pair.
    pub fn generate() -> (res: Result<Self, EntropyError>)
        ensures
            res matches Ok(kp) ==> kp.public_key() == hash_iter(kp.secret(), WOTS_W as nat)
                && kp.secret().len() == 32,
    {
        match os_random_bytes(32) {
            Ok(bytes) => Ok(Self::from_secret(bytes_to_array(bytes.as_slice()))),
            Err(_) => Err(EntropyError::CsprngFailure),
        }
    }

    /// Signs the SHA-256 digest of `msg`.
    pub fn sign(&self, msg: &[u8]) -> (sig: Vec<u8>)
        ensures
            sig@ == wots_sign_spec(self.secret(), sha256_spec(msg@)@),
    {
        let msg_hash = sha256(msg);
        wots_plus_sign(&self.sk, &msg_hash)
    }

    /// Whether the key computed from `sig` for the SHA-256 digest of `msg`
    /// is this key pair's public key.
    pub fn verify(&self, msg: &[u8], sig: &[u8]) -> (ok: bool)
        ensures
            ok == (wots_verify_spec(sig@, sha256_spec(msg@)@) == self.public_key()),
    {
        let msg_hash = sha256(msg);
        let computed_pk = wots_plus_verify(sig, &msg_hash);
        bytes32_eq(&computed_pk, &self.pk)
    }
}

/// A key pair accepts its own signatures: for a key pair whose public key is
/// the full chain of its secret (as `from_secret` and `generate` build
/// them), verifying what it signs for a digest `h` whose chunks fit in the
/// chains answers `true`.
pub proof fn lemma_own_signature_verifies(kp: WotsPlusKeyPair, h: Seq<u8>)
    requires
        kp.public_key() == hash_iter(kp.secret(), WOTS_W as nat),
        digest_fits_chains(h),
    ensures
        wots_verify_spec(wots_sign_spec(kp.secret(), h), h) == kp.public_key(),
{
    lemma_sign_then_verify(kp.secret(), h);
}

/// HKDF-SHA256 (RFC 5869) with an empty salt and 32 bytes of output: the
/// pseudorandom key is HMAC-SHA256 of `ikm` under 32 zero bytes, and the
/// output is HMAC-SHA256 of `info` followed by the counter byte 1 under that
/// key.
pub open spec fn hkdf_sha256_spec(ikm: Seq<u8>, info: Seq<u8>) -> [u8; 32] {
    let prk = hmac_sha256_spec(Seq::new(32, |i: int| 0u8), ikm);
    hmac_sha256_spec(prk@, info.push(1u8))
}

/// Derives a 32-byte key from `input_key` and the context `info` with
/// HKDF-SHA256 (RFC 5869, empty salt).
pub fn hkdf_sha256(input_key: &[u8], info: &[u8], output: &mut [u8; 32])
    ensures
        *final(output) == hkdf_sha256_spec(input_key@, info@),
{
    let salt: [u8; 32] = [0u8; 32];
    assert(salt@ =~= Seq::new(32, |i: int| 0u8));
    let prk = hmac_sha256(salt.as_slice(), input_key);
    let mut expand_input: Vec<u8> = slice_to_vec(info);
    expand_input.push(1u8);
    *output = hmac_sha256(prk.as_slice(), expand_input.as_slice());
}

/// Label of the Lamport secret-key derivation.
pub const LAMPORT_SK_LABEL: [u8; 14] = [80, 81, 67, 95, 76, 65, 77, 80, 79, 82, 84, 95, 83, 75];

/// Label of the Lamport public-key derivation.
pub const LAMPORT_PK_LABEL: [u8; 14] = [80, 81, 67, 95, 76, 65, 77, 80, 79, 82, 84, 95, 80, 75];

/// The client's full set of post-quantum keys.
pub struct PqcKeypairs {
    pub kyber_pk: Vec<u8>,
    kyber_sk: SecretBytes,
    pub dilithium_pk: Vec<u8>,
    dilithium_sk: SecretBytes,
    lamport_seeds: [u8; 96],
    wots_plus_keys: Vec<WotsPlusKeyPair>,
}

impl Clone for PqcKeypairs {
    /// A copy of every key of the set.
    fn clone(&self) -> (c: Self)
        ensures
            c.kyber_public() == self.kyber_public(),
            c.kyber_secret() == self.kyber_secret(),
            c.dilithium_public() == self.dilithium_public(),
            c.dilithium_secret() == self.dilithium_secret(),
            c.lamport_seed_bytes() == self.lamport_seed_bytes(),
            c.wots_key_count() == self.wots_key_count(),
    {
        PqcKeypairs {
            kyber_pk: self.kyber_pk.clone(),
            kyber_sk: secret_bytes_clone(&self.kyber_sk),
            dilithium_pk: self.dilithium_pk.clone(),
            dilithium_sk: secret_bytes_clone(&self.dilithium_sk),
            lamport_seeds: self.lamport_seeds,
            wots_plus_keys: self.wots_plus_keys.clone(),
        }
    }
}

impl PqcKeypairs {
    /// The set holds its [`WOTS_K`] one-time key pairs.
    pub closed spec fn wf(&self) -> bool {
        self.wots_plus_keys@.len() == WOTS_K
    }

    /// The Kyber-512 public key.
    pub closed spec fn kyber_public(&self) -> Seq<u8> {
        self.kyber_pk@
    }

    /// The Dilithium2 public key.
    pub closed spec fn dilithium_public(&self) -> Seq<u8> {
        self.dilithium_pk@
    }

    /// Number of one-time key pairs held.
    pub closed spec fn wots_key_count(&self) -> nat {
        self.wots_plus_keys@.len()
    }

    /// The Kyber-512 secret key.
    pub closed spec fn kyber_secret(&self) -> Seq<u8> {
        secret_bytes_view(self.kyber_sk)
    }

    /// The Dilithium2 secret key.
    pub closed spec fn dilithium_secret(&self) -> Seq<u8> {
        secret_bytes_view(self.dilithium_sk)
    }

    /// The 96 bytes of Lamport seed material.
    pub closed spec fn lamport_seed_bytes(&self) -> Seq<u8> {
        self.lamport_seeds@
    }

    /// The `i`-th one-time key pair.
    pub closed spec fn wots_key(&self, i: int) -> WotsPlusKeyPair {
        self.wots_plus_keys@[i]
    }

    /// The `idx`-th 32-byte Lamport seed.
    pub open spec fn lamport_seed(&self, idx: int) -> Seq<u8> {
        self.lamport_seed_bytes().subrange(32 * idx, 32 * idx + 32)
    }

    /// Assembles a key set from its parts.
    pub fn from_parts(
        kyber_pk: Vec<u8>,
        kyber_sk: Vec<u8>,
        dilithium_pk: Vec<u8>,
        dilithium_sk: Vec<u8>,
        lamport_seeds: [u8; 96],
        wots_plus_keys: Vec<WotsPlusKeyPair>,
    ) -> (keys: Self)
        ensures
            keys.kyber_public() == kyber_pk@,
            keys.kyber_secret() == kyber_sk@,
            keys.dilithium_public() == dilithium_pk@,
            keys.dilithium_secret() == dilithium_sk@,
            keys.lamport_seed_bytes() == lamport_seeds@,
            keys.wots_key_count() == wots_plus_keys@.len(),
            forall|i: int| 0 <= i < wots_plus_keys@.len() ==> #[trigger] keys.wots_key(i) == wots_plus_keys@[i],
    {
        PqcKeypairs {
            kyber_pk,
            kyber_sk: secret_bytes_new(kyber_sk),
            dilithium_pk,
            dilithium_sk: secret_bytes_new(dilithium_sk),
            lamport_seeds,
            wots_plus_keys,
        }
    }

    /// Generates every key of the set from fresh randomness: a Kyber-512 key
    /// pair, a Dilithium2 key pair, 96 bytes of Lamport seeds and
    /// [`WOTS_K`] one-time key pairs.
    pub fn generate() -> (res: Result<Self, EntropyError>)
        ensures
            res matches Ok(keys) ==> {
                &&& keys.wf()
                &&& keys.kyber_public().len() == KYBER512_PK_LEN
                &&& keys.kyber_secret().len() == KYBER512_SK_LEN
                &&& keys.kyber_secret().subrange(KYBER512_SK_PK_OFFSET as int, KYBER512_SK_PK_OFFSET + KYBER512_PK_LEN)
                    == keys.kyber_public()
                &&& keys.dilithium_public().len() == DILITHIUM2_PK_LEN
                &&& keys.dilithium_secret().len() == DILITHIUM2_SK_LEN
                &&& keys.dilithium_public() == dilithium2_public_key_of(keys.dilithium_secret())
                &&& dilithium2_well_formed_secret(keys.dilithium_secret())
                &&& forall|i: int| 0 <= i < WOTS_K ==> (#[trigger] keys.wots_key(i)).public_key()
                    == hash_iter(keys.wots_key(i).secret(), WOTS_W as nat)
            },
    {
        let (kyber_pk, kyber_sk) = kyber512_keypair();
        let (dilithium_pk, dilithium_sk) = dilithium2_keypair();
        let seeds = match os_random_bytes(96) {
            Ok(bytes) => bytes,
            Err(_) => return Err(EntropyError::CsprngFailure),
        };
        let lamport_seeds: [u8; 96] = bytes_to_array(seeds.as_slice());
        let mut wots_plus_keys: Vec<WotsPlusKeyPair> = Vec::new();
        for i in 0..WOTS_K
            invariant
                wots_plus_keys@.len() == i,
                forall|j: int| 0 <= j < i ==> (#[trigger] wots_plus_keys@[j]).public_key()
                    == hash_iter(wots_plus_keys@[j].secret(), WOTS_W as nat),
        {
            match WotsPlusKeyPair::generate() {
                Ok(kp) => wots_plus_keys.push(kp),
                Err(e) => return Err(e),
            }
        }
        Ok(Self::from_parts(kyber_pk, kyber_sk, dilithium_pk, dilithium_sk, lamport_seeds, wots_plus_keys))
    }

    /// Encapsulates a fresh session secret to this set's Kyber-512 public key
    /// and derives the session key from it with `context`.
    pub fn encaps_session(&self, context: &[u8]) -> (res: ([u8; 768], [u8; 32]))
        requires
            self.kyber_public().len() == KYBER512_PK_LEN,
        ensures
            exists|ss: Seq<u8>| #[trigger] kyber512_encapsulates(res.0@, ss, self.kyber_public())
                && res.1 == hkdf_sha256_spec(ss, context@),
    {
        match kyber512_encapsulate(self.kyber_pk.as_slice()) {
            Ok((ct, ss)) => {
                let mut derived_ss: [u8; 32] = [0u8; 32];
                hkdf_sha256(&ss, context, &mut derived_ss);
                let res = (ct, derived_ss);
                assert(kyber512_encapsulates(res.0@, ss@, self.kyber_public()) && res.1 == hkdf_sha256_spec(ss@, context@));
                res
            },
            Err(_) => {
                proof {
                    assert(false);
                }
                ([0u8; 768], [0u8; 32])
            },
        }
    }

    /// Signs `payload` with the Dilithium2 secret key (a detached signature).
    pub fn sign_transfer(&self, payload: &[u8]) -> (sig: Vec<u8>)
        requires
            self.dilithium_secret().len() == DILITHIUM2_SK_LEN,
        ensures
            sig@ == dilithium2_signature(payload@, self.dilithium_secret()),
            sig@.len() == DILITHIUM2_SIG_LEN,
            self.dilithium_public() == dilithium2_public_key_of(self.dilithium_secret())
                && dilithium2_well_formed_secret(self.dilithium_secret())
                ==> dilithium2_accepts(sig@, payload@, self.dilithium_public()),
    {
        match dilithium2_detached_sign(payload, secret_bytes_as_slice(&self.dilithium_sk)) {
            Ok(sig) => sig,
            Err(_) => {
                proof {
                    assert(false);
                }
                Vec::new()
            },
        }
    }

    /// Derives the Lamport one-time secret and public keys from seed `idx`.
    pub fn derive_otp_keys(&self, idx: usize) -> (res: ([u8; 32], [u8; 32]))
        requires
            idx < 3,
        ensures
            res.0 == hkdf_sha256_spec(self.lamport_seed(idx as int), LAMPORT_SK_LABEL@),
            res.1 == hkdf_sha256_spec(self.lamport_seed(idx as int), LAMPORT_PK_LABEL@),
            res.0 == hkdf_sha256_spec(
                self.lamport_seed_bytes().subrange(32 * idx as int, 32 * idx as int + 32),
                LAMPORT_SK_LABEL@,
            ),
            res.1 == hkdf_sha256_spec(
                self.lamport_seed_bytes().subrange(32 * idx as int, 32 * idx as int + 32),
                LAMPORT_PK_LABEL@,
            ),
    {
        let seed = slice_subrange(self.lamport_seeds.as_slice(), idx * 32, (idx + 1) * 32);
        let mut sk: [u8; 32] = [0u8; 32];
        let mut pk: [u8; 32] = [0u8; 32];
        hkdf_sha256(seed, LAMPORT_SK_LABEL.as_slice(), &mut sk);
        hkdf_sha256(seed, LAMPORT_PK_LABEL.as_slice(), &mut pk);
        (sk, pk)
    }

    /// Signs `msg` with the first one-time key pair.
    pub fn sign_wots_plus(&self, msg: &[u8]) -> (sig: Vec<u8>)
        requires
            self.wf(),
        ensures
            sig@ == wots_sign_spec(self.wots_key(0).secret(), sha256_spec(msg@)@),
    {
        self.wots_plus_keys[0].sign(msg)
    }

    /// Checks `sig` on `msg` against the first one-time key pair.
    pub fn verify_wots_plus(&self, msg: &[u8], sig: &[u8]) -> (ok: bool)
        requires
            self.wf(),
        ensures
            ok == (wots_verify_spec(sig@, sha256_spec(msg@)@) == self.wots_key(0).public_key()),
    {
        self.wots_plus_keys[0].verify(msg, sig)
    }

    /// Wipes every secret: the Kyber and Dilithium secret keys become empty,
    /// the Lamport seeds and every one-time secret become zeros. Public keys
    /// and the number of one-time key pairs are kept.
    pub fn zeroize(&mut self)
        ensures
            wiped_from(*final(self), *old(self)),
            final(self).wf() == old(self).wf(),
    {
        secret_bytes_wipe(&mut self.kyber_sk);
        secret_bytes_wipe(&mut self.dilithium_sk);
        for i in 0..96usize
            invariant
                forall|j: int| 0 <= j < i ==> #[trigger] self.lamport_seeds@[j] == 0u8,
                self.wots_plus_keys == old(self).wots_plus_keys,
                secret_bytes_view(self.kyber_sk) == Seq::<u8>::empty(),
                secret_bytes_view(self.dilithium_sk) == Seq::<u8>::empty(),
                self.kyber_pk == old(self).kyber_pk,
                self.dilithium_pk == old(self).dilithium_pk,
        {
            self.lamport_seeds[i] = 0;
        }
        assert(self.lamport_seeds@ =~= Seq::new(96, |i: int| 0u8));
        let n = self.wots_plus_keys.len();
        for i in 0..n
            invariant
                n == self.wots_plus_keys@.len(),
                n == old(self).wots_plus_keys@.len(),
                forall|j: int| 0 <= j < n ==> (#[trigger] self.wots_plus_keys@[j]).pk
                    == old(self).wots_plus_keys@[j].pk,
                forall|j: int| 0 <= j < i ==> (#[trigger] self.wots_plus_keys@[j]).sk@
                    == Seq::new(32, |k: int| 0u8),
                self.lamport_seeds@ == Seq::new(96, |k: int| 0u8),
                secret_bytes_view(self.kyber_sk) == Seq::<u8>::empty(),
                secret_bytes_view(self.dilithium_sk) == Seq::<u8>::empty(),
                self.kyber_pk == old(self).kyber_pk,
                self.dilithium_pk == old(self).dilithium_pk,
        {
            zeroize_array32(&mut self.wots_plus_keys[i].sk);
        }
    }
}

/// `after` is `before` with every secret wiped: empty Kyber and Dilithium
/// secret keys, zero Lamport seeds and zero one-time secrets, while the
/// public keys and the one-time key pairs' number and public keys are kept.
pub open spec fn wiped_from(after: PqcKeypairs, before: PqcKeypairs) -> bool {
    &&& after.kyber_secret() == Seq::<u8>::empty()
    &&& after.dilithium_secret() == Seq::<u8>::empty()
    &&& after.lamport_seed_bytes() == Seq::new(96, |i: int| 0u8)
    &&& after.kyber_public() == before.kyber_public()
    &&& after.dilithium_public() == before.dilithium_public()
    &&& after.wots_key_count() == before.wots_key_count()
    &&& forall|i: int| 0 <= i < before.wots_key_count() ==> {
        &&& (#[trigger] after.wots_key(i)).public_key() == before.wots_key(i).public_key()
        &&& after.wots_key(i).secret() == Seq::new(32, |j: int| 0u8)
    }
}

/// Wiping twice leaves what wiping once left: every secret and public part
/// of the key set is the same after a second `zeroize`.
pub proof fn lemma_zeroize_idempotent(a: PqcKeypairs, b: PqcKeypairs, c: PqcKeypairs)
    requires
        wiped_from(b, a),
        wiped_from(c, b),
    ensures
        c.kyber_secret() == b.kyber_secret(),
        c.dilithium_secret() == b.dilithium_secret(),
        c.lamport_seed_bytes() == b.lamport_seed_bytes(),
        c.kyber_public() == b.kyber_public(),
        c.dilithium_public() == b.dilithium_public(),
        c.wots_key_count() == b.wots_key_count(),
        forall|i: int| 0 <= i < b.wots_key_count() ==> {
            &&& (#[trigger] c.wots_key(i)).public_key() == b.wots_key(i).public_key()
            &&& c.wots_key(i).secret() == b.wots_key(i).secret()
        },
{
    assert forall|i: int| 0 <= i < b.wots_key_count() implies {
        &&& (#[trigger] c.wots_key(i)).public_key() == b.wots_key(i).public_key()
        &&& c.wots_key(i).secret() == b.wots_key(i).secret()
    } by {
        assert(b.wots_key(i).secret() == Seq::new(32, |j: int| 0u8));
    }
}

/// The three Lamport seeds are the three consecutive 32-byte pieces of the
/// 96 seed bytes: seed `idx` is bytes `32 * idx` up to `32 * idx + 32`, so
/// distinct indices read disjoint bytes, and the seeds in order make up all
/// of the seed material.
pub proof fn lemma_lamport_seeds_partition(keys: PqcKeypairs)
    ensures
        keys.lamport_seed_bytes().len() == 96,
        forall|idx: int| 0 <= idx < 3 ==> #[trigger] keys.lamport_seed(idx)
            == keys.lamport_seed_bytes().subrange(32 * idx, 32 * idx + 32),
        forall|idx: int| 0 <= idx < 3 ==> (#[trigger] keys.lamport_seed(idx)).len() == 32,
        keys.lamport_seed(0) + keys.lamport_seed(1) + keys.lamport_seed(2) == keys.lamport_seed_bytes(),
{
    let b = keys.lamport_seed_bytes();
    assert(b.subrange(0, 32) + b.subrange(32, 64) + b.subrange(64, 96) =~= b);
}

} // verus!
