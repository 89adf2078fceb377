//! Batch proving setup: the batch circuit's inputs, its column layout and the
//! distributed trusted-setup secret; and the claim submitted to Cardano.

use vstd::prelude::*;
use crate::keygen::bytes_to_array;
use crate::primitives::{
    base64_encode, base64_encode_spec, bn256_from_uniform_bytes, bn256_order, le_value, os_random_bytes,
};
use crate::relayer::LockEvent;

verus! {

/// The column layout of the batch circuit (columns by index) and the setup
/// secret it was built with, if any.
#[derive(Debug, Clone, Copy)]
pub struct PQCBatchConfig {
    commits: usize,
    merkle_roots: usize,
    validity_windows: usize,
    dkg_tau: Option<[u8; 32]>,
}

impl PQCBatchConfig {
    /// Column of the transfer commitments.
    pub closed spec fn commits_column(&self) -> usize {
        self.commits
    }

    /// Column of the Merkle roots.
    pub closed spec fn merkle_roots_column(&self) -> usize {
        self.merkle_roots
    }

    /// Column of the validity windows.
    pub closed spec fn validity_windows_column(&self) -> usize {
        self.validity_windows
    }

    /// The setup secret, as the canonical bytes of a BN256 scalar.
    pub closed spec fn dkg_tau_view(&self) -> Option<[u8; 32]> {
        self.dkg_tau
    }

    /// The layout with every kind of input in column 0, as given by the
    /// circuit or the setup.
    pub fn at_first_columns(dkg_tau: Option<[u8; 32]>) -> (c: Self)
        ensures
            c.commits_column() == 0,
            c.merkle_roots_column() == 0,
            c.validity_windows_column() == 0,
            c.dkg_tau_view() == dkg_tau,
    {
        PQCBatchConfig { commits: 0, merkle_roots: 0, validity_windows: 0, dkg_tau }
    }

    /// Column of the transfer commitments.
    pub fn commits(&self) -> (res: usize)
        ensures
            res == self.commits_column(),
    {
        self.commits
    }

    /// Column of the Merkle roots.
    pub fn merkle_roots(&self) -> (res: usize)
        ensures
            res == self.merkle_roots_column(),
    {
        self.merkle_roots
    }

    /// Column of the validity windows.
    pub fn validity_windows(&self) -> (res: usize)
        ensures
            res == self.validity_windows_column(),
    {
        self.validity_windows
    }

    /// The setup secret.
    pub fn dkg_tau(&self) -> (res: Option<[u8; 32]>)
        ensures
            res == self.dkg_tau_view(),
    {
        self.dkg_tau
    }
}

/// The inputs of one batch proof: transfer commitments, Merkle roots and
/// validity windows.
pub struct PQCBatchCircuit {
    pub commits: Vec<[u8; 32]>,
    pub merkle_roots: Vec<[u8; 32]>,
    pub validity_windows: Vec<u64>,
}

impl PQCBatchCircuit {
    /// The layout used when no witness is known: every input in column 0 and
    /// no setup secret.
    pub fn without_witnesses(&self) -> (c: PQCBatchConfig)
        ensures
            c.commits_column() == 0,
            c.merkle_roots_column() == 0,
            c.validity_windows_column() == 0,
            c.dkg_tau_view() is None,
    {
        PQCBatchConfig::at_first_columns(None)
    }
}

/// The output of the trusted setup: the circuit layout and the setup secret.
#[derive(Debug)]
pub struct ProvingKey {
    config: PQCBatchConfig,
    tau: [u8; 32],
}

impl ProvingKey {
    /// The circuit layout.
    pub closed spec fn config_view(&self) -> PQCBatchConfig {
        self.config
    }

    /// The setup secret.
    pub closed spec fn tau_view(&self) -> [u8; 32] {
        self.tau
    }

    /// The key of a setup whose secret is `tau`: the layout with every input
    /// in column 0, carrying `tau` as its setup secret.
    pub fn from_tau(tau: [u8; 32]) -> (pk: Self)
        ensures
            pk.tau_view() == tau,
            pk.config_view().commits_column() == 0,
            pk.config_view().merkle_roots_column() == 0,
            pk.config_view().validity_windows_column() == 0,
            pk.config_view().dkg_tau_view() == Some(tau),
    {
        ProvingKey { config: PQCBatchConfig::at_first_columns(Some(tau)), tau }
    }

    /// The circuit layout.
    pub fn config(&self) -> (res: PQCBatchConfig)
        ensures
            res == self.config_view(),
    {
        self.config
    }

    /// The setup secret.
    pub fn tau(&self) -> (res: [u8; 32])
        ensures
            res == self.tau_view(),
    {
        self.tau
    }
}

/// Why the trusted setup could not run.
#[derive(Debug, Clone, Copy, PartialEq, Eq)]
pub enum DkgError {
    /// The setup needs at least one participant.
    NoParticipants,
    /// The operating system's source of randomness failed.
    EntropyFailure,
}

/// Runs the distributed trusted setup among `participants` with the 64
/// random bytes `seed`: refused without participants; otherwise the BN256
/// scalar that `seed` reduces to becomes the setup secret, recorded both in
/// the key and in its circuit layout.
pub fn dkg_setup_from_seed(participants: &[String], seed: &[u8; 64]) -> (res: Result<ProvingKey, DkgError>)
    ensures
        participants@.len() == 0 ==> res == Err::<ProvingKey, DkgError>(DkgError::NoParticipants),
        participants@.len() > 0 ==> (res matches Ok(pk) && le_value(pk.tau_view()@) == le_value(seed@) % bn256_order()
            && pk.config_view().commits_column() == 0
            && pk.config_view().merkle_roots_column() == 0
            && pk.config_view().validity_windows_column() == 0
            && pk.config_view().dkg_tau_view() == Some(pk.tau_view())),
{
    if participants.len() == 0 {
        return Err(DkgError::NoParticipants);
    }
    let tau = bn256_from_uniform_bytes(seed);
    Ok(ProvingKey::from_tau(tau))
}

/// Runs the distributed trusted setup among `participants`: refused without
/// participants; otherwise 64 fresh random bytes are drawn from the
/// operating system and the setup proceeds as `dkg_setup_from_seed` with
/// them. When the randomness source fails the setup is refused.
pub fn generate_dkg_setup(participants: &[String]) -> (res: Result<ProvingKey, DkgError>)
    ensures
        participants@.len() == 0 ==> res == Err::<ProvingKey, DkgError>(DkgError::NoParticipants),
        participants@.len() > 0 ==> (res is Err ==> res == Err::<ProvingKey, DkgError>(DkgError::EntropyFailure)),
        res matches Ok(pk) ==> le_value(pk.tau_view()@) < bn256_order(),
        res matches Ok(pk) ==> {
            &&& pk.config_view().commits_column() == 0
            &&& pk.config_view().merkle_roots_column() == 0
            &&& pk.config_view().validity_windows_column() == 0
            &&& pk.config_view().dkg_tau_view() == Some(pk.tau_view())
        },
{
    if participants.len() == 0 {
        return Err(DkgError::NoParticipants);
    }
    let seed: [u8; 64] = match os_random_bytes(64) {
        Ok(bytes) => bytes_to_array(bytes.as_slice()),
        Err(_) => return Err(DkgError::EntropyFailure),
    };
    dkg_setup_from_seed(participants, &seed)
}

/// The input of the Cardano claim validator for a lock event: its
/// signature, the Base64 text of its ciphertext, its lock height and its
/// target chain.
pub struct AdaClaimPayload {
    pub tx_signature: String,
    pub ciphertext: String,
    pub lock_height: u64,
    pub target_chain: String,
}

/// Builds the Cardano claim of `event`: the event's fields, with the
/// ciphertext in standard padded Base64.
pub fn ada_claim_payload(event: &LockEvent) -> (p: AdaClaimPayload)
    requires
        4 * ((event.ct@.len() + 2) / 3) <= usize::MAX,
    ensures
        p.tx_signature@ == event.tx_signature@,
        p.ciphertext@ == base64_encode_spec(event.ct@),
        p.lock_height == event.lock_height,
        p.target_chain@ == event.target_chain@,
{
    AdaClaimPayload {
        tx_signature: event.tx_signature.clone(),
        ciphertext: base64_encode(event.ct.as_slice()),
        lock_height: event.lock_height,
        target_chain: event.target_chain.clone(),
    }
}

} // verus!
