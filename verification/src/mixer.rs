//! A token mixer: per-mint pools of Kyber-512 deposit entries, with deposit
//! receipts, re-encapsulating "mix" rounds and withdrawal against a one-time
//! signature of a deposit nonce.

use vstd::prelude::*;
use vstd::slice::slice_to_vec;
use vstd::string::StringExecFns;
use crate::keygen::{
    bytes_to_array, digest_fits_chains, lemma_sign_layout, lemma_sign_then_verify, wots_plus_reconstruct, wots_reconstruct, wots_sign_spec,
    EntropyError, WOTS_SIG_LEN,
};
use crate::primitives::{
    kyber512_encapsulate, kyber512_encapsulates, kyber512_keypair, os_random_bytes, KYBER512_PK_LEN,
};

verus! {

/// Number of re-encapsulation rounds in one mix.
const MIXER_DEPTH: usize = 3;

/// Minimum liquidity of a mixer pool.
const MIN_LIQUIDITY: u64 = 1000;

/// What the mixer records of one deposit: the Kyber public key, the amount
/// and the deposit nonce.
pub type EntryView = (Seq<u8>, u64, Seq<u8>);

#[derive(Clone)]
struct KyberPoolEntry {
    pk: Vec<u8>,
    amount: u64,
    nonce: [u8; 32],
}

struct MintPool {
    mint: String,
    entries: Vec<KyberPoolEntry>,
}

spec fn entry_view(e: KyberPoolEntry) -> EntryView {
    (e.pk@, e.amount, e.nonce@)
}

spec fn pool_view(p: MintPool) -> Seq<EntryView> {
    p.entries@.map_values(|e: KyberPoolEntry| entry_view(e))
}

/// The pool of `mint` in `pools`, empty when the mint has none.
pub open spec fn pool_or_empty(pools: Map<Seq<char>, Seq<EntryView>>, mint: Seq<char>) -> Seq<EntryView> {
    if pools.contains_key(mint) {
        pools[mint]
    } else {
        Seq::empty()
    }
}

/// The pools after `entry` is appended to the pool of `mint` (which is
/// created when missing).
pub open spec fn after_deposit(
    pools: Map<Seq<char>, Seq<EntryView>>,
    mint: Seq<char>,
    entry: EntryView,
) -> Map<Seq<char>, Seq<EntryView>> {
    pools.insert(mint, pool_or_empty(pools, mint).push(entry))
}

/// Whether `sig` is a one-time signature of the deposit nonce `nonce`: a
/// full signature of sixteen blocks whose completed chains end in one common
/// key.
pub open spec fn signs_nonce(sig: Seq<u8>, nonce: Seq<u8>) -> bool {
    sig.len() == WOTS_SIG_LEN && wots_reconstruct(sig, nonce) is Some
}

/// Whether a withdrawal of `amount` from `pool` with signature `sig` is
/// granted: some entry holds at least that amount and `sig` is a one-time
/// signature of that entry's nonce.
pub open spec fn withdraw_spec(pool: Seq<EntryView>, amount: u64, sig: Seq<u8>) -> bool {
    exists|i: int| 0 <= i < pool.len() && (#[trigger] pool[i]).1 >= amount && signs_nonce(sig, pool[i].2)
}

/// The mixer: one pool of deposit entries per token mint.
pub struct PqcMixer {
    pools: Vec<MintPool>,
}

impl View for PqcMixer {
    type V = Map<Seq<char>, Seq<EntryView>>;

    closed spec fn view(&self) -> Map<Seq<char>, Seq<EntryView>> {
        Map::new(
            |m: Seq<char>| exists|i: int| 0 <= i < self.pools@.len() && (#[trigger] self.pools@[i]).mint@ == m,
            |m: Seq<char>| pool_view(self.pools@[choose|i: int| 0 <= i < self.pools@.len() && (#[trigger] self.pools@[i]).mint@ == m]),
        )
    }
}

impl PqcMixer {
    /// No two pools share a mint.
    pub closed spec fn wf(&self) -> bool {
        forall|i: int, j: int|
            0 <= i < self.pools@.len() && 0 <= j < self.pools@.len() && i != j
                ==> (#[trigger] self.pools@[i]).mint@ != (#[trigger] self.pools@[j]).mint@
    }

    proof fn lemma_view_at(&self, i: int)
        requires
            self.wf(),
            0 <= i < self.pools@.len(),
        ensures
            self@.contains_key(self.pools@[i].mint@),
            self@[self.pools@[i].mint@] == pool_view(self.pools@[i]),
    {
        let m = self.pools@[i].mint@;
        assert(self@.dom().contains(m));
        let k = choose|k: int| 0 <= k < self.pools@.len() && (#[trigger] self.pools@[k]).mint@ == m;
        assert(k == i);
    }

    /// An empty mixer.
    pub fn new() -> (mixer: Self)
        ensures
            mixer.wf(),
            mixer@ == Map::<Seq<char>, Seq<EntryView>>::empty(),
    {
        let mixer = PqcMixer { pools: Vec::new() };
        assert(mixer@ =~= Map::<Seq<char>, Seq<EntryView>>::empty());
        mixer
    }

    fn find_pool(&self, mint: &String) -> (res: Option<usize>)
        ensures
            match res {
                Some(i) => i < self.pools@.len() && self.pools@[i as int].mint@ == mint@,
                None => forall|i: int| 0 <= i < self.pools@.len() ==> (#[trigger] self.pools@[i]).mint@ != mint@,
            },
    {
        let n = self.pools.len();
        for i in 0..n
            invariant
                n == self.pools@.len(),
                forall|j: int| 0 <= j < i ==> (#[trigger] self.pools@[j]).mint@ != mint@,
        {
            if self.pools[i].mint == *mint {
                return Some(i);
            }
        }
        None
    }

    /// Appends a deposit entry to the pool of `token_mint`, creating the pool
    /// when the mint has none yet.
    pub fn record_deposit(&mut self, token_mint: &str, pk: Vec<u8>, amount: u64, nonce: [u8; 32])
        requires
            old(self).wf(),
        ensures
            final(self).wf(),
            final(self)@ == after_deposit(old(self)@, token_mint@, (pk@, amount, nonce@)),
    {
        let key = String::from_str(token_mint);
        let entry = KyberPoolEntry { pk, amount, nonce };
        let ghost e = entry_view(entry);
        let ghost old_view = self@;
        match self.find_pool(&key) {
            Some(i) => {
                proof {
                    self.lemma_view_at(i as int);
                }
                let ghost old_pools = self.pools@;
                self.pools[i].entries.push(entry);
                assert(self.pools@.len() == old_pools.len());
                assert forall|j: int| 0 <= j < self.pools@.len() && j != i implies #[trigger] self.pools@[j] == old_pools[j] by {}
                assert(pool_view(self.pools@[i as int]) =~= pool_view(old_pools[i as int]).push(e));
                proof {
                    assert forall|j: int| 0 <= j < self.pools@.len() implies (#[trigger] self.pools@[j]).mint@ == old_pools[j].mint@ by {}
                    let target = after_deposit(old_view, token_mint@, e);
                    assert forall|m: Seq<char>| self@.contains_key(m) <==> target.contains_key(m) by {
                        if target.contains_key(m) && m != token_mint@ {
                            assert(old_view.contains_key(m));
                            let k = choose|k: int| 0 <= k < old_pools.len() && (#[trigger] old_pools[k]).mint@ == m;
                            assert(self.pools@[k].mint@ == m);
                        }
                        if self@.contains_key(m) {
                            let k = choose|k: int| 0 <= k < self.pools@.len() && (#[trigger] self.pools@[k]).mint@ == m;
                            assert(old_pools[k].mint@ == m);
                        }
                    }
                    assert forall|m: Seq<char>| self@.contains_key(m) implies self@[m] == target[m] by {
                        let k = choose|k: int| 0 <= k < self.pools@.len() && (#[trigger] self.pools@[k]).mint@ == m;
                        self.lemma_view_at(k);
                        if k != i {
                            assert(old_pools[k].mint@ == m);
                            assert(old_view.contains_key(m));
                            let k2 = choose|k2: int| 0 <= k2 < old_pools.len() && (#[trigger] old_pools[k2]).mint@ == m;
                            assert(k2 == k);
                        }
                    }
                    assert(self@ =~= target);
                }
            },
            None => {
                let ghost old_pools = self.pools@;
                let mut entries: Vec<KyberPoolEntry> = Vec::new();
                entries.push(entry);
                self.pools.push(MintPool { mint: key, entries });
                let ghost last = old_pools.len() as int;
                assert(pool_view(self.pools@[last]) =~= Seq::<EntryView>::empty().push(e));
                proof {
                    assert(!old_view.contains_key(token_mint@));
                    let target = after_deposit(old_view, token_mint@, e);
                    assert forall|j: int| 0 <= j < old_pools.len() implies #[trigger] self.pools@[j] == old_pools[j] by {}
                    assert forall|m: Seq<char>| self@.contains_key(m) <==> target.contains_key(m) by {
                        if target.contains_key(m) && m != token_mint@ {
                            let k = choose|k: int| 0 <= k < old_pools.len() && (#[trigger] old_pools[k]).mint@ == m;
                            assert(self.pools@[k].mint@ == m);
                        }
                        if m == token_mint@ {
                            assert(self.pools@[last].mint@ == m);
                        }
                        if self@.contains_key(m) {
                            let k = choose|k: int| 0 <= k < self.pools@.len() && (#[trigger] self.pools@[k]).mint@ == m;
                            if k < last {
                                assert(old_pools[k].mint@ == m);
                            }
                        }
                    }
                    assert forall|m: Seq<char>| self@.contains_key(m) implies self@[m] == target[m] by {
                        let k = choose|k: int| 0 <= k < self.pools@.len() && (#[trigger] self.pools@[k]).mint@ == m;
                        self.lemma_view_at(k);
                        if k != last {
                            assert(old_pools[k].mint@ == m);
                            assert(old_view.contains_key(m));
                            let k2 = choose|k2: int| 0 <= k2 < old_pools.len() && (#[trigger] old_pools[k2]).mint@ == m;
                            assert(k2 == k);
                        }
                    }
                    assert(self@ =~= target);
                }
            },
        }
    }

    /// Deposits `amount` of `token_mint`: a fresh Kyber-512 key pair and a
    /// fresh nonce are recorded in the mint's pool, and the depositor gets a
    /// receipt encapsulated to the new public key (ciphertext and shared
    /// secret). When the system randomness fails nothing is recorded.
    pub fn deposit(&mut self, token_mint: &str, amount: u64) -> (res: Result<([u8; 768], [u8; 32]), EntropyError>)
        requires
            old(self).wf(),
        ensures
            final(self).wf(),
            res matches Ok((ct, ss)) ==> exists|pk: Seq<u8>, nonce: Seq<u8>|
                pk.len() == KYBER512_PK_LEN && nonce.len() == 32
                && final(self)@ == #[trigger] after_deposit(old(self)@, token_mint@, (pk, amount, nonce))
                && kyber512_encapsulates(ct@, ss@, pk),
            res is Err ==> final(self)@ == old(self)@,
    {
        let (pk, _sk) = kyber512_keypair();
        let nonce: [u8; 32] = match os_random_bytes(32) {
            Ok(bytes) => bytes_to_array(bytes.as_slice()),
            Err(_) => return Err(EntropyError::CsprngFailure),
        };
        let recorded = slice_to_vec(pk.as_slice());
        self.record_deposit(token_mint, recorded, amount, nonce);
        match kyber512_encapsulate(pk.as_slice()) {
            Ok(receipt) => Ok(receipt),
            Err(_) => {
                proof {
                    assert(false);
                }
                Err(EntropyError::CsprngFailure)
            },
        }
    }

    /// Mixes a receipt through the pool of `token_mint`: `None` when the mint
    /// has no pool; otherwise the ciphertext of the last of the mixing rounds,
    /// each encapsulating to a fresh Kyber-512 key (768 zero bytes when the
    /// pool holds no entry).
    pub fn mix(&self, token_mint: &str, receipt_ct: &[u8; 768], receipt_ss: &[u8; 32]) -> (res: Option<Vec<u8>>)
        requires
            self.wf(),
        ensures
            res is None <==> !self@.contains_key(token_mint@),
            res matches Some(ct) ==> ct@.len() == 768,
            res matches Some(ct) ==> (self@[token_mint@].len() == 0 ==> ct@ == Seq::new(768, |i: int| 0u8)),
            res matches Some(ct) ==> (self@[token_mint@].len() > 0 ==> exists|pk: Seq<u8>, ss: Seq<u8>|
                pk.len() == KYBER512_PK_LEN && #[trigger] kyber512_encapsulates(ct@, ss, pk)),
    {
        let key = String::from_str(token_mint);
        let idx = match self.find_pool(&key) {
            Some(i) => i,
            None => {
                proof {
                    if self@.contains_key(token_mint@) {
                        let k = choose|k: int| 0 <= k < self.pools@.len() && (#[trigger] self.pools@[k]).mint@ == token_mint@;
                        assert(self.pools@[k].mint@ != token_mint@);
                    }
                }
                return None;
            },
        };
        proof {
            self.lemma_view_at(idx as int);
        }
        let has_entries = self.pools[idx].entries.len() > 0;
        assert(has_entries == (self@[token_mint@].len() > 0));
        let mut mixed_ct: Vec<u8> = vec![0u8; 768];
        let mut round: usize = 0;
        while round < MIXER_DEPTH
            invariant
                round <= MIXER_DEPTH,
                mixed_ct@.len() == 768,
                !has_entries ==> mixed_ct@ == Seq::new(768, |i: int| 0u8),
                has_entries && round > 0 ==> exists|pk: Seq<u8>, ss: Seq<u8>|
                    pk.len() == KYBER512_PK_LEN && #[trigger] kyber512_encapsulates(mixed_ct@, ss, pk),
            decreases MIXER_DEPTH - round,
        {
            if has_entries {
                let (new_pk, _new_sk) = kyber512_keypair();
                match kyber512_encapsulate(new_pk.as_slice()) {
                    Ok((ct, ss)) => {
                        mixed_ct = slice_to_vec(ct.as_slice());
                        assert(kyber512_encapsulates(mixed_ct@, ss@, new_pk@));
                    },
                    Err(_) => {
                        proof {
                            assert(false);
                        }
                    },
                }
            }
            round = round + 1;
        }
        assert(round > 0);
        let res = Some(mixed_ct);
        assert(res matches Some(ct) && ct@ == mixed_ct@);
        res
    }

    /// Whether `amount` of `token_mint` may be withdrawn with `wots_sig`: some
    /// entry of the mint's pool holds at least `amount` and passes the
    /// one-time signature check.
    pub fn withdraw(&self, token_mint: &str, amount: u64, wots_sig: &[u8]) -> (ok: bool)
        requires
            self.wf(),
            self@.contains_key(token_mint@),
        ensures
            ok == withdraw_spec(self@[token_mint@], amount, wots_sig@),
    {
        let key = String::from_str(token_mint);
        let idx = match self.find_pool(&key) {
            Some(i) => i,
            None => {
                proof {
                    let k = choose|k: int| 0 <= k < self.pools@.len() && (#[trigger] self.pools@[k]).mint@ == token_mint@;
                    assert(self.pools@[k].mint@ != token_mint@);
                }
                return false;
            },
        };
        proof {
            self.lemma_view_at(idx as int);
        }
        let entries = &self.pools[idx].entries;
        let ghost pool = self@[token_mint@];
        let n = entries.len();
        for i in 0..n
            invariant
                n == entries@.len(),
                pool == pool_view(self.pools@[idx as int]),
                pool == self@[token_mint@],
                entries == self.pools@[idx as int].entries,
                forall|j: int| 0 <= j < i ==> !((#[trigger] pool[j]).1 >= amount && signs_nonce(wots_sig@, pool[j].2)),
        {
            if entries[i].amount >= amount && verify_wots_signature(entries[i].nonce, wots_sig) {
                assert(pool[i as int].1 >= amount && signs_nonce(wots_sig@, pool[i as int].2));
                return true;
            }
        }
        false
    }
}

/// Checks a withdrawal's one-time signature against a deposit nonce: the
/// signature must be a hash-chain signature of the nonce, taken as the
/// signed 32-byte digest.
pub fn verify_wots_signature(nonce: [u8; 32], sig: &[u8]) -> (ok: bool)
    ensures
        ok == signs_nonce(sig@, nonce@),
{
    sig.len() == WOTS_SIG_LEN && wots_plus_reconstruct(sig, &nonce).is_some()
}

/// A deposit of `a` makes every withdrawal of at most `a` from the same mint
/// succeed, given a one-time signature of the deposit's nonce (such as any
/// one-time key pair makes of it, see `lemma_signed_nonce_withdraws`).
pub proof fn lemma_deposit_then_withdraw(
    pools: Map<Seq<char>, Seq<EntryView>>,
    mint: Seq<char>,
    pk: Seq<u8>,
    a: u64,
    nonce: Seq<u8>,
    amount: u64,
    sig: Seq<u8>,
)
    requires
        amount <= a,
        signs_nonce(sig, nonce),
    ensures
        after_deposit(pools, mint, (pk, a, nonce)).contains_key(mint),
        withdraw_spec(after_deposit(pools, mint, (pk, a, nonce))[mint], amount, sig),
{
    let pool = after_deposit(pools, mint, (pk, a, nonce))[mint];
    let last = pool.len() - 1;
    assert(pool[last].1 >= amount && signs_nonce(sig, pool[last].2));
}

/// What a one-time key pair signs of a deposit nonce passes the withdrawal's
/// signature check, when the nonce's chunks fit in the chains.
pub proof fn lemma_signed_nonce_withdraws(sk: Seq<u8>, nonce: Seq<u8>)
    requires
        sk.len() == 32,
        digest_fits_chains(nonce),
    ensures
        signs_nonce(wots_sign_spec(sk, nonce), nonce),
{
    lemma_sign_layout(sk, nonce, 0);
    lemma_sign_then_verify(sk, nonce);
}

/// After a deposit the mint has a non-empty pool, so a mix of that mint
/// answers with a fresh ciphertext.
pub proof fn lemma_deposit_then_mix(
    pools: Map<Seq<char>, Seq<EntryView>>,
    mint: Seq<char>,
    entry: EntryView,
)
    ensures
        after_deposit(pools, mint, entry).contains_key(mint),
        after_deposit(pools, mint, entry)[mint].len() > 0,
{
}

/// A deposit touches only the pool of its own mint, and keeps every earlier
/// entry of that pool in place.
pub proof fn lemma_deposit_frame(
    pools: Map<Seq<char>, Seq<EntryView>>,
    mint: Seq<char>,
    entry: EntryView,
    other: Seq<char>,
)
    requires
        other != mint,
    ensures
        after_deposit(pools, mint, entry).contains_key(other) == pools.contains_key(other),
        pools.contains_key(other) ==> after_deposit(pools, mint, entry)[other] == pools[other],
        after_deposit(pools, mint, entry)[mint].subrange(0, pool_or_empty(pools, mint).len() as int)
            == pool_or_empty(pools, mint),
{
    let after = after_deposit(pools, mint, entry)[mint];
    assert(after.subrange(0, pool_or_empty(pools, mint).len() as int) =~= pool_or_empty(pools, mint));
}

/// Every entry of a pool can grant a withdrawal, wherever it stands: a
/// withdrawal of at most the amount of any entry, with a full one-time
/// signature that reconstructs a key for that entry's nonce, is granted.
pub proof fn lemma_withdraw_any_entry(pool: Seq<EntryView>, i: int, amount: u64, sig: Seq<u8>)
    requires
        0 <= i < pool.len(),
        amount <= pool[i].1,
        sig.len() == WOTS_SIG_LEN,
        wots_reconstruct(sig, pool[i].2) is Some,
    ensures
        withdraw_spec(pool, amount, sig),
{
    assert(pool[i].1 >= amount && signs_nonce(sig, pool[i].2));
}

/// A withdrawal is granted only through some entry of the pool: one that
/// holds at least the amount and whose nonce the full signature signs.
pub proof fn lemma_withdraw_needs_an_entry(pool: Seq<EntryView>, amount: u64, sig: Seq<u8>)
    requires
        withdraw_spec(pool, amount, sig),
    ensures
        exists|i: int|
            0 <= i < pool.len() && (#[trigger] pool[i]).1 >= amount && sig.len() == WOTS_SIG_LEN
                && wots_reconstruct(sig, pool[i].2) is Some,
{
    let i = choose|i: int| 0 <= i < pool.len() && (#[trigger] pool[i]).1 >= amount && signs_nonce(sig, pool[i].2);
    assert(pool[i].1 >= amount);
}

/// Later deposits never take a withdrawal away: whatever is deposited
/// afterwards, to the same mint or another, a withdrawal that a mint's pool
/// granted is still granted.
pub proof fn lemma_deposit_keeps_withdrawals(
    pools: Map<Seq<char>, Seq<EntryView>>,
    mint: Seq<char>,
    other: Seq<char>,
    entry: EntryView,
    amount: u64,
    sig: Seq<u8>,
)
    requires
        pools.contains_key(mint),
        withdraw_spec(pools[mint], amount, sig),
    ensures
        after_deposit(pools, other, entry).contains_key(mint),
        withdraw_spec(after_deposit(pools, other, entry)[mint], amount, sig),
{
    let pool = pools[mint];
    let after = after_deposit(pools, other, entry)[mint];
    let i = choose|i: int| 0 <= i < pool.len() && (#[trigger] pool[i]).1 >= amount && signs_nonce(sig, pool[i].2);
    if other == mint {
        assert(after[i] == pool[i]);
    }
    assert(after[i].1 >= amount && signs_nonce(sig, after[i].2));
}

/// A depositor keeps their withdrawal when others deposit the same mint
/// after them: after a deposit of `a` with nonce `nonce` and a further
/// deposit `later` of the same mint, a full signature that reconstructs a
/// key for `nonce` withdraws every amount up to `a`.
pub proof fn lemma_first_deposit_still_withdraws(
    pools: Map<Seq<char>, Seq<EntryView>>,
    mint: Seq<char>,
    pk: Seq<u8>,
    a: u64,
    nonce: Seq<u8>,
    later: EntryView,
    amount: u64,
    sig: Seq<u8>,
)
    requires
        amount <= a,
        sig.len() == WOTS_SIG_LEN,
        wots_reconstruct(sig, nonce) is Some,
    ensures
        withdraw_spec(after_deposit(after_deposit(pools, mint, (pk, a, nonce)), mint, later)[mint], amount, sig),
{
    let first = after_deposit(pools, mint, (pk, a, nonce));
    let pool = first[mint];
    let i = pool.len() - 1;
    assert(pool[i] == (pk, a, nonce));
    lemma_withdraw_any_entry(pool, i, amount, sig);
    lemma_deposit_keeps_withdrawals(first, mint, mint, later, amount, sig);
}

} // verus!
