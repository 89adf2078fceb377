//! The relayer's decisions: reading lock events out of program logs, the
//! validity window and chain routing of a claim, RPC failover order, and
//! batching of claims for the proving step. The network work itself (RPC,
//! subscriptions, broadcasting) is done by the caller.

use vstd::prelude::*;
use vstd::string::StrSliceExecFns;
use vstd::string::StringExecFns;
use crate::primitives::{
    base64_decode, base64_decode_spec, json_parses, json_str_member, json_u64_member,
    read_lock_event_json, KYBER512_CT_LEN,
};

verus! {

/// Failures of the relayer.
#[derive(Debug)]
pub enum RelayerError {
    RpcFailover(String),
    Timeout { current: u64, lock: u64 },
    PqcVerificationFailed(String),
    BroadcastFailed { chain: String },
}

/// A lock of funds observed on the source chain.
#[derive(Debug)]
pub struct LockEvent {
    pub tx_signature: String,
    pub ct: Vec<u8>,
    pub lock_height: u64,
    pub target_chain: String,
}

/// The plain value of a lock event: signature, ciphertext, lock height and
/// target chain.
pub type LockEventView = (Seq<char>, Seq<u8>, u64, Seq<char>);

/// The plain value of `e`.
pub open spec fn lock_event_view(e: LockEvent) -> LockEventView {
    (e.tx_signature@, e.ct@, e.lock_height, e.target_chain@)
}

/// The members of a lock event's JSON payload that the relayer reads.
pub struct LockEventJson {
    pub ct: Option<String>,
    pub tx_sig: Option<String>,
    pub height: Option<u64>,
    pub target: Option<String>,
}

/// The text of an optional string.
pub open spec fn opt_text(s: Option<String>) -> Option<Seq<char>> {
    match s {
        Some(t) => Some(t@),
        None => None,
    }
}

/// Why a lock event could not be read from the program logs.
#[derive(Debug, Clone, Copy, PartialEq, Eq)]
pub enum LockEventError {
    /// No log line carries the lock-event marker.
    NoLockEvent,
    /// The payload is not JSON.
    InvalidJson,
    /// The ciphertext member is not standard Base64.
    InvalidBase64,
    /// The decoded ciphertext is not a Kyber-512 ciphertext (768 bytes).
    InvalidCiphertextLength,
}

/// The marker that the bridge program puts in a lock-event log line.
pub open spec fn lock_marker() -> Seq<char> {
    "PQC_LOCK_EVENT"@
}

/// The prefix in front of a lock event's JSON payload.
pub open spec fn event_prefix() -> Seq<char> {
    "Program log: PQC_LOCK_EVENT:"@
}

/// `p` occurs in `s` as a contiguous piece.
pub open spec fn has_substring(s: Seq<char>, p: Seq<char>) -> bool {
    exists|i: int| 0 <= i && i + p.len() <= s.len() && #[trigger] s.subrange(i, i + p.len()) == p
}

/// `s` with every leading copy of `p` removed (nothing removed for an empty `p`).
pub open spec fn trim_prefix_all(s: Seq<char>, p: Seq<char>) -> Seq<char>
    decreases s.len(),
{
    if p.len() > 0 && p.len() <= s.len() && s.subrange(0, p.len() as int) == p {
        trim_prefix_all(s.subrange(p.len() as int, s.len() as int), p)
    } else {
        s
    }
}

/// Index of the first log line at or after `i` that carries the lock-event marker.
pub open spec fn first_lock_log_from(logs: Seq<Seq<char>>, i: int) -> Option<int>
    decreases logs.len() - i,
{
    if i < 0 || i >= logs.len() {
        None
    } else if has_substring(logs[i], lock_marker()) {
        Some(i)
    } else {
        first_lock_log_from(logs, i + 1)
    }
}

/// The lock event built from a payload's members and its decoded ciphertext:
/// missing members default to an empty signature, height 0 and target "btc";
/// a ciphertext of the wrong length is refused.
pub open spec fn lock_event_from_parts_spec(
    tx_sig: Option<Seq<char>>,
    height: Option<u64>,
    target: Option<Seq<char>>,
    ct: Seq<u8>,
) -> Result<LockEventView, LockEventError> {
    if ct.len() != KYBER512_CT_LEN {
        Err(LockEventError::InvalidCiphertextLength)
    } else {
        Ok((
            match tx_sig { Some(t) => t, None => Seq::empty() },
            ct,
            match height { Some(h) => h, None => 0 },
            match target { Some(t) => t, None => "btc"@ },
        ))
    }
}

/// The lock event read from a JSON payload.
pub open spec fn lock_event_from_json_spec(text: Seq<char>) -> Result<LockEventView, LockEventError> {
    if !json_parses(text) {
        Err(LockEventError::InvalidJson)
    } else {
        let ct_text = match json_str_member(text, "ct"@) {
            Some(t) => t,
            None => Seq::empty(),
        };
        match base64_decode_spec(ct_text) {
            None => Err(LockEventError::InvalidBase64),
            Some(ct) => lock_event_from_parts_spec(
                json_str_member(text, "tx_sig"@),
                json_u64_member(text, "height"@),
                json_str_member(text, "target"@),
                ct,
            ),
        }
    }
}

/// The lock event read from program logs: the first line with the marker,
/// stripped of the log prefix, read as a JSON payload.
pub open spec fn parse_lock_event_spec(logs: Seq<Seq<char>>) -> Result<LockEventView, LockEventError> {
    match first_lock_log_from(logs, 0) {
        None => Err(LockEventError::NoLockEvent),
        Some(i) => lock_event_from_json_spec(trim_prefix_all(logs[i], event_prefix())),
    }
}

/// The plain value of a parse result.
pub open spec fn parse_result_view(r: Result<LockEvent, LockEventError>) -> Result<LockEventView, LockEventError> {
    match r {
        Ok(e) => Ok(lock_event_view(e)),
        Err(e) => Err(e),
    }
}

/// The characters of `s`.
fn chars_of(s: &str) -> (res: Vec<char>)
    ensures
        res@ == s@,
{
    let n = s.unicode_len();
    let mut res: Vec<char> = Vec::new();
    for i in 0..n
        invariant
            n == s@.len(),
            res@ == s@.subrange(0, i as int),
    {
        res.push(s.get_char(i));
        assert(res@ =~= s@.subrange(0, i + 1));
    }
    assert(res@ =~= s@);
    res
}

/// Whether `p` occurs in `s` at position `i`.
fn occurs_at(s: &Vec<char>, i: usize, p: &Vec<char>) -> (res: bool)
    requires
        i + p@.len() <= s@.len(),
    ensures
        res == (s@.subrange(i as int, i + p@.len()) == p@),
{
    let m = p.len();
    let n = s.len();
    for j in 0..m
        invariant
            m == p@.len(),
            n == s@.len(),
            i + m <= n,
            forall|k: int| 0 <= k < j ==> s@[i + k] == p@[k],
    {
        if s[i + j] != p[j] {
            assert(s@.subrange(i as int, i + p@.len())[j as int] != p@[j as int]);
            return false;
        }
    }
    assert(s@.subrange(i as int, i + p@.len()) =~= p@);
    true
}

/// Whether `pattern` occurs in `s`.
pub fn contains_str(s: &str, pattern: &str) -> (res: bool)
    ensures
        res == has_substring(s@, pattern@),
{
    let hay = chars_of(s);
    let pat = chars_of(pattern);
    let n = hay.len();
    let m = pat.len();
    if m > n {
        return false;
    }
    if m == 0 {
        assert(s@.subrange(0int, 0int + pattern@.len()) =~= pattern@);
        return true;
    }
    let last = n - m;
    for i in 0..last + 1
        invariant
            last == n - m,
            n == s@.len(),
            m == pattern@.len(),
            m <= n,
            hay@ == s@,
            pat@ == pattern@,
            forall|k: int| 0 <= k < i ==> #[trigger] s@.subrange(k, k + m) != pattern@,
    {
        if occurs_at(&hay, i, &pat) {
            return true;
        }
    }
    false
}

proof fn lemma_trim_step(s: Seq<char>, p: Seq<char>, i: int)
    requires
        p.len() > 0,
        0 <= i,
        i + p.len() <= s.len(),
        s.subrange(i, i + p.len()) == p,
    ensures
        trim_prefix_all(s.subrange(i, s.len() as int), p)
            == trim_prefix_all(s.subrange(i + p.len(), s.len() as int), p),
{
    let t = s.subrange(i, s.len() as int);
    assert(t.subrange(0, p.len() as int) =~= p);
    assert(t.subrange(p.len() as int, t.len() as int) =~= s.subrange(i + p.len(), s.len() as int));
}

/// Trimming is idempotent: what remains never starts with the prefix.
pub proof fn lemma_trim_idempotent(s: Seq<char>, p: Seq<char>)
    ensures
        trim_prefix_all(trim_prefix_all(s, p), p) == trim_prefix_all(s, p),
        p.len() > 0 && p.len() <= trim_prefix_all(s, p).len()
            ==> trim_prefix_all(s, p).subrange(0, p.len() as int) != p,
    decreases s.len(),
{
    if p.len() > 0 && p.len() <= s.len() && s.subrange(0, p.len() as int) == p {
        lemma_trim_idempotent(s.subrange(p.len() as int, s.len() as int), p);
    }
}

/// `s` with every leading copy of `prefix` removed.
pub fn trim_start_matches(s: &str, prefix: &str) -> (res: String)
    ensures
        res@ == trim_prefix_all(s@, prefix@),
{
    let hay = chars_of(s);
    let pat = chars_of(prefix);
    let n = hay.len();
    let m = pat.len();
    if m == 0 {
        return String::from_str(s);
    }
    let mut i: usize = 0;
    assert(s@.subrange(0, n as int) =~= s@);
    while m <= n - i && occurs_at(&hay, i, &pat)
        invariant
            n == s@.len(),
            m == prefix@.len(),
            m > 0,
            i <= n,
            hay@ == s@,
            pat@ == prefix@,
            trim_prefix_all(s@, prefix@) == trim_prefix_all(s@.subrange(i as int, n as int), prefix@),
        decreases n - i,
    {
        proof {
            lemma_trim_step(s@, prefix@, i as int);
        }
        i = i + m;
    }
    proof {
        let t = s@.subrange(i as int, n as int);
        if m <= t.len() {
            assert(t.subrange(0, m as int) =~= s@.subrange(i as int, i + m));
        }
    }
    String::from_str(s.substring_char(i, n))
}

/// Index of the first log line that carries the lock-event marker.
pub fn find_lock_log(logs: &[String]) -> (res: Option<usize>)
    ensures
        res matches Some(i) ==> i < logs@.len(),
        (match res {
            Some(i) => Some(i as int),
            None => None,
        }) == first_lock_log_from(logs@.map_values(|s: String| s@), 0),
{
    let ghost views = logs@.map_values(|s: String| s@);
    let n = logs.len();
    let marker = "PQC_LOCK_EVENT";
    for i in 0..n
        invariant
            n == logs@.len(),
            views == logs@.map_values(|s: String| s@),
            marker@ == lock_marker(),
            first_lock_log_from(views, 0) == first_lock_log_from(views, i as int),
    {
        if contains_str(logs[i].as_str(), marker) {
            return Some(i);
        }
    }
    None
}

/// Builds a lock event from a payload's members and its decoded ciphertext.
pub fn lock_event_from_parts(fields: LockEventJson, ct: Vec<u8>) -> (res: Result<LockEvent, LockEventError>)
    ensures
        parse_result_view(res) == lock_event_from_parts_spec(
            opt_text(fields.tx_sig),
            fields.height,
            opt_text(fields.target),
            ct@,
        ),
{
    if ct.len() != KYBER512_CT_LEN {
        return Err(LockEventError::InvalidCiphertextLength);
    }
    let tx_signature = match fields.tx_sig {
        Some(t) => t,
        None => String::new(),
    };
    let lock_height = match fields.height {
        Some(h) => h,
        None => 0,
    };
    let target_chain = match fields.target {
        Some(t) => t,
        None => String::from_str("btc"),
    };
    Ok(LockEvent { tx_signature, ct, lock_height, target_chain })
}

/// Reads a lock event from its JSON payload.
pub fn lock_event_from_json(text: &str) -> (res: Result<LockEvent, LockEventError>)
    ensures
        parse_result_view(res) == lock_event_from_json_spec(text@),
{
    let fields = match read_lock_event_json(text, "ct", "tx_sig", "height", "target") {
        Ok(f) => f,
        Err(_) => return Err(LockEventError::InvalidJson),
    };
    let ct_text = match &fields.ct {
        Some(t) => t.clone(),
        None => String::new(),
    };
    let ct = match base64_decode(ct_text.as_str()) {
        Ok(ct) => ct,
        Err(_) => return Err(LockEventError::InvalidBase64),
    };
    lock_event_from_parts(fields, ct)
}

/// Reads the lock event out of a transaction's program logs.
pub fn parse_lock_event(logs: &[String]) -> (res: Result<LockEvent, LockEventError>)
    ensures
        parse_result_view(res) == parse_lock_event_spec(logs@.map_values(|s: String| s@)),
        res matches Ok(e) ==> e.ct@.len() == KYBER512_CT_LEN,
{
    let i = match find_lock_log(logs) {
        Some(i) => i,
        None => return Err(LockEventError::NoLockEvent),
    };
    let json_str = trim_start_matches(logs[i].as_str(), "Program log: PQC_LOCK_EVENT:");
    lock_event_from_json(json_str.as_str())
}

/// The chain a claim is broadcast to.
#[derive(Debug, Clone, Copy, PartialEq, Eq)]
pub enum ClaimRoute {
    Btc,
    Ada,
}

/// Whether an event locked at `lock` is still claimable at height `current`
/// with a window of `timeout` blocks.
pub open spec fn within_window(current: u64, lock: u64, timeout: u64) -> bool {
    current <= lock + timeout
}

/// The relayer: its RPC endpoints (in failover order), the subscription
/// endpoint, the watched program, the fee payer, the claim window in blocks
/// and the claim batch size.
pub struct PqcRelayer<P> {
    rpc_urls: Vec<String>,
    ws_url: String,
    program_id: [u8; 32],
    payer: P,
    timeout_blocks: u64,
    batch_threshold: usize,
}

impl<P> PqcRelayer<P> {
    /// The RPC endpoints, in failover order.
    pub closed spec fn rpc_urls_view(&self) -> Seq<Seq<char>> {
        self.rpc_urls@.map_values(|s: String| s@)
    }

    /// The subscription endpoint.
    pub closed spec fn ws_url_view(&self) -> Seq<char> {
        self.ws_url@
    }

    /// The watched program.
    pub closed spec fn program_id_view(&self) -> [u8; 32] {
        self.program_id
    }

    /// The fee payer.
    pub closed spec fn payer_view(&self) -> P {
        self.payer
    }

    /// The claim window in blocks.
    pub closed spec fn timeout_view(&self) -> u64 {
        self.timeout_blocks
    }

    /// The number of claims that triggers a batch proof.
    pub closed spec fn batch_threshold_view(&self) -> usize {
        self.batch_threshold
    }

    /// A relayer over `rpc_urls` and `ws_url` watching `program_id`, with a
    /// window of 2 blocks and batches of 50 claims.
    pub fn new(rpc_urls: &[String], ws_url: &str, program_id: [u8; 32], payer: P) -> (r: Self)
        ensures
            r.rpc_urls_view() == rpc_urls@.map_values(|s: String| s@),
            r.ws_url_view() == ws_url@,
            r.program_id_view() == program_id,
            r.payer_view() == payer,
            r.timeout_view() == 2,
            r.batch_threshold_view() == 50,
    {
        let mut urls: Vec<String> = Vec::new();
        let n = rpc_urls.len();
        for i in 0..n
            invariant
                n == rpc_urls@.len(),
                urls@.len() == i,
                forall|j: int| 0 <= j < i ==> (#[trigger] urls@[j])@ == rpc_urls@[j]@,
        {
            urls.push(rpc_urls[i].clone());
        }
        assert(urls@.map_values(|s: String| s@) =~= rpc_urls@.map_values(|s: String| s@));
        PqcRelayer {
            rpc_urls: urls,
            ws_url: String::from_str(ws_url),
            program_id,
            payer,
            timeout_blocks: 2,
            batch_threshold: 50,
        }
    }

    /// The RPC endpoints, in failover order.
    pub fn rpc_urls(&self) -> (res: &Vec<String>)
        ensures
            res@.map_values(|s: String| s@) == self.rpc_urls_view(),
    {
        &self.rpc_urls
    }

    /// The subscription endpoint.
    pub fn ws_url(&self) -> (res: &String)
        ensures
            res@ == self.ws_url_view(),
    {
        &self.ws_url
    }

    /// The watched program.
    pub fn program_id(&self) -> (res: [u8; 32])
        ensures
            res == self.program_id_view(),
    {
        self.program_id
    }

    /// The claim window in blocks.
    pub fn timeout_blocks(&self) -> (res: u64)
        ensures
            res == self.timeout_view(),
    {
        self.timeout_blocks
    }

    /// The number of claims that triggers a batch proof.
    pub fn batch_threshold(&self) -> (res: usize)
        ensures
            res == self.batch_threshold_view(),
    {
        self.batch_threshold
    }

    /// The fee payer.
    pub fn payer(&self) -> (res: &P)
        ensures
            *res == self.payer_view(),
    {
        &self.payer
    }

    /// The first move of the endpoint failover: probe the first endpoint, or
    /// give up when there is none.
    pub fn start_rpc_failover(&self) -> (a: RpcFailoverAction)
        ensures
            a == failover_start_spec(self.rpc_urls_view().len()),
    {
        if self.rpc_urls.len() > 0 {
            RpcFailoverAction::Probe(0)
        } else {
            RpcFailoverAction::GiveUp
        }
    }

    /// The next move of the endpoint failover once endpoint `probed` has
    /// answered (`healthy`) or not: use it, probe the next one, or give up
    /// after the last.
    pub fn rpc_failover_step(&self, probed: usize, healthy: bool) -> (a: RpcFailoverAction)
        requires
            probed < self.rpc_urls_view().len(),
        ensures
            a == failover_step_spec(self.rpc_urls_view().len(), probed, healthy),
    {
        assert(self.rpc_urls@.len() == self.rpc_urls_view().len());
        if healthy {
            RpcFailoverAction::Use(probed)
        } else if probed < self.rpc_urls.len() - 1 {
            RpcFailoverAction::Probe(probed + 1)
        } else {
            RpcFailoverAction::GiveUp
        }
    }

    /// Decides what to do with a parsed lock event at chain height
    /// `current_height`: refuse it once the validity window has passed, else
    /// route it to its target chain ("btc" or "ada"); any other target fails.
    pub fn check_claim(&self, event: &LockEvent, current_height: u64) -> (res: Result<ClaimRoute, RelayerError>)
        ensures
            !within_window(current_height, event.lock_height, self.timeout_view()) ==> (res matches Err(
                RelayerError::Timeout { current, lock },
            ) && current == current_height && lock == event.lock_height),
            within_window(current_height, event.lock_height, self.timeout_view()) ==> {
                if event.target_chain@ == "btc"@ {
                    res == Ok::<ClaimRoute, RelayerError>(ClaimRoute::Btc)
                } else if event.target_chain@ == "ada"@ {
                    res == Ok::<ClaimRoute, RelayerError>(ClaimRoute::Ada)
                } else {
                    res matches Err(RelayerError::BroadcastFailed { chain }) && chain@ == event.target_chain@
                }
            },
    {
        if current_height > event.lock_height && current_height - event.lock_height > self.timeout_blocks {
            return Err(RelayerError::Timeout { current: current_height, lock: event.lock_height });
        }
        if event.target_chain == String::from_str("btc") {
            Ok(ClaimRoute::Btc)
        } else if event.target_chain == String::from_str("ada") {
            Ok(ClaimRoute::Ada)
        } else {
            Err(RelayerError::BroadcastFailed { chain: event.target_chain.clone() })
        }
    }

    /// An empty claim buffer that batches by this relayer's threshold.
    pub fn new_claim_buffer(&self) -> (b: ClaimBuffer)
        ensures
            b.wf(),
            b.threshold_view() == self.batch_threshold_view(),
            b.received() == Seq::<LockEvent>::empty(),
            b.flushed() == Seq::<Seq<LockEvent>>::empty(),
            b.pending() == Seq::<LockEvent>::empty(),
    {
        ClaimBuffer::new(self.batch_threshold)
    }
}

/// What the endpoint failover does next.
#[derive(Debug, Clone, Copy, PartialEq, Eq)]
pub enum RpcFailoverAction {
    /// Ask the endpoint of this index whether it is healthy.
    Probe(usize),
    /// Connect to the endpoint of this index.
    Use(usize),
    /// No endpoint is healthy.
    GiveUp,
}

/// The failover's first move over `n` endpoints.
pub open spec fn failover_start_spec(n: nat) -> RpcFailoverAction {
    if n > 0 {
        RpcFailoverAction::Probe(0)
    } else {
        RpcFailoverAction::GiveUp
    }
}

/// The failover's move over `n` endpoints after endpoint `probed` answered
/// `healthy`: the first healthy endpoint is used and no later one is probed.
pub open spec fn failover_step_spec(n: nat, probed: usize, healthy: bool) -> RpcFailoverAction {
    if healthy {
        RpcFailoverAction::Use(probed)
    } else if probed + 1 < n {
        RpcFailoverAction::Probe((probed + 1) as usize)
    } else {
        RpcFailoverAction::GiveUp
    }
}

/// How many more probes `a` can lead to over `n` endpoints.
pub open spec fn failover_budget(n: nat, a: RpcFailoverAction) -> int {
    match a {
        RpcFailoverAction::Probe(i) => n - i,
        _ => 0,
    }
}

/// The endpoint the failover ends on from move `a`, when `health[i]` is the
/// answer of the `i`-th endpoint: `None` when it gives up.
pub open spec fn failover_run(health: Seq<bool>, a: RpcFailoverAction) -> Option<int>
    decreases failover_budget(health.len(), a),
    when health.len() <= usize::MAX
{
    match a {
        RpcFailoverAction::Probe(i) => if i < health.len() {
            failover_run(health, failover_step_spec(health.len(), i, health[i as int]))
        } else {
            None
        },
        RpcFailoverAction::Use(i) => Some(i as int),
        RpcFailoverAction::GiveUp => None,
    }
}

/// The first index at or after `from` whose endpoint is healthy.
pub open spec fn first_healthy(health: Seq<bool>, from: int) -> Option<int>
    decreases health.len() - from,
{
    if from < 0 || from >= health.len() {
        None
    } else if health[from] {
        Some(from)
    } else {
        first_healthy(health, from + 1)
    }
}

/// The failover connects to the first healthy endpoint in the configured
/// order, and gives up exactly when none is healthy.
pub proof fn lemma_failover_uses_first_healthy(health: Seq<bool>)
    requires
        health.len() <= usize::MAX,
    ensures
        failover_run(health, failover_start_spec(health.len())) == first_healthy(health, 0),
{
    if health.len() > 0 {
        lemma_failover_from(health, 0);
    }
}

proof fn lemma_failover_from(health: Seq<bool>, i: usize)
    requires
        i < health.len(),
        health.len() <= usize::MAX,
    ensures
        failover_run(health, RpcFailoverAction::Probe(i)) == first_healthy(health, i as int),
    decreases health.len() - i,
{
    let n = health.len();
    let next = failover_step_spec(n, i, health[i as int]);
    assert(failover_run(health, RpcFailoverAction::Probe(i)) == failover_run(health, next));
    if health[i as int] {
        assert(next == RpcFailoverAction::Use(i));
    } else if i + 1 < n {
        assert(next == RpcFailoverAction::Probe((i + 1) as usize));
        lemma_failover_from(health, (i + 1) as usize);
        assert(first_healthy(health, i as int) == first_healthy(health, i + 1));
    } else {
        assert(next == RpcFailoverAction::GiveUp);
        assert(first_healthy(health, i + 1) == None::<int>);
    }
}

/// The error of a failover that gave up.
pub fn no_healthy_rpc() -> (e: RelayerError)
    ensures
        e matches RelayerError::RpcFailover(msg) && msg@ == "No healthy RPC"@,
{
    RelayerError::RpcFailover(String::from_str("No healthy RPC"))
}

/// The flushed batch, if any, as a sequence.
pub open spec fn batch_view(batch: Option<Vec<LockEvent>>) -> Option<Seq<LockEvent>> {
    match batch {
        Some(b) => Some(b@),
        None => None,
    }
}

/// One claim arriving at a buffer holding `buffer`, with batches of
/// `threshold`: the batch flushed, if any, and the buffer afterwards.
pub open spec fn batch_step(threshold: nat, buffer: Seq<LockEvent>, event: LockEvent) -> (Option<Seq<LockEvent>>, Seq<LockEvent>) {
    let b = buffer.push(event);
    if b.len() >= threshold {
        (Some(b), Seq::empty())
    } else {
        (None, b)
    }
}

/// The claims `events` arriving one by one at an empty buffer: the batches
/// flushed, in order, and the buffer left at the end.
pub open spec fn batch_run(threshold: nat, events: Seq<LockEvent>) -> (Seq<Seq<LockEvent>>, Seq<LockEvent>)
    decreases events.len(),
{
    if events.len() == 0 {
        (Seq::empty(), Seq::empty())
    } else {
        let prev = batch_run(threshold, events.drop_last());
        let step = batch_step(threshold, prev.1, events.last());
        (
            match step.0 {
                Some(b) => prev.0.push(b),
                None => prev.0,
            },
            step.1,
        )
    }
}

/// The batches `bs` concatenated in order.
pub open spec fn concat_batches(bs: Seq<Seq<LockEvent>>) -> Seq<LockEvent>
    decreases bs.len(),
{
    if bs.len() == 0 {
        Seq::empty()
    } else {
        concat_batches(bs.drop_last()) + bs.last()
    }
}

/// Over any sequence of claims: every flushed batch holds exactly
/// `threshold` claims, the batches in order followed by the pending buffer
/// are the claims in arrival order (none lost, repeated or reordered), and
/// the buffer never reaches the threshold.
pub proof fn lemma_batch_run(threshold: nat, events: Seq<LockEvent>)
    requires
        threshold >= 1,
    ensures
        concat_batches(batch_run(threshold, events).0) + batch_run(threshold, events).1 == events,
        forall|i: int| 0 <= i < batch_run(threshold, events).0.len()
            ==> (#[trigger] batch_run(threshold, events).0[i]).len() == threshold,
        batch_run(threshold, events).1.len() < threshold,
    decreases events.len(),
{
    if events.len() > 0 {
        let rest = events.drop_last();
        let e = events.last();
        lemma_batch_run(threshold, rest);
        let prev = batch_run(threshold, rest);
        let step = batch_step(threshold, prev.1, e);
        let run = batch_run(threshold, events);
        assert(concat_batches(prev.0) + prev.1 == rest);
        assert(events =~= rest.push(e));
        match step.0 {
            Some(b) => {
                assert(run.0 == prev.0.push(b));
                assert(run.0.drop_last() =~= prev.0);
                assert(concat_batches(run.0) == concat_batches(prev.0) + b);
                assert(concat_batches(run.0) + run.1 =~= events);
                assert forall|i: int| 0 <= i < run.0.len() implies (#[trigger] run.0[i]).len() == threshold by {
                    if i < prev.0.len() {
                        assert(run.0[i] == prev.0[i]);
                    }
                }
            },
            None => {
                assert(concat_batches(run.0) + run.1 =~= events);
            },
        }
    }
}

/// The claims waiting for a batch proof, together with the history of the
/// run so far: every claim received and every batch flushed, in order.
pub struct ClaimBuffer {
    threshold: usize,
    pending: Vec<LockEvent>,
    received: Ghost<Seq<LockEvent>>,
    flushed: Ghost<Seq<Seq<LockEvent>>>,
}

impl ClaimBuffer {
    /// The number of claims that makes a batch.
    pub closed spec fn threshold_view(&self) -> usize {
        self.threshold
    }

    /// The claims waiting for a batch.
    pub closed spec fn pending(&self) -> Seq<LockEvent> {
        self.pending@
    }

    /// Every claim received so far, in arrival order.
    pub closed spec fn received(&self) -> Seq<LockEvent> {
        self.received@
    }

    /// Every batch handed out so far, in order.
    pub closed spec fn flushed(&self) -> Seq<Seq<LockEvent>> {
        self.flushed@
    }

    /// The flushed batches and the pending claims are what feeding the
    /// received claims one by one to an empty buffer gives.
    pub closed spec fn wf(&self) -> bool {
        (self.flushed@, self.pending@) == batch_run(self.threshold as nat, self.received@)
    }

    /// An empty buffer that batches by `threshold` claims.
    pub fn new(threshold: usize) -> (b: Self)
        ensures
            b.wf(),
            b.threshold_view() == threshold,
            b.received() == Seq::<LockEvent>::empty(),
            b.flushed() == Seq::<Seq<LockEvent>>::empty(),
            b.pending() == Seq::<LockEvent>::empty(),
    {
        ClaimBuffer { threshold, pending: Vec::new(), received: Ghost(Seq::empty()), flushed: Ghost(Seq::empty()) }
    }

    /// Number of claims waiting for a batch.
    pub fn len(&self) -> (n: usize)
        ensures
            n == self.pending().len(),
    {
        self.pending.len()
    }

    /// Adds a claim. Once the pending claims reach the threshold their whole
    /// sequence is handed back as the batch to prove and the buffer is
    /// emptied.
    pub fn push(&mut self, event: LockEvent) -> (batch: Option<Vec<LockEvent>>)
        requires
            old(self).wf(),
        ensures
            final(self).wf(),
            final(self).threshold_view() == old(self).threshold_view(),
            final(self).received() == old(self).received().push(event),
            batch_view(batch) == batch_step(old(self).threshold_view() as nat, old(self).pending(), event).0,
            final(self).pending() == batch_step(old(self).threshold_view() as nat, old(self).pending(), event).1,
            final(self).flushed() == match batch {
                Some(b) => old(self).flushed().push(b@),
                None => old(self).flushed(),
            },
    {
        let ghost e = event;
        let ghost before = self.received@;
        proof {
            assert(before.push(e).drop_last() =~= before);
        }
        self.received = Ghost(self.received@.push(e));
        self.pending.push(event);
        if self.pending.len() >= self.threshold {
            let mut batch: Vec<LockEvent> = Vec::new();
            std::mem::swap(&mut batch, &mut self.pending);
            self.flushed = Ghost(self.flushed@.push(batch@));
            Some(batch)
        } else {
            None
        }
    }
}

/// Over the whole run of a claim buffer with a threshold of at least one:
/// every flushed batch holds exactly the threshold of claims, the batches
/// in order followed by the pending claims are the received claims in
/// arrival order, and fewer than the threshold of claims are pending.
pub proof fn lemma_claim_buffer_run(b: ClaimBuffer)
    requires
        b.wf(),
        b.threshold_view() >= 1,
    ensures
        concat_batches(b.flushed()) + b.pending() == b.received(),
        forall|i: int| 0 <= i < b.flushed().len() ==> (#[trigger] b.flushed()[i]).len() == b.threshold_view(),
        b.pending().len() < b.threshold_view(),
{
    lemma_batch_run(b.threshold_view() as nat, b.received());
}

} // verus!
