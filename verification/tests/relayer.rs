use base64::Engine;
use pqc_crosschain::relayer::{
    contains_str, find_lock_log, lock_event_from_json, parse_lock_event, trim_start_matches,
    no_healthy_rpc, ClaimBuffer, ClaimRoute, LockEvent, LockEventError, PqcRelayer, RelayerError, RpcFailoverAction,
};

fn b64(bytes: &[u8]) -> String {
    base64::engine::general_purpose::STANDARD.encode(bytes)
}

fn ct_bytes() -> Vec<u8> {
    (0..768).map(|i| (i % 251) as u8).collect()
}

fn event(target: &str, height: u64) -> LockEvent {
    LockEvent {
        tx_signature: "sig".to_string(),
        ct: vec![0u8; 768],
        lock_height: height,
        target_chain: target.to_string(),
    }
}

#[test]
fn parses_a_lock_event_log() {
    let payload = format!(
        "{{\"ct\":\"{}\",\"tx_sig\":\"5xYz\",\"height\":1234,\"target\":\"ada\"}}",
        b64(&ct_bytes())
    );
    let logs = vec![
        "Program log: Instruction: Lock".to_string(),
        format!("Program log: PQC_LOCK_EVENT:{}", payload),
    ];
    let evt = parse_lock_event(&logs).unwrap();
    assert_eq!(evt.ct, ct_bytes());
    assert_eq!(evt.tx_signature, "5xYz");
    assert_eq!(evt.lock_height, 1234);
    assert_eq!(evt.target_chain, "ada");
}

#[test]
fn missing_members_take_defaults() {
    let payload = format!("{{\"ct\":\"{}\"}}", b64(&ct_bytes()));
    let logs = vec![format!("Program log: PQC_LOCK_EVENT:{}", payload)];
    let evt = parse_lock_event(&logs).unwrap();
    assert_eq!(evt.tx_signature, "");
    assert_eq!(evt.lock_height, 0);
    assert_eq!(evt.target_chain, "btc");
}

#[test]
fn no_marker_is_refused() {
    let logs = vec!["Program log: nothing".to_string()];
    assert!(matches!(parse_lock_event(&logs), Err(LockEventError::NoLockEvent)));
    assert!(matches!(parse_lock_event(&[]), Err(LockEventError::NoLockEvent)));
}

#[test]
fn bad_json_is_refused() {
    let logs = vec!["Program log: PQC_LOCK_EVENT:{not json".to_string()];
    assert!(matches!(parse_lock_event(&logs), Err(LockEventError::InvalidJson)));
}

#[test]
fn bad_base64_is_refused() {
    let logs = vec!["Program log: PQC_LOCK_EVENT:{\"ct\":\"***\"}".to_string()];
    assert!(matches!(parse_lock_event(&logs), Err(LockEventError::InvalidBase64)));
}

#[test]
fn wrong_ciphertext_length_is_refused() {
    let logs = vec![format!("Program log: PQC_LOCK_EVENT:{{\"ct\":\"{}\"}}", b64(&[1, 2, 3]))];
    assert!(matches!(parse_lock_event(&logs), Err(LockEventError::InvalidCiphertextLength)));
    // a missing ciphertext decodes to nothing, which is too short
    assert!(matches!(lock_event_from_json("{}"), Err(LockEventError::InvalidCiphertextLength)));
}

#[test]
fn first_marked_line_is_used() {
    let good = format!("Program log: PQC_LOCK_EVENT:{{\"ct\":\"{}\",\"height\":7}}", b64(&ct_bytes()));
    let logs = vec![
        "x".to_string(),
        good.clone(),
        "Program log: PQC_LOCK_EVENT:{".to_string(),
    ];
    assert_eq!(find_lock_log(&logs), Some(1));
    assert_eq!(parse_lock_event(&logs).unwrap().lock_height, 7);
}

#[test]
fn substring_search() {
    assert!(contains_str("abc PQC_LOCK_EVENT def", "PQC_LOCK_EVENT"));
    assert!(!contains_str("PQC_LOCK_EVEN", "PQC_LOCK_EVENT"));
    assert!(contains_str("anything", ""));
    assert!(contains_str("ééx", "éx"));
}

#[test]
fn prefix_trimming_repeats() {
    assert_eq!(trim_start_matches("ababc", "ab"), "c");
    let once = trim_start_matches("abab", "ab");
    assert_eq!(once, "");
    assert_eq!(trim_start_matches(&once, "ab"), once);
    assert_eq!(trim_start_matches("abc", ""), "abc");
    assert_eq!(trim_start_matches("xab", "ab"), "xab");
    assert_eq!(
        trim_start_matches("Program log: PQC_LOCK_EVENT:{}", "Program log: PQC_LOCK_EVENT:"),
        "{}"
    );
}

#[test]
fn relayer_defaults() {
    let urls = vec!["http://a".to_string(), "http://b".to_string()];
    let r = PqcRelayer::new(&urls, "ws://w", [1u8; 32], ());
    assert_eq!(r.rpc_urls(), &urls);
    assert_eq!(r.ws_url(), "ws://w");
    assert_eq!(r.program_id(), [1u8; 32]);
    assert_eq!(r.timeout_blocks(), 2);
    assert_eq!(r.batch_threshold(), 50);
    assert_eq!(r.payer(), &());
}

#[test]
fn rpc_failover_order() {
    let urls = vec!["http://a".to_string(), "http://b".to_string()];
    let r = PqcRelayer::new(&urls, "ws://w", [0u8; 32], ());
    assert_eq!(r.start_rpc_failover(), RpcFailoverAction::Probe(0));
    assert_eq!(r.rpc_failover_step(0, false), RpcFailoverAction::Probe(1));
    assert_eq!(r.rpc_failover_step(1, false), RpcFailoverAction::GiveUp);
    assert_eq!(r.rpc_failover_step(0, true), RpcFailoverAction::Use(0));
    assert_eq!(r.rpc_failover_step(1, true), RpcFailoverAction::Use(1));
    let none = PqcRelayer::new(&[], "ws://w", [0u8; 32], ());
    assert_eq!(none.start_rpc_failover(), RpcFailoverAction::GiveUp);
    match no_healthy_rpc() {
        RelayerError::RpcFailover(msg) => assert_eq!(msg, "No healthy RPC"),
        other => panic!("unexpected {:?}", other),
    }
}

#[test]
fn failover_uses_the_first_healthy_endpoint() {
    let urls: Vec<String> = (0..4).map(|i| format!("http://rpc{}", i)).collect();
    let r = PqcRelayer::new(&urls, "ws://w", [0u8; 32], ());
    let health = [false, false, true, true];
    let mut probed = Vec::new();
    let mut action = r.start_rpc_failover();
    let used = loop {
        match action {
            RpcFailoverAction::Probe(i) => {
                probed.push(i);
                action = r.rpc_failover_step(i, health[i]);
            }
            RpcFailoverAction::Use(i) => break Some(i),
            RpcFailoverAction::GiveUp => break None,
        }
    };
    assert_eq!(used, Some(2));
    assert_eq!(probed, vec![0, 1, 2]);
}

#[test]
fn claim_window_of_two_blocks() {
    let r = PqcRelayer::new(&[], "ws://w", [0u8; 32], ());
    assert_eq!(r.check_claim(&event("btc", 100), 102).unwrap(), ClaimRoute::Btc);
    assert_eq!(r.check_claim(&event("ada", 100), 100).unwrap(), ClaimRoute::Ada);
    match r.check_claim(&event("btc", 100), 103) {
        Err(RelayerError::Timeout { current, lock }) => {
            assert_eq!(current, 103);
            assert_eq!(lock, 100);
        }
        other => panic!("unexpected {:?}", other),
    }
    match r.check_claim(&event("eth", 100), 101) {
        Err(RelayerError::BroadcastFailed { chain }) => assert_eq!(chain, "eth"),
        other => panic!("unexpected {:?}", other),
    }
}

#[test]
fn claims_are_batched_by_fifty() {
    let r = PqcRelayer::new(&[], "ws://w", [0u8; 32], ());
    let mut buffer = r.new_claim_buffer();
    for h in 0..49u64 {
        assert!(buffer.push(event("btc", h)).is_none());
    }
    assert_eq!(buffer.len(), 49);
    let batch = buffer.push(event("btc", 49)).unwrap();
    assert_eq!(batch.len(), 50);
    assert_eq!(buffer.len(), 0);
    for (i, e) in batch.iter().enumerate() {
        assert_eq!(e.lock_height, i as u64);
    }
    assert!(buffer.push(event("ada", 50)).is_none());
    assert_eq!(buffer.len(), 1);
}

#[test]
fn a_long_run_of_claims_is_cut_into_full_batches() {
    let r = PqcRelayer::new(&[], "ws://w", [0u8; 32], ());
    let mut buffer = r.new_claim_buffer();
    let mut flushed: Vec<u64> = Vec::new();
    for h in 0..137u64 {
        if let Some(batch) = buffer.push(event("btc", h)) {
            assert_eq!(batch.len(), 50);
            flushed.extend(batch.iter().map(|e| e.lock_height));
        }
        assert!(buffer.len() < 50);
    }
    assert_eq!(flushed, (0..100u64).collect::<Vec<_>>());
    assert_eq!(buffer.len(), 37);
}

#[test]
fn a_buffer_of_threshold_one_flushes_every_claim() {
    let mut buffer = ClaimBuffer::new(1);
    let batch = buffer.push(event("ada", 9)).unwrap();
    assert_eq!(batch.len(), 1);
    assert_eq!(batch[0].lock_height, 9);
    assert_eq!(buffer.len(), 0);
}

#[test]
fn claim_window_near_the_top_of_the_height_range() {
    let r = PqcRelayer::new(&[], "ws://w", [0u8; 32], ());
    assert_eq!(r.check_claim(&event("btc", u64::MAX), u64::MAX).unwrap(), ClaimRoute::Btc);
    assert_eq!(r.check_claim(&event("ada", u64::MAX - 1), 5).unwrap(), ClaimRoute::Ada);
    match r.check_claim(&event("btc", u64::MAX - 3), u64::MAX) {
        Err(RelayerError::Timeout { current, lock }) => {
            assert_eq!(current, u64::MAX);
            assert_eq!(lock, u64::MAX - 3);
        }
        other => panic!("unexpected {:?}", other),
    }
}
