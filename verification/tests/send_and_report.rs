use base64::Engine;
use rpc_bench::builder::SignedTransaction;
use rpc_bench::config::SenderConfig;
use rpc_bench::quote::{parse_u128, scale_out_amount, u128_to_decimal, QuoteError};
use rpc_bench::report::{signature_batches, LandedCounts, STATUS_BATCH_SIZE};
use rpc_bench::rounds::{pause_after_round, round_order};
use rpc_bench::sender::{authenticated_url, plan_send_targets, request_body, transaction_request_body, SendError};
use rpc_bench::tracker::Tracker;

fn sender(urls: &[&str], api_key: Option<&str>, header: Option<&str>) -> SenderConfig {
    SenderConfig {
        name: "s".to_string(),
        urls: urls.iter().map(|u| u.to_string()).collect(),
        tip_addresses: vec![],
        api_key: api_key.map(|k| k.to_string()),
        header: header.map(|h| h.to_string()),
    }
}

#[test]
fn api_key_joins_the_query() {
    assert_eq!(authenticated_url(&"https://x.io/rpc".to_string(), &"k1".to_string()), "https://x.io/rpc?api-key=k1");
    assert_eq!(authenticated_url(&"https://x.io/rpc?a=b".to_string(), &"k1".to_string()), "https://x.io/rpc?a=b&api-key=k1");
}

#[test]
fn plans_follow_the_authentication_mode() {
    let plain = plan_send_targets(&sender(&["https://a", "https://b"], None, None)).unwrap();
    assert_eq!(plain.len(), 2);
    assert_eq!(plain[1].url, "https://b");
    assert!(plain[0].header.is_none());
    let in_url = plan_send_targets(&sender(&["https://a"], Some("key"), None)).unwrap();
    assert_eq!(in_url[0].url, "https://a?api-key=key");
    let header = plan_send_targets(&sender(&["https://a"], Some("key"), Some("x-api-key"))).unwrap();
    assert_eq!(header[0].url, "https://a");
    assert_eq!(header[0].header, Some(("x-api-key".to_string(), "key".to_string())));
}

#[test]
fn bad_headers_are_refused() {
    assert_eq!(
        plan_send_targets(&sender(&["https://a"], Some("key"), Some("bad header"))).unwrap_err(),
        SendError::InvalidHeaderName { header: "bad header".to_string() }
    );
    assert_eq!(
        plan_send_targets(&sender(&["https://a"], Some("key\n"), Some("x-api-key"))).unwrap_err(),
        SendError::InvalidApiKey { header: "x-api-key".to_string() }
    );
    assert!(plan_send_targets(&sender(&[], Some("key\n"), Some("bad header"))).unwrap().is_empty());
    assert!(plan_send_targets(&sender(&["https://a"], Some("tab\tand ünïcode"), Some("X-Key_1"))).is_ok());
}

#[test]
fn request_body_matches_serde_json() {
    let wire = vec![1u8, 2, 3, 250];
    let body = request_body(&wire);
    let mut options = serde_json::Map::new();
    options.insert("encoding".to_string(), serde_json::Value::from("base64"));
    options.insert("skipPreflight".to_string(), serde_json::Value::from(true));
    options.insert("maxRetries".to_string(), serde_json::Value::from(0));
    let mut req = serde_json::Map::new();
    req.insert("jsonrpc".to_string(), serde_json::Value::from("2.0"));
    req.insert("id".to_string(), serde_json::Value::from(1));
    req.insert("method".to_string(), serde_json::Value::from("sendTransaction"));
    req.insert(
        "params".to_string(),
        serde_json::Value::Array(vec![serde_json::Value::from("AQID+g=="), serde_json::Value::Object(options)]),
    );
    let parsed: serde_json::Value = serde_json::from_str(&body).unwrap();
    assert_eq!(parsed, serde_json::Value::Object(req));
    assert!(body.contains("\"AQID+g==\""));
}

#[test]
fn tracker_reads_back_what_was_recorded() {
    let mut t = Tracker::new();
    t.record_signature([1; 64], "a".to_string());
    t.record_signature([2; 64], "b".to_string());
    assert_eq!(t.len(), 2);
    assert_eq!(t.sender_of(&[1; 64]), Some(&"a".to_string()));
    t.record_signature([1; 64], "c".to_string());
    assert_eq!(t.len(), 2);
    assert_eq!(t.sender_of(&[1; 64]), Some(&"c".to_string()));
    assert_eq!(t.sender_of(&[2; 64]), Some(&"b".to_string()));
    assert_eq!(t.sender_of(&[3; 64]), None);
    assert_eq!(t.signatures(), vec![[1; 64], [2; 64]]);
}

#[test]
fn signatures_are_batched_by_two_hundred() {
    let sigs: Vec<[u8; 64]> = (0..450u32).map(|i| { let mut s = [0u8; 64]; s[0..4].copy_from_slice(&i.to_le_bytes()); s }).collect();
    let batches = signature_batches(&sigs, STATUS_BATCH_SIZE);
    assert_eq!(batches.iter().map(|b| b.len()).collect::<Vec<_>>(), vec![200, 200, 50]);
    assert_eq!(batches.concat(), sigs);
    assert!(signature_batches(&vec![], 200).is_empty());
}

#[test]
fn landed_transactions_are_counted_and_ranked() {
    let names = vec!["a".to_string(), "b".to_string(), "a".to_string(), "c".to_string()];
    let mut counts = LandedCounts::new(&names);
    assert_eq!(counts.ranked(), vec![("a".to_string(), 0), ("b".to_string(), 0), ("c".to_string(), 0)]);
    let mut t = Tracker::new();
    t.record_signature([1; 64], "b".to_string());
    t.record_signature([2; 64], "c".to_string());
    t.record_signature([3; 64], "b".to_string());
    t.record_signature([4; 64], "a".to_string());
    let sigs = vec![[1; 64], [2; 64], [3; 64], [4; 64], [9; 64]];
    counts.record_batch(&t, &sigs, &[true, true, true, false, true]);
    assert_eq!(counts.total(), 3);
    assert_eq!(counts.ranked(), vec![("b".to_string(), 2), ("c".to_string(), 1), ("a".to_string(), 0)]);
    counts.record_batch(&t, &sigs[3..], &[true]);
    assert_eq!(counts.total(), 4);
    assert_eq!(counts.ranked(), vec![("b".to_string(), 2), ("a".to_string(), 1), ("c".to_string(), 1)]);
}

#[test]
fn decimal_amounts_parse_like_std() {
    for text in ["0", "12", "+7", "007", "340282366920938463463374607431768211455", "", "+", "-1", "1a", " 1", "340282366920938463463374607431768211456"] {
        assert_eq!(parse_u128(text), text.parse::<u128>().ok(), "{}", text);
    }
    for n in [0u128, 9, 10, 1234567890, u128::MAX] {
        assert_eq!(u128_to_decimal(n), n.to_string());
    }
}

#[test]
fn out_amount_is_scaled_tenfold() {
    assert_eq!(scale_out_amount("123456"), Ok("1234560".to_string()));
    assert_eq!(scale_out_amount("0"), Ok("0".to_string()));
    assert_eq!(scale_out_amount("12.5"), Err(QuoteError::InvalidAmount));
}

#[test]
fn transaction_body_carries_the_wire_bytes() {
    let tx = SignedTransaction { signature: [9; 64], message: vec![0x80, 1, 0, 0] };
    let body = transaction_request_body(&tx);
    let parsed: serde_json::Value = serde_json::from_str(&body).unwrap();
    let payload = parsed["params"][0].as_str().unwrap();
    let bytes = base64::engine::general_purpose::STANDARD.decode(payload).unwrap();
    assert_eq!(bytes, tx.wire_bytes());
    assert_eq!(body, request_body(&tx.wire_bytes()));
}

#[test]
fn rounds_pause_only_after_sent_rounds_but_the_last() {
    assert!(pause_after_round(0, 3, true));
    assert!(pause_after_round(1, 3, true));
    assert!(!pause_after_round(2, 3, true));
    assert!(!pause_after_round(0, 3, false));
    assert!(!pause_after_round(0, 1, true));
    assert!(!pause_after_round(usize::MAX, usize::MAX, true));
}

#[test]
fn round_order_serves_every_sender_once() {
    for count in [0usize, 1, 5, 40] {
        let mut order = round_order(count);
        assert_eq!(order.len(), count);
        order.sort();
        assert_eq!(order, (0..count).collect::<Vec<_>>());
    }
}
