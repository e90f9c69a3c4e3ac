use ai_distro_agent::audit::{
    action_outcome_event, append_audit_record, compute_chain_hash, compute_chain_hash_sha256,
    rotated_log_path, rotation_anchor_event, should_rotate, AuditChainState, AuditEvent, AuditValue,
};
use ai_distro_agent::model::{ok_response, ActionRequest};

fn event(action: &str) -> AuditEvent {
    AuditEvent {
        fields: vec![
            ("type".to_string(), AuditValue::Text("action_outcome".to_string())),
            ("action".to_string(), AuditValue::Text(action.to_string())),
            ("status".to_string(), AuditValue::Text("ok".to_string())),
        ],
    }
}

#[test]
fn chain_hash_is_deterministic() {
    let event = r#"{"action":"ping","status":"ok"}"#;
    let a = compute_chain_hash(1, "genesis", event);
    let b = compute_chain_hash(1, "genesis", event);
    let c = compute_chain_hash(2, "genesis", event);
    assert_eq!(a, b);
    assert_ne!(a, c);
}

#[test]
fn chain_hash_is_sha256_of_joined_fields() {
    assert_eq!(
        compute_chain_hash_sha256(1, "a", "b"),
        "02d7ffdd9af64865614500294ee29085b92b096022c902dfee578573ad648a36"
    );
    assert_eq!(
        compute_chain_hash(1, "genesis", "x"),
        "62186b63e5a127b93301045b2f3bffffc34a66b71baba462bbf98b12fc65c618"
    );
    assert_eq!(
        compute_chain_hash(0, "", ""),
        "72b4abaee3cdf325c4a4c8003fe77d50b69f6e87b5ba1eb7b9fb7bbd467f777c"
    );
}

#[test]
fn append_audit_record_advances_chain_state() {
    let mut state = AuditChainState {
        seq: 0,
        last_hash: "genesis".to_string(),
    };
    let record = append_audit_record(&mut state, &event("ping"));
    assert_eq!(state.seq, 1);
    assert_ne!(state.last_hash, "genesis");
    assert_eq!(record.chain_hash, state.last_hash);
}

#[test]
fn successive_records_link_up() {
    let mut state = AuditChainState::initial();
    assert_eq!(state.seq, 0);
    assert_eq!(state.last_hash, "genesis_sha256");
    let r1 = append_audit_record(&mut state, &event("ping"));
    let r2 = append_audit_record(&mut state, &event("open_app"));
    let r3 = append_audit_record(&mut state, &event("ping"));
    assert_eq!((r1.seq, r2.seq, r3.seq), (1, 2, 3));
    assert_eq!(r1.prev_hash, "genesis_sha256");
    assert_eq!(r2.prev_hash, r1.chain_hash);
    assert_eq!(r3.prev_hash, r2.chain_hash);
    assert_ne!(r1.chain_hash, r3.chain_hash);
    assert!(r2.line.contains(&format!("\"prev_hash\":\"{}\"", r1.chain_hash)));
    assert!(r2.line.contains(&format!("\"chain_hash\":\"{}\"", r2.chain_hash)));
}

#[test]
fn chain_hash_covers_the_record_without_its_hash() {
    let mut state = AuditChainState { seq: 4, last_hash: "prev".to_string() };
    let mut linked = event("ping");
    linked.fields.push(("seq".to_string(), AuditValue::Number(5)));
    linked.fields.push(("prev_hash".to_string(), AuditValue::Text("prev".to_string())));
    let expected = compute_chain_hash(5, "prev", &linked.to_json());
    let record = append_audit_record(&mut state, &event("ping"));
    assert_eq!(record.chain_hash, expected);
}

#[test]
fn sequence_saturates() {
    let mut state = AuditChainState { seq: u64::MAX, last_hash: "h".to_string() };
    let record = append_audit_record(&mut state, &event("ping"));
    assert_eq!(record.seq, u64::MAX);
    assert_eq!(state.seq, u64::MAX);
}

#[test]
fn rotation_threshold() {
    assert!(!should_rotate(0, Some(10_000_000)));
    assert!(!should_rotate(100, None));
    assert!(!should_rotate(100, Some(99)));
    assert!(should_rotate(100, Some(100)));
    assert!(should_rotate(5 * 1024 * 1024, Some(6 * 1024 * 1024)));
}

#[test]
fn rotation_anchor_continues_the_chain() {
    let mut state = AuditChainState::initial();
    let last = append_audit_record(&mut state, &event("ping"));
    let archived = rotated_log_path("/var/log/audit.jsonl", 1700000000);
    assert_eq!(archived, "/var/log/audit.jsonl.1700000000.jsonl");
    let anchor = append_audit_record(&mut state, &rotation_anchor_event(1700000001, &archived));
    assert_eq!(anchor.prev_hash, last.chain_hash);
    assert_eq!(anchor.seq, last.seq + 1);
    assert!(anchor.line.contains("\"type\":\"rotation_anchor\""));
    assert!(anchor.line.contains("\"rotated_file\":\"/var/log/audit.jsonl.1700000000.jsonl\""));
}

#[test]
fn outcome_event_never_holds_the_payload() {
    let req = ActionRequest {
        version: None,
        name: "remember".to_string(),
        payload: Some("secret note é".to_string()),
    };
    let resp = ok_response("remember", "I'll remember that.");
    let ev = action_outcome_event(&req, &resp, 99);
    let text = ev.to_json();
    assert!(!text.contains("secret"));
    assert!(text.contains("\"payload_len\":14"));
    assert!(text.contains("\"request_version\":1"));
    assert!(text.contains("\"has_confirmation_id\":false"));
    assert!(text.contains("\"ts\":99"));
    let none = ActionRequest { version: Some(1), name: "ping".to_string(), payload: None };
    let text = action_outcome_event(&none, &resp, 1).to_json();
    assert!(text.contains("\"payload_hash\":null"));
    assert!(text.contains("\"payload_len\":0"));
}
