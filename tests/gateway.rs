use zap_gateway::engine::{
    answer_verdict, conclude, handle_message, validate, AuthConfig, Pending, Rejection, Step,
};
use zap_gateway::frames::{decimal_text, parse_request, response_frames, Frame, Parsed, ZapResponse};
use zap_gateway::policy::{
    allow_list_holds, entitled, grants, policy_for, same_bytes, Policy, ServiceReply,
};
use zap_gateway::session::{advance, Fault, LoopAction, LoopEvent, LoopState};
use zap_gateway::z85::{decode_key, digit_of, encode_key, is_z85_text};

fn frame(data: &[u8], more: bool) -> Frame {
    Frame { data: data.to_vec(), more }
}

fn request(version: &str, domain: &str, mechanism: &str, credentials: &[&[u8]]) -> Vec<Frame> {
    let mut f = vec![
        frame(b"peer-42", true),
        frame(b"", true),
        frame(version.as_bytes(), true),
        frame(b"r1", true),
        frame(domain.as_bytes(), true),
        frame(b"127.0.0.1", true),
        frame(b"", true),
    ];
    f.push(frame(mechanism.as_bytes(), !credentials.is_empty()));
    for (i, c) in credentials.iter().enumerate() {
        f.push(frame(c, i + 1 < credentials.len()));
    }
    f
}

fn config(required: &str, allow_list: &str) -> AuthConfig {
    AuthConfig {
        required_service_name: required.to_string(),
        allow_list: allow_list.as_bytes().to_vec(),
    }
}

fn texts(frames: &[Frame]) -> Vec<(Vec<u8>, bool)> {
    frames.iter().map(|f| (f.data.clone(), f.more)).collect()
}

fn respond(step: Step) -> ZapResponse {
    match step {
        Step::Respond(r) => r,
        _ => panic!("expected a response"),
    }
}

fn pending(step: Step) -> Pending {
    match step {
        Step::Consult(p) => p,
        _ => panic!("expected a consultation"),
    }
}

const ZEROS: [u8; 32] = [0u8; 32];

#[test]
fn frontend_request_with_active_entitlement_is_accepted() {
    let cfg = config("services", "");
    let p = pending(handle_message(&cfg, &request("1.0", "frontend", "CURVE", &[&ZEROS])));
    assert_eq!(p.key_text, vec![b'0'; 40]);
    let reply = ServiceReply { active: Some(true), service_name: Some("services".to_string()) };
    let resp = conclude(p, &cfg, &reply);
    let expected: Vec<(Vec<u8>, bool)> = vec![
        (b"peer-42".to_vec(), true),
        (b"".to_vec(), true),
        (b"1.0".to_vec(), true),
        (b"r1".to_vec(), true),
        (b"200".to_vec(), true),
        (b"OK".to_vec(), true),
        (vec![b'0'; 40], true),
        (b"".to_vec(), false),
    ];
    assert_eq!(texts(&response_frames(resp)), expected);
}

#[test]
fn service_name_comparison_ignores_case() {
    let cfg = config("Services", "");
    let key: Vec<u8> = (0u8..32).collect();
    let p = pending(handle_message(&cfg, &request("1.0", "frontend", "CURVE", &[&key])));
    let text = encode_key(&key);
    let reply = ServiceReply { active: Some(true), service_name: Some("SERVICES".to_string()) };
    let resp = conclude(p, &cfg, &reply);
    assert_eq!(resp.status_code, 200);
    assert_eq!(resp.status_text, b"OK".to_vec());
    assert_eq!(resp.user_id, text);
}

#[test]
fn inactive_entitlement_gives_unknown_key() {
    let cfg = config("services", "");
    let p = pending(handle_message(&cfg, &request("1.0", "frontend", "CURVE", &[&ZEROS])));
    let reply = ServiceReply { active: Some(false), service_name: None };
    let resp = conclude(p, &cfg, &reply);
    assert_eq!(resp.status_code, 400);
    assert_eq!(resp.status_text, b"Unknown Key".to_vec());
    assert_eq!(resp.user_id, Vec::<u8>::new());
    assert_eq!(resp.request_id, b"r1".to_vec());
}

#[test]
fn missing_active_flag_or_other_service_is_refused() {
    let cfg = config("services", "");
    let none = ServiceReply { active: None, service_name: Some("services".to_string()) };
    assert!(!entitled(&none, "services"));
    let other = ServiceReply { active: Some(true), service_name: Some("billing".to_string()) };
    assert!(!entitled(&other, "services"));
    let p = pending(handle_message(&cfg, &request("1.0", "frontend", "CURVE", &[&ZEROS])));
    assert_eq!(conclude(p, &cfg, &other).status_code, 400);
}

#[test]
fn backend_key_on_allow_list_is_accepted_without_service() {
    let key = [7u8; 32];
    let text = String::from_utf8(encode_key(&key)).unwrap();
    let cfg = config("services", &text);
    let resp = respond(handle_message(&cfg, &request("1.0", "backend", "CURVE", &[&key])));
    assert_eq!(resp.status_code, 200);
    assert_eq!(resp.status_text, b"OK".to_vec());
    assert_eq!(resp.user_id, text.as_bytes().to_vec());
}

#[test]
fn backend_key_off_allow_list_is_unknown() {
    let cfg = config("services", "someotherkey");
    let resp = respond(handle_message(&cfg, &request("1.0", "backend", "CURVE", &[&ZEROS])));
    assert_eq!(resp.status_code, 400);
    assert_eq!(resp.status_text, b"Unknown Key".to_vec());
    assert!(resp.user_id.is_empty());
}

#[test]
fn wrong_version_is_rejected() {
    let cfg = config("services", "");
    let resp = respond(handle_message(&cfg, &request("2.0", "frontend", "CURVE", &[&ZEROS])));
    assert_eq!(resp.status_code, 500);
    assert_eq!(resp.status_text, b"unsupported version".to_vec());
    let resp = respond(handle_message(&cfg, &request("0.9", "backend", "PLAIN", &[])));
    assert_eq!(resp.status_code, 500);
    assert_eq!(resp.status_text, b"unsupported version".to_vec());
}

#[test]
fn wrong_mechanism_or_credential_count_is_rejected() {
    let cfg = config("services", "");
    let resp = respond(handle_message(&cfg, &request("1.0", "frontend", "PLAIN", &[&ZEROS])));
    assert_eq!(resp.status_code, 500);
    assert_eq!(resp.status_text, b"unsupported mechanism".to_vec());
    let resp = respond(handle_message(&cfg, &request("1.0", "frontend", "CURVE", &[])));
    assert_eq!(resp.status_code, 500);
    assert_eq!(resp.status_text, b"unsupported mechanism".to_vec());
    let resp = respond(handle_message(&cfg, &request("1.0", "frontend", "CURVE", &[&ZEROS, &ZEROS])));
    assert_eq!(resp.status_code, 500);
    assert_eq!(resp.status_text, b"unsupported mechanism".to_vec());
}

#[test]
fn wrong_key_length_is_rejected() {
    let cfg = config("services", "");
    for len in [0usize, 31, 33] {
        let key = vec![0xabu8; len];
        let resp = respond(handle_message(&cfg, &request("1.0", "frontend", "CURVE", &[&key])));
        assert_eq!(resp.status_code, 500);
        assert_eq!(resp.status_text, b"wrong key length".to_vec());
        assert!(resp.user_id.is_empty());
    }
}

#[test]
fn validate_returns_the_key() {
    let key: Vec<u8> = (100u8..132).collect();
    match parse_request(&request("1.0", "frontend", "CURVE", &[&key])) {
        Parsed::Request(q) => {
            assert_eq!(q.envelope, vec![b"peer-42".to_vec(), Vec::new()]);
            assert_eq!(q.domain, b"frontend".to_vec());
            assert_eq!(q.credentials, vec![key.clone()]);
            assert_eq!(validate(&q), Ok(key));
        }
        _ => panic!("expected a request"),
    }
    match parse_request(&request("1.1", "frontend", "CURVE", &[&ZEROS])) {
        Parsed::Request(q) => assert_eq!(validate(&q), Err(Rejection::UnsupportedVersion)),
        _ => panic!("expected a request"),
    }
}

#[test]
fn message_ending_before_request_id_is_not_answered() {
    let cfg = config("services", "");
    let no_delimiter = vec![frame(b"peer", true), frame(b"more", false)];
    assert!(matches!(handle_message(&cfg, &no_delimiter), Step::Ignore));
    let version_only = vec![frame(b"peer", true), frame(b"", true), frame(b"1.0", false)];
    assert!(matches!(parse_request(&version_only), Parsed::Unanswerable));
    assert!(matches!(parse_request(&Vec::new()), Parsed::Unanswerable));
}

#[test]
fn message_ending_after_request_id_is_answered_with_error() {
    let cfg = config("services", "");
    let cut = vec![
        frame(b"peer", true),
        frame(b"", true),
        frame(b"1.0", true),
        frame(b"r9", true),
        frame(b"frontend", false),
    ];
    let resp = respond(handle_message(&cfg, &cut));
    assert_eq!(resp.status_code, 500);
    assert_eq!(resp.request_id, b"r9".to_vec());
    assert_eq!(resp.envelope, vec![b"peer".to_vec(), Vec::new()]);
    assert_eq!(resp.status_text, b"incomplete request".to_vec());
}

#[test]
fn credentials_run_to_the_last_frame() {
    let mut f = request("1.0", "frontend", "CURVE", &[b"a", b"bb", b"ccc"]);
    match parse_request(&f) {
        Parsed::Request(q) => {
            assert_eq!(q.credentials, vec![b"a".to_vec(), b"bb".to_vec(), b"ccc".to_vec()]);
            assert_eq!(q.mechanism, b"CURVE".to_vec());
        }
        _ => panic!("expected a request"),
    }
    let last = f.len() - 1;
    f[last].more = true;
    assert!(matches!(parse_request(&f), Parsed::Truncated { .. }));
}

#[test]
fn key_encoding_round_trips() {
    let key: Vec<u8> = (0u8..32).map(|i| i.wrapping_mul(37).wrapping_add(11)).collect();
    let text = encode_key(&key);
    assert_eq!(text.len(), 40);
    let s = String::from_utf8(text.clone()).unwrap();
    let back = decode_key(&s).unwrap();
    assert_eq!(back, key);
    assert_eq!(encode_key(&back), text);
}

#[test]
fn z85_known_vector() {
    let hello = [0x86u8, 0x4F, 0xD2, 0x6F, 0xB5, 0x59, 0xF7, 0x5B];
    assert_eq!(decode_key("HelloWorld"), Some(hello.to_vec()));
    let key: Vec<u8> = hello.iter().cycle().take(32).cloned().collect();
    assert_eq!(encode_key(&key), b"HelloWorld".repeat(4));
}

#[test]
fn invalid_z85_text_is_refused() {
    assert_eq!(decode_key("Hello"), Some(vec![0x86, 0x4F, 0xD2, 0x6F]));
    assert_eq!(decode_key("Hell"), None);
    assert_eq!(decode_key("Hell\""), None);
    assert_eq!(decode_key("#####"), None);
    assert!(is_z85_text(b""));
    assert!(!is_z85_text(b"abc~e"));
    assert_eq!(digit_of(b'#'), 84);
    assert_eq!(digit_of(b'Z'), 61);
    assert_eq!(digit_of(b' '), 85);
}

#[test]
fn decimal_status_codes() {
    assert_eq!(decimal_text(500), b"500".to_vec());
    assert_eq!(decimal_text(0), b"0".to_vec());
    assert_eq!(decimal_text(65535), b"65535".to_vec());
}

#[test]
fn allow_list_and_policy() {
    assert!(allow_list_holds(b"key1,key2", b"key2"));
    assert!(!allow_list_holds(b"key1,key2", b"key3"));
    assert!(!allow_list_holds(b"ke", b"key"));
    assert!(allow_list_holds(b"anything", b""));
    assert_eq!(policy_for(b"frontend"), Policy::ExternalEntitlement);
    assert_eq!(policy_for(b"backend"), Policy::StaticAllowList);
    assert_eq!(policy_for(b"Frontend"), Policy::StaticAllowList);
    assert!(same_bytes(b"abc", b"abc"));
    assert!(!same_bytes(b"abc", b"abd"));
    assert!(grants(true, &"x".to_string(), &"x".to_string()));
    assert!(!grants(false, &"x".to_string(), &"x".to_string()));
}

#[test]
fn answer_verdict_lays_out_both_outcomes() {
    let p = Pending { envelope: vec![Vec::new()], request_id: b"id".to_vec(), key_text: b"k".to_vec() };
    let r = answer_verdict(p, true);
    assert_eq!((r.status_code, r.user_id), (200, b"k".to_vec()));
    let p = Pending { envelope: vec![Vec::new()], request_id: b"id".to_vec(), key_text: b"k".to_vec() };
    let r = answer_verdict(p, false);
    assert_eq!((r.status_code, r.user_id), (400, Vec::new()));
}

fn sent(action: LoopAction) -> Vec<(Vec<u8>, bool)> {
    match action {
        LoopAction::Send(f) => texts(&f),
        _ => panic!("expected a send"),
    }
}

#[test]
fn requests_are_answered_in_order() {
    let cfg = config("services", "");
    let mut first = request("1.0", "frontend", "CURVE", &[&ZEROS]);
    first[3] = frame(b"first", true);
    let mut second = request("2.0", "frontend", "CURVE", &[&ZEROS]);
    second[3] = frame(b"second", true);

    let (state, action) = advance(&cfg, LoopState::AwaitRequest, LoopEvent::Received(first));
    match &action {
        LoopAction::AskService(k) => assert_eq!(k, &vec![b'0'; 40]),
        _ => panic!("expected a consultation"),
    }
    let reply = ServiceReply { active: Some(true), service_name: Some("services".to_string()) };
    let (state, action) = advance(&cfg, state, LoopEvent::ServiceAnswered(reply));
    let out = sent(action);
    assert_eq!(out[3].0, b"first".to_vec());
    assert_eq!(out[4].0, b"200".to_vec());
    assert!(matches!(state, LoopState::AwaitRequest));

    let (state, action) = advance(&cfg, state, LoopEvent::Received(second));
    let out = sent(action);
    assert_eq!(out[3].0, b"second".to_vec());
    assert_eq!(out[4].0, b"500".to_vec());
    assert!(matches!(state, LoopState::AwaitRequest));
}

#[test]
fn message_while_waiting_for_service_is_out_of_turn() {
    let cfg = config("services", "");
    let (state, _) = advance(
        &cfg,
        LoopState::AwaitRequest,
        LoopEvent::Received(request("1.0", "frontend", "CURVE", &[&ZEROS])),
    );
    let (_, action) = advance(
        &cfg,
        state,
        LoopEvent::Received(request("1.0", "frontend", "CURVE", &[&ZEROS])),
    );
    assert!(matches!(action, LoopAction::Stop(Fault::OutOfTurn)));
}

#[test]
fn read_failure_stops_without_answer() {
    let cfg = config("services", "");
    let (_, action) = advance(&cfg, LoopState::AwaitRequest, LoopEvent::ReadFailed);
    assert!(matches!(action, LoopAction::Stop(Fault::Transport)));
    let (state, _) = advance(
        &cfg,
        LoopState::AwaitRequest,
        LoopEvent::Received(request("1.0", "frontend", "CURVE", &[&ZEROS])),
    );
    let (_, action) = advance(&cfg, state, LoopEvent::ReadFailed);
    assert!(matches!(action, LoopAction::Stop(Fault::Transport)));
}

#[test]
fn service_failure_is_not_a_verdict() {
    let cfg = config("services", "");
    let (state, _) = advance(
        &cfg,
        LoopState::AwaitRequest,
        LoopEvent::Received(request("1.0", "frontend", "CURVE", &[&ZEROS])),
    );
    let (_, action) = advance(&cfg, state, LoopEvent::ServiceFailed);
    assert!(matches!(action, LoopAction::Stop(Fault::ServiceUnavailable)));
}

#[test]
fn dropped_message_reads_next() {
    let cfg = config("services", "");
    let (_, action) = advance(
        &cfg,
        LoopState::AwaitRequest,
        LoopEvent::Received(vec![frame(b"x", false)]),
    );
    assert!(matches!(action, LoopAction::ReadNext));
}
