use webpilot_cli::error::WebPilotError;
use webpilot_cli::host::{
    accept_line, check_gate, check_size, conclude, current_gate, dispatch, finish, forward,
    handle_one_cli_request, process_nm_message, resolve_gate, session_file_name, submit,
    with_screenshot, with_session, Admission, Entry, GateState, Received, Wait,
};
use webpilot_cli::json::Json;
use webpilot_cli::pending::Pending;

fn json(text: &str) -> Json {
    Json::parse(text).unwrap()
}

#[test]
fn ping_resolves_gate_and_pushes_pong_then_config() {
    let mut gate = GateState::Unknown;
    let ping = json(r#"{"id":7,"command":{"type":"Ping","extension_version":"0.4.2"}}"#);
    match process_nm_message(&ping, &mut gate, "0.4.2", 30000) {
        Received::Answer { pong, config } => {
            assert_eq!(pong.str_at2("result", "type"), Some("Pong"));
            assert_eq!(config.str_at2("result", "type"), Some("Config"));
            let nav = config.get("result").unwrap().get("timeouts").unwrap().get("navigation_ms");
            assert_eq!(nav.unwrap().as_u64(), Some(30000));
        }
        _ => panic!("a Pong and a Config"),
    }
    assert!(matches!(current_gate(Some(&gate)), GateState::Matched));
}

#[test]
fn another_version_closes_the_gate() {
    let mut gate = GateState::Unknown;
    let ping = json(r#"{"id":1,"command":{"type":"Ping","extension_version":"0.1.0"}}"#);
    process_nm_message(&ping, &mut gate, "0.4.2", 1);
    assert_eq!(gate, GateState::Mismatch("0.1.0".to_owned()));
    match check_gate(&gate, "0.4.2") {
        Some(WebPilotError::VersionMismatch { extension, expected }) => {
            assert_eq!(extension, "0.1.0");
            assert_eq!(expected, "0.4.2");
        }
        _ => panic!("the versions differ"),
    }
    assert!(check_gate(&GateState::Matched, "0.4.2").is_none());
    assert!(resolve_gate(&GateState::Matched, 0, 10));
    assert!(!resolve_gate(&GateState::Unknown, 0, 10));
    assert!(resolve_gate(&GateState::Unknown, 10, 10));
}

#[test]
fn responses_are_stripped_of_what_is_saved() {
    let mut gate = GateState::Matched;
    let msg = json(r#"{"id":3,"result":{"type":"Capture","screenshot_b64":"aGk="}}"#);
    let received = process_nm_message(&msg, &mut gate, "1", 1);
    assert!(matches!(received, Received::Response { .. }));
    let saved = with_screenshot(msg, &Ok("/tmp/x.png".to_owned()));
    assert!(!saved.to_text().contains("aGk="));
    let session = json(r#"{"id":3,"result":{"type":"SessionExport","session_data":"{}"}}"#);
    let out = with_session(session, "/tmp/s.json", &Ok(()));
    assert!(out.to_text().contains("/tmp/s.json"));
    assert_eq!(session_file_name(17), "session_17.json");
}

#[test]
fn requests_go_out_under_the_hosts_id_and_come_back_under_their_own() {
    let request = match accept_line(r#"{"id":5,"command":{"type":"Status"}}"#) {
        Admission::Request { request, cli_id } => {
            assert_eq!(cli_id.as_ref().unwrap().as_u64(), Some(5));
            request
        }
        _ => panic!("a request"),
    };
    let command = request.get("command").unwrap().copy();
    let sent = forward(request, command, 77);
    assert_eq!(sent.get("id").unwrap().as_u64(), Some(77));
    let back = finish(json(r#"{"id":77,"result":{}}"#), Some(Json::number(5)));
    assert_eq!(back.get("id").unwrap().as_u64(), Some(5));
    assert!(check_size(&sent, 1 << 20).is_none());
    assert!(check_size(&sent, 1).is_some());
}

#[test]
fn pending_requests_are_delivered_once() {
    let mut pending: Pending<&str> = Pending::new();
    pending.insert(4, "four");
    let response = json(r#"{"id":4,"result":{}}"#);
    assert_eq!(dispatch(&response, &mut pending), Ok(Some("four")));
    assert_eq!(dispatch(&response, &mut pending), Ok(None));
    pending.insert(9, "nine");
    let late = conclude(Wait::TimedOut { secs: 30 }, Some(Json::number(1)), 9, &mut pending);
    assert_eq!(late.unwrap_err(), "response timeout after 30s");
    assert!(pending.take(9).is_none());
}

#[test]
fn only_a_matched_extension_is_asked() {
    let line = r#"{"id":5,"command":{"type":"Status"}}"#;
    match handle_one_cli_request(line, &GateState::Unknown, "1") {
        Entry::Refuse { error, cli_id } => {
            assert_eq!(
                error,
                WebPilotError::ConnectionLost {
                    detail: "extension has not completed its version handshake".to_owned()
                }
            );
            assert_eq!(cli_id.unwrap().as_u64(), Some(5));
        }
        _ => panic!("nothing is known of the extension"),
    }
    let other = GateState::Mismatch("2".to_owned());
    assert!(matches!(handle_one_cli_request(line, &other, "1"), Entry::Refuse { .. }));
    assert!(matches!(handle_one_cli_request("", &GateState::Matched, "1"), Entry::Close));
    assert!(matches!(handle_one_cli_request("{", &GateState::Matched, "1"), Entry::Fail(_)));
    let request = match handle_one_cli_request(line, &GateState::Matched, "1") {
        Entry::Proceed { request, .. } => request,
        _ => panic!("the extension matches"),
    };

    let mut pending: Pending<&str> = Pending::new();
    let denied = Err(WebPilotError::other("denied"));
    assert!(submit(request.copy(), denied, 8, 1 << 20, &mut pending, "eight").is_err());
    assert!(pending.take(8).is_none());
    let command = request.get("command").unwrap().copy();
    let small = submit(request.copy(), Ok(command.copy()), 8, 1, &mut pending, "eight");
    assert!(small.is_err());
    assert!(pending.take(8).is_none());
    let sent = submit(request, Ok(command), 8, 1 << 20, &mut pending, "eight").unwrap();
    assert_eq!(sent.to_text(), r#"{"command":{"type":"Status"},"id":8}"#);
    assert_eq!(pending.take(8), Some("eight"));
}
