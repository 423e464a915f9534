use webpilot_cli::cdp::{
    answer_dialog, char_safe_prefix, classify_event, conclude, context_ids_of, cookies_of,
    evaluation, new_context_of, new_target_of, receiver_tick, screenshot_of, targets_of,
    wait_on_receiver, CdpClient, CdpFailure, CdpSession, EventFor, EventPoll, EventWait, Poll,
    Receive, Routed, SessionEvents, SocketFrame, WriteOutcome,
};
use webpilot_cli::error::WebPilotError;
use webpilot_cli::json::Json;

fn json(text: &str) -> Json {
    Json::parse(text).unwrap()
}

#[test]
fn prefix_is_codepoint_safe_for_multibyte() {
    let s: String = "한".repeat(500);
    let p = char_safe_prefix(&s, 200);
    assert_eq!(p.chars().count(), 200);
}

#[test]
fn prefix_does_not_overrun() {
    let s = "abc";
    assert_eq!(char_safe_prefix(s, 100), "abc");
}

#[test]
fn routes_responses_to_callers_by_id_out_of_order() {
    let mut client: CdpClient<&str> = CdpClient::connect();
    let (a, sent) = client.send_on(None, "Alpha", None, "a").unwrap();
    let (b, _) = client.send_on(None, "Beta", None, "b").unwrap();
    assert_eq!(sent.to_text(), r#"{"id":1,"method":"Alpha","params":{}}"#);
    let reply = |id: u64, method: &str| {
        SocketFrame::Text(format!(r#"{{"id":{id},"result":{{"method":"{method}"}}}}"#))
    };
    match client.on_frame(reply(b, "Beta")) {
        Routed::Deliver { slot, response } => {
            assert_eq!(slot, "b");
            let result = match conclude(false, "Beta", &response) {
                Ok(v) => v,
                Err(_) => panic!("a result"),
            };
            assert_eq!(result.get_str("method"), Some("Beta"));
        }
        _ => panic!("the second caller's response"),
    }
    match client.on_frame(reply(a, "Alpha")) {
        Routed::Deliver { slot, .. } => assert_eq!(slot, "a"),
        _ => panic!("the first caller's response"),
    }
    assert!(matches!(client.on_frame(reply(a, "Alpha")), Routed::Nothing));
}

#[test]
fn unanswered_request_times_out() {
    let mut client: CdpClient<u8> = CdpClient::connect();
    let (id, _) = client.send_on(Some("S1"), "Hang", None, 1).unwrap();
    assert!(client.after_write(id, "Hang", 150, WriteOutcome::Written).is_ok());
    assert_eq!(client.before_tick(id, "Hang", 150, 1000, 1150).unwrap(), 150);
    assert!(matches!(client.after_tick(id, "Hang", Some(true), Poll::Quiet), Ok(None)));
    let err = client.before_tick(id, "Hang", 150, 1150, 1150).unwrap_err();
    assert!(matches!(err, WebPilotError::Timeout { .. }));
    assert_eq!(err.exit_code(), 5);
    assert!(client.pending.take(id).is_none());
}

#[test]
fn closed_connection_fails_inflight_with_connection_lost() {
    let mut client: CdpClient<u8> = CdpClient::connect();
    let (id, _) = client.send_on(None, "Doomed", None, 1).unwrap();
    assert!(matches!(client.on_frame(SocketFrame::Close), Routed::Stop));
    assert!(!client.alive);
    assert!(client.pending.take(id).is_none());
    let err = match client.after_tick(id, "Doomed", None, Poll::Closed) {
        Err(e) => e,
        Ok(_) => panic!("no response can come"),
    };
    assert!(matches!(err, WebPilotError::ConnectionLost { .. }));
    assert_eq!(err.exit_code(), 3);
    assert!(client.send_on(None, "Late", None, 2).is_err());
}

#[test]
fn cdp_error_response_is_surfaced() {
    let response = json(r#"{"id":1,"error":{"code":-32000,"message":"boom"}}"#);
    match conclude(false, "Boom", &response) {
        Err(CdpFailure::Typed(WebPilotError::Other { detail })) => {
            assert!(detail.contains("CDP error"));
            assert_eq!(detail, r#"CDP error: {"code":-32000,"message":"boom"}"#);
        }
        _ => panic!("an error"),
    }
}

#[test]
fn session_commands_carry_the_session_id() {
    let mut client: CdpClient<u8> = CdpClient::connect();
    let session = CdpSession::attached(&json(r#"{"sessionId":"S1"}"#)).unwrap();
    let (_, sent) = session.send(&mut client, "Page.enable", None, 1).unwrap();
    assert_eq!(sent.get_str("sessionId"), Some("S1"));
    let (_, sent) = client.send_on(None, "Browser.getVersion", None, 2).unwrap();
    assert!(sent.get("sessionId").is_none());
}

#[test]
fn session_events_are_filtered_to_the_session() {
    let mut events = SessionEvents {
        session_id: "S1".to_owned(),
        events: vec![
            json(r#"{"method":"Page.loadEventFired","params":{},"sessionId":"OTHER"}"#),
            json(r#"{"method":"Target.targetCreated","params":{}}"#),
            json(r#"{"method":"Page.loadEventFired","params":{},"sessionId":"S1"}"#),
        ],
        next: 0,
    };
    match events.try_recv() {
        Receive::Event(i) => {
            assert_eq!(events.events[i].get_str("method"), Some("Page.loadEventFired"));
            assert_eq!(events.events[i].get_str("sessionId"), Some("S1"));
        }
        _ => panic!("an event, not closed"),
    }
    assert!(matches!(events.try_recv(), Receive::Empty));
}

#[test]
fn detach_event_closes_session_receivers() {
    let mut events = SessionEvents {
        session_id: "S1".to_owned(),
        events: vec![json(
            r#"{"method":"Target.detachedFromTarget","params":{"sessionId":"S1"}}"#,
        )],
        next: 0,
    };
    assert!(matches!(events.try_recv(), Receive::Closed));
    let other = json(r#"{"method":"Target.detachedFromTarget","params":{"sessionId":"S2"}}"#);
    assert!(!matches!(classify_event(&other, "S1"), EventFor::Closed));
}

#[test]
fn session_gone_error_maps_to_connection_lost() {
    let response =
        json(r#"{"id":2,"error":{"code":-32001,"message":"Session with given id not found."}}"#);
    assert!(matches!(
        conclude(true, "Page.enable", &response),
        Err(CdpFailure::Typed(WebPilotError::ConnectionLost { .. }))
    ));
    assert!(matches!(
        conclude(false, "Page.enable", &response),
        Err(CdpFailure::Typed(WebPilotError::Other { .. }))
    ));
}

#[test]
fn bad_parameters_and_lost_contexts_have_failures_of_their_own() {
    let bad = json(r#"{"error":{"code":-32602,"message":"url required"}}"#);
    match conclude(true, "Page.navigate", &bad) {
        Err(CdpFailure::Typed(WebPilotError::InvalidArgument { detail })) => {
            assert_eq!(detail, "url required")
        }
        _ => panic!("the caller's fault"),
    }
    let gone = json(
        r#"{"error":{"code":-32000,"message":"Cannot find context with specified id"}}"#,
    );
    match conclude(true, "Runtime.evaluate", &gone) {
        Err(CdpFailure::Gone(g)) => {
            assert_eq!(g.message(), "execution context no longer exists")
        }
        _ => panic!("the context is gone"),
    }
    let destroyed =
        json(r#"{"error":{"code":-32000,"message":"Inspected target navigated or closed"}}"#);
    assert!(matches!(
        conclude(true, "Runtime.evaluate", &destroyed),
        Err(CdpFailure::Destroyed(_))
    ));
    assert!(conclude(true, "Page.enable", &json("{}")).is_ok());
}

#[test]
fn refused_and_stalled_writes_end_the_connection() {
    for write in [WriteOutcome::Failed, WriteOutcome::TimedOut] {
        let mut client: CdpClient<u8> = CdpClient::connect();
        let (id, _) = client.send_on(None, "Page.enable", None, 1).unwrap();
        assert!(client.after_write(id, "Page.enable", 10, write).is_err());
        assert!(!client.alive);
    }
    let mut client: CdpClient<u8> = CdpClient::connect();
    let (id, _) = client.send_on(None, "Page.enable", None, 1).unwrap();
    assert!(client.after_write(id, "Page.enable", 10, WriteOutcome::Dead).is_err());
    assert!(client.alive);
}

#[test]
fn silence_kills_and_any_frame_keeps_alive() {
    let mut client: CdpClient<u8> = CdpClient::connect();
    let mut misses: u32 = 0;
    let before = client.activity;
    let (id, beat) = client.beat(9).unwrap();
    assert_eq!(beat.get_str("method"), Some("Browser.getVersion"));
    client.on_frame(SocketFrame::Other);
    assert!(client.after_beat(&mut misses, id, false, before));
    assert_eq!(misses, 0);
    let mut alive = true;
    for _ in 0..10 {
        if !alive {
            break;
        }
        let before = client.activity;
        let (id, _) = client.beat(9).unwrap();
        alive = client.after_beat(&mut misses, id, false, before);
    }
    assert!(!alive);
    assert!(!client.alive);
    assert!(client.beat(9).is_none());
}

#[test]
fn malformed_frames_are_previewed() {
    let mut client: CdpClient<u8> = CdpClient::connect();
    match client.on_frame(SocketFrame::Text("x".repeat(300))) {
        Routed::Malformed { preview, .. } => assert_eq!(preview.chars().count(), 200),
        _ => panic!("no JSON"),
    }
}

#[test]
fn results_are_read_by_their_fields() {
    let contexts = context_ids_of(&json(r#"{"browserContextIds":["A",3,"B"]}"#)).unwrap();
    assert_eq!(contexts, vec!["A".to_owned(), "B".to_owned()]);
    assert!(context_ids_of(&json("{}")).is_err());
    assert_eq!(new_context_of(&json(r#"{"browserContextId":"C"}"#)).unwrap(), "C");
    assert!(new_context_of(&json("{}")).is_err());
    assert_eq!(new_target_of(&json(r#"{"targetId":"T"}"#)).unwrap(), "T");
    assert_eq!(
        targets_of(&json("{}")).unwrap_err(),
        WebPilotError::other("malformed Target.getTargets response: missing 'targetInfos' array")
    );
    assert_eq!(cookies_of(&json(r#"{"cookies":[{}]}"#)).unwrap().len(), 1);
    assert_eq!(screenshot_of(&json(r#"{"data":"aGk="}"#)).unwrap(), "aGk=");
    assert!(screenshot_of(&json("{}")).is_err());
    assert_eq!(evaluation(&json(r#"{"result":{"value":3}}"#)).unwrap().as_u64(), Some(3));
    let thrown = json(r#"{"exceptionDetails":{"text":"Uncaught","exception":{"description":"no"}}}"#);
    assert_eq!(evaluation(&thrown).unwrap_err(), WebPilotError::other("no"));
}

#[test]
fn requests_name_their_method_and_parameters() {
    let mut client: CdpClient<u8> = CdpClient::connect();
    let (_, sent) = client.get_targets(1).unwrap();
    assert_eq!(sent.to_text(), r#"{"id":1,"method":"Target.getTargets","params":{}}"#);
    let (_, sent) = client.get_browser_contexts(1).unwrap();
    assert_eq!(sent.get_str("method"), Some("Target.getBrowserContexts"));
    let (_, sent) = client.create_browser_context(1).unwrap();
    assert_eq!(
        sent.to_text(),
        r#"{"id":3,"method":"Target.createBrowserContext","params":{"disposeOnDetach":false}}"#
    );
    let (_, sent) = client.dispose_browser_context("C", 1).unwrap();
    assert_eq!(
        sent.to_text(),
        r#"{"id":4,"method":"Target.disposeBrowserContext","params":{"browserContextId":"C"}}"#
    );
    let (_, sent) = client.create_target("about:blank", Some("C"), 1).unwrap();
    assert_eq!(
        sent.get("params").unwrap().to_text(),
        r#"{"browserContextId":"C","url":"about:blank"}"#
    );
    let (_, sent) = client.create_target("about:blank", None, 1).unwrap();
    assert_eq!(sent.get("params").unwrap().to_text(), r#"{"url":"about:blank"}"#);
    let (_, sent) = client.get_all_cookies(Some("C"), 1).unwrap();
    assert_eq!(sent.get("params").unwrap().to_text(), r#"{"browserContextId":"C"}"#);
    let (_, sent) = client.get_all_cookies(None, 1).unwrap();
    assert_eq!(sent.get("params").unwrap().to_text(), "{}");
    let (_, sent) = client.attach("T", 1).unwrap();
    assert_eq!(sent.get("params").unwrap().to_text(), r#"{"flatten":true,"targetId":"T"}"#);

    let mut session = CdpSession::attached(&json(r#"{"sessionId":"S1"}"#)).unwrap();
    let (_, sent) = session.evaluate(&mut client, "1 + 1", 1).unwrap();
    assert_eq!(sent.get_str("method"), Some("Runtime.evaluate"));
    assert_eq!(sent.get_str("sessionId"), Some("S1"));
    assert_eq!(
        sent.get("params").unwrap().to_text(),
        r#"{"awaitPromise":true,"expression":"1 + 1","returnByValue":true}"#
    );
    let (_, sent) = session.screenshot(&mut client, 1).unwrap();
    assert_eq!(sent.get("params").unwrap().to_text(), r#"{"format":"png"}"#);
    let (_, sent) = session.screenshot_full_page(&mut client, 1).unwrap();
    assert_eq!(
        sent.get("params").unwrap().to_text(),
        r#"{"captureBeyondViewport":true,"format":"png"}"#
    );
    let (_, sent) = session.detach(&mut client, 1).unwrap();
    assert!(sent.get("sessionId").is_none());
    assert_eq!(sent.get("params").unwrap().to_text(), r#"{"sessionId":"S1"}"#);
    assert_eq!(
        session.send(&mut client, "Page.enable", None, 1).unwrap_err(),
        WebPilotError::lost("CDP session detached before sending Page.enable")
    );
}

#[test]
fn an_event_that_does_not_come_is_no_failure() {
    assert_eq!(receiver_tick(true, true, 0, 1000), Some(250));
    assert_eq!(receiver_tick(true, true, 900, 1000), Some(100));
    assert_eq!(receiver_tick(true, true, 1000, 1000), None);
    assert_eq!(receiver_tick(false, true, 0, 1000), None);
    assert_eq!(receiver_tick(true, false, 0, 1000), None);
    assert_eq!(wait_on_receiver(EventPoll::Event(true)), Some(true));
    assert_eq!(wait_on_receiver(EventPoll::Event(false)), None);
    assert_eq!(wait_on_receiver(EventPoll::Lagged), None);
    assert_eq!(wait_on_receiver(EventPoll::Closed), Some(false));
}

#[test]
fn dialogs_are_answered() {
    let opening = json(
        r#"{"method":"Page.javascriptDialogOpening","params":{"type":"alert","message":"hi"}}"#,
    );
    assert!(answer_dialog(&opening).is_some());
    assert!(answer_dialog(&json(r#"{"method":"Page.loadEventFired"}"#)).is_none());
}

#[test]
fn waits_remember_lost_events() {
    let mut wait = EventWait {
        target: "Page.loadEventFired".to_owned(),
        timeout_ms: 500,
        deadline_ms: 1500,
        lagged: false,
    };
    assert_eq!(wait.before_tick(true, true, 1000).unwrap(), 250);
    assert!(!wait.after_tick(EventPoll::Lagged).unwrap());
    assert!(wait.lagged);
    assert!(wait.after_tick(EventPoll::Event(true)).unwrap());
    assert!(matches!(
        wait.before_tick(true, false, 1000),
        Err(WebPilotError::ConnectionLost { .. })
    ));
    assert!(wait.before_tick(true, true, 1500).is_err());
    assert!(wait.after_tick(EventPoll::Closed).is_err());
}
