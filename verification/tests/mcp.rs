use webpilot_cli::action::{Action, Modifiers, ScrollDir};
use webpilot_cli::commands::wait::WaitCondition;
use webpilot_cli::error::WebPilotError;
use webpilot_cli::json::Json;
use webpilot_cli::mcp::{
    build_action, call_tool, drops_transport, error_reply, handle_frame, handle_line, initialize_result, panic_reply,
    read_frame, reply_line, screenshot_content, tool_call_param_error, tool_call_reply, Frame,
    PartialLine, Step, ToolFailure, ToolPlan,
};
use webpilot_cli::tools::{tool_exists, tool_specs};

fn json(text: &str) -> Json {
    Json::parse(text).unwrap()
}

fn reply(step: Step) -> Json {
    match step {
        Step::Reply(r) => r,
        _ => panic!("a reply"),
    }
}

#[test]
fn initialize_advertises_the_supported_protocol_version() {
    let r = initialize_result();
    assert_eq!(r.get_str("protocolVersion"), Some("2025-06-18"));
    assert_eq!(r.get("serverInfo").unwrap().get_str("name"), Some("webpilot"));
    assert!(r.get("capabilities").unwrap().get("tools").unwrap().is_object());
}

#[test]
fn tool_specs_cover_the_agent_loop_with_object_schemas() {
    let specs = tool_specs();
    let tools = specs.as_array().unwrap();
    let names: Vec<&str> = tools.iter().map(|t| t.get_str("name").unwrap()).collect();
    for expected in [
        "browser_navigate",
        "browser_snapshot",
        "browser_click",
        "browser_type",
        "browser_eval",
        "browser_wait",
    ] {
        assert!(names.contains(&expected), "missing tool {expected}");
    }
    for tool in tools {
        assert_eq!(tool.get("inputSchema").unwrap().get_str("type"), Some("object"));
    }
}

#[test]
fn action_tool_schemas_forbid_unknown_properties() {
    let specs = tool_specs();
    let tools = specs.as_array().unwrap();
    for name in [
        "browser_click",
        "browser_type",
        "browser_press_key",
        "browser_scroll",
        "browser_select",
    ] {
        let tool = tools.iter().find(|t| t.get_str("name") == Some(name)).unwrap();
        let schema = tool.get("inputSchema").unwrap();
        assert_eq!(
            schema.get("additionalProperties").unwrap().as_bool(),
            Some(false),
            "{name} schema must forbid unknown properties"
        );
    }
}

#[test]
fn tools_calls_require_initialize_first() {
    let mut initialized = false;
    let call = r#"{"jsonrpc":"2.0","id":7,"method":"tools/call","params":{"name":"browser_snapshot"}}"#;
    let r = reply(handle_line(&mut initialized, call));
    assert_eq!(r.get("error").unwrap().get("code").unwrap().as_i64(), Some(-32002));
    assert_eq!(r.get("id").unwrap().as_u64(), Some(7));
    assert!(!initialized);

    let init = r#"{"jsonrpc":"2.0","id":1,"method":"initialize"}"#;
    let r = reply(handle_line(&mut initialized, init));
    assert!(r.get("result").unwrap().is_object());
    assert!(initialized, "initialize arms the lifecycle gate");

    let list = r#"{"jsonrpc":"2.0","id":2,"method":"tools/list"}"#;
    let r = reply(handle_line(&mut initialized, list));
    assert!(r.get("result").unwrap().get("tools").unwrap().as_array().is_some());

    match handle_line(&mut initialized, call) {
        Step::Call { id, name, .. } => {
            assert_eq!(id.as_u64(), Some(7));
            assert_eq!(name, "browser_snapshot");
        }
        _ => panic!("the tool is called"),
    }
}

#[test]
fn read_frame_drains_an_over_cap_line_so_the_next_frame_resyncs() {
    let max = 8u64;
    let mut input = vec![88u8; (max + 5) as usize];
    input.push(10);
    input.extend_from_slice("ab\n".as_bytes());
    let (frame, used) = read_frame(&input, max);
    assert_eq!(frame, Frame::OverCap);
    let rest = &input[used..];
    let (frame, used) = read_frame(rest, max);
    assert_eq!(frame, Frame::Line("ab\n".into()));
    let rest = &rest[used..];
    assert_eq!(read_frame(rest, max).0, Frame::Eof);
}

#[test]
fn read_frame_classifies_line_invalid_utf8_and_eof() {
    let mut data: Vec<u8> = "hello\n".as_bytes().to_vec();
    data.extend_from_slice(&[0xff, 0xfe, 10]);
    data.extend_from_slice("bye".as_bytes());
    let (frame, used) = read_frame(&data, 1024);
    assert_eq!(frame, Frame::Line("hello\n".into()));
    let rest = &data[used..];
    let (frame, used) = read_frame(rest, 1024);
    assert_eq!(frame, Frame::InvalidUtf8);
    let rest = &rest[used..];
    let (frame, used) = read_frame(rest, 1024);
    assert_eq!(frame, Frame::Line("bye".into()));
    assert_eq!(read_frame(&rest[used..], 1024).0, Frame::Eof);
}

#[test]
fn read_frame_drains_a_long_unterminated_line_to_eof() {
    let data = vec![88u8; 600];
    let (frame, used) = read_frame(&data, 4);
    assert_eq!(frame, Frame::OverCap);
    assert_eq!(read_frame(&data[used..], 4).0, Frame::Eof);
}

#[test]
fn a_line_over_any_cap_is_drained() {
    let input = "abc\n\nd".as_bytes();
    let (frame, used) = read_frame(input, 0);
    assert_eq!((frame, used), (Frame::OverCap, 4));
    let (frame, used) = read_frame(&input[4..], 0);
    assert_eq!((frame, used), (Frame::Line("\n".into()), 1));
    assert_eq!(read_frame(&input[5..], 0), (Frame::OverCap, 1));
}

#[test]
fn errors_carry_any_code() {
    let r = error_reply(Json::Null, -32603, "m");
    assert_eq!(r.get("error").unwrap().get("code").unwrap().as_i64(), Some(-32603));
    let r = error_reply(Json::Null, 7, "m");
    assert_eq!(r.get("error").unwrap().get("code").unwrap().as_u64(), Some(7));
}

#[test]
fn tool_call_param_error_flags_malformed_shape_only() {
    assert_eq!(tool_call_param_error(&json(r#"{"name":"browser_snapshot"}"#)), None);
    assert_eq!(
        tool_call_param_error(&json(r#"{"name":"browser_eval","arguments":{"code":"1"}}"#)),
        None
    );
    assert_eq!(tool_call_param_error(&json(r#"{"name":"browser_unknown"}"#)), None);
    assert!(!tool_exists("browser_unknown"), "an unadvertised name must fail the existence check");
    assert!(tool_exists("browser_snapshot"), "an advertised tool must pass the existence check");
    assert!(tool_call_param_error(&json("{}")).is_some(), "missing name");
    assert!(tool_call_param_error(&json(r#"{"name":5}"#)).is_some(), "non-string name");
    assert!(
        tool_call_param_error(&json(r#"{"name":"x","arguments":"nope"}"#)).is_some(),
        "non-object arguments"
    );
    assert!(
        tool_call_param_error(&json(r#"{"name":"x","arguments":[1,2]}"#)).is_some(),
        "array arguments"
    );
}

#[test]
fn frames_that_hold_no_request_are_answered_without_an_id() {
    let mut initialized = false;
    let bad = handle_frame(&mut initialized, &Frame::Line("not json".into())).unwrap();
    let r = reply(bad);
    assert_eq!(r.get("error").unwrap().get("code").unwrap().as_i64(), Some(-32700));
    assert_eq!(r.get("id"), Some(&Json::Null));
    let over = reply(handle_frame(&mut initialized, &Frame::OverCap).unwrap());
    assert_eq!(
        over.get("error").unwrap().get_str("message"),
        Some("request exceeds size limit")
    );
    assert!(handle_frame(&mut initialized, &Frame::Eof).is_none());
    let note = r#"{"jsonrpc":"2.0","method":"notifications/initialized"}"#;
    assert!(matches!(handle_line(&mut initialized, note), Step::Silent));
    let unknown = r#"{"jsonrpc":"2.0","id":"x","method":"nope"}"#;
    let r = reply(handle_line(&mut initialized, unknown));
    assert_eq!(r.get("error").unwrap().get("code").unwrap().as_i64(), Some(-32601));
    assert_eq!(r.get_str("id"), Some("x"));
}

#[test]
fn tools_are_planned_from_their_arguments() {
    match call_tool("browser_navigate", &json(r#"{"url":"https://x/"}"#)) {
        Ok(ToolPlan::Navigate { url }) => assert_eq!(url, "https://x/"),
        _ => panic!("a navigation"),
    }
    assert!(call_tool("browser_navigate", &json("{}")).is_err());
    assert!(matches!(call_tool("browser_snapshot", &json("{}")), Ok(ToolPlan::Snapshot)));
    match call_tool("browser_eval", &json(r#"{"code":"1+1"}"#)) {
        Ok(ToolPlan::Eval { code }) => assert_eq!(code, "1+1"),
        _ => panic!("a script"),
    }
    match call_tool("browser_click", &json(r#"{"index":3}"#)) {
        Ok(ToolPlan::Act { action }) => {
            assert!(matches!(action, Action::Click { index: 3, .. }));
        }
        _ => panic!("an action"),
    }
}

#[test]
fn only_infrastructure_failures_drop_the_transport() {
    let failure = |exit_code: i32| {
        Err(ToolFailure { exit_code, text: "t".to_owned(), wire: Json::object() })
    };
    assert!(drops_transport(&failure(3)));
    assert!(!drops_transport(&failure(4)));
    assert!(!drops_transport(&Ok(Vec::new())));
    let r = tool_call_reply(Json::number(9), failure(4));
    assert_eq!(r.get("id").unwrap().as_u64(), Some(9));
    assert_eq!(r.get("result").unwrap().get("isError").unwrap().as_bool(), Some(true));
    let r = tool_call_reply(Json::number(9), Ok(Vec::new()));
    assert_eq!(r.get("result").unwrap().get("isError").unwrap().as_bool(), Some(false));
}

#[test]
fn pictures_go_out_as_base64() {
    let blocks = screenshot_content("hi".as_bytes(), "a line");
    assert!(blocks.iter().any(|b| b.get_str("data") == Some("aGk=")));
}

#[test]
fn replies_are_one_line() {
    let line = reply_line(&panic_reply());
    assert!(line.ends_with('\n'));
    assert_eq!(line.matches('\n').count(), 1);
    assert_eq!(
        json(line.trim()).get("error").unwrap().get("code").unwrap().as_i64(),
        Some(-32603)
    );
}

#[test]
fn a_line_that_arrives_in_pieces_is_one_frame() {
    let mut line = PartialLine::start();
    assert_eq!(line.feed(b"ab", 8), (None, 2));
    assert_eq!(line.feed(b"c\ndef", 8), (Some(Frame::Line("abc\n".to_owned())), 2));
    assert_eq!(line.feed(b"def", 8), (None, 3));
    assert_eq!(line.finish(8), Frame::Line("def".to_owned()));
    assert_eq!(line.finish(8), Frame::Eof);
}

#[test]
fn a_long_line_that_arrives_in_pieces_is_drained() {
    let mut line = PartialLine::start();
    for _ in 0..4 {
        assert_eq!(line.feed(b"XXXX", 8), (None, 4));
        assert!(line.held.len() <= 8);
    }
    assert_eq!(line.feed(b"X\nab\n", 8), (Some(Frame::OverCap), 2));
    assert_eq!(line.feed(b"ab\n", 8), (Some(Frame::Line("ab\n".to_owned())), 3));
    assert_eq!(line.feed(b"12345678\n", 8), (Some(Frame::Line("12345678\n".to_owned())), 9));
    assert_eq!(line.feed(b"\xff\n", 8), (Some(Frame::InvalidUtf8), 2));
    assert_eq!(line.feed(b"123456789", 8), (None, 9));
    assert_eq!(line.finish(8), Frame::OverCap);
}

#[test]
fn build_action_fills_wire_defaults() {
    let a = build_action("browser_type", &json(r#"{"index":3,"text":"hi"}"#)).unwrap();
    assert_eq!(a, Action::Type { index: 3, text: "hi".into(), clear: false });
    let a = build_action("browser_scroll", &json(r#"{"direction":"down"}"#)).unwrap();
    assert!(matches!(a, Action::Scroll { direction: ScrollDir::Down, .. }));
    let a = build_action("browser_press_key", &json(r#"{"key":"Enter"}"#)).unwrap();
    assert!(matches!(a, Action::KeyPress { .. }));
    let a = build_action("browser_click", &json(r#"{"index":1,"modifiers":{"shift":true}}"#));
    match a.unwrap() {
        Action::Click { index, modifiers } => {
            assert_eq!(index, 1);
            assert!(modifiers.shift && !modifiers.ctrl);
        }
        other => panic!("expected Click, got {other:?}"),
    }
}

#[test]
fn build_action_rejects_wrong_types() {
    let err = build_action("browser_click", &json(r#"{"index":"not-a-number"}"#));
    assert!(matches!(err, Err(WebPilotError::InvalidArgument { .. })));
}

#[test]
fn an_action_is_read_strictly() {
    let refused = |tool: &str, args: &str| match build_action(tool, &json(args)) {
        Err(WebPilotError::InvalidArgument { detail }) => detail,
        _ => panic!("a refusal"),
    };
    assert_eq!(
        refused("browser_click", "{}"),
        "invalid arguments for browser_click: missing field `index`"
    );
    assert_eq!(
        refused("browser_click", r#"{"index":-1}"#),
        "invalid arguments for browser_click: invalid value: integer `-1`, expected u32"
    );
    assert_eq!(
        refused("browser_click", r#"{"index":"1"}"#),
        "invalid arguments for browser_click: invalid type: string \"1\", expected u32"
    );
    assert_eq!(
        refused("browser_click", r#"{"index":1,"button":"left"}"#),
        "invalid arguments for browser_click: unknown field `button`, expected `index` or `modifiers`"
    );
    assert_eq!(
        refused("browser_press_key", r#"{"key":"a","modifiers":{"hyper":true}}"#),
        "invalid arguments for browser_press_key: unknown field `hyper`, expected one of `ctrl`, `shift`, `alt`, `meta`"
    );
    assert_eq!(
        refused("browser_press_key", r#"{"key":"a","modifiers":null}"#),
        "invalid arguments for browser_press_key: invalid type: null, expected struct Modifiers"
    );
    assert_eq!(
        refused("browser_scroll", r#"{"direction":"left"}"#),
        "invalid arguments for browser_scroll: unknown variant `left`, expected `up` or `down`"
    );
    assert_eq!(
        refused("browser_type", r#"{"index":1,"text":"x","clear":"yes"}"#),
        "invalid arguments for browser_type: invalid type: string \"yes\", expected a boolean"
    );
    // The fields are looked at in their order, and what is missing is told last.
    assert_eq!(
        refused("browser_type", r#"{"zeal":1,"clear":1,"text":2}"#),
        "invalid arguments for browser_type: invalid type: integer `1`, expected a boolean"
    );
    assert_eq!(
        refused("browser_type", r#"{"index":1,"clear":true}"#),
        "invalid arguments for browser_type: missing field `text`"
    );
    let a = build_action("browser_click", &json(r#"{"index":0}"#)).unwrap();
    assert_eq!(a, Action::Click { index: 0, modifiers: Modifiers::none() });
    let a = build_action("browser_select", &json(r#"{"kind":"click","index":2,"value":"b"}"#));
    assert_eq!(a.unwrap(), Action::Select { index: 2, value: "b".into() });
    let a = build_action("browser_scroll", &json(r#"{"direction":"up"}"#)).unwrap();
    assert_eq!(a, Action::Scroll { direction: ScrollDir::Up, amount: 600 });
}

#[test]
fn what_is_written_of_an_action_is_read_back() {
    let held = Modifiers { ctrl: true, shift: false, alt: true, meta: false };
    let click = Action::Click { index: 7, modifiers: held };
    let wire = click.to_json();
    assert_eq!(wire.get_str("kind"), Some("click"));
    assert_eq!(wire.get("modifiers").unwrap().get("alt").unwrap().as_bool(), Some(true));
    assert_eq!(build_action("browser_click", &wire).unwrap(), click);
    let typed = Action::Type { index: 2, text: "-1".into(), clear: true };
    assert_eq!(build_action("browser_type", &typed.to_json()).unwrap(), typed);
}

#[test]
fn a_wait_names_what_it_waits_for() {
    match call_tool("browser_wait", &json(r##"{"until":"selector","value":"#a","timeout_ms":5}"##)) {
        Ok(ToolPlan::Wait { condition, timeout_ms }) => {
            assert_eq!(condition, WaitCondition::Selector { value: "#a".into() });
            assert_eq!(timeout_ms, 5);
            assert_eq!(WaitCondition::read(&condition.to_json()).unwrap(), condition);
        }
        _ => panic!("a wait"),
    }
    match call_tool("browser_wait", &json(r#"{"until":"idle"}"#)) {
        Ok(ToolPlan::Wait { condition, timeout_ms }) => {
            assert_eq!(condition, WaitCondition::Idle);
            assert_eq!(timeout_ms, 10000);
        }
        _ => panic!("a wait"),
    }
    for (args, told) in [
        ("{}", "invalid wait condition: missing field `until`"),
        (r#"{"until":"noon"}"#, "invalid wait condition: unknown variant `noon`, expected one of `selector`, `text`, `navigation`, `idle`"),
        (r#"{"until":"text"}"#, "invalid wait condition: missing field `value`"),
        (
            r#"{"until":"idle","timeout_ms":0}"#,
            "timeout_ms must be a positive integer (milliseconds)",
        ),
    ] {
        match call_tool("browser_wait", &json(args)) {
            Err(WebPilotError::InvalidArgument { detail }) => assert_eq!(detail, told),
            _ => panic!("a refusal"),
        }
    }
}
