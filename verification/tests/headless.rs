use webpilot_cli::commands::dom::DomCommand;
use webpilot_cli::commands::find::{ElementFilter, InteractiveElement};
use webpilot_cli::headless::action::{drag_coordinates, page_action, plan, ActionPlan};
use webpilot_cli::headless::capture;
use webpilot_cli::headless::capture::{CaptureFlags, Findings};
use webpilot_cli::headless::context;
use webpilot_cli::headless::context::{ContextEntry, Resume, Sweep};
use webpilot_cli::headless::policy::Policies;
use webpilot_cli::headless::{
    bridge_call, console, cookies, current_url, default_target, device, dom, eval, fetch, find,
    find_page_target, frames, message, navigation_step, navigation_timeout, needs_bridge, network,
    page_ws_url, parse_bridge_response, policy, profile, record, session, status, tabs,
    target_after_navigation, wait, Failure, NavigationStep,
};
use webpilot_cli::json::Json;
use webpilot_cli::output::CommandOutput;

fn json(text: &str) -> Json {
    Json::parse(text).unwrap()
}

fn targets() -> Vec<Json> {
    vec![
        json(r#"{"type":"service_worker","targetId":"W"}"#),
        json(r#"{"type":"page","targetId":"A","browserContextId":"C1","url":"about:blank"}"#),
        json(r#"{"type":"page","targetId":"B","browserContextId":"C2","url":"https://b/"}"#),
    ]
}

fn flags() -> CaptureFlags {
    CaptureFlags {
        dom: false,
        screenshot: false,
        text: false,
        accessibility: false,
        annotate: false,
        bounds: false,
        occlusion: false,
        full_page: false,
        pdf: false,
    }
}

fn rows(out: &CommandOutput) -> &Vec<String> {
    match out {
        CommandOutput::List { human_lines, .. } => human_lines,
        _ => panic!("a list"),
    }
}

#[test]
fn pages_are_found_by_context_or_by_themselves() {
    assert_eq!(find_page_target(&targets(), Some("C2"), "A"), Some(2));
    assert_eq!(find_page_target(&targets(), Some("C3"), "A"), None);
    assert_eq!(find_page_target(&targets(), None, "B"), Some(2));
    assert_eq!(find_page_target(&targets(), None, "gone"), Some(1));
    assert_eq!(default_target(&targets()).unwrap(), "A");
    assert!(matches!(default_target(&Vec::new()), Err(Failure::NoPage(_))));
    assert_eq!(
        page_ws_url("ws://127.0.0.1:9222/devtools/browser/x", "A"),
        "ws://127.0.0.1:9222/devtools/page/A"
    );
    assert_eq!(page_ws_url("ws://h", "A"), "ws://h/devtools/page/A");
}

#[test]
fn navigations_end_where_the_page_arrives() {
    assert_eq!(current_url(Some(&targets()), None, "B"), "https://b/");
    assert_eq!(current_url(None, None, "B"), "");
    assert_eq!(
        navigation_step(Some(&targets()), None, "B", "https://a/", true),
        NavigationStep::Arrived
    );
    assert_eq!(
        navigation_step(Some(&targets()), None, "B", "https://b/", false),
        NavigationStep::Again
    );
    assert_eq!(
        navigation_step(Some(&targets()), None, "A", "https://b/", true),
        NavigationStep::TimedOut
    );
    assert_eq!(navigation_step(None, None, "A", "", false), NavigationStep::Again);
    assert_eq!(
        navigation_timeout(30),
        Failure::Timeout("Navigation timeout: page did not load within 30s".to_owned())
    );
    assert_eq!(target_after_navigation(&targets(), Some("C1"), "x").unwrap(), "A");
    assert!(target_after_navigation(&targets(), Some("C9"), "x").is_err());
}

#[test]
fn answers_of_the_page_fail_only_where_they_say_so() {
    assert!(parse_bridge_response(json(r#"{"value":1}"#)).is_ok());
    assert!(parse_bridge_response(json(r#"{"success":"no"}"#)).is_ok());
    match parse_bridge_response(json(
        r#"{"success":false,"error":{"message":"gone","code":"Stale"}}"#,
    )) {
        Err(Failure::Bridge { code, message }) => {
            assert_eq!(code, "Stale");
            assert_eq!(message, "gone");
        }
        _ => panic!("a failure"),
    }
    match parse_bridge_response(json(r#"{"success":false,"error":"plain"}"#)) {
        Err(Failure::Bridge { code, message }) => {
            assert_eq!(code, "Unknown");
            assert_eq!(message, "plain");
        }
        _ => panic!("a failure"),
    }
    assert_eq!(
        parse_bridge_response(json(r#"{"success":false}"#)),
        Err(Failure::Bridge {
            code: "Unknown".to_owned(),
            message: "Unknown bridge error".to_owned()
        })
    );
    assert!(!needs_bridge(&Json::Bool(true)));
    assert!(needs_bridge(&Json::Bool(false)));
    assert!(needs_bridge(&Json::Null));
    assert_eq!(
        bridge_call(&message("ping")),
        r#"(async function() { return await handleMessage({"type":"ping"}); })()"#
    );
}

#[test]
fn actions_that_move_the_page_go_to_the_browser() {
    match plan(json(r#"{"action":"Navigate","url":"https://x/"}"#)) {
        ActionPlan::Navigate(url) => assert_eq!(url, "https://x/"),
        _ => panic!("a navigation"),
    }
    match plan(json(r#"{"action":"Back"}"#)) {
        ActionPlan::Script { expression, event } => {
            assert_eq!(expression, "history.back()");
            assert_eq!(event, "Page.frameNavigated");
        }
        _ => panic!("a script"),
    }
    assert!(matches!(plan(json(r#"{"action":"Reload"}"#)), ActionPlan::Reload { .. }));
    match plan(json(r#"{"action":"Drag","source":1,"target":2,"steps":5}"#)) {
        ActionPlan::Drag { coordinates } => assert_eq!(
            coordinates.to_text(),
            r#"{"source":1,"target":2,"type":"getElementCoords"}"#
        ),
        _ => panic!("a drag"),
    }
    match plan(json(r#"{"action":"Click","index":1}"#)) {
        ActionPlan::Bridge(m) => assert_eq!(
            m.to_text(),
            r#"{"action":{"action":"Click","index":1},"type":"executeAction"}"#
        ),
        _ => panic!("a message"),
    }
    assert!(drag_coordinates(json(r#"{"error":"no such element"}"#)).is_err());
    assert!(drag_coordinates(json(r#"{"sx":1}"#)).is_ok());
}

#[test]
fn captures_do_what_was_asked_for() {
    let p = capture::plan(&flags()).unwrap();
    assert!(p.dom && !p.screenshot && !p.text);
    let p = capture::plan(&CaptureFlags { screenshot: true, ..flags() }).unwrap();
    assert!(!p.dom && p.screenshot);
    let p = capture::plan(&CaptureFlags { annotate: true, ..flags() }).unwrap();
    assert!(p.dom && p.bounds && p.screenshot);
    assert!(capture::plan(&CaptureFlags { annotate: true, full_page: true, ..flags() }).is_err());
    assert_eq!(
        capture::dom_message(p).to_text(),
        r#"{"options":{"bounds":true,"occlusion":false},"type":"extractDOM"}"#
    );
    let out = capture::assemble(Findings {
        dom: Some(json(r#"{"elements":[{"index":1}],"total_nodes":3}"#)),
        text: Some(json(r#"{"text":"hello"}"#)),
        screenshot_path: Some("/tmp/a.png".to_owned()),
        pdf_path: None,
    });
    assert_eq!(
        out.to_text(),
        r#"{"elements":[{"index":1}],"screenshot_path":"/tmp/a.png","text_content":"hello","total_nodes":3}"#
    );
    assert!(capture::shows_elements(&out));
    assert_eq!(capture::file_lines(&out), vec!["Screenshot: /tmp/a.png".to_owned()]);
    assert!(!capture::shows_elements(&json(r#"{"elements":[]}"#)));
    assert_eq!(capture::file_name(17, "pdf"), "capture_17.pdf");
    assert_eq!(capture::decode("aGk=").unwrap(), "hi".as_bytes());
    assert!(capture::decode("*").is_err());
    assert!(capture::pdf_data(&json("{}")).is_err());
}

#[test]
fn only_elements_on_the_screen_are_marked() {
    let out = json(
        r#"{"elements":[
            {"index":1,"in_viewport":true,"bounds":{"x":1,"y":2,"w":3,"h":4}},
            {"index":2,"in_viewport":false,"bounds":{"x":1,"y":2,"w":3,"h":4}},
            {"index":3,"in_viewport":true},
            {"index":4,"in_viewport":true,"bounds":{"x":1,"y":2}}
        ]}"#,
    );
    assert_eq!(
        capture::annotations(&out).unwrap().to_text(),
        r#"{"elements":[{"h":4,"index":1,"w":3,"x":1,"y":2}],"type":"addAnnotations"}"#
    );
    assert!(capture::annotations(&json("{}")).is_none());
}

#[test]
fn console_entries_are_read_by_level() {
    let answer = json(r#"[{"level":"log","message":"a"},{"level":"error","message":"b"},{}]"#);
    let all = console::read(&answer, None);
    assert_eq!(rows(&all), &vec!["[log] a".to_owned(), "[error] b".to_owned(), "[?] ".to_owned()]);
    let errors = console::read(&answer, Some("error"));
    assert_eq!(rows(&errors), &vec!["[error] b".to_owned()]);
    match errors {
        CommandOutput::List { summary, .. } => assert_eq!(summary, "(1 entries)"),
        _ => panic!("a list"),
    }
    assert!(rows(&console::read(&Json::Null, None)).is_empty());
}

#[test]
fn contexts_resume_only_in_their_own_browser() {
    let entry = || ContextEntry {
        name: "n".to_owned(),
        cwd: "/w".to_owned(),
        browser_context_id: "C1".to_owned(),
        target_id: "A".to_owned(),
        chrome_pid: 7,
        created_at: 100,
        last_used: 100,
    };
    let live = vec!["C1".to_owned()];
    assert_eq!(context::resume(&entry(), 8, Some(&live), Some(&targets())), Resume::Discard);
    assert_eq!(context::resume(&entry(), 7, None, None), Resume::AskContexts);
    assert_eq!(context::resume(&entry(), 7, Some(&Vec::new()), None), Resume::Discard);
    assert_eq!(context::resume(&entry(), 7, Some(&live), None), Resume::AskTargets);
    assert_eq!(context::resume(&entry(), 7, Some(&live), Some(&targets())), Resume::Reuse);
    assert_eq!(context::resume(&entry(), 7, Some(&live), Some(&Vec::new())), Resume::Recreate);
    let used = context::touched(entry(), "Z".to_owned(), 500);
    assert_eq!((used.target_id.as_str(), used.last_used, used.created_at), ("Z", 500, 100));
    assert_eq!(context::sweep(None, 7, 1000, 10), Sweep::Remove);
    assert_eq!(context::sweep(Some(&entry()), 8, 1000, 10), Sweep::Remove);
    assert_eq!(context::sweep(Some(&entry()), 7, 1000, 10), Sweep::DisposeAndRemove);
    assert_eq!(context::sweep(Some(&entry()), 7, 110, 10), Sweep::Keep);
    assert_eq!(context::context_file_name(0xabc), "ctx-000000000abc.json");
    assert_eq!(context::context_file_name(u64::MAX), "ctx-ffffffffffffffff.json");
    assert!(context::is_context_file("ctx-1.json"));
    assert!(!context::is_context_file("ctx-1.tmp"));
    let names: Vec<String> = (0..16).map(|i| format!("ctx-{i}.json")).collect();
    assert!(context::check_room(&names).is_err());
    assert!(context::check_room(&names[1..].to_vec()).is_ok());
    let listed = context::list(&vec![entry()], 160);
    assert_eq!(rows(&listed), &vec!["  n (60s old) — /w".to_owned()]);
    assert_eq!(rows(&context::list(&Vec::new(), 0)), &vec!["No active contexts".to_owned()]);
    assert!(context::closing(None, false).is_err());
    assert!(context::closed_one("n", false).is_err());
    assert_eq!(context::closed_all(2), CommandOutput::Message("Closed 2 context(s)".to_owned()));
    let fresh = context::new_entry("m", "/w", "C", "T", 1, 9);
    assert_eq!((fresh.created_at, fresh.last_used), (9, 9));
}

#[test]
fn cookies_are_listed_and_picked() {
    let answer = json(
        r#"{"cookies":[{"name":"a","value":"123456789012345678901","domain":"d"},{"name":"b","value":"v"}]}"#,
    );
    let out = cookies::list(&answer);
    assert_eq!(rows(&out), &vec!["a=12345678901234567890 (d)".to_owned(), "b=v ()".to_owned()]);
    match cookies::get(&answer, "b") {
        Ok(CommandOutput::Content { stdout, .. }) => assert_eq!(stdout, "v"),
        _ => panic!("a cookie"),
    }
    assert_eq!(
        cookies::get(&answer, "c"),
        Err(Failure::Plain("Cookie 'c' not found".to_owned()))
    );
    assert_eq!(cookies::list_params("u").to_text(), r#"{"urls":["u"]}"#);
}

#[test]
fn older_devices_are_known_by_name() {
    let d = device::preset("Pixel-8").unwrap();
    assert_eq!((d.width, d.height, d.scale_milli), (412, 915, 2625));
    assert!(device::preset("nokia").is_err());
    match device::preset_output("Pixel-8", &d) {
        CommandOutput::Data { human, .. } => assert_eq!(human, "Device: Pixel-8 (412x915)"),
        _ => panic!("data"),
    }
}

#[test]
fn elements_are_read_and_written() {
    let command = DomCommand::SetAttr {
        selector: "#a".to_owned(),
        attr: "href".to_owned(),
        value: "x".to_owned(),
    };
    assert_eq!(
        dom::request(&command).to_text(),
        r##"{"attr":"href","selector":"#a","type":"setAttr","value":"x"}"##
    );
    match dom::finish(json(r#"{"success":true,"value":"v"}"#)) {
        Ok(CommandOutput::Content { stdout, json, .. }) => {
            assert_eq!(stdout, "v");
            assert_eq!(json.to_text(), r#"{"success":true,"value":"v"}"#);
        }
        _ => panic!("a value"),
    }
    assert_eq!(
        dom::finish(json(r#"{"success":true}"#)),
        Ok(CommandOutput::Message("OK".to_owned()))
    );
    assert!(dom::finish(json(r#"{"success":false}"#)).is_err());
}

#[test]
fn scripts_and_requests_are_written_out() {
    assert_eq!(eval::expression("1+1"), "(1+1)");
    match eval::value_output(&json(r#"{"a": 1}"#)) {
        CommandOutput::Data { human, .. } => assert_eq!(human, r#"{"a":1}"#),
        _ => panic!("data"),
    }
    assert_eq!(
        fetch::request_script("u\"", "POST", Some("b")),
        "fetch(\"u\\\"\", {method: \"POST\", credentials: \"include\", headers: {\"Content-Type\": \"application/json\"}, body: \"b\", }).then(r => r.text().then(body => ({status: r.status, body})))"
    );
    match fetch::finish(&json(r#"{"status":204,"body":"x"}"#)) {
        CommandOutput::Content { stdout, .. } => assert_eq!(stdout, "x\nHTTP 204"),
        _ => panic!("content"),
    }
}

#[test]
fn the_first_match_is_acted_on() {
    let element = |index: u32, tag: &str, text: &str| InteractiveElement {
        index,
        tag: tag.to_owned(),
        text: text.to_owned(),
        role: None,
        name: None,
        label: None,
        placeholder: None,
        id: None,
        landmark: None,
        wire: Json::number(index as u64),
    };
    let page = vec![element(4, "INPUT", "Mail"), element(5, "input", "Name")];
    let filter = |tag: Option<&str>| ElementFilter {
        role: None,
        text: None,
        label: None,
        placeholder: None,
        tag: tag.map(|t| t.to_owned()),
    };
    let found = find::find(&page, &filter(Some("Input")), false, Some("me")).unwrap();
    assert_eq!(
        found.action.unwrap().to_text(),
        r#"{"action":{"action":"Type","clear":true,"index":4,"text":"me"},"type":"executeAction"}"#
    );
    match found.output {
        CommandOutput::List { items, human_lines, summary } => {
            assert_eq!(items.to_text(), r#"{"count":2,"matches":[4,5]}"#);
            assert_eq!(human_lines[0], r#"[4] INPUT "Mail""#);
            assert_eq!(summary, "(2 matches)");
        }
        _ => panic!("a list"),
    }
    let clicked = find::find(&page, &filter(Some("input")), true, Some("me")).unwrap();
    assert_eq!(
        clicked.action.unwrap().to_text(),
        r#"{"action":{"action":"Click","index":4},"type":"executeAction"}"#
    );
    assert!(matches!(find::find(&page, &filter(None), false, None), Err(Failure::Plain(_))));
    match find::find(&page, &filter(Some("a")), false, None) {
        Err(Failure::Plain(m)) => assert_eq!(m, "No matching elements found"),
        _ => panic!("nothing matches"),
    }
    assert_eq!(find::elements_message().to_text(), r#"{"options":{},"type":"extractDOM"}"#);
}

#[test]
fn frame_trees_are_flattened_in_order() {
    let answer = json(
        r#"{"frameTree":{"frame":{"id":"1","url":"https://a/"},"childFrames":[
            {"frame":{"id":"2","name":"n","url":"u"},"childFrames":[{"frame":{"id":"3"}}]},
            {"frame":{"id":"4"}}]}}"#,
    );
    let ids: Vec<String> = frames::collect_frames(&answer)
        .iter()
        .map(|f| f.get_str("id").unwrap().to_owned())
        .collect();
    assert_eq!(ids, vec!["1", "2", "3", "4"]);
    let out = frames::list_frames(&answer);
    assert_eq!(rows(&out)[0], "  [1] https://a/");
    assert_eq!(rows(&out)[1], "  [2] \"n\" u");
    assert!(frames::collect_frames(&Json::Null).is_empty());
    assert_eq!(
        frames::switch_message(Some("n"), None, None, false).to_text(),
        r#"{"main":false,"name":"n","predicate":null,"type":"switchFrame","url_pattern":null}"#
    );
    match frames::switch_frame(json(r#"{"success":true,"frame_id":-3,"url":"u"}"#)) {
        Ok(CommandOutput::Data { human, .. }) => assert_eq!(human, "Switched to frame -3 (u)"),
        _ => panic!("data"),
    }
    assert!(frames::switch_frame(json("{}")).is_err());
}

#[test]
fn requests_of_the_page_are_listed() {
    assert_eq!(
        network::read_script(Some(5)),
        "(window.__webpilot_network || []).filter(e => e.timestamp >= 5)"
    );
    assert!(network::read_script(None).contains(">= 0)"));
    let out = network::read(json(r#"[{"type":"fetch","method":"GET","url":"u","status":200},{}]"#));
    assert_eq!(rows(&out), &vec!["fetch GET u → 200".to_owned(), "? ? ? → 0".to_owned()]);
    assert!(network::wake_message().to_text().contains("noop"));
}

#[test]
fn rules_replace_one_another() {
    let mut p = Policies::new();
    p.insert("click", "allow");
    p.insert("eval", "deny");
    p.insert("click", "deny");
    assert_eq!(p.rules.len(), 2);
    assert_eq!(p.rules[0].verdict, "deny");
    assert_eq!(rows(&policy::list(&p))[0], r#""click": "deny""#);
    assert_eq!(policy::policy_file("/tmp/w", None), "/tmp/w/default-policies.json");
    assert_eq!(policy::policy_file("/tmp/w", Some("me")), "/tmp/w/me-policies.json");
}

#[test]
fn recordings_take_as_many_pictures_as_the_time_takes() {
    assert_eq!(record::frame_count(Some(4), Some(9), 2), Ok(4));
    assert_eq!(record::frame_count(None, Some(9), 2), Ok(5));
    assert_eq!(record::frame_count(None, Some(0), 2), Ok(1));
    assert!(record::frame_count(None, None, 2).is_err());
    assert!(record::frame_count(None, None, 0).is_err());
    assert_eq!(record::frame_count(Some(3), None, 0), Ok(3));
    assert_eq!(record::frame_name(9, 7), "frame_9_007.png");
    assert_eq!(record::frame_name(9, 1234), "frame_9_1234.png");
    assert_eq!(
        record::frame_json(1, "/p", 2, Some(Json::Null)).to_text(),
        r#"{"dom":null,"index":1,"screenshot":"/p","timestamp_ms":2}"#
    );
    assert_eq!(profile::file_name(3), "profile_3.cpuprofile");
    assert_eq!(profile::profile_data(&json("{}")), Json::Null);
}

#[test]
fn sessions_come_back_as_they_went() {
    let cookies = json(r#"[{"name":"a"}]"#);
    let stored = json(r#"{"localStorage":{"k":"v"},"sessionStorage":{}}"#);
    let data = session::export(cookies, Some(stored), 7);
    let back = session::import(&data);
    assert_eq!(back.cookies.len(), 1);
    assert_eq!(
        back.storage.unwrap().to_text(),
        r#"{"localStorage":{"k":"v"},"type":"importStorage"}"#
    );
    assert_eq!(
        session::export(Json::array(), None, 7).to_text(),
        r#"{"cookies":[],"exported_at":7,"local_storage":{},"session_storage":{},"version":1}"#
    );
    assert_eq!(session::export_path(None, "/tmp/w", 7), "/tmp/w/session_7.json");
    assert_eq!(session::export_path(Some("/x"), "/tmp/w", 7), "/x");
}

#[test]
fn the_headless_browser_reports_itself() {
    match status::run(
        &json(r#"{"product":"Chrome/130"}"#),
        json(r#""T""#),
        Json::Null,
        Some("c"),
    ) {
        CommandOutput::Data { human, json } => {
            assert_eq!(human, "Mode: headless\nContext: c\nChrome: Chrome/130\nTab: T");
            assert_eq!(json.get_str("context"), Some("c"));
        }
        _ => panic!("data"),
    }
    match status::check(status::Absence::NoContext("c".to_owned())) {
        CommandOutput::Data { human, .. } => {
            assert_eq!(human, "Mode: headless\nContext 'c' not found")
        }
        _ => panic!("data"),
    }
}

#[test]
fn tabs_of_the_headless_browser_are_its_pages() {
    let out = tabs::list(&targets());
    assert_eq!(rows(&out), &vec!["  [A]  — about:blank".to_owned(), "  [B]  — https://b/".to_owned()]);
    assert_eq!(tabs::find(&targets(), "*b/*").unwrap(), "B");
    assert!(tabs::find(&targets(), "zzz").is_err());
    for (out, shown, told) in [
        (tabs::switched("B"), r#"{"success":true}"#, "Switched to B"),
        (tabs::closed("B"), r#"{"success":true}"#, "Closed B"),
        (tabs::found("B"), r#"{"success":true,"targetId":"B"}"#, "Switched to B"),
    ] {
        match out {
            CommandOutput::Data { json, human } => {
                assert_eq!(json.to_text(), shown);
                assert_eq!(human, told);
            }
            _ => panic!("data"),
        }
    }
    match tabs::opened(&json(r#"{"targetId":"N"}"#)) {
        CommandOutput::Data { human, .. } => assert_eq!(human, "New tab: N"),
        _ => panic!("data"),
    }
}

#[test]
fn waits_have_a_limit() {
    assert_eq!(wait::navigation_limit(5), 5);
    assert_eq!(wait::navigation_limit(500_000), 30_000);
    assert!(matches!(wait::navigated(false), Err(Failure::Timeout(_))));
    assert_eq!(
        wait::request(Some("#a"), None, 250).to_text(),
        r##"{"selector":"#a","text":null,"timeout_ms":250,"type":"wait"}"##
    );
    assert!(wait::finish(json(r#"{"success":false}"#)).is_err());
}

#[test]
fn a_switch_that_failed_says_why() {
    let reason = |answer: &str| frames::switch_reason(&json(answer));
    assert_eq!(reason(r#"{"success":false,"error":{"message":"no frame"}}"#), "no frame");
    assert_eq!(reason(r#"{"success":false,"error":"gone"}"#), "gone");
    assert_eq!(reason(r#"{"success":false,"error":{"code":1}}"#), "Frame switch failed");
    assert_eq!(reason("{}"), "Frame switch failed");
}

#[test]
fn the_page_reads_an_action_by_another_name() {
    let press = json(r#"{"kind":"key_press","key":"a"}"#);
    assert_eq!(page_action(press).to_text(), r#"{"action":"KeyPress","key":"a"}"#);
    let click = json(r#"{"kind":"click","index":1}"#);
    assert_eq!(page_action(click).to_text(), r#"{"action":"Click","index":1}"#);
}
