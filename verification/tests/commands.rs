use webpilot_cli::action::{Action, Modifiers};
use webpilot_cli::commands::action::{check_upload, UploadProbe};
use webpilot_cli::commands::console::{console_row, ConsoleEntry, ConsoleLevel, ConsoleSource};
use webpilot_cli::commands::context::{
    close_context, close_contexts, dispose_if_live, sweeps, swept, swept_output, tally, Closing,
    Record, Swept,
};
use webpilot_cli::commands::cookie::{
    cookie_row, delete, read, CookieInfo, DeleteData, PartitionKey, SameSite,
};
use webpilot_cli::commands::device::{
    check as check_metrics, preset, run as device_run, DeviceCommand, DevicePlan, Metrics, Scale,
};
use webpilot_cli::commands::diff::{compare, diff_dom, input_text, run as diff_kind, DiffArgs, Kind};
use webpilot_cli::commands::dom::{run as dom_run, DomResult};
use webpilot_cli::commands::fetch::{parse_header, run as fetch_run, FetchData};
use webpilot_cli::commands::find::{
    check, chain_action, finish, run as find_run, ChainEffect, FindArgs,
    InteractiveElement,
};
use webpilot_cli::commands::frame;
use webpilot_cli::commands::install::{dirs_nm, run as install_run, InstallArgs};
use webpilot_cli::commands::ipc_helper::{Answer, Done as OldDone};
use webpilot_cli::commands::network::{network_row, NetworkEntry};
use webpilot_cli::commands::picture::{
    compare as compare_pictures, compare_read, diff_screenshot, Picture,
};
use webpilot_cli::commands::policy::{
    enforce, enforce_key, known_operations, list as list_rules, operation, parse_verdict, verdict,
    PolicyStore, PolicyVerdict, Rule,
};
use webpilot_cli::commands::record::{frame_count, RecordArgs, Seconds};
use webpilot_cli::commands::session::{import_text, MAX_SESSION_BYTES};
use webpilot_cli::commands::wait::timeout_ms;
use webpilot_cli::commands::{cookies, frames, tab, tabs};
use webpilot_cli::error::WebPilotError;
use webpilot_cli::json::Json;
use webpilot_cli::output::CommandOutput;
use webpilot_cli::protocol::{lift_error, ActionData, Done, Reply, TabInfo};
use webpilot_cli::url_glob;

fn cookie(name: &str) -> CookieInfo {
    CookieInfo {
        name: name.into(),
        value: "v".into(),
        domain: "example.com".into(),
        path: "/".into(),
        secure: false,
        http_only: false,
        same_site: SameSite::Unspecified,
        expiration: None,
        host_only: false,
        partition_key: None,
        wire: Json::object(),
    }
}

fn entry() -> NetworkEntry {
    NetworkEntry {
        req_type: "fetch".into(),
        url: "https://x/api".into(),
        method: "GET".into(),
        status: Some(200),
        error: None,
        duration_ms: 45,
        timestamp: 1_799_000_000_123,
        wire: Json::object(),
    }
}

fn tab_info(id: &str, url: &str, active: bool) -> TabInfo {
    TabInfo {
        id: id.to_owned(),
        url: url.to_owned(),
        title: "T".to_owned(),
        active,
        wire: Json::string(id),
    }
}

fn element(index: u32, tag: &str, text: &str) -> InteractiveElement {
    InteractiveElement {
        index,
        tag: tag.to_owned(),
        text: text.to_owned(),
        role: None,
        name: None,
        label: None,
        placeholder: None,
        id: None,
        landmark: None,
        wire: Json::number(index as u64),
    }
}

fn find_args() -> FindArgs {
    FindArgs {
        role: None,
        text: None,
        label: None,
        placeholder: None,
        tag: None,
        click: false,
        fill: None,
    }
}

#[test]
fn console_row_leads_with_the_timestamp() {
    let row = console_row(&ConsoleEntry {
        source: ConsoleSource::Console,
        level: ConsoleLevel::Error,
        message: "boom".into(),
        timestamp: 1_799_000_000_123,
        wire: Json::Null,
    });
    assert!(row.starts_with("[1799000000123] "), "{row}");
    assert!(row.contains("[error] boom"), "{row}");
}

#[test]
fn console_row_names_what_the_page_never_called() {
    let row = console_row(&ConsoleEntry {
        source: ConsoleSource::Exception,
        level: ConsoleLevel::Error,
        message: "Uncaught TypeError: x is not a function".into(),
        timestamp: 1_799_000_000_123,
        wire: Json::Null,
    });
    assert!(row.contains("[exception] Uncaught TypeError"), "{row}");
}

#[test]
fn cookie_row_shows_every_scope_and_security_attribute() {
    let mut c = cookie("sid");
    c.path = "/admin".into();
    c.secure = true;
    c.http_only = true;
    c.host_only = true;
    c.same_site = SameSite::Strict;
    c.expiration = Some(1_799_000_000);
    let row = cookie_row(&c);
    assert!(row.contains("[example.com/admin]"), "scope: {row}");
    assert!(row.contains("secure"), "{row}");
    assert!(row.contains("httpOnly"), "{row}");
    assert!(row.contains("hostOnly"), "{row}");
    assert!(row.contains("sameSite=strict"), "{row}");
    assert!(row.contains("expires=1799000000"), "{row}");
}

#[test]
fn cookie_row_names_the_partition() {
    let mut c = cookie("sid");
    c.partition_key = Some(PartitionKey {
        top_level_site: "https://example.com".into(),
        has_cross_site_ancestor: false,
    });
    let row = cookie_row(&c);
    assert!(row.contains("partitioned=https://example.com"), "{row}");
    assert!(!row.contains(",xsite"), "first-party key has no xsite: {row}");

    c.partition_key.as_mut().unwrap().has_cross_site_ancestor = true;
    let row = cookie_row(&c);
    assert!(
        row.contains("partitioned=https://example.com,xsite"),
        "a cross-site-ancestor key is marked: {row}"
    );
    assert!(
        !cookie_row(&cookie("sid")).contains("partitioned"),
        "an unpartitioned cookie carries no partition flag"
    );
}

#[test]
fn cookie_row_marks_a_truncated_value_so_it_is_never_silently_clipped() {
    let row = cookie_row(&cookie("s"));
    assert!(row.contains("= v ") && !row.contains('…'), "short value whole: {row}");
    let mut long = cookie("s");
    long.value = "Z".repeat(80);
    let row = cookie_row(&long);
    assert!(row.contains('…'), "a clipped value must carry the … marker: {row}");
    assert!(
        row.matches('Z').count() == 40,
        "exactly the 40-char preview is shown before the marker: {row}"
    );
}

#[test]
fn cookie_row_caps_page_controlled_name_domain_and_path() {
    let mut c = cookie(&"N".repeat(5000));
    c.domain = "D".repeat(5000);
    c.path = format!("/{}", "P".repeat(5000));
    let row = cookie_row(&c);
    assert!(row.matches('N').count() <= 200, "name capped at 200");
    assert!(row.matches('D').count() <= 200, "domain capped at 200");
    assert!(row.matches('P').count() <= 200, "path capped at 200");
}

#[test]
fn cookie_row_marks_session_and_hides_unspecified_samesite() {
    let row = cookie_row(&cookie("tmp"));
    assert!(row.contains("session"), "a cookie with no expiry is a session cookie: {row}");
    assert!(!row.contains("sameSite"), "an Unspecified sameSite is not rendered: {row}");
    assert!(
        !row.contains("secure") && !row.contains("httpOnly"),
        "absent flags are not rendered: {row}"
    );
}

#[test]
fn an_absent_cookie_is_not_found() {
    match read(Reply::Data(vec![cookie("a")]), Some("b".to_owned())) {
        Err(e) => assert_eq!(e.exit_code(), 4),
        Ok(_) => panic!("no such cookie"),
    }
    assert!(read(Reply::Data(Vec::new()), None).is_ok());
    assert!(read(Reply::Unexpected, None).is_err());
    let gone = DeleteData { success: true, deleted: Some(2), error: None };
    assert!(delete("a", Reply::Data(gone)).is_ok());
}

#[test]
fn network_row_leads_with_timestamp_and_shows_status() {
    let row = network_row(&entry());
    assert!(row.starts_with("[1799000000123] "), "{row}");
    assert!(row.contains("200"), "{row}");
    assert!(row.contains("45ms"), "{row}");
}

#[test]
fn network_row_falls_back_to_error_then_question_mark() {
    let mut e = entry();
    e.status = None;
    e.error = Some("net::ERR_FAILED".into());
    assert!(network_row(&e).contains("net::ERR_FAILED"), "a statusless entry shows its error");
    e.error = None;
    assert!(
        network_row(&e).contains("→ ?"),
        "no status and no error renders the unknown marker"
    );
}

#[test]
fn diff_dom_validates_json_inputs() {
    let good = r#"{"elements":[],"total_nodes":1}"#;
    let bad = "truncated{{{ not json";
    assert!(diff_dom(good, good).is_ok());
    match diff_dom(good, bad) {
        Ok(_) => panic!("malformed JSON must be rejected, not diffed"),
        Err(WebPilotError::InvalidArgument { detail }) => assert!(
            detail.contains("not a valid DOM snapshot"),
            "expected a typed rejection of malformed JSON, got: {detail}"
        ),
        Err(_) => panic!("a typed rejection"),
    }
}

#[test]
fn diff_dom_ignores_extraction_ms_noise() {
    let a = r#"{"elements":[{"index":1,"tag":"button"}],"extraction_ms":18,"total_nodes":5}"#;
    let b = r#"{"elements":[{"index":1,"tag":"button"}],"extraction_ms":0,"total_nodes":5}"#;
    match diff_dom(a, b) {
        Ok(CommandOutput::Content { json, .. }) => assert_eq!(
            json.get("changed").unwrap().as_bool(),
            Some(false),
            "two captures differing only in extraction_ms must read as unchanged"
        ),
        _ => panic!("expected Content output"),
    }
}

#[test]
fn diffs_show_what_changed() {
    match compare("a\nb\n", "a\nc\n") {
        CommandOutput::Content { stdout, json, .. } => {
            assert!(stdout.contains("-b"));
            assert!(stdout.contains("+c"));
            assert_eq!(json.get("changed").unwrap().as_bool(), Some(true));
        }
        _ => panic!("content"),
    }
    match compare("a\nb\r\nc\rd", "a\nd\nc\r") {
        CommandOutput::Content { json, .. } => {
            let told = |name: &str| json.get(name).unwrap().as_u64().unwrap();
            assert_eq!(told("removed") + told("unchanged"), 4);
            assert_eq!(told("added") + told("unchanged"), 3);
            assert_eq!(told("unchanged"), 2);
        }
        _ => panic!("content"),
    }
    assert_eq!(input_text(vec![97, 98], "file A").unwrap(), "ab");
    match input_text(vec![97, 0xff], "file A") {
        Err(WebPilotError::Other { detail }) => assert_eq!(
            detail,
            "file A is not valid UTF-8: invalid utf-8 sequence of 1 bytes from index 1"
        ),
        _ => panic!("no text"),
    }
    let args = |a: &str, b: &str| DiffArgs {
        dom: false,
        screenshot: false,
        file_a: a.to_owned(),
        file_b: b.to_owned(),
    };
    assert!(matches!(diff_kind(&args("a.json", "b.json")), Ok(Kind::Dom)));
    assert!(matches!(diff_kind(&args("a.png", "b.png")), Ok(Kind::Screenshot)));
    assert!(diff_kind(&args("a.json", "b.png")).is_err());
}

fn png(pixels: &[[u8; 4]], width: u32) -> Vec<u8> {
    let flat: Vec<u8> = pixels.iter().flatten().copied().collect();
    let picture = image::RgbaImage::from_raw(width, pixels.len() as u32 / width, flat).unwrap();
    let mut out = std::io::Cursor::new(Vec::new());
    picture.write_to(&mut out, image::ImageFormat::Png).unwrap();
    out.into_inner()
}

#[test]
fn pictures_are_compared_pixel_by_pixel() {
    let black = [0, 0, 0, 255];
    let white = [255, 255, 255, 255];
    let a = png(&[black, black], 2);
    let b = png(&[black, white], 2);
    let (p, q, c) = match diff_screenshot(&a, &b) {
        Ok(r) => r,
        Err(_) => panic!("two pictures"),
    };
    assert_eq!((p.width, p.height), (2, 1));
    assert_eq!(q.pixels[4], 255);
    assert_eq!(c.changed, 1);
    assert_eq!(c.total, 2);
    assert!(!c.dimensions_differ);
    assert!(diff_screenshot("no picture".as_bytes(), &b).is_err());
    match compare_read(Err("bad".to_owned()), Err("worse".to_owned())) {
        Err(WebPilotError::Other { detail }) => assert_eq!(detail, "Cannot decode image A: bad"),
        _ => panic!("no picture"),
    }
    match compare_read(Ok(p), Err("worse".to_owned())) {
        Err(WebPilotError::Other { detail }) => assert_eq!(detail, "Cannot decode image B: worse"),
        _ => panic!("no picture"),
    }
    let one = Picture { width: 1, height: 1, pixels: vec![0, 0, 0, 255] };
    let two = Picture { width: 2, height: 1, pixels: vec![0, 0, 0, 255, 0, 0, 0, 255] };
    assert!(compare_pictures(&one, &two).dimensions_differ);
    assert_eq!(compare_pictures(&one, &one).changed, 0);
}

#[test]
fn click_and_fill_are_rejected_together_before_any_io() {
    let args = FindArgs {
        role: Some("button".into()),
        text: None,
        label: None,
        placeholder: None,
        tag: None,
        click: true,
        fill: Some("x".into()),
    };
    assert!(matches!(check(&args), Err(WebPilotError::InvalidArgument { .. })));
    let page = || Reply::Data(Some(vec![element(1, "button", "Save")]));
    assert!(matches!(find_run(page(), args, 10), Err(WebPilotError::InvalidArgument { .. })));
    let one = |click: bool, fill: Option<&str>| FindArgs {
        tag: Some("button".to_owned()),
        click,
        fill: fill.map(str::to_owned),
        ..find_args()
    };
    assert!(find_run(page(), one(true, None), 10).is_ok());
    assert!(find_run(page(), one(false, Some("x")), 10).is_ok());
    match find_run(page(), one(true, Some("x")), 10) {
        Err(WebPilotError::InvalidArgument { detail }) => assert_eq!(
            detail,
            "--click and --fill are mutually exclusive — chain one action per find"
        ),
        _ => panic!("two actions"),
    }
    let blank = FindArgs { text: Some(" ".to_owned()), ..find_args() };
    assert!(matches!(find_run(page(), blank, 10), Err(WebPilotError::InvalidArgument { .. })));
    assert!(find_run(page(), find_args(), 10).is_err());
}

#[test]
fn find_acts_only_on_the_one_match() {
    let page = || {
        Reply::Data(Some(vec![
            element(1, "button", "Save"),
            element(2, "button", "SAVE ALL"),
            element(3, "a", "Home"),
        ]))
    };
    let args = FindArgs { text: Some("save".to_owned()), ..find_args() };
    let found = find_run(page(), args, 10).unwrap();
    assert_eq!(found.human_lines.len(), 2);
    assert!(found.action.is_none());
    let args = FindArgs { text: Some("save".to_owned()), click: true, ..find_args() };
    assert!(matches!(find_run(page(), args, 10), Err(WebPilotError::InvalidArgument { .. })));
    let args = FindArgs { tag: Some("A".to_owned()), click: true, ..find_args() };
    let found = find_run(page(), args, 10).unwrap();
    assert_eq!(found.action, Some(Action::Click { index: 3, modifiers: Modifiers::none() }));
    let args =
        FindArgs { tag: Some("A".to_owned()), fill: Some("x".to_owned()), ..find_args() };
    assert_eq!(
        find_run(page(), args, 10).unwrap().action,
        Some(Action::Type { index: 3, text: "x".to_owned(), clear: true })
    );
    match finish(found, ChainEffect::none()) {
        CommandOutput::List { .. } => {}
        _ => panic!("a list"),
    }
    let args = FindArgs { role: Some("slider".to_owned()), ..find_args() };
    assert!(matches!(find_run(page(), args, 10), Err(WebPilotError::SelectorNotFound { .. })));
    assert!(check(&find_args()).is_err());
    let blank = FindArgs { text: Some(" ".to_owned()), ..find_args() };
    assert!(check(&blank).is_err());
}

#[test]
fn failures_are_never_taken_for_success() {
    assert!(lift_error(true, None, 1).is_ok());
    assert!(lift_error(false, None, 1).is_err());
    let failed = DomResult { success: false, value: Some("x".to_owned()), error: None };
    assert!(dom_run(None, Reply::Data(failed)).is_err());
    let failed = FetchData { success: false, status: Some(200), body: None, error: None };
    assert!(fetch_run(Reply::Data(failed)).is_err());
    let action = ActionData {
        success: false,
        error: Some(WebPilotError::NoPage),
        dom: None,
        url_changed: None,
        new_tab: None,
        capture_error: None,
        downloads: Vec::new(),
    };
    assert!(matches!(chain_action(Reply::Data(action)), Err(WebPilotError::NoPage)));
}

#[test]
fn headers_are_a_name_and_a_value() {
    let h = parse_header("Accept: text/html").unwrap();
    assert_eq!(h.name, "Accept");
    assert_eq!(h.value, "text/html");
    assert!(parse_header("nothing").is_err());
}

#[test]
fn uploads_must_be_files_that_can_be_read() {
    let probe = |regular: bool| UploadProbe {
        resolved: Ok("/abs/f".to_owned()),
        regular: Ok(regular),
        opened: Ok(()),
    };
    assert_eq!(check_upload("f", probe(true)).unwrap(), "/abs/f");
    assert!(matches!(
        check_upload("f", probe(false)),
        Err(WebPilotError::InvalidArgument { .. })
    ));
}

#[test]
fn contexts_in_use_are_left_alone() {
    let own = Some("mine".to_owned());
    assert!(sweeps(&own, "mine", false));
    assert!(!sweeps(&own, "other", false));
    assert!(sweeps(&own, "other", true));
    let t = tally(&vec![Swept::Closed, Swept::InUse, Swept::Failed, Swept::Closed]);
    assert_eq!((t.closed, t.in_use, t.failed), (2, 1, 1));
    let _ = swept_output(&t);
    assert!(matches!(
        close_context("c", Record::Missing, &None, true),
        Err(WebPilotError::ContextNotFound { .. })
    ));
    let found = Record::Found { browser_context_id: "B".to_owned() };
    assert!(matches!(
        close_context("c", found, &None, false),
        Err(WebPilotError::ContextInUse { .. })
    ));
    assert!(dispose_if_live(&vec!["B".to_owned()], "B"));
    assert!(!dispose_if_live(&Vec::new(), "B"));
}

#[test]
fn devices_are_known_by_name() {
    assert!(preset("nokia").is_none());
    let p = preset("iphone-15").unwrap();
    assert_eq!((p.width, p.height), (393, 852));
    let metrics = |width: u32, positive: bool| Metrics {
        width,
        height: 10,
        mobile: false,
        scale: Scale { shown: "1".to_owned(), wire: Json::number(1), positive },
        user_agent: None,
    };
    assert!(check_metrics(&metrics(10, true)).is_ok());
    assert!(check_metrics(&metrics(0, true)).is_err());
    assert!(check_metrics(&metrics(10, false)).is_err());
}

#[test]
fn rules_are_listed_in_order() {
    assert!(matches!(parse_verdict("deny"), Ok(PolicyVerdict::Deny)));
    assert!(parse_verdict("maybe").is_err());
    let rule = |o: &str| Rule { operation: o.to_owned(), verdict: "deny".to_owned() };
    match list_rules("allow", vec![rule("eval"), rule("click")]) {
        CommandOutput::List { items, .. } => {
            let text = items.to_text();
            assert!(text.find("click").unwrap() < text.find("eval").unwrap());
        }
        CommandOutput::Data { human, .. } => {
            assert!(human.find("click").unwrap() < human.find("eval").unwrap());
        }
        _ => panic!("rules"),
    }
}

#[test]
fn recordings_are_bounded() {
    let args = |frames: Option<u32>| RecordArgs {
        frames,
        duration: None,
        interval: 500,
        dom: false,
        url: None,
    };
    assert_eq!(frame_count(&args(Some(3)), 100).unwrap(), 3);
    assert!(frame_count(&args(Some(101)), 100).is_err());
    assert!(frame_count(&args(None), 100).is_err());
    let timed = RecordArgs {
        duration: Some(Seconds { shown: "2".to_owned(), positive: true, frames: 4 }),
        ..args(None)
    };
    assert_eq!(frame_count(&timed, 100).unwrap(), 4);
}

#[test]
fn sessions_must_be_text() {
    assert_eq!(import_text("{}".as_bytes().to_vec()).unwrap(), "{}");
    assert!(import_text(vec![0xff]).is_err());
    assert_eq!(MAX_SESSION_BYTES, 64 * 1024 * 1024);
    assert_eq!(timeout_ms(3), 3000);
    assert_eq!(timeout_ms(u64::MAX), u64::MAX);
}

#[test]
fn frames_and_tabs_are_marked() {
    let info = |id: &str| frame::FrameInfo {
        frame_id: id.to_owned(),
        url: "https://x/".to_owned(),
        name: None,
        is_main: true,
        wire: Json::string(id),
    };
    let data = frame::FramesData {
        frames: vec![info("F1"), info("F2")],
        active_frame_id: Some("F2".to_owned()),
    };
    match frame::list_frames(Reply::Data(data)).unwrap() {
        CommandOutput::List { human_lines, .. } => {
            assert!(human_lines[0].starts_with(' '));
            assert!(human_lines[1].starts_with('*'));
        }
        _ => panic!("a list"),
    }
    let all = vec![tab_info("1", "https://x/", true), tab_info("2", "https://y/", false)];
    match tab::list_tabs(Reply::Data(all)).unwrap() {
        CommandOutput::List { human_lines, .. } => {
            assert_eq!(human_lines[0], "* [1] T — https://x/");
            assert_eq!(human_lines[1], "  [2] T — https://y/");
        }
        _ => panic!("a list"),
    }
    let done = Done { success: true, error: None };
    assert!(tab::switch_tab("1", Reply::Data(done)).is_ok());
}

#[test]
fn tabs_are_found_by_a_part_of_their_address() {
    let all = || Answer::Data(vec![tab_info("1", "https://x/", true), tab_info("2", "https://y/a", false)]);
    assert_eq!(tabs::find_tab("*y/*", all()).unwrap(), "2");
    match tabs::find_tab("zzz", all()) {
        Err(WebPilotError::Other { detail }) => assert_eq!(detail, "No tab matching 'zzz'"),
        _ => panic!("no such tab"),
    }
    match tabs::list_tabs(all()).unwrap() {
        CommandOutput::List { human_lines, items, .. } => {
            assert_eq!(human_lines[0], "* [1] T — https://x/");
            assert_eq!(items.to_text(), r#"["1","2"]"#);
        }
        _ => panic!("a list"),
    }
    let ok = || Answer::Data(OldDone { success: true, error: None });
    let no = || Answer::Data(OldDone { success: false, error: None });
    assert_eq!(
        tabs::switch_tab("2", ok()).unwrap(),
        CommandOutput::Message("Switched to tab 2".to_owned())
    );
    assert!(tabs::new_tab("u", no()).is_err());
    assert_eq!(
        tabs::close_tab("2", ok()).unwrap(),
        CommandOutput::Message("Tab 2 closed".to_owned())
    );
    assert!(tabs::switch_tab("2", Answer::Error("x".to_owned())).is_err());
    let args = tabs::TabsArgs { command: Some(tabs::TabCommand::Find { url: "x".to_owned() }) };
    assert_eq!(tabs::request(args), tabs::TabRequest::List);
}

#[test]
fn numbered_frames_are_aligned() {
    let f = |frame_id: i64, is_main: bool| frames::NumberedFrame {
        frame_id,
        url: "https://x/".to_owned() + &"q".repeat(100),
        is_main,
        wire: Json::number(frame_id as u64),
    };
    let list = frames::FrameList { frames: vec![f(0, true), f(12, false)], active_frame_id: 12 };
    match frames::list_frames(Answer::Data(list)).unwrap() {
        CommandOutput::List { human_lines, summary, .. } => {
            assert_eq!(human_lines[0], format!("  [  0] https://x/{} [main]", "q".repeat(50)));
            assert!(human_lines[1].starts_with("* [ 12] "));
            assert_eq!(summary, "(2 frames, active=12)");
        }
        _ => panic!("a list"),
    }
    let moved = frames::Switched {
        done: OldDone { success: true, error: None },
        frame_id: 3,
        url: Some("https://x/".to_owned()),
    };
    match frames::switch_frame(Answer::Data(moved)).unwrap() {
        CommandOutput::Data { human, json } => {
            assert_eq!(human, "Switched to frame 3 (https://x/)");
            assert_eq!(json.to_text(), r#"{"frame_id":3,"success":true,"url":"https://x/"}"#);
        }
        _ => panic!("data"),
    }
    let args = frames::FramesArgs { command: Some(frames::FrameCommand::Main) };
    assert!(matches!(frames::request(args), frames::FrameRequest::Switch { main: true, .. }));
}

#[test]
fn plain_cookies_are_listed_or_shown() {
    let c = |name: &str| cookies::PlainCookie {
        name: name.to_owned(),
        value: "Z".repeat(50),
        domain: "d".to_owned(),
        secure: true,
        http_only: true,
        wire: Json::string(name),
    };
    match cookies::list(Answer::Data(vec![c("a"), c("b")]), None).unwrap() {
        CommandOutput::List { human_lines, summary, .. } => {
            assert_eq!(human_lines[0], format!("a = {} [d] secure,httpOnly", "Z".repeat(40)));
            assert_eq!(summary, "(2 cookies)");
        }
        _ => panic!("a list"),
    }
    match cookies::list(Answer::Data(vec![c("a"), c("b")]), Some("b")).unwrap() {
        CommandOutput::Content { stdout, .. } => {
            assert_eq!(stdout, format!("b = {}", "Z".repeat(50)))
        }
        _ => panic!("one cookie"),
    }
    let command = cookies::CookieCommand::Delete { url: "u".to_owned(), name: "a".to_owned() };
    assert_eq!(cookies::change_message(&command), Some("Cookie deleted"));
    let failed = OldDone { success: false, error: Some("no".to_owned()) };
    assert!(cookies::changed(Answer::Data(failed), "Cookie deleted").is_err());
}

#[test]
fn installing_writes_one_manifest() {
    let home = Some("/me");
    assert_eq!(dirs_nm(home, false), "/me/.config/google-chrome/NativeMessagingHosts");
    assert_eq!(dirs_nm(None, false), "/tmp/.config/google-chrome/NativeMessagingHosts");
    let done = install_run(InstallArgs { extension_id: None }, home, false, "/bin/w");
    assert_eq!(
        done.path,
        "/me/.config/google-chrome/NativeMessagingHosts/com.webpilot.host.json"
    );
    assert_eq!(done.manifest.get_str("path"), Some("/bin/w"));
    match done.output {
        CommandOutput::Data { human, .. } => assert!(human.contains("Next steps:")),
        _ => panic!("data"),
    }
    let id = "abcdefghijklmnopabcdefghijklmnop".to_owned();
    let done = install_run(InstallArgs { extension_id: Some(id) }, home, true, "/bin/w");
    match done.output {
        CommandOutput::Data { human, .. } => assert!(human.contains("Extension ID: abcdef")),
        _ => panic!("data"),
    }
}

#[test]
fn find_args_deserialize_strictly() {
    let ok = FindArgs::read(&Json::parse(r#"{"label":"Email","fill":"x"}"#).unwrap()).unwrap();
    assert_eq!(ok.label.as_deref(), Some("Email"));
    assert_eq!(ok.fill.as_deref(), Some("x"));
    assert!(!ok.click);
    let bad = FindArgs::read(&Json::parse(r#"{"lable":"Email"}"#).unwrap());
    assert!(bad.is_err(), "unknown filter field must be rejected");
    let none = FindArgs::read(&Json::parse(r#"{"role":null}"#).unwrap()).unwrap();
    assert_eq!(none.role, None);
    assert!(FindArgs::read(&Json::parse(r#"{"click":"yes"}"#).unwrap()).is_err());
    let told = |args: &str| FindArgs::read(&Json::parse(args).unwrap()).unwrap_err();
    assert_eq!(told("null"), "invalid type: null, expected struct FindArgs");
    assert_eq!(told(r#"{"click":"yes"}"#), "invalid type: string \"yes\", expected a boolean");
    assert!(told(r#"{"lable":"Email"}"#).starts_with("unknown field `lable`, expected one of `role`, "));
    let row = FindArgs::read(&Json::parse(r#"["button",null,"Send"]"#).unwrap()).unwrap();
    assert_eq!(row.role.as_deref(), Some("button"));
    assert_eq!(row.text, None);
    assert_eq!(row.label.as_deref(), Some("Send"));
}

#[test]
fn stars_stand_for_anything_in_an_address() {
    assert!(url_glob::is_blank(""));
    assert!(url_glob::is_blank("**"));
    assert!(!url_glob::is_blank(" "));
    assert!(!url_glob::is_blank("*a*"));
    let url = "https://example.com/a/b?x=1";
    for pattern in ["", "*", "example", "https://*", "*/b*", "e*e*/a", "com*x=1"] {
        assert!(url_glob::matches(pattern, url), "{pattern}");
    }
    for pattern in ["example.org", "b*a/", "x=1*com", "https:/*/c"] {
        assert!(!url_glob::matches(pattern, url), "{pattern}");
    }
}

#[test]
fn a_pattern_must_single_out_one_tab() {
    let tab = |id: &str, url: &str| TabInfo {
        id: id.into(),
        title: "t".into(),
        url: url.into(),
        active: false,
        wire: Json::object(),
    };
    let all = || Reply::Data(vec![tab("1", "https://a.test/x"), tab("2", "https://a.test/y")]);
    assert_eq!(tab::find_tab("a.test/*y", all()).unwrap(), "2");
    match tab::find_tab("b.test", all()) {
        Err(WebPilotError::TabNotFound { tab_id }) => assert_eq!(tab_id, "b.test"),
        _ => panic!("no tab"),
    }
    match tab::find_tab("a*test", all()) {
        Err(WebPilotError::InvalidArgument { detail }) => assert_eq!(
            detail,
            "2 tabs match \"a*test\" — refine it or use `tab switch <id>` to pick one: \
             https://a.test/x, https://a.test/y"
        ),
        _ => panic!("an ambiguous pattern"),
    }
    assert!(tab::check_pattern("*").is_err());
    assert!(tab::check_pattern("a*").is_ok());
    assert!(frame::check(&frame::FrameCommand::Url { pattern: "**".into() }).is_err());
    assert!(frame::check(&frame::FrameCommand::Url { pattern: "*a".into() }).is_ok());
    assert!(frame::check(&frame::FrameCommand::Main).is_ok());
}

fn denied(operation: &str) -> WebPilotError {
    WebPilotError::PolicyDenied { operation: operation.to_owned() }
}

fn kept(default: &str, rules: &[(&str, &str)]) -> Option<PolicyStore> {
    Some(PolicyStore {
        default: default.to_owned(),
        rules: rules
            .iter()
            .map(|(o, v)| Rule { operation: o.to_string(), verdict: v.to_string() })
            .collect(),
    })
}

#[test]
fn what_is_not_allowed_is_denied() {
    let store = kept("deny", &[("click", "allow"), ("eval", "maybe")]);
    assert_eq!(verdict(&store, "click"), PolicyVerdict::Allow);
    assert_eq!(verdict(&store, "eval"), PolicyVerdict::Deny);
    assert_eq!(verdict(&store, "device"), PolicyVerdict::Deny);
    assert_eq!(verdict(&kept("allow", &[]), "device"), PolicyVerdict::Allow);
    assert_eq!(verdict(&None, "device"), PolicyVerdict::Deny);
    assert_eq!(enforce_key(&store, "device"), Err(denied("device")));
    assert_eq!(enforce_key(&store, "click"), Ok(()));
    assert!(known_operations().contains(&"context_close".to_owned()));
}

#[test]
fn commands_are_ruled_on_by_what_they_do() {
    let of = |command: &str| operation(&Json::parse(command).unwrap());
    assert_eq!(of(r#"{"type":"Action","action":{"kind":"type"}}"#).as_deref(), Some("type"));
    assert_eq!(of(r#"{"type":"ConsoleStart"}"#).as_deref(), Some("eval"));
    assert_eq!(of(r#"{"type":"Capture","url":"https://a"}"#).as_deref(), Some("navigate"));
    assert_eq!(of(r#"{"type":"Capture","url":null}"#), None);
    let found = r#"{"type":"FrameSwitch","selector":{"by":"predicate","js":"1"}}"#;
    assert_eq!(of(found).as_deref(), Some("eval"));
    assert_eq!(of(r#"{"type":"FrameSwitch","selector":{"by":"main"}}"#), None);
    let store = kept("allow", &[("tab_close", "deny")]);
    let close = Json::parse(r#"{"type":"TabClose"}"#).unwrap();
    assert_eq!(enforce(&store, &close), Err(denied("tab_close")));
    assert_eq!(enforce(&store, &Json::parse(r#"{"type":"TabNew"}"#).unwrap()), Ok(()));
    assert_eq!(enforce(&None, &Json::parse(r#"{"type":"Status"}"#).unwrap()), Ok(()));
}

#[test]
fn no_device_is_passed_for_that_the_rules_deny() {
    match device_run(Err(denied("device")), DeviceCommand::Reset) {
        Err(e) => assert_eq!(e, denied("device")),
        Ok(_) => panic!("denied"),
    }
    let named = |name: &str| DeviceCommand::Preset { name: name.to_owned() };
    match device_run(Ok(()), named("iPad-Pro")) {
        Ok(DevicePlan::Known { name, preset }) => {
            assert_eq!(name, "iPad-Pro");
            assert_eq!((preset.width, preset.scale_milli), (1024, 2000));
        }
        _ => panic!("a device"),
    }
    match device_run(Ok(()), named("nokia")) {
        Err(WebPilotError::InvalidArgument { detail }) => {
            assert!(detail.starts_with("unknown preset 'nokia'. Available: iphone-15"))
        }
        _ => panic!("a refusal"),
    }
    assert!(matches!(device_run(Ok(()), DeviceCommand::Reset), Ok(DevicePlan::Reset)));
}

#[test]
fn contexts_are_closed_only_where_the_rules_allow_it() {
    match close_contexts(Err(denied("context_close")), None, true) {
        Err(e) => assert_eq!(e, denied("context_close")),
        Ok(_) => panic!("denied"),
    }
    assert!(matches!(close_contexts(Ok(()), Some("a".into()), true), Ok(Closing::All)));
    match close_contexts(Ok(()), Some("a".into()), false) {
        Ok(Closing::One(name)) => assert_eq!(name, "a"),
        _ => panic!("one"),
    }
    let own = Some("mine".to_owned());
    assert_eq!(swept(&own, "mine", false, true), Swept::Closed);
    assert_eq!(swept(&own, "other", false, true), Swept::InUse);
    assert_eq!(swept(&own, "other", true, false), Swept::Failed);
    assert_eq!(swept(&own, "other", true, true), Swept::Closed);
}
