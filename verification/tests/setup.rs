use webpilot_cli::assets::{
    expected_extension_id, expected_extension_version, expected_names, id_from_digest, is_excluded,
    unexpected, write_dir, Asset, Write,
};
use webpilot_cli::cli::{is_nm_host_invocation, label_of, route, Execution, Route};
use webpilot_cli::commands::context::{ContextArgs, ContextCommand};
use webpilot_cli::commands::self_cmd::{
    before_replace, checksum_command, choose_release, detect_target, download, extension_state,
    next_stage, normalize_version, parse_tag_from_redirect, require_tools, resolve_latest, run,
    updated, verify_checksum, version_components, Event, ExtensionState, SelfArgs, SelfCommand,
    Stage, Tools, UpdateArgs, UpdatePlan,
};
use webpilot_cli::commands::setup::extension;
use webpilot_cli::commands::setup::nm_host;
use webpilot_cli::commands::setup::skill;
use webpilot_cli::commands::setup::skill::{decide, digest, provenance, Provenance, SkillArgs};
use webpilot_cli::commands::setup::{
    confirm, home_relative_with, orchestrate, question, ChromeOpen, StepOutcome,
};
use webpilot_cli::commands::status;
use webpilot_cli::commands::status::{IpcError, ManifestState, RunMode, Status};
use webpilot_cli::commands::uninstall;
use webpilot_cli::commands::uninstall::{
    Attempt, Attempts, CacheFailure, Decision, Plan, UninstallArgs,
};
use webpilot_cli::commands::Command;
use webpilot_cli::error::WebPilotError;
use webpilot_cli::json::Json;
use webpilot_cli::lockfile::{lock_outcome, LockOutcome};
use webpilot_cli::mcp::McpArgs;
use webpilot_cli::output::CommandOutput;

const EMBEDDED: &[u8] = "# skill v2".as_bytes();
const PREVIOUS: &[u8] = "# skill v1".as_bytes();
const EDITED: &[u8] = "# skill v1, with my notes".as_bytes();
const ID: &str = "abcdefghijklmnopabcdefghijklmnop";

fn human(out: &CommandOutput) -> &str {
    match out {
        CommandOutput::Data { human, .. } => human,
        _ => panic!("data"),
    }
}

fn json_of(out: &CommandOutput) -> &Json {
    match out {
        CommandOutput::Data { json, .. } => json,
        _ => panic!("data"),
    }
}

#[test]
fn normalize_strips_leading_v() {
    assert_eq!(normalize_version("v0.2.0"), "0.2.0");
    assert_eq!(normalize_version("0.2.0"), "0.2.0");
    assert_eq!(normalize_version("  v1.0.0  "), "1.0.0");
}

#[test]
fn detect_target_known_platform() {
    for os in ["macos", "linux"] {
        for arch in ["x86_64", "aarch64"] {
            let t = detect_target(os, arch).unwrap();
            assert!(t.contains("-apple-darwin") || t.contains("-unknown-linux-gnu"));
            assert!(t.starts_with("x86_64-") || t.starts_with("aarch64-"));
        }
    }
    assert_eq!(detect_target("linux", "x86_64").unwrap(), "x86_64-unknown-linux-gnu");
    assert!(detect_target("windows", "x86_64").is_err());
    assert!(detect_target("linux", "riscv64").is_err());
}

#[test]
fn parse_tag_extracts_version_from_release_redirect() {
    assert_eq!(
        parse_tag_from_redirect("https://github.com/o/r/releases/tag/v0.2.0").as_deref(),
        Some("0.2.0")
    );
    assert_eq!(
        parse_tag_from_redirect("https://github.com/o/r/releases/tag/v1.2.3-rc.1").as_deref(),
        Some("1.2.3-rc.1")
    );
    assert_eq!(
        parse_tag_from_redirect("https://github.com/o/r/releases/tag/v0.2.0/").as_deref(),
        Some("0.2.0")
    );
}

#[test]
fn parse_tag_returns_none_when_no_release_published() {
    assert!(parse_tag_from_redirect("https://github.com/o/r/releases").is_none());
    assert!(parse_tag_from_redirect("https://github.com/o/r").is_none());
    assert!(parse_tag_from_redirect("https://github.com/o/r/releases/tag/").is_none());
}

#[test]
fn versions_compare_by_their_numbers() {
    assert_eq!(version_components("0.3.10-rc2"), vec![0, 3, 10, 2]);
    assert_eq!(version_components("99999999999999999999.1"), vec![0, 1]);
    assert_eq!(choose_release(None, "0.3.10", "0.3.9").unwrap(), "0.3.10");
    match choose_release(None, "0.3.9", "0.3.10") {
        Err(WebPilotError::InvalidArgument { detail }) => assert_eq!(
            detail,
            "latest release v0.3.9 is older than the running v0.3.10; pin it explicitly with --version 0.3.9 if intended"
        ),
        _ => panic!("an older release is refused"),
    }
    assert_eq!(choose_release(Some("v0.1.0".to_owned()), "", "0.3.10").unwrap(), "0.1.0");
    for bad in ["", "v", "1/2", "1 0", "é"] {
        assert!(choose_release(Some(bad.to_owned()), "", "1").is_err(), "{bad}");
    }
}

#[test]
fn updates_are_planned() {
    let args = |version: Option<&str>, force: bool| SelfArgs {
        command: SelfCommand::Update(UpdateArgs { version: version.map(|v| v.to_owned()), force }),
    };
    match run(args(None, false), "1.0.0", "1.0.0", "x86_64-unknown-linux-gnu") {
        Ok(UpdatePlan::Current(out)) => {
            assert_eq!(human(&out), "Already on v1.0.0 — pass --force to reinstall.");
            assert_eq!(json_of(&out).to_text(), r#"{"updated":false,"version":"1.0.0"}"#);
        }
        _ => panic!("nothing to do"),
    }
    match run(args(None, true), "1.0.0", "1.0.0", "x86_64-unknown-linux-gnu") {
        Ok(UpdatePlan::Fetch { version, archive, url, binary }) => {
            assert_eq!(version, "1.0.0");
            assert_eq!(archive, "webpilot-1.0.0-x86_64-unknown-linux-gnu.tar.gz");
            assert_eq!(
                url,
                "https://github.com/junyeong-ai/web-pilot/releases/download/v1.0.0/webpilot-1.0.0-x86_64-unknown-linux-gnu.tar.gz"
            );
            assert_eq!(binary, "webpilot-1.0.0-x86_64-unknown-linux-gnu/webpilot");
        }
        _ => panic!("the release again"),
    }
    assert_eq!(extension_state(false, true), ExtensionState::NotInstalled);
    assert_eq!(extension_state(true, true), ExtensionState::Refreshed);
    assert_eq!(extension_state(true, false), ExtensionState::Stale);
    let out = updated("1", "2", "/bin/webpilot", ExtensionState::NotInstalled);
    assert_eq!(human(&out), "✓ Updated v1 → v2\n  /bin/webpilot");
    assert!(human(&updated("1", "2", "/b", ExtensionState::Stale)).contains("webpilot setup extension"));
}

#[test]
fn releases_are_fetched_and_checked_with_what_there_is() {
    let all = Tools { curl: true, tar: true, sha256sum: true, shasum: true };
    assert!(require_tools(all).is_ok());
    assert!(require_tools(Tools { sha256sum: false, ..all }).is_ok());
    assert!(require_tools(Tools { sha256sum: false, shasum: false, ..all }).is_err());
    assert!(require_tools(Tools { curl: false, ..all }).is_err());
    assert!(require_tools(Tools { tar: false, ..all }).is_err());
    assert_eq!(
        checksum_command(all, "a.tar.gz"),
        ("sha256sum".to_owned(), vec!["-c".to_owned(), "a.tar.gz.sha256".to_owned()])
    );
    assert_eq!(checksum_command(Tools { sha256sum: false, ..all }, "a").0, "shasum");
    let found = "https://github.com/o/r/releases/tag/v0.2.0".as_bytes().to_vec();
    assert_eq!(resolve_latest(true, found).unwrap(), "0.2.0");
    assert!(resolve_latest(false, Vec::new()).is_err());
    match resolve_latest(true, vec![0xff]) {
        Err(WebPilotError::Other { detail }) => assert_eq!(
            detail,
            "non-UTF8 redirect URL: invalid utf-8 sequence of 1 bytes from index 0"
        ),
        _ => panic!("no address"),
    }
    assert!(resolve_latest(true, "https://github.com/o/r".as_bytes().to_vec()).is_err());
    assert!(download("u", true).is_ok());
    assert!(download("u", false).is_err());
    assert!(verify_checksum(true).is_ok());
    assert!(verify_checksum(false).is_err());
}

#[test]
fn chrome_open_explicit_open_wins_over_yes() {
    assert!(matches!(ChromeOpen::from_flags(true, true), ChromeOpen::Always));
}

#[test]
fn chrome_open_yes_alone_is_never() {
    assert!(matches!(ChromeOpen::from_flags(true, false), ChromeOpen::Never));
}

#[test]
fn chrome_open_no_flags_asks() {
    assert!(matches!(ChromeOpen::from_flags(false, false), ChromeOpen::Ask));
}

#[test]
fn nothing_opens_without_a_terminal() {
    assert!(!ChromeOpen::Ask.should_open(false, true));
    assert!(ChromeOpen::Ask.should_open(true, true));
    assert!(!ChromeOpen::Never.should_open(true, true));
    assert!(ChromeOpen::Always.should_open(false, false));
}

#[test]
fn home_relative_substitutes_home() {
    assert_eq!(home_relative_with("/me/foo/bar", Some("/me")), "~/foo/bar");
}

#[test]
fn home_relative_keeps_outside_home() {
    assert_eq!(home_relative_with("/etc/foo", Some("/me")), "/etc/foo");
    assert_eq!(home_relative_with("/mean/foo", Some("/me")), "/mean/foo");
}

#[test]
fn home_relative_treats_empty_home_as_unset() {
    assert_eq!(home_relative_with("/users/me/foo", Some("")), "/users/me/foo");
}

#[test]
fn home_relative_treats_missing_home_as_unset() {
    assert_eq!(home_relative_with("/users/me/foo", None), "/users/me/foo");
}

#[test]
fn home_relative_goes_by_whole_parts() {
    assert_eq!(home_relative_with("/mexico/foo", Some("/me")), "/mexico/foo");
    assert_eq!(home_relative_with("/me/foo", Some("/me/")), "~/foo");
}

#[test]
fn confirm_yes_proceeds_regardless_of_default() {
    assert!(confirm(true, true, false, None), "yes + default-true should be true");
    assert!(confirm(false, true, false, None), "yes + default-false MUST be true (apt -y semantic)");
}

#[test]
fn confirm_reads_the_answer() {
    assert!(confirm(true, false, false, Some("n")));
    assert!(!confirm(false, false, false, Some("y")));
    assert!(confirm(false, false, true, Some(" yes\n")));
    assert!(!confirm(true, false, true, Some("no\n")));
    assert!(confirm(true, false, true, Some("\n")));
    assert!(confirm(true, false, true, None));
    assert_eq!(question("Proceed?", false), "  Proceed? [y/N] ");
    assert_eq!(question("Proceed?", true), "  Proceed? [Y/n] ");
}

#[test]
fn accepts_valid_extension_id() {
    assert!(nm_host::is_valid_extension_id("abcdefghijklmnopabcdefghijklmnop"));
}

#[test]
fn rejects_invalid_chars() {
    assert!(!nm_host::is_valid_extension_id("ABCDEFGHIJKLMNOPABCDEFGHIJKLMNOP"));
    assert!(!nm_host::is_valid_extension_id("qrstuvwxyzabcdefqrstuvwxyzabcdef"));
}

#[test]
fn rejects_wrong_length() {
    assert!(!nm_host::is_valid_extension_id("abc"));
    assert!(!nm_host::is_valid_extension_id("abcdefghijklmnopabcdefghijklmnopX"));
}

#[test]
fn targets_are_only_browsers_whose_profile_root_exists() {
    for macos in [false, true] {
        let candidates = nm_host::nm_candidate_dirs_under("/home/me", macos);
        assert!(candidates.len() >= 4, "platform should list several browsers");
        let mut present = vec![false; candidates.len()];
        assert!(nm_host::nm_target_dirs(&candidates, &present).is_empty());
        present[0] = true;
        present[1] = true;
        let got = nm_host::nm_target_dirs(&candidates, &present);
        assert_eq!(got.len(), 2, "only installed browsers are targets: {got:?}");
        assert_eq!(got[0], candidates[0]);
        assert_eq!(got[1], candidates[1]);
    }
}

#[test]
fn manifests_stand_beside_each_browsers_profile() {
    let paths = nm_host::nm_manifest_paths(Some("/home/me"), false).unwrap();
    assert_eq!(
        paths[0],
        "/home/me/.config/google-chrome/NativeMessagingHosts/com.webpilot.host.json"
    );
    assert_eq!(paths.len(), 6);
    assert_eq!(nm_host::nm_manifest_paths(Some("/home/me"), true).unwrap().len(), 8);
    assert!(nm_host::nm_manifest_paths(None, false).is_err());
    assert!(nm_host::nm_manifest_paths(Some(""), false).is_err());
    assert_eq!(nm_host::nm_profile_dirs("/h", true)[0], "/h/Library/Application Support/Google/Chrome");
}

#[test]
fn registration_writes_a_manifest_for_each_browser() {
    let args = |id: Option<&str>| nm_host::NmHostArgs { extension_id: id.map(|i| i.to_owned()) };
    let binary = || Ok::<String, WebPilotError>("/bin/webpilot".to_owned());
    let present = vec![true, false, true, false, false, false];
    let r = nm_host::run(args(None), ID, Some("/home/me"), false, &present, binary()).unwrap();
    assert_eq!(r.dirs.len(), 2);
    assert_eq!(r.paths.len(), 2);
    assert!(r.outcome.human.starts_with(
        "✓ NM host registered (extension id auto-detected)\n  Manifest: /home/me/.config/google-chrome/"
    ));
    assert!(r.outcome.human.ends_with("    webpilot --browser status"));
    let manifest = r.manifest.unwrap();
    assert!(matches!(status::judge(&manifest, true, ID), ManifestState::Healthy));
    assert!(matches!(
        nm_host::run(args(Some("nope")), ID, None, false, &present, binary()),
        Err(WebPilotError::InvalidArgument { .. })
    ));
    assert!(nm_host::run(args(None), ID, None, false, &present, binary()).is_err());
    let lost = || Err::<String, WebPilotError>(WebPilotError::other("could not locate own binary path"));
    let none = nm_host::run(args(None), ID, Some("/h"), false, &Vec::new(), lost()).unwrap();
    assert!(none.manifest.is_none());
    assert!(none.paths.is_empty());
    assert!(none.outcome.human.contains("no Chrome-family browser found"));
    assert!(nm_host::run(args(None), ID, Some("/h"), false, &present, lost()).is_err());
}

#[test]
fn a_missing_skill_is_installed() {
    let p = provenance(None, EMBEDDED, None);
    assert_eq!(p, Provenance::Absent);
    assert_eq!(decide(p, false, false).unwrap().label(), "installed");
}

#[test]
fn content_matching_the_binary_is_ours_without_any_record() {
    assert_eq!(provenance(Some(EMBEDDED), EMBEDDED, None), Provenance::Ours);
}

#[test]
fn an_unchanged_skill_is_left_alone_unless_forced() {
    let p = provenance(Some(EMBEDDED), EMBEDDED, None);
    assert_eq!(decide(p, true, false).unwrap().label(), "unchanged");
    assert!(!decide(p, true, false).unwrap().writes());
    assert_eq!(decide(p, true, true).unwrap().label(), "reinstalled");
}

#[test]
fn our_own_stale_copy_updates_without_a_prompt() {
    let record = digest(PREVIOUS);
    let p = provenance(Some(PREVIOUS), EMBEDDED, Some(&record));
    assert_eq!(p, Provenance::Ours);
    assert_eq!(decide(p, false, false).unwrap().label(), "updated");
}

#[test]
fn a_locally_edited_skill_is_never_overwritten_silently() {
    let record = digest(PREVIOUS);
    let p = provenance(Some(EDITED), EMBEDDED, Some(&record));
    assert_eq!(p, Provenance::Local);
    assert!(decide(p, false, false).is_none());
    assert_eq!(decide(p, false, true).unwrap().label(), "updated");
}

#[test]
fn an_unaccounted_copy_is_treated_as_the_users() {
    let p = provenance(Some(PREVIOUS), EMBEDDED, None);
    assert_eq!(p, Provenance::Local);
    assert!(decide(p, false, false).is_none());
}

#[test]
fn a_stale_record_does_not_claim_the_users_edits() {
    let stale = digest("something else entirely".as_bytes());
    assert_eq!(provenance(Some(EDITED), EMBEDDED, Some(&stale)), Provenance::Local);
}

#[test]
fn digests_are_sha256_in_hexadecimal() {
    assert_eq!(
        digest("abc".as_bytes()),
        "ba7816bf8f01cfea414140de5dae2223b00361a396177a9cb410ff61f20015ad"
    );
}

#[test]
fn skills_are_installed_refreshed_or_kept() {
    let md = "/me/agent/skills/webpilot/SKILL.md";
    let step = skill::run(SkillArgs { force: false }, None, EMBEDDED, None, false, md, Some("/me"));
    assert!(step.writes);
    assert_eq!(step.record, Some(digest(EMBEDDED)));
    assert_eq!(step.outcome.human, "✓ Skill installed   ~/agent/skills/webpilot/SKILL.md");
    let kept =
        skill::run(SkillArgs { force: false }, Some(EDITED), EMBEDDED, None, false, md, None);
    assert!(!kept.writes);
    assert!(kept.record.is_none());
    assert_eq!(kept.outcome.human, format!("✓ Skill kept        {md}"));
    assert!(skill::must_ask(Some(EDITED), EMBEDDED, None, false));
    let said_yes =
        skill::run(SkillArgs { force: false }, Some(EDITED), EMBEDDED, None, true, md, None);
    assert!(said_yes.writes);
    let record = step.record.unwrap();
    let next = "# skill v3".as_bytes();
    let refreshed =
        skill::run(SkillArgs { force: false }, Some(EMBEDDED), next, Some(&record), false, md, None);
    assert!(refreshed.writes);
    assert_eq!(refreshed.outcome.json.get_str("action"), Some("updated"));
    assert_eq!(skill::read_record(" abc\n").as_deref(), Some("abc"));
    assert!(skill::read_record(" \n").is_none());
    assert_eq!(skill::record_if_ours(EMBEDDED, EMBEDDED), Some(digest(EMBEDDED)));
    assert!(skill::record_if_ours(EDITED, EMBEDDED).is_none());
    assert_eq!(skill::skill_dir(Some("/me"), ".agent").unwrap(), "/me/.agent/skills/webpilot");
    assert!(skill::skill_dir(None, ".agent").is_err());
}

#[test]
fn setup_reports_both_steps() {
    let step = |human: &str| StepOutcome { human: human.to_owned(), json: Json::object() };
    let out = orchestrate(step("A"), step("B"));
    assert_eq!(human(&out), "WebPilot setup\n\nA\n\nB");
    let shown = extension::run(extension::ExtensionArgs { path: true }, "/d", None, false);
    assert_eq!(human(&shown), "/d");
    let done = extension::run(extension::ExtensionArgs { path: false }, "/me/d", Some("/me"), true);
    assert!(human(&done).starts_with("✓ Extension extracted to ~/d\n  Load it in Chrome:\n"));
    assert!(human(&done).contains("\n       /me/d\n"));
    assert_eq!(
        json_of(&done).get("opened_chrome_extensions").unwrap().as_bool(),
        Some(true)
    );
    assert_eq!(extension::opener(false).0, "xdg-open");
    assert_eq!(extension::opener(true).1.len(), 3);
}

#[test]
fn render_caps_a_page_controlled_flooded_title_and_url() {
    let out = status::render(
        Status {
            connected: true,
            mode: RunMode::Headless,
            tab_url: Some("https://evil.test/".to_owned() + &"q".repeat(50_000)),
            tab_title: Some("Z".repeat(50_000)),
            chrome_version: None,
            extension_version: None,
        },
        None,
    );
    let text = human(&out);
    for line in text.lines() {
        assert!(
            line.chars().count() <= 256,
            "no agent-facing status line floods: {} chars",
            line.chars().count()
        );
    }
    assert!(text.matches('Z').count() <= 200, "title capped at 200");
    assert!(text.matches('q').count() <= 200, "url capped at 200");
}

#[test]
fn status_lines_cannot_be_forged() {
    let out = status::render(
        Status {
            connected: true,
            mode: RunMode::Browser,
            tab_url: Some("https://x/".to_owned()),
            tab_title: Some("a\nConnected: false".to_owned()),
            chrome_version: Some("130".to_owned()),
            extension_version: Some("0.4.2".to_owned()),
        },
        Some("c\nd"),
    );
    assert_eq!(human(&out).lines().count(), 7);
    assert!(human(&out).starts_with("Mode: browser\nConnected: true\nContext: c"));
    let none = status::no_session(None);
    assert_eq!(human(&none), "Mode: headless\nConnected: false");
}

#[test]
fn evaluate_manifest_classifies_every_state() {
    let id = "jfghnlpbmpkplmemfemnkfckelipodfk";
    let name = nm_host::NM_HOST_NAME;
    let bin = "/usr/bin/webpilot";
    let eval = |body: String, launchable: bool| {
        status::evaluate_manifest(Some(&body), launchable, id)
    };
    assert!(status::evaluate_manifest(None, true, id).is_none());
    assert!(matches!(eval("{ not json".into(), true), Some(ManifestState::Malformed)));
    for (file, body) in [
        (
            "noname.json",
            format!(r#"{{"type":"stdio","path":"{bin}","allowed_origins":["chrome-extension://{id}/"]}}"#),
        ),
        (
            "badname.json",
            format!(r#"{{"name":"com.evil","type":"stdio","path":"{bin}","allowed_origins":["chrome-extension://{id}/"]}}"#),
        ),
        (
            "notype.json",
            format!(r#"{{"name":"{name}","path":"{bin}","allowed_origins":["chrome-extension://{id}/"]}}"#),
        ),
        (
            "badtype.json",
            format!(r#"{{"name":"{name}","type":"pipe","path":"{bin}","allowed_origins":["chrome-extension://{id}/"]}}"#),
        ),
        (
            "nopath.json",
            format!(r#"{{"name":"{name}","type":"stdio","allowed_origins":["chrome-extension://{id}/"]}}"#),
        ),
        (
            "relpath.json",
            format!(r#"{{"name":"{name}","type":"stdio","path":"relative/webpilot","allowed_origins":["chrome-extension://{id}/"]}}"#),
        ),
    ] {
        assert!(matches!(eval(body, true), Some(ManifestState::Malformed)), "{file} must be Malformed");
    }
    for (file, p) in [("binmissing.json", "/no/such/bin"), ("dirpath.json", "/tmp")] {
        let body = format!(
            r#"{{"name":"{name}","type":"stdio","path":"{p}","allowed_origins":["chrome-extension://{id}/"]}}"#
        );
        assert_eq!(status::manifest_program(&body).as_deref(), Some(p));
        assert!(
            matches!(eval(body, false), Some(ManifestState::BinaryMissing(_))),
            "{file} (path={p}) must be BinaryMissing"
        );
    }
    assert!(matches!(
        eval(
            format!(r#"{{"name":"{name}","type":"stdio","path":"{bin}","allowed_origins":["chrome-extension://abcdefghijklmnopabcdefghijklmnop/"]}}"#),
            true
        ),
        Some(ManifestState::IdMismatch)
    ));
    assert!(matches!(
        eval(
            format!(r#"{{"name":"{name}","type":"stdio","path":"{bin}","allowed_origins":["chrome-extension://{id}/"]}}"#),
            true
        ),
        Some(ManifestState::Healthy)
    ));
}

#[test]
fn one_healthy_manifest_is_enough() {
    let check = status::check_nm_manifest;
    assert_eq!(check(Vec::new()), ManifestState::NotFound);
    assert_eq!(
        check(vec![ManifestState::Healthy, ManifestState::BinaryMissing("/b".to_owned())]),
        ManifestState::Healthy
    );
    assert_eq!(
        check(vec![
            ManifestState::BinaryMissing("/a".to_owned()),
            ManifestState::Malformed,
            ManifestState::BinaryMissing("/b".to_owned()),
            ManifestState::IdMismatch,
        ]),
        ManifestState::BinaryMissing("/b".to_owned())
    );
    let out = status::diagnose(
        IpcError::HostNotRunning("/s".to_owned()),
        ManifestState::IdMismatch,
        ID,
    );
    assert!(human(&out).starts_with("Host not running (socket: /s)\n  NM manifest authorises"));
    assert!(human(&out).contains(ID));
    let out = status::diagnose(IpcError::Timeout, ManifestState::NotFound, ID);
    assert!(human(&out).contains("may be stuck"));
}

#[test]
fn uninstall_tells_what_it_removes_and_what_it_cannot() {
    let nothing = || Plan {
        chrome_running: false,
        binary: None,
        skill: None,
        extension: None,
        nm_host: Vec::new(),
        cache_root: None,
    };
    assert!(nothing().is_empty());
    assert!(nothing().report_lines().is_empty());
    let plan = Plan {
        chrome_running: true,
        skill: Some("/s".to_owned()),
        nm_host: vec!["/a.json".to_owned(), "/b.json".to_owned()],
        ..nothing()
    };
    assert_eq!(
        plan.report_lines(),
        vec![
            "● Headless Chrome (running)",
            "● Skill: /s",
            "● NM host: /a.json",
            "● NM host: /b.json"
        ]
    );
    let no = UninstallArgs { yes: false };
    assert!(matches!(uninstall::run(&no, &nothing(), true, Some("y")), Decision::Stop(_)));
    assert!(matches!(uninstall::run(&no, &plan, true, Some("y")), Decision::Remove));
    match uninstall::run(&no, &plan, false, None) {
        Decision::Stop(out) => assert_eq!(human(&out), "Cancelled."),
        Decision::Remove => panic!("no one said yes"),
    }
    assert!(matches!(
        uninstall::run(&UninstallArgs { yes: true }, &plan, false, None),
        Decision::Remove
    ));
    let out = uninstall::execute(&Attempts {
        chrome: Some(Ok(())),
        skill: Some(Attempt { path: "/s".to_owned(), error: Some("denied".to_owned()) }),
        extension: None,
        nm_host: vec![Attempt { path: "/a.json".to_owned(), error: None }],
        cache: Some(vec![CacheFailure {
            sub: "runtime".to_owned(),
            path: "/c/runtime".to_owned(),
            error: "busy".to_owned(),
        }]),
        binary: Some(Attempt { path: "/b".to_owned(), error: None }),
    });
    assert_eq!(
        human(&out),
        "✓ Uninstalled: chrome, nm_host, binary\n  Could not remove:\n    - skill at /s (denied)\n    - cache runtime at /c/runtime (busy)"
    );
    assert_eq!(
        json_of(&out).to_text(),
        r#"{"removed":["chrome","nm_host","binary"],"warnings":["skill at /s (denied)","cache runtime at /c/runtime (busy)"]}"#
    );
    assert_eq!(uninstall::cache_subdirs().len(), 4);
}

#[test]
fn extension_ids_come_from_the_pinned_key() {
    let manifest = r#"{"version":"0.4.2","key":"YWJj"}"#;
    let id = expected_extension_id(manifest).unwrap();
    // The digest of "abc" begins ba7816bf 8f01cfea 414140de 5dae2223.
    assert_eq!(id, "lkhibglpipabmpokebebeanofnkocccd");
    assert!(nm_host::is_valid_extension_id(&id));
    assert_eq!(expected_extension_version(manifest).as_deref(), Some("0.4.2"));
    assert!(expected_extension_id("{}").is_none());
    assert!(expected_extension_id(r#"{"key":"***"}"#).is_none());
    assert!(expected_extension_version("no json").is_none());
    assert_eq!(id_from_digest(&vec![0x0f; 16]), "ap".repeat(16));
}

fn file(path: &str, text: &str) -> Asset {
    Asset::File { path: path.to_owned(), bytes: text.as_bytes().to_vec() }
}

#[test]
fn stale_files_are_pruned_and_cruft_is_not_written() {
    let carried = vec![
        file("content/bridge.js", "b"),
        file("content/.DS_Store", "x"),
        file("content/icon.svg", "<svg/>"),
        Asset::Dir {
            path: "content/lib".to_owned(),
            entries: vec![file("content/lib/a.js", "a"), file("content/lib/.DS_Store", "x")],
        },
    ];
    let writes = write_dir(&carried, "content");
    let written = |target: &str, text: &str| Write::File {
        target: target.to_owned(),
        bytes: text.as_bytes().to_vec(),
    };
    let lib = Write::Dir { target: "lib".to_owned(), writes: vec![written("a.js", "a")] };
    assert_eq!(writes, vec![written("bridge.js", "b"), written("icon.svg", "<svg/>"), lib]);
    let expected = expected_names(&writes);
    assert_eq!(expected, vec!["bridge.js".to_owned(), "icon.svg".to_owned(), "lib".to_owned()]);
    let found = vec!["lib".to_owned(), "STALE.js".to_owned(), "bridge.js".to_owned()];
    assert_eq!(unexpected(&found, &expected), vec!["STALE.js".to_owned()]);
    assert!(is_excluded("a/.DS_Store"));
    assert!(!is_excluded("a/worker.js"));
    assert!(!is_excluded("a/icon.svg"));
    assert!(!is_excluded("a/.DS_Store/icon.svg"));
}

fn disk_names(dir: &Disk) -> Vec<String> {
    dir.iter().map(|(name, _)| name.clone()).collect()
}

type Disk = std::collections::BTreeMap<String, Stored>;

#[derive(Debug, PartialEq)]
enum Stored {
    File(Vec<u8>),
    Dir(Disk),
}

fn take_steps(writes: &Vec<Write>, disk: &mut Disk) {
    for write in writes {
        match write {
            Write::File { target, bytes } => {
                disk.insert(target.clone(), Stored::File(bytes.clone()));
            }
            Write::Dir { target, writes } => {
                let inner = disk.entry(target.clone()).or_insert(Stored::Dir(Disk::new()));
                match inner {
                    Stored::Dir(inner) => take_steps(writes, inner),
                    Stored::File(_) => panic!("a file stands in the way"),
                }
            }
        }
    }
    for name in unexpected(&disk_names(disk), &expected_names(writes)) {
        disk.remove(&name);
    }
}

#[test]
fn a_write_leaves_what_is_carried_and_nothing_else() {
    let carried = vec![
        file("e/popup.html", "{}"),
        Asset::Dir { path: "e/lib".to_owned(), entries: vec![file("e/lib/a.js", "a")] },
    ];
    let writes = write_dir(&carried, "e");
    let mut fresh = Disk::new();
    take_steps(&writes, &mut fresh);
    let mut old = Disk::new();
    old.insert("popup.html".to_owned(), Stored::File("{1}".as_bytes().to_vec()));
    old.insert("gone.js".to_owned(), Stored::File(Vec::new()));
    let mut lib = Disk::new();
    lib.insert("STALE.js".to_owned(), Stored::File(Vec::new()));
    lib.insert("deep".to_owned(), Stored::Dir(Disk::new()));
    old.insert("lib".to_owned(), Stored::Dir(lib));
    take_steps(&writes, &mut old);
    assert_eq!(old, fresh);
    take_steps(&writes, &mut old);
    assert_eq!(old, fresh);
    assert_eq!(disk_names(&old), vec!["lib".to_owned(), "popup.html".to_owned()]);
}

#[test]
fn accepts_valid_extension_origin() {
    assert!(is_nm_host_invocation(Some("chrome-extension://abcdefghijklmnopabcdefghijklmnop/")));
    assert!(is_nm_host_invocation(Some("chrome-extension://abcdefghijklmnopabcdefghijklmnop")));
}

#[test]
fn rejects_short_id() {
    assert!(!is_nm_host_invocation(Some("chrome-extension://abc/")));
}

#[test]
fn rejects_id_with_invalid_chars() {
    assert!(!is_nm_host_invocation(Some("chrome-extension://ABCDEFGHIJKLMNOPABCDEFGHIJKLMNOP/")));
    assert!(!is_nm_host_invocation(Some("chrome-extension://qrstuvwxyzabcdefqrstuvwxyzabcdef/")));
}

#[test]
fn rejects_arbitrary_strings_with_substring() {
    assert!(!is_nm_host_invocation(Some("--option=chrome-extension://abc/")));
    assert!(!is_nm_host_invocation(Some("https://example.com")));
    assert!(!is_nm_host_invocation(None));
}

#[test]
fn commands_are_routed_by_what_they_need() {
    let context = |command: ContextCommand| Command::Context(ContextArgs { command });
    assert_eq!(Command::Quit.execution(), Execution::Quit);
    assert_eq!(route(&Command::Status, true, None).unwrap(), Route::BrowserStatus);
    assert_eq!(route(&Command::Status, false, None).unwrap(), Route::HeadlessStatus);
    assert_eq!(route(&Command::Quit, false, None).unwrap(), Route::Quit);
    assert_eq!(route(&Command::Mcp(McpArgs {}), true, None).unwrap(), Route::Mcp);
    match route(&Command::Quit, true, None) {
        Err(WebPilotError::InvalidArgument { detail }) => assert_eq!(
            detail,
            "session lifecycle (quit) is only supported in headless mode (omit --browser)"
        ),
        _ => panic!("only the headless browser ends"),
    }
    assert!(route(&Command::Status, true, Some("c".to_owned())).is_err());
    assert_eq!(
        route(&context(ContextCommand::List), false, Some("c".to_owned())).unwrap(),
        Route::ContextList
    );
    assert_eq!(
        route(&context(ContextCommand::Close { name: None, all: true }), false, Some("c".to_owned()))
            .unwrap(),
        Route::Headless(None)
    );
    assert!(route(&context(ContextCommand::List), true, None).is_err());
    assert_eq!(label_of(&context(ContextCommand::List)), "context management");
    assert_eq!(label_of(&Command::Quit), "session lifecycle (quit)");
    assert_eq!(label_of(&Command::Status), "this command");
}

#[test]
fn locks_that_another_holds_are_busy_only_without_waiting() {
    assert_eq!(lock_outcome(true, true, false), LockOutcome::Held);
    assert_eq!(lock_outcome(false, true, true), LockOutcome::Busy);
    assert_eq!(lock_outcome(false, false, true), LockOutcome::Failed);
    assert_eq!(lock_outcome(false, true, false), LockOutcome::Failed);
}

#[test]
fn at_most_one_slash_stands_behind_an_origin() {
    let origin = "chrome-extension://abcdefghijklmnopabcdefghijklmnop".to_owned();
    assert!(is_nm_host_invocation(Some(&origin)));
    assert!(is_nm_host_invocation(Some(&(origin.clone() + "/"))));
    assert!(!is_nm_host_invocation(Some(&(origin.clone() + "//"))));
    assert!(!is_nm_host_invocation(Some(&(origin + "/x"))));
    assert!(!is_nm_host_invocation(None));
}

#[test]
fn an_update_goes_from_stage_to_stage() {
    let url = "https://x/a.tar.gz";
    for macos in [false, true] {
        let mut stage = Stage::FetchArchive;
        let mut seen = 0;
        let mut records = Vec::new();
        while stage != Stage::Done {
            let event = match stage {
                Stage::Claim => Event::Skill { disk: Some(PREVIOUS), embedded: Some(PREVIOUS) },
                _ => Event::Went(true),
            };
            let replaces = stage == Stage::Claim;
            let (next, record) = next_stage(stage, event, macos, url, "/p").unwrap();
            assert_eq!(replaces, next == Stage::Replace);
            records.extend(record);
            stage = next;
            seen += 1;
        }
        assert_eq!(seen, if macos { 8 } else { 7 });
        assert_eq!(records, vec![digest(PREVIOUS)]);
    }
    let told = |stage: Stage| match next_stage(stage, Event::Went(false), true, url, "/p") {
        Err(WebPilotError::Other { detail }) => detail,
        _ => panic!("an error"),
    };
    assert_eq!(told(Stage::FetchArchive), "download failed: https://x/a.tar.gz");
    assert_eq!(told(Stage::FetchChecksum), "download failed: https://x/a.tar.gz.sha256");
    assert_eq!(told(Stage::Verify), "checksum verification failed");
    assert_eq!(told(Stage::Extract), "tar extraction failed");
    assert_eq!(told(Stage::Locate), "release archive missing expected binary at /p");
    assert!(told(Stage::Sign).starts_with("codesign failed — the updated binary would be"));
    match next_stage(Stage::Replace, Event::Broke("disk full".into()), false, url, "/p") {
        Err(WebPilotError::Other { detail }) => assert_eq!(detail, "disk full"),
        _ => panic!("an error"),
    }
}

#[test]
fn an_update_leaves_the_skill_to_the_next_version() {
    assert_eq!(before_replace(Some(PREVIOUS), Some(PREVIOUS)), Some(digest(PREVIOUS)));
    assert_eq!(before_replace(Some(EDITED), Some(PREVIOUS)), None);
    assert_eq!(before_replace(None, Some(PREVIOUS)), None);
    assert_eq!(before_replace(Some(PREVIOUS), None), None);
}
