//! `setup extension`: the browser's extension, on disk.
use crate::commands::setup::{home_relative_with, StepOutcome};
use crate::commands::setup;
use crate::json::{Json, JsonView};
use crate::model;
use crate::output::{CommandOutput, OutputView};
use crate::text;
use vstd::prelude::*;
use vstd::string::StringExecFns;

verus! {

/// The arguments of `setup extension`.
#[derive(Debug, PartialEq, Eq)]
pub struct ExtensionArgs {
    /// Only says where the extension goes.
    pub path: bool,
}

/// What the step reports, in words.
pub open spec fn guide(dest: Seq<char>, shown: Seq<char>) -> Seq<char> {
    "✓ Extension extracted to "@ + shown + "\n"@ + "  Load it in Chrome:\n"@
        + "    1. Open chrome://extensions\n"@
        + "    2. Enable Developer mode (top-right toggle)\n"@
        + "    3. Click \"Load unpacked\" and select:\n"@ + "       "@ + dest + "\n"@
        + "    4. Copy the 32-character Extension ID\n"@
        + "    5. Run: webpilot setup nm-host --extension-id <ID>"@
}

/// What the step reports once the extension is on disk.
pub fn install(dest: &str, home: Option<&str>, opened: bool) -> (r: StepOutcome)
    ensures
        r@ == (
            JsonView::object().with("path"@, JsonView::Str(dest@)).with(
                "opened_chrome_extensions"@,
                JsonView::Bool(opened),
            ),
            guide(dest@, setup::home_shown(dest@, model::maybe(home))),
        ),
{
    let shown = home_relative_with(dest, home);
    let human = "✓ Extension extracted to ".to_owned().concat(shown.as_str()).concat("\n").concat(
        "  Load it in Chrome:\n",
    ).concat("    1. Open chrome://extensions\n").concat(
        "    2. Enable Developer mode (top-right toggle)\n",
    ).concat("    3. Click \"Load unpacked\" and select:\n").concat("       ").concat(dest).concat(
        "\n",
    ).concat("    4. Copy the 32-character Extension ID\n").concat(
        "    5. Run: webpilot setup nm-host --extension-id <ID>",
    );
    let json = Json::object().with("path", Json::string(dest)).with(
        "opened_chrome_extensions",
        Json::Bool(opened),
    );
    StepOutcome { human, json }
}

/// What a question for the path prints: nothing is written.
pub fn path_output(dest: &str) -> (r: CommandOutput)
    ensures
        r@ == OutputView::Data(
            JsonView::object().with("path"@, JsonView::Str(dest@)),
            dest@,
        ),
{
    CommandOutput::Data {
        json: Json::object().with("path", Json::string(dest)),
        human: dest.to_owned(),
    }
}

/// What `setup extension` prints. Where it does more than say the path, the extension is on disk
/// by now, and `opened` tells whether the browser's page opened.
pub fn run(args: ExtensionArgs, dest: &str, home: Option<&str>, opened: bool) -> (r: CommandOutput)
    ensures
        r@ == if args.path {
            OutputView::Data(JsonView::object().with("path"@, JsonView::Str(dest@)), dest@)
        } else {
            OutputView::Data(
                JsonView::object().with("path"@, JsonView::Str(dest@)).with(
                    "opened_chrome_extensions"@,
                    JsonView::Bool(opened),
                ),
                guide(dest@, setup::home_shown(dest@, model::maybe(home))),
            )
        },
{
    if args.path {
        path_output(dest)
    } else {
        install(dest, home, opened).output()
    }
}

/// The program that opens the browser's page of extensions, with its arguments.
pub fn opener(macos: bool) -> (r: (String, Vec<String>))
    ensures
        macos ==> r.0@ == "open"@ && text::texts(r.1@) == seq![
            "-a"@,
            "Google Chrome"@,
            "chrome://extensions"@,
        ],
        !macos ==> r.0@ == "xdg-open"@ && text::texts(r.1@) == seq!["chrome://extensions"@],
{
    let mut args: Vec<String> = Vec::new();
    if macos {
        args.push("-a".to_owned());
        args.push("Google Chrome".to_owned());
        args.push("chrome://extensions".to_owned());
        proof {
            text::lemma_texts_index(args@);
            assert(text::texts(args@) =~= seq!["-a"@, "Google Chrome"@, "chrome://extensions"@]);
        }
        ("open".to_owned(), args)
    } else {
        args.push("chrome://extensions".to_owned());
        proof {
            text::lemma_texts_index(args@);
            assert(text::texts(args@) =~= seq!["chrome://extensions"@]);
        }
        ("xdg-open".to_owned(), args)
    }
}

/// What is printed names where the extension goes, in JSON and in words; only where it was put there
/// does it tell whether the browser's page opened.
pub proof fn law_extensions_are_told(
    args: ExtensionArgs,
    dest: &str,
    home: Option<&str>,
    opened: bool,
    r: CommandOutput,
)
    requires
        call_ensures(run, (args, dest, home, opened), r),
    ensures
        r matches CommandOutput::Data { json, human } && {
            &&& json@.get("path"@) == Some(JsonView::Str(dest@))
            &&& args.path ==> json@.get("opened_chrome_extensions"@) is None && human@ == dest@
            &&& !args.path ==> json@.get("opened_chrome_extensions"@) == Some(
                JsonView::Bool(opened),
            ) && text::holds(human@, "\n       "@ + dest@ + "\n"@)
        },
{
    reveal_strlit("path");
    reveal_strlit("opened_chrome_extensions");
    assert("path"@.len() == 4);
    assert("opened_chrome_extensions"@.len() == 24);
    if !args.path {
        if let CommandOutput::Data { json, human } = r {
            let shown = setup::home_shown(dest@, model::maybe(home));
            reveal_strlit("    3. Click \"Load unpacked\" and select:\n");
            reveal_strlit("\n       ");
            reveal_strlit("       ");
            let select = "    3. Click \"Load unpacked\" and select:\n"@;
            let front = "✓ Extension extracted to "@ + shown + "\n"@ + "  Load it in Chrome:\n"@
                + "    1. Open chrome://extensions\n"@
                + "    2. Enable Developer mode (top-right toggle)\n"@ + select.drop_last();
            let end = "    4. Copy the 32-character Extension ID\n"@
                + "    5. Run: webpilot setup nm-host --extension-id <ID>"@;
            assert(select =~= select.drop_last() + seq!['\n']);
            assert("\n       "@ =~= seq!['\n'] + "       "@);
            assert(human@ =~= front + ("\n       "@ + dest@ + "\n"@) + end);
            text::lemma_part(front, "\n       "@ + dest@ + "\n"@, end);
        }
    }
}

/// What opens the page of extensions is asked for that page; what is reported names where the
/// extension was put.
pub proof fn law_the_page_of_extensions_is_opened(
    macos: bool,
    r: (String, Vec<String>),
    dest: &str,
    home: Option<&str>,
    opened: bool,
    told: StepOutcome,
    path: CommandOutput,
)
    requires
        call_ensures(opener, (macos,), r),
        call_ensures(install, (dest, home, opened), told),
        call_ensures(path_output, (dest,), path),
    ensures
        r.1@.len() > 0 && r.1@.last()@ == "chrome://extensions"@,
        macos ==> r.0@ == "open"@ && r.1@.len() == 3 && r.1@[0]@ == "-a"@ && r.1@[1]@
            == "Google Chrome"@,
        !macos ==> r.0@ == "xdg-open"@ && r.1@.len() == 1,
        told.json@.get("path"@) == Some(JsonView::Str(dest@)),
        told.json@.get("opened_chrome_extensions"@) == Some(JsonView::Bool(opened)),
        path matches CommandOutput::Data { json, human } && json@.get("path"@) == Some(
            JsonView::Str(dest@),
        ) && human@ == dest@,
{
    reveal_strlit("path");
    reveal_strlit("opened_chrome_extensions");
    assert("path"@.len() == 4);
    assert("opened_chrome_extensions"@.len() == 24);
    text::lemma_texts_index(r.1@);
    assert(text::texts(r.1@)[0] == r.1@[0]@);
    if macos {
        assert(text::texts(r.1@)[1] == r.1@[1]@);
        assert(text::texts(r.1@)[2] == r.1@[2]@);
    }
}

} // verus!
