//! `setup`: what is left to do once the program is installed.
pub mod extension;
pub mod nm_host;
pub mod skill;

use crate::commands::setup::extension::ExtensionArgs;
use crate::commands::setup::nm_host::NmHostArgs;
use crate::commands::setup::skill::SkillArgs;
use crate::json::{Json, JsonView};
use crate::model;
use crate::output::{CommandOutput, OutputView};
use crate::paths;
use crate::paths::strip_path;
use crate::text;
use crate::text::{same, trim};
use vstd::prelude::*;
use vstd::string::StringExecFns;

verus! {

/// The arguments of `setup`.
#[derive(Debug, PartialEq, Eq)]
pub struct SetupArgs {
    /// One step; every step but the host's registration where none is given.
    pub command: Option<SetupCommand>,
    /// Asks nothing.
    pub yes: bool,
    /// Opens the browser's page of extensions.
    pub open: bool,
}

/// A step of `setup`.
#[derive(Debug, PartialEq, Eq)]
pub enum SetupCommand {
    Skill(SkillArgs),
    Extension(ExtensionArgs),
    NmHost(NmHostArgs),
}

/// What a step reports.
#[derive(Debug, PartialEq, Eq)]
pub struct StepOutcome {
    pub human: String,
    pub json: Json,
}

impl View for StepOutcome {
    type V = (JsonView, Seq<char>);

    open spec fn view(&self) -> (JsonView, Seq<char>) {
        (self.json@, self.human@)
    }
}

impl StepOutcome {
    /// What a step that is run by itself prints.
    pub fn output(self) -> (r: CommandOutput)
        ensures
            r@ == OutputView::Data(self@.0, self@.1),
    {
        CommandOutput::Data { json: self.json, human: self.human }
    }
}

/// Whether to open the browser's page of extensions.
#[derive(Debug, Clone, Copy, PartialEq, Eq, Structural)]
pub enum ChromeOpen {
    Always,
    Never,
    Ask,
}

/// What the flags say of opening the page: what asks to open wins over what asks for silence.
pub open spec fn policy(yes: bool, open: bool) -> ChromeOpen {
    if open {
        ChromeOpen::Always
    } else if yes {
        ChromeOpen::Never
    } else {
        ChromeOpen::Ask
    }
}

/// Whether the page opens.
pub open spec fn opens(chrome: ChromeOpen, terminal: bool, answer: bool) -> bool {
    chrome is Always || (chrome is Ask && terminal && answer)
}

impl ChromeOpen {
    /// What the flags say.
    pub fn from_flags(yes: bool, open: bool) -> (r: ChromeOpen)
        ensures
            r == policy(yes, open),
    {
        if open {
            ChromeOpen::Always
        } else if yes {
            ChromeOpen::Never
        } else {
            ChromeOpen::Ask
        }
    }

    /// Whether to open the page, where the answer to the question is known. Without a terminal
    /// there is no one to ask, and nothing opens.
    pub fn should_open(self, terminal: bool, answer: bool) -> (r: bool)
        ensures
            r == opens(self, terminal, answer),
    {
        match self {
            ChromeOpen::Always => true,
            ChromeOpen::Never => false,
            ChromeOpen::Ask => terminal && answer,
        }
    }
}

/// A path as it is shown: what stands under the home directory behind a `~`.
pub open spec fn home_shown(path: Seq<char>, home: Option<Seq<char>>) -> Seq<char> {
    match home {
        Some(h) => if h.len() == 0 {
            path
        } else {
            match paths::path_behind(path, h) {
                Some(rest) => "~/"@ + rest,
                None => path,
            }
        },
        None => path,
    }
}

/// A path as it is shown. An empty home directory is none.
pub fn home_relative_with(path: &str, home: Option<&str>) -> (r: String)
    ensures
        r@ == home_shown(path@, model::maybe(home)),
        home is Some && paths::is_plain(home->0@) && paths::is_plain(path@) ==> r@ == (
        match paths::plain_behind(path@, home->0@) {
            Some(rest) => "~/"@ + rest,
            None => path@,
        }),
{
    match home {
        Some(h) => {
            if h.is_empty() {
                return path.to_owned();
            }
            match strip_path(path, h) {
                Some(rest) => "~/".to_owned().concat(rest.as_str()),
                None => path.to_owned(),
            }
        },
        None => path.to_owned(),
    }
}

/// Whether an answer to a question is a yes.
pub open spec fn is_yes(answer: Seq<char>) -> bool {
    answer == "y"@ || answer == "Y"@ || answer == "yes"@ || answer == "YES"@ || answer == "Yes"@
}

/// What an answer to a question comes to.
pub open spec fn answered(line: Option<Seq<char>>, default: bool) -> bool {
    match line {
        Some(l) => if text::trimmed(l).len() == 0 {
            default
        } else {
            is_yes(text::trimmed(l))
        },
        None => default,
    }
}

/// Whether to go on: with `yes` without a question; without a terminal by the default; else by the
/// line that was typed, if it could be read.
pub fn confirm(default: bool, yes: bool, terminal: bool, line: Option<&str>) -> (r: bool)
    ensures
        r == (yes || if terminal {
            answered(model::maybe(line), default)
        } else {
            default
        }),
{
    if yes {
        return true;
    }
    if !terminal {
        return default;
    }
    match line {
        Some(l) => {
            let answer = trim(l);
            let a = answer.as_str();
            if a.is_empty() {
                default
            } else {
                same(a, "y") || same(a, "Y") || same(a, "yes") || same(a, "YES") || same(a, "Yes")
            }
        },
        None => default,
    }
}

/// A question as it is put.
pub fn question(prompt: &str, default: bool) -> (r: String)
    ensures
        r@ == "  "@ + prompt@ + " "@ + (if default {
            "[Y/n]"@
        } else {
            "[y/N]"@
        }) + " "@,
{
    let suffix = if default {
        "[Y/n]"
    } else {
        "[y/N]"
    };
    "  ".to_owned().concat(prompt).concat(" ").concat(suffix).concat(" ")
}

/// What `setup` without a step prints: the reports of its two steps.
pub fn orchestrate(skill: StepOutcome, extension: StepOutcome) -> (r: CommandOutput)
    ensures
        r@ == OutputView::Data(
            JsonView::object().with("skill"@, skill@.0).with("extension"@, extension@.0),
            "WebPilot setup\n\n"@ + skill@.1 + "\n\n"@ + extension@.1,
        ),
{
    let human = "WebPilot setup\n\n".to_owned().concat(skill.human.as_str()).concat(
        "\n\n",
    ).concat(extension.human.as_str());
    CommandOutput::Data {
        json: Json::object().with("skill", skill.json).with("extension", extension.json),
        human,
    }
}

/// Nothing opens by itself: without the flag that asks for it, the page opens only where someone
/// at a terminal says so.
pub proof fn law_nothing_opens_unasked(yes: bool, terminal: bool, answer: bool)
    ensures
        opens(policy(yes, false), terminal, answer) ==> !yes && terminal && answer,
{
}

/// A question is answered by what was typed: one of the five words for yes is a yes, nothing is the
/// default, and anything else is a no. With `yes` it is not put; without a terminal the default holds.
pub proof fn law_questions_are_answered(
    default: bool,
    yes: bool,
    terminal: bool,
    line: Option<&str>,
    r: bool,
)
    requires
        call_ensures(confirm, (default, yes, terminal, line), r),
    ensures
        yes ==> r,
        !yes && !terminal ==> r == default,
        !yes && terminal && line is None ==> r == default,
        !yes && terminal ==> (line matches Some(l) ==> {
            let said = text::trimmed(l@);
            &&& said.len() == 0 ==> r == default
            &&& said.len() > 0 ==> (r <==> said == "y"@ || said == "Y"@ || said == "yes"@ || said
                == "YES"@ || said == "Yes"@)
        }),
{
}

/// The page opens where that is asked for; else not where nothing is to be asked; else where someone
/// at a terminal says so.
pub proof fn law_pages_open_where_asked(
    yes: bool,
    open: bool,
    terminal: bool,
    answer: bool,
    chosen: ChromeOpen,
    r: bool,
)
    requires
        call_ensures(ChromeOpen::from_flags, (yes, open), chosen),
        call_ensures(ChromeOpen::should_open, (chosen, terminal, answer), r),
    ensures
        r <==> open || (!yes && terminal && answer),
{
}

/// A path under the home directory is shown behind a `~`, and any other as it is.
pub proof fn law_home_is_a_tilde(home: &str, rest: Seq<char>, path: &str, r: String, plain: String)
    requires
        paths::is_plain(home@),
        paths::is_plain(path@),
        call_ensures(home_relative_with, (path, Some(home)), r),
        call_ensures(home_relative_with, (path, None), plain),
    ensures
        path@ == home@ + seq!['/'] + rest ==> r@ == seq!['~', '/'] + rest,
        path@ != home@ && !text::has_prefix(path@, home@ + seq!['/']) ==> r@ == path@,
        plain@ == path@,
{
    lemma_behind(home@, rest, path@);
}

proof fn lemma_behind(home: Seq<char>, rest: Seq<char>, path: Seq<char>)
    ensures
        path == home + seq!['/'] + rest ==> paths::plain_behind(path, home) == Some(rest),
        path != home && !text::has_prefix(path, home + seq!['/']) ==> paths::plain_behind(
            path,
            home,
        ) is None,
        "~/"@ == seq!['~', '/'],
{
    reveal_strlit("/");
    reveal_strlit("~/");
    assert("/"@ =~= seq!['/']);
    assert("~/"@ =~= seq!['~', '/']);
    if path == home + seq!['/'] + rest {
        text::lemma_front(home + seq!['/'], rest);
        assert(path.skip(home.len() as int + 1) =~= rest);
        assert(path.len() > home.len());
    }
}

/// A question is put with its default in capitals.
pub proof fn law_questions_show_their_default(prompt: &str, default: bool, r: String)
    requires
        call_ensures(question, (prompt, default), r),
    ensures
        text::holds(r@, prompt@),
        default ==> text::holds(r@, "[Y/n]"@),
        !default ==> text::holds(r@, "[y/N]"@),
{
    let choice = if default {
        "[Y/n]"@
    } else {
        "[y/N]"@
    };
    text::lemma_part("  "@ + prompt@ + " "@, choice, " "@);
    assert(r@ =~= "  "@ + prompt@ + (" "@ + choice + " "@));
    text::lemma_part("  "@, prompt@, " "@ + choice + " "@);
}

/// What the steps report is printed under the name of each, and their words in their order.
pub proof fn law_steps_are_told(
    skill: StepOutcome,
    extension: StepOutcome,
    r: CommandOutput,
    alone: CommandOutput,
)
    requires
        call_ensures(orchestrate, (skill, extension), r),
        call_ensures(StepOutcome::output, (skill,), alone),
    ensures
        r matches CommandOutput::Data { json, human } && {
            &&& json@.get("skill"@) == Some(skill.json@)
            &&& json@.get("extension"@) == Some(extension.json@)
            &&& text::has_suffix(human@, skill.human@ + "\n\n"@ + extension.human@)
        },
        alone matches CommandOutput::Data { json, human } && json@ == skill.json@ && human@
            == skill.human@,
{
    reveal_strlit("skill");
    reveal_strlit("extension");
    assert("skill"@.len() == 5);
    assert("extension"@.len() == 9);
    if let CommandOutput::Data { json, human } = r {
        let end = skill.human@ + "\n\n"@ + extension.human@;
        assert(human@ =~= "WebPilot setup\n\n"@ + end);
        text::lemma_back("WebPilot setup\n\n"@, end);
    }
}

} // verus!
