//! `tabs`: the tabs of the user's browser.
use crate::commands::ipc_helper;
use crate::commands::ipc_helper::{check_done, Answer, Done};
use crate::error;
use crate::error::{ErrorView, WebPilotError};
use crate::headless;
use crate::headless::array_of;
use crate::json::{Json, JsonView};
use crate::model;
use crate::output::{CommandOutput, OutputView};
use crate::protocol::{TabInfo, TabView};
use crate::text;
use crate::text::{contains, strip_char};
use vstd::prelude::*;
use vstd::string::StringExecFns;

verus! {

/// The arguments of `tabs`.
#[derive(Debug, PartialEq, Eq)]
pub struct TabsArgs {
    /// What to do; the tabs are listed where nothing is said.
    pub command: Option<TabCommand>,
}

/// What `tabs` does.
#[derive(Debug, PartialEq, Eq)]
pub enum TabCommand {
    Switch { tab_id: String },
    New { url: String },
    Close { tab_id: String },
    /// Goes to the tab whose address holds a pattern.
    Find { url: String },
}

/// What the host is asked.
#[derive(Debug, PartialEq, Eq)]
pub enum TabRequest {
    List,
    Switch(String),
    New(String),
    Close(String),
}

/// What the host is asked first: a tab is looked for in the list of all.
pub fn request(args: TabsArgs) -> (r: TabRequest)
    ensures
        match args.command {
            None => r is List,
            Some(TabCommand::Switch { tab_id }) => r == TabRequest::Switch(tab_id),
            Some(TabCommand::New { url }) => r == TabRequest::New(url),
            Some(TabCommand::Close { tab_id }) => r == TabRequest::Close(tab_id),
            Some(TabCommand::Find { .. }) => r is List,
        },
{
    match args.command {
        None => TabRequest::List,
        Some(TabCommand::Switch { tab_id }) => TabRequest::Switch(tab_id),
        Some(TabCommand::New { url }) => TabRequest::New(url),
        Some(TabCommand::Close { tab_id }) => TabRequest::Close(tab_id),
        Some(TabCommand::Find { .. }) => TabRequest::List,
    }
}

/// `* [id] title — url`, where the star is for the tab that is shown.
pub open spec fn row(t: TabView) -> Seq<char> {
    (if t.active {
        "*"@
    } else {
        " "@
    }) + " ["@ + t.id + "] "@ + t.title + " — "@ + t.url
}

fn row_of(t: &TabInfo) -> (r: String)
    ensures
        r@ == row(t@),
{
    let marker = if t.active {
        "*"
    } else {
        " "
    };
    marker.to_owned().concat(" [").concat(t.id.as_str()).concat("] ").concat(
        t.title.as_str(),
    ).concat(" — ").concat(t.url.as_str())
}

/// What a listing prints.
pub open spec fn listing(tabs: Seq<TabView>) -> OutputView {
    OutputView::List(
        JsonView::Array(Seq::new(tabs.len(), |i: int| tabs[i].wire)),
        Seq::new(tabs.len(), |i: int| row(tabs[i])),
        Seq::empty(),
    )
}

/// What a listing prints.
pub fn list_tabs(answer: Answer<Vec<TabInfo>>) -> (r: Result<CommandOutput, WebPilotError>)
    ensures
        error::outcome(r) == (match answer {
            Answer::Data(tabs) => Ok(listing(model::each(tabs@))),
            _ => Err(ipc_helper::unexpected_error()),
        }),
{
    match answer.only_data() {
        Err(e) => Err(e),
        Ok(tabs) => {
            let ghost all = model::each(tabs@);
            let mut items: Vec<Json> = Vec::new();
            let mut rows: Vec<String> = Vec::new();
            for i in 0..tabs.len()
                invariant
                    all == model::each(tabs@),
                    items@.len() == i,
                    rows@.len() == i,
                    forall|j: int| 0 <= j < i ==> (#[trigger] items@[j])@ == all[j].wire,
                    forall|j: int| 0 <= j < i ==> (#[trigger] rows@[j])@ == row(all[j]),
            {
                items.push(tabs[i].wire.copy());
                rows.push(row_of(&tabs[i]));
            }
            let summary = String::new();
            proof {
                assert(model::each(items@) =~= Seq::new(all.len(), |i: int| all[i].wire));
                text::lemma_texts_index(rows@);
                assert(text::texts(rows@) =~= Seq::new(all.len(), |i: int| row(all[i])));
                assert(summary@ =~= Seq::empty());
            }
            Ok(CommandOutput::List { items: array_of(items), human_lines: rows, summary })
        },
    }
}

/// What going to a tab prints.
pub fn switch_tab(tab_id: &str, answer: Answer<Done>) -> (r: Result<CommandOutput, WebPilotError>)
    ensures
        error::outcome(r) == (match answer {
            Answer::Data(d) => if d.success {
                Ok(OutputView::Message("Switched to tab "@ + tab_id@))
            } else {
                Err(ipc_helper::why_not(model::maybe(d.error)))
            },
            _ => Err(ipc_helper::unexpected_error()),
        }),
{
    match answer.only_data() {
        Err(e) => Err(e),
        Ok(done) => match check_done(done) {
            Ok(_) => Ok(CommandOutput::Message("Switched to tab ".to_owned().concat(tab_id))),
            Err(e) => Err(e),
        },
    }
}

/// What opening a tab prints.
pub fn new_tab(url: &str, answer: Answer<Done>) -> (r: Result<CommandOutput, WebPilotError>)
    ensures
        error::outcome(r) == (match answer {
            Answer::Data(d) => if d.success {
                Ok(
                    OutputView::Data(
                        JsonView::object().with("success"@, JsonView::Bool(true)).with(
                            "url"@,
                            JsonView::Str(url@),
                        ),
                        "New tab opened: "@ + url@,
                    ),
                )
            } else {
                Err(ErrorView::Other("Failed to open new tab"@))
            },
            _ => Err(ipc_helper::unexpected_error()),
        }),
{
    match answer.only_data() {
        Err(e) => Err(e),
        Ok(done) => {
            if !done.success {
                return Err(WebPilotError::other("Failed to open new tab"));
            }
            Ok(
                CommandOutput::Data {
                    json: Json::object().with("success", Json::Bool(true)).with(
                        "url",
                        Json::string(url),
                    ),
                    human: "New tab opened: ".to_owned().concat(url),
                },
            )
        },
    }
}

/// What closing a tab prints.
pub fn close_tab(tab_id: &str, answer: Answer<Done>) -> (r: Result<CommandOutput, WebPilotError>)
    ensures
        error::outcome(r) == (match answer {
            Answer::Data(d) => if d.success {
                Ok(OutputView::Message("Tab "@ + tab_id@ + " closed"@))
            } else {
                Err(ErrorView::Other("Failed to close tab"@))
            },
            _ => Err(ipc_helper::unexpected_error()),
        }),
{
    match answer.only_data() {
        Err(e) => Err(e),
        Ok(done) => {
            if !done.success {
                return Err(WebPilotError::other("Failed to close tab"));
            }
            Ok(CommandOutput::Message("Tab ".to_owned().concat(tab_id).concat(" closed")))
        },
    }
}

/// Whether the tab at a position is the first whose address holds a text.
pub open spec fn is_first_at(tabs: Seq<TabView>, part: Seq<char>, at: int) -> bool {
    headless::is_first(tabs, |t: TabView| text::holds(t.url, part), at)
}

/// The tab to go to: the first whose address holds the pattern, of which the stars do not count.
pub fn find_tab(pattern: &str, answer: Answer<Vec<TabInfo>>) -> (r: Result<String, WebPilotError>)
    ensures
        match answer {
            Answer::Data(tabs) => {
                let all = model::each(tabs@);
                let part = text::without_char(pattern@, '*');
                match error::outcome(r) {
                    Ok(id) => exists|i: int| #[trigger]
                        is_first_at(all, part, i) && id == all[i].id,
                    Err(e) => (forall|i: int|
                        0 <= i < all.len() ==> !text::holds((#[trigger] all[i]).url, part)) && e
                        == ErrorView::Other("No tab matching '"@ + pattern@ + "'"@),
                }
            },
            _ => error::outcome(r) == Err::<Seq<char>, ErrorView>(ipc_helper::unexpected_error()),
        },
{
    match answer.only_data() {
        Err(e) => Err(e),
        Ok(tabs) => {
            let part = strip_char(pattern, '*');
            let ghost all = model::each(tabs@);
            for i in 0..tabs.len()
                invariant
                    answer == Answer::Data(tabs),
                    all == model::each(tabs@),
                    part@ == text::without_char(pattern@, '*'),
                    forall|k: int| 0 <= k < i ==> !text::holds((#[trigger] all[k]).url, part@),
            {
                assert(all[i as int] == tabs@[i as int]@);
                if contains(tabs[i].url.as_str(), part.as_str()) {
                    assert(is_first_at(all, part@, i as int));
                    return Ok(tabs[i].id.clone());
                }
            }
            Err(WebPilotError::Other {
                detail: "No tab matching '".to_owned().concat(pattern).concat("'"),
            })
        },
    }
}

/// The host is asked for what the command says: to go to, open or close the tab that it names; a tab is
/// looked for in the list of all.
pub proof fn law_tab_commands_are_asked(args: TabsArgs, r: TabRequest)
    requires
        call_ensures(request, (args,), r),
    ensures
        args.command matches Some(TabCommand::Switch { tab_id }) ==> r == TabRequest::Switch(tab_id),
        args.command matches Some(TabCommand::New { url }) ==> r == TabRequest::New(url),
        args.command matches Some(TabCommand::Close { tab_id }) ==> r == TabRequest::Close(tab_id),
        args.command is None || (args.command matches Some(TabCommand::Find { .. })) ==> r is List,
{
}

/// A listing shows every tab in its order, whole in JSON, and on a row with its id, title and address,
/// the one that is shown marked.
pub proof fn law_tabs_of_the_browser_are_listed(tabs: Vec<TabInfo>, r: Result<CommandOutput, WebPilotError>)
    requires
        call_ensures(list_tabs, (Answer::Data(tabs),), r),
    ensures
        r matches Ok(CommandOutput::List { items, human_lines, summary }) && {
            &&& items@ matches JsonView::Array(shown) && shown.len() == tabs@.len() && forall|i: int|
                0 <= i < tabs@.len() ==> #[trigger] shown[i] == tabs@[i].wire@
            &&& human_lines@.len() == tabs@.len()
            &&& forall|i: int|
                0 <= i < tabs@.len() ==> (#[trigger] human_lines@[i])@ == (if tabs@[i].active {
                    "* ["@
                } else {
                    "  ["@
                }) + tabs@[i].id@ + "] "@ + tabs@[i].title@ + " — "@ + tabs@[i].url@
        },
{
    reveal_strlit("*");
    reveal_strlit(" ");
    reveal_strlit(" [");
    reveal_strlit("* [");
    reveal_strlit("  [");
    assert("*"@ + " ["@ =~= "* ["@);
    assert(" "@ + " ["@ =~= "  ["@);
    if let Ok(CommandOutput::List { items, human_lines, summary }) = r {
        text::lemma_texts_index(human_lines@);
        assert forall|i: int| 0 <= i < tabs@.len() implies (#[trigger] human_lines@[i])@ == (
        if tabs@[i].active {
            "* ["@
        } else {
            "  ["@
        }) + tabs@[i].id@ + "] "@ + tabs@[i].title@ + " — "@ + tabs@[i].url@ by {
            assert(text::texts(human_lines@)[i] == row(tabs@[i]@));
        }
    }
}

/// The tab that is looked for is the first whose address holds the pattern, of which the stars do not
/// count; where none does it fails, and tells the pattern.
pub proof fn law_the_first_tab_is_found(
    pattern: &str,
    tabs: Vec<TabInfo>,
    r: Result<String, WebPilotError>,
)
    requires
        call_ensures(find_tab, (pattern, Answer::Data(tabs)), r),
    ensures
        ({
            let part = text::without_char(pattern@, '*');
            &&& r is Ok <==> exists|i: int|
                0 <= i < tabs@.len() && text::holds((#[trigger] tabs@[i]).url@, part)
            &&& r matches Ok(id) ==> exists|i: int|
                {
                    &&& 0 <= i < tabs@.len()
                    &&& text::holds((#[trigger] tabs@[i]).url@, part)
                    &&& id@ == tabs@[i].id@
                    &&& forall|k: int| 0 <= k < i ==> !text::holds((#[trigger] tabs@[k]).url@, part)
                }
            &&& r matches Err(e) ==> (e matches WebPilotError::Other { detail } && text::holds(
                detail@,
                pattern@,
            ))
        }),
{
    let all = model::each(tabs@);
    let part = text::without_char(pattern@, '*');
    let pick = |t: TabView| text::holds(t.url, part);
    text::lemma_part("No tab matching '"@, pattern@, "'"@);
    if let Ok(id) = r {
        let i = choose|i: int| #[trigger] is_first_at(all, part, i) && id@ == all[i].id;
        assert(pick(all[i]));
        assert(tabs@[i]@ == all[i]);
        assert forall|k: int| 0 <= k < i implies !text::holds((#[trigger] tabs@[k]).url@, part) by {
            assert(!pick(all[k]));
        }
    } else {
        assert forall|i: int| 0 <= i < tabs@.len() implies !text::holds(
            (#[trigger] tabs@[i]).url@,
            part,
        ) by {
            assert(!text::holds(all[i].url, part));
        }
    }
}

/// What was done with a tab is told, with the tab; what was not done fails.
pub proof fn law_changes_of_tabs_are_told(
    tab: &str,
    done: Done,
    to: Result<CommandOutput, WebPilotError>,
    new: Result<CommandOutput, WebPilotError>,
    gone: Result<CommandOutput, WebPilotError>,
)
    requires
        call_ensures(switch_tab, (tab, Answer::Data(done)), to),
        call_ensures(new_tab, (tab, Answer::Data(done)), new),
        call_ensures(close_tab, (tab, Answer::Data(done)), gone),
    ensures
        to is Ok <==> done.success,
        new is Ok <==> done.success,
        gone is Ok <==> done.success,
        to matches Ok(o) ==> (o matches CommandOutput::Message(m) && m@ == "Switched to tab "@
            + tab@),
        new matches Ok(o) ==> (o matches CommandOutput::Data { json, human } && human@
            == "New tab opened: "@ + tab@ && json@.get("url"@) == Some(JsonView::Str(tab@))
            && json@.get("success"@) == Some(JsonView::Bool(true))),
        gone matches Ok(o) ==> (o matches CommandOutput::Message(m) && m@ == "Tab "@ + tab@
            + " closed"@),
{
    reveal_strlit("success");
    reveal_strlit("url");
    assert("success"@.len() == 7);
    assert("url"@.len() == 3);
}

} // verus!
