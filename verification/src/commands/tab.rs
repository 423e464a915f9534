//! `tab`: the browser's tabs.
use crate::error;
use crate::error::{ErrorView, WebPilotError};
use crate::json;
use crate::json::{Json, JsonView};
use crate::model;
use crate::output::{CommandOutput, OutputView};
use crate::protocol;
use crate::protocol::{done, lift_error, ActionData, Done, Reply, TabInfo, TabView};
use crate::text;
use crate::text::{dec, join, line_safe};
use crate::url_glob;
use crate::url_glob::is_blank;
use vstd::prelude::*;
use vstd::string::StringExecFns;

verus! {

broadcast use {text::group_texts, json::group_json_views};

/// The arguments of `tab`: a listing where no command is given.
#[derive(Debug, PartialEq, Eq)]
pub struct TabArgs {
    pub command: Option<TabCommand>,
}

/// What `tab` does.
#[derive(Debug, PartialEq, Eq)]
pub enum TabCommand {
    Switch { tab_id: String },
    New { url: String },
    Close { tab_id: String },
    Find { url: String },
}

/// `* [id] title — url`.
pub open spec fn tab_row(t: TabView) -> Seq<char> {
    (if t.active {
        "*"@
    } else {
        " "@
    }) + " ["@ + t.id + "] "@ + text::one_line(t.title) + " — "@ + text::one_line(t.url)
}

fn row(t: &TabInfo) -> (r: String)
    ensures
        r@ == tab_row(t@),
{
    let marker = if t.active {
        "*".to_owned()
    } else {
        " ".to_owned()
    };
    marker.concat(" [").concat(t.id.as_str()).concat("] ").concat(
        line_safe(t.title.as_str()).as_str(),
    ).concat(" — ").concat(line_safe(t.url.as_str()).as_str())
}

/// What a listing prints.
pub open spec fn tabs_output(tabs: Seq<TabView>) -> OutputView {
    OutputView::List(
        JsonView::Array(Seq::new(tabs.len(), |i: int| tabs[i].wire)),
        Seq::new(tabs.len(), |i: int| tab_row(tabs[i])),
        Seq::empty(),
    )
}

/// What a listing prints.
pub fn list_tabs(reply: Reply<Vec<TabInfo>>) -> (r: Result<CommandOutput, WebPilotError>)
    ensures
        error::outcome(r) == (match reply {
            Reply::Data(tabs) => Ok(tabs_output(model::each(tabs@))),
            _ => Err(protocol::no_data(reply)),
        }),
{
    let tabs = match reply.data() {
        Ok(t) => t,
        Err(e) => {
            return Err(e);
        },
    };
    let ghost all = model::each(tabs@);
    let mut wires: Vec<Json> = Vec::new();
    let mut rows: Vec<String> = Vec::new();
    for i in 0..tabs.len()
        invariant
            wires@.len() == i,
            rows@.len() == i,
            forall|j: int| 0 <= j < i ==> (#[trigger] wires@[j])@ == tabs@[j].wire@,
            forall|j: int| 0 <= j < i ==> (#[trigger] rows@[j])@ == tab_row(tabs@[j]@),
    {
        wires.push(tabs[i].wire.copy());
        rows.push(row(&tabs[i]));
    }
    proof {
        json::lemma_views_index(wires@);
        text::lemma_texts_index(rows@);
        assert(json::views(wires@) =~= Seq::new(all.len(), |i: int| all[i].wire));
        assert(text::texts(rows@) =~= Seq::new(all.len(), |i: int| tab_row(all[i])));
    }
    Ok(CommandOutput::List { items: Json::Array(wires), human_lines: rows, summary: String::new() })
}

/// What going to a tab prints.
pub fn switch_tab(tab_id: &str, reply: Reply<Done>) -> (r: Result<CommandOutput, WebPilotError>)
    ensures
        error::outcome(r) == protocol::done_outcome(
            reply,
            OutputView::Message("Switched to tab "@ + tab_id@),
        ),
{
    done(reply, "Switched to tab ".to_owned().concat(tab_id))
}

/// What closing a tab prints.
pub fn close_tab(tab_id: &str, reply: Reply<Done>) -> (r: Result<CommandOutput, WebPilotError>)
    ensures
        error::outcome(r) == protocol::done_outcome(
            reply,
            OutputView::Message("Tab "@ + tab_id@ + " closed"@),
        ),
{
    done(reply, "Tab ".to_owned().concat(tab_id).concat(" closed"))
}

/// What opening a tab prints: where it landed, never where it was asked to go.
pub open spec fn new_tab_outcome(reply: Reply<ActionData>) -> Result<OutputView, ErrorView> {
    match reply {
        Reply::Data(d) => if !d.success {
            Err(protocol::failure(model::maybe(d.error)))
        } else {
            match d.new_tab {
                Some(t) => Ok(
                    OutputView::Data(
                        JsonView::object().with("success"@, JsonView::Bool(true)).with(
                            "url"@,
                            JsonView::Str(t.url@),
                        ),
                        "New tab opened: "@ + text::one_line(t.url@),
                    ),
                ),
                None => Err(ErrorView::Other("tab new reported success but returned no tab"@)),
            }
        },
        _ => Err(protocol::no_data(reply)),
    }
}

/// What opening a tab prints.
pub fn new_tab(reply: Reply<ActionData>) -> (r: Result<CommandOutput, WebPilotError>)
    ensures
        error::outcome(r) == new_tab_outcome(reply),
{
    let d = match reply.data() {
        Ok(d) => d,
        Err(e) => {
            return Err(e);
        },
    };
    if !d.success {
        return lift_error(false, d.error, CommandOutput::Message(String::new()));
    }
    match d.new_tab {
        Some(t) => Ok(
            CommandOutput::Data {
                json: Json::object().with("success", Json::Bool(true)).with(
                    "url",
                    Json::string(t.url.as_str()),
                ),
                human: "New tab opened: ".to_owned().concat(line_safe(t.url.as_str()).as_str()),
            },
        ),
        None => Err(WebPilotError::other("tab new reported success but returned no tab")),
    }
}

/// Refuses a pattern that matches every tab: one that is blank, holding wildcards only.
pub fn check_pattern(pattern: &str) -> (r: Result<(), WebPilotError>)
    ensures
        r is Err <==> url_glob::blank(pattern@),
        r is Err ==> r->Err_0@ == ErrorView::InvalidArgument(
            "tab find --url pattern must contain a non-wildcard character"@,
        ),
{
    if is_blank(pattern) {
        Err(WebPilotError::invalid("tab find --url pattern must contain a non-wildcard character"))
    } else {
        Ok(())
    }
}

/// The tabs whose address a pattern matches, in their order.
pub open spec fn tabs_hit(tabs: Seq<TabView>, pattern: Seq<char>) -> Seq<TabView>
    decreases tabs.len(),
{
    if tabs.len() == 0 {
        Seq::empty()
    } else {
        let rest = tabs_hit(tabs.drop_last(), pattern);
        if url_glob::found(pattern, tabs.last().url) {
            rest.push(tabs.last())
        } else {
            rest
        }
    }
}

/// The tab that a pattern is for: the single one it matches. No match is an error, and so are
/// several.
pub open spec fn find_outcome(pattern: Seq<char>, tabs: Seq<TabView>) -> Result<
    Seq<char>,
    ErrorView,
> {
    let found = tabs_hit(tabs, pattern);
    if found.len() == 0 {
        Err(ErrorView::TabNotFound(pattern))
    } else if found.len() == 1 {
        Ok(found[0].id)
    } else {
        Err(
            ErrorView::InvalidArgument(
                text::decimal(found.len()) + " tabs match \""@ + pattern
                    + "\" — refine it or use `tab switch <id>` to pick one: "@ + text::joined(
                    Seq::new(found.len(), |i: int| text::one_line(found[i].url)),
                    ", "@,
                ),
            ),
        )
    }
}

/// The tab that a pattern is for.
pub fn find_tab(pattern: &str, reply: Reply<Vec<TabInfo>>) -> (r: Result<String, WebPilotError>)
    ensures
        error::outcome(r) == (match reply {
            Reply::Data(tabs) => find_outcome(pattern@, model::each(tabs@)),
            _ => Err(protocol::no_data(reply)),
        }),
{
    let tabs = match reply.data() {
        Ok(t) => t,
        Err(e) => {
            return Err(e);
        },
    };
    let ghost all = model::each(tabs@);
    let mut urls: Vec<String> = Vec::new();
    let mut first: usize = 0;
    for i in 0..tabs.len()
        invariant
            all == model::each(tabs@),
            urls@.len() == tabs_hit(all.take(i as int), pattern@).len(),
            forall|j: int|
                0 <= j < urls@.len() ==> (#[trigger] urls@[j])@ == text::one_line(
                    tabs_hit(all.take(i as int), pattern@)[j].url,
                ),
            urls@.len() > 0 ==> first < i && tabs_hit(all.take(i as int), pattern@)[0]
                == tabs@[first as int]@,
    {
        assert(all.take(i + 1).drop_last() =~= all.take(i as int));
        assert(all.take(i + 1).last() == tabs@[i as int]@);
        if crate::url_glob::matches(pattern, tabs[i].url.as_str()) {
            if urls.len() == 0 {
                first = i;
            }
            urls.push(line_safe(tabs[i].url.as_str()));
        }
    }
    proof {
        assert(all.take(tabs@.len() as int) =~= all);
        text::lemma_texts_index(urls@);
        let found = tabs_hit(all, pattern@);
        assert(text::texts(urls@) =~= Seq::new(
            found.len(),
            |i: int| text::one_line(found[i].url),
        ));
    }
    if urls.len() == 0 {
        return Err(WebPilotError::TabNotFound { tab_id: pattern.to_owned() });
    }
    if urls.len() == 1 {
        return Ok(tabs[first].id.clone());
    }
    let detail = dec(urls.len() as u64).concat(" tabs match \"").concat(pattern).concat(
        "\" — refine it or use `tab switch <id>` to pick one: ",
    ).concat(join(&urls, ", ").as_str());
    Err(WebPilotError::InvalidArgument { detail })
}

/// A listing shows every tab in its order: its own description in JSON, and a row with its id, title
/// and address, the active one marked.
pub proof fn law_tabs_are_listed(tabs: Vec<TabInfo>, r: Result<CommandOutput, WebPilotError>)
    requires
        call_ensures(list_tabs, (Reply::Data(tabs),), r),
    ensures
        r matches Ok(CommandOutput::List { items, human_lines, summary }) && {
            &&& items@ matches JsonView::Array(list) && list.len() == tabs@.len() && forall|i: int|
                0 <= i < tabs@.len() ==> #[trigger] list[i] == tabs@[i].wire@
            &&& human_lines@.len() == tabs@.len()
            &&& forall|i: int|
                0 <= i < tabs@.len() ==> (#[trigger] human_lines@[i])@ == (if tabs@[i].active {
                    "* ["@
                } else {
                    "  ["@
                }) + tabs@[i].id@ + "] "@ + text::one_line(tabs@[i].title@) + " — "@
                    + text::one_line(tabs@[i].url@)
            &&& summary@.len() == 0
        },
{
    reveal_strlit("*");
    reveal_strlit(" ");
    reveal_strlit(" [");
    reveal_strlit("* [");
    reveal_strlit("  [");
    assert("*"@ + " ["@ =~= "* ["@);
    assert(" "@ + " ["@ =~= "  ["@);
    if let Ok(CommandOutput::List { items, human_lines, summary }) = r {
        text::lemma_texts_index(human_lines@);
        assert forall|i: int| 0 <= i < tabs@.len() implies (#[trigger] human_lines@[i])@ == (
        if tabs@[i].active {
            "* ["@
        } else {
            "  ["@
        }) + tabs@[i].id@ + "] "@ + text::one_line(tabs@[i].title@) + " — "@ + text::one_line(
            tabs@[i].url@,
        ) by {
            assert(text::texts(human_lines@)[i] == tab_row(tabs@[i]@));
        }
    }
}

/// The tab that is found is the only one whose address the pattern matches; none is not found, and
/// of several none is taken.
pub proof fn law_the_only_tab_is_found(
    pattern: &str,
    tabs: Vec<TabInfo>,
    r: Result<String, WebPilotError>,
)
    requires
        call_ensures(find_tab, (pattern, Reply::Data(tabs)), r),
    ensures
        r matches Ok(id) ==> exists|i: int|
            {
                &&& 0 <= i < tabs@.len()
                &&& url_glob::found(pattern@, (#[trigger] tabs@[i]).url@)
                &&& id@ == tabs@[i].id@
                &&& forall|j: int|
                    0 <= j < tabs@.len() && j != i ==> !url_glob::found(
                        pattern@,
                        (#[trigger] tabs@[j]).url@,
                    )
            },
        (forall|i: int|
            0 <= i < tabs@.len() ==> !url_glob::found(pattern@, (#[trigger] tabs@[i]).url@)) <==> (
        r matches Err(WebPilotError::TabNotFound { tab_id }) && tab_id@ == pattern@),
        (exists|i: int, j: int|
            0 <= i < j < tabs@.len() && url_glob::found(pattern@, (#[trigger] tabs@[i]).url@)
                && url_glob::found(pattern@, (#[trigger] tabs@[j]).url@)) ==> r matches Err(
            WebPilotError::InvalidArgument { .. },
        ),
        (exists|i: int|
            0 <= i < tabs@.len() && url_glob::found(pattern@, (#[trigger] tabs@[i]).url@) && forall|
                j: int,
            |
                0 <= j < tabs@.len() && j != i ==> !url_glob::found(
                    pattern@,
                    (#[trigger] tabs@[j]).url@,
                )) ==> r is Ok,
{
    let all = model::each(tabs@);
    let pick = |t: TabView| url_glob::found(pattern@, t.url);
    lemma_hit_is_picked(all, pattern@);
    let at = model::law_picked_in_order(all, pick);
    assert forall|k: int| 0 <= k < tabs@.len() implies (at.contains(k) <==> url_glob::found(
        pattern@,
        (#[trigger] tabs@[k]).url@,
    )) by {
        assert(all[k] == tabs@[k]@);
        assert(pick(all[k]) == url_glob::found(pattern@, tabs@[k].url@));
    }
    if at.len() == 0 {
    } else {
        assert(at.contains(at[0]));
        if at.len() == 1 {
            let i = at[0];
            assert forall|j: int| 0 <= j < tabs@.len() && j != i implies !url_glob::found(
                pattern@,
                (#[trigger] tabs@[j]).url@,
            ) by {
                if at.contains(j) {
                    let k = choose|k: int| 0 <= k < at.len() && at[k] == j;
                }
            }
            assert(url_glob::found(pattern@, tabs@[i].url@));
        } else {
            assert(at.contains(at[1]));
            let (a, b) = (at[0], at[1]);
            assert(url_glob::found(pattern@, tabs@[a].url@));
            assert(url_glob::found(pattern@, tabs@[b].url@));
        }
        if exists|i: int, j: int|
            0 <= i < j < tabs@.len() && url_glob::found(pattern@, (#[trigger] tabs@[i]).url@)
                && url_glob::found(pattern@, (#[trigger] tabs@[j]).url@) {
            let (i, j) = choose|i: int, j: int|
                0 <= i < j < tabs@.len() && url_glob::found(pattern@, (#[trigger] tabs@[i]).url@)
                    && url_glob::found(pattern@, (#[trigger] tabs@[j]).url@);
            assert(at.contains(i) && at.contains(j));
            let x = choose|x: int| 0 <= x < at.len() && at[x] == i;
            let y = choose|y: int| 0 <= y < at.len() && at[y] == j;
            assert(x != y);
        }
    }
}

proof fn lemma_hit_is_picked(tabs: Seq<TabView>, pattern: Seq<char>)
    ensures
        tabs_hit(tabs, pattern) == model::picked(
            tabs,
            |t: TabView| url_glob::found(pattern, t.url),
        ),
    decreases tabs.len(),
{
    if tabs.len() > 0 {
        lemma_hit_is_picked(tabs.drop_last(), pattern);
    }
}

/// What is done to a tab is confirmed with the tab it was done to, and only where it was done; a new
/// tab is told by the address it landed at.
pub proof fn law_tabs_are_told(
    tab_id: &str,
    reply: Reply<Done>,
    switched: Result<CommandOutput, WebPilotError>,
    closed: Result<CommandOutput, WebPilotError>,
    answer: Reply<ActionData>,
    opened: Result<CommandOutput, WebPilotError>,
)
    requires
        call_ensures(switch_tab, (tab_id, reply), switched),
        call_ensures(close_tab, (tab_id, reply), closed),
        call_ensures(new_tab, (answer,), opened),
    ensures
        switched is Ok <==> (reply matches Reply::Data(d) && d.success),
        closed is Ok <==> (reply matches Reply::Data(d) && d.success),
        switched matches Ok(o) ==> o matches CommandOutput::Message(m) && m@ == "Switched to tab "@
            + tab_id@,
        closed matches Ok(o) ==> o matches CommandOutput::Message(m) && m@ == "Tab "@ + tab_id@
            + " closed"@,
        opened is Ok <==> (answer matches Reply::Data(d) && d.success && d.new_tab is Some),
        answer matches Reply::Data(d) ==> (d.success && d.new_tab is Some ==> (
        opened->Ok_0 matches CommandOutput::Data { json, human } && json@.get("url"@) == Some(
            JsonView::Str(d.new_tab->0.url@),
        ) && json@.get("success"@) == Some(JsonView::Bool(true)) && human@ == "New tab opened: "@
            + text::one_line(d.new_tab->0.url@))),
        answer matches Reply::Data(d) ==> (!d.success && d.error is Some ==> opened->Err_0@
            == d.error->0@),
{
    reveal_strlit("success");
    reveal_strlit("url");
    assert("success"@.len() == 7);
    assert("url"@.len() == 3);
}

/// A pattern for an address must hold something besides stars.
pub proof fn law_patterns_hold_something(pattern: &str, r: Result<(), WebPilotError>)
    requires
        call_ensures(check_pattern, (pattern,), r),
    ensures
        r is Ok <==> exists|i: int| 0 <= i < pattern@.len() && #[trigger] pattern@[i] != '*',
        r matches Err(e) ==> e is InvalidArgument,
{
    if r is Ok {
        let i = choose|i: int| 0 <= i < pattern@.len() && pattern@[i] != '*';
        assert(pattern@[i] != '*');
    }
}

} // verus!
