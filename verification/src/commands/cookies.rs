//! `cookies`: the cookies of an address in the user's browser.
use crate::commands::ipc_helper;
use crate::commands::ipc_helper::{check_done, Answer, Done};
use crate::error;
use crate::error::WebPilotError;
use crate::headless;
use crate::headless::{array_of, count_of};
use crate::json::{Json, JsonView};
use crate::model;
use crate::output::{CommandOutput, OutputView};
use crate::text;
use crate::text::{same, shorten};
use vstd::prelude::*;
use vstd::string::StringExecFns;

verus! {

/// The arguments of `cookies`.
#[derive(Debug, PartialEq, Eq)]
pub struct CookiesArgs {
    pub command: CookieCommand,
}

/// What `cookies` does.
#[derive(Debug, PartialEq, Eq)]
pub enum CookieCommand {
    List { url: String },
    Get { url: String, name: String },
    Put { url: String, name: String, value: String, httponly: bool, secure: bool },
    Delete { url: String, name: String },
}

/// A cookie, with the JSON that describes it.
pub struct PlainCookie {
    pub name: String,
    pub value: String,
    pub domain: String,
    pub secure: bool,
    pub http_only: bool,
    pub wire: Json,
}

/// What a cookie is.
pub struct PlainView {
    pub name: Seq<char>,
    pub value: Seq<char>,
    pub domain: Seq<char>,
    pub secure: bool,
    pub http_only: bool,
    pub wire: JsonView,
}

impl View for PlainCookie {
    type V = PlainView;

    open spec fn view(&self) -> PlainView {
        PlainView {
            name: self.name@,
            value: self.value@,
            domain: self.domain@,
            secure: self.secure,
            http_only: self.http_only,
            wire: self.wire@,
        }
    }
}

/// `name = value [domain] flags`, with no more than the first bytes of the value.
pub open spec fn row(c: PlainView) -> Seq<char> {
    c.name + " = "@ + text::shortened(c.value, 40) + " ["@ + c.domain + "] "@ + (if c.secure
        && c.http_only {
        "secure,httpOnly"@
    } else if c.secure {
        "secure"@
    } else if c.http_only {
        "httpOnly"@
    } else {
        ""@
    })
}

fn row_of(c: &PlainCookie) -> (r: String)
    ensures
        r@ == row(c@),
{
    let flags = if c.secure && c.http_only {
        "secure,httpOnly"
    } else if c.secure {
        "secure"
    } else if c.http_only {
        "httpOnly"
    } else {
        ""
    };
    c.name.clone().concat(" = ").concat(shorten(c.value.as_str(), 40).as_str()).concat(
        " [",
    ).concat(c.domain.as_str()).concat("] ").concat(flags)
}

/// The cookies of a name, or all.
pub open spec fn named(cookies: Seq<PlainView>, name: Option<Seq<char>>) -> Seq<PlainView> {
    model::picked(cookies, |c: PlainView| name is None || c.name == name->0)
}

/// What a listing prints: the one cookie of a name by its value, else a row a cookie.
pub open spec fn listing(cookies: Seq<PlainView>, name: Option<Seq<char>>) -> OutputView {
    let found = named(cookies, name);
    if name is Some && found.len() == 1 {
        OutputView::Content(found[0].name + " = "@ + found[0].value, found[0].wire, None)
    } else {
        OutputView::List(
            JsonView::Array(Seq::new(found.len(), |i: int| found[i].wire)),
            Seq::new(found.len(), |i: int| row(found[i])),
            headless::counted(found.len(), "cookies"@),
        )
    }
}

/// What a listing prints, of all cookies or of those of a name.
pub fn list(answer: Answer<Vec<PlainCookie>>, name: Option<&str>) -> (r: Result<
    CommandOutput,
    WebPilotError,
>)
    ensures
        error::outcome(r) == (match answer {
            Answer::Data(cookies) => Ok(listing(model::each(cookies@), model::maybe(name))),
            _ => Err(ipc_helper::refusal(answer)),
        }),
{
    let cookies = match answer.data() {
        Ok(c) => c,
        Err(e) => {
            return Err(e);
        },
    };
    let ghost all = model::each(cookies@);
    let ghost wanted = model::maybe(name);
    let ghost pick = |c: PlainView| wanted is None || c.name == wanted->0;
    let mut hits: Vec<usize> = Vec::new();
    let mut items: Vec<Json> = Vec::new();
    let mut rows: Vec<String> = Vec::new();
    assert(all.take(0) =~= Seq::empty());
    for i in 0..cookies.len()
        invariant
            all == model::each(cookies@),
            wanted == model::maybe(name),
            pick == (|c: PlainView| wanted is None || c.name == wanted->0),
            ({
                let sofar = model::picked(all.take(i as int), pick);
                &&& hits@.len() == sofar.len()
                &&& items@.len() == sofar.len()
                &&& rows@.len() == sofar.len()
                &&& forall|j: int|
                    0 <= j < sofar.len() ==> (#[trigger] hits@[j]) < i && all[hits@[j] as int]
                        == sofar[j]
                &&& forall|j: int|
                    0 <= j < sofar.len() ==> (#[trigger] items@[j])@ == sofar[j].wire
                &&& forall|j: int| 0 <= j < sofar.len() ==> (#[trigger] rows@[j])@ == row(sofar[j])
            }),
    {
        proof {
            assert(all.take(i + 1).drop_last() =~= all.take(i as int));
            assert(all.take(i + 1).last() == cookies@[i as int]@);
        }
        let keep = match name {
            Some(n) => same(cookies[i].name.as_str(), n),
            None => true,
        };
        if keep {
            hits.push(i);
            items.push(cookies[i].wire.copy());
            rows.push(row_of(&cookies[i]));
        }
    }
    assert(all.take(cookies@.len() as int) =~= all);
    let ghost found = named(all, wanted);
    assert(found == model::picked(all, pick));
    if name.is_some() && hits.len() == 1 {
        let c = &cookies[hits[0]];
        return Ok(
            CommandOutput::Content {
                stdout: c.name.clone().concat(" = ").concat(c.value.as_str()),
                json: c.wire.copy(),
                note: None,
            },
        );
    }
    let summary = count_of(hits.len(), "cookies");
    proof {
        assert(model::each(items@) =~= Seq::new(found.len(), |i: int| found[i].wire));
        text::lemma_texts_index(rows@);
        assert(text::texts(rows@) =~= Seq::new(found.len(), |i: int| row(found[i])));
    }
    Ok(CommandOutput::List { items: array_of(items), human_lines: rows, summary })
}

/// What setting or deleting a cookie prints.
pub fn changed(answer: Answer<Done>, message: &str) -> (r: Result<CommandOutput, WebPilotError>)
    ensures
        error::outcome(r) == (match answer {
            Answer::Data(d) => if d.success {
                Ok(OutputView::Message(message@))
            } else {
                Err(ipc_helper::why_not(model::maybe(d.error)))
            },
            _ => Err(ipc_helper::refusal(answer)),
        }),
{
    match answer.data() {
        Err(e) => Err(e),
        Ok(done) => match check_done(done) {
            Ok(_) => Ok(CommandOutput::Message(message.to_owned())),
            Err(e) => Err(e),
        },
    }
}

/// What a command that changes a cookie says once it has.
pub fn change_message(command: &CookieCommand) -> (r: Option<&'static str>)
    ensures
        match command {
            CookieCommand::Put { .. } => r is Some && r->0@ == "Cookie set"@,
            CookieCommand::Delete { .. } => r is Some && r->0@ == "Cookie deleted"@,
            _ => r is None,
        },
{
    match command {
        CookieCommand::Put { .. } => Some("Cookie set"),
        CookieCommand::Delete { .. } => Some("Cookie deleted"),
        _ => None,
    }
}

/// A listing shows the cookies of the name that is asked for, or all, in their order; where just one
/// has the name, its value is printed. Every cookie that is shown is shown whole in JSON.
pub proof fn law_cookies_are_listed(
    cookies: Vec<PlainCookie>,
    name: Option<&str>,
    r: Result<CommandOutput, WebPilotError>,
) -> (at: Seq<int>)
    requires
        call_ensures(list, (Answer::Data(cookies), name), r),
    ensures
        forall|i: int| 0 <= i < at.len() ==> 0 <= #[trigger] at[i] < cookies@.len(),
        forall|i: int, j: int| 0 <= i < j < at.len() ==> at[i] < at[j],
        forall|k: int|
            0 <= k < cookies@.len() ==> (at.contains(k) <==> name is None || (
            #[trigger] cookies@[k]).name@ == name->0@),
        name is Some && at.len() == 1 ==> (r matches Ok(
            CommandOutput::Content { stdout, json, note },
        ) && stdout@ == cookies@[at[0]].name@ + " = "@ + cookies@[at[0]].value@ && json@
            == cookies@[at[0]].wire@),
        !(name is Some && at.len() == 1) ==> (r matches Ok(
            CommandOutput::List { items, human_lines, summary },
        ) && {
            &&& items@ matches JsonView::Array(shown) && shown.len() == at.len() && forall|i: int|
                0 <= i < at.len() ==> #[trigger] shown[i] == cookies@[at[i]].wire@
            &&& human_lines@.len() == at.len()
            &&& forall|i: int|
                0 <= i < at.len() ==> text::has_prefix(
                    (#[trigger] human_lines@[i])@,
                    cookies@[at[i]].name@ + " = "@ + text::shortened(cookies@[at[i]].value@, 40)
                        + " ["@ + cookies@[at[i]].domain@ + "] "@,
                )
        }),
{
    let all = model::each(cookies@);
    let wanted = model::maybe(name);
    let pick = |c: PlainView| wanted is None || c.name == wanted->0;
    let at = model::law_picked_in_order(all, pick);
    let found = named(all, wanted);
    assert(found == model::picked(all, pick));
    assert forall|k: int| 0 <= k < cookies@.len() implies (at.contains(k) <==> name is None || (
    #[trigger] cookies@[k]).name@ == name->0@) by {
        assert(all[k] == cookies@[k]@);
        assert(pick(all[k]) <==> at.contains(k));
    }
    if at.len() == 1 {
        assert(found[0] == all[at[0]]);
    }
    if let Ok(CommandOutput::List { items, human_lines, summary }) = r {
        text::lemma_texts_index(human_lines@);
        assert forall|i: int| 0 <= i < at.len() implies text::has_prefix(
            (#[trigger] human_lines@[i])@,
            cookies@[at[i]].name@ + " = "@ + text::shortened(cookies@[at[i]].value@, 40) + " ["@
                + cookies@[at[i]].domain@ + "] "@,
        ) by {
            assert(text::texts(human_lines@)[i] == human_lines@[i]@);
            assert(found[i] == all[at[i]]);
            let c = cookies@[at[i]]@;
            let front = c.name + " = "@ + text::shortened(c.value, 40) + " ["@ + c.domain + "] "@;
            let flags = row(c).skip(front.len() as int);
            assert(row(c) =~= front + flags);
            text::lemma_front(front, flags);
        }
        if let JsonView::Array(shown) = items@ {
            assert forall|i: int| 0 <= i < at.len() implies #[trigger] shown[i]
                == cookies@[at[i]].wire@ by {
                assert(found[i] == all[at[i]]);
            }
        }
    }
    at
}

/// The row of a cookie ends with its flags: those it has, and no other.
pub proof fn law_cookies_show_their_flags(c: PlainCookie)
    ensures
        c.secure && c.http_only ==> text::has_suffix(row(c@), "] secure,httpOnly"@),
        c.secure && !c.http_only ==> text::has_suffix(row(c@), "] secure"@),
        !c.secure && c.http_only ==> text::has_suffix(row(c@), "] httpOnly"@),
        !c.secure && !c.http_only ==> text::has_suffix(row(c@), "] "@),
{
    reveal_strlit("");
    reveal_strlit("] ");
    reveal_strlit("secure");
    reveal_strlit("httpOnly");
    reveal_strlit("secure,httpOnly");
    reveal_strlit("] secure");
    reveal_strlit("] httpOnly");
    reveal_strlit("] secure,httpOnly");
    let front = c.name@ + " = "@ + text::shortened(c.value@, 40) + " ["@ + c.domain@;
    let flags = if c.secure && c.http_only {
        "secure,httpOnly"@
    } else if c.secure {
        "secure"@
    } else if c.http_only {
        "httpOnly"@
    } else {
        ""@
    };
    assert("] "@ + "secure,httpOnly"@ =~= "] secure,httpOnly"@);
    assert("] "@ + "secure"@ =~= "] secure"@);
    assert("] "@ + "httpOnly"@ =~= "] httpOnly"@);
    assert("] "@ + ""@ =~= "] "@);
    assert(row(c@) =~= front + ("] "@ + flags));
    text::lemma_back(front, "] "@ + flags);
}

/// A change is told where it was made, by what the command does, and fails with the reason where it
/// was not.
pub proof fn law_changes_are_told(
    done: Done,
    message: &str,
    r: Result<CommandOutput, WebPilotError>,
    command: CookieCommand,
    m: Option<&'static str>,
)
    requires
        call_ensures(changed, (Answer::Data(done), message), r),
        call_ensures(change_message, (&command,), m),
    ensures
        r is Ok <==> done.success,
        r matches Ok(o) ==> (o matches CommandOutput::Message(t) && t@ == message@),
        !done.success && done.error is Some ==> (r matches Err(WebPilotError::Other { detail })
            && detail@ == done.error->0@),
        command is Put ==> m is Some && m->0@ == "Cookie set"@,
        command is Delete ==> m is Some && m->0@ == "Cookie deleted"@,
        command is List || command is Get ==> m is None,
{
}

/// What is listed is counted below it.
pub proof fn law_listed_cookies_are_counted(cookies: Vec<PlainCookie>, name: Option<&str>, r: Result<CommandOutput, WebPilotError>)
    requires
        call_ensures(list, (Answer::Data(cookies), name), r),
    ensures
        r matches Ok(CommandOutput::List { items, human_lines, summary }) ==> summary@
            == "("@ + text::decimal(human_lines@.len()) + " "@ + "cookies"@ + ")"@,
{
    if let Ok(CommandOutput::List { items, human_lines, summary }) = r {
        text::lemma_texts_index(human_lines@);
    }
}

} // verus!
