//! Whether the headless browser is there.
use crate::headless;
use crate::headless::str_or;
use crate::json::{Json, JsonView};
use crate::model;
use crate::output::{CommandOutput, OutputView};
use crate::text;
use vstd::prelude::*;
use vstd::string::StringExecFns;

verus! {

/// What stands in for the page.
pub enum Absence {
    /// No browser was started.
    NoSession,
    /// The browser does not answer.
    Disconnected,
    /// There is no context of this name.
    NoContext(String),
    /// The browser has no page.
    NoPage,
}

/// What is printed where there is no page.
pub open spec fn absent(why: Absence) -> OutputView {
    let mode = JsonView::Str("headless"@);
    match why {
        Absence::NoSession => OutputView::Data(
            JsonView::object().with("connected"@, JsonView::Bool(false)).with("mode"@, mode),
            "Mode: headless\nStatus: no active session"@,
        ),
        Absence::Disconnected => OutputView::Data(
            JsonView::object().with("connected"@, JsonView::Bool(false)).with("mode"@, mode),
            "Mode: headless\nStatus: disconnected"@,
        ),
        Absence::NoContext(name) => OutputView::Data(
            JsonView::object().with("connected"@, JsonView::Bool(true)).with("mode"@, mode).with(
                "context_error"@,
                JsonView::Str("Context '"@ + name@ + "' not found"@),
            ),
            "Mode: headless\nContext '"@ + name@ + "' not found"@,
        ),
        Absence::NoPage => OutputView::Data(
            JsonView::object().with("connected"@, JsonView::Bool(true)).with("mode"@, mode),
            "Mode: headless\nStatus: connected (no page tab)"@,
        ),
    }
}

fn mode_json(connected: bool) -> (r: Json)
    ensures
        r@ == JsonView::object().with("connected"@, JsonView::Bool(connected)).with(
            "mode"@,
            JsonView::Str("headless"@),
        ),
{
    Json::object().with("connected", Json::Bool(connected)).with("mode", Json::string("headless"))
}

/// What is printed where there is no page: no error, but what there is.
pub fn check(why: Absence) -> (r: CommandOutput)
    ensures
        r@ == absent(why),
{
    match why {
        Absence::NoSession => CommandOutput::Data {
            json: mode_json(false),
            human: "Mode: headless\nStatus: no active session".to_owned(),
        },
        Absence::Disconnected => CommandOutput::Data {
            json: mode_json(false),
            human: "Mode: headless\nStatus: disconnected".to_owned(),
        },
        Absence::NoContext(name) => {
            let error = "Context '".to_owned().concat(name.as_str()).concat("' not found");
            CommandOutput::Data {
                json: mode_json(true).with("context_error", Json::string(error.as_str())),
                human: "Mode: headless\nContext '".to_owned().concat(name.as_str()).concat(
                    "' not found",
                ),
            }
        },
        Absence::NoPage => CommandOutput::Data {
            json: mode_json(true),
            human: "Mode: headless\nStatus: connected (no page tab)".to_owned(),
        },
    }
}

/// A line for a text, where there is one.
pub open spec fn line(label: Seq<char>, value: Option<Seq<char>>) -> Seq<char> {
    match value {
        Some(v) => label + v,
        None => ""@,
    }
}

fn line_of(label: &str, value: Option<&str>) -> (r: String)
    ensures
        r@ == line(label@, model::maybe(value)),
{
    match value {
        Some(v) => label.to_owned().concat(v),
        None => "".to_owned(),
    }
}

/// What is printed of a page: the browser's version, and the page's title and address as the page
/// gives them.
pub fn run(version: &Json, title: Json, url: Json, context: Option<&str>) -> (r: CommandOutput)
    ensures
        r@ == ({
            let json = JsonView::object().with("connected"@, JsonView::Bool(true)).with(
                "mode"@,
                JsonView::Str("headless"@),
            ).with("chrome_version"@, version@.get_or_null("product"@)).with(
                "tab_title"@,
                title@,
            ).with("tab_url"@, url@);
            OutputView::Data(
                match model::maybe(context) {
                    Some(c) => json.with("context"@, JsonView::Str(c)),
                    None => json,
                },
                "Mode: headless"@ + line("\nContext: "@, model::maybe(context)) + "\nChrome: "@
                    + headless::text_or(version@, "product"@, "?"@) + line(
                    "\nTab: "@,
                    title@.as_str(),
                ) + line("\nURL: "@, url@.as_str()),
            )
        }),
{
    let human = "Mode: headless".to_owned().concat(
        line_of("\nContext: ", context).as_str(),
    ).concat("\nChrome: ").concat(str_or(version, "product", "?").as_str()).concat(
        line_of("\nTab: ", title.as_str()).as_str(),
    ).concat(line_of("\nURL: ", url.as_str()).as_str());
    let json = mode_json(true).with("chrome_version", version.get_or_null("product")).with(
        "tab_title",
        title,
    ).with("tab_url", url);
    let json = match context {
        Some(c) => json.with("context", Json::string(c)),
        None => json,
    };
    CommandOutput::Data { json, human }
}

/// What is printed of a page tells, each under its name, the browser's version, the page's title and
/// address, and the context where there is one.
pub proof fn law_pages_are_told(version: Json, title: Json, url: Json, context: Option<&str>, r: CommandOutput)
    requires
        call_ensures(run, (&version, title, url, context), r),
    ensures
        r matches CommandOutput::Data { json, human } && {
            &&& json@.get("connected"@) == Some(JsonView::Bool(true))
            &&& json@.get("mode"@) == Some(JsonView::Str("headless"@))
            &&& json@.get("chrome_version"@) == Some(
                match version@.get("product"@) {
                    Some(v) => v,
                    None => JsonView::Null,
                },
            )
            &&& json@.get("tab_title"@) == Some(title@)
            &&& json@.get("tab_url"@) == Some(url@)
            &&& context matches Some(c) ==> json@.get("context"@) == Some(JsonView::Str(c@))
                && text::holds(human@, "\nContext: "@ + c@)
            &&& context is None ==> json@.get("context"@) is None
            &&& version@.get("product"@) matches Some(JsonView::Str(v)) ==> text::holds(
                human@,
                "\nChrome: "@ + v,
            )
            &&& title@ matches JsonView::Str(t) ==> text::holds(human@, "\nTab: "@ + t)
            &&& url@ matches JsonView::Str(u) ==> text::holds(human@, "\nURL: "@ + u)
        },
{
    reveal_strlit("connected");
    reveal_strlit("mode");
    reveal_strlit("chrome_version");
    reveal_strlit("tab_title");
    reveal_strlit("tab_url");
    reveal_strlit("context");
    assert("connected"@.len() == 9);
    assert("mode"@.len() == 4);
    assert("chrome_version"@.len() == 14);
    assert("tab_title"@.len() == 9);
    assert("tab_url"@.len() == 7);
    assert("context"@.len() == 7);
    assert("connected"@[0] != "tab_title"@[0]);
    assert("tab_url"@[0] != "context"@[0]);
    if let CommandOutput::Data { json, human } = r {
        let head = "Mode: headless"@;
        let a = line("\nContext: "@, model::maybe(context));
        let b = "\nChrome: "@ + headless::text_or(version@, "product"@, "?"@);
        let c = line("\nTab: "@, title@.as_str());
        let d = line("\nURL: "@, url@.as_str());
        assert(human@ =~= head + a + (b + c + d));
        text::lemma_part(head, a, b + c + d);
        assert(human@ =~= (head + a) + b + (c + d));
        text::lemma_part(head + a, b, c + d);
        assert(human@ =~= (head + a + b) + c + d);
        text::lemma_part(head + a + b, c, d);
        assert(human@ =~= (head + a + b + c) + d + Seq::<char>::empty());
        text::lemma_part(head + a + b + c, d, Seq::empty());
    }
}

/// Where there is no page, what there is is told: whether there is a browser, and the context that was
/// not found.
pub proof fn law_absence_is_told(why: Absence, r: CommandOutput)
    requires
        call_ensures(check, (why,), r),
    ensures
        r matches CommandOutput::Data { json, human } && {
            &&& json@.get("mode"@) == Some(JsonView::Str("headless"@))
            &&& json@.get("connected"@) == Some(
                JsonView::Bool(!(why is NoSession) && !(why is Disconnected)),
            )
            &&& why matches Absence::NoContext(name) ==> text::holds(human@, name@) && (json@.get(
                "context_error"@,
            ) matches Some(JsonView::Str(e)) && text::holds(e, name@))
            &&& !(why is NoContext) ==> json@.get("context_error"@) is None
        },
{
    reveal_strlit("connected");
    reveal_strlit("mode");
    reveal_strlit("context_error");
    assert("connected"@.len() == 9);
    assert("mode"@.len() == 4);
    assert("context_error"@.len() == 13);
    if let Absence::NoContext(name) = why {
        text::lemma_part("Context '"@, name@, "' not found"@);
        text::lemma_part("Mode: headless\nContext '"@, name@, "' not found"@);
    }
}

} // verus!
