//! A page's cookies and what it stores, to a file and back.
use crate::headless;
use crate::headless::{entries_at, message};
use crate::json;
use crate::json::{Json, JsonView};
use crate::model;
use crate::output::{CommandOutput, OutputView};
use crate::paths;
use crate::paths::join;
use crate::text;
use crate::text::{dec, push_decimal};
use vstd::prelude::*;
use vstd::string::StringExecFns;

verus! {

/// What is stored where the page does not tell.
pub open spec fn no_storage() -> JsonView {
    JsonView::object().with("localStorage"@, JsonView::object()).with(
        "sessionStorage"@,
        JsonView::object(),
    )
}

/// What the file of a session holds.
pub open spec fn session_json(cookies: JsonView, storage: Option<JsonView>, millis: u64) -> JsonView {
    let stored = match storage {
        Some(s) => s,
        None => no_storage(),
    };
    JsonView::object().with("version"@, JsonView::number(1)).with(
        "exported_at"@,
        JsonView::number(millis),
    ).with("cookies"@, cookies).with(
        "local_storage"@,
        stored.get_or_null("localStorage"@),
    ).with("session_storage"@, stored.get_or_null("sessionStorage"@))
}

/// What the file of a session holds. A page that does not tell what it stores stores nothing.
pub fn export(cookies: Json, storage: Option<Json>, millis: u64) -> (r: Json)
    ensures
        r@ == session_json(cookies@, json::json_opt(storage), millis),
{
    let stored = match storage {
        Some(s) => s,
        None => Json::object().with("localStorage", Json::object()).with(
            "sessionStorage",
            Json::object(),
        ),
    };
    Json::object().with("version", Json::number(1)).with(
        "exported_at",
        Json::number(millis),
    ).with("cookies", cookies).with("local_storage", stored.get_or_null("localStorage")).with(
        "session_storage",
        stored.get_or_null("sessionStorage"),
    )
}

/// Where the file of a session goes: where it was asked for, or under a name of its own.
pub fn export_path(output: Option<&str>, dir: &str, millis: u128) -> (r: String)
    ensures
        r@ == (match output {
            Some(p) => p@,
            None => paths::joined(
                dir@,
                "session_"@ + text::decimal(millis as nat) + ".json"@,
            ),
        }),
{
    match output {
        Some(p) => p.to_owned(),
        None => {
            let mut name = "session_".to_owned();
            push_decimal(&mut name, millis);
            join(dir, name.concat(".json").as_str())
        },
    }
}

/// What an import does: the cookies to set, and the message that puts back what was stored.
pub struct Import {
    pub cookies: Vec<Json>,
    pub storage: Option<Json>,
}

/// What an import does.
pub fn import(data: &Json) -> (r: Import)
    ensures
        model::each(r.cookies@) == headless::list_at(data@, "cookies"@),
        json::json_opt(r.storage) == (match data@.get("local_storage"@) {
            Some(s) => Some(
                headless::plain_message("importStorage"@).with("localStorage"@, s),
            ),
            None => None,
        }),
{
    let cookies = entries_at(data, "cookies");
    let storage = match data.get("local_storage") {
        Some(s) => Some(message("importStorage").with("localStorage", s.copy())),
        None => None,
    };
    Import { cookies, storage }
}

/// What an import prints.
pub fn imported(cookies: usize) -> (r: CommandOutput)
    ensures
        r@ == OutputView::Data(
            JsonView::object().with("success"@, JsonView::Bool(true)).with(
                "cookies_imported"@,
                JsonView::number(cookies as u64),
            ),
            "Imported "@ + text::decimal(cookies as nat) + " cookies"@,
        ),
{
    CommandOutput::Data {
        json: Json::object().with("success", Json::Bool(true)).with(
            "cookies_imported",
            Json::number(cookies as u64),
        ),
        human: "Imported ".to_owned().concat(dec(cookies as u64).as_str()).concat(" cookies"),
    }
}

/// What an import takes from a file is what the export put there: the cookies, and what the page
/// stored.
pub proof fn law_import_reads_export(cookies: JsonView, storage: Option<JsonView>, millis: u64)
    ensures
        ({
            let data = session_json(cookies, storage, millis);
            let stored = match storage {
                Some(s) => s,
                None => no_storage(),
            };
            &&& headless::list_at(data, "cookies"@) == headless::list_of(cookies)
            &&& data.get("local_storage"@) == Some(stored.get_or_null("localStorage"@))
        }),
{
    reveal_strlit("version");
    reveal_strlit("exported_at");
    reveal_strlit("cookies");
    reveal_strlit("local_storage");
    reveal_strlit("session_storage");
    assert("version"@.len() == 7 && "cookies"@.len() == 7);
    assert("version"@[0] == 'v' && "cookies"@[0] == 'c');
    assert("exported_at"@.len() == 11);
    assert("local_storage"@.len() == 13);
    assert("session_storage"@.len() == 15);
}

/// The file of a session holds the cookies, and what the page stores in each of its two stores; where
/// the page does not tell, both are empty. It goes where it was asked for, or under a name of its own.
pub proof fn law_sessions_are_exported(
    cookies: Json,
    storage: Option<Json>,
    millis: u64,
    r: Json,
    asked: &str,
    dir: &str,
    time: u128,
    there: String,
    own: String,
)
    requires
        call_ensures(export, (cookies, storage, millis), r),
        dir@.len() > 0,
        dir@.last() != '/',
        call_ensures(export_path, (Some(asked), dir, time), there),
        call_ensures(export_path, (None, dir, time), own),
    ensures
        r@.get("cookies"@) == Some(cookies@),
        r@.get("exported_at"@) == Some(JsonView::Num(crate::json::NumberView::Unsigned(millis))),
        r@.get("version"@) == Some(JsonView::Num(crate::json::NumberView::Unsigned(1))),
        ({
            let stored = |key: Seq<char>|
                match storage {
                    Some(s) => match s@.get(key) {
                        Some(v) => v,
                        None => JsonView::Null,
                    },
                    None => JsonView::Object(Map::empty()),
                };
            &&& r@.get("local_storage"@) == Some(stored("localStorage"@))
            &&& r@.get("session_storage"@) == Some(stored("sessionStorage"@))
        }),
        there@ == asked@,
        own@ == dir@ + seq!['/'] + "session_"@ + text::decimal(time as nat) + ".json"@,
{
    reveal_strlit("version");
    reveal_strlit("exported_at");
    reveal_strlit("cookies");
    reveal_strlit("local_storage");
    reveal_strlit("session_storage");
    assert("version"@.len() == 7);
    assert("exported_at"@.len() == 11);
    assert("cookies"@.len() == 7);
    assert("local_storage"@.len() == 13);
    assert("session_storage"@.len() == 15);
    assert("version"@[0] != "cookies"@[0]);
    reveal_strlit("localStorage");
    reveal_strlit("sessionStorage");
    assert("localStorage"@.len() == 12);
    assert("sessionStorage"@.len() == 14);
    reveal_strlit("/");
    reveal_strlit("session_");
    assert("/"@ =~= seq!['/']);
    assert(own@ =~= dir@ + seq!['/'] + "session_"@ + text::decimal(time as nat) + ".json"@);
}

/// An import sets every cookie of the file in its order, and hands what was stored back to the page;
/// what it prints tells how many cookies there were.
pub proof fn law_sessions_are_imported(data: Json, r: Import, n: usize, told: CommandOutput)
    requires
        call_ensures(import, (&data,), r),
        call_ensures(imported, (n,), told),
    ensures
        match data@.get("cookies"@) {
            Some(JsonView::Array(list)) => r.cookies@.len() == list.len() && forall|i: int|
                0 <= i < list.len() ==> (#[trigger] r.cookies@[i])@ == list[i],
            _ => r.cookies@.len() == 0,
        },
        r.storage is Some <==> data@.get("local_storage"@) is Some,
        r.storage matches Some(m) ==> m@.get("type"@) == Some(JsonView::Str("importStorage"@))
            && m@.get("localStorage"@) == data@.get("local_storage"@),
        told matches CommandOutput::Data { json, human } && json@.get("cookies_imported"@) == Some(
            JsonView::Num(crate::json::NumberView::Unsigned(n as u64)),
        ) && text::holds(human@, text::decimal(n as nat)),
{
    reveal_strlit("type");
    reveal_strlit("localStorage");
    assert("type"@.len() == 4);
    assert("localStorage"@.len() == 12);
    reveal_strlit("success");
    reveal_strlit("cookies_imported");
    assert("success"@.len() == 7);
    assert("cookies_imported"@.len() == 16);
    let all = model::each(r.cookies@);
    assert(all.len() == r.cookies@.len());
    assert forall|i: int| 0 <= i < r.cookies@.len() implies (#[trigger] r.cookies@[i])@ == all[i] by {
    }
    text::lemma_part("Imported "@, text::decimal(n as nat), " cookies"@);
}

} // verus!
