//! `cookie`: the browser's cookies.
use crate::error;
use crate::error::{ErrorView, WebPilotError};
use crate::json;
use crate::json::{Json, JsonView};
use crate::model;
use crate::output::{CommandOutput, OutputView};
use crate::protocol;
use crate::protocol::{done, lift_error, Done, Reply};
use crate::text;
use crate::text::{clip, dec, join, line_safe, line_safe_clip, same, signed_dec};
use vstd::prelude::*;
use vstd::string::{StrSliceExecFns, StringExecFns};

verus! {

broadcast use {text::group_texts, json::group_json_views, model::lemma_each_push};

/// The arguments of `cookie`.
#[derive(Debug, PartialEq, Eq)]
pub struct CookieArgs {
    pub command: CookieCommand,
}

/// What `cookie` does. The expiry of a cookie is a JSON number, in seconds since the epoch.
#[derive(Debug, PartialEq, Eq)]
pub enum CookieCommand {
    List { url: String },
    Get { url: String, name: String },
    SetCookie {
        url: String,
        name: String,
        value: String,
        httponly: bool,
        secure: bool,
        same_site: Option<SameSite>,
        expires: Option<Json>,
    },
    Delete { url: String, name: String },
}

/// When a cookie goes with a request of another site. `Unrestricted` is the mode called `none`.
#[derive(Debug, Clone, Copy, PartialEq, Eq, Structural)]
pub enum SameSite {
    Unspecified,
    Strict,
    Lax,
    Unrestricted,
}

/// The site whose cookies are kept apart.
#[derive(Debug, PartialEq, Eq)]
pub struct PartitionKey {
    pub top_level_site: String,
    pub has_cross_site_ancestor: bool,
}

/// A cookie, with the JSON that describes it. The expiry is in whole seconds since the epoch.
#[derive(Debug, PartialEq, Eq)]
pub struct CookieInfo {
    pub name: String,
    pub value: String,
    pub domain: String,
    pub path: String,
    pub secure: bool,
    pub http_only: bool,
    pub same_site: SameSite,
    pub expiration: Option<i64>,
    pub host_only: bool,
    pub partition_key: Option<PartitionKey>,
    pub wire: Json,
}

/// What a cookie is.
pub struct CookieView {
    pub name: Seq<char>,
    pub value: Seq<char>,
    pub domain: Seq<char>,
    pub path: Seq<char>,
    pub secure: bool,
    pub http_only: bool,
    pub same_site: SameSite,
    pub expiration: Option<i64>,
    pub host_only: bool,
    pub partition: Option<(Seq<char>, bool)>,
    pub wire: JsonView,
}

impl View for PartitionKey {
    type V = (Seq<char>, bool);

    open spec fn view(&self) -> (Seq<char>, bool) {
        (self.top_level_site@, self.has_cross_site_ancestor)
    }
}

impl View for CookieInfo {
    type V = CookieView;

    open spec fn view(&self) -> CookieView {
        CookieView {
            name: self.name@,
            value: self.value@,
            domain: self.domain@,
            path: self.path@,
            secure: self.secure,
            http_only: self.http_only,
            same_site: self.same_site,
            expiration: self.expiration,
            host_only: self.host_only,
            partition: model::maybe(self.partition_key),
            wire: self.wire@,
        }
    }
}

/// The name of a mode. An unspecified one has none to show.
pub open spec fn same_site_name(s: SameSite) -> Option<Seq<char>> {
    match s {
        SameSite::Unspecified => None,
        SameSite::Strict => Some("strict"@),
        SameSite::Lax => Some("lax"@),
        SameSite::Unrestricted => Some("none"@),
    }
}

/// A list with one more item, where a condition holds.
pub open spec fn push_if(list: Seq<Seq<char>>, holds: bool, item: Seq<char>) -> Seq<Seq<char>> {
    if holds {
        list.push(item)
    } else {
        list
    }
}

/// The flags of a cookie's row: every attribute that it has.
pub open spec fn cookie_flags(c: CookieView) -> Seq<Seq<char>> {
    let f1 = push_if(Seq::empty(), c.secure, "secure"@);
    let f2 = push_if(f1, c.http_only, "httpOnly"@);
    let f3 = push_if(f2, c.host_only, "hostOnly"@);
    let f4 = match same_site_name(c.same_site) {
        Some(name) => f3.push("sameSite="@ + name),
        None => f3,
    };
    let f5 = match c.partition {
        Some((site, cross)) => f4.push(
            "partitioned="@ + text::clipped(text::one_line(site), 200) + (if cross {
                ",xsite"@
            } else {
                Seq::empty()
            }),
        ),
        None => f4,
    };
    f5.push(
        match c.expiration {
            Some(ts) => "expires="@ + text::signed_decimal(ts as int),
            None => "session"@,
        },
    )
}

/// The start of a cookie's value, with a mark where it is cut.
pub open spec fn value_cell(value: Seq<char>) -> Seq<char> {
    if value.len() > 40 {
        value.take(40).push('…')
    } else {
        value
    }
}

/// `name = value [domainpath] flags`. What the page controls is cut to a bounded length.
pub open spec fn cookie_row_text(c: CookieView) -> Seq<char> {
    text::clipped(text::one_line(c.name), 200) + " = "@ + text::one_line(value_cell(c.value))
        + " ["@ + text::clipped(text::one_line(c.domain), 200) + text::clipped(
        text::one_line(c.path),
        200,
    ) + "] "@ + text::joined(cookie_flags(c), ","@)
}

fn flags_of(c: &CookieInfo) -> (r: Vec<String>)
    ensures
        text::texts(r@) == cookie_flags(c@),
{
    let mut flags: Vec<String> = Vec::new();
    if c.secure {
        flags.push("secure".to_owned());
    }
    if c.http_only {
        flags.push("httpOnly".to_owned());
    }
    if c.host_only {
        flags.push("hostOnly".to_owned());
    }
    match c.same_site {
        SameSite::Unspecified => {},
        SameSite::Strict => {
            flags.push("sameSite=".to_owned().concat("strict"));
        },
        SameSite::Lax => {
            flags.push("sameSite=".to_owned().concat("lax"));
        },
        SameSite::Unrestricted => {
            flags.push("sameSite=".to_owned().concat("none"));
        },
    }
    if let Some(key) = &c.partition_key {
        let cross = if key.has_cross_site_ancestor {
            ",xsite".to_owned()
        } else {
            String::new()
        };
        flags.push(
            "partitioned=".to_owned().concat(
                line_safe_clip(key.top_level_site.as_str(), 200).as_str(),
            ).concat(cross.as_str()),
        );
    }
    flags.push(
        match c.expiration {
            Some(ts) => "expires=".to_owned().concat(signed_dec(ts).as_str()),
            None => "session".to_owned(),
        },
    );
    flags
}

/// One row: the cookie's name, the start of its value, where it goes, and every attribute it has.
pub fn cookie_row(c: &CookieInfo) -> (r: String)
    ensures
        r@ == cookie_row_text(c@),
{
    let mut cell = clip(c.value.as_str(), 40);
    if c.value.as_str().unicode_len() > 40 {
        cell.push('…');
    }
    line_safe_clip(c.name.as_str(), 200).concat(" = ").concat(
        line_safe(cell.as_str()).as_str(),
    ).concat(" [").concat(line_safe_clip(c.domain.as_str(), 200).as_str()).concat(
        line_safe_clip(c.path.as_str(), 200).as_str(),
    ).concat("] ").concat(join(&flags_of(c), ",").as_str())
}

/// The cookies of one name, or all of them.
pub open spec fn cookies_named(cookies: Seq<CookieView>, name: Option<Seq<char>>) -> Seq<CookieView> {
    match name {
        Some(n) => model::picked(cookies, |c: CookieView| c.name == n),
        None => cookies,
    }
}

/// What reading cookies prints. A cookie asked for by name must be there; a single one is printed
/// as it is, several are listed.
pub open spec fn read_outcome(cookies: Seq<CookieView>, name: Option<Seq<char>>) -> Result<
    OutputView,
    ErrorView,
> {
    let read = cookies_named(cookies, name);
    if name is Some && read.len() == 0 {
        Err(ErrorView::CookieNotFound(name->0))
    } else if name is Some && read.len() == 1 {
        Ok(
            OutputView::Content(
                text::one_line(read[0].name) + " = "@ + text::one_line(read[0].value),
                read[0].wire,
                None,
            ),
        )
    } else {
        Ok(
            OutputView::List(
                JsonView::Array(Seq::new(read.len(), |i: int| read[i].wire)),
                Seq::new(read.len(), |i: int| cookie_row_text(read[i])),
                "("@ + text::decimal(read.len()) + " cookies)"@,
            ),
        )
    }
}

fn named<'a>(cookies: &'a Vec<CookieInfo>, name: &Option<String>) -> (r: Vec<&'a CookieInfo>)
    ensures
        ({
            let read = cookies_named(model::each(cookies@), model::maybe(*name));
            &&& r@.len() == read.len()
            &&& forall|i: int| 0 <= i < r@.len() ==> (#[trigger] r@[i])@ == read[i]
        }),
{
    let ghost all = model::each(cookies@);
    let ghost wanted = model::maybe(*name);
    let mut read: Vec<&'a CookieInfo> = Vec::new();
    for i in 0..cookies.len()
        invariant
            all == model::each(cookies@),
            wanted == model::maybe(*name),
            read@.len() == cookies_named(all.take(i as int), wanted).len(),
            forall|j: int|
                0 <= j < read@.len() ==> (#[trigger] read@[j])@ == cookies_named(
                    all.take(i as int),
                    wanted,
                )[j],
    {
        assert(all.take(i + 1).drop_last() =~= all.take(i as int));
        assert(all.take(i + 1).last() == cookies@[i as int]@);
        let keep = match name {
            Some(n) => same(cookies[i].name.as_str(), n.as_str()),
            None => true,
        };
        if keep {
            read.push(&cookies[i]);
        }
    }
    assert(all.take(cookies@.len() as int) =~= all);
    read
}

/// What reading cookies prints, or why it failed.
pub fn read(reply: Reply<Vec<CookieInfo>>, name: Option<String>) -> (r: Result<
    CommandOutput,
    WebPilotError,
>)
    ensures
        error::outcome(r) == (match reply {
            Reply::Data(cookies) => read_outcome(model::each(cookies@), model::maybe(name)),
            _ => Err(protocol::no_data(reply)),
        }),
{
    let cookies = match reply.data() {
        Ok(c) => c,
        Err(e) => {
            return Err(e);
        },
    };
    let read = named(&cookies, &name);
    let ghost all = cookies_named(model::each(cookies@), model::maybe(name));
    if let Some(n) = &name {
        if read.len() == 0 {
            return Err(WebPilotError::CookieNotFound { name: n.clone() });
        }
        if read.len() == 1 {
            assert(all[0] == read@[0]@);
            return Ok(
                CommandOutput::Content {
                    stdout: line_safe(read[0].name.as_str()).concat(" = ").concat(
                        line_safe(read[0].value.as_str()).as_str(),
                    ),
                    json: read[0].wire.copy(),
                    note: None,
                },
            );
        }
    }
    let mut wires: Vec<Json> = Vec::new();
    let mut rows: Vec<String> = Vec::new();
    for i in 0..read.len()
        invariant
            wires@.len() == i,
            rows@.len() == i,
            forall|j: int| 0 <= j < i ==> (#[trigger] wires@[j])@ == read@[j].wire@,
            forall|j: int| 0 <= j < i ==> (#[trigger] rows@[j])@ == cookie_row_text(read@[j]@),
    {
        wires.push(read[i].wire.copy());
        rows.push(cookie_row(read[i]));
    }
    proof {
        json::lemma_views_index(wires@);
        text::lemma_texts_index(rows@);
        assert(json::views(wires@) =~= Seq::new(all.len(), |i: int| all[i].wire));
        assert(text::texts(rows@) =~= Seq::new(all.len(), |i: int| cookie_row_text(all[i])));
    }
    let summary = "(".to_owned().concat(dec(read.len() as u64).as_str()).concat(" cookies)");
    Ok(CommandOutput::List { items: Json::Array(wires), human_lines: rows, summary })
}

/// What setting a cookie prints.
pub fn set(reply: Reply<Done>) -> (r: Result<CommandOutput, WebPilotError>)
    ensures
        error::outcome(r) == protocol::done_outcome(reply, OutputView::Message("Cookie set"@)),
{
    done(reply, "Cookie set".to_owned())
}

/// The response to a deletion: how many cookies it deleted, where that is known.
pub struct DeleteData {
    pub success: bool,
    pub deleted: Option<u64>,
    pub error: Option<WebPilotError>,
}

/// What deleting a cookie prints: how many of its name were deleted, one where that is unknown.
pub open spec fn delete_outcome(name: Seq<char>, reply: Reply<DeleteData>) -> Result<
    OutputView,
    ErrorView,
> {
    match reply {
        Reply::Data(d) => if d.success {
            Ok(
                OutputView::Message(
                    "Deleted "@ + text::decimal(
                        match d.deleted {
                            Some(n) => n as nat,
                            None => 1nat,
                        },
                    ) + " cookie(s) named '"@ + name + "'"@,
                ),
            )
        } else {
            Err(protocol::failure(model::maybe(d.error)))
        },
        _ => Err(protocol::no_data(reply)),
    }
}

/// What deleting a cookie prints.
pub fn delete(name: &str, reply: Reply<DeleteData>) -> (r: Result<CommandOutput, WebPilotError>)
    ensures
        error::outcome(r) == delete_outcome(name@, reply),
{
    match reply.data() {
        Ok(d) => {
            let n: u64 = match d.deleted {
                Some(n) => n,
                None => 1,
            };
            let message = "Deleted ".to_owned().concat(dec(n).as_str()).concat(
                " cookie(s) named '",
            ).concat(name).concat("'");
            lift_error(d.success, d.error, CommandOutput::Message(message))
        },
        Err(e) => Err(e),
    }
}

/// A cookie that is asked for by name and is not there is an error, never an empty list; listing
/// all of none is an empty list.
pub proof fn law_absent_cookie_is_not_found(cookies: Seq<CookieView>, name: Seq<char>)
    ensures
        (forall|i: int| 0 <= i < cookies.len() ==> (#[trigger] cookies[i]).name != name)
            <==> read_outcome(cookies, Some(name)) == Err::<OutputView, ErrorView>(
            ErrorView::CookieNotFound(name),
        ),
        read_outcome(Seq::empty(), None) is Ok,
{
    let pick = |c: CookieView| c.name == name;
    model::lemma_picked(cookies, pick);
    let read = model::picked(cookies, pick);
    if forall|i: int| 0 <= i < cookies.len() ==> (#[trigger] cookies[i]).name != name {
        if read.len() > 0 {
            assert(pick(read[0]));
            let i = choose|i: int| 0 <= i < cookies.len() && cookies[i] == read[0];
            assert(cookies[i].name != name);
        }
    } else {
        let i = choose|i: int| 0 <= i < cookies.len() && (#[trigger] cookies[i]).name == name;
        assert(pick(cookies[i]));
    }
}

/// Reading cookies tells exactly those that were asked for, in their order: all of them, or those of
/// the very name; a single one by its name and value, several as a list.
pub proof fn law_cookies_are_read(
    cookies: Vec<CookieInfo>,
    name: Option<String>,
    r: Result<CommandOutput, WebPilotError>,
) -> (at: Seq<int>)
    requires
        call_ensures(read, (Reply::Data(cookies), name), r),
    ensures
        forall|i: int, j: int| 0 <= i < j < at.len() ==> at[i] < at[j],
        forall|i: int| 0 <= i < at.len() ==> 0 <= #[trigger] at[i] < cookies@.len(),
        forall|k: int|
            0 <= k < cookies@.len() ==> (at.contains(k) <==> name is None || (
            #[trigger] cookies@[k]).name@ == name->0@),
        name is Some && at.len() == 0 ==> (r matches Err(WebPilotError::CookieNotFound { name: told })
            && told@ == name->0@),
        name is Some && at.len() == 1 ==> (r matches Ok(
            CommandOutput::Content { stdout, json, note },
        ) && json@ == cookies@[at[0]].wire@ && note is None && stdout@ == text::one_line(
            cookies@[at[0]].name@,
        ) + " = "@ + text::one_line(cookies@[at[0]].value@)),
        name is None || at.len() > 1 ==> (r matches Ok(
            CommandOutput::List { items, human_lines, summary },
        ) && {
            &&& items@ matches JsonView::Array(list) && list.len() == at.len() && forall|i: int|
                0 <= i < at.len() ==> #[trigger] list[i] == cookies@[at[i]].wire@
            &&& human_lines@.len() == at.len()
            &&& forall|i: int|
                0 <= i < at.len() ==> (#[trigger] human_lines@[i])@ == cookie_row_text(
                    cookies@[at[i]]@,
                )
            &&& summary@ == "("@ + text::decimal(at.len()) + " cookies)"@
        }),
{
    let all = model::each(cookies@);
    let pick = |c: CookieView| name is None || c.name == name->0@;
    let at = model::law_picked_in_order(all, pick);
    let read = model::picked(all, pick);
    if name is None {
        lemma_all_picked(all, pick);
    } else {
        lemma_same_pick(all, pick, |c: CookieView| c.name == name->0@);
    }
    assert(cookies_named(all, model::maybe(name)) == read);
    assert forall|k: int| 0 <= k < cookies@.len() implies (at.contains(k) <==> name is None || (
    #[trigger] cookies@[k]).name@ == name->0@) by {
        assert(all[k] == cookies@[k]@);
        assert(pick(all[k]) == (name is None || cookies@[k].name@ == name->0@));
    }
    if let Ok(o) = r {
        if let CommandOutput::List { items, human_lines, summary } = o {
            text::lemma_texts_index(human_lines@);
            assert forall|i: int| 0 <= i < at.len() implies (#[trigger] human_lines@[i])@
                == cookie_row_text(cookies@[at[i]]@) by {
                assert(text::texts(human_lines@)[i] == cookie_row_text(read[i]));
            }
        }
    }
    at
}

proof fn lemma_all_picked<V>(items: Seq<V>, pick: spec_fn(V) -> bool)
    requires
        forall|v: V| #[trigger] pick(v),
    ensures
        model::picked(items, pick) == items,
    decreases items.len(),
{
    if items.len() > 0 {
        lemma_all_picked(items.drop_last(), pick);
        assert(pick(items.last()));
        assert(items.drop_last().push(items.last()) =~= items);
    } else {
        assert(items =~= Seq::empty());
    }
}

proof fn lemma_same_pick<V>(items: Seq<V>, a: spec_fn(V) -> bool, b: spec_fn(V) -> bool)
    requires
        forall|v: V| #[trigger] a(v) == b(v),
    ensures
        model::picked(items, a) == model::picked(items, b),
    decreases items.len(),
{
    if items.len() > 0 {
        lemma_same_pick(items.drop_last(), a, b);
        assert(a(items.last()) == b(items.last()));
    }
}

/// A row shows the cookie by its name and the start of its value, where it goes, and every attribute
/// that it has and none that it has not, last when it expires.
pub proof fn law_rows_show_their_cookies(c: CookieInfo, r: String)
    requires
        call_ensures(cookie_row, (&c,), r),
    ensures
        ({
            let cut = |t: Seq<char>, n: nat|
                if t.len() <= n {
                    t
                } else {
                    t.take(n as int)
                };
            let shown = text::one_line(
                if c.value@.len() > 40 {
                    c.value@.take(40).push('…')
                } else {
                    c.value@
                },
            );
            let flags = cookie_flags(c@);
            &&& r@ == cut(text::one_line(c.name@), 200) + " = "@ + shown + " ["@ + cut(
                text::one_line(c.domain@),
                200,
            ) + cut(text::one_line(c.path@), 200) + "] "@ + text::joined(flags, ","@)
            &&& c.secure <==> flags.contains("secure"@)
            &&& c.http_only <==> flags.contains("httpOnly"@)
            &&& c.host_only <==> flags.contains("hostOnly"@)
            &&& c.same_site == SameSite::Strict <==> flags.contains("sameSite=strict"@)
            &&& c.same_site == SameSite::Lax <==> flags.contains("sameSite=lax"@)
            &&& c.same_site == SameSite::Unrestricted <==> flags.contains("sameSite=none"@)
            &&& c.partition_key matches Some(key) ==> exists|i: int|
                0 <= i < flags.len() && #[trigger] flags[i] == "partitioned="@ + cut(
                    text::one_line(key.top_level_site@),
                    200,
                ) + (if key.has_cross_site_ancestor {
                    ",xsite"@
                } else {
                    Seq::empty()
                })
            &&& c.expiration matches Some(t) ==> flags.last() == "expires="@ + text::signed_decimal(
                t as int,
            )
            &&& c.expiration is None ==> flags.last() == "session"@
        }),
{
    reveal_strlit("secure");
    reveal_strlit("httpOnly");
    reveal_strlit("hostOnly");
    reveal_strlit("sameSite=strict");
    reveal_strlit("sameSite=lax");
    reveal_strlit("sameSite=none");
    reveal_strlit("session");
    assert("secure"@.len() == 6);
    assert("httpOnly"@.len() == 8);
    assert("hostOnly"@.len() == 8);
    assert("sameSite=strict"@.len() == 15);
    assert("sameSite=lax"@.len() == 12);
    assert("sameSite=none"@.len() == 13);
    assert("session"@.len() == 7);
    assert("httpOnly"@[1] != "hostOnly"@[1]);
    reveal_strlit("sameSite=");
    reveal_strlit("strict");
    reveal_strlit("lax");
    reveal_strlit("none");
    reveal_strlit("partitioned=");
    reveal_strlit("expires=");
    reveal_strlit(",xsite");
    assert("sameSite="@ + "strict"@ =~= "sameSite=strict"@);
    assert("sameSite="@ + "lax"@ =~= "sameSite=lax"@);
    assert("sameSite="@ + "none"@ =~= "sameSite=none"@);
    let f1 = push_if(Seq::empty(), c.secure, "secure"@);
    let f2 = push_if(f1, c.http_only, "httpOnly"@);
    let f3 = push_if(f2, c.host_only, "hostOnly"@);
    let f4 = match same_site_name(c.same_site) {
        Some(name) => f3.push("sameSite="@ + name),
        None => f3,
    };
    let flags = cookie_flags(c@);
    assert("secure"@[0] == 's' && "httpOnly"@[0] == 'h' && "hostOnly"@[0] == 'h');
    assert("sameSite=strict"@[1] == 'a' && "sameSite=lax"@[1] == 'a' && "sameSite=none"@[1] == 'a');
    assert("secure"@[1] == 'e');
    lemma_flag_starts(c);
    if c.secure {
        assert(flags[0] == "secure"@);
    }
    if c.http_only {
        assert(flags[f1.len() as int] == "httpOnly"@);
    }
    if c.host_only {
        assert(flags[f2.len() as int] == "hostOnly"@);
    }
    if c.same_site != SameSite::Unspecified {
        assert(flags[f3.len() as int] == "sameSite="@ + same_site_name(c.same_site)->0);
    }
    if let Some(key) = c.partition_key {
        assert(flags[f4.len() as int] == "partitioned="@ + text::clipped(
            text::one_line(key.top_level_site@),
            200,
        ) + (if key.has_cross_site_ancestor {
            ",xsite"@
        } else {
            Seq::empty()
        }));
    }
}

/// Each flag is one of those that the cookie has.
proof fn lemma_flag_starts(c: CookieInfo)
    ensures
        forall|i: int|
            0 <= i < cookie_flags(c@).len() ==> {
                let f = #[trigger] cookie_flags(c@)[i];
                ||| c.secure && f == "secure"@
                ||| c.http_only && f == "httpOnly"@
                ||| c.host_only && f == "hostOnly"@
                ||| c.same_site == SameSite::Strict && f == "sameSite="@ + "strict"@
                ||| c.same_site == SameSite::Lax && f == "sameSite="@ + "lax"@
                ||| c.same_site == SameSite::Unrestricted && f == "sameSite="@ + "none"@
                ||| f.len() > 0 && (f[0] == 'p' || f[0] == 'e')
                ||| c.expiration is None && f == "session"@
            },
{
    reveal_strlit("partitioned=");
    reveal_strlit("expires=");
    assert("partitioned="@[0] == 'p' && "expires="@[0] == 'e');
}

/// A deletion says how many cookies of which name are gone.
pub proof fn law_deletions_are_told(name: &str, reply: Reply<DeleteData>, r: Result<CommandOutput, WebPilotError>)
    requires
        call_ensures(delete, (name, reply), r),
    ensures
        r is Ok <==> (reply matches Reply::Data(d) && d.success),
        reply matches Reply::Data(d) ==> d.success ==> (r->Ok_0 matches CommandOutput::Message(m)
            && m@ == "Deleted "@ + text::decimal(
            if d.deleted is Some {
                d.deleted->0 as nat
            } else {
                1nat
            },
        ) + " cookie(s) named '"@ + name@ + "'"@),
        reply matches Reply::Error(e) ==> r->Err_0@ == e@,
        reply matches Reply::Data(d) ==> (!d.success && d.error is Some ==> r->Err_0@
            == d.error->0@),
{
}

/// Setting a cookie is told where it was set, and fails where it was not.
pub proof fn law_settings_are_told(d: Done, r: Result<CommandOutput, WebPilotError>)
    requires
        call_ensures(set, (Reply::Data(d),), r),
    ensures
        r is Ok <==> d.success,
        r matches Ok(o) ==> (o matches CommandOutput::Message(m) && m@ == "Cookie set"@),
{
}

} // verus!
