//! `fetch`: a request with the browser's own session.
use crate::error;
use crate::error::{ErrorView, WebPilotError};
use crate::json::{Json, JsonView};
use crate::model;
use crate::output::{CommandOutput, OutputView};
use crate::protocol;
use crate::protocol::{lift_error, Reply};
use crate::text;
use crate::text::{chars_of, debug_text, dec, from_chars, trim};
use vstd::prelude::*;
use vstd::string::StringExecFns;

verus! {

/// The arguments of `fetch`.
#[derive(Debug, PartialEq, Eq)]
pub struct FetchArgs {
    pub url: String,
    pub method: String,
    pub body: Option<String>,
    /// Each `NAME:VALUE`.
    pub headers: Vec<String>,
}

/// A header's name and value.
#[derive(Debug, PartialEq, Eq)]
pub struct Header {
    pub name: String,
    pub value: String,
}

impl View for Header {
    type V = (Seq<char>, Seq<char>);

    open spec fn view(&self) -> (Seq<char>, Seq<char>) {
        (self.name@, self.value@)
    }
}

/// The position of the first colon; the length where there is none.
pub open spec fn colon(s: Seq<char>) -> nat
    decreases s.len(),
{
    if s.len() == 0 || s[0] == ':' {
        0
    } else {
        1 + colon(s.drop_first())
    }
}

/// A header's name and value: what stands before and after its first colon, without the white
/// space around. None where there is no colon.
pub open spec fn header_parts(h: Seq<char>) -> Option<(Seq<char>, Seq<char>)> {
    if colon(h) < h.len() {
        Some(
            (
                text::trimmed(h.take(colon(h) as int)),
                text::trimmed(h.skip(colon(h) as int + 1)),
            ),
        )
    } else {
        None
    }
}

/// The first colon has none before it.
proof fn lemma_colon(s: Seq<char>, at: int)
    requires
        0 <= at <= s.len(),
        forall|i: int| 0 <= i < at ==> s[i] != ':',
        at < s.len() ==> s[at] == ':',
    ensures
        colon(s) == at,
    decreases at,
{
    if at > 0 {
        assert forall|i: int| 0 <= i < at - 1 implies s.drop_first()[i] != ':' by {
            assert(s[i + 1] != ':');
        }
        lemma_colon(s.drop_first(), at - 1);
    }
}

/// The error for a header without a colon.
pub open spec fn bad_header(h: Seq<char>) -> ErrorView {
    ErrorView::InvalidArgument("--header must be NAME:VALUE, got "@ + text::quoted(h))
}

/// Splits a header into its name and value.
pub fn parse_header(h: &str) -> (r: Result<Header, WebPilotError>)
    ensures
        error::outcome(r) == (match header_parts(h@) {
            Some(parts) => Ok(parts),
            None => Err(bad_header(h@)),
        }),
{
    let chars = chars_of(h);
    let mut at: usize = 0;
    while at < chars.len() && chars[at] != ':'
        invariant
            at <= chars@.len(),
            forall|i: int| 0 <= i < at ==> chars@[i] != ':',
        decreases chars@.len() - at,
    {
        at += 1;
    }
    proof {
        lemma_colon(chars@, at as int);
    }
    if at == chars.len() {
        return Err(
            WebPilotError::InvalidArgument {
                detail: "--header must be NAME:VALUE, got ".to_owned().concat(
                    debug_text(h).as_str(),
                ),
            },
        );
    }
    let mut name: Vec<char> = Vec::new();
    for i in 0..at
        invariant
            at < chars@.len(),
            name@ == chars@.take(i as int),
    {
        name.push(chars[i]);
        assert(name@ =~= chars@.take(i + 1));
    }
    let mut value: Vec<char> = Vec::new();
    for i in at + 1..chars.len()
        invariant
            at < chars@.len(),
            value@ == chars@.subrange(at + 1, i as int),
    {
        value.push(chars[i]);
        assert(value@ =~= chars@.subrange(at + 1, i + 1));
    }
    assert(value@ =~= chars@.skip(at + 1));
    Ok(
        Header {
            name: trim(from_chars(name.as_slice()).as_str()),
            value: trim(from_chars(value.as_slice()).as_str()),
        },
    )
}

/// What the headers of a request come to: all of them, or the error of the first that is none.
pub open spec fn headers_outcome(headers: Seq<Seq<char>>) -> Result<
    Seq<(Seq<char>, Seq<char>)>,
    ErrorView,
>
    decreases headers.len(),
{
    if headers.len() == 0 {
        Ok(Seq::empty())
    } else {
        match headers_outcome(headers.drop_last()) {
            Ok(parsed) => match header_parts(headers.last()) {
                Some(parts) => Ok(parsed.push(parts)),
                None => Err(bad_header(headers.last())),
            },
            Err(e) => Err(e),
        }
    }
}

/// An error among the first headers is the error of all of them.
proof fn lemma_first_error(headers: Seq<Seq<char>>, n: int)
    requires
        0 <= n <= headers.len(),
        headers_outcome(headers.take(n)) is Err,
    ensures
        headers_outcome(headers) == headers_outcome(headers.take(n)),
    decreases headers.len() - n,
{
    if n == headers.len() {
        assert(headers.take(n) =~= headers);
    } else {
        assert(headers.take(n + 1).drop_last() =~= headers.take(n));
        lemma_first_error(headers, n + 1);
    }
}

/// Splits the headers of a request.
pub fn parse_headers(headers: &Vec<String>) -> (r: Result<Vec<Header>, WebPilotError>)
    ensures
        match headers_outcome(text::texts(headers@)) {
            Ok(parsed) => r is Ok && model::each(r->Ok_0@) == parsed,
            Err(e) => r is Err && r->Err_0@ == e,
        },
{
    let ghost all = text::texts(headers@);
    let mut out: Vec<Header> = Vec::new();
    proof {
        text::lemma_texts_index(headers@);
        assert(all.take(0) =~= Seq::empty());
        assert(model::each(out@) =~= Seq::empty());
    }
    for i in 0..headers.len()
        invariant
            all == text::texts(headers@),
            all.len() == headers@.len(),
            headers_outcome(all.take(i as int)) is Ok,
            model::each(out@) == headers_outcome(all.take(i as int))->Ok_0,
    {
        proof {
            text::lemma_texts_index(headers@);
            assert(all.take(i + 1).drop_last() =~= all.take(i as int));
            assert(all.take(i + 1).last() == headers@[i as int]@);
        }
        match parse_header(headers[i].as_str()) {
            Ok(h) => {
                proof {
                    model::lemma_each_push(out@, h);
                }
                out.push(h);
            },
            Err(e) => {
                proof {
                    lemma_first_error(all, i + 1);
                }
                return Err(e);
            },
        }
    }
    assert(all.take(headers@.len() as int) =~= all);
    Ok(out)
}

/// The response to `fetch`.
pub struct FetchData {
    pub success: bool,
    pub status: Option<u16>,
    pub body: Option<String>,
    pub error: Option<WebPilotError>,
}

/// What `fetch` prints: the body, with the status in a note beside it. An unknown status is said to
/// be unknown.
pub open spec fn run_outcome(reply: Reply<FetchData>) -> Result<OutputView, ErrorView> {
    match reply {
        Reply::Data(d) => if d.success {
            let body = match d.body {
                Some(b) => b@,
                None => Seq::empty(),
            };
            Ok(
                OutputView::Content(
                    body,
                    JsonView::object().with("success"@, JsonView::Bool(true)).with(
                        "status"@,
                        match d.status {
                            Some(s) => JsonView::number(s as u64),
                            None => JsonView::Null,
                        },
                    ).with("body"@, JsonView::Str(body)),
                    Some(
                        match d.status {
                            Some(s) => "HTTP "@ + text::decimal(s as nat),
                            None => "HTTP status unknown"@,
                        },
                    ),
                ),
            )
        } else {
            Err(protocol::failure(model::maybe(d.error)))
        },
        _ => Err(protocol::no_data(reply)),
    }
}

/// What `fetch` prints.
pub fn run(reply: Reply<FetchData>) -> (r: Result<CommandOutput, WebPilotError>)
    ensures
        error::outcome(r) == run_outcome(reply),
{
    match reply.data() {
        Ok(d) => {
            let stdout = match d.body {
                Some(b) => b,
                None => String::new(),
            };
            let status = match d.status {
                Some(s) => Json::number(s as u64),
                None => Json::Null,
            };
            let note = match d.status {
                Some(s) => "HTTP ".to_owned().concat(dec(s as u64).as_str()),
                None => "HTTP status unknown".to_owned(),
            };
            let json = Json::object().with("success", Json::Bool(true)).with("status", status).with(
                "body",
                Json::string(stdout.as_str()),
            );
            lift_error(d.success, d.error, CommandOutput::Content { stdout, json, note: Some(note) })
        },
        Err(e) => Err(e),
    }
}

/// A header is parted at its first colon: what stands before it is the name, what stands behind it,
/// further colons and all, the value, both without white space around. A text without a colon is
/// refused.
pub proof fn law_headers_are_parted(name: Seq<char>, value: Seq<char>, h: Seq<char>)
    requires
        forall|i: int| 0 <= i < name.len() ==> name[i] != ':',
        forall|i: int| 0 <= i < h.len() ==> h[i] != ':',
    ensures
        header_parts(name + seq![':'] + value) == Some((text::trimmed(name), text::trimmed(value))),
        header_parts(h) is None,
{
    let s = name + seq![':'] + value;
    assert forall|i: int| 0 <= i < name.len() implies s[i] != ':' by {
        assert(s[i] == name[i]);
    }
    assert(s[name.len() as int] == ':');
    lemma_colon(s, name.len() as int);
    assert(s.take(name.len() as int) =~= name);
    assert(s.skip(name.len() as int + 1) =~= value);
    lemma_colon(h, h.len() as int);
}

/// The headers of a request are all of them, each parted, in their order; where one is no header,
/// the first such is what is told of.
pub proof fn law_all_headers_are_taken(headers: Seq<Seq<char>>)
    ensures
        headers_outcome(headers) is Ok <==> forall|i: int|
            0 <= i < headers.len() ==> header_parts(#[trigger] headers[i]) is Some,
        headers_outcome(headers) matches Ok(parsed) ==> parsed.len() == headers.len() && forall|
            i: int,
        |
            0 <= i < headers.len() ==> header_parts(#[trigger] headers[i]) == Some(parsed[i]),
        headers_outcome(headers) matches Err(e) ==> e is InvalidArgument && exists|i: int|
            {
                &&& 0 <= i < headers.len()
                &&& header_parts(#[trigger] headers[i]) is None
                &&& e == bad_header(headers[i])
                &&& forall|j: int| 0 <= j < i ==> header_parts(#[trigger] headers[j]) is Some
            },
    decreases headers.len(),
{
    if headers.len() > 0 {
        let rest = headers.drop_last();
        let n = headers.len() - 1;
        law_all_headers_are_taken(rest);
        if headers_outcome(rest) is Ok {
            assert forall|j: int| 0 <= j < n implies header_parts(#[trigger] headers[j]) is Some by {
                assert(headers[j] == rest[j]);
                assert(header_parts(rest[j]) is Some);
            }
            if let Ok(parsed) = headers_outcome(headers) {
                assert forall|i: int| 0 <= i < headers.len() implies header_parts(
                    #[trigger] headers[i],
                ) == Some(parsed[i]) by {
                    if i < n {
                        assert(headers[i] == rest[i]);
                        assert(header_parts(rest[i]) == Some(headers_outcome(rest)->Ok_0[i]));
                    }
                }
            } else {
                assert(header_parts(headers[n]) is None);
            }
        } else {
            let e = headers_outcome(rest)->Err_0;
            let i = choose|i: int|
                {
                    &&& 0 <= i < rest.len()
                    &&& header_parts(#[trigger] rest[i]) is None
                    &&& e == bad_header(rest[i])
                    &&& forall|j: int| 0 <= j < i ==> header_parts(#[trigger] rest[j]) is Some
                };
            assert(headers[i] == rest[i]);
            assert forall|j: int| 0 <= j < i implies header_parts(#[trigger] headers[j]) is Some by {
                assert(headers[j] == rest[j]);
                assert(header_parts(rest[j]) is Some);
            }
        }
    }
}

/// A fetch that succeeded prints the body that came and tells its status; one that did not is an
/// error.
pub proof fn law_fetched_is_printed(reply: Reply<FetchData>, r: Result<CommandOutput, WebPilotError>)
    requires
        call_ensures(run, (reply,), r),
    ensures
        r is Ok <==> (reply matches Reply::Data(d) && d.success),
        r matches Ok(o) ==> o matches CommandOutput::Content { stdout, json, note } && {
            let d = reply->Data_0;
            &&& d.body is Some ==> stdout@ == d.body->0@
            &&& d.body is None ==> stdout@.len() == 0
            &&& json@.get("body"@) == Some(JsonView::Str(stdout@))
            &&& json@.get("success"@) == Some(JsonView::Bool(true))
            &&& d.status matches Some(s) ==> json@.get("status"@) == Some(
                JsonView::Num(crate::json::NumberView::Unsigned(s as u64)),
            ) && note is Some && note->0@ == "HTTP "@ + text::decimal(s as nat)
            &&& d.status is None ==> json@.get("status"@) == Some(JsonView::Null) && note is Some
        },
        reply matches Reply::Error(e) ==> r->Err_0@ == e@,
        reply matches Reply::Data(d) ==> (!d.success && d.error is Some ==> r->Err_0@
            == d.error->0@),
{
    reveal_strlit("success");
    reveal_strlit("status");
    reveal_strlit("body");
    assert("success"@.len() == 7);
    assert("status"@.len() == 6);
    assert("body"@.len() == 4);
}

/// A header is split at its first colon, each side without the white space around it; one without a
/// colon is refused and shown. Of several headers all are split, in their order, or the first that
/// cannot be is told.
pub proof fn law_headers_are_read(
    name: Seq<char>,
    value: Seq<char>,
    h: &str,
    r: Result<Header, WebPilotError>,
    headers: Vec<String>,
    all: Result<Vec<Header>, WebPilotError>,
    i: int,
    one: &str,
    alone: Result<Header, WebPilotError>,
)
    requires
        forall|i: int| 0 <= i < name.len() ==> name[i] != ':',
        call_ensures(parse_header, (h,), r),
        call_ensures(parse_headers, (&headers,), all),
        0 <= i < headers@.len(),
        one@ == headers@[i]@,
        call_ensures(parse_header, (one,), alone),
    ensures
        h@ == name + seq![':'] + value ==> (r matches Ok(parts) && parts.name@ == text::trimmed(name)
            && parts.value@ == text::trimmed(value)),
        h@ == name ==> (r matches Err(WebPilotError::InvalidArgument { detail }) && text::has_suffix(
            detail@,
            text::quoted(h@),
        )),
        all matches Ok(parsed) ==> parsed@.len() == headers@.len() && (alone matches Ok(parts)
            && parsed@[i].name@ == parts.name@ && parsed@[i].value@ == parts.value@),
        alone is Err ==> all is Err,
{
    law_headers_are_parted(name, value, name);
    text::lemma_back("--header must be NAME:VALUE, got "@, text::quoted(h@));
    text::lemma_texts_index(headers@);
    law_all_headers_are_taken(text::texts(headers@));
    assert(text::texts(headers@)[i] == one@);
    if let Ok(parsed) = all {
        let views = model::each(parsed@);
        assert(header_parts(text::texts(headers@)[i]) == Some(views[i]));
        assert(views[i] == parsed@[i]@);
    }
}

} // verus!
