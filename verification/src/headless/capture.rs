//! What a page shows: its elements, its text, a picture, a document.
use crate::codec;
use crate::codec::base64_decode;
use crate::headless;
use crate::headless::{array_of, entries_at, extract_dom, message, Failure, FailureView};
use crate::json;
use crate::json::{Json, JsonView};
use crate::model;
use crate::text;
use crate::text::push_decimal;
use vstd::prelude::*;
use vstd::string::StringExecFns;

verus! {

broadcast use json::group_json_views;

/// What is asked for.
#[derive(Debug, PartialEq, Eq)]
pub struct CaptureFlags {
    pub dom: bool,
    pub screenshot: bool,
    pub text: bool,
    pub accessibility: bool,
    /// Shows in the picture which element is which.
    pub annotate: bool,
    /// Tells where the elements stand.
    pub bounds: bool,
    /// Tells which elements are covered.
    pub occlusion: bool,
    /// Takes a picture of more than is on the screen.
    pub full_page: bool,
    pub pdf: bool,
}

/// What is done.
#[derive(Debug, Clone, Copy, PartialEq, Eq, Structural)]
pub struct CapturePlan {
    pub dom: bool,
    pub bounds: bool,
    pub occlusion: bool,
    pub text: bool,
    pub screenshot: bool,
    pub annotate: bool,
    pub pdf: bool,
}

/// What is done for what is asked. The elements are looked at where nothing else is asked for, and
/// a picture that tells elements apart takes both.
pub open spec fn planned(flags: CaptureFlags) -> CapturePlan {
    CapturePlan {
        dom: flags.dom || flags.annotate || (!flags.screenshot && !flags.text
            && !flags.accessibility),
        bounds: flags.bounds || flags.annotate,
        occlusion: flags.occlusion,
        text: flags.text,
        screenshot: flags.screenshot || flags.annotate,
        annotate: flags.annotate,
        pdf: flags.pdf,
    }
}

/// What is done for what is asked; marks on elements are only on the screen, so not on a picture
/// of more.
pub fn plan(flags: &CaptureFlags) -> (r: Result<CapturePlan, Failure>)
    ensures
        match r {
            Ok(p) => !(flags.annotate && flags.full_page) && p == planned(*flags),
            Err(e) => flags.annotate && flags.full_page && e@ == FailureView::Plain(
                "--annotate and --full-page cannot be combined. Annotations are viewport-only."@,
            ),
        },
{
    if flags.annotate && flags.full_page {
        return Err(
            Failure::Plain(
                "--annotate and --full-page cannot be combined. Annotations are viewport-only.".to_owned(),
            ),
        );
    }
    Ok(
        CapturePlan {
            dom: flags.dom || flags.annotate || (!flags.screenshot && !flags.text
                && !flags.accessibility),
            bounds: flags.bounds || flags.annotate,
            occlusion: flags.occlusion,
            text: flags.text,
            screenshot: flags.screenshot || flags.annotate,
            annotate: flags.annotate,
            pdf: flags.pdf,
        },
    )
}

/// The message that asks for the elements.
pub fn dom_message(plan: CapturePlan) -> (r: Json)
    ensures
        r@ == headless::extract_message(
            JsonView::object().with("bounds"@, JsonView::Bool(plan.bounds)).with(
                "occlusion"@,
                JsonView::Bool(plan.occlusion),
            ),
        ),
{
    extract_dom(
        Json::object().with("bounds", Json::Bool(plan.bounds)).with(
            "occlusion",
            Json::Bool(plan.occlusion),
        ),
    )
}

/// The fields of one object put over those of another.
pub open spec fn merged(out: JsonView, found: JsonView) -> JsonView {
    match (out, found) {
        (JsonView::Object(a), JsonView::Object(b)) => JsonView::Object(a.union_prefer_right(b)),
        _ => out,
    }
}

/// The map of the first fields, put over another map.
proof fn lemma_merge_step(a: Map<Seq<char>, JsonView>, fields: Seq<(String, Json)>, i: int)
    requires
        0 <= i < fields.len(),
    ensures
        a.union_prefer_right(json::field_map(fields.take(i))).insert(
            fields[i].0@,
            fields[i].1@,
        ) == a.union_prefer_right(json::field_map(fields.take(i + 1))),
{
    let before = json::field_map(fields.take(i));
    json::lemma_field_map_push(fields.take(i), fields[i]);
    assert(fields.take(i + 1) =~= fields.take(i).push(fields[i]));
    assert(a.union_prefer_right(before).insert(fields[i].0@, fields[i].1@)
        =~= a.union_prefer_right(json::field_map(fields.take(i + 1))));
}

/// Puts the fields of one object over those of another; anything but an object has none.
pub fn merge(out: Json, found: &Json) -> (r: Json)
    requires
        out@ is Object,
    ensures
        r@ == merged(out@, found@),
{
    let mut out = out;
    if let Json::Object(fields) = found {
        let ghost a = out@->Object_0;
        proof {
            json::lemma_object_view(*fields);
            assert(fields@.take(0) =~= Seq::empty());
            assert(json::field_map(fields@.take(0)) =~= Map::empty());
            assert(a.union_prefer_right(json::field_map(fields@.take(0))) =~= a);
        }
        for i in 0..fields.len()
            invariant
                out@ == JsonView::Object(
                    a.union_prefer_right(json::field_map(fields@.take(i as int))),
                ),
        {
            proof {
                lemma_merge_step(a, fields@, i as int);
            }
            out = out.with(fields[i].0.as_str(), fields[i].1.copy());
        }
        assert(fields@.take(fields@.len() as int) =~= fields@);
    }
    out
}

/// The answer with the page's text, where there is one.
pub open spec fn with_text(out: JsonView, found: JsonView) -> JsonView {
    match found.get_str("text"@) {
        Some(t) => out.with("text_content"@, JsonView::Str(t)),
        None => out,
    }
}

/// Puts the page's text into the answer.
pub fn add_text(out: Json, found: &Json) -> (r: Json)
    ensures
        r@ == with_text(out@, found@),
{
    match found.get_str("text") {
        Some(t) => out.with("text_content", Json::string(t)),
        None => out,
    }
}

/// The mark that shows which element is which: only of one that is on the screen and of which is
/// known where it stands.
pub open spec fn mark(element: JsonView) -> Option<JsonView> {
    let on_screen = match element.get("in_viewport"@) {
        Some(v) => v.as_bool() == Some(true),
        None => false,
    };
    if !on_screen {
        None
    } else {
        match element.get("bounds"@) {
            None => None,
            Some(b) => match (
                element.get("index"@),
                b.get("x"@),
                b.get("y"@),
                b.get("w"@),
                b.get("h"@),
            ) {
                (Some(index), Some(x), Some(y), Some(w), Some(h)) => Some(
                    JsonView::object().with("index"@, index).with("x"@, x).with("y"@, y).with(
                        "w"@,
                        w,
                    ).with("h"@, h),
                ),
                _ => None,
            },
        }
    }
}

fn mark_of(element: &Json) -> (r: Option<Json>)
    ensures
        json::json_opt(r) == mark(element@),
{
    let on_screen = match element.get("in_viewport") {
        Some(v) => match v.as_bool() {
            Some(b) => b,
            None => false,
        },
        None => false,
    };
    if !on_screen {
        return None;
    }
    match element.get("bounds") {
        None => None,
        Some(b) => match (
            element.get("index"),
            b.get("x"),
            b.get("y"),
            b.get("w"),
            b.get("h"),
        ) {
            (Some(index), Some(x), Some(y), Some(w), Some(h)) => Some(
                Json::object().with("index", index.copy()).with("x", x.copy()).with(
                    "y",
                    y.copy(),
                ).with("w", w.copy()).with("h", h.copy()),
            ),
            _ => None,
        },
    }
}

/// The marks of elements, in order.
pub open spec fn marks(elements: Seq<JsonView>) -> Seq<JsonView>
    decreases elements.len(),
{
    if elements.len() == 0 {
        Seq::empty()
    } else {
        let before = marks(elements.drop_last());
        match mark(elements.last()) {
            Some(m) => before.push(m),
            None => before,
        }
    }
}

/// The message that puts marks on the elements; `None` where there is nothing to mark.
pub fn annotations(out: &Json) -> (r: Option<Json>)
    ensures
        json::json_opt(r) == ({
            let found = marks(headless::list_at(out@, "elements"@));
            if found.len() == 0 {
                None
            } else {
                Some(
                    headless::plain_message("addAnnotations"@).with(
                        "elements"@,
                        JsonView::Array(found),
                    ),
                )
            }
        }),
{
    let elements = entries_at(out, "elements");
    let ghost all = model::each(elements@);
    let mut found: Vec<Json> = Vec::new();
    proof {
        assert(all.take(0) =~= Seq::empty());
        assert(model::each(found@) =~= Seq::empty());
    }
    for i in 0..elements.len()
        invariant
            all == model::each(elements@),
            model::each(found@) == marks(all.take(i as int)),
    {
        proof {
            assert(all.take(i + 1).drop_last() =~= all.take(i as int));
            assert(all.take(i + 1).last() == elements@[i as int]@);
        }
        if let Some(m) = mark_of(&elements[i]) {
            proof {
                model::lemma_each_push(found@, m);
            }
            found.push(m);
        }
    }
    assert(all.take(elements@.len() as int) =~= all);
    if found.len() == 0 {
        None
    } else {
        Some(message("addAnnotations").with("elements", array_of(found)))
    }
}

/// The name of a file for what was taken at a time.
pub open spec fn capture_name(millis: nat, ending: Seq<char>) -> Seq<char> {
    "capture_"@ + text::decimal(millis) + "."@ + ending
}

/// The name of a file for what was taken at a time.
pub fn file_name(millis: u128, ending: &str) -> (r: String)
    ensures
        r@ == capture_name(millis as nat, ending@),
{
    let mut name = "capture_".to_owned();
    push_decimal(&mut name, millis);
    name.concat(".").concat(ending)
}

/// The bytes of a picture or a document, which come as text.
pub fn decode(data: &str) -> (r: Result<Vec<u8>, Failure>)
    ensures
        match codec::base64_bytes(data@) {
            Ok(bytes) => r is Ok && r->Ok_0@ == bytes,
            Err(reason) => r is Err && r->Err_0@ == FailureView::Plain(reason),
        },
{
    match base64_decode(data) {
        Ok(bytes) => Ok(bytes),
        Err(reason) => Err(Failure::Plain(reason)),
    }
}

/// How a document is printed.
pub fn pdf_params() -> (r: Json)
    ensures
        r@ == JsonView::object().with("landscape"@, JsonView::Bool(false)).with(
            "printBackground"@,
            JsonView::Bool(true),
        ).with("preferCSSPageSize"@, JsonView::Bool(true)),
{
    Json::object().with("landscape", Json::Bool(false)).with(
        "printBackground",
        Json::Bool(true),
    ).with("preferCSSPageSize", Json::Bool(true))
}

/// The text of a printed document.
pub fn pdf_data(answer: &Json) -> (r: Result<String, Failure>)
    ensures
        headless::outcome(r) == (match answer@.get_str("data"@) {
            Some(d) => Ok(d),
            None => Err(FailureView::Plain("PDF generation failed: no data returned"@)),
        }),
{
    match answer.get_str("data") {
        Some(d) => Ok(d.to_owned()),
        None => Err(Failure::Plain("PDF generation failed: no data returned".to_owned())),
    }
}

/// What was found, as far as it was asked for.
pub struct Findings {
    pub dom: Option<Json>,
    pub text: Option<Json>,
    pub screenshot_path: Option<String>,
    pub pdf_path: Option<String>,
}

/// The object with a path in it, where there is one.
pub open spec fn with_path(out: JsonView, key: Seq<char>, path: Option<Seq<char>>) -> JsonView {
    match path {
        Some(p) => out.with(key, JsonView::Str(p)),
        None => out,
    }
}

/// The answer: the fields that describe the elements, the text, and where the files are.
pub open spec fn answer(f: Findings) -> JsonView {
    let out = match f.dom {
        Some(d) => merged(JsonView::object(), d@),
        None => JsonView::object(),
    };
    let out = match f.text {
        Some(t) => with_text(out, t@),
        None => out,
    };
    with_path(
        with_path(out, "screenshot_path"@, model::maybe(f.screenshot_path)),
        "pdf_path"@,
        model::maybe(f.pdf_path),
    )
}

/// The answer: the fields that describe the elements, the text, and where the files are.
pub fn assemble(f: Findings) -> (r: Json)
    ensures
        r@ == answer(f),
{
    let mut out = Json::object();
    if let Some(d) = &f.dom {
        out = merge(out, d);
    }
    if let Some(t) = &f.text {
        out = add_text(out, t);
    }
    if let Some(p) = &f.screenshot_path {
        out = out.with("screenshot_path", Json::string(p.as_str()));
    }
    if let Some(p) = &f.pdf_path {
        out = out.with("pdf_path", Json::string(p.as_str()));
    }
    out
}

/// Whether a person is shown the elements: where there are any.
pub fn shows_elements(out: &Json) -> (r: bool)
    ensures
        r == (headless::list_at(out@, "elements"@).len() > 0),
{
    entries_at(out, "elements").len() > 0
}

/// The line for a file, where there is one.
pub open spec fn file_line(out: JsonView, key: Seq<char>, label: Seq<char>) -> Seq<Seq<char>> {
    match out.get_str(key) {
        Some(p) => seq![label + p],
        None => Seq::empty(),
    }
}

/// The lines that tell a person where the files are.
pub fn file_lines(out: &Json) -> (r: Vec<String>)
    ensures
        text::texts(r@) == file_line(out@, "screenshot_path"@, "Screenshot: "@) + file_line(
            out@,
            "pdf_path"@,
            "PDF: "@,
        ),
{
    let mut lines: Vec<String> = Vec::new();
    assert(text::texts(lines@) =~= Seq::empty());
    if let Some(p) = out.get_str("screenshot_path") {
        let line = "Screenshot: ".to_owned().concat(p);
        proof {
            text::lemma_texts_push(lines@, line);
        }
        lines.push(line);
    }
    let ghost first = text::texts(lines@);
    assert(first =~= file_line(out@, "screenshot_path"@, "Screenshot: "@));
    if let Some(p) = out.get_str("pdf_path") {
        let line = "PDF: ".to_owned().concat(p);
        proof {
            text::lemma_texts_push(lines@, line);
        }
        lines.push(line);
    }
    assert(text::texts(lines@) =~= first + file_line(out@, "pdf_path"@, "PDF: "@));
    lines
}

/// Something is always looked at, unless only what the tree of the page says to assistive tools or
/// a printed document was asked for.
pub proof fn law_something_is_captured(flags: CaptureFlags)
    ensures
        planned(flags).dom || planned(flags).text || planned(flags).screenshot
            || flags.accessibility,
        flags.annotate ==> planned(flags).dom && planned(flags).bounds
            && planned(flags).screenshot,
{
}

/// Only what is on the screen is marked, and nothing is marked more often than it is found.
pub proof fn law_marks_are_on_screen(elements: Seq<JsonView>)
    ensures
        marks(elements).len() <= elements.len(),
        (forall|i: int| 0 <= i < elements.len() ==> mark(#[trigger] elements[i]) is None)
            ==> marks(elements).len() == 0,
    decreases elements.len(),
{
    if elements.len() > 0 {
        let front = elements.drop_last();
        law_marks_are_on_screen(front);
        if forall|i: int| 0 <= i < elements.len() ==> mark(#[trigger] elements[i]) is None {
            assert forall|i: int| 0 <= i < front.len() implies mark(#[trigger] front[i]) is None by {
                assert(elements[i] == front[i]);
            }
        }
    }
}

/// What is looked at is what is asked for: the elements also where nothing else is, and a picture that
/// tells elements apart takes the elements, where they stand, and the picture. Such a picture is only
/// of what is on the screen.
pub proof fn law_what_is_asked_for_is_captured(flags: CaptureFlags, r: Result<CapturePlan, Failure>)
    requires
        call_ensures(plan, (&flags,), r),
    ensures
        r is Err <==> flags.annotate && flags.full_page,
        r matches Ok(p) ==> {
            &&& p.dom <==> flags.dom || flags.annotate || !(flags.screenshot || flags.text
                || flags.accessibility)
            &&& p.bounds <==> flags.bounds || flags.annotate
            &&& p.screenshot <==> flags.screenshot || flags.annotate
            &&& p.text == flags.text
            &&& p.occlusion == flags.occlusion
            &&& p.annotate == flags.annotate
            &&& p.pdf == flags.pdf
        },
{
}

/// The page is asked for its elements with what is to be told of them, each under its name; a document
/// is printed upright, with its background, on pages of its own size.
pub proof fn law_pages_are_asked(p: CapturePlan, m: Json, pdf: Json)
    requires
        call_ensures(dom_message, (p,), m),
        call_ensures(pdf_params, (), pdf),
    ensures
        m@.get("type"@) == Some(JsonView::Str("extractDOM"@)),
        m@.get("options"@) matches Some(o) && o.get("bounds"@) == Some(JsonView::Bool(p.bounds))
            && o.get("occlusion"@) == Some(JsonView::Bool(p.occlusion)),
        pdf@.get("landscape"@) == Some(JsonView::Bool(false)),
        pdf@.get("printBackground"@) == Some(JsonView::Bool(true)),
        pdf@.get("preferCSSPageSize"@) == Some(JsonView::Bool(true)),
{
    reveal_strlit("type");
    reveal_strlit("options");
    assert("type"@.len() == 4);
    assert("options"@.len() == 7);
    reveal_strlit("bounds");
    reveal_strlit("occlusion");
    assert("bounds"@.len() == 6);
    assert("occlusion"@.len() == 9);
    reveal_strlit("landscape");
    reveal_strlit("printBackground");
    reveal_strlit("preferCSSPageSize");
    assert("landscape"@.len() == 9);
    assert("printBackground"@.len() == 15);
    assert("preferCSSPageSize"@.len() == 17);
}

/// The answer holds every field that describes the elements, the text of the page, and the files of the
/// picture and the document; a field that was not found is not there.
pub proof fn law_findings_make_the_answer(f: Findings, r: Json, key: Seq<char>)
    requires
        call_ensures(assemble, (f,), r),
    ensures
        ({
            let own = key == "text_content"@ || key == "screenshot_path"@ || key == "pdf_path"@;
            &&& !own ==> r@.get(key) == (match f.dom {
                Some(d) => d@.get(key),
                None => None,
            })
            &&& f.screenshot_path matches Some(p) ==> r@.get("screenshot_path"@) == Some(
                JsonView::Str(p@),
            )
            &&& f.pdf_path matches Some(p) ==> r@.get("pdf_path"@) == Some(JsonView::Str(p@))
            &&& f.text matches Some(t) ==> (t@.get("text"@) matches Some(JsonView::Str(s))
                ==> r@.get("text_content"@) == Some(JsonView::Str(s)))
            &&& f.dom is None && f.screenshot_path is None ==> r@.get("screenshot_path"@) is None
            &&& f.dom is None && f.pdf_path is None ==> r@.get("pdf_path"@) is None
            &&& f.dom is None && f.text is None ==> r@.get("text_content"@) is None
        }),
{
    reveal_strlit("text_content");
    reveal_strlit("screenshot_path");
    reveal_strlit("pdf_path");
    assert("text_content"@.len() == 12);
    assert("screenshot_path"@.len() == 15);
    assert("pdf_path"@.len() == 8);
}

/// Fields put over others take their place, and leave the rest as it was.
pub proof fn law_fields_are_put_over_others(out: Json, found: Json, r: Json, key: Seq<char>)
    requires
        out@ is Object,
        call_ensures(merge, (out, &found), r),
    ensures
        r@.get(key) == (match found@.get(key) {
            Some(v) => Some(v),
            None => out@.get(key),
        }),
{
}

/// Every element that is on the screen and of which is known where it stands is marked, with its number
/// and place, and no other is; the marks keep the elements' order.
pub proof fn law_marks_show_the_elements(elements: Seq<JsonView>) -> (at: Seq<int>)
    ensures
        at.len() == marks(elements).len(),
        forall|i: int, j: int| 0 <= i < j < at.len() ==> at[i] < at[j],
        forall|i: int|
            0 <= i < at.len() ==> 0 <= #[trigger] at[i] < elements.len() && ({
                let el = elements[at[i]];
                let m = marks(elements)[i];
                &&& el.get("in_viewport"@) == Some(JsonView::Bool(true))
                &&& m.get("index"@) is Some && m.get("index"@) == el.get("index"@)
                &&& el.get("bounds"@) matches Some(b) && {
                    &&& m.get("x"@) is Some && m.get("x"@) == b.get("x"@)
                    &&& m.get("y"@) is Some && m.get("y"@) == b.get("y"@)
                    &&& m.get("w"@) is Some && m.get("w"@) == b.get("w"@)
                    &&& m.get("h"@) is Some && m.get("h"@) == b.get("h"@)
                }
            }),
        forall|k: int|
            0 <= k < elements.len() ==> (at.contains(k) <==> {
                let el = #[trigger] elements[k];
                &&& el.get("in_viewport"@) == Some(JsonView::Bool(true))
                &&& el.get("index"@) is Some
                &&& el.get("bounds"@) matches Some(b) && b.get("x"@) is Some && b.get("y"@) is Some
                    && b.get("w"@) is Some && b.get("h"@) is Some
            }),
    decreases elements.len(),
{
    reveal_strlit("index");
    reveal_strlit("x");
    reveal_strlit("y");
    reveal_strlit("w");
    reveal_strlit("h");
    assert("index"@.len() == 5);
    assert("x"@.len() == 1);
    assert("y"@.len() == 1);
    assert("w"@.len() == 1);
    assert("h"@.len() == 1);
    assert("x"@[0] != "y"@[0]);
    assert("x"@[0] != "w"@[0]);
    assert("x"@[0] != "h"@[0]);
    assert("y"@[0] != "w"@[0]);
    assert("y"@[0] != "h"@[0]);
    assert("w"@[0] != "h"@[0]);
    if elements.len() == 0 {
        Seq::empty()
    } else {
        let front = elements.drop_last();
        let before = law_marks_show_the_elements(front);
        let last = elements.len() - 1;
        let marked = mark(elements.last()) is Some;
        let at = if marked {
            before.push(last)
        } else {
            before
        };
        assert forall|i: int| 0 <= i < before.len() implies front[#[trigger] before[i]]
            == elements[before[i]] by {
        }
        assert forall|k: int| 0 <= k < elements.len() implies (at.contains(k) <==> {
            let el = #[trigger] elements[k];
            &&& el.get("in_viewport"@) == Some(JsonView::Bool(true))
            &&& el.get("index"@) is Some
            &&& el.get("bounds"@) matches Some(b) && b.get("x"@) is Some && b.get("y"@) is Some
                && b.get("w"@) is Some && b.get("h"@) is Some
        }) by {
            if k < last {
                assert(front[k] == elements[k]);
                if before.contains(k) {
                    let i = choose|i: int| 0 <= i < before.len() && before[i] == k;
                    assert(at[i] == k);
                }
                if at.contains(k) {
                    let i = choose|i: int| 0 <= i < at.len() && at[i] == k;
                    assert(before[i] == k);
                }
            } else {
                if marked {
                    assert(at[before.len() as int] == k);
                } else if at.contains(k) {
                    let i = choose|i: int| 0 <= i < at.len() && at[i] == k;
                    assert(before[i] < last);
                }
            }
        }
        at
    }
}

/// The page is told of the marks as they are, and of none where there is none.
pub proof fn law_marks_are_put_on_the_page(out: Json, elements: Seq<JsonView>, r: Option<Json>)
    requires
        out@.get("elements"@) == Some(JsonView::Array(elements)),
        call_ensures(annotations, (&out,), r),
    ensures
        r is Some <==> marks(elements).len() > 0,
        r matches Some(m) ==> m@.get("type"@) == Some(JsonView::Str("addAnnotations"@)) && m@.get(
            "elements"@,
        ) == Some(JsonView::Array(marks(elements))),
{
    reveal_strlit("type");
    reveal_strlit("elements");
    assert("type"@.len() == 4);
    assert("elements"@.len() == 8);
}

/// A file is named after the time and what it is; the files are told to a person, each on a line; a
/// document that came without data fails.
pub proof fn law_files_are_named_and_told(
    millis: u128,
    ending: &str,
    name: String,
    out: Json,
    lines: Vec<String>,
    answer: Json,
    data: Result<String, Failure>,
    shows: bool,
)
    requires
        call_ensures(file_name, (millis, ending), name),
        call_ensures(file_lines, (&out,), lines),
        call_ensures(pdf_data, (&answer,), data),
        call_ensures(shows_elements, (&out,), shows),
    ensures
        name@ == "capture_"@ + text::decimal(millis as nat) + "."@ + ending@,
        out@.get("screenshot_path"@) matches Some(JsonView::Str(p)) ==> lines@.len() > 0
            && lines@[0]@ == "Screenshot: "@ + p,
        out@.get("pdf_path"@) matches Some(JsonView::Str(p)) ==> lines@.len() > 0
            && lines@.last()@ == "PDF: "@ + p,
        !(out@.get("screenshot_path"@) matches Some(JsonView::Str(_))) && !(out@.get(
            "pdf_path"@,
        ) matches Some(JsonView::Str(_))) ==> lines@.len() == 0,
        match answer@.get("data"@) {
            Some(JsonView::Str(d)) => data matches Ok(got) && got@ == d,
            _ => data is Err,
        },
        shows <==> (out@.get("elements"@) matches Some(JsonView::Array(list)) && list.len() > 0),
{
    text::lemma_texts_index(lines@);
    let all = text::texts(lines@);
    if lines@.len() > 0 {
        assert(all[0] == lines@[0]@);
        assert(all[lines@.len() - 1] == lines@.last()@);
    }
}

/// A picture is the bytes that its text stands for, or the reason why it stands for none. The page's
/// text goes into the answer and changes nothing else of it.
pub proof fn law_pictures_and_texts(
    data: &str,
    bytes: Result<Vec<u8>, Failure>,
    out: Json,
    found: Json,
    r: Json,
    key: Seq<char>,
)
    requires
        out@ is Object,
        call_ensures(decode, (data,), bytes),
        call_ensures(add_text, (out, &found), r),
    ensures
        bytes matches Ok(b) ==> codec::base64_bytes(data@) == Ok::<Seq<u8>, Seq<char>>(b@),
        bytes matches Err(e) ==> (e matches Failure::Plain(m) && codec::base64_bytes(data@) == Err::<
            Seq<u8>,
            Seq<char>,
        >(m@)),
        found@.get("text"@) matches Some(JsonView::Str(t)) ==> r@.get("text_content"@) == Some(
            JsonView::Str(t),
        ),
        !(found@.get("text"@) matches Some(JsonView::Str(_))) ==> r@ == out@,
        key != "text_content"@ ==> r@.get(key) == out@.get(key),
{
}

} // verus!
