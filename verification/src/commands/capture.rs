//! `capture`: the state of the page.
use crate::codec;
use crate::codec::base64_decode;
use crate::error;
use crate::error::{ErrorView, WebPilotError};
use crate::json::{Json, JsonView};
use crate::model;
use crate::output::{CommandOutput, OutputView};
use crate::text;
use vstd::prelude::*;
use vstd::string::StringExecFns;

verus! {

/// What to capture.
#[derive(Debug, Clone, Copy, PartialEq, Eq, Structural)]
pub enum CaptureField {
    Dom,
    Screenshot,
    Text,
    Pdf,
    Accessibility,
}

/// The arguments of `capture`: what to capture, where to go first, and further options in their
/// wire form.
#[derive(Debug, PartialEq, Eq)]
pub struct CaptureArgs {
    pub fields: Vec<CaptureField>,
    pub url: Option<String>,
    pub opts: Json,
}

/// A snapshot of the page's elements, and the accessibility tree that came with it.
#[derive(Debug, PartialEq, Eq)]
pub struct Snapshot {
    pub wire: Json,
    pub accessibility_tree: Option<String>,
}

/// The response to `capture`. The scale of a screenshot is a JSON number.
#[derive(Debug, PartialEq, Eq)]
pub struct CaptureData {
    pub dom: Option<Snapshot>,
    pub screenshot_path: Option<String>,
    pub screenshot_width: Option<u32>,
    pub screenshot_height: Option<u32>,
    pub screenshot_scale: Option<Json>,
    pub screenshot_error: Option<String>,
    pub pdf_path: Option<String>,
    pub page_url: String,
    pub page_title: String,
}

/// The bytes of a PDF that arrived in base64.
pub fn pdf_bytes(b64: &str) -> (r: Result<Vec<u8>, WebPilotError>)
    ensures
        error::outcome(r) == (match codec::base64_bytes(b64@) {
            Ok(bytes) => Ok(bytes),
            Err(e) => Err(ErrorView::Other("Cannot decode PDF bytes: "@ + e)),
        }),
{
    match base64_decode(b64) {
        Ok(bytes) => Ok(bytes),
        Err(e) => Err(
            WebPilotError::Other {
                detail: "Cannot decode PDF bytes: ".to_owned().concat(e.as_str()),
            },
        ),
    }
}

/// An object with a field set to a text, where there is one.
pub open spec fn with_text(object: JsonView, key: Seq<char>, value: Option<Seq<char>>) -> JsonView {
    match value {
        Some(v) => object.with(key, JsonView::Str(v)),
        None => object,
    }
}

/// An object with a field set to a number, where there is one.
pub open spec fn with_number(object: JsonView, key: Seq<char>, value: Option<u32>) -> JsonView {
    match value {
        Some(v) => object.with(key, JsonView::number(v as u64)),
        None => object,
    }
}

/// Which of two values counts: the first, where there is one.
pub open spec fn first_of(a: Option<Seq<char>>, b: Option<Seq<char>>) -> Option<Seq<char>> {
    match a {
        Some(_) => a,
        None => b,
    }
}

/// The fields that tell of everything captured but the snapshot: where it was saved, or why not.
pub open spec fn extra_fields(
    d: CaptureData,
    ax_path: Option<Seq<char>>,
    pdf_written: Option<Seq<char>>,
) -> JsonView {
    let e1 = with_text(JsonView::object(), "accessibility_path"@, ax_path);
    let e2 = with_text(e1, "screenshot_path"@, model::maybe(d.screenshot_path));
    let e3 = with_text(e2, "pdf_path"@, first_of(model::maybe(d.pdf_path), pdf_written));
    let e4 = with_text(e3, "screenshot_error"@, model::maybe(d.screenshot_error));
    let e5 = with_number(e4, "screenshot_width"@, d.screenshot_width);
    let e6 = with_number(e5, "screenshot_height"@, d.screenshot_height);
    match d.screenshot_scale {
        Some(s) => e6.with("screenshot_scale"@, s@),
        None => e6,
    }
}

/// The fields with the page they are of, which a snapshot would otherwise tell.
pub open spec fn page_fields(extra: JsonView, url: Seq<char>, title: Seq<char>) -> JsonView {
    let with_url = extra.with("page_url"@, JsonView::Str(url));
    if title.len() == 0 {
        with_url
    } else {
        with_url.with("page_title"@, JsonView::Str(title))
    }
}

fn put_text(object: Json, key: &str, value: &Option<String>) -> (r: Json)
    ensures
        r@ == with_text(object@, key@, model::maybe(*value)),
{
    match value {
        Some(v) => object.with(key, Json::string(v.as_str())),
        None => object,
    }
}

fn put_number(object: Json, key: &str, value: Option<u32>) -> (r: Json)
    ensures
        r@ == with_number(object@, key@, value),
{
    match value {
        Some(v) => object.with(key, Json::number(v as u64)),
        None => object,
    }
}

/// The fields of everything captured. Where there is no snapshot they tell of the page too.
pub fn capture_fields(
    d: &CaptureData,
    ax_path: &Option<String>,
    pdf_written: &Option<String>,
) -> (r: Json)
    ensures
        ({
            let extra = extra_fields(*d, model::maybe(*ax_path), model::maybe(*pdf_written));
            r@ == if d.dom is Some {
                extra
            } else {
                page_fields(extra, d.page_url@, d.page_title@)
            }
        }),
{
    let mut extra = put_text(Json::object(), "accessibility_path", ax_path);
    extra = put_text(extra, "screenshot_path", &d.screenshot_path);
    extra =
    match &d.pdf_path {
        Some(_) => put_text(extra, "pdf_path", &d.pdf_path),
        None => put_text(extra, "pdf_path", pdf_written),
    };
    extra = put_text(extra, "screenshot_error", &d.screenshot_error);
    extra = put_number(extra, "screenshot_width", d.screenshot_width);
    extra = put_number(extra, "screenshot_height", d.screenshot_height);
    if let Some(s) = &d.screenshot_scale {
        extra = extra.with("screenshot_scale", s.copy());
    }
    if d.dom.is_none() {
        extra = extra.with("page_url", Json::string(d.page_url.as_str()));
        if !d.page_title.as_str().is_empty() {
            extra = extra.with("page_title", Json::string(d.page_title.as_str()));
        }
    }
    extra
}

/// What `capture` prints: the snapshot, without the accessibility tree that has a file of its own,
/// or the lines that show its fields.
pub fn run(d: CaptureData, extra: Json, lines: String) -> (r: CommandOutput)
    ensures
        r@ == (match d.dom {
            Some(s) => OutputView::Dom(s.wire@.without("accessibility_tree"@), extra@),
            None => OutputView::Data(extra@, lines@),
        }),
{
    match d.dom {
        Some(s) => CommandOutput::Dom { snapshot: s.wire.without("accessibility_tree"), extra },
        None => CommandOutput::Data { json: extra, human: lines },
    }
}

/// The fields of a capture tell each thing that was saved under its own name, and nothing that was
/// not: where a file is, why there is none, and how large the picture is. Of a page without a
/// snapshot they tell the address and the title.
pub proof fn law_captures_are_told(
    d: CaptureData,
    ax_path: Option<String>,
    pdf_written: Option<String>,
    r: Json,
)
    requires
        call_ensures(capture_fields, (&d, &ax_path, &pdf_written), r),
    ensures
        r@ is Object,
        r@.get("screenshot_path"@) == said(d.screenshot_path),
        r@.get("accessibility_path"@) == said(ax_path),
        r@.get("pdf_path"@) == if d.pdf_path is Some {
            said(d.pdf_path)
        } else {
            said(pdf_written)
        },
        r@.get("screenshot_error"@) == said(d.screenshot_error),
        r@.get("screenshot_width"@) == counted(d.screenshot_width),
        r@.get("screenshot_height"@) == counted(d.screenshot_height),
        d.screenshot_scale matches Some(s) ==> r@.get("screenshot_scale"@) == Some(s@),
        d.screenshot_scale is None ==> r@.get("screenshot_scale"@) is None,
        r@.get("page_url"@) == if d.dom is None {
            Some(JsonView::Str(d.page_url@))
        } else {
            None
        },
        r@.get("page_title"@) == if d.dom is None && d.page_title@.len() > 0 {
            Some(JsonView::Str(d.page_title@))
        } else {
            None
        },
{
    reveal_strlit("screenshot_path");
    reveal_strlit("accessibility_path");
    reveal_strlit("pdf_path");
    reveal_strlit("screenshot_error");
    reveal_strlit("screenshot_width");
    reveal_strlit("screenshot_height");
    reveal_strlit("screenshot_scale");
    reveal_strlit("page_url");
    reveal_strlit("page_title");
    assert("screenshot_path"@.len() == 15);
    assert("accessibility_path"@.len() == 18);
    assert("pdf_path"@.len() == 8);
    assert("screenshot_error"@.len() == 16);
    assert("screenshot_width"@.len() == 16);
    assert("screenshot_height"@.len() == 17);
    assert("screenshot_scale"@.len() == 16);
    assert("page_url"@.len() == 8);
    assert("page_title"@.len() == 10);
    assert("pdf_path"@[1] != "page_url"@[1]);
    assert("screenshot_error"@[11] != "screenshot_width"@[11]);
    assert("screenshot_error"@[11] != "screenshot_scale"@[11]);
    assert("screenshot_width"@[11] != "screenshot_scale"@[11]);
}

/// A text as the field that tells it; none where there is no text.
pub open spec fn said(t: Option<String>) -> Option<JsonView> {
    if t is Some {
        Some(JsonView::Str(t->0@))
    } else {
        None
    }
}

/// A number as the field that tells it; none where there is no number.
pub open spec fn counted(n: Option<u32>) -> Option<JsonView> {
    if n is Some {
        Some(JsonView::Num(crate::json::NumberView::Unsigned(n->0 as u64)))
    } else {
        None
    }
}

/// A snapshot is printed as it came, but for the accessibility tree; where there is none, the
/// fields are.
pub proof fn law_snapshots_are_printed(d: CaptureData, extra: Json, lines: String, r: CommandOutput)
    requires
        call_ensures(run, (d, extra, lines), r),
    ensures
        d.dom matches Some(s) ==> (r matches CommandOutput::Dom { snapshot, extra: told } && {
            &&& told@ == extra@
            &&& forall|key: Seq<char>|
                key != "accessibility_tree"@ ==> snapshot@.get(key) == s.wire@.get(key)
            &&& snapshot@.get("accessibility_tree"@) is None
        }),
        d.dom is None ==> (r matches CommandOutput::Data { json, human } && json@ == extra@ && human@
            == lines@),
{
}

/// The bytes of a document are what its base64 stands for, and what is no base64 is told.
pub proof fn law_documents_are_decoded(b64: &str, r: Result<Vec<u8>, WebPilotError>)
    requires
        call_ensures(pdf_bytes, (b64,), r),
    ensures
        r is Ok <==> codec::base64_bytes(b64@) is Ok,
        r matches Ok(bytes) ==> bytes@ == codec::base64_bytes(b64@)->Ok_0,
        r matches Err(e) ==> (e matches WebPilotError::Other { detail } && text::has_suffix(
            detail@,
            codec::base64_bytes(b64@)->Err_0,
        )),
{
    text::lemma_back("Cannot decode PDF bytes: "@, codec::base64_bytes(b64@)->Err_0);
}

} // verus!
