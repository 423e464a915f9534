//! `diff`: two snapshots or two screenshots, side by side.
use crate::codec;
use crate::codec::utf8_text;
use crate::error;
use crate::error::{ErrorView, WebPilotError};
use crate::json;
use crate::json::{Json, JsonView};
use crate::output::{CommandOutput, OutputView};
use crate::paths;
use crate::paths::extension_of;
use crate::text;
use crate::text::{chars_of, dec, same};
use crate::model;
use vstd::prelude::*;
use vstd::string::StringExecFns;

verus! {

/// The arguments of `diff`.
#[derive(Debug, PartialEq, Eq)]
pub struct DiffArgs {
    pub dom: bool,
    pub screenshot: bool,
    pub file_a: String,
    pub file_b: String,
}

/// The longest input, in bytes.
pub const MAX_DIFF_INPUT_BYTES: u64 = 536870912;

/// What a file holds.
#[derive(Debug, Clone, Copy, PartialEq, Eq, Structural)]
pub enum Kind {
    Dom,
    Screenshot,
}

/// A letter of the ASCII alphabet in lower case; any other character as it is.
pub open spec fn ascii_lower(c: char) -> char {
    if 65 <= (c as int) <= 90 {
        ((c as int) + 32) as char
    } else {
        c
    }
}

/// Whether a text is `wanted`, but for the case of the ASCII letters.
pub open spec fn is_like(s: Seq<char>, wanted: Seq<char>) -> bool {
    s.map_values(|c: char| ascii_lower(c)) == wanted
}

fn lower_char(c: char) -> (r: char)
    ensures
        r == ascii_lower(c),
{
    let n: u32 = c as u32;
    if 65 <= n && n <= 90 {
        ((n + 32) as u8) as char
    } else {
        c
    }
}

fn lower_text(s: &str) -> (r: String)
    ensures
        r@ == s@.map_values(|c: char| ascii_lower(c)),
{
    let chars = chars_of(s);
    let mut out = String::new();
    for i in 0..chars.len()
        invariant
            chars@ == s@,
            out@ == s@.map_values(|c: char| ascii_lower(c)).take(i as int),
    {
        out.push(lower_char(chars[i]));
        assert(out@ =~= s@.map_values(|c: char| ascii_lower(c)).take(i + 1));
    }
    assert(out@ =~= s@.map_values(|c: char| ascii_lower(c)));
    out
}

/// What a file holds, by its extension.
pub open spec fn kind_of(path: Seq<char>) -> Option<Kind> {
    match paths::extension(path) {
        Some(ext) => if is_like(ext, "json"@) {
            Some(Kind::Dom)
        } else if is_like(ext, "png"@) || is_like(ext, "jpg"@) || is_like(ext, "jpeg"@) {
            Some(Kind::Screenshot)
        } else {
            None
        },
        None => None,
    }
}

/// What a file holds, by its extension, whatever the case of its letters.
pub fn detect_kind(path: &str) -> (r: Option<Kind>)
    ensures
        r == kind_of(path@),
{
    match extension_of(path) {
        Some(ext) => {
            let ext = lower_text(ext.as_str());
            if same(ext.as_str(), "json") {
                Some(Kind::Dom)
            } else if same(ext.as_str(), "png") || same(ext.as_str(), "jpg") || same(
                ext.as_str(),
                "jpeg",
            ) {
                Some(Kind::Screenshot)
            } else {
                None
            }
        },
        None => None,
    }
}

/// What two files are compared as: what the flags say, else what both files hold.
pub open spec fn choice(args: DiffArgs) -> Result<Kind, ErrorView> {
    if args.dom {
        Ok(Kind::Dom)
    } else if args.screenshot {
        Ok(Kind::Screenshot)
    } else {
        match (kind_of(args.file_a@), kind_of(args.file_b@)) {
            (Some(a), Some(b)) => if a == b {
                Ok(a)
            } else {
                Err(
                    ErrorView::InvalidArgument(
                        "both files must be the same kind (two JSON snapshots or two images)"@,
                    ),
                )
            },
            _ => Err(
                ErrorView::InvalidArgument(
                    "cannot detect file type from the extensions — use --dom or --screenshot"@,
                ),
            ),
        }
    }
}

/// What two files are compared as.
pub fn run(args: &DiffArgs) -> (r: Result<Kind, WebPilotError>)
    ensures
        match choice(*args) {
            Ok(kind) => r is Ok && r->Ok_0 == kind,
            Err(e) => r is Err && r->Err_0@ == e,
        },
{
    if args.dom {
        return Ok(Kind::Dom);
    }
    if args.screenshot {
        return Ok(Kind::Screenshot);
    }
    match (detect_kind(args.file_a.as_str()), detect_kind(args.file_b.as_str())) {
        (Some(a), Some(b)) => if a == b {
            Ok(a)
        } else {
            Err(
                WebPilotError::invalid(
                    "both files must be the same kind (two JSON snapshots or two images)",
                ),
            )
        },
        _ => Err(
            WebPilotError::invalid(
                "cannot detect file type from the extensions — use --dom or --screenshot",
            ),
        ),
    }
}

/// Refuses an input that is too long. One byte more than the limit is read.
pub fn check_size(len: usize, label: &str) -> (r: Result<(), WebPilotError>)
    ensures
        r is Err <==> len > MAX_DIFF_INPUT_BYTES,
        r is Err ==> r->Err_0@ == ErrorView::InvalidArgument(
            label@ + " exceeds the "@ + text::decimal(MAX_DIFF_INPUT_BYTES as nat)
                + "-byte diff limit"@,
        ),
{
    if len as u64 > MAX_DIFF_INPUT_BYTES {
        Err(
            WebPilotError::InvalidArgument {
                detail: label.to_owned().concat(" exceeds the ").concat(
                    dec(MAX_DIFF_INPUT_BYTES).as_str(),
                ).concat("-byte diff limit"),
            },
        )
    } else {
        Ok(())
    }
}

/// What becomes of a line between two texts.
#[derive(Debug, Clone, Copy, PartialEq, Eq, Structural)]
pub enum LineTag {
    Equal,
    Delete,
    Insert,
}

/// A line, and what becomes of it.
#[derive(Debug, PartialEq, Eq)]
pub struct LineChange {
    pub tag: LineTag,
    pub value: String,
}

impl View for LineChange {
    type V = (LineTag, Seq<char>);

    open spec fn view(&self) -> (LineTag, Seq<char>) {
        (self.tag, self.value@)
    }
}

/// The lines of two texts, in the order in which a comparison shows them.
pub uninterp spec fn line_diff(before: Seq<char>, after: Seq<char>) -> Seq<(LineTag, Seq<char>)>;

/// The difference of two texts in the unified format.
pub uninterp spec fn unified_text(before: Seq<char>, after: Seq<char>) -> Seq<char>;

/// The length of the first line of a text, its break included. A line ends behind a line feed, a
/// carriage return or both, or where the text ends.
pub open spec fn first_line(s: Seq<char>) -> nat
    decreases s.len(),
{
    if s.len() == 0 {
        0
    } else if s[0] == '\n' {
        1
    } else if s[0] == '\r' {
        if s.len() > 1 && s[1] == '\n' {
            2
        } else {
            1
        }
    } else {
        1 + first_line(s.skip(1))
    }
}

/// A line of a text that is not empty has a character at least.
pub proof fn lemma_first_line(s: Seq<char>)
    requires
        s.len() > 0,
    ensures
        0 < first_line(s) <= s.len(),
    decreases s.len(),
{
    if s.len() > 1 {
        lemma_first_line(s.skip(1));
    } else {
        assert(first_line(s.skip(1)) == 0);
    }
}

/// The lines of a text, each with its break.
pub open spec fn lines_of(s: Seq<char>) -> Seq<Seq<char>>
    decreases s.len(),
{
    if s.len() == 0 {
        Seq::empty()
    } else {
        proof {
            lemma_first_line(s);
        }
        seq![s.take(first_line(s) as int)] + lines_of(s.skip(first_line(s) as int))
    }
}

/// The lines of one side, in their order: those that were not inserted, or those that were not
/// deleted.
pub open spec fn side(changes: Seq<(LineTag, Seq<char>)>, left_out: LineTag) -> Seq<Seq<char>>
    decreases changes.len(),
{
    if changes.len() == 0 {
        Seq::empty()
    } else if changes.last().0 == left_out {
        side(changes.drop_last(), left_out)
    } else {
        side(changes.drop_last(), left_out).push(changes.last().1)
    }
}

/// Two texts of the same lines are the same text.
proof fn lemma_lines_make_the_text(a: Seq<char>, b: Seq<char>)
    requires
        lines_of(a) == lines_of(b),
    ensures
        a == b,
    decreases a.len(),
{
    if a.len() == 0 {
        if b.len() > 0 {
            assert(lines_of(b).len() > 0);
        }
        assert(a =~= b);
    } else if b.len() == 0 {
        assert(lines_of(a).len() > 0);
    } else {
        lemma_first_line(a);
        lemma_first_line(b);
        let (m, n) = (first_line(a) as int, first_line(b) as int);
        assert(lines_of(a)[0] == a.take(m));
        assert(lines_of(b)[0] == b.take(n));
        assert(lines_of(a).skip(1) =~= lines_of(a.skip(m)));
        assert(lines_of(b).skip(1) =~= lines_of(b.skip(n)));
        assert(m == a.take(m).len() && n == b.take(n).len());
        lemma_lines_make_the_text(a.skip(m), b.skip(n));
        assert(a =~= a.take(m) + a.skip(m));
        assert(b =~= b.take(n) + b.skip(n));
    }
}

/// Whether every line is the same on both sides.
pub open spec fn all_equal(changes: Seq<(LineTag, Seq<char>)>) -> bool {
    forall|i: int| 0 <= i < changes.len() ==> (#[trigger] changes[i]).0 == LineTag::Equal
}

/// `similar::TextDiff::from_lines` with `iter_all_changes`: the lines of both texts, each kept,
/// deleted or inserted. They depend on the two texts alone: `line_diff` names them. Those that are
/// not inserted are the lines of the first text in their order, those that are not deleted the
/// lines of the second; of two equal texts no line is changed.
#[verifier::external_body]
fn compare_lines(before: &str, after: &str) -> (r: Vec<LineChange>)
    ensures
        model::each(r@) == line_diff(before@, after@),
        side(model::each(r@), LineTag::Insert) == lines_of(before@),
        side(model::each(r@), LineTag::Delete) == lines_of(after@),
        before@ == after@ ==> all_equal(model::each(r@)),
{
    let diff = similar::TextDiff::from_lines(before, after);
    diff.iter_all_changes().map(|c| LineChange {
        tag: match c.tag() {
            similar::ChangeTag::Equal => LineTag::Equal,
            similar::ChangeTag::Delete => LineTag::Delete,
            similar::ChangeTag::Insert => LineTag::Insert,
        },
        value: c.value().to_owned(),
    }).collect()
}

/// `similar::TextDiff::from_lines` with `unified_diff`, under the headers `before` and `after`. The
/// text depends on the two texts alone: `unified_text` names it.
#[verifier::external_body]
fn unified(before: &str, after: &str) -> (r: String)
    ensures
        r@ == unified_text(before@, after@),
{
    similar::TextDiff::from_lines(before, after).unified_diff().header(
        "before", "after").to_string()
}

/// How many lines something becomes of.
pub open spec fn count(changes: Seq<(LineTag, Seq<char>)>, tag: LineTag) -> nat
    decreases changes.len(),
{
    if changes.len() == 0 {
        0
    } else {
        count(changes.drop_last(), tag) + (if changes.last().0 == tag {
            1nat
        } else {
            0nat
        })
    }
}

/// A line as a comparison shows it: a sign in front, and a line break behind it.
pub open spec fn change_line(change: (LineTag, Seq<char>)) -> Seq<char> {
    let sign = match change.0 {
        LineTag::Delete => "-"@,
        LineTag::Insert => "+"@,
        LineTag::Equal => " "@,
    };
    let line = change.1;
    if line.len() > 0 && (line.last() == '\n' || line.last() == '\r') {
        sign + line
    } else {
        sign + line + "\n"@
    }
}

/// All lines as a comparison shows them.
pub open spec fn change_text(changes: Seq<(LineTag, Seq<char>)>) -> Seq<char>
    decreases changes.len(),
{
    if changes.len() == 0 {
        Seq::empty()
    } else {
        change_text(changes.drop_last()) + change_line(changes.last())
    }
}

/// What a comparison of two texts prints: whether anything changed, and how many lines.
pub open spec fn dom_output(before: Seq<char>, after: Seq<char>) -> OutputView {
    let changes = line_diff(before, after);
    let added = count(changes, LineTag::Insert);
    let removed = count(changes, LineTag::Delete);
    OutputView::Content(
        change_text(changes),
        JsonView::object().with("changed"@, JsonView::Bool(added > 0 || removed > 0)).with(
            "added"@,
            JsonView::number(added as u64),
        ).with("removed"@, JsonView::number(removed as u64)).with(
            "unchanged"@,
            JsonView::number(count(changes, LineTag::Equal) as u64),
        ).with("diff"@, JsonView::Str(unified_text(before, after))),
        None,
    )
}

fn ends_line(s: &str) -> (r: bool)
    ensures
        r == (s@.len() > 0 && (s@.last() == '\n' || s@.last() == '\r')),
{
    let chars = chars_of(s);
    let n: usize = chars.len();
    n > 0 && (chars[n - 1] == '\n' || chars[n - 1] == '\r')
}

fn shown(change: &LineChange) -> (r: String)
    ensures
        r@ == change_line(change@),
{
    let sign = match change.tag {
        LineTag::Delete => "-",
        LineTag::Insert => "+",
        LineTag::Equal => " ",
    };
    let line = sign.to_owned().concat(change.value.as_str());
    if ends_line(change.value.as_str()) {
        line
    } else {
        line.concat("\n")
    }
}

/// Whether a comparison says that something changed.
pub open spec fn says_changed(output: OutputView) -> bool {
    output matches OutputView::Content(_, json, _) && json.get("changed"@) == Some(
        JsonView::Bool(true),
    )
}

/// How many lines a comparison says something of.
pub open spec fn told(output: OutputView, name: Seq<char>) -> Option<u64> {
    match output {
        OutputView::Content(_, json, _) => match json.get(name) {
            Some(n) => n.as_u64(),
            None => None,
        },
        _ => None,
    }
}

/// Whether the counts of a comparison add up: every line of the first text is removed or
/// unchanged, every line of the second added or unchanged, and none is counted twice.
pub open spec fn adds_up(output: OutputView, before: Seq<char>, after: Seq<char>) -> bool {
    &&& told(output, "removed"@) is Some
    &&& told(output, "added"@) is Some
    &&& told(output, "unchanged"@) is Some
    &&& told(output, "removed"@)->0 + told(output, "unchanged"@)->0 == lines_of(before).len()
    &&& told(output, "added"@)->0 + told(output, "unchanged"@)->0 == lines_of(after).len()
}

/// What a comparison says of change is what its counts say.
proof fn lemma_says_changed(before: Seq<char>, after: Seq<char>)
    ensures
        told(dom_output(before, after), "added"@) == Some(
            count(line_diff(before, after), LineTag::Insert) as u64,
        ),
        told(dom_output(before, after), "removed"@) == Some(
            count(line_diff(before, after), LineTag::Delete) as u64,
        ),
        told(dom_output(before, after), "unchanged"@) == Some(
            count(line_diff(before, after), LineTag::Equal) as u64,
        ),
        says_changed(dom_output(before, after)) <==> count(
            line_diff(before, after),
            LineTag::Insert,
        ) > 0 || count(line_diff(before, after), LineTag::Delete) > 0,
{
    reveal_strlit("changed");
    reveal_strlit("added");
    reveal_strlit("removed");
    reveal_strlit("unchanged");
    reveal_strlit("diff");
    assert("changed"@[0] == 'c' && "removed"@[0] == 'r');
    assert("changed"@.len() == 7 && "added"@.len() == 5 && "unchanged"@.len() == 9 && "diff"@.len()
        == 4);
}

/// Compares two texts line by line. It says that something changed exactly where the texts differ,
/// and its counts add up to the lines of each.
pub fn compare(before: &str, after: &str) -> (r: CommandOutput)
    ensures
        r@ == dom_output(before@, after@),
        says_changed(r@) <==> before@ != after@,
        adds_up(r@, before@, after@),
{
    let changes = compare_lines(before, after);
    let ghost all = model::each(changes@);
    let mut stdout = String::new();
    let mut added: usize = 0;
    let mut removed: usize = 0;
    let mut unchanged: usize = 0;
    assert(all.take(0) =~= Seq::empty());
    for i in 0..changes.len()
        invariant
            all == model::each(changes@),
            i <= changes.len(),
            stdout@ == change_text(all.take(i as int)),
            added == count(all.take(i as int), LineTag::Insert),
            removed == count(all.take(i as int), LineTag::Delete),
            unchanged == count(all.take(i as int), LineTag::Equal),
            added <= i,
            removed <= i,
            unchanged <= i,
    {
        assert(all.take(i + 1).drop_last() =~= all.take(i as int));
        assert(all.take(i + 1).last() == changes@[i as int]@);
        match changes[i].tag {
            LineTag::Delete => {
                removed = removed + 1;
            },
            LineTag::Insert => {
                added = added + 1;
            },
            LineTag::Equal => {
                unchanged = unchanged + 1;
            },
        }
        stdout.append(shown(&changes[i]).as_str());
    }
    assert(all.take(changes@.len() as int) =~= all);
    proof {
        lemma_counts(all);
        lemma_says_changed(before@, after@);
        if lines_of(before@) == lines_of(after@) {
            lemma_lines_make_the_text(before@, after@);
        }
    }
    let json = Json::object().with("changed", Json::Bool(added > 0 || removed > 0)).with(
        "added",
        Json::number(added as u64),
    ).with("removed", Json::number(removed as u64)).with(
        "unchanged",
        Json::number(unchanged as u64),
    ).with("diff", Json::Str(unified(before, after)));
    CommandOutput::Content { stdout, json, note: None }
}

/// A snapshot as it is compared: without the time that taking it took, and written in one way
/// whatever its spaces and the order of its fields.
pub open spec fn canonical(snapshot: JsonView) -> Seq<char> {
    json::pretty_json(json::settled(snapshot.without("extraction_ms"@)))
}

/// What a snapshot's text comes to: the text that is compared, or why it is none.
pub open spec fn canonical_outcome(source: Seq<char>, label: Seq<char>) -> Result<
    Seq<char>,
    ErrorView,
> {
    match json::parsed_json(source) {
        Ok(snapshot) => Ok(canonical(snapshot)),
        Err(e) => Err(
            ErrorView::InvalidArgument(label + " is not a valid DOM snapshot (JSON): "@ + e),
        ),
    }
}

/// The text that is compared, of a snapshot that has been read.
pub fn canonical_text(snapshot: Json) -> (r: String)
    ensures
        r@ == canonical(snapshot@),
{
    snapshot.without("extraction_ms").to_pretty_text()
}

/// The text that is compared, of a snapshot's text.
pub fn canon(source: &str, label: &str) -> (r: Result<String, WebPilotError>)
    ensures
        error::outcome(r) == canonical_outcome(source@, label@),
{
    match Json::parse(source) {
        Ok(snapshot) => Ok(canonical_text(snapshot)),
        Err(e) => Err(
            WebPilotError::InvalidArgument {
                detail: label.to_owned().concat(" is not a valid DOM snapshot (JSON): ").concat(
                    e.as_str(),
                ),
            },
        ),
    }
}

/// What comparing two snapshots comes to.
pub open spec fn diff_outcome(a: Seq<char>, b: Seq<char>) -> Result<OutputView, ErrorView> {
    match canonical_outcome(a, "file A"@) {
        Ok(before) => match canonical_outcome(b, "file B"@) {
            Ok(after) => Ok(dom_output(before, after)),
            Err(e) => Err(e),
        },
        Err(e) => Err(e),
    }
}

/// Compares two snapshots. It says that something changed exactly where what is compared of them
/// differs.
pub fn diff_dom(a: &str, b: &str) -> (r: Result<CommandOutput, WebPilotError>)
    ensures
        error::outcome(r) == diff_outcome(a@, b@),
        r is Ok ==> (says_changed(r->Ok_0@) <==> canonical_outcome(a@, "file A"@)->Ok_0
            != canonical_outcome(b@, "file B"@)->Ok_0),
        r is Ok ==> adds_up(
            r->Ok_0@,
            canonical_outcome(a@, "file A"@)->Ok_0,
            canonical_outcome(b@, "file B"@)->Ok_0,
        ),
{
    let before = match canon(a, "file A") {
        Ok(t) => t,
        Err(e) => {
            return Err(e);
        },
    };
    let after = match canon(b, "file B") {
        Ok(t) => t,
        Err(e) => {
            return Err(e);
        },
    };
    Ok(compare(before.as_str(), after.as_str()))
}

/// The text of an input file.
pub fn input_text(bytes: Vec<u8>, label: &str) -> (r: Result<String, WebPilotError>)
    ensures
        error::outcome(r) == (if vstd::utf8::valid_utf8(bytes@) {
            Ok(vstd::utf8::decode_utf8(bytes@))
        } else {
            Err(ErrorView::Other(label@ + " is not valid UTF-8: "@ + codec::utf8_complaint(bytes@)))
        }),
{
    match utf8_text(bytes) {
        Ok(t) => Ok(t),
        Err(e) => Err(
            WebPilotError::Other {
                detail: label.to_owned().concat(" is not valid UTF-8: ").concat(e.as_str()),
            },
        ),
    }
}

/// Where every line is the same, no line is added or removed, and the other way round. Removed and
/// unchanged lines are those of the first side, added and unchanged ones those of the second.
proof fn lemma_counts(changes: Seq<(LineTag, Seq<char>)>)
    ensures
        all_equal(changes) <==> count(changes, LineTag::Insert) == 0 && count(
            changes,
            LineTag::Delete,
        ) == 0,
        all_equal(changes) ==> side(changes, LineTag::Insert) == side(changes, LineTag::Delete),
        count(changes, LineTag::Delete) + count(changes, LineTag::Equal) == side(
            changes,
            LineTag::Insert,
        ).len(),
        count(changes, LineTag::Insert) + count(changes, LineTag::Equal) == side(
            changes,
            LineTag::Delete,
        ).len(),
    decreases changes.len(),
{
    if changes.len() > 0 {
        let rest = changes.drop_last();
        lemma_counts(rest);
        if all_equal(changes) {
            assert forall|i: int| 0 <= i < rest.len() implies (#[trigger] rest[i]).0
                == LineTag::Equal by {
                assert(changes[i].0 == LineTag::Equal);
            }
        }
        if all_equal(rest) && changes.last().0 == LineTag::Equal {
            assert forall|i: int| 0 <= i < changes.len() implies (#[trigger] changes[i]).0
                == LineTag::Equal by {
                if i < rest.len() {
                    assert(rest[i].0 == LineTag::Equal);
                }
            }
        }
    }
}

/// Two captures that differ in nothing but the time they took are compared as the same text.
pub proof fn law_extraction_time_is_ignored(snapshot: JsonView, a: JsonView, b: JsonView)
    ensures
        canonical(snapshot.with("extraction_ms"@, a)) == canonical(
            snapshot.with("extraction_ms"@, b),
        ),
        snapshot is Object ==> canonical(snapshot.with("extraction_ms"@, a)) == canonical(snapshot),
{
    if let JsonView::Object(fields) = snapshot {
        let key = "extraction_ms"@;
        assert(fields.insert(key, a).remove(key) =~= fields.remove(key));
        assert(fields.insert(key, b).remove(key) =~= fields.remove(key));
    }
}

/// Every field of a snapshot but the time it took counts: two snapshots are compared as the same
/// text only where they are the same without it. Writing a value must tell values apart.
pub proof fn law_every_other_field_counts(a: JsonView, b: JsonView)
    requires
        forall|x: JsonView, y: JsonView|
            json::pretty_json(json::settled(x)) == json::pretty_json(json::settled(y))
                ==> #[trigger] json::settled(x) == #[trigger] json::settled(y),
        canonical(a) == canonical(b),
    ensures
        json::settled(a.without("extraction_ms"@)) == json::settled(b.without("extraction_ms"@)),
{
}

/// Snapshots that have the same fields but for the time they took are compared as the same text.
pub proof fn law_only_the_fields_count(a: Map<Seq<char>, JsonView>, b: Map<Seq<char>, JsonView>)
    requires
        forall|key: Seq<char>|
            key != "extraction_ms"@ ==> #[trigger] JsonView::Object(a).get(key)
                == JsonView::Object(b).get(key),
    ensures
        canonical(JsonView::Object(a)) == canonical(JsonView::Object(b)),
{
    let (x, y) = (a.remove("extraction_ms"@), b.remove("extraction_ms"@));
    assert forall|key: Seq<char>| #[trigger] x.dom().contains(key) == y.dom().contains(key) by {
        assert(key != "extraction_ms"@ ==> JsonView::Object(a).get(key) == JsonView::Object(b).get(
            key,
        ));
    }
    assert forall|key: Seq<char>| #[trigger] x.dom().contains(key) implies x[key] == y[key] by {
        assert(JsonView::Object(a).get(key) == JsonView::Object(b).get(key));
    }
    assert(x.dom() =~= y.dom());
    assert(x =~= y);
}

/// Two snapshots that can be read are compared from the first to the second, and the one that
/// cannot is named.
pub proof fn law_diff_goes_from_a_to_b(a: Seq<char>, b: Seq<char>)
    ensures
        match (json::parsed_json(a), json::parsed_json(b)) {
            (Ok(x), Ok(y)) => diff_outcome(a, b) matches Ok(OutputView::Content(stdout, told, note))
                && {
                &&& note is None
                &&& stdout == change_text(line_diff(canonical(x), canonical(y)))
                &&& told.get("diff"@) == Some(
                    JsonView::Str(unified_text(canonical(x), canonical(y))),
                )
            },
            (Err(e), _) => diff_outcome(a, b) == Err::<OutputView, ErrorView>(
                ErrorView::InvalidArgument("file A is not a valid DOM snapshot (JSON): "@ + e),
            ),
            (_, Err(e)) => diff_outcome(a, b) == Err::<OutputView, ErrorView>(
                ErrorView::InvalidArgument("file B is not a valid DOM snapshot (JSON): "@ + e),
            ),
        },
{
    reveal_strlit("changed");
    reveal_strlit("added");
    reveal_strlit("removed");
    reveal_strlit("unchanged");
    reveal_strlit("diff");
    assert("changed"@.len() == 7);
    assert("added"@.len() == 5);
    assert("removed"@.len() == 7);
    assert("unchanged"@.len() == 9);
    assert("diff"@.len() == 4);
    assert("changed"@[0] != "removed"@[0]);
    reveal_strlit("file A is not a valid DOM snapshot (JSON): ");
    reveal_strlit("file B is not a valid DOM snapshot (JSON): ");
    reveal_strlit("file A");
    reveal_strlit("file B");
    reveal_strlit(" is not a valid DOM snapshot (JSON): ");
    assert("file A"@ + " is not a valid DOM snapshot (JSON): "@
        =~= "file A is not a valid DOM snapshot (JSON): "@);
    assert("file B"@ + " is not a valid DOM snapshot (JSON): "@
        =~= "file B is not a valid DOM snapshot (JSON): "@);
}

/// What a comparison tells is what became of the lines: it counts each line once, as what it
/// became, and says that something changed exactly where a line was added or removed.
pub proof fn law_lines_are_counted(before: Seq<char>, after: Seq<char>)
    ensures
        dom_output(before, after) matches OutputView::Content(_, told, _) && {
            let of = |tag: LineTag|
                Some(
                    JsonView::Num(
                        json::NumberView::Unsigned(count(line_diff(before, after), tag) as u64),
                    ),
                );
            &&& told.get("added"@) == of(LineTag::Insert)
            &&& told.get("removed"@) == of(LineTag::Delete)
            &&& told.get("unchanged"@) == of(LineTag::Equal)
            &&& told.get("changed"@) == Some(
                JsonView::Bool(
                    exists|i: int|
                        0 <= i < line_diff(before, after).len() && (#[trigger] line_diff(
                            before,
                            after,
                        )[i]).0 != LineTag::Equal,
                ),
            )
        },
{
    reveal_strlit("changed");
    reveal_strlit("added");
    reveal_strlit("removed");
    reveal_strlit("unchanged");
    reveal_strlit("diff");
    assert("changed"@.len() == 7);
    assert("added"@.len() == 5);
    assert("removed"@.len() == 7);
    assert("unchanged"@.len() == 9);
    assert("diff"@.len() == 4);
    assert("changed"@[0] != "removed"@[0]);
    lemma_counts(line_diff(before, after));
    if !all_equal(line_diff(before, after)) {
        let i = choose|i: int|
            0 <= i < line_diff(before, after).len() && (#[trigger] line_diff(before, after)[i]).0
                != LineTag::Equal;
        assert(line_diff(before, after)[i].0 != LineTag::Equal);
    }
}

/// One line more is counted as what it became, and shown behind the others with the sign of it: a
/// minus for a line that is gone, a plus for a new one, a space for one that stayed.
pub proof fn law_a_line_is_shown(changes: Seq<(LineTag, Seq<char>)>, line: Seq<char>)
    ensures
        count(Seq::<(LineTag, Seq<char>)>::empty(), LineTag::Insert) == 0,
        count(Seq::<(LineTag, Seq<char>)>::empty(), LineTag::Delete) == 0,
        count(Seq::<(LineTag, Seq<char>)>::empty(), LineTag::Equal) == 0,
        forall|tag: LineTag, other: LineTag| #[trigger]
            count(changes.push((tag, line)), other) == count(changes, other) + (if tag == other {
                1int
            } else {
                0
            }),
        change_text(Seq::<(LineTag, Seq<char>)>::empty()).len() == 0,
        line.len() > 0 && (line.last() == '\n' || line.last() == '\r') ==> {
            &&& change_text(changes.push((LineTag::Delete, line))) == change_text(changes) + (seq![
                '-',
            ] + line)
            &&& change_text(changes.push((LineTag::Insert, line))) == change_text(changes) + (seq![
                '+',
            ] + line)
            &&& change_text(changes.push((LineTag::Equal, line))) == change_text(changes) + (seq![
                ' ',
            ] + line)
        },
        line.len() == 0 || (line.last() != '\n' && line.last() != '\r') ==> {
            &&& change_text(changes.push((LineTag::Delete, line))) == change_text(changes) + (seq![
                '-',
            ] + line).push('\n')
            &&& change_text(changes.push((LineTag::Insert, line))) == change_text(changes) + (seq![
                '+',
            ] + line).push('\n')
            &&& change_text(changes.push((LineTag::Equal, line))) == change_text(changes) + (seq![
                ' ',
            ] + line).push('\n')
        },
{
    reveal_strlit("-");
    reveal_strlit("+");
    reveal_strlit(" ");
    reveal_strlit("\n");
    assert("-"@ =~= seq!['-']);
    assert("+"@ =~= seq!['+']);
    assert(" "@ =~= seq![' ']);
    assert("\n"@ =~= seq!['\n']);
    assert forall|tag: LineTag, other: LineTag| #[trigger]
        count(changes.push((tag, line)), other) == count(changes, other) + (if tag == other {
            1int
        } else {
            0
        }) by {
        assert(changes.push((tag, line)).drop_last() =~= changes);
    }
    assert(changes.push((LineTag::Delete, line)).drop_last() =~= changes);
    assert(changes.push((LineTag::Insert, line)).drop_last() =~= changes);
    assert(changes.push((LineTag::Equal, line)).drop_last() =~= changes);
    assert(seq!['-'] + line + "\n"@ =~= (seq!['-'] + line).push('\n'));
    assert(seq!['+'] + line + "\n"@ =~= (seq!['+'] + line).push('\n'));
    assert(seq![' '] + line + "\n"@ =~= (seq![' '] + line).push('\n'));
}

/// The lines of a text make up the text, and every line but the last ends in a break, which only
/// its end holds.
pub proof fn law_lines_make_up_the_text(s: Seq<char>)
    ensures
        text::joined(lines_of(s), Seq::empty()) == s,
        forall|i: int|
            0 <= i < lines_of(s).len() ==> (#[trigger] lines_of(s)[i]).len() > 0 && (i
                < lines_of(s).len() - 1 ==> lines_of(s)[i].last() == '\n' || lines_of(s)[i].last()
                == '\r') && forall|k: int|
                0 <= k < lines_of(s)[i].len() - 1 ==> #[trigger] lines_of(s)[i][k] != '\n',
    decreases s.len(),
{
    if s.len() > 0 {
        lemma_first_line(s);
        let n = first_line(s) as int;
        let line = s.take(n);
        let rest = s.skip(n);
        law_lines_make_up_the_text(rest);
        lemma_first_line_ends(s);
        assert(s =~= line + rest);
        assert(lines_of(s) == seq![line] + lines_of(rest));
        lemma_joined_front(line, lines_of(rest));
        assert forall|i: int| 0 <= i < lines_of(s).len() implies (#[trigger] lines_of(s)[i]).len() > 0
            && (i < lines_of(s).len() - 1 ==> lines_of(s)[i].last() == '\n' || lines_of(s)[i].last()
            == '\r') && forall|k: int|
            0 <= k < lines_of(s)[i].len() - 1 ==> #[trigger] lines_of(s)[i][k] != '\n' by {
            if i > 0 {
                assert(lines_of(s)[i] == lines_of(rest)[i - 1]);
            } else {
                assert(lines_of(s)[0] == line);
                if lines_of(s).len() > 1 {
                    assert(rest.len() > 0);
                }
            }
        }
    }
}

proof fn lemma_first_line_ends(s: Seq<char>)
    requires
        s.len() > 0,
    ensures
        0 < first_line(s) <= s.len(),
        first_line(s) < s.len() ==> s[first_line(s) - 1] == '\n' || s[first_line(s) - 1] == '\r',
        forall|k: int| 0 <= k < first_line(s) - 1 ==> #[trigger] s[k] != '\n',
    decreases s.len(),
{
    lemma_first_line(s);
    if s[0] != '\n' && s[0] != '\r' && s.len() > 1 {
        let rest = s.skip(1);
        lemma_first_line_ends(rest);
        assert forall|k: int| 0 <= k < first_line(s) - 1 implies #[trigger] s[k] != '\n' by {
            if k > 0 {
                assert(s[k] == rest[k - 1]);
            }
        }
        if first_line(s) < s.len() {
            assert(s[first_line(s) - 1] == rest[first_line(rest) - 1]);
        }
    } else if s.len() == 1 {
        assert(first_line(s.skip(1)) == 0);
    }
}

proof fn lemma_joined_front(line: Seq<char>, rest: Seq<Seq<char>>)
    ensures
        text::joined(seq![line] + rest, Seq::empty()) == line + text::joined(rest, Seq::empty()),
    decreases rest.len(),
{
    let all = seq![line] + rest;
    if rest.len() == 0 {
        assert(all.len() == 1);
        assert(line + Seq::<char>::empty() =~= line);
    } else {
        lemma_joined_front(line, rest.drop_last());
        assert(all.drop_last() =~= seq![line] + rest.drop_last());
        assert(all.last() == rest.last());
        let before = text::joined(rest.drop_last(), Seq::empty());
        if rest.len() == 1 {
            assert(rest.drop_last() =~= Seq::empty());
            assert(line + Seq::<char>::empty() + Seq::<char>::empty() + rest[0] =~= line + rest[0]);
        } else {
            assert((line + before) + Seq::<char>::empty() + rest.last() =~= line + (before
                + Seq::<char>::empty() + rest.last()));
        }
    }
}

/// What a file holds is told by its extension, whatever the case of its letters: a snapshot by `json`,
/// a picture by `png`, `jpg` or `jpeg`, and nothing by any other.
pub proof fn law_files_are_told_by_their_extension(
    dir: Seq<char>,
    stem: Seq<char>,
    ext: Seq<char>,
    path: &str,
    r: Option<Kind>,
)
    requires
        stem.len() > 0,
        ext.len() > 0,
        forall|i: int| 0 <= i < stem.len() ==> #[trigger] stem[i] != '/',
        forall|i: int| 0 <= i < ext.len() ==> #[trigger] ext[i] != '/' && ext[i] != '.',
        path@ == dir + seq!['/'] + (stem + seq!['.'] + ext),
        call_ensures(detect_kind, (path,), r),
    ensures
        r == Some(Kind::Dom) <==> but_for_case(ext, "json"@),
        r == Some(Kind::Screenshot) <==> but_for_case(ext, "png"@) || but_for_case(ext, "jpg"@)
            || but_for_case(ext, "jpeg"@),
{
    paths::lemma_extension(dir, stem, ext);
    reveal_strlit("json");
    reveal_strlit("png");
    reveal_strlit("jpg");
    reveal_strlit("jpeg");
    lemma_but_for_case(ext, "json"@);
    lemma_but_for_case(ext, "png"@);
    lemma_but_for_case(ext, "jpg"@);
    lemma_but_for_case(ext, "jpeg"@);
    assert("json"@[0] == 'j' && "json"@[1] == 's' && "jpeg"@[1] == 'p');
    if is_like(ext, "json"@) && is_like(ext, "jpeg"@) {
        assert("json"@[1] == "jpeg"@[1]);
    }
}

/// Whether a text is `wanted` in letters of either case.
pub open spec fn but_for_case(s: Seq<char>, wanted: Seq<char>) -> bool {
    s.len() == wanted.len() && forall|i: int|
        0 <= i < s.len() ==> #[trigger] s[i] == wanted[i] || s[i] as int + 32 == wanted[i] as int
}

proof fn lemma_but_for_case(s: Seq<char>, wanted: Seq<char>)
    requires
        forall|i: int| 0 <= i < wanted.len() ==> 'a' <= #[trigger] wanted[i] <= 'z',
    ensures
        is_like(s, wanted) <==> but_for_case(s, wanted),
{
    let low = s.map_values(|c: char| ascii_lower(c));
    if low == wanted {
        assert forall|i: int| 0 <= i < s.len() implies #[trigger] s[i] == wanted[i] || s[i] as int
            + 32 == wanted[i] as int by {
            assert(low[i] == ascii_lower(s[i]));
        }
    }
    if but_for_case(s, wanted) {
        assert forall|i: int| 0 <= i < s.len() implies low[i] == wanted[i] by {
            assert('a' <= wanted[i] <= 'z');
            assert(s[i] == wanted[i] || s[i] as int + 32 == wanted[i] as int);
        }
        assert(low =~= wanted);
    }
}

/// Two files are compared as the flags say; without a flag as what both hold, and not where they hold
/// different things or it cannot be told.
pub proof fn law_files_are_compared_as(
    args: DiffArgs,
    a: &str,
    b: &str,
    of_a: Option<Kind>,
    of_b: Option<Kind>,
    r: Result<Kind, WebPilotError>,
)
    requires
        a@ == args.file_a@,
        b@ == args.file_b@,
        call_ensures(detect_kind, (a,), of_a),
        call_ensures(detect_kind, (b,), of_b),
        call_ensures(run, (&args,), r),
    ensures
        args.dom ==> r matches Ok(Kind::Dom),
        !args.dom && args.screenshot ==> r matches Ok(Kind::Screenshot),
        !args.dom && !args.screenshot ==> {
            &&& r is Ok <==> of_a is Some && of_b is Some && of_a == of_b
            &&& r matches Ok(k) ==> Some(k) == of_a
            &&& r matches Err(e) ==> e is InvalidArgument
        },
{
}

/// An input is refused exactly where it is longer than 512 MiB, or is no text; its text is what its
/// bytes encode. Each refusal says which input it is.
pub proof fn law_inputs_are_taken(
    len: usize,
    label: &str,
    r: Result<(), WebPilotError>,
    bytes: Vec<u8>,
    t: Result<String, WebPilotError>,
    source: &str,
    c: Result<String, WebPilotError>,
)
    requires
        call_ensures(check_size, (len, label), r),
        call_ensures(input_text, (bytes, label), t),
        call_ensures(canon, (source, label), c),
    ensures
        r is Ok <==> len <= 512 * 1024 * 1024,
        r matches Err(e) ==> (e matches WebPilotError::InvalidArgument { detail }
            && text::has_prefix(detail@, label@)),
        t is Ok <==> vstd::utf8::valid_utf8(bytes@),
        t matches Ok(s) ==> s@ == vstd::utf8::decode_utf8(bytes@),
        t matches Err(e) ==> (e matches WebPilotError::Other { detail } && text::has_prefix(
            detail@,
            label@,
        )),
        c is Ok <==> json::parsed_json(source@) is Ok,
        c matches Ok(s) ==> forall|snapshot: Json, whole: String|
            Ok::<JsonView, Seq<char>>(snapshot@) == json::parsed_json(source@)
                && #[trigger] call_ensures(canonical_text, (snapshot,), whole) ==> s@ == whole@,
        c matches Err(e) ==> (e matches WebPilotError::InvalidArgument { detail }
            && text::has_prefix(detail@, label@)),
{
    let size = text::decimal(MAX_DIFF_INPUT_BYTES as nat);
    assert(label@ + " exceeds the "@ + size + "-byte diff limit"@ =~= label@ + (" exceeds the "@
        + size + "-byte diff limit"@));
    text::lemma_front(label@, " exceeds the "@ + size + "-byte diff limit"@);
    let told = codec::utf8_complaint(bytes@);
    assert(label@ + " is not valid UTF-8: "@ + told =~= label@ + (" is not valid UTF-8: "@ + told));
    text::lemma_front(label@, " is not valid UTF-8: "@ + told);
    if let Err(e) = json::parsed_json(source@) {
        let rest = " is not a valid DOM snapshot (JSON): "@ + e;
        assert(label@ + " is not a valid DOM snapshot (JSON): "@ + e =~= label@ + rest);
        text::lemma_front(label@, rest);
    }
}

/// What is compared of a snapshot is the snapshot itself, every field as it is but the time that taking
/// it took, written out whole.
pub proof fn law_snapshots_are_compared_whole(
    snapshot: Json,
    fields: Map<Seq<char>, JsonView>,
    r: String,
) -> (compared: JsonView)
    requires
        snapshot@ == JsonView::Object(fields),
        call_ensures(canonical_text, (snapshot,), r),
    ensures
        r@ == json::pretty_json(json::settled(compared)),
        compared is Object,
        compared.get("extraction_ms"@) is None,
        forall|key: Seq<char>|
            key != "extraction_ms"@ ==> #[trigger] compared.get(key) == snapshot@.get(key),
{
    snapshot@.without("extraction_ms"@)
}

/// Two snapshots are compared in the order that they are given; what is printed counts the lines, and
/// says that something changed exactly where what is compared of them differs. One that is no JSON is
/// refused by its name, the first before the second.
pub proof fn law_snapshots_are_compared(
    a: &str,
    b: &str,
    first: Json,
    second: Json,
    before: String,
    after: String,
    r: Result<CommandOutput, WebPilotError>,
)
    requires
        call_ensures(diff_dom, (a, b), r),
        call_ensures(canonical_text, (first,), before),
        call_ensures(canonical_text, (second,), after),
        json::parsed_json(a@) is Ok ==> json::parsed_json(a@)->Ok_0 == first@,
        json::parsed_json(b@) is Ok ==> json::parsed_json(b@)->Ok_0 == second@,
    ensures
        r is Ok <==> json::parsed_json(a@) is Ok && json::parsed_json(b@) is Ok,
        json::parsed_json(a@) is Err ==> (r matches Err(WebPilotError::InvalidArgument { detail })
            && text::has_prefix(detail@, "file A"@)),
        json::parsed_json(a@) is Ok && json::parsed_json(b@) is Err ==> (r matches Err(
            WebPilotError::InvalidArgument { detail },
        ) && text::has_prefix(detail@, "file B"@)),
        r matches Ok(o) ==> (o matches CommandOutput::Content { stdout, json, note } && json@.get(
            "changed"@,
        ) == Some(JsonView::Bool(before@ != after@))),
{
    let rest = " is not a valid DOM snapshot (JSON): "@;
    if let Err(e) = json::parsed_json(a@) {
        assert("file A"@ + rest + e =~= "file A"@ + (rest + e));
        text::lemma_front("file A"@, rest + e);
    }
    if let Err(e) = json::parsed_json(b@) {
        assert("file B"@ + rest + e =~= "file B"@ + (rest + e));
        text::lemma_front("file B"@, rest + e);
    }
    if r is Ok {
        law_lines_are_counted(before@, after@);
    }
}

} // verus!
