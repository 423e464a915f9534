//! The frames of a page.
use crate::headless;
use crate::headless::{array_of, count_of, message, str_or, Failure, FailureView};
use crate::json;
use crate::json::{Json, JsonView};
use crate::model;
use crate::output::{CommandOutput, OutputView};
use crate::text;
use crate::text::{same, shorten, signed_dec};
use vstd::prelude::*;
use vstd::string::StringExecFns;

verus! {

broadcast use json::group_json_views;

/// The position of the last field of a name.
pub open spec fn field_at(fields: Seq<(String, Json)>, name: Seq<char>) -> Option<int>
    decreases fields.len(),
{
    if fields.len() == 0 {
        None
    } else if fields.last().0@ == name {
        Some(fields.len() - 1)
    } else {
        field_at(fields.drop_last(), name)
    }
}

/// A field is where it is found.
proof fn lemma_field_at(fields: Seq<(String, Json)>, name: Seq<char>)
    ensures
        match field_at(fields, name) {
            Some(i) => 0 <= i < fields.len() && fields[i].0@ == name && (forall|k: int|
                i < k < fields.len() ==> (#[trigger] fields[k]).0@ != name),
            None => forall|k: int| 0 <= k < fields.len() ==> (#[trigger] fields[k]).0@ != name,
        },
    decreases fields.len(),
{
    if fields.len() > 0 && fields.last().0@ != name {
        let front = fields.drop_last();
        lemma_field_at(front, name);
        match field_at(front, name) {
            Some(i) => {
                assert forall|k: int| i < k < fields.len() implies (#[trigger] fields[k]).0@
                    != name by {
                    if k < front.len() {
                        assert(front[k] == fields[k]);
                    }
                }
            },
            None => {
                assert forall|k: int| 0 <= k < fields.len() implies (#[trigger] fields[k]).0@
                    != name by {
                    if k < front.len() {
                        assert(front[k] == fields[k]);
                    }
                }
            },
        }
    }
}

fn find_field(fields: &Vec<(String, Json)>, name: &str) -> (r: Option<usize>)
    ensures
        match r {
            Some(i) => field_at(fields@, name@) == Some(i as int) && i < fields@.len(),
            None => field_at(fields@, name@) is None,
        },
{
    let mut i: usize = fields.len();
    assert(fields@.take(i as int) =~= fields@);
    while i > 0
        invariant
            i <= fields@.len(),
            field_at(fields@, name@) == field_at(fields@.take(i as int), name@),
        decreases i,
    {
        assert(fields@.take(i as int).drop_last() =~= fields@.take(i - 1));
        assert(fields@.take(i as int).last() == fields@[i - 1]);
        i -= 1;
        if same(fields[i].0.as_str(), name) {
            return Some(i);
        }
    }
    None
}

/// The frames of a tree: the one at its root, then those of each branch in turn.
pub open spec fn frames_of(node: Json) -> Seq<JsonView>
    decreases node,
    via frames_decreases
{
    match node {
        Json::Object(fields) => {
            let own = match field_at(fields@, "frame"@) {
                Some(i) => seq![fields@[i].1@],
                None => Seq::empty(),
            };
            let under = match field_at(fields@, "childFrames"@) {
                Some(i) => match fields@[i].1 {
                    Json::Array(children) => frames_of_all(children@),
                    _ => Seq::empty(),
                },
                None => Seq::empty(),
            };
            own + under
        },
        _ => Seq::empty(),
    }
}

/// The frames of several trees, one tree after the other.
pub open spec fn frames_of_all(nodes: Seq<Json>) -> Seq<JsonView>
    decreases nodes,
{
    if nodes.len() == 0 {
        Seq::empty()
    } else {
        frames_of_all(nodes.drop_last()) + frames_of(nodes.last())
    }
}

#[via_fn]
proof fn frames_decreases(node: Json) {
    if let Json::Object(fields) = node {
        lemma_field_at(fields@, "childFrames"@);
        if let Some(i) = field_at(fields@, "childFrames"@) {
            assert(decreases_to!(node => fields));
            assert(decreases_to!(fields => fields@));
            assert(decreases_to!(fields@ => fields@[i]));
            assert(decreases_to!(fields@[i] => fields@[i].1));
            if let Json::Array(children) = fields@[i].1 {
                assert(decreases_to!(fields@[i].1 => children));
                assert(decreases_to!(children => children@));
            }
        }
    }
}

fn collect(node: &Json, out: &mut Vec<Json>)
    ensures
        model::each(final(out)@) == model::each(old(out)@) + frames_of(*node),
    decreases node,
{
    let ghost before = model::each(out@);
    if let Json::Object(fields) = node {
        if let Some(i) = find_field(fields, "frame") {
            let frame = fields[i].1.copy();
            proof {
                model::lemma_each_push(out@, frame);
            }
            out.push(frame);
        }
        let ghost own = match field_at(fields@, "frame"@) {
            Some(i) => seq![fields@[i].1@],
            None => Seq::empty(),
        };
        assert(model::each(out@) =~= before + own);
        if let Some(i) = find_field(fields, "childFrames") {
            if let Json::Array(children) = &fields[i].1 {
                assert(children@.take(0) =~= Seq::empty());
                assert(model::each(out@) =~= before + own + frames_of_all(children@.take(0)));
                for k in 0..children.len()
                    invariant
                        model::each(out@) == before + own + frames_of_all(
                            children@.take(k as int),
                        ),
                        i < fields@.len(),
                        *node == Json::Object(*fields),
                        fields@[i as int].1 == Json::Array(*children),
                {
                    let ghost sofar = frames_of_all(children@.take(k as int));
                    proof {
                        assert(children@.take(k + 1).drop_last() =~= children@.take(k as int));
                        assert(children@.take(k + 1).last() == children@[k as int]);
                        assert(decreases_to!(*node => node->Object_0));
                        assert(decreases_to!(*fields => fields@));
                        assert(decreases_to!(fields@ => fields@[i as int]));
                        assert(decreases_to!(fields@[i as int] => fields@[i as int].1));
                        assert(decreases_to!(fields@[i as int].1 => fields@[i as int].1->Array_0));
                        assert(decreases_to!(*children => children@));
                        assert(decreases_to!(children@ => children@[k as int]));
                    }
                    collect(&children[k], out);
                    assert(model::each(out@) =~= before + own + frames_of_all(
                        children@.take(k + 1),
                    ));
                }
                assert(children@.take(children@.len() as int) =~= children@);
                assert(model::each(out@) =~= before + (own + frames_of_all(children@)));
            } else {
                assert(model::each(out@) =~= before + (own + Seq::<JsonView>::empty()));
            }
        } else {
            assert(model::each(out@) =~= before + (own + Seq::<JsonView>::empty()));
        }
    } else {
        assert(model::each(out@) =~= before + Seq::<JsonView>::empty());
    }
}

/// The frames of the page, by the browser's answer.
pub open spec fn frames_in(answer: Json) -> Seq<JsonView> {
    match answer {
        Json::Object(fields) => match field_at(fields@, "frameTree"@) {
            Some(i) => frames_of(fields@[i].1),
            None => Seq::empty(),
        },
        _ => Seq::empty(),
    }
}

/// The frames of the page, by the browser's answer.
pub fn collect_frames(answer: &Json) -> (r: Vec<Json>)
    ensures
        model::each(r@) == frames_in(*answer),
{
    let mut out: Vec<Json> = Vec::new();
    assert(model::each(out@) =~= Seq::empty());
    if let Json::Object(fields) = answer {
        if let Some(i) = find_field(fields, "frameTree") {
            collect(&fields[i].1, &mut out);
            assert(model::each(out@) =~= frames_in(*answer));
        }
    }
    out
}

/// `  [id] "name" url`, with no more than the first bytes of the address.
pub open spec fn row(frame: JsonView) -> Seq<char> {
    let url = text::shortened(headless::text_or(frame, "url"@, ""@), 60);
    let name = headless::text_or(frame, "name"@, ""@);
    "  ["@ + headless::text_or(frame, "id"@, "?"@) + (if name.len() == 0 {
        "] "@
    } else {
        "] \""@ + name + "\" "@
    }) + url
}

fn row_of(frame: &Json) -> (r: String)
    ensures
        r@ == row(frame@),
{
    let name = str_or(frame, "name", "");
    let middle = if name.as_str().is_empty() {
        "] ".to_owned()
    } else {
        "] \"".to_owned().concat(name.as_str()).concat("\" ")
    };
    let url = shorten(str_or(frame, "url", "").as_str(), 60);
    "  [".to_owned().concat(str_or(frame, "id", "?").as_str()).concat(middle.as_str()).concat(
        url.as_str(),
    )
}

/// What a listing prints.
pub open spec fn listing(frames: Seq<JsonView>) -> OutputView {
    OutputView::List(
        JsonView::object().with("frames"@, JsonView::Array(frames)),
        Seq::new(frames.len(), |i: int| row(frames[i])),
        headless::counted(frames.len(), "frames"@),
    )
}

/// What a listing prints.
pub fn list_frames(answer: &Json) -> (r: CommandOutput)
    ensures
        r@ == listing(frames_in(*answer)),
{
    let frames = collect_frames(answer);
    let ghost all = frames_in(*answer);
    let mut rows: Vec<String> = Vec::new();
    for i in 0..frames.len()
        invariant
            all == model::each(frames@),
            rows@.len() == i,
            forall|j: int| 0 <= j < i ==> (#[trigger] rows@[j])@ == row(all[j]),
    {
        rows.push(row_of(&frames[i]));
    }
    let summary = count_of(frames.len(), "frames");
    proof {
        text::lemma_texts_index(rows@);
        assert(text::texts(rows@) =~= Seq::new(all.len(), |i: int| row(all[i])));
    }
    CommandOutput::List {
        items: Json::object().with("frames", array_of(frames)),
        human_lines: rows,
        summary,
    }
}

/// The message that goes to a frame: by its name, its address, a script that tells it, or back to
/// the page's own.
pub fn switch_message(
    name: Option<&str>,
    url_pattern: Option<&str>,
    predicate: Option<&str>,
    main: bool,
) -> (r: Json)
    ensures
        r@ == headless::plain_message("switchFrame"@).with(
            "name"@,
            json::text_json(model::maybe(name)),
        ).with("url_pattern"@, json::text_json(model::maybe(url_pattern))).with(
            "predicate"@,
            json::text_json(model::maybe(predicate)),
        ).with("main"@, JsonView::Bool(main)),
{
    message("switchFrame").with("name", Json::text_or_null(name)).with(
        "url_pattern",
        Json::text_or_null(url_pattern),
    ).with("predicate", Json::text_or_null(predicate)).with("main", Json::Bool(main))
}

/// The frame's number in an answer, 0 where there is none.
pub open spec fn frame_number(answer: JsonView) -> i64 {
    match answer.get("frame_id"@) {
        Some(v) => match v.as_i64() {
            Some(n) => n,
            None => 0,
        },
        None => 0,
    }
}

/// Whether an answer says that all went well.
pub open spec fn went_well(answer: JsonView) -> bool {
    match answer.get("success"@) {
        Some(v) => v.as_bool() == Some(true),
        None => false,
    }
}

/// Why going to a frame failed, as the page tells it: the message of the error, the error itself
/// where it has no message, or that it failed where neither is a text.
pub open spec fn reason(answer: JsonView) -> Seq<char> {
    let told = match answer.at2("error"@, "message"@) {
        Some(m) => Some(m),
        None => answer.get("error"@),
    };
    match told {
        Some(v) => match v.as_str() {
            Some(t) => t,
            None => "Frame switch failed"@,
        },
        None => "Frame switch failed"@,
    }
}

/// Why going to a frame failed, as the page tells it. In JSON the whole answer is shown instead.
pub fn switch_reason(answer: &Json) -> (r: String)
    ensures
        r@ == reason(answer@),
{
    let told = match answer.get("error") {
        Some(e) => match e.get("message") {
            Some(m) => m,
            None => e,
        },
        None => {
            return "Frame switch failed".to_owned();
        },
    };
    match told.as_str() {
        Some(t) => t.to_owned(),
        None => "Frame switch failed".to_owned(),
    }
}

/// What going to a frame prints. An answer that does not say that it went well did not, and
/// `switch_reason` tells why.
pub fn switch_frame(answer: Json) -> (r: Result<CommandOutput, Failure>)
    ensures
        headless::outcome(r) == if went_well(answer@) {
            Ok(
                OutputView::Data(
                    answer@,
                    "Switched to frame "@ + text::signed_decimal(frame_number(answer@) as int)
                        + " ("@ + headless::text_or(answer@, "url"@, ""@) + ")"@,
                ),
            )
        } else {
            Err(FailureView::Plain("Frame switch failed"@))
        },
{
    let success = match answer.get("success") {
        Some(v) => match v.as_bool() {
            Some(b) => b,
            None => false,
        },
        None => false,
    };
    if !success {
        return Err(Failure::Plain("Frame switch failed".to_owned()));
    }
    let number: i64 = match answer.get("frame_id") {
        Some(v) => match v.as_i64() {
            Some(n) => n,
            None => 0,
        },
        None => 0,
    };
    let human = "Switched to frame ".to_owned().concat(signed_dec(number).as_str()).concat(
        " (",
    ).concat(str_or(&answer, "url", "").as_str()).concat(")");
    Ok(CommandOutput::Data { json: answer, human })
}

/// A tree's own frame comes before those under it, and the branches keep their order: the frames of
/// a tree are those of its root followed by those of its branches, one after the other.
pub proof fn law_frames_of_branches(nodes: Seq<Json>, node: Json)
    ensures
        frames_of_all(nodes.push(node)) == frames_of_all(nodes) + frames_of(node),
{
    assert(nodes.push(node).drop_last() =~= nodes);
}

/// The frames of a tree are the frame at its root, then those of its branches: a tree without branches
/// has just the one, and a branch under a root adds what it has, behind what was there.
pub proof fn law_every_frame_of_the_tree_is_found(
    fields: Vec<(String, Json)>,
    frame: int,
    children: int,
    branches: Vec<Json>,
)
    requires
        field_at(fields@, "frame"@) == Some(frame),
        field_at(fields@, "childFrames"@) == Some(children),
        fields@[children].1 == Json::Array(branches),
    ensures
        frames_of(Json::Object(fields)) == seq![fields@[frame].1@] + frames_of_all(branches@),
        branches@.len() == 0 ==> frames_of(Json::Object(fields)) == seq![fields@[frame].1@],
        branches@.len() == 1 ==> frames_of(Json::Object(fields)) == seq![fields@[frame].1@]
            + frames_of(branches@[0]),
{
    if branches@.len() == 0 {
        assert(frames_of_all(branches@) =~= Seq::<JsonView>::empty());
    }
    if branches@.len() == 1 {
        assert(branches@.drop_last() =~= Seq::<Json>::empty());
        assert(frames_of_all(branches@.drop_last()) =~= Seq::<JsonView>::empty());
        assert(frames_of_all(branches@) =~= frames_of(branches@[0]));
    }
}

/// A field of a name is found by its name, and by the last of that name.
pub proof fn law_fields_are_found_by_name(fields: Seq<(String, Json)>, name: Seq<char>, i: int)
    requires
        0 <= i < fields.len(),
        fields[i].0@ == name,
        forall|k: int| i < k < fields.len() ==> (#[trigger] fields[k]).0@ != name,
    ensures
        field_at(fields, name) == Some(i),
{
    lemma_field_at(fields, name);
    if let Some(k) = field_at(fields, name) {
        if k < i {
            assert(fields[i].0@ != name);
        }
        if k > i {
            assert(fields[k].0@ != name);
        }
    } else {
        assert(fields[i].0@ != name);
    }
}

/// A listing shows every frame that the answer's tree holds, in its order: as it is in JSON, counted,
/// and on a line with its id, its name where it has one, and its address.
pub proof fn law_frames_of_the_page_are_shown(answer: Json, found: Vec<Json>, r: CommandOutput)
    requires
        call_ensures(collect_frames, (&answer,), found),
        call_ensures(list_frames, (&answer,), r),
    ensures
        r matches CommandOutput::List { items, human_lines, summary } && {
            &&& items@.get("frames"@) matches Some(JsonView::Array(list)) && list.len()
                == found@.len() && forall|i: int|
                0 <= i < found@.len() ==> #[trigger] list[i] == found@[i]@
            &&& human_lines@.len() == found@.len()
            &&& forall|i: int|
                #![trigger human_lines@[i]]
                0 <= i < found@.len() ==> {
                    let f = found@[i]@;
                    let shown = human_lines@[i]@;
                    &&& f.get("id"@) matches Some(JsonView::Str(id)) ==> text::has_prefix(
                        shown,
                        "  ["@ + id,
                    )
                    &&& f.get("url"@) matches Some(JsonView::Str(u)) ==> text::has_suffix(
                        shown,
                        text::shortened(u, 60),
                    )
                    &&& f.get("name"@) matches Some(JsonView::Str(n)) ==> (n.len() > 0
                        ==> text::holds(shown, "\""@ + n + "\""@))
                }
        },
{
    if let CommandOutput::List { items, human_lines, summary } = r {
        text::lemma_texts_index(human_lines@);
        let all = model::each(found@);
        assert(all == frames_in(answer));
        assert forall|i: int| #![trigger human_lines@[i]] 0 <= i < found@.len() implies {
            let f = found@[i]@;
            let shown = human_lines@[i]@;
            &&& f.get("id"@) matches Some(JsonView::Str(id)) ==> text::has_prefix(shown, "  ["@ + id)
            &&& f.get("url"@) matches Some(JsonView::Str(u)) ==> text::has_suffix(
                shown,
                text::shortened(u, 60),
            )
            &&& f.get("name"@) matches Some(JsonView::Str(n)) ==> (n.len() > 0 ==> text::holds(
                shown,
                "\""@ + n + "\""@,
            ))
        } by {
            assert(text::texts(human_lines@)[i] == human_lines@[i]@);
            assert(all[i] == found@[i]@);
            lemma_row(found@[i]@);
        }
    }
}

proof fn lemma_row(f: JsonView)
    ensures
        ({
            let shown = row(f);
            let name = headless::text_or(f, "name"@, ""@);
            &&& text::has_prefix(shown, "  ["@ + headless::text_or(f, "id"@, "?"@))
            &&& text::has_suffix(shown, text::shortened(headless::text_or(f, "url"@, ""@), 60))
            &&& name.len() > 0 ==> text::holds(shown, "\""@ + name + "\""@)
        }),
{
    let front = "  ["@ + headless::text_or(f, "id"@, "?"@);
    let url = text::shortened(headless::text_or(f, "url"@, ""@), 60);
    let name = headless::text_or(f, "name"@, ""@);
    let mid = if name.len() == 0 {
        "] "@
    } else {
        "] \""@ + name + "\" "@
    };
    assert(row(f) =~= front + (mid + url));
    text::lemma_front(front, mid + url);
    text::lemma_back(front + mid, url);
    if name.len() > 0 {
        reveal_strlit("] \"");
        reveal_strlit("] ");
        reveal_strlit("\"");
        reveal_strlit("\" ");
        reveal_strlit(" ");
        assert("] \""@ =~= "] "@ + "\""@);
        assert("\" "@ =~= "\""@ + " "@);
        assert(row(f) =~= (front + "] "@) + ("\""@ + name + "\""@) + (" "@ + url));
        text::lemma_part(front + "] "@, "\""@ + name + "\""@, " "@ + url);
    }
}

/// The page is asked for the frame as it is told: by name, address, script, or as the page's own. It is
/// gone to exactly where the page says so; else the reason is what the page tells.
pub proof fn law_frames_are_gone_to(
    name: Option<&str>,
    url_pattern: Option<&str>,
    predicate: Option<&str>,
    main: bool,
    asked: Json,
    answer: Json,
    r: Result<CommandOutput, Failure>,
    why: String,
)
    requires
        call_ensures(switch_message, (name, url_pattern, predicate, main), asked),
        call_ensures(switch_frame, (answer,), r),
        call_ensures(switch_reason, (&answer,), why),
    ensures
        ({
            let said = |t: Option<&str>|
                Some(
                    match t {
                        Some(s) => JsonView::Str(s@),
                        None => JsonView::Null,
                    },
                );
            &&& asked@.get("type"@) == Some(JsonView::Str("switchFrame"@))
            &&& asked@.get("name"@) == said(name)
            &&& asked@.get("url_pattern"@) == said(url_pattern)
            &&& asked@.get("predicate"@) == said(predicate)
            &&& asked@.get("main"@) == Some(JsonView::Bool(main))
        }),
        r is Ok <==> answer@.get("success"@) == Some(JsonView::Bool(true)),
        r matches Ok(o) ==> (o matches CommandOutput::Data { json, human } && json@ == answer@ && (
        answer@.get("url"@) matches Some(JsonView::Str(u)) ==> text::has_suffix(
            human@,
            " ("@ + u + ")"@,
        )) && (answer@.get("frame_id"@) matches Some(JsonView::Num(crate::json::NumberView::Unsigned(n)))
            ==> (n <= i64::MAX ==> text::has_prefix(
            human@,
            "Switched to frame "@ + text::decimal(n as nat),
        )))),
        answer@.get("error"@) matches Some(JsonView::Str(e)) ==> why@ == e,
        answer@.get("error"@) matches Some(e) ==> (e.get("message"@) matches Some(JsonView::Str(m))
            ==> why@ == m),
{
    reveal_strlit("type");
    reveal_strlit("name");
    reveal_strlit("url_pattern");
    reveal_strlit("predicate");
    reveal_strlit("main");
    assert("type"@.len() == 4);
    assert("name"@.len() == 4);
    assert("url_pattern"@.len() == 11);
    assert("predicate"@.len() == 9);
    assert("main"@.len() == 4);
    assert("type"@[0] != "name"@[0]);
    assert("type"@[0] != "main"@[0]);
    assert("name"@[0] != "main"@[0]);
    if let Ok(CommandOutput::Data { json, human }) = r {
        let number = frame_number(answer@) as int;
        text::law_padded_and_signed(0, number);
        let front = "Switched to frame "@ + text::signed_decimal(number);
        let end = " ("@ + headless::text_or(answer@, "url"@, ""@) + ")"@;
        assert(human@ =~= front + end);
        text::lemma_front(front, end);
        text::lemma_back(front, end);
    }
}

/// What is listed is counted below it.
pub proof fn law_frames_are_counted(answer: Json, r: CommandOutput)
    requires
        call_ensures(list_frames, (&answer,), r),
    ensures
        r matches CommandOutput::List { items, human_lines, summary } ==> summary@
            == "("@ + text::decimal(human_lines@.len()) + " "@ + "frames"@ + ")"@,
{
    if let CommandOutput::List { items, human_lines, summary } = r {
        text::lemma_texts_index(human_lines@);
    }
}

} // verus!
