//! `frames`: the frames of the page in the user's browser.
use crate::commands::ipc_helper;
use crate::commands::ipc_helper::{check_done, Answer, Done};
use crate::error;
use crate::error::WebPilotError;
use crate::headless::array_of;
use crate::json;
use crate::json::{Json, JsonView};
use crate::model;
use crate::output::{CommandOutput, OutputView};
use crate::text;
use crate::text::{dec, shorten, signed_dec};
use vstd::prelude::*;
use vstd::string::StringExecFns;

verus! {

/// The arguments of `frames`.
#[derive(Debug, PartialEq, Eq)]
pub struct FramesArgs {
    /// What to do; the frames are listed where nothing is said.
    pub command: Option<FrameCommand>,
}

/// What `frames` does.
#[derive(Debug, PartialEq, Eq)]
pub enum FrameCommand {
    Switch { name: String },
    /// Goes to the frame whose address fits a pattern.
    Url { pattern: String },
    /// Goes to the frame that a script tells.
    Find { predicate: String },
    Main,
}

/// What the host is asked: the list of frames, or to go to one.
#[derive(Debug, PartialEq, Eq)]
pub enum FrameRequest {
    List,
    Switch {
        name: Option<String>,
        url_pattern: Option<String>,
        predicate: Option<String>,
        main: bool,
    },
}

/// What the host is asked.
pub fn request(args: FramesArgs) -> (r: FrameRequest)
    ensures
        r == (match args.command {
            None => FrameRequest::List,
            Some(FrameCommand::Switch { name }) => FrameRequest::Switch {
                name: Some(name),
                url_pattern: None,
                predicate: None,
                main: false,
            },
            Some(FrameCommand::Url { pattern }) => FrameRequest::Switch {
                name: None,
                url_pattern: Some(pattern),
                predicate: None,
                main: false,
            },
            Some(FrameCommand::Find { predicate }) => FrameRequest::Switch {
                name: None,
                url_pattern: None,
                predicate: Some(predicate),
                main: false,
            },
            Some(FrameCommand::Main) => FrameRequest::Switch {
                name: None,
                url_pattern: None,
                predicate: None,
                main: true,
            },
        }),
{
    match args.command {
        None => FrameRequest::List,
        Some(FrameCommand::Switch { name }) => FrameRequest::Switch {
            name: Some(name),
            url_pattern: None,
            predicate: None,
            main: false,
        },
        Some(FrameCommand::Url { pattern }) => FrameRequest::Switch {
            name: None,
            url_pattern: Some(pattern),
            predicate: None,
            main: false,
        },
        Some(FrameCommand::Find { predicate }) => FrameRequest::Switch {
            name: None,
            url_pattern: None,
            predicate: Some(predicate),
            main: false,
        },
        Some(FrameCommand::Main) => FrameRequest::Switch {
            name: None,
            url_pattern: None,
            predicate: None,
            main: true,
        },
    }
}

/// A frame, with the JSON that describes it.
pub struct NumberedFrame {
    pub frame_id: i64,
    pub url: String,
    pub is_main: bool,
    pub wire: Json,
}

/// What a frame is.
pub struct NumberedView {
    pub frame_id: i64,
    pub url: Seq<char>,
    pub is_main: bool,
    pub wire: JsonView,
}

impl View for NumberedFrame {
    type V = NumberedView;

    open spec fn view(&self) -> NumberedView {
        NumberedView {
            frame_id: self.frame_id,
            url: self.url@,
            is_main: self.is_main,
            wire: self.wire@,
        }
    }
}

/// The text with blanks before it, up to a width.
pub open spec fn right(s: Seq<char>, width: nat) -> Seq<char>
    decreases width - s.len(),
{
    if s.len() < width {
        right(seq![' '] + s, width)
    } else {
        s
    }
}

fn align(s: String, width: usize) -> (r: String)
    ensures
        r@ == right(s@, width as nat),
{
    let mut out = s;
    proof {
        reveal_strlit(" ");
        assert(" "@ =~= seq![' ']);
    }
    let mut n: usize = out.as_str().unicode_len();
    let ghost start = out@;
    while n < width
        invariant
            n == out@.len(),
            " "@ == seq![' '],
            right(out@, width as nat) == right(start, width as nat),
        decreases width - n,
    {
        out = " ".to_owned().concat(out.as_str());
        n += 1;
    }
    out
}

/// `* [ id] url [main]`, where the star is for the frame that commands go to.
pub open spec fn row(f: NumberedView, active: i64) -> Seq<char> {
    (if f.frame_id == active {
        "*"@
    } else {
        " "@
    }) + " ["@ + right(text::signed_decimal(f.frame_id as int), 3) + "] "@ + text::shortened(
        f.url,
        60,
    ) + (if f.is_main {
        " [main]"@
    } else {
        ""@
    })
}

fn row_of(f: &NumberedFrame, active: i64) -> (r: String)
    ensures
        r@ == row(f@, active),
{
    let marker = if f.frame_id == active {
        "*"
    } else {
        " "
    };
    let main = if f.is_main {
        " [main]"
    } else {
        ""
    };
    marker.to_owned().concat(" [").concat(align(signed_dec(f.frame_id), 3).as_str()).concat(
        "] ",
    ).concat(shorten(f.url.as_str(), 60).as_str()).concat(main)
}

/// The frames, and the one that commands go to.
pub struct FrameList {
    pub frames: Vec<NumberedFrame>,
    pub active_frame_id: i64,
}

/// What a listing prints.
pub open spec fn listing(frames: Seq<NumberedView>, active: i64) -> OutputView {
    OutputView::List(
        JsonView::object().with(
            "frames"@,
            JsonView::Array(Seq::new(frames.len(), |i: int| frames[i].wire)),
        ).with("active_frame_id"@, JsonView::integer(active as int)),
        Seq::new(frames.len(), |i: int| row(frames[i], active)),
        "("@ + text::decimal(frames.len()) + " frames, active="@ + text::signed_decimal(
            active as int,
        ) + ")"@,
    )
}

/// What a listing prints.
pub fn list_frames(answer: Answer<FrameList>) -> (r: Result<CommandOutput, WebPilotError>)
    ensures
        error::outcome(r) == (match answer {
            Answer::Data(l) => Ok(listing(model::each(l.frames@), l.active_frame_id)),
            _ => Err(ipc_helper::unexpected_error()),
        }),
{
    match answer.only_data() {
        Err(e) => Err(e),
        Ok(list) => {
            let active = list.active_frame_id;
            let frames = list.frames;
            let ghost all = model::each(frames@);
            let mut items: Vec<Json> = Vec::new();
            let mut rows: Vec<String> = Vec::new();
            for i in 0..frames.len()
                invariant
                    all == model::each(frames@),
                    items@.len() == i,
                    rows@.len() == i,
                    forall|j: int| 0 <= j < i ==> (#[trigger] items@[j])@ == all[j].wire,
                    forall|j: int| 0 <= j < i ==> (#[trigger] rows@[j])@ == row(all[j], active),
            {
                items.push(frames[i].wire.copy());
                rows.push(row_of(&frames[i], active));
            }
            let summary = "(".to_owned().concat(dec(frames.len() as u64).as_str()).concat(
                " frames, active=",
            ).concat(signed_dec(active).as_str()).concat(")");
            proof {
                assert(model::each(items@) =~= Seq::new(all.len(), |i: int| all[i].wire));
                text::lemma_texts_index(rows@);
                assert(text::texts(rows@) =~= Seq::new(all.len(), |i: int| row(all[i], active)));
            }
            Ok(
                CommandOutput::List {
                    items: Json::object().with("frames", array_of(items)).with(
                        "active_frame_id",
                        Json::integer(active),
                    ),
                    human_lines: rows,
                    summary,
                },
            )
        },
    }
}

/// The answer to going to a frame.
pub struct Switched {
    pub done: Done,
    pub frame_id: i64,
    pub url: Option<String>,
}

/// What going to a frame prints.
pub fn switch_frame(answer: Answer<Switched>) -> (r: Result<CommandOutput, WebPilotError>)
    ensures
        error::outcome(r) == (match answer {
            Answer::Data(s) => if s.done.success {
                Ok(
                    OutputView::Data(
                        JsonView::object().with("success"@, JsonView::Bool(true)).with(
                            "frame_id"@,
                            JsonView::integer(s.frame_id as int),
                        ).with("url"@, json::text_json(model::maybe(s.url))),
                        "Switched to frame "@ + text::signed_decimal(s.frame_id as int) + " ("@ + (
                        match model::maybe(s.url) {
                            Some(u) => u,
                            None => ""@,
                        }) + ")"@,
                    ),
                )
            } else {
                Err(ipc_helper::why_not(model::maybe(s.done.error)))
            },
            _ => Err(ipc_helper::refusal(answer)),
        }),
{
    match answer.data() {
        Err(e) => Err(e),
        Ok(s) => {
            if let Err(e) = check_done(s.done) {
                return Err(e);
            }
            let url = match &s.url {
                Some(u) => Some(u.as_str()),
                None => None,
            };
            let shown = match url {
                Some(u) => u,
                None => "",
            };
            let human = "Switched to frame ".to_owned().concat(
                signed_dec(s.frame_id).as_str(),
            ).concat(" (").concat(shown).concat(")");
            Ok(
                CommandOutput::Data {
                    json: Json::object().with("success", Json::Bool(true)).with(
                        "frame_id",
                        Json::integer(s.frame_id),
                    ).with("url", Json::text_or_null(url)),
                    human,
                },
            )
        },
    }
}

/// The host is asked for what the command says: to list the frames, or to go to the one that is named,
/// whose address fits, that a script tells, or the page's own.
pub proof fn law_frame_commands_are_asked(args: FramesArgs, r: FrameRequest)
    requires
        call_ensures(request, (args,), r),
    ensures
        args.command is None <==> r is List,
        args.command matches Some(c) ==> (r matches FrameRequest::Switch {
            name,
            url_pattern,
            predicate,
            main,
        } && {
            &&& c matches FrameCommand::Switch { name: n } ==> name == Some(n) && url_pattern is None
                && predicate is None && !main
            &&& c matches FrameCommand::Url { pattern } ==> name is None && url_pattern == Some(
                pattern,
            ) && predicate is None && !main
            &&& c matches FrameCommand::Find { predicate: p } ==> name is None && url_pattern is None
                && predicate == Some(p) && !main
            &&& c is Main ==> name is None && url_pattern is None && predicate is None && main
        }),
{
}

/// A listing shows every frame in its order, whole in JSON, and on a row that marks the one that
/// commands go to and the page's own; which one commands go to is told.
pub proof fn law_numbered_frames_are_listed(l: FrameList, r: Result<CommandOutput, WebPilotError>)
    requires
        call_ensures(list_frames, (Answer::Data(l),), r),
    ensures
        r matches Ok(CommandOutput::List { items, human_lines, summary }) && {
            &&& items@.get("frames"@) matches Some(JsonView::Array(shown)) && shown.len()
                == l.frames@.len() && forall|i: int|
                0 <= i < shown.len() ==> #[trigger] shown[i] == l.frames@[i].wire@
            &&& l.active_frame_id >= 0 ==> items@.get("active_frame_id"@) == Some(
                JsonView::Num(json::NumberView::Unsigned(l.active_frame_id as u64)),
            )
            &&& l.active_frame_id < 0 ==> items@.get("active_frame_id"@) == Some(
                JsonView::Num(json::NumberView::Negative(l.active_frame_id)),
            )
            &&& human_lines@.len() == l.frames@.len()
            &&& forall|i: int|
                #![trigger human_lines@[i]]
                0 <= i < l.frames@.len() ==> {
                    let f = l.frames@[i];
                    let shown = human_lines@[i]@;
                    &&& text::has_prefix(
                        shown,
                        if f.frame_id == l.active_frame_id {
                            "* ["@
                        } else {
                            "  ["@
                        },
                    )
                    &&& text::has_suffix(
                        shown,
                        text::signed_decimal(f.frame_id as int) + "] "@ + text::shortened(
                            f.url@,
                            60,
                        ) + (if f.is_main {
                            " [main]"@
                        } else {
                            Seq::empty()
                        }),
                    )
                }
        },
{
    reveal_strlit("frames");
    reveal_strlit("active_frame_id");
    assert("frames"@.len() == 6);
    assert("active_frame_id"@.len() == 15);
    if let Ok(CommandOutput::List { items, human_lines, summary }) = r {
        text::lemma_texts_index(human_lines@);
        let all = model::each(l.frames@);
        assert forall|i: int| #![trigger human_lines@[i]] 0 <= i < l.frames@.len() implies {
            let f = l.frames@[i];
            let shown = human_lines@[i]@;
            &&& text::has_prefix(
                shown,
                if f.frame_id == l.active_frame_id {
                    "* ["@
                } else {
                    "  ["@
                },
            )
            &&& text::has_suffix(
                shown,
                text::signed_decimal(f.frame_id as int) + "] "@ + text::shortened(f.url@, 60) + (
                if f.is_main {
                    " [main]"@
                } else {
                    Seq::empty()
                }),
            )
        } by {
            assert(text::texts(human_lines@)[i] == row(all[i], l.active_frame_id));
            lemma_row_of_frame(l.frames@[i]@, l.active_frame_id);
        }
    }
}

proof fn lemma_row_of_frame(f: NumberedView, active: i64)
    ensures
        text::has_prefix(
            row(f, active),
            if f.frame_id == active {
                "* ["@
            } else {
                "  ["@
            },
        ),
        text::has_suffix(
            row(f, active),
            text::signed_decimal(f.frame_id as int) + "] "@ + text::shortened(f.url, 60) + (
            if f.is_main {
                " [main]"@
            } else {
                Seq::empty()
            }),
        ),
{
    reveal_strlit("");
    reveal_strlit("*");
    reveal_strlit(" ");
    reveal_strlit(" [");
    reveal_strlit("* [");
    reveal_strlit("  [");
    assert("*"@ + " ["@ =~= "* ["@);
    assert(" "@ + " ["@ =~= "  ["@);
    let head = if f.frame_id == active {
        "* ["@
    } else {
        "  ["@
    };
    let n = text::signed_decimal(f.frame_id as int);
    let main = if f.is_main {
        " [main]"@
    } else {
        Seq::empty()
    };
    let end = n + "] "@ + text::shortened(f.url, 60) + main;
    law_numbers_stand_right(n, 3);
    let blanks = right(n, 3).take(right(n, 3).len() - n.len());
    assert(right(n, 3) =~= blanks + n);
    assert(row(f, active) =~= head + (blanks + end));
    text::lemma_front(head, blanks + end);
    assert(row(f, active) =~= (head + blanks) + end);
    text::lemma_back(head + blanks, end);
}

/// A text is moved to the right by blanks before it, up to the width and not beyond.
pub proof fn law_numbers_stand_right(s: Seq<char>, width: nat)
    ensures
        right(s, width).len() == (if s.len() < width {
            width
        } else {
            s.len()
        }),
        right(s, width).skip(right(s, width).len() - s.len()) == s,
        forall|i: int| 0 <= i < right(s, width).len() - s.len() ==> #[trigger] right(s, width)[i] == ' ',
    decreases width - s.len(),
{
    if s.len() < width {
        let next = seq![' '] + s;
        law_numbers_stand_right(next, width);
        let all = right(s, width);
        let k = all.len() - next.len();
        assert(all.skip(k + 1) =~= all.skip(k).skip(1));
        assert(next.skip(1) =~= s);
        assert forall|i: int| 0 <= i < all.len() - s.len() implies #[trigger] right(s, width)[i]
            == ' ' by {
            if i == k {
                assert(all.skip(k)[0] == all[k]);
            }
        }
    } else {
        assert(s.skip(0) =~= s);
    }
}

/// Going to a frame tells its number and address, and fails with the reason where it was not gone to.
pub proof fn law_going_to_a_frame_is_told(s: Switched, r: Result<CommandOutput, WebPilotError>)
    requires
        call_ensures(switch_frame, (Answer::Data(s),), r),
    ensures
        r is Ok <==> s.done.success,
        !s.done.success && s.done.error is Some ==> (r matches Err(WebPilotError::Other { detail })
            && detail@ == s.done.error->0@),
        r matches Ok(o) ==> (o matches CommandOutput::Data { json, human } && {
            &&& json@.get("success"@) == Some(JsonView::Bool(true))
            &&& json@.get("url"@) == Some(
                match s.url {
                    Some(u) => JsonView::Str(u@),
                    None => JsonView::Null,
                },
            )
            &&& s.frame_id >= 0 ==> json@.get("frame_id"@) == Some(
                JsonView::Num(json::NumberView::Unsigned(s.frame_id as u64)),
            )
            &&& text::has_prefix(
                human@,
                "Switched to frame "@ + text::signed_decimal(s.frame_id as int),
            )
            &&& s.url matches Some(u) ==> text::has_suffix(human@, " ("@ + u@ + ")"@)
        }),
{
    reveal_strlit("success");
    reveal_strlit("frame_id");
    reveal_strlit("url");
    assert("success"@.len() == 7);
    assert("frame_id"@.len() == 8);
    assert("url"@.len() == 3);
    if let Ok(CommandOutput::Data { json, human }) = r {
        let shown = match model::maybe(s.url) {
            Some(u) => u,
            None => ""@,
        };
        let front = "Switched to frame "@ + text::signed_decimal(s.frame_id as int);
        let end = " ("@ + shown + ")"@;
        assert(human@ =~= front + end);
        text::lemma_front(front, end);
        text::lemma_back(front, end);
    }
}

/// Listed frames are counted below, with the active one.
pub proof fn law_numbered_frames_are_counted(l: FrameList, r: Result<CommandOutput, WebPilotError>)
    requires
        call_ensures(list_frames, (Answer::Data(l),), r),
    ensures
        r matches Ok(CommandOutput::List { items, human_lines, summary }) ==> summary@ == "("@
            + text::decimal(human_lines@.len()) + " frames, active="@ + text::signed_decimal(
            l.active_frame_id as int,
        ) + ")"@,
{
    if let Ok(CommandOutput::List { items, human_lines, summary }) = r {
        text::lemma_texts_index(human_lines@);
    }
}

} // verus!
