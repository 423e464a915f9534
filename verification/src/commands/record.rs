//! `record`: a sequence of frames.
use crate::codec;
use crate::codec::base64_decode;
use crate::error;
use crate::error::{ErrorView, WebPilotError};
use crate::json;
use crate::json::{Json, JsonView};
use crate::output::{CommandOutput, OutputView};
use crate::protocol::Download;
use crate::text;
use crate::text::{dec, dec3};
use vstd::prelude::*;
use vstd::string::StringExecFns;

verus! {

broadcast use {text::group_texts, json::group_json_views};

/// How long to record: the number of seconds as it is shown, whether it is finite and positive, and
/// how many frames it comes to, rounded up.
#[derive(Debug, PartialEq, Eq)]
pub struct Seconds {
    pub shown: String,
    pub positive: bool,
    pub frames: u32,
}

/// The arguments of `record`.
#[derive(Debug, PartialEq, Eq)]
pub struct RecordArgs {
    pub frames: Option<u32>,
    pub duration: Option<Seconds>,
    /// The milliseconds between two frames.
    pub interval: u32,
    pub dom: bool,
    pub url: Option<String>,
}

/// The error for an argument.
pub open spec fn bad(detail: Seq<char>) -> Result<u32, ErrorView> {
    Err(ErrorView::InvalidArgument(detail))
}

/// How many frames to record: the number given, or as many as the duration takes, at least one and
/// at most the limit.
pub open spec fn frames_outcome(args: RecordArgs, max_frames: u32) -> Result<u32, ErrorView> {
    if args.interval == 0 {
        bad("--interval must be greater than 0"@)
    } else if args.frames == Some(0u32) {
        bad("--frames must be greater than 0"@)
    } else if args.duration is Some && !args.duration->0.positive {
        bad(
            "--duration must be a positive number of seconds (got "@ + args.duration->0.shown@
                + ")"@,
        )
    } else if args.frames is Some && args.duration is Some {
        bad("specify --frames OR --duration, not both"@)
    } else if args.frames is None && args.duration is None {
        bad("specify --frames or --duration"@)
    } else {
        let count: u32 = match args.frames {
            Some(f) => f,
            None => if args.duration->0.frames == 0 {
                1
            } else {
                args.duration->0.frames
            },
        };
        if count > max_frames {
            bad(
                "recording of "@ + text::decimal(count as nat) + " frames exceeds the "@
                    + text::decimal(max_frames as nat)
                    + "-frame limit (raise [capture] max_record_frames to override)"@,
            )
        } else {
            Ok(count)
        }
    }
}

/// How many frames to record, decided before anything is done to the browser.
pub fn frame_count(args: &RecordArgs, max_frames: u32) -> (r: Result<u32, WebPilotError>)
    ensures
        match frames_outcome(*args, max_frames) {
            Ok(n) => r is Ok && r->Ok_0 == n,
            Err(e) => r is Err && r->Err_0@ == e,
        },
{
    if args.interval == 0 {
        return Err(WebPilotError::invalid("--interval must be greater than 0"));
    }
    if let Some(f) = args.frames {
        if f == 0 {
            return Err(WebPilotError::invalid("--frames must be greater than 0"));
        }
    }
    if let Some(d) = &args.duration {
        if !d.positive {
            return Err(
                WebPilotError::InvalidArgument {
                    detail: "--duration must be a positive number of seconds (got ".to_owned().concat(
                        d.shown.as_str(),
                    ).concat(")"),
                },
            );
        }
    }
    let count: u32 = match (args.frames, &args.duration) {
        (Some(_), Some(_)) => {
            return Err(WebPilotError::invalid("specify --frames OR --duration, not both"));
        },
        (Some(f), None) => f,
        (None, Some(d)) => if d.frames == 0 {
            1
        } else {
            d.frames
        },
        (None, None) => {
            return Err(WebPilotError::invalid("specify --frames or --duration"));
        },
    };
    if count > max_frames {
        return Err(
            WebPilotError::InvalidArgument {
                detail: "recording of ".to_owned().concat(dec(count as u64).as_str()).concat(
                    " frames exceeds the ",
                ).concat(dec(max_frames as u64).as_str()).concat(
                    "-frame limit (raise [capture] max_record_frames to override)",
                ),
            },
        );
    }
    Ok(count)
}

/// The name of a frame's file, or of the snapshot beside it: `frame_stamp_007.png`.
pub fn frame_file(stamp: &str, i: u32, dom: bool) -> (r: String)
    ensures
        r@ == "frame_"@ + stamp@ + "_"@ + text::three_digits(i as nat) + (if dom {
            ".dom.json"@
        } else {
            ".png"@
        }),
{
    let end = if dom {
        ".dom.json"
    } else {
        ".png"
    };
    "frame_".to_owned().concat(stamp).concat("_").concat(dec3(i).as_str()).concat(end)
}

/// The stamp of a recording: no two at once share it.
pub fn stamp(pid: u32, nanos: u128) -> (r: String)
    ensures
        r@ == text::decimal(pid as nat) + "_"@ + text::decimal(nanos as nat),
{
    let mut s = dec(pid as u64).concat("_");
    text::push_decimal(&mut s, nanos);
    s
}

/// The bytes of a frame that arrived in base64.
pub fn frame_bytes(b64: &str) -> (r: Result<Vec<u8>, WebPilotError>)
    ensures
        error::outcome(r) == (match codec::base64_bytes(b64@) {
            Ok(bytes) => Ok(bytes),
            Err(e) => Err(ErrorView::Other(e)),
        }),
{
    match base64_decode(b64) {
        Ok(bytes) => Ok(bytes),
        Err(e) => Err(WebPilotError::Other { detail: e }),
    }
}

/// The error for a frame without the snapshot that was asked for.
pub fn no_snapshot(i: u32) -> (r: WebPilotError)
    ensures
        r@ == ErrorView::Other(
            "record: frame "@ + text::decimal(i as nat) + " produced no DOM snapshot"@,
        ),
{
    WebPilotError::Other {
        detail: "record: frame ".to_owned().concat(dec(i as u64).as_str()).concat(
            " produced no DOM snapshot",
        ),
    }
}

/// Texts as a JSON array.
pub open spec fn texts_json(items: Seq<Seq<char>>) -> JsonView {
    JsonView::Array(Seq::new(items.len(), |i: int| JsonView::Str(items[i])))
}

fn strings(items: &Vec<String>) -> (r: Json)
    ensures
        r@ == texts_json(text::texts(items@)),
{
    let mut out: Vec<Json> = Vec::new();
    for i in 0..items.len()
        invariant
            out@.len() == i,
            forall|j: int| 0 <= j < i ==> (#[trigger] out@[j])@ == JsonView::Str(items@[j]@),
    {
        out.push(Json::string(items[i].as_str()));
    }
    proof {
        json::lemma_views_index(out@);
        text::lemma_texts_index(items@);
        let all = text::texts(items@);
        assert(json::views(out@) =~= Seq::new(all.len(), |i: int| JsonView::Str(all[i])));
    }
    Json::Array(out)
}

/// What `record` prints.
pub open spec fn record_output(
    dir: Seq<char>,
    count: u32,
    frames: Seq<Seq<char>>,
    dom_files: Option<Seq<Seq<char>>>,
    downloads: Seq<JsonView>,
) -> OutputView {
    let j1 = JsonView::object().with("dir"@, JsonView::Str(dir)).with(
        "count"@,
        JsonView::number(count as u64),
    ).with("frames"@, texts_json(frames));
    let j2 = if downloads.len() == 0 {
        j1
    } else {
        j1.with("downloads"@, JsonView::Array(downloads))
    };
    OutputView::Data(
        match dom_files {
            Some(files) => j2.with("dom"@, texts_json(files)),
            None => j2,
        },
        text::decimal(count as nat) + " frames -> "@ + dir,
    )
}

/// What `record` prints: where the frames are, and the snapshots beside them where they were asked
/// for.
pub fn run(
    dir: &str,
    count: u32,
    frames: &Vec<String>,
    dom_files: &Option<Vec<String>>,
    downloads: &Vec<Download>,
) -> (r: CommandOutput)
    ensures
        r@ == record_output(
            dir@,
            count,
            text::texts(frames@),
            match *dom_files {
                Some(files) => Some(text::texts(files@)),
                None => None,
            },
            Seq::new(downloads@.len(), |i: int| downloads@[i].wire@),
        ),
{
    let mut json = Json::object().with("dir", Json::string(dir)).with(
        "count",
        Json::number(count as u64),
    ).with("frames", strings(frames));
    if downloads.len() > 0 {
        let mut wires: Vec<Json> = Vec::new();
        for i in 0..downloads.len()
            invariant
                wires@.len() == i,
                forall|j: int| 0 <= j < i ==> (#[trigger] wires@[j])@ == downloads@[j].wire@,
        {
            wires.push(downloads[i].wire.copy());
        }
        proof {
            json::lemma_views_index(wires@);
            assert(json::views(wires@) =~= Seq::new(
                downloads@.len(),
                |i: int| downloads@[i].wire@,
            ));
        }
        json = json.with("downloads", Json::Array(wires));
    }
    if let Some(files) = dom_files {
        json = json.with("dom", strings(files));
    }
    let human = dec(count as u64).concat(" frames -> ").concat(dir);
    CommandOutput::Data { json, human }
}

/// A recording that is begun has at least one frame, and no more than the limit.
pub proof fn law_recordings_are_bounded(args: RecordArgs, max_frames: u32)
    ensures
        match frames_outcome(args, max_frames) {
            Ok(n) => 1 <= n <= max_frames,
            Err(_) => true,
        },
{
}

/// A recording takes as many frames as are asked for, or as many as fit in the duration and at least
/// one; it is refused where neither or both are given, where a number makes no sense, and where there
/// would be more frames than the limit.
pub proof fn law_frames_are_counted(args: RecordArgs, max_frames: u32, r: Result<u32, WebPilotError>)
    requires
        call_ensures(frame_count, (&args, max_frames), r),
    ensures
        r is Ok ==> args.interval > 0 && (args.frames is Some <==> args.duration is None),
        r matches Ok(n) ==> 1 <= n <= max_frames,
        r matches Ok(n) ==> (args.frames matches Some(f) ==> n == f),
        r matches Ok(n) ==> (args.duration matches Some(d) ==> d.positive && (d.frames > 0 ==> n
            == d.frames) && (d.frames == 0 ==> n == 1)),
        args.interval > 0 && args.duration is None && (args.frames matches Some(f) && 0 < f
            <= max_frames) ==> r is Ok,
        args.interval > 0 && args.frames is None && (args.duration matches Some(d) && d.positive
            && d.frames <= max_frames && max_frames > 0) ==> r is Ok,
        r is Err ==> r->Err_0 is InvalidArgument,
{
}

/// The file of a frame tells the recording and the frame: frames of one recording have different
/// files, and a picture never has that of a snapshot.
pub proof fn law_frames_have_files_of_their_own(
    stamp: &str,
    i: u32,
    j: u32,
    a: String,
    b: String,
    snapshot: String,
)
    requires
        call_ensures(frame_file, (stamp, i, false), a),
        call_ensures(frame_file, (stamp, j, false), b),
        call_ensures(frame_file, (stamp, i, true), snapshot),
    ensures
        i != j ==> a@ != b@,
        text::has_prefix(a@, "frame_"@ + stamp@ + "_"@),
        text::has_suffix(a@, ".png"@),
        text::has_prefix(snapshot@, "frame_"@ + stamp@ + "_"@),
        text::has_suffix(snapshot@, ".dom.json"@),
        text::digits_value(
            a@.subrange(("frame_"@ + stamp@ + "_"@).len() as int, a@.len() - ".png"@.len()),
        ) == i,
        text::digits_value(
            snapshot@.subrange(
                ("frame_"@ + stamp@ + "_"@).len() as int,
                snapshot@.len() - ".dom.json"@.len(),
            ),
        ) == i,
{
    let front = "frame_"@ + stamp@ + "_"@;
    text::law_padded_and_signed(i as nat, 0);
    text::law_padded_and_signed(j as nat, 0);
    let at_i = text::three_digits(i as nat);
    let at_j = text::three_digits(j as nat);
    assert(a@ =~= front + (at_i + ".png"@));
    assert(b@ =~= front + (at_j + ".png"@));
    assert(snapshot@ =~= front + (at_i + ".dom.json"@));
    text::lemma_front(front, at_i + ".png"@);
    text::lemma_front(front, at_i + ".dom.json"@);
    text::lemma_back(front + at_i, ".png"@);
    text::lemma_back(front + at_i, ".dom.json"@);
    assert(a@.subrange(front.len() as int, a@.len() - ".png"@.len()) =~= at_i);
    assert(b@.subrange(front.len() as int, b@.len() - ".png"@.len()) =~= at_j);
    assert(snapshot@.subrange(front.len() as int, snapshot@.len() - ".dom.json"@.len()) =~= at_i);
}

/// What a recording prints names its directory, how many frames there are, each frame's file in its
/// order, each snapshot's where there are snapshots, and what was downloaded where anything was.
pub proof fn law_recordings_are_told(
    dir: &str,
    count: u32,
    frames: Vec<String>,
    dom_files: Option<Vec<String>>,
    downloads: Vec<Download>,
    r: CommandOutput,
)
    requires
        call_ensures(run, (dir, count, &frames, &dom_files, &downloads), r),
    ensures
        r matches CommandOutput::Data { json, human } && {
            &&& json@.get("dir"@) == Some(JsonView::Str(dir@))
            &&& json@.get("count"@) == Some(JsonView::Num(json::NumberView::Unsigned(count as u64)))
            &&& json@.get("frames"@) matches Some(JsonView::Array(list)) && list.len()
                == frames@.len() && forall|i: int|
                0 <= i < frames@.len() ==> #[trigger] list[i] == JsonView::Str(frames@[i]@)
            &&& dom_files is None ==> json@.get("dom"@) is None
            &&& dom_files matches Some(files) ==> (json@.get("dom"@) matches Some(
                JsonView::Array(list),
            ) && list.len() == files@.len() && forall|i: int|
                0 <= i < files@.len() ==> #[trigger] list[i] == JsonView::Str(files@[i]@))
            &&& downloads@.len() == 0 ==> json@.get("downloads"@) is None
            &&& downloads@.len() > 0 ==> (json@.get("downloads"@) matches Some(
                JsonView::Array(list),
            ) && list.len() == downloads@.len() && forall|i: int|
                0 <= i < downloads@.len() ==> #[trigger] list[i] == downloads@[i].wire@)
            &&& text::has_prefix(human@, text::decimal(count as nat))
            &&& text::has_suffix(human@, dir@)
        },
{
    reveal_strlit("dir");
    reveal_strlit("count");
    reveal_strlit("frames");
    reveal_strlit("downloads");
    reveal_strlit("dom");
    assert("dir"@.len() == 3);
    assert("count"@.len() == 5);
    assert("frames"@.len() == 6);
    assert("downloads"@.len() == 9);
    assert("dom"@.len() == 3);
    assert("dir"@[1] != "dom"@[1]);
    text::lemma_texts_index(frames@);
    if let Some(files) = dom_files {
        text::lemma_texts_index(files@);
    }
    if let CommandOutput::Data { json, human } = r {
        let n = text::decimal(count as nat);
        assert(human@ =~= n + (" frames -> "@ + dir@));
        text::lemma_front(n, " frames -> "@ + dir@);
        text::lemma_back(n + " frames -> "@, dir@);
    }
}

/// The bytes of a frame are what its base64 stands for, and two recordings at different times have
/// different stamps.
pub proof fn law_frames_and_stamps(
    b64: &str,
    r: Result<Vec<u8>, WebPilotError>,
    pid: u32,
    nanos: u128,
    s: String,
    i: u32,
    e: WebPilotError,
)
    requires
        call_ensures(frame_bytes, (b64,), r),
        call_ensures(stamp, (pid, nanos), s),
        call_ensures(no_snapshot, (i,), e),
    ensures
        r is Ok <==> codec::base64_bytes(b64@) is Ok,
        r matches Ok(bytes) ==> bytes@ == codec::base64_bytes(b64@)->Ok_0,
        text::has_prefix(s@, text::decimal(pid as nat) + "_"@),
        text::has_suffix(s@, "_"@ + text::decimal(nanos as nat)),
        e matches WebPilotError::Other { detail } && text::holds(detail@, text::decimal(i as nat)),
{
    let (a, b) = (text::decimal(pid as nat), text::decimal(nanos as nat));
    assert(s@ =~= (a + "_"@) + b);
    text::lemma_front(a + "_"@, b);
    assert(s@ =~= a + ("_"@ + b));
    text::lemma_back(a, "_"@ + b);
    text::lemma_part("record: frame "@, text::decimal(i as nat), " produced no DOM snapshot"@);
}

} // verus!
