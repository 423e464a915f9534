//! A page over a time, picture by picture.
use crate::headless::{Failure, FailureView};
use crate::json::{Json, JsonView};
use crate::model;
use crate::text;
use crate::text::{dec3, push_decimal};
use vstd::prelude::*;
use vstd::string::StringExecFns;

verus! {

/// How many pictures a time takes, at least one.
pub open spec fn pictures(duration: u32, interval: u32) -> int {
    let n = (duration + interval - 1) / interval as int;
    if n < 1 {
        1
    } else {
        n
    }
}

/// How many pictures to take: as many as asked for, or as the time takes. Times are in the same
/// unit.
pub fn frame_count(frames: Option<u32>, duration: Option<u32>, interval: u32) -> (r: Result<
    u32,
    Failure,
>)
    requires
        frames is None && duration is Some ==> interval > 0,
    ensures
        match r {
            Ok(n) => match frames {
                Some(f) => n == f,
                None => duration is Some && n == pictures(duration->0, interval),
            },
            Err(e) => frames is None && duration is None && e@ == FailureView::Plain(
                "Specify --frames or --duration"@,
            ),
        },
{
    if let Some(f) = frames {
        return Ok(f);
    }
    match duration {
        Some(d) => {
            let n: u64 = (d as u64 + interval as u64 - 1) / interval as u64;
            assert(n <= d) by (nonlinear_arith)
                requires
                    n == (d + interval - 1) / interval as int,
                    interval > 0,
            ;
            if n < 1 {
                Ok(1)
            } else {
                Ok(n as u32)
            }
        },
        None => Err(Failure::Plain("Specify --frames or --duration".to_owned())),
    }
}

/// The name of the file for a picture of what was begun at a time.
pub fn frame_name(millis: u128, index: u32) -> (r: String)
    ensures
        r@ == "frame_"@ + text::decimal(millis as nat) + "_"@ + text::three_digits(index as nat)
            + ".png"@,
{
    let mut name = "frame_".to_owned();
    push_decimal(&mut name, millis);
    name.concat("_").concat(dec3(index).as_str()).concat(".png")
}

/// What is said of a picture.
pub fn frame_json(index: u32, path: &str, millis: u64, dom: Option<Json>) -> (r: Json)
    ensures
        r@ == ({
            let frame = JsonView::object().with("index"@, JsonView::number(index as u64)).with(
                "screenshot"@,
                JsonView::Str(path@),
            ).with("timestamp_ms"@, JsonView::number(millis));
            match model::maybe(dom) {
                Some(d) => frame.with("dom"@, d),
                None => frame,
            }
        }),
{
    let frame = Json::object().with("index", Json::number(index as u64)).with(
        "screenshot",
        Json::string(path),
    ).with("timestamp_ms", Json::number(millis));
    match dom {
        Some(d) => frame.with("dom", d),
        None => frame,
    }
}

/// As many pictures are taken as asked for; else as many as cover the time, and not one more, but at
/// least one. Without either it fails.
pub proof fn law_pictures_cover_the_time(
    frames: Option<u32>,
    duration: Option<u32>,
    interval: u32,
    r: Result<u32, Failure>,
)
    requires
        interval > 0,
        call_ensures(frame_count, (frames, duration, interval), r),
    ensures
        r is Ok <==> frames is Some || duration is Some,
        frames matches Some(f) ==> r->Ok_0 == f,
        frames is None ==> (duration matches Some(d) ==> {
            let n = r->Ok_0 as int;
            &&& n >= 1
            &&& n * interval >= d
            &&& n == 1 || (n - 1) * interval < d
        }),
{
    if frames is None {
        if let Some(d) = duration {
            let (x, i) = (d + interval - 1, interval as int);
            let q = x / i;
            assert(i * q <= x && x < i * q + i) by (nonlinear_arith)
                requires
                    q == x / i,
                    i > 0,
            ;
            assert(q * i == i * q) by (nonlinear_arith);
            assert((q - 1) * i == q * i - i) by (nonlinear_arith);
            let n = r->Ok_0 as int;
            if q < 1 {
                assert(i * q <= 0) by (nonlinear_arith)
                    requires
                        q < 1,
                        i > 0,
                ;
                assert(n == 1);
                assert(n * interval == interval);
            } else {
                assert(n == q);
                assert(n * interval == q * i);
                assert((n - 1) * interval == (q - 1) * i);
            }
        }
    }
}

/// The file of a picture tells when the recording was begun and which picture it is; what is said of a
/// picture names its number, file and time, and the elements where they were looked at.
pub proof fn law_pictures_are_told(
    millis: u128,
    i: u32,
    name: String,
    path: &str,
    at: u64,
    dom: Option<Json>,
    r: Json,
)
    requires
        call_ensures(frame_name, (millis, i), name),
        call_ensures(frame_json, (i, path, at, dom), r),
    ensures
        text::has_prefix(name@, "frame_"@ + text::decimal(millis as nat) + "_"@),
        text::has_suffix(name@, ".png"@),
        text::digits_value(
            name@.subrange(
                ("frame_"@ + text::decimal(millis as nat) + "_"@).len() as int,
                name@.len() - ".png"@.len(),
            ),
        ) == i,
        r@.get("index"@) == Some(JsonView::Num(crate::json::NumberView::Unsigned(i as u64))),
        r@.get("screenshot"@) == Some(JsonView::Str(path@)),
        r@.get("timestamp_ms"@) == Some(JsonView::Num(crate::json::NumberView::Unsigned(at))),
        dom is None ==> r@.get("dom"@) is None,
        dom matches Some(d) ==> r@.get("dom"@) == Some(d@),
{
    reveal_strlit("index");
    reveal_strlit("screenshot");
    reveal_strlit("timestamp_ms");
    reveal_strlit("dom");
    assert("index"@.len() == 5);
    assert("screenshot"@.len() == 10);
    assert("timestamp_ms"@.len() == 12);
    assert("dom"@.len() == 3);
    let front = "frame_"@ + text::decimal(millis as nat) + "_"@;
    let digits = text::three_digits(i as nat);
    text::law_padded_and_signed(i as nat, 0);
    assert(name@ =~= front + (digits + ".png"@));
    text::lemma_front(front, digits + ".png"@);
    text::lemma_back(front + digits, ".png"@);
    assert(name@.subrange(front.len() as int, name@.len() - ".png"@.len()) =~= digits);
}

} // verus!
