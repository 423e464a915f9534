//! Screenshots, pixel by pixel.
use crate::error::{ErrorView, WebPilotError};
use crate::json::{Json, JsonView};
use crate::output::{CommandOutput, OutputView};
use crate::text;
use crate::text::dec;
use vstd::prelude::*;
use vstd::string::StringExecFns;

verus! {

/// The square of the distance of two colours above which a pixel is not taken for noise.
pub const NOISE_SQUARED: u32 = 900;

/// A picture: four bytes a pixel, red, green, blue and alpha, row by row.
#[derive(Debug, PartialEq, Eq)]
pub struct Picture {
    pub width: u32,
    pub height: u32,
    pub pixels: Vec<u8>,
}

/// What a picture is.
pub struct PictureView {
    pub width: u32,
    pub height: u32,
    pub pixels: Seq<u8>,
}

impl View for Picture {
    type V = PictureView;

    open spec fn view(&self) -> PictureView {
        PictureView { width: self.width, height: self.height, pixels: self.pixels@ }
    }
}

impl PictureView {
    /// There are bytes for every pixel.
    pub open spec fn wf(self) -> bool {
        self.pixels.len() >= 4 * (self.width * self.height)
    }

    /// Where a pixel's bytes start.
    pub open spec fn offset(self, x: int, y: int) -> int {
        4 * (y * self.width + x)
    }

    /// A pixel.
    pub open spec fn at(self, x: int, y: int) -> Seq<u8> {
        self.pixels.subrange(self.offset(x, y), self.offset(x, y) + 4)
    }
}

/// What reading a file gives: the picture, or the message of the error.
pub type ReadView = Result<PictureView, Seq<char>>;

/// The model of what reading a file gives.
pub open spec fn read_view(r: Result<Picture, String>) -> ReadView {
    match r {
        Ok(p) => Ok(p@),
        Err(e) => Err(e@),
    }
}

/// Whether reading bytes as a picture can give this.
pub uninterp spec fn reads_as(bytes: Seq<u8>, read: ReadView) -> bool;

/// `image::load_from_memory` with `to_rgba8` reads the bytes of an image file; an error comes with
/// the message that `to_string` gives of it. What is returned is one of the outcomes that
/// `reads_as` admits for the bytes, and the pixels of a picture take four bytes each. That two
/// machines read one file alike is not said: a decoder may choose its arithmetic by the processor.
#[verifier::external_body]
fn read_picture(bytes: &[u8]) -> (r: Result<Picture, String>)
    ensures
        reads_as(bytes@, read_view(r)),
        r is Ok ==> r->Ok_0@.wf(),
{
    image::load_from_memory(bytes).map(|i| Picture {
        width: i.width(),
        height: i.height(),
        pixels: i.to_rgba8().into_raw(),
    }).map_err(|e| e.to_string())
}

/// The square of the distance of two colours.
pub open spec fn distance_squared(p: Seq<u8>, q: Seq<u8>) -> int {
    (p[0] - q[0]) * (p[0] - q[0]) + (p[1] - q[1]) * (p[1] - q[1]) + (p[2] - q[2]) * (p[2] - q[2])
}

/// Whether two pixels differ by more than noise.
pub open spec fn above_noise(p: Seq<u8>, q: Seq<u8>) -> bool {
    distance_squared(p, q) > NOISE_SQUARED
}

/// How a pixel of the comparison is shown: red where the pictures differ, else the first picture in
/// grey.
pub open spec fn shown(p: Seq<u8>, q: Seq<u8>) -> Seq<u8> {
    if above_noise(p, q) {
        seq![255u8, 0u8, 0u8, 200u8]
    } else {
        let gray = ((p[0] + p[1] + p[2]) / 3) as u8;
        seq![gray, gray, gray, 100u8]
    }
}

/// How many of the first `x` pixels of a row satisfy a predicate.
pub open spec fn in_row(
    a: PictureView,
    b: PictureView,
    pred: spec_fn(Seq<u8>, Seq<u8>) -> bool,
    y: int,
    x: nat,
) -> nat
    decreases x,
{
    if x == 0 {
        0
    } else {
        in_row(a, b, pred, y, (x - 1) as nat) + (if pred(a.at(x - 1, y), b.at(x - 1, y)) {
            1nat
        } else {
            0nat
        })
    }
}

/// How many pixels of the first `y` rows satisfy a predicate.
pub open spec fn in_rows(
    a: PictureView,
    b: PictureView,
    pred: spec_fn(Seq<u8>, Seq<u8>) -> bool,
    w: nat,
    y: nat,
) -> nat
    decreases y,
{
    if y == 0 {
        0
    } else {
        in_rows(a, b, pred, w, (y - 1) as nat) + in_row(a, b, pred, y - 1, w)
    }
}

/// The first `x` pixels of a row of the comparison.
pub open spec fn row_shown(a: PictureView, b: PictureView, y: int, x: nat) -> Seq<u8>
    decreases x,
{
    if x == 0 {
        Seq::empty()
    } else {
        row_shown(a, b, y, (x - 1) as nat) + shown(a.at(x - 1, y), b.at(x - 1, y))
    }
}

/// The first `y` rows of the comparison.
pub open spec fn rows_shown(a: PictureView, b: PictureView, w: nat, y: nat) -> Seq<u8>
    decreases y,
{
    if y == 0 {
        Seq::empty()
    } else {
        rows_shown(a, b, w, (y - 1) as nat) + row_shown(a, b, y - 1, w)
    }
}

/// The smaller of two numbers.
pub open spec fn least(a: u32, b: u32) -> u32 {
    if a <= b {
        a
    } else {
        b
    }
}

/// Two pixels that are not the same.
pub open spec fn unequal() -> spec_fn(Seq<u8>, Seq<u8>) -> bool {
    |p: Seq<u8>, q: Seq<u8>| p != q
}

/// Two pixels that differ by more than noise.
pub open spec fn noisy() -> spec_fn(Seq<u8>, Seq<u8>) -> bool {
    |p: Seq<u8>, q: Seq<u8>| above_noise(p, q)
}

/// What a comparison of two pictures found, over the region that both have.
pub struct Comparison {
    pub width: u32,
    pub height: u32,
    pub changed: u64,
    pub above_noise: u64,
    pub total: u64,
    pub dimensions_differ: bool,
    /// The picture that shows the comparison.
    pub overlay: Vec<u8>,
}

/// A pixel within a picture has its bytes within the picture's.
proof fn lemma_offset(w: u32, h: u32, x: int, y: int)
    requires
        0 <= x < w,
        0 <= y < h,
    ensures
        0 <= y * w + x,
        4 * (y * w + x) + 4 <= 4 * (w * h),
        y * w + x < w * h,
{
    assert(y * w + x < w * h) by (nonlinear_arith)
        requires
            0 <= x < w,
            0 <= y < h,
    ;
    assert(0 <= y * w) by (nonlinear_arith)
        requires
            0 <= y,
            0 <= w,
    ;
}

fn channel(p: &Picture, x: u32, y: u32, c: usize) -> (r: u8)
    requires
        p@.wf(),
        x < p.width,
        y < p.height,
        c < 4,
    ensures
        r == p@.at(x as int, y as int)[c as int],
{
    let len: usize = p.pixels.len();
    let ghost area: int = p.width * p.height;
    proof {
        lemma_offset(p.width, p.height, x as int, y as int);
        assert(p.width * p.height <= u64::MAX) by (nonlinear_arith)
            requires
                p.width <= u32::MAX,
                p.height <= u32::MAX,
        ;
        assert(0 <= y * p.width <= u64::MAX) by (nonlinear_arith)
            requires
                0 <= y <= u32::MAX,
                0 <= p.width <= u32::MAX,
        ;
        assert(4 * area <= len);
    }
    let pixel: u64 = y as u64 * p.width as u64 + x as u64;
    assert(pixel < area);
    let at: usize = 4 * (pixel as usize) + c;
    p.pixels[at]
}

/// No more pixels satisfy a predicate than there are.
proof fn lemma_rows_bounded(
    a: PictureView,
    b: PictureView,
    pred: spec_fn(Seq<u8>, Seq<u8>) -> bool,
    w: nat,
    y: nat,
)
    ensures
        in_rows(a, b, pred, w, y) <= w * y,
    decreases y,
{
    if y > 0 {
        lemma_rows_bounded(a, b, pred, w, (y - 1) as nat);
        lemma_row_bounded(a, b, pred, y - 1, w);
        assert(w * (y - 1) + w == w * y) by (nonlinear_arith);
    } else {
        assert(w * y == 0) by (nonlinear_arith)
            requires
                y == 0,
        ;
    }
}

proof fn lemma_row_bounded(
    a: PictureView,
    b: PictureView,
    pred: spec_fn(Seq<u8>, Seq<u8>) -> bool,
    y: int,
    x: nat,
)
    ensures
        in_row(a, b, pred, y, x) <= x,
    decreases x,
{
    if x > 0 {
        lemma_row_bounded(a, b, pred, y, (x - 1) as nat);
    }
}

fn square_of_difference(a: u8, b: u8) -> (r: u32)
    ensures
        r == (a - b) * (a - b),
        r <= 65025,
{
    let d: u32 = if a >= b {
        (a - b) as u32
    } else {
        (b - a) as u32
    };
    assert(d * d <= 65025) by (nonlinear_arith)
        requires
            d <= 255,
    ;
    assert(d * d == (a - b) * (a - b)) by (nonlinear_arith)
        requires
            d == a - b || d == b - a,
    ;
    d * d
}

/// Whether a comparison is that of two pictures, over the region that both have.
pub open spec fn compares(a: PictureView, b: PictureView, c: Comparison) -> bool {
    let w = least(a.width, b.width);
    let h = least(a.height, b.height);
    &&& c.width == w
    &&& c.height == h
    &&& c.total == w * h
    &&& c.dimensions_differ == (a.width != b.width || a.height != b.height)
    &&& c.changed == in_rows(a, b, unequal(), w as nat, h as nat)
    &&& c.above_noise == in_rows(a, b, noisy(), w as nat, h as nat)
    &&& c.overlay@ == rows_shown(a, b, w as nat, h as nat)
}

/// Compares two pictures pixel by pixel, over the region that both have.
pub fn compare(a: &Picture, b: &Picture) -> (r: Comparison)
    requires
        a@.wf(),
        b@.wf(),
    ensures
        compares(a@, b@, r),
{
    let w: u32 = if a.width <= b.width {
        a.width
    } else {
        b.width
    };
    let h: u32 = if a.height <= b.height {
        a.height
    } else {
        b.height
    };
    assert(w * h <= u64::MAX) by (nonlinear_arith)
        requires
            w <= u32::MAX,
            h <= u32::MAX,
    ;
    let total: u64 = w as u64 * h as u64;
    let mut changed: u64 = 0;
    let mut noise: u64 = 0;
    let mut overlay: Vec<u8> = Vec::new();
    let mut y: u32 = 0;
    while y < h
        invariant
            y <= h,
            w <= a.width,
            w <= b.width,
            h <= a.height,
            h <= b.height,
            a@.wf(),
            b@.wf(),
            total == w * h,
            changed == in_rows(a@, b@, unequal(), w as nat, y as nat),
            noise == in_rows(a@, b@, noisy(), w as nat, y as nat),
            overlay@ == rows_shown(a@, b@, w as nat, y as nat),
        decreases h - y,
    {
        let ghost changed_before = changed;
        let ghost noise_before = noise;
        let ghost overlay_before = overlay@;
        proof {
            lemma_rows_bounded(a@, b@, unequal(), w as nat, y as nat);
            lemma_rows_bounded(a@, b@, noisy(), w as nat, y as nat);
            assert(w * y + w <= w * h) by (nonlinear_arith)
                requires
                    y < h,
            ;
            assert(overlay_before + row_shown(a@, b@, y as int, 0) =~= overlay_before);
        }
        let mut x: u32 = 0;
        while x < w
            invariant
                x <= w,
                y < h,
                w <= a.width,
                w <= b.width,
                h <= a.height,
                h <= b.height,
                a@.wf(),
                b@.wf(),
                changed_before + w <= u64::MAX,
                noise_before + w <= u64::MAX,
                changed == changed_before + in_row(a@, b@, unequal(), y as int, x as nat),
                noise == noise_before + in_row(a@, b@, noisy(), y as int, x as nat),
                overlay@ == overlay_before + row_shown(a@, b@, y as int, x as nat),
            decreases w - x,
        {
            let ghost p = a@.at(x as int, y as int);
            let ghost q = b@.at(x as int, y as int);
            proof {
                lemma_offset(a.width, a.height, x as int, y as int);
                lemma_offset(b.width, b.height, x as int, y as int);
                lemma_row_bounded(a@, b@, unequal(), y as int, x as nat);
                lemma_row_bounded(a@, b@, noisy(), y as int, x as nat);
                assert(p.len() == 4 && q.len() == 4);
            }
            let (p0, p1, p2, p3) = (
                channel(a, x, y, 0),
                channel(a, x, y, 1),
                channel(a, x, y, 2),
                channel(a, x, y, 3),
            );
            let (q0, q1, q2, q3) = (
                channel(b, x, y, 0),
                channel(b, x, y, 1),
                channel(b, x, y, 2),
                channel(b, x, y, 3),
            );
            if p0 != q0 || p1 != q1 || p2 != q2 || p3 != q3 {
                assert(p != q);
                changed = changed + 1;
            } else {
                assert(p =~= q);
            }
            let distance: u32 = square_of_difference(p0, q0) + square_of_difference(p1, q1)
                + square_of_difference(p2, q2);
            let ghost before = overlay@;
            if distance > NOISE_SQUARED {
                noise = noise + 1;
                overlay.push(255);
                overlay.push(0);
                overlay.push(0);
                overlay.push(200);
            } else {
                let gray: u8 = ((p0 as u16 + p1 as u16 + p2 as u16) / 3) as u8;
                overlay.push(gray);
                overlay.push(gray);
                overlay.push(gray);
                overlay.push(100);
            }
            proof {
                assert(overlay@ =~= before + shown(p, q));
                assert(overlay@ =~= overlay_before + row_shown(a@, b@, y as int, (x + 1) as nat));
            }
            x = x + 1;
        }
        y = y + 1;
    }
    Comparison {
        width: w,
        height: h,
        changed,
        above_noise: noise,
        total,
        dimensions_differ: a.width != b.width || a.height != b.height,
        overlay,
    }
}

/// The error for a file that cannot be read.
pub open spec fn unreadable(label: Seq<char>, reason: Seq<char>) -> ErrorView {
    ErrorView::Other("Cannot decode image "@ + label + ": "@ + reason)
}

fn unreadable_error(label: &str, reason: &str) -> (r: WebPilotError)
    ensures
        r@ == unreadable(label@, reason@),
{
    WebPilotError::Other {
        detail: "Cannot decode image ".to_owned().concat(label).concat(": ").concat(reason),
    }
}

/// Whether a result is what comparing two files comes to, by what reading each gave: the two
/// pictures and how they compare, or why one of them cannot be read. Of two that cannot be read
/// the first is told.
pub open spec fn compared(
    a: ReadView,
    b: ReadView,
    r: Result<(Picture, Picture, Comparison), WebPilotError>,
) -> bool {
    match a {
        Err(e) => r is Err && r->Err_0@ == unreadable("A"@, e),
        Ok(pa) => match b {
            Err(e) => r is Err && r->Err_0@ == unreadable("B"@, e),
            Ok(pb) => {
                &&& r is Ok
                &&& r->Ok_0.0@ == pa
                &&& r->Ok_0.1@ == pb
                &&& compares(pa, pb, r->Ok_0.2)
            },
        },
    }
}

/// What comparing two files comes to, by what reading each gave.
pub fn compare_read(a: Result<Picture, String>, b: Result<Picture, String>) -> (r: Result<
    (Picture, Picture, Comparison),
    WebPilotError,
>)
    requires
        a is Ok ==> a->Ok_0@.wf(),
        b is Ok ==> b->Ok_0@.wf(),
    ensures
        compared(read_view(a), read_view(b), r),
{
    match a {
        Err(e) => Err(unreadable_error("A", e.as_str())),
        Ok(pa) => match b {
            Err(e) => Err(unreadable_error("B", e.as_str())),
            Ok(pb) => {
                let c = compare(&pa, &pb);
                Ok((pa, pb, c))
            },
        },
    }
}

/// What comparing two image files comes to, whatever reading each of them gave.
pub fn diff_screenshot(a: &[u8], b: &[u8]) -> (r: Result<(Picture, Picture, Comparison), WebPilotError>)
    ensures
        exists|ra: ReadView, rb: ReadView| #[trigger]
            reads_as(a@, ra) && #[trigger] reads_as(b@, rb) && compared(ra, rb, r),
{
    let ra = read_picture(a);
    let rb = read_picture(b);
    let ghost va = read_view(ra);
    let ghost vb = read_view(rb);
    let r = compare_read(ra, rb);
    assert(reads_as(a@, va) && reads_as(b@, vb) && compared(va, vb, r));
    r
}

/// `widthxheight`.
pub open spec fn size_text(w: u32, h: u32) -> Seq<char> {
    text::decimal(w as nat) + "x"@ + text::decimal(h as nat)
}

fn size(w: u32, h: u32) -> (r: String)
    ensures
        r@ == size_text(w, h),
{
    dec(w as u64).concat("x").concat(dec(h as u64).as_str())
}

/// What a comparison of two screenshots prints. `percent` is the share of pixels above noise, to
/// one decimal, and `path` where the picture that shows the comparison was saved.
pub open spec fn report_output(
    a: (u32, u32),
    b: (u32, u32),
    c: Comparison,
    percent: Seq<char>,
    path: Seq<char>,
) -> OutputView {
    let changed = c.changed > 0 || c.dimensions_differ;
    let human = "Changed: "@ + (if changed {
        "yes"@
    } else {
        "no"@
    }) + " — "@ + text::decimal(c.changed as nat) + " px differ exactly; "@ + percent
        + "% above the noise threshold ("@ + text::decimal(c.above_noise as nat) + "/"@
        + text::decimal(c.total as nat) + ")\nDiff image: "@ + path;
    OutputView::Data(
        JsonView::object().with("changed"@, JsonView::Bool(changed)).with(
            "changed_pixels"@,
            JsonView::number(c.changed),
        ).with("pixels_above_noise"@, JsonView::number(c.above_noise)).with(
            "percent_above_noise"@,
            JsonView::Str(percent),
        ).with("total_pixels"@, JsonView::number(c.total)).with(
            "diff_image"@,
            JsonView::Str(path),
        ).with(
            "compared_region"@,
            JsonView::object().with("width"@, JsonView::number(c.width as u64)).with(
                "height"@,
                JsonView::number(c.height as u64),
            ),
        ).with("dimensions_differ"@, JsonView::Bool(c.dimensions_differ)),
        if c.dimensions_differ {
            human + "\nNote: images differ in size ("@ + size_text(a.0, a.1) + " vs "@ + size_text(
                b.0,
                b.1,
            ) + "); compared the "@ + size_text(c.width, c.height) + " overlap"@
        } else {
            human
        },
    )
}

/// What a comparison of two screenshots prints. A change is any pixel that is not the same, or a
/// difference in size; noise is only reported.
pub fn report(a: (u32, u32), b: (u32, u32), c: &Comparison, percent: &str, path: &str) -> (r:
    CommandOutput)
    ensures
        r@ == report_output(a, b, *c, percent@, path@),
{
    let changed = c.changed > 0 || c.dimensions_differ;
    let verdict = if changed {
        "yes"
    } else {
        "no"
    };
    let mut human = "Changed: ".to_owned().concat(verdict).concat(" — ").concat(
        dec(c.changed).as_str(),
    ).concat(" px differ exactly; ").concat(percent).concat("% above the noise threshold (").concat(
        dec(c.above_noise).as_str(),
    ).concat("/").concat(dec(c.total).as_str()).concat(")\nDiff image: ").concat(path);
    if c.dimensions_differ {
        human = human.concat("\nNote: images differ in size (").concat(
            size(a.0, a.1).as_str(),
        ).concat(" vs ").concat(size(b.0, b.1).as_str()).concat("); compared the ").concat(
            size(c.width, c.height).as_str(),
        ).concat(" overlap");
    }
    let json = Json::object().with("changed", Json::Bool(changed)).with(
        "changed_pixels",
        Json::number(c.changed),
    ).with("pixels_above_noise", Json::number(c.above_noise)).with(
        "percent_above_noise",
        Json::string(percent),
    ).with("total_pixels", Json::number(c.total)).with("diff_image", Json::string(path)).with(
        "compared_region",
        Json::object().with("width", Json::number(c.width as u64)).with(
            "height",
            Json::number(c.height as u64),
        ),
    ).with("dimensions_differ", Json::Bool(c.dimensions_differ));
    CommandOutput::Data { json, human }
}

/// Pixels that differ by more than noise are not the same.
proof fn lemma_noise_is_change(p: Seq<u8>, q: Seq<u8>)
    ensures
        above_noise(p, q) ==> p != q,
{
    if p == q {
        assert(distance_squared(p, q) == 0) by {
            assert((p[0] - p[0]) * (p[0] - p[0]) == 0) by (nonlinear_arith);
            assert((p[1] - p[1]) * (p[1] - p[1]) == 0) by (nonlinear_arith);
            assert((p[2] - p[2]) * (p[2] - p[2]) == 0) by (nonlinear_arith);
        }
    }
}

proof fn lemma_row_noise(a: PictureView, b: PictureView, y: int, x: nat)
    ensures
        in_row(a, b, noisy(), y, x) <= in_row(a, b, unequal(), y, x),
    decreases x,
{
    if x > 0 {
        lemma_row_noise(a, b, y, (x - 1) as nat);
        lemma_noise_is_change(a.at(x - 1, y), b.at(x - 1, y));
    }
}

/// No more pixels are above noise than are changed: a comparison that reports no change reports no
/// noise.
pub proof fn law_noise_is_within_change(a: PictureView, b: PictureView, w: nat, h: nat)
    ensures
        in_rows(a, b, noisy(), w, h) <= in_rows(a, b, unequal(), w, h),
    decreases h,
{
    if h > 0 {
        law_noise_is_within_change(a, b, w, (h - 1) as nat);
        lemma_row_noise(a, b, h - 1, w);
    }
}

proof fn lemma_row_same(a: PictureView, b: PictureView, y: int, x: nat)
    ensures
        in_row(a, b, unequal(), y, x) == 0 <==> (forall|i: int|
            0 <= i < x ==> #[trigger] a.at(i, y) == b.at(i, y)),
    decreases x,
{
    if x > 0 {
        lemma_row_same(a, b, y, (x - 1) as nat);
    }
}

/// No pixel counts as changed exactly where the two pictures are the same over the region that is
/// compared.
pub proof fn law_unchanged_means_identical(a: PictureView, b: PictureView, w: nat, h: nat)
    ensures
        in_rows(a, b, unequal(), w, h) == 0 <==> (forall|x: int, y: int|
            0 <= x < w && 0 <= y < h ==> #[trigger] a.at(x, y) == b.at(x, y)),
    decreases h,
{
    if h > 0 {
        law_unchanged_means_identical(a, b, w, (h - 1) as nat);
        lemma_row_same(a, b, h - 1, w);
    }
}

/// Two pictures are compared over the region that both have, pixel by pixel. Nothing counts as changed
/// exactly where every byte of every pixel there is the same, and never more than there are pixels; the
/// picture that shows the comparison has four bytes for each.
pub proof fn law_pictures_are_compared(a: Picture, b: Picture, c: Comparison)
    requires
        a@.wf(),
        b@.wf(),
        call_ensures(compare, (&a, &b), c),
    ensures
        c.width <= a.width && c.width <= b.width && (c.width == a.width || c.width == b.width),
        c.height <= a.height && c.height <= b.height && (c.height == a.height || c.height
            == b.height),
        c.total == c.width * c.height,
        c.dimensions_differ <==> a.width != b.width || a.height != b.height,
        c.above_noise <= c.changed <= c.total,
        c.overlay@.len() == 4 * (c.width * c.height),
        c.changed == 0 <==> forall|x: int, y: int|
            0 <= x < c.width && 0 <= y < c.height ==> #[trigger] pixel(a, x, y) == pixel(b, x, y),
{
    let (w, h) = (c.width as nat, c.height as nat);
    law_noise_is_within_change(a@, b@, w, h);
    law_unchanged_means_identical(a@, b@, w, h);
    lemma_rows_bounded(a@, b@, unequal(), w, h);
    lemma_rows_len(a@, b@, w, h);
    if c.changed == 0 {
        assert forall|x: int, y: int| 0 <= x < c.width && 0 <= y < c.height implies #[trigger] pixel(
            a,
            x,
            y,
        ) == pixel(b, x, y) by {
            assert(a@.at(x, y) == b@.at(x, y));
        }
    }
    if forall|x: int, y: int|
        0 <= x < c.width && 0 <= y < c.height ==> #[trigger] pixel(a, x, y) == pixel(b, x, y) {
        assert forall|x: int, y: int| 0 <= x < w && 0 <= y < h implies #[trigger] a@.at(x, y)
            == b@.at(x, y) by {
            assert(pixel(a, x, y) == pixel(b, x, y));
        }
    }
}

/// The four bytes of a pixel.
pub open spec fn pixel(p: Picture, x: int, y: int) -> Seq<u8> {
    p.pixels@.subrange(4 * (y * p.width + x), 4 * (y * p.width + x) + 4)
}

proof fn lemma_row_len(a: PictureView, b: PictureView, y: int, x: nat)
    ensures
        row_shown(a, b, y, x).len() == 4 * x,
    decreases x,
{
    if x > 0 {
        lemma_row_len(a, b, y, (x - 1) as nat);
    }
}

proof fn lemma_rows_len(a: PictureView, b: PictureView, w: nat, y: nat)
    ensures
        rows_shown(a, b, w, y).len() == 4 * (w * y),
    decreases y,
{
    if y > 0 {
        lemma_rows_len(a, b, w, (y - 1) as nat);
        lemma_row_len(a, b, y - 1, w);
        assert(w * (y - 1) + w == w * y) by (nonlinear_arith);
    } else {
        assert(w * y == 0) by (nonlinear_arith)
            requires
                y == 0,
        ;
    }
}

/// The picture that shows a comparison is red where two pixels differ by more than noise, and else the
/// first picture in grey, pixel by pixel in its place. Two pixels differ by more than noise where the
/// squares of the differences of their three colours add up to more than 900.
pub proof fn law_differences_are_shown_in_place(a: Picture, b: Picture, c: Comparison, x: int, y: int)
    requires
        a@.wf(),
        b@.wf(),
        call_ensures(compare, (&a, &b), c),
        0 <= x < c.width,
        0 <= y < c.height,
    ensures
        ({
            let p = a.pixels@.skip(4 * (y * a.width + x));
            let q = b.pixels@.skip(4 * (y * b.width + x));
            let s = c.overlay@.skip(4 * (y * c.width + x));
            let far = (p[0] - q[0]) * (p[0] - q[0]) + (p[1] - q[1]) * (p[1] - q[1]) + (p[2] - q[2])
                * (p[2] - q[2]) > 900;
            &&& far ==> s[0] == 255 && s[1] == 0 && s[2] == 0 && s[3] == 200
            &&& !far ==> s[0] == (p[0] + p[1] + p[2]) / 3 && s[1] == s[0] && s[2] == s[0] && s[3]
                == 100
        }),
{
    let (w, h) = (c.width as nat, c.height as nat);
    lemma_offset(a.width, a.height, x, y);
    lemma_offset(b.width, b.height, x, y);
    lemma_shown_in_place(a@, b@, w, h, x, y);
    lemma_rows_len(a@, b@, w, h);
    lemma_offset(c.width, c.height, x, y);
    let p = a.pixels@.skip(4 * (y * a.width + x));
    let q = b.pixels@.skip(4 * (y * b.width + x));
    let s = c.overlay@.skip(4 * (y * c.width + x));
    let (pa, pb) = (a@.at(x, y), b@.at(x, y));
    assert(pa[0] == p[0] && pa[1] == p[1] && pa[2] == p[2]);
    assert(pb[0] == q[0] && pb[1] == q[1] && pb[2] == q[2]);
    let o = c.overlay@.subrange(4 * (y * w + x), 4 * (y * w + x) + 4);
    assert(o[0] == s[0] && o[1] == s[1] && o[2] == s[2] && o[3] == s[3]);
    assert(0 <= (p[0] + p[1] + p[2]) / 3 <= 255);
}

proof fn lemma_row_in_place(a: PictureView, b: PictureView, y: int, n: nat, x: int)
    requires
        0 <= x < n,
    ensures
        row_shown(a, b, y, n).subrange(4 * x, 4 * x + 4) == shown(a.at(x, y), b.at(x, y)),
    decreases n,
{
    let before = row_shown(a, b, y, (n - 1) as nat);
    lemma_row_len(a, b, y, (n - 1) as nat);
    lemma_row_len(a, b, y, n);
    let all = row_shown(a, b, y, n);
    if x < n - 1 {
        lemma_row_in_place(a, b, y, (n - 1) as nat, x);
        assert(all.subrange(4 * x, 4 * x + 4) =~= before.subrange(4 * x, 4 * x + 4));
    } else {
        assert(all.subrange(4 * x, 4 * x + 4) =~= shown(a.at(x, y), b.at(x, y)));
    }
}

proof fn lemma_shown_in_place(a: PictureView, b: PictureView, w: nat, h: nat, x: int, y: int)
    requires
        0 <= x < w,
        0 <= y < h,
    ensures
        0 <= 4 * (y * w + x),
        4 * (y * w + x) + 4 <= rows_shown(a, b, w, h).len(),
        rows_shown(a, b, w, h).subrange(4 * (y * w + x), 4 * (y * w + x) + 4) == shown(
            a.at(x, y),
            b.at(x, y),
        ),
    decreases h,
{
    let before = rows_shown(a, b, w, (h - 1) as nat);
    let row = row_shown(a, b, h - 1, w);
    let all = rows_shown(a, b, w, h);
    lemma_rows_len(a, b, w, (h - 1) as nat);
    lemma_rows_len(a, b, w, h);
    lemma_row_len(a, b, h - 1, w);
    let at = 4 * (y * w + x);
    assert(0 <= y * w) by (nonlinear_arith)
        requires
            0 <= y,
            0 <= w,
    ;
    if y < h - 1 {
        lemma_shown_in_place(a, b, w, (h - 1) as nat, x, y);
        assert(all.subrange(at, at + 4) =~= before.subrange(at, at + 4));
    } else {
        assert(w * (h - 1) == y * w) by (nonlinear_arith)
            requires
                y == h - 1,
        ;
        lemma_row_in_place(a, b, h - 1, w, x);
        assert(before.len() == 4 * (y * w));
        assert(all.subrange(at, at + 4) =~= row.subrange(4 * x, 4 * x + 4));
    }
}

/// Every pixel of the region is counted once: those that satisfy a predicate and those that do not make
/// up the whole.
pub proof fn law_every_pixel_is_counted_once(
    a: PictureView,
    b: PictureView,
    pred: spec_fn(Seq<u8>, Seq<u8>) -> bool,
    w: nat,
    h: nat,
)
    ensures
        in_rows(a, b, pred, w, h) + in_rows(a, b, |p: Seq<u8>, q: Seq<u8>| !pred(p, q), w, h) == w
            * h,
    decreases h,
{
    let other = |p: Seq<u8>, q: Seq<u8>| !pred(p, q);
    if h > 0 {
        law_every_pixel_is_counted_once(a, b, pred, w, (h - 1) as nat);
        lemma_row_counted(a, b, pred, other, h - 1, w);
        assert(w * (h - 1) + w == w * h) by (nonlinear_arith);
    } else {
        assert(w * h == 0) by (nonlinear_arith)
            requires
                h == 0,
        ;
    }
}

proof fn lemma_row_counted(
    a: PictureView,
    b: PictureView,
    pred: spec_fn(Seq<u8>, Seq<u8>) -> bool,
    other: spec_fn(Seq<u8>, Seq<u8>) -> bool,
    y: int,
    x: nat,
)
    requires
        forall|p: Seq<u8>, q: Seq<u8>| #[trigger] other(p, q) <==> !pred(p, q),
    ensures
        in_row(a, b, pred, y, x) + in_row(a, b, other, y, x) == x,
    decreases x,
{
    if x > 0 {
        lemma_row_counted(a, b, pred, other, y, (x - 1) as nat);
    }
}

/// Two files are compared where both can be read, each as what was read of it; else the first that
/// cannot be is told, with the reason.
pub proof fn law_files_that_cannot_be_read_are_told(
    a: Result<Picture, String>,
    b: Result<Picture, String>,
    r: Result<(Picture, Picture, Comparison), WebPilotError>,
)
    requires
        a is Ok ==> a->Ok_0@.wf(),
        b is Ok ==> b->Ok_0@.wf(),
        call_ensures(compare_read, (a, b), r),
    ensures
        r is Ok <==> a is Ok && b is Ok,
        r is Ok ==> r->Ok_0.0@ == a->Ok_0@ && r->Ok_0.1@ == b->Ok_0@,
        r is Ok ==> (r->Ok_0.2.dimensions_differ <==> a->Ok_0.width != b->Ok_0.width || a->Ok_0.height
            != b->Ok_0.height),
        a matches Err(e) ==> (r matches Err(WebPilotError::Other { detail }) && text::has_suffix(
            detail@,
            "image A: "@ + e@,
        )),
        a is Ok ==> (b matches Err(e) ==> (r matches Err(WebPilotError::Other { detail })
            && text::has_suffix(detail@, "image B: "@ + e@))),
{
    reveal_strlit("Cannot decode image ");
    reveal_strlit("Cannot decode ");
    reveal_strlit("image ");
    reveal_strlit("A");
    reveal_strlit("B");
    reveal_strlit(": ");
    reveal_strlit("image A: ");
    reveal_strlit("image B: ");
    assert("Cannot decode image "@ =~= "Cannot decode "@ + "image "@);
    assert("image "@ + "A"@ + ": "@ =~= "image A: "@);
    assert("image "@ + "B"@ + ": "@ =~= "image B: "@);
    if let Err(e) = a {
        assert("Cannot decode image "@ + "A"@ + ": "@ + e@ =~= "Cannot decode "@ + ("image "@ + "A"@
            + ": "@ + e@));
        text::lemma_back("Cannot decode "@, "image A: "@ + e@);
    }
    if let Err(e) = b {
        assert("Cannot decode image "@ + "B"@ + ": "@ + e@ =~= "Cannot decode "@ + ("image "@ + "B"@
            + ": "@ + e@));
        text::lemma_back("Cannot decode "@, "image B: "@ + e@);
    }
}

/// What a comparison found is printed, each under its name: something changed where a pixel is not the
/// same or the sizes differ, however little it is.
pub proof fn law_comparisons_are_told(
    a: (u32, u32),
    b: (u32, u32),
    c: Comparison,
    percent: &str,
    path: &str,
    r: CommandOutput,
)
    requires
        call_ensures(report, (a, b, &c, percent, path), r),
    ensures
        r matches CommandOutput::Data { json, human } && {
            let number = |n: u64| Some(JsonView::Num(crate::json::NumberView::Unsigned(n)));
            &&& json@.get("changed"@) == Some(
                JsonView::Bool(c.changed > 0 || c.dimensions_differ),
            )
            &&& json@.get("changed_pixels"@) == number(c.changed)
            &&& json@.get("pixels_above_noise"@) == number(c.above_noise)
            &&& json@.get("percent_above_noise"@) == Some(JsonView::Str(percent@))
            &&& json@.get("total_pixels"@) == number(c.total)
            &&& json@.get("diff_image"@) == Some(JsonView::Str(path@))
            &&& json@.get("dimensions_differ"@) == Some(JsonView::Bool(c.dimensions_differ))
            &&& json@.get("compared_region"@) matches Some(region) && region.get("width"@) == number(
                c.width as u64,
            ) && region.get("height"@) == number(c.height as u64)
            &&& text::has_prefix(
                human@,
                "Changed: "@ + (if c.changed > 0 || c.dimensions_differ {
                    "yes"@
                } else {
                    "no"@
                }),
            )
            &&& text::holds(human@, path@)
        },
{
    reveal_strlit("changed");
    reveal_strlit("changed_pixels");
    reveal_strlit("pixels_above_noise");
    reveal_strlit("percent_above_noise");
    reveal_strlit("total_pixels");
    reveal_strlit("diff_image");
    reveal_strlit("compared_region");
    reveal_strlit("dimensions_differ");
    assert("changed"@.len() == 7);
    assert("changed_pixels"@.len() == 14);
    assert("pixels_above_noise"@.len() == 18);
    assert("percent_above_noise"@.len() == 19);
    assert("total_pixels"@.len() == 12);
    assert("diff_image"@.len() == 10);
    assert("compared_region"@.len() == 15);
    assert("dimensions_differ"@.len() == 17);
    reveal_strlit("width");
    reveal_strlit("height");
    assert("width"@.len() == 5);
    assert("height"@.len() == 6);
    if let CommandOutput::Data { json, human } = r {
        let verdict = if c.changed > 0 || c.dimensions_differ {
            "yes"@
        } else {
            "no"@
        };
        let front = "Changed: "@ + verdict;
        let mid = " — "@ + text::decimal(c.changed as nat) + " px differ exactly; "@ + percent@
            + "% above the noise threshold ("@ + text::decimal(c.above_noise as nat) + "/"@
            + text::decimal(c.total as nat) + ")\nDiff image: "@;
        let end = if c.dimensions_differ {
            "\nNote: images differ in size ("@ + size_text(a.0, a.1) + " vs "@ + size_text(b.0, b.1)
                + "); compared the "@ + size_text(c.width, c.height) + " overlap"@
        } else {
            Seq::empty()
        };
        assert(human@ =~= front + mid + path@ + end);
        text::lemma_part(front + mid, path@, end);
        assert(front + mid + path@ + end =~= front + (mid + path@ + end));
        text::lemma_front(front, mid + path@ + end);
    }
}

} // verus!
