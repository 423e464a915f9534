//! `self`: this program's own releases.
use crate::codec;
use crate::codec::utf8_text;
use crate::commands::setup::skill;
use crate::commands::setup::skill::record_if_ours;
use crate::error;
use crate::error::{ErrorView, WebPilotError};
use crate::json::{Json, JsonView};
use crate::model;
use crate::output::{CommandOutput, OutputView};
use crate::text;
use crate::text::{after_last, chars_of, same, slice, strip_back, strip_front, trim};
use vstd::prelude::*;
use vstd::string::StringExecFns;

verus! {

/// The arguments of `self`.
#[derive(Debug, PartialEq, Eq)]
pub struct SelfArgs {
    pub command: SelfCommand,
}

/// What `self` does.
#[derive(Debug, PartialEq, Eq)]
pub enum SelfCommand {
    /// Replaces this program by a release.
    Update(UpdateArgs),
}

/// The arguments of `self update`.
#[derive(Debug, PartialEq, Eq)]
pub struct UpdateArgs {
    /// The release; the latest where none is given.
    pub version: Option<String>,
    /// Replaces the program even by the release that it already is.
    pub force: bool,
}

/// A version as releases are called: without white space around or a `v` in front.
pub open spec fn normal_version(s: Seq<char>) -> Seq<char> {
    text::without_front(text::trimmed(s), 'v')
}

/// A version as releases are called.
pub fn normalize_version(s: &str) -> (r: String)
    ensures
        r@ == normal_version(s@),
{
    strip_front(trim(s).as_str(), 'v')
}

/// A character that ends the tag in an address.
pub open spec fn ends_tag(c: char) -> bool {
    c == '/' || c == '?' || c == '#'
}

/// What stands before the first character that ends a tag.
pub open spec fn tag_part(s: Seq<char>) -> Seq<char>
    decreases s.len(),
{
    if s.len() == 0 || ends_tag(s[0]) {
        Seq::empty()
    } else {
        seq![s[0]] + tag_part(s.drop_first())
    }
}

/// The version that an address behind `/releases/tag/` names.
pub open spec fn tag_version(rest: Seq<char>) -> Option<Seq<char>> {
    let tag = text::trimmed(tag_part(rest));
    if tag.len() == 0 {
        None
    } else {
        Some(normal_version(tag))
    }
}

/// The address that a tag is looked for in.
pub open spec fn tag_source(url: Seq<char>) -> Seq<char> {
    text::without_back(text::trimmed(url), '/')
}

/// The start of a tag is a prefix of what it is a tag of.
proof fn lemma_tag_part(s: Seq<char>, at: int)
    requires
        0 <= at <= s.len(),
        forall|i: int| 0 <= i < at ==> !ends_tag(s[i]),
        at < s.len() ==> ends_tag(s[at]),
    ensures
        tag_part(s) == s.take(at),
    decreases at,
{
    if at > 0 {
        assert forall|i: int| 0 <= i < at - 1 implies !ends_tag(s.drop_first()[i]) by {
            assert(!ends_tag(s[i + 1]));
        }
        lemma_tag_part(s.drop_first(), at - 1);
        assert(s.take(at) =~= seq![s[0]] + s.drop_first().take(at - 1));
    } else {
        assert(s.take(0) =~= Seq::empty());
    }
}

fn tag_of(rest: &str) -> (r: String)
    ensures
        r@ == tag_part(rest@),
{
    let chars = chars_of(rest);
    let mut at: usize = 0;
    while at < chars.len() && !(chars[at] == '/' || chars[at] == '?' || chars[at] == '#')
        invariant
            at <= chars@.len(),
            forall|i: int| 0 <= i < at ==> !ends_tag(chars@[i]),
        decreases chars@.len() - at,
    {
        at += 1;
    }
    proof {
        lemma_tag_part(chars@, at as int);
        assert(chars@.subrange(0, at as int) =~= chars@.take(at as int));
    }
    slice(&chars, 0, at)
}

/// The version that an address names behind its last `/releases/tag/`.
pub open spec fn redirect_tag(url: Seq<char>) -> Option<Seq<char>> {
    let source = tag_source(url);
    let mark = "/releases/tag/"@;
    if text::holds(source, mark) {
        let at = choose|at: int| text::is_last_at(source, mark, at);
        tag_version(source.skip(at + mark.len()))
    } else {
        None
    }
}

/// The version that the address of the latest release was redirected to: what stands behind its
/// last `/releases/tag/`. `None` where no release is published.
pub fn parse_tag_from_redirect(url: &str) -> (r: Option<String>)
    ensures
        model::maybe(r) == redirect_tag(url@),
{
    let source = strip_back(trim(url).as_str(), '/');
    match after_last(source.as_str(), "/releases/tag/") {
        Some(rest) => {
            proof {
                let mark = "/releases/tag/"@;
                let at = choose|at: int| #[trigger]
                    text::is_last_at(source@, mark, at) && rest@ == source@.skip(at + mark.len());
                assert(text::stands_at(source@, mark, at));
                let chosen = choose|at: int| text::is_last_at(source@, mark, at);
                assert(chosen == at) by {
                    if chosen < at {
                        assert(!text::stands_at(source@, mark, at));
                    } else if at < chosen {
                        assert(!text::stands_at(source@, mark, chosen));
                    }
                }
            }
            let tag = trim(tag_of(rest.as_str()).as_str());
            if tag.as_str().is_empty() {
                None
            } else {
                Some(normalize_version(tag.as_str()))
            }
        },
        None => None,
    }
}

/// The latest release: the address that a request for it ends at, if the request went well.
pub open spec fn latest_release(succeeded: bool, stdout: Seq<u8>) -> Result<Seq<char>, ErrorView> {
    if !succeeded {
        Err(ErrorView::Other("could not resolve latest release (HTTP error)"@))
    } else if !vstd::utf8::valid_utf8(stdout) {
        Err(ErrorView::Other("non-UTF8 redirect URL: "@ + codec::utf8_complaint(stdout)))
    } else {
        match redirect_tag(vstd::utf8::decode_utf8(stdout)) {
            Some(v) => Ok(v),
            None => Err(
                ErrorView::Other(
                    "no published release at github.com/junyeong-ai/web-pilot — pass --version vX.Y.Z explicitly"@,
                ),
            ),
        }
    }
}

/// The latest release, by what the request for it printed.
pub fn resolve_latest(succeeded: bool, stdout: Vec<u8>) -> (r: Result<String, WebPilotError>)
    ensures
        error::outcome(r) == latest_release(succeeded, stdout@),
{
    if !succeeded {
        return Err(WebPilotError::other("could not resolve latest release (HTTP error)"));
    }
    match utf8_text(stdout) {
        Err(e) => Err(
            WebPilotError::Other {
                detail: "non-UTF8 redirect URL: ".to_owned().concat(e.as_str()),
            },
        ),
        Ok(url) => match parse_tag_from_redirect(url.as_str()) {
            Some(v) => Ok(v),
            None => Err(
                WebPilotError::other(
                    "no published release at github.com/junyeong-ai/web-pilot — pass --version vX.Y.Z explicitly",
                ),
            ),
        },
    }
}

/// Which of the programs that an update takes there are.
#[derive(Debug, Clone, Copy, PartialEq, Eq, Structural)]
pub struct Tools {
    pub curl: bool,
    pub tar: bool,
    pub sha256sum: bool,
    pub shasum: bool,
}

/// Whether an update can be had: with everything it takes, and one of two ways to check it.
pub fn require_tools(tools: Tools) -> (r: Result<(), WebPilotError>)
    ensures
        match r {
            Ok(_) => tools.curl && tools.tar && (tools.sha256sum || tools.shasum),
            Err(e) => e@ == ErrorView::Other(
                if !tools.curl {
                    "required tool not found in PATH: curl"@
                } else if !tools.tar {
                    "required tool not found in PATH: tar"@
                } else {
                    "neither `sha256sum` nor `shasum` is available — cannot verify download"@
                },
            ) && !(tools.curl && tools.tar && (tools.sha256sum || tools.shasum)),
        },
{
    if !tools.curl {
        return Err(WebPilotError::other("required tool not found in PATH: curl"));
    }
    if !tools.tar {
        return Err(WebPilotError::other("required tool not found in PATH: tar"));
    }
    if !tools.sha256sum && !tools.shasum {
        return Err(
            WebPilotError::other(
                "neither `sha256sum` nor `shasum` is available — cannot verify download",
            ),
        );
    }
    Ok(())
}

/// The command that checks an archive against the checksum beside it.
pub fn checksum_command(tools: Tools, archive: &str) -> (r: (String, Vec<String>))
    ensures
        tools.sha256sum ==> r.0@ == "sha256sum"@ && text::texts(r.1@) == seq![
            "-c"@,
            archive@ + ".sha256"@,
        ],
        !tools.sha256sum ==> r.0@ == "shasum"@ && text::texts(r.1@) == seq![
            "-a"@,
            "256"@,
            "-c"@,
            archive@ + ".sha256"@,
        ],
{
    let sums = archive.to_owned().concat(".sha256");
    let mut args: Vec<String> = Vec::new();
    if tools.sha256sum {
        args.push("-c".to_owned());
        args.push(sums);
        proof {
            text::lemma_texts_index(args@);
            assert(text::texts(args@) =~= seq!["-c"@, archive@ + ".sha256"@]);
        }
        ("sha256sum".to_owned(), args)
    } else {
        args.push("-a".to_owned());
        args.push("256".to_owned());
        args.push("-c".to_owned());
        args.push(sums);
        proof {
            text::lemma_texts_index(args@);
            assert(text::texts(args@) =~= seq!["-a"@, "256"@, "-c"@, archive@ + ".sha256"@]);
        }
        ("shasum".to_owned(), args)
    }
}

/// What fetching a file comes to.
pub fn download(url: &str, succeeded: bool) -> (r: Result<(), WebPilotError>)
    ensures
        succeeded ==> r is Ok,
        !succeeded ==> r is Err && r->Err_0@ == ErrorView::Other("download failed: "@ + url@),
{
    if succeeded {
        Ok(())
    } else {
        Err(WebPilotError::Other { detail: "download failed: ".to_owned().concat(url) })
    }
}

/// What checking an archive comes to.
pub fn verify_checksum(succeeded: bool) -> (r: Result<(), WebPilotError>)
    ensures
        succeeded ==> r is Ok,
        !succeeded ==> r is Err && r->Err_0@ == ErrorView::Other("checksum verification failed"@),
{
    if succeeded {
        Ok(())
    } else {
        Err(WebPilotError::other("checksum verification failed"))
    }
}

/// A decimal digit.
pub open spec fn is_digit(c: char) -> bool {
    48 <= (c as int) <= 57
}

/// How many digits a text starts with.
pub open spec fn leading_digits(s: Seq<char>) -> nat
    decreases s.len(),
{
    if s.len() == 0 || !is_digit(s[0]) {
        0
    } else {
        1 + leading_digits(s.drop_first())
    }
}

/// The number that digits stand for.
pub open spec fn number_of(digits: Seq<char>) -> nat
    decreases digits.len(),
{
    if digits.len() == 0 {
        0
    } else {
        number_of(digits.drop_last()) * 10 + ((digits.last() as int) - 48) as nat
    }
}

/// The number that digits stand for, none where it is too large.
pub open spec fn component(digits: Seq<char>) -> u64 {
    if number_of(digits) <= u64::MAX {
        number_of(digits) as u64
    } else {
        0
    }
}

/// The text without its first run of digits, or without its first character.
pub open spec fn rest_of(s: Seq<char>) -> Seq<char> {
    if leading_digits(s) > 0 {
        s.skip(leading_digits(s) as int)
    } else {
        s.drop_first()
    }
}

/// The numbers in a version, in order.
pub open spec fn components(s: Seq<char>) -> Seq<u64>
    decreases s.len(),
    via components_decreases
{
    if s.len() == 0 {
        Seq::empty()
    } else if leading_digits(s) > 0 {
        seq![component(s.take(leading_digits(s) as int))] + components(rest_of(s))
    } else {
        components(rest_of(s))
    }
}

#[via_fn]
proof fn components_decreases(s: Seq<char>) {
    lemma_leading_digits(s);
}

/// No more digits lead than there are characters.
proof fn lemma_leading_digits(s: Seq<char>)
    ensures
        leading_digits(s) <= s.len(),
    decreases s.len(),
{
    if s.len() > 0 && is_digit(s[0]) {
        lemma_leading_digits(s.drop_first());
    }
}

/// A run of digits ends where the first other character stands.
proof fn lemma_run(s: Seq<char>, n: int)
    requires
        0 <= n <= s.len(),
        forall|i: int| 0 <= i < n ==> is_digit(s[i]),
        n < s.len() ==> !is_digit(s[n]),
    ensures
        leading_digits(s) == n,
    decreases n,
{
    if n > 0 {
        assert forall|i: int| 0 <= i < n - 1 implies is_digit(s.drop_first()[i]) by {
            assert(is_digit(s[i + 1]));
        }
        lemma_run(s.drop_first(), n - 1);
    }
}

/// More digits never make a smaller number.
proof fn lemma_number_grows(digits: Seq<char>, n: int)
    requires
        0 <= n <= digits.len(),
        forall|i: int| 0 <= i < digits.len() ==> is_digit(digits[i]),
    ensures
        number_of(digits.take(n)) <= number_of(digits),
    decreases digits.len() - n,
{
    if n == digits.len() {
        assert(digits.take(n) =~= digits);
    } else {
        lemma_number_grows(digits, n + 1);
        assert(digits.take(n + 1).drop_last() =~= digits.take(n));
    }
}

fn digit_value(c: char) -> (r: Option<u64>)
    ensures
        r is Some <==> is_digit(c),
        r is Some ==> r->0 == (c as int) - 48,
        r is Some ==> r->0 <= 9,
{
    let n: u32 = c as u32;
    if 48 <= n && n <= 57 {
        Some((n - 48) as u64)
    } else {
        None
    }
}

fn number(chars: &Vec<char>, from: usize, to: usize) -> (r: u64)
    requires
        from <= to <= chars@.len(),
        forall|i: int| from <= i < to ==> is_digit(chars@[i]),
    ensures
        r == component(chars@.subrange(from as int, to as int)),
{
    let ghost digits = chars@.subrange(from as int, to as int);
    let mut n: u64 = 0;
    assert(digits.take(0) =~= Seq::empty());
    for i in from..to
        invariant
            from <= to <= chars@.len(),
            digits == chars@.subrange(from as int, to as int),
            forall|i: int| from <= i < to ==> is_digit(chars@[i]),
            n == number_of(digits.take(i - from)),
    {
        assert(is_digit(chars@[i as int]));
        proof {
            assert(digits.take(i - from + 1).drop_last() =~= digits.take(i - from));
            assert(digits.take(i - from + 1).last() == chars@[i as int]);
            assert forall|k: int| 0 <= k < digits.len() implies is_digit(digits[k]) by {
                assert(is_digit(chars@[from + k]));
            }
            lemma_number_grows(digits, i - from + 1);
        }
        let d: u64 = match digit_value(chars[i]) {
            Some(d) => d,
            None => 0,
        };
        match n.checked_mul(10) {
            Some(tens) => match tens.checked_add(d) {
                Some(m) => {
                    n = m;
                },
                None => {
                    return 0;
                },
            },
            None => {
                return 0;
            },
        }
    }
    assert(digits.take(to - from) =~= digits);
    n
}

/// The numbers in a version, in order, so that versions compare by them.
pub fn version_components(v: &str) -> (r: Vec<u64>)
    ensures
        r@ == components(v@),
{
    let chars = chars_of(v);
    let mut out: Vec<u64> = Vec::new();
    let mut at: usize = 0;
    assert(chars@.skip(0) =~= v@);
    assert(out@ + components(chars@.skip(0)) =~= components(v@));
    while at < chars.len()
        invariant
            at <= chars@.len(),
            chars@ == v@,
            out@ + components(chars@.skip(at as int)) == components(v@),
        decreases chars@.len() - at,
    {
        let ghost s = chars@.skip(at as int);
        let ghost before = out@;
        let mut end: usize = at;
        while end < chars.len() && digit_value(chars[end]).is_some()
            invariant
                at <= end <= chars@.len(),
                forall|i: int| at <= i < end ==> is_digit(chars@[i]),
            decreases chars@.len() - end,
        {
            end += 1;
        }
        proof {
            assert forall|i: int| 0 <= i < end - at implies is_digit(s[i]) by {
                assert(is_digit(chars@[at + i]));
            }
            lemma_run(s, end - at);
        }
        if end > at {
            let n = number(&chars, at, end);
            out.push(n);
            proof {
                assert(s.take(end - at) =~= chars@.subrange(at as int, end as int));
                assert(s.skip(end - at) =~= chars@.skip(end as int));
                assert(before + components(s) =~= out@ + components(chars@.skip(end as int)));
            }
            at = end;
        } else {
            assert(s.drop_first() =~= chars@.skip(at + 1));
            at += 1;
        }
    }
    assert(components(chars@.skip(at as int)) =~= Seq::empty());
    assert(out@ =~= components(v@));
    out
}

/// Whether numbers come before others: by the first that differs, and a shorter run before a longer
/// one that starts with it.
pub open spec fn comes_before(a: Seq<u64>, b: Seq<u64>) -> bool
    decreases a.len(),
{
    if b.len() == 0 {
        false
    } else if a.len() == 0 {
        true
    } else if a[0] != b[0] {
        a[0] < b[0]
    } else {
        comes_before(a.drop_first(), b.drop_first())
    }
}

fn before(a: &Vec<u64>, b: &Vec<u64>) -> (r: bool)
    ensures
        r == comes_before(a@, b@),
{
    let mut i: usize = 0;
    assert(a@.skip(0) =~= a@);
    assert(b@.skip(0) =~= b@);
    while i < a.len() && i < b.len()
        invariant
            i <= a@.len(),
            i <= b@.len(),
            comes_before(a@, b@) == comes_before(a@.skip(i as int), b@.skip(i as int)),
        decreases a@.len() - i,
    {
        if a[i] != b[i] {
            return a[i] < b[i];
        }
        assert(a@.skip(i as int).drop_first() =~= a@.skip(i + 1));
        assert(b@.skip(i as int).drop_first() =~= b@.skip(i + 1));
        i += 1;
    }
    i < b.len()
}

/// Whether a version is older than another.
pub open spec fn is_older(a: Seq<char>, b: Seq<char>) -> bool {
    comes_before(components(a), components(b))
}

/// A character that a release may be called by.
pub open spec fn is_tag_char(c: char) -> bool {
    let n = c as int;
    48 <= n <= 57 || 65 <= n <= 90 || 97 <= n <= 122 || c == '.' || c == '_' || c == '+' || c == '-'
}

/// Whether a text can be what a release is called.
pub open spec fn is_tag(v: Seq<char>) -> bool {
    v.len() > 0 && forall|i: int| 0 <= i < v.len() ==> is_tag_char(#[trigger] v[i])
}

fn tag_char(c: char) -> (r: bool)
    ensures
        r == is_tag_char(c),
{
    let n: u32 = c as u32;
    (48 <= n && n <= 57) || (65 <= n && n <= 90) || (97 <= n && n <= 122) || c == '.' || c == '_'
        || c == '+' || c == '-'
}

fn valid_tag(v: &str) -> (r: bool)
    ensures
        r == is_tag(v@),
{
    let chars = chars_of(v);
    if chars.len() == 0 {
        return false;
    }
    for i in 0..chars.len()
        invariant
            chars@ == v@,
            forall|j: int| 0 <= j < i ==> is_tag_char(#[trigger] v@[j]),
    {
        if !tag_char(chars[i]) {
            assert(!is_tag_char(v@[i as int]));
            return false;
        }
    }
    true
}

/// The release to update to: the one asked for, which must be called as releases are, or the
/// latest, which must not be older than the program.
pub open spec fn release(requested: Option<Seq<char>>, latest: Seq<char>, current: Seq<char>) -> Result<
    Seq<char>,
    ErrorView,
> {
    match requested {
        Some(v) => if is_tag(normal_version(v)) {
            Ok(normal_version(v))
        } else {
            Err(
                ErrorView::InvalidArgument(
                    "invalid version '"@ + normal_version(v)
                        + "' (release tags are [0-9A-Za-z._+-])"@,
                ),
            )
        },
        None => if is_older(latest, current) {
            Err(
                ErrorView::InvalidArgument(
                    "latest release v"@ + latest + " is older than the running v"@ + current
                        + "; pin it explicitly with --version "@ + latest + " if intended"@,
                ),
            )
        } else {
            Ok(latest)
        },
    }
}

/// The release to update to. `latest` counts only where no release is asked for.
pub fn choose_release(requested: Option<String>, latest: &str, current: &str) -> (r: Result<
    String,
    WebPilotError,
>)
    ensures
        error::outcome(r) == release(model::maybe(requested), latest@, current@),
{
    match requested {
        Some(v) => {
            let v = normalize_version(v.as_str());
            if valid_tag(v.as_str()) {
                Ok(v)
            } else {
                Err(
                    WebPilotError::InvalidArgument {
                        detail: "invalid version '".to_owned().concat(v.as_str()).concat(
                            "' (release tags are [0-9A-Za-z._+-])",
                        ),
                    },
                )
            }
        },
        None => {
            if before(&version_components(latest), &version_components(current)) {
                Err(
                    WebPilotError::InvalidArgument {
                        detail: "latest release v".to_owned().concat(latest).concat(
                            " is older than the running v",
                        ).concat(current).concat("; pin it explicitly with --version ").concat(
                            latest,
                        ).concat(" if intended"),
                    },
                )
            } else {
                Ok(latest.to_owned())
            }
        },
    }
}

/// The platform that releases are built for.
pub open spec fn target_of(os: Seq<char>, arch: Seq<char>) -> Result<Seq<char>, ErrorView> {
    if os != "macos"@ && os != "linux"@ {
        Err(ErrorView::Other("unsupported OS for self-update"@))
    } else if arch != "x86_64"@ && arch != "aarch64"@ {
        Err(ErrorView::Other("unsupported architecture for self-update"@))
    } else {
        Ok(
            arch + "-"@ + (if os == "macos"@ {
                "apple-darwin"@
            } else {
                "unknown-linux-gnu"@
            }),
        )
    }
}

/// The platform that releases are built for, by the names of an operating system and an
/// architecture.
pub fn detect_target(os: &str, arch: &str) -> (r: Result<String, WebPilotError>)
    ensures
        error::outcome(r) == target_of(os@, arch@),
{
    let platform = if same(os, "macos") {
        "apple-darwin"
    } else if same(os, "linux") {
        "unknown-linux-gnu"
    } else {
        return Err(WebPilotError::other("unsupported OS for self-update"));
    };
    if same(arch, "x86_64") || same(arch, "aarch64") {
        Ok(arch.to_owned().concat("-").concat(platform))
    } else {
        Err(WebPilotError::other("unsupported architecture for self-update"))
    }
}

/// What updating to a release takes: nothing where the program is that release already, else the
/// archive, its address, and where in it the program is.
pub enum UpdatePlan {
    Current(CommandOutput),
    Fetch { version: String, archive: String, url: String, binary: String },
}

/// What a plan is.
pub enum PlanView {
    Current(OutputView),
    Fetch(Seq<char>, Seq<char>, Seq<char>, Seq<char>),
}

impl View for UpdatePlan {
    type V = PlanView;

    open spec fn view(&self) -> PlanView {
        match self {
            UpdatePlan::Current(o) => PlanView::Current(o@),
            UpdatePlan::Fetch { version, archive, url, binary } => PlanView::Fetch(
                version@,
                archive@,
                url@,
                binary@,
            ),
        }
    }
}

/// What an update that changes nothing prints.
pub open spec fn current_output(current: Seq<char>) -> OutputView {
    OutputView::Data(
        JsonView::object().with("updated"@, JsonView::Bool(false)).with(
            "version"@,
            JsonView::Str(current),
        ),
        "Already on v"@ + current + " — pass --force to reinstall."@,
    )
}

/// What updating comes to.
pub open spec fn update_plan(
    args: UpdateArgs,
    latest: Seq<char>,
    current: Seq<char>,
    target: Seq<char>,
) -> Result<PlanView, ErrorView> {
    match release(model::maybe(args.version), latest, current) {
        Err(e) => Err(e),
        Ok(version) => if !args.force && current == version {
            Ok(PlanView::Current(current_output(current)))
        } else {
            let stem = "webpilot-"@ + version + "-"@ + target;
            let archive = stem + ".tar.gz"@;
            Ok(
                PlanView::Fetch(
                    version,
                    archive,
                    "https://github.com/junyeong-ai/web-pilot/releases/download/v"@ + version
                        + "/"@ + archive,
                    stem + "/webpilot"@,
                ),
            )
        },
    }
}

/// Decides what updating takes.
pub fn update(args: UpdateArgs, latest: &str, current: &str, target: &str) -> (r: Result<
    UpdatePlan,
    WebPilotError,
>)
    ensures
        error::outcome(r) == update_plan(args, latest@, current@, target@),
{
    let version = match choose_release(args.version, latest, current) {
        Ok(v) => v,
        Err(e) => {
            return Err(e);
        },
    };
    if !args.force && same(current, version.as_str()) {
        return Ok(
            UpdatePlan::Current(
                CommandOutput::Data {
                    json: Json::object().with("updated", Json::Bool(false)).with(
                        "version",
                        Json::string(current),
                    ),
                    human: "Already on v".to_owned().concat(current).concat(
                        " — pass --force to reinstall.",
                    ),
                },
            ),
        );
    }
    let stem = "webpilot-".to_owned().concat(version.as_str()).concat("-").concat(target);
    let archive = stem.clone().concat(".tar.gz");
    let url = "https://github.com/junyeong-ai/web-pilot/releases/download/v".to_owned().concat(
        version.as_str(),
    ).concat("/").concat(archive.as_str());
    let binary = stem.concat("/webpilot");
    Ok(UpdatePlan::Fetch { version, archive, url, binary })
}

/// Decides what `self` takes.
pub fn run(args: SelfArgs, latest: &str, current: &str, target: &str) -> (r: Result<
    UpdatePlan,
    WebPilotError,
>)
    ensures
        error::outcome(r) == update_plan(args.command->Update_0, latest@, current@, target@),
{
    match args.command {
        SelfCommand::Update(a) => update(a, latest, current, target),
    }
}

/// The record to leave before the program is replaced: the digest of the skill on disk, where that
/// is what this program would write.
pub open spec fn claim(disk: Option<Seq<u8>>, embedded: Option<Seq<u8>>) -> Option<Seq<char>> {
    if disk is Some && disk == embedded {
        Some(skill::digest_of(disk->0))
    } else {
        None
    }
}

/// The record to leave before the program is replaced. Either file may be missing: then there is
/// none to leave.
pub fn before_replace(disk: Option<&[u8]>, embedded: Option<&[u8]>) -> (r: Option<String>)
    ensures
        model::maybe(r) == claim(model::maybe(disk), model::maybe(embedded)),
{
    match disk {
        Some(d) => match embedded {
            Some(e) => record_if_ours(d, e),
            None => None,
        },
        None => None,
    }
}

/// What an update is about to do.
#[derive(Debug, Clone, Copy, PartialEq, Eq, Structural)]
pub enum Stage {
    /// Fetches the archive.
    FetchArchive,
    /// Fetches the checksum beside it.
    FetchChecksum,
    /// Checks the archive against it.
    Verify,
    /// Unpacks the archive.
    Extract,
    /// Looks for the program in it.
    Locate,
    /// Signs the program, so that it can be started at all.
    Sign,
    /// Looks at the skill on disk, which only this program can still tell for its own.
    Claim,
    /// Puts the new program in the place of this one.
    Replace,
    /// Nothing more.
    Done,
}

/// What a stage came to.
pub enum Event<'a> {
    /// It went well, or did not.
    Went(bool),
    /// It could not be carried out.
    Broke(String),
    /// The skill on disk, and the one that this program carries.
    Skill { disk: Option<&'a [u8]>, embedded: Option<&'a [u8]> },
}

/// What an event is.
pub enum EventView {
    Went(bool),
    Broke(Seq<char>),
    Skill(Option<Seq<u8>>, Option<Seq<u8>>),
}

impl<'a> View for Event<'a> {
    type V = EventView;

    open spec fn view(&self) -> EventView {
        match self {
            Event::Went(well) => EventView::Went(*well),
            Event::Broke(reason) => EventView::Broke(reason@),
            Event::Skill { disk, embedded } => EventView::Skill(
                model::maybe(*disk),
                model::maybe(*embedded),
            ),
        }
    }
}

/// Whether an event can be what a stage came to.
pub open spec fn befits(stage: Stage, event: EventView) -> bool {
    match stage {
        Stage::Claim => event is Skill,
        Stage::Replace => event is Broke || event == EventView::Went(true),
        Stage::Done => false,
        _ => !(event is Skill),
    }
}

/// Why a stage that did not go well ends the update. `url` is where the archive is fetched from,
/// and `place` where the program should be found in it.
pub open spec fn stage_error(stage: Stage, url: Seq<char>, place: Seq<char>) -> Seq<char> {
    match stage {
        Stage::FetchArchive => "download failed: "@ + url,
        Stage::FetchChecksum => "download failed: "@ + (url + ".sha256"@),
        Stage::Verify => "checksum verification failed"@,
        Stage::Extract => "tar extraction failed"@,
        Stage::Locate => "release archive missing expected binary at "@ + place,
        _ =>
            "codesign failed — the updated binary would be unrunnable on macOS, so the update was aborted with the existing binary kept"@,
    }
}

/// What follows a stage that went well.
pub open spec fn following(stage: Stage, macos: bool) -> Stage {
    match stage {
        Stage::FetchArchive => Stage::FetchChecksum,
        Stage::FetchChecksum => Stage::Verify,
        Stage::Verify => Stage::Extract,
        Stage::Extract => Stage::Locate,
        Stage::Locate => if macos {
            Stage::Sign
        } else {
            Stage::Claim
        },
        Stage::Sign => Stage::Claim,
        Stage::Claim => Stage::Replace,
        _ => Stage::Done,
    }
}

/// What an update goes on with: the next stage, and the record to leave before it is begun. An
/// update ends where a stage does not go well.
pub open spec fn goes_on(
    stage: Stage,
    event: EventView,
    macos: bool,
    url: Seq<char>,
    place: Seq<char>,
) -> Result<(Stage, Option<Seq<char>>), ErrorView> {
    match event {
        EventView::Broke(reason) => Err(ErrorView::Other(reason)),
        EventView::Went(well) => if well {
            Ok((following(stage, macos), None))
        } else {
            Err(ErrorView::Other(stage_error(stage, url, place)))
        },
        EventView::Skill(disk, embedded) => Ok((following(stage, macos), claim(disk, embedded))),
    }
}

/// Goes on from a stage of an update: the next stage, and the record to leave before it is begun.
pub fn next_stage(stage: Stage, event: Event, macos: bool, url: &str, place: &str) -> (r: Result<
    (Stage, Option<String>),
    WebPilotError,
>)
    requires
        befits(stage, event@),
    ensures
        match goes_on(stage, event@, macos, url@, place@) {
            Ok((next, record)) => r is Ok && r->Ok_0.0 == next && model::maybe(r->Ok_0.1) == record,
            Err(e) => r is Err && r->Err_0@ == e,
        },
{
    let next = match stage {
        Stage::FetchArchive => Stage::FetchChecksum,
        Stage::FetchChecksum => Stage::Verify,
        Stage::Verify => Stage::Extract,
        Stage::Extract => Stage::Locate,
        Stage::Locate => if macos {
            Stage::Sign
        } else {
            Stage::Claim
        },
        Stage::Sign => Stage::Claim,
        Stage::Claim => Stage::Replace,
        _ => Stage::Done,
    };
    match event {
        Event::Broke(reason) => Err(WebPilotError::Other { detail: reason }),
        Event::Skill { disk, embedded } => Ok((next, before_replace(disk, embedded))),
        Event::Went(well) => {
            if well {
                return Ok((next, None));
            }
            match stage {
                Stage::FetchArchive => match download(url, false) {
                    Err(e) => Err(e),
                    Ok(_) => Ok((next, None)),
                },
                Stage::FetchChecksum => match download(
                    url.to_owned().concat(".sha256").as_str(),
                    false,
                ) {
                    Err(e) => Err(e),
                    Ok(_) => Ok((next, None)),
                },
                Stage::Verify => match verify_checksum(false) {
                    Err(e) => Err(e),
                    Ok(_) => Ok((next, None)),
                },
                Stage::Extract => Err(WebPilotError::other("tar extraction failed")),
                Stage::Locate => Err(
                    WebPilotError::Other {
                        detail: "release archive missing expected binary at ".to_owned().concat(
                            place,
                        ),
                    },
                ),
                _ => Err(
                    WebPilotError::other(
                        "codesign failed — the updated binary would be unrunnable on macOS, so the update was aborted with the existing binary kept",
                    ),
                ),
            }
        },
    }
}

/// Whether stages are those of an update: from the first on, each what the one before went on
/// with, and `records` what was left before it.
pub open spec fn is_update(
    stages: Seq<Stage>,
    events: Seq<EventView>,
    records: Seq<Option<Seq<char>>>,
    macos: bool,
    url: Seq<char>,
    place: Seq<char>,
) -> bool {
    &&& stages.len() > 0
    &&& events.len() == stages.len() - 1
    &&& records.len() == stages.len() - 1
    &&& stages[0] == Stage::FetchArchive
    &&& forall|i: int|
        0 <= i < events.len() ==> befits(stages[i], #[trigger] events[i]) && goes_on(
            stages[i],
            events[i],
            macos,
            url,
            place,
        ) == Ok::<(Stage, Option<Seq<char>>), ErrorView>((stages[i + 1], records[i]))
}

/// The place of a stage among those of an update.
pub open spec fn rank(stage: Stage, macos: bool) -> int {
    match stage {
        Stage::FetchArchive => 0,
        Stage::FetchChecksum => 1,
        Stage::Verify => 2,
        Stage::Extract => 3,
        Stage::Locate => 4,
        Stage::Sign => 5,
        Stage::Claim => if macos {
            6
        } else {
            5
        },
        Stage::Replace => if macos {
            7
        } else {
            6
        },
        Stage::Done => if macos {
            8
        } else {
            7
        },
    }
}

proof fn lemma_stages_rank(
    stages: Seq<Stage>,
    events: Seq<EventView>,
    records: Seq<Option<Seq<char>>>,
    macos: bool,
    url: Seq<char>,
    place: Seq<char>,
    i: int,
)
    requires
        is_update(stages, events, records, macos, url, place),
        0 <= i < stages.len(),
    ensures
        rank(stages[i], macos) == i,
        stages[i] is Sign ==> macos,
    decreases i,
{
    if i > 0 {
        lemma_stages_rank(stages, events, records, macos, url, place, i - 1);
        assert(befits(stages[i - 1], events[i - 1]));
    }
}

/// The program is replaced only by one that was checked, unpacked and found, and signed where it
/// must be: each of these went well before.
pub proof fn law_only_what_is_checked_is_installed(
    stages: Seq<Stage>,
    events: Seq<EventView>,
    records: Seq<Option<Seq<char>>>,
    macos: bool,
    url: Seq<char>,
    place: Seq<char>,
    at: int,
)
    requires
        is_update(stages, events, records, macos, url, place),
        0 <= at < stages.len(),
        stages[at] == Stage::Replace,
    ensures
        at == if macos {
            7int
        } else {
            6
        },
        stages[2] == Stage::Verify && events[2] == EventView::Went(true),
        stages[3] == Stage::Extract && events[3] == EventView::Went(true),
        stages[4] == Stage::Locate && events[4] == EventView::Went(true),
        macos ==> stages[5] == Stage::Sign && events[5] == EventView::Went(true),
{
    lemma_stages_rank(stages, events, records, macos, url, place, at);
    lemma_stages_rank(stages, events, records, macos, url, place, 2);
    lemma_stages_rank(stages, events, records, macos, url, place, 3);
    lemma_stages_rank(stages, events, records, macos, url, place, 4);
    lemma_stages_rank(stages, events, records, macos, url, place, 5);
    assert(befits(stages[2], events[2]));
    assert(befits(stages[3], events[3]));
    assert(befits(stages[4], events[4]));
    assert(befits(stages[5], events[5]));
}

/// An update leaves the skill to the program that comes: where the skill on disk is what this
/// program would write, its digest is on record before the program is replaced, and by that record
/// the copy is the program's own, whatever the next version would write.
pub proof fn law_update_claims_the_skill(
    stages: Seq<Stage>,
    events: Seq<EventView>,
    records: Seq<Option<Seq<char>>>,
    macos: bool,
    url: Seq<char>,
    place: Seq<char>,
    at: int,
    next: Seq<u8>,
)
    requires
        is_update(stages, events, records, macos, url, place),
        0 <= at < stages.len(),
        stages[at] == Stage::Replace,
    ensures
        at > 0 && stages[at - 1] == Stage::Claim,
        events[at - 1] matches EventView::Skill(disk, embedded) && records[at - 1] == claim(
            disk,
            embedded,
        ) && (disk is Some && disk == embedded ==> records[at - 1] == Some(
            skill::digest_of(disk->0),
        ) && skill::owner(disk, next, records[at - 1]) is Ours),
{
    lemma_stages_rank(stages, events, records, macos, url, place, at);
    lemma_stages_rank(stages, events, records, macos, url, place, at - 1);
    assert(befits(stages[at - 1], events[at - 1]));
}

/// What became of the browser's extension, whose version must be the program's.
#[derive(Debug, Clone, Copy, PartialEq, Eq, Structural)]
pub enum ExtensionState {
    NotInstalled,
    Refreshed,
    Stale,
}

/// What became of the extension: where it was ever installed, the new program has refreshed it or
/// has failed to.
pub fn extension_state(installed: bool, refreshed: bool) -> (r: ExtensionState)
    ensures
        r == if !installed {
            ExtensionState::NotInstalled
        } else if refreshed {
            ExtensionState::Refreshed
        } else {
            ExtensionState::Stale
        },
{
    if !installed {
        ExtensionState::NotInstalled
    } else if refreshed {
        ExtensionState::Refreshed
    } else {
        ExtensionState::Stale
    }
}

/// The name of what became of the extension.
pub open spec fn state_name(s: ExtensionState) -> Seq<char> {
    match s {
        ExtensionState::NotInstalled => "not_installed"@,
        ExtensionState::Refreshed => "refreshed"@,
        ExtensionState::Stale => "stale"@,
    }
}

/// What is left to do about the extension.
pub open spec fn state_note(s: ExtensionState) -> Seq<char> {
    match s {
        ExtensionState::NotInstalled => Seq::empty(),
        ExtensionState::Refreshed =>
            "\n  Browser mode: reload the extension in chrome://extensions to finish."@,
        ExtensionState::Stale =>
            "\n  Browser mode: run `webpilot setup extension`, then reload it in chrome://extensions."@,
    }
}

/// What an update prints.
pub fn updated(from: &str, to: &str, path: &str, extension: ExtensionState) -> (r: CommandOutput)
    ensures
        r@ == OutputView::Data(
            JsonView::object().with("updated"@, JsonView::Bool(true)).with(
                "from"@,
                JsonView::Str(from@),
            ).with("to"@, JsonView::Str(to@)).with("path"@, JsonView::Str(path@)).with(
                "extension"@,
                JsonView::Str(state_name(extension)),
            ),
            "✓ Updated v"@ + from@ + " → v"@ + to@ + "\n  "@ + path@ + state_note(extension),
        ),
{
    let name = match extension {
        ExtensionState::NotInstalled => "not_installed",
        ExtensionState::Refreshed => "refreshed",
        ExtensionState::Stale => "stale",
    };
    let note = match extension {
        ExtensionState::NotInstalled => String::new(),
        ExtensionState::Refreshed =>
            "\n  Browser mode: reload the extension in chrome://extensions to finish.".to_owned(),
        ExtensionState::Stale =>
            "\n  Browser mode: run `webpilot setup extension`, then reload it in chrome://extensions.".to_owned(),
    };
    let json = Json::object().with("updated", Json::Bool(true)).with(
        "from",
        Json::string(from),
    ).with("to", Json::string(to)).with("path", Json::string(path)).with(
        "extension",
        Json::string(name),
    );
    let human = "✓ Updated v".to_owned().concat(from).concat(" → v").concat(to).concat(
        "\n  ",
    ).concat(path).concat(note.as_str());
    CommandOutput::Data { json, human }
}

/// Without a release asked for, the program is never replaced by an older one.
pub proof fn law_no_silent_downgrade(
    args: UpdateArgs,
    latest: Seq<char>,
    current: Seq<char>,
    target: Seq<char>,
)
    requires
        args.version is None,
    ensures
        match update_plan(args, latest, current, target) {
            Ok(PlanView::Fetch(version, _, _, _)) => version == latest && !is_older(
                version,
                current,
            ),
            _ => true,
        },
{
}

/// No version is older than itself, and of two versions not both are older than the other.
pub proof fn law_age_is_an_order(a: Seq<u64>, b: Seq<u64>)
    ensures
        !comes_before(a, a),
        !(comes_before(a, b) && comes_before(b, a)),
    decreases a.len(),
{
    if a.len() > 0 {
        law_age_is_an_order(a.drop_first(), b.drop_first());
    }
}

/// A version that is called as releases are stays so: its `v` is taken off once and for all.
pub proof fn law_normal_versions_stay(s: Seq<char>)
    ensures
        text::without_front(normal_version(s), 'v') == normal_version(s),
{
    lemma_front_gone(text::trimmed(s), 'v');
}

proof fn lemma_front_gone(s: Seq<char>, c: char)
    ensures
        text::without_front(text::without_front(s, c), c) == text::without_front(s, c),
    decreases s.len(),
{
    if s.len() > 0 && s[0] == c {
        lemma_front_gone(s.drop_first(), c);
    }
}

/// Numbers come before others exactly where, at the first place at which they differ, theirs is the
/// smaller, or where they are the start of the others.
pub proof fn law_the_first_difference_decides(a: Seq<u64>, b: Seq<u64>)
    ensures
        comes_before(a, b) <==> exists|i: int|
            {
                &&& 0 <= i <= a.len()
                &&& i < b.len()
                &&& a.take(i) == #[trigger] b.take(i)
                &&& i == a.len() || a[i] < b[i]
            },
    decreases a.len(),
{
    let first = |i: int|
        {
            &&& 0 <= i <= a.len()
            &&& i < b.len()
            &&& a.take(i) == b.take(i)
            &&& i == a.len() || a[i] < b[i]
        };
    if b.len() > 0 {
        if a.len() == 0 {
            assert(a.take(0) =~= b.take(0));
        } else if a[0] != b[0] {
            if a[0] < b[0] {
                assert(a.take(0) =~= b.take(0));
            }
            assert forall|i: int| #[trigger] first(i) implies i == 0 by {
                if i > 0 {
                    assert(a.take(i)[0] == b.take(i)[0]);
                }
            }
            assert forall|i: int|
                {
                    &&& 0 <= i <= a.len()
                    &&& i < b.len()
                    &&& a.take(i) == #[trigger] b.take(i)
                    &&& i == a.len() || a[i] < b[i]
                } implies i == 0 by {
                assert(first(i));
            }
        } else {
            let (x, y) = (a.drop_first(), b.drop_first());
            law_the_first_difference_decides(x, y);
            if comes_before(a, b) {
                let i = choose|i: int|
                    {
                        &&& 0 <= i <= x.len()
                        &&& i < y.len()
                        &&& x.take(i) == #[trigger] y.take(i)
                        &&& i == x.len() || x[i] < y[i]
                    };
                assert(a.take(i + 1) =~= seq![a[0]] + x.take(i));
                assert(b.take(i + 1) =~= seq![b[0]] + y.take(i));
            }
            if exists|i: int|
                {
                    &&& 0 <= i <= a.len()
                    &&& i < b.len()
                    &&& a.take(i) == #[trigger] b.take(i)
                    &&& i == a.len() || a[i] < b[i]
                } {
                let i = choose|i: int|
                    {
                        &&& 0 <= i <= a.len()
                        &&& i < b.len()
                        &&& a.take(i) == #[trigger] b.take(i)
                        &&& i == a.len() || a[i] < b[i]
                    };
                assert(i > 0);
                assert(x.take(i - 1) =~= a.take(i).drop_first());
                assert(y.take(i - 1) =~= b.take(i).drop_first());
                assert(x.take(i - 1) == y.take(i - 1));
            }
        }
    }
}

/// The numbers of a version are its runs of digits, in their order: what stands between them only
/// parts them.
pub proof fn law_numbers_of_a_version(n: u64, mark: char, rest: Seq<char>)
    requires
        !('0' <= mark <= '9'),
    ensures
        components(Seq::empty()).len() == 0,
        components(text::decimal(n as nat)) == seq![n],
        components(text::decimal(n as nat) + (seq![mark] + rest)) == seq![n] + components(rest),
        components(seq![mark] + rest) == components(rest),
{
    let d = text::decimal(n as nat);
    let tail = seq![mark] + rest;
    text::law_decimals_read_back(n as nat);
    lemma_number_of(d);
    assert(tail.drop_first() =~= rest);
    lemma_run(tail, 0);
    let s = d + tail;
    assert forall|i: int| 0 <= i < d.len() implies is_digit(s[i]) by {
        assert(s[i] == d[i]);
    }
    assert(s[d.len() as int] == mark);
    lemma_run(s, d.len() as int);
    assert(s.take(d.len() as int) =~= d);
    assert(s.skip(d.len() as int) =~= tail);
    lemma_run(d, d.len() as int);
    assert(d.take(d.len() as int) =~= d);
    assert(d.skip(d.len() as int) =~= Seq::empty());
    assert(components(tail) == components(rest));
    assert(rest_of(s) == tail);
    assert(component(d) == n);
    assert(components(s) == seq![component(d)] + components(tail));
    assert(rest_of(d) == Seq::<char>::empty());
    assert(components(Seq::<char>::empty()) =~= Seq::<u64>::empty());
    assert(components(d) == seq![component(d)] + components(Seq::<char>::empty()));
    assert(seq![n] + Seq::<u64>::empty() =~= seq![n]);
}

proof fn lemma_number_of(d: Seq<char>)
    requires
        forall|i: int| 0 <= i < d.len() ==> '0' <= #[trigger] d[i] <= '9',
    ensures
        number_of(d) == text::digits_value(d),
        forall|i: int| 0 <= i < d.len() ==> is_digit(#[trigger] d[i]),
    decreases d.len(),
{
    if d.len() > 0 {
        assert('0' <= d[d.len() - 1] <= '9');
        lemma_number_of(d.drop_last());
    }
}

/// A version as releases write it: three numbers with points between them.
pub open spec fn dotted(v: (u64, u64, u64)) -> Seq<char> {
    text::decimal(v.0 as nat) + (seq!['.'] + (text::decimal(v.1 as nat) + (seq!['.'] + text::decimal(
        v.2 as nat,
    ))))
}

/// Of two releases the one with the smaller first number is the older; where those are equal the
/// second decides, then the third. The latest release is taken exactly where it is not older than
/// the program, and refused otherwise, with both named.
pub proof fn law_the_latest_is_never_older(latest: (u64, u64, u64), current: (u64, u64, u64))
    ensures
        ({
            let older = latest.0 < current.0 || (latest.0 == current.0 && (latest.1 < current.1 || (
            latest.1 == current.1 && latest.2 < current.2)));
            &&& older ==> (release(None, dotted(latest), dotted(current)) matches Err(
                ErrorView::InvalidArgument(told),
            ) && text::holds(told, dotted(latest)) && text::holds(told, dotted(current)))
            &&& !older ==> release(None, dotted(latest), dotted(current)) == Ok::<
                Seq<char>,
                ErrorView,
            >(dotted(latest))
        }),
{
    lemma_dotted(latest);
    lemma_dotted(current);
    lemma_three_numbers(latest, current);
    lemma_both_are_named(dotted(latest), dotted(current));
}

proof fn lemma_three_numbers(a: (u64, u64, u64), b: (u64, u64, u64))
    ensures
        comes_before(seq![a.0, a.1, a.2], seq![b.0, b.1, b.2]) <==> a.0 < b.0 || (a.0 == b.0 && (a.1
            < b.1 || (a.1 == b.1 && a.2 < b.2))),
{
    reveal_with_fuel(comes_before, 4);
    assert(seq![a.0, a.1, a.2].drop_first() =~= seq![a.1, a.2]);
    assert(seq![b.0, b.1, b.2].drop_first() =~= seq![b.1, b.2]);
    assert(seq![a.1, a.2].drop_first() =~= seq![a.2]);
    assert(seq![b.1, b.2].drop_first() =~= seq![b.2]);
    assert(seq![a.2].drop_first() =~= Seq::<u64>::empty());
    assert(seq![b.2].drop_first() =~= Seq::<u64>::empty());
}

proof fn lemma_both_are_named(x: Seq<char>, y: Seq<char>)
    ensures
        ({
            let told = "latest release v"@ + x + " is older than the running v"@ + y
                + "; pin it explicitly with --version "@ + x + " if intended"@;
            text::holds(told, x) && text::holds(told, y)
        }),
{
    let told = "latest release v"@ + x + " is older than the running v"@ + y
        + "; pin it explicitly with --version "@ + x + " if intended"@;
    let front = "latest release v"@ + x + " is older than the running v"@;
    let end = "; pin it explicitly with --version "@ + x + " if intended"@;
    assert(told =~= front + y + end);
    text::lemma_part(front, y, end);
    text::lemma_part(
        "latest release v"@ + x + " is older than the running v"@ + y
            + "; pin it explicitly with --version "@,
        x,
        " if intended"@,
    );
}

proof fn lemma_dotted(v: (u64, u64, u64))
    ensures
        components(dotted(v)) == seq![v.0, v.1, v.2],
{
    let last = text::decimal(v.2 as nat);
    let mid = text::decimal(v.1 as nat) + (seq!['.'] + last);
    law_numbers_of_a_version(v.2, '.', last);
    law_numbers_of_a_version(v.1, '.', last);
    law_numbers_of_a_version(v.0, '.', mid);
    assert(seq![v.0] + (seq![v.1] + seq![v.2]) =~= seq![v.0, v.1, v.2]);
}

/// A release that is asked for is taken as it is called, with or without a `v` in front, whatever the
/// latest is; one that could not be what a release is called is refused.
pub proof fn law_a_release_is_taken_as_asked(tag: Seq<char>, latest: Seq<char>, current: Seq<char>)
    requires
        tag.len() > 0,
        tag[0] != 'v',
        forall|i: int| 0 <= i < tag.len() ==> '!' <= #[trigger] tag[i] <= '~',
    ensures
        ({
            let fits = forall|i: int|
                0 <= i < tag.len() ==> {
                    let c = #[trigger] tag[i];
                    '0' <= c <= '9' || 'A' <= c <= 'Z' || 'a' <= c <= 'z' || c == '.' || c == '_'
                        || c == '+' || c == '-'
                };
            &&& fits ==> release(Some(tag), latest, current) == Ok::<Seq<char>, ErrorView>(tag)
                && release(Some(seq!['v'] + tag), latest, current) == Ok::<Seq<char>, ErrorView>(tag)
            &&& !fits ==> release(Some(tag), latest, current) matches Err(
                ErrorView::InvalidArgument(_),
            )
        }),
{
    lemma_seen(tag);
    let v = seq!['v'] + tag;
    assert forall|i: int| 0 <= i < v.len() implies '!' <= #[trigger] v[i] <= '~' by {
        if i > 0 {
            assert(v[i] == tag[i - 1]);
        }
    }
    lemma_seen(v);
    assert(v.drop_first() =~= tag);
    assert(text::without_front(v, 'v') == tag);
}

/// A text that can be seen is not trimmed.
proof fn lemma_seen(s: Seq<char>)
    requires
        s.len() > 0,
        '!' <= s[0] <= '~',
        '!' <= s.last() <= '~',
    ensures
        text::trimmed(s) == s,
{
    text::law_white_space(s[0]);
    text::law_white_space(s.last());
}

/// The latest release is the one that the address names behind `/releases/tag/`, without the `v` in
/// front; an address without it names none.
pub proof fn law_the_latest_is_what_the_address_names(base: Seq<char>, tag: Seq<char>, url: Seq<char>)
    requires
        base.len() > 0,
        '!' <= base[0] <= '~',
        tag.len() > 0,
        tag[0] != 'v',
        forall|i: int|
            0 <= i < tag.len() ==> '!' <= #[trigger] tag[i] <= '~' && tag[i] != '/' && tag[i] != '?'
                && tag[i] != '#',
    ensures
        redirect_tag(base + "/releases/tag/"@ + tag) == Some(tag),
        redirect_tag(base + "/releases/tag/"@ + (seq!['v'] + tag)) == Some(tag),
        !text::holds(url, "/releases/tag/"@) ==> redirect_tag(url) is None,
{
    let v = seq!['v'] + tag;
    assert forall|i: int| 0 <= i < v.len() implies '!' <= #[trigger] v[i] <= '~' && v[i] != '/'
        && v[i] != '?' && v[i] != '#' by {
        if i > 0 {
            assert(v[i] == tag[i - 1]);
        }
    }
    lemma_redirect(base, tag);
    lemma_redirect(base, v);
    lemma_seen(tag);
    lemma_seen(v);
    assert(v.drop_first() =~= tag);
    assert(text::without_front(v, 'v') == tag);
    if text::holds(tag_source(url), "/releases/tag/"@) {
        let mark = "/releases/tag/"@;
        text::law_trimmed(url);
        text::law_ends_are_stripped(text::trimmed(url), '/');
        let t = text::trimmed(url);
        let (a, b) = choose|a: int, b: int| 0 <= a <= b <= url.len() && t == #[trigger] url.subrange(a, b);
        let n = choose|n: int|
            0 <= n <= t.len() && text::without_back(t, '/') == #[trigger] t.take(n);
        let at = choose|at: int| text::stands_at(tag_source(url), mark, at);
        assert(url.subrange(a + at, a + at + mark.len()) =~= tag_source(url).subrange(
            at,
            at + mark.len(),
        ));
        assert(text::stands_at(url, mark, a + at));
    }
}

proof fn lemma_redirect(base: Seq<char>, tag: Seq<char>)
    requires
        base.len() > 0,
        '!' <= base[0] <= '~',
        tag.len() > 0,
        forall|i: int|
            0 <= i < tag.len() ==> '!' <= #[trigger] tag[i] <= '~' && tag[i] != '/' && tag[i] != '?'
                && tag[i] != '#',
    ensures
        redirect_tag(base + "/releases/tag/"@ + tag) == Some(normal_version(tag)),
{
    let mark = "/releases/tag/"@;
    reveal_strlit("/releases/tag/");
    let url = base + mark + tag;
    assert(url[0] == base[0]);
    assert(url.last() == tag.last());
    assert('!' <= tag[tag.len() - 1] <= '~');
    lemma_seen(url);
    assert(text::without_back(url, '/') == url);
    let at = base.len() as int;
    assert(url.subrange(at, at + mark.len()) =~= mark);
    assert(text::stands_at(url, mark, at));
    assert forall|k: int| at < k implies !text::stands_at(url, mark, k) by {
        if text::stands_at(url, mark, k) {
            let last = mark.len() - 1;
            assert(mark[last] == '/');
            assert(url.subrange(k, k + mark.len())[last] == url[k + last]);
            assert(k + last >= at + mark.len());
            assert(url[k + last] == tag[k + last - at - mark.len()]);
        }
    }
    assert(text::is_last_at(url, mark, at));
    let chosen = choose|at: int| text::is_last_at(url, mark, at);
    assert(chosen == at) by {
        if chosen < at {
            assert(!text::stands_at(url, mark, at));
        } else if at < chosen {
            assert(!text::stands_at(url, mark, chosen));
        }
    }
    assert(url.skip(at + mark.len()) =~= tag);
    assert forall|i: int| 0 <= i < tag.len() implies !ends_tag(tag[i]) by {
        assert('!' <= tag[i] <= '~');
    }
    lemma_tag_part(tag, tag.len() as int);
    assert(tag.take(tag.len() as int) =~= tag);
    lemma_seen(tag);
}

/// What is fetched is the release that was decided on, for the platform: its archive stands at the
/// address that is fetched, and the program in it under the archive's own name. Nothing is fetched
/// exactly where the program is that release already and no one insists.
pub proof fn law_the_release_is_what_is_fetched(
    args: UpdateArgs,
    latest: Seq<char>,
    current: Seq<char>,
    target: Seq<char>,
)
    ensures
        match release(model::maybe(args.version), latest, current) {
            Err(e) => update_plan(args, latest, current, target) == Err::<PlanView, ErrorView>(e),
            Ok(version) => match update_plan(args, latest, current, target) {
                Ok(PlanView::Current(_)) => version == current && !args.force,
                Ok(PlanView::Fetch(v, archive, url, binary)) => {
                    &&& args.force || version != current
                    &&& v == version
                    &&& archive == "webpilot-"@ + version + seq!['-'] + target + ".tar.gz"@
                    &&& text::has_suffix(url, version + seq!['/'] + archive)
                    &&& text::has_prefix(url, "https://github.com/junyeong-ai/web-pilot/"@)
                    &&& binary + ".tar.gz"@ == archive.take(
                        archive.len() - ".tar.gz"@.len(),
                    ) + "/webpilot.tar.gz"@
                },
                Err(_) => false,
            },
        },
{
    if let Ok(PlanView::Fetch(v, archive, url, binary)) = update_plan(args, latest, current, target) {
        reveal_strlit("-");
        reveal_strlit("/");
        reveal_strlit(".tar.gz");
        reveal_strlit("/webpilot");
        reveal_strlit("/webpilot.tar.gz");
        reveal_strlit("https://github.com/junyeong-ai/web-pilot/");
        reveal_strlit("https://github.com/junyeong-ai/web-pilot/releases/download/v");
        assert("-"@ =~= seq!['-']);
        assert("/"@ =~= seq!['/']);
        let base = "https://github.com/junyeong-ai/web-pilot/releases/download/v"@;
        let stem = "webpilot-"@ + v + "-"@ + target;
        assert(url =~= base + (v + seq!['/'] + archive));
        text::lemma_back(base, v + seq!['/'] + archive);
        assert(base.take("https://github.com/junyeong-ai/web-pilot/"@.len() as int)
            =~= "https://github.com/junyeong-ai/web-pilot/"@);
        assert(url.take("https://github.com/junyeong-ai/web-pilot/"@.len() as int)
            =~= "https://github.com/junyeong-ai/web-pilot/"@);
        assert(archive.take(archive.len() - ".tar.gz"@.len()) =~= stem);
        assert("/webpilot"@ + ".tar.gz"@ =~= "/webpilot.tar.gz"@);
        assert(binary + ".tar.gz"@ =~= stem + ("/webpilot"@ + ".tar.gz"@));
    }
}

/// Releases are built for two systems on two architectures, each named after both; no other platform
/// is updated.
pub proof fn law_platforms(os: Seq<char>, arch: Seq<char>)
    ensures
        target_of(os, arch) is Ok <==> (os == "macos"@ || os == "linux"@) && (arch == "x86_64"@ || arch
            == "aarch64"@),
        os == "macos"@ && target_of(os, arch) is Ok ==> target_of(os, arch)->Ok_0 == arch
            + "-apple-darwin"@,
        os == "linux"@ && target_of(os, arch) is Ok ==> target_of(os, arch)->Ok_0 == arch
            + "-unknown-linux-gnu"@,
{
    reveal_strlit("macos");
    reveal_strlit("linux");
    assert("macos"@.len() == 5);
    assert("linux"@.len() == 5);
    assert("macos"@[0] != "linux"@[0]);
    reveal_strlit("-");
    reveal_strlit("apple-darwin");
    reveal_strlit("-apple-darwin");
    reveal_strlit("unknown-linux-gnu");
    reveal_strlit("-unknown-linux-gnu");
    assert(arch + "-"@ + "apple-darwin"@ =~= arch + "-apple-darwin"@);
    assert(arch + "-"@ + "unknown-linux-gnu"@ =~= arch + "-unknown-linux-gnu"@);
}

/// What an update tells: from which version it went to which, where the program is, and what became
/// of the extension.
pub proof fn law_updates_are_told(
    from: &str,
    to: &str,
    path: &str,
    extension: ExtensionState,
    r: CommandOutput,
)
    requires
        call_ensures(updated, (from, to, path, extension), r),
    ensures
        r matches CommandOutput::Data { json, human } && {
            &&& json@.get("updated"@) == Some(JsonView::Bool(true))
            &&& json@.get("from"@) == Some(JsonView::Str(from@))
            &&& json@.get("to"@) == Some(JsonView::Str(to@))
            &&& json@.get("path"@) == Some(JsonView::Str(path@))
            &&& json@.get("extension"@) == Some(
                JsonView::Str(
                    match extension {
                        ExtensionState::NotInstalled => "not_installed"@,
                        ExtensionState::Refreshed => "refreshed"@,
                        ExtensionState::Stale => "stale"@,
                    },
                ),
            )
            &&& text::holds(human@, path@)
            &&& text::has_prefix(human@, "✓ Updated v"@ + from@ + " → v"@ + to@)
        },
{
    reveal_strlit("updated");
    reveal_strlit("from");
    reveal_strlit("to");
    reveal_strlit("path");
    reveal_strlit("extension");
    assert("updated"@.len() == 7);
    assert("from"@.len() == 4);
    assert("to"@.len() == 2);
    assert("path"@.len() == 4);
    assert("extension"@.len() == 9);
    assert("from"@[0] != "path"@[0]);
    lemma_update_line(from@, to@, path@, state_note(extension));
}

proof fn lemma_update_line(from: Seq<char>, to: Seq<char>, path: Seq<char>, note: Seq<char>)
    ensures
        ({
            let human = "✓ Updated v"@ + from + " → v"@ + to + "\n  "@ + path + note;
            &&& text::holds(human, path)
            &&& text::has_prefix(human, "✓ Updated v"@ + from + " → v"@ + to)
        }),
{
    let head = "✓ Updated v"@ + from + " → v"@ + to;
    text::lemma_part(head + "\n  "@, path, note);
    text::lemma_front(head, "\n  "@ + path + note);
    assert(head + "\n  "@ + path + note =~= head + ("\n  "@ + path + note));
}

/// The release that is updated to: the one that is asked for, as it is called, or the latest unless it
/// is older than the program. The first number that differs decides which of two is older.
pub proof fn law_releases_are_chosen(
    asked: Option<String>,
    latest: &str,
    current: &str,
    r: Result<String, WebPilotError>,
    l: (u64, u64, u64),
    c: (u64, u64, u64),
)
    requires
        latest@ == dotted(l),
        current@ == dotted(c),
        call_ensures(choose_release, (asked, latest, current), r),
    ensures
        asked is None ==> {
            let older = l.0 < c.0 || (l.0 == c.0 && (l.1 < c.1 || (l.1 == c.1 && l.2 < c.2)));
            &&& r is Err <==> older
            &&& r matches Ok(v) ==> v@ == latest@
            &&& r matches Err(e) ==> (e matches WebPilotError::InvalidArgument { detail }
                && text::holds(detail@, latest@) && text::holds(detail@, current@))
        },
        asked matches Some(tag) ==> {
            let plain = tag@.len() > 0 && forall|i: int|
                0 <= i < tag@.len() ==> {
                    let ch = #[trigger] tag@[i];
                    '0' <= ch <= '9' || 'A' <= ch <= 'Z' || 'a' <= ch <= 'u' || 'w' <= ch <= 'z' || ch
                        == '.' || ch == '_' || ch == '+' || ch == '-'
                };
            plain ==> (r matches Ok(v) && v@ == tag@)
        },
{
    law_the_latest_is_never_older(l, c);
    if let Some(tag) = asked {
        let plain = tag@.len() > 0 && forall|i: int|
            0 <= i < tag@.len() ==> {
                let ch = #[trigger] tag@[i];
                '0' <= ch <= '9' || 'A' <= ch <= 'Z' || 'a' <= ch <= 'u' || 'w' <= ch <= 'z' || ch == '.'
                    || ch == '_' || ch == '+' || ch == '-'
            };
        if plain {
            assert(tag@[0] != 'v');
            assert forall|i: int| 0 <= i < tag@.len() implies '!' <= #[trigger] tag@[i] <= '~' by {
            }
            law_a_release_is_taken_as_asked(tag@, latest@, current@);
        }
    }
}

/// What an update comes to: nothing where the release is the program's own and it is not forced, and
/// then that is told; else the archive of that release for that platform is fetched.
pub proof fn law_updates_are_planned(
    command: UpdateArgs,
    latest: &str,
    current: &str,
    target: &str,
    chosen: Result<String, WebPilotError>,
    r: Result<UpdatePlan, WebPilotError>,
)
    requires
        call_ensures(choose_release, (command.version, latest, current), chosen),
        call_ensures(
            run,
            (SelfArgs { command: SelfCommand::Update(command) }, latest, current, target),
            r,
        ),
    ensures
        r is Ok <==> chosen is Ok,
        r matches Ok(UpdatePlan::Current(o)) ==> chosen->Ok_0@ == current@ && !command.force && (
        o matches CommandOutput::Data { json, human } && json@.get("updated"@) == Some(
            JsonView::Bool(false),
        ) && json@.get("version"@) == Some(JsonView::Str(current@)) && text::holds(
            human@,
            current@,
        )),
        r matches Ok(UpdatePlan::Fetch { version, archive, url, binary }) ==> {
            &&& command.force || chosen->Ok_0@ != current@
            &&& version@ == chosen->Ok_0@
            &&& archive@ == "webpilot-"@ + version@ + seq!['-'] + target@ + ".tar.gz"@
            &&& text::has_suffix(url@, version@ + seq!['/'] + archive@)
            &&& text::has_prefix(url@, "https://github.com/junyeong-ai/web-pilot/"@)
        },
{
    reveal_strlit("updated");
    reveal_strlit("version");
    assert("updated"@.len() == 7);
    assert("version"@.len() == 7);
    assert("updated"@[0] != "version"@[0]);
    law_the_release_is_what_is_fetched(command, latest@, current@, target@);
    text::lemma_part("Already on v"@, current@, " — pass --force to reinstall."@);
}

/// The latest release is what the address names that a request for it ends at; where the request failed,
/// the address is no text or names none, there is an error.
pub proof fn law_the_latest_is_resolved(
    base: Seq<char>,
    tag: Seq<char>,
    url: &str,
    r: Option<String>,
    succeeded: bool,
    stdout: Vec<u8>,
    latest: Result<String, WebPilotError>,
)
    requires
        base.len() > 0,
        '!' <= base[0] <= '~',
        tag.len() > 0,
        tag[0] != 'v',
        forall|i: int|
            0 <= i < tag.len() ==> '!' <= #[trigger] tag[i] <= '~' && tag[i] != '/' && tag[i] != '?'
                && tag[i] != '#',
        call_ensures(parse_tag_from_redirect, (url,), r),
        call_ensures(resolve_latest, (succeeded, stdout), latest),
        vstd::utf8::valid_utf8(stdout@) ==> url@ == vstd::utf8::decode_utf8(stdout@),
    ensures
        url@ == base + "/releases/tag/"@ + tag ==> r is Some && r->0@ == tag,
        url@ == base + "/releases/tag/"@ + (seq!['v'] + tag) ==> r is Some && r->0@ == tag,
        !text::holds(url@, "/releases/tag/"@) ==> r is None,
        latest is Ok <==> succeeded && vstd::utf8::valid_utf8(stdout@) && r is Some,
        latest matches Ok(v) ==> v@ == r->0@,
{
    law_the_latest_is_what_the_address_names(base, tag, url@);
}

/// An update takes the programs to fetch, unpack and check it; the check is by the sums that come with
/// the archive. What fails to download or to be checked ends it.
pub proof fn law_updates_take_their_tools(
    tools: Tools,
    r: Result<(), WebPilotError>,
    archive: &str,
    c: (String, Vec<String>),
    url: &str,
    succeeded: bool,
    fetched: Result<(), WebPilotError>,
    checked: Result<(), WebPilotError>,
    os: &str,
    arch: &str,
    target: Result<String, WebPilotError>,
)
    requires
        call_ensures(require_tools, (tools,), r),
        call_ensures(checksum_command, (tools, archive), c),
        call_ensures(download, (url, succeeded), fetched),
        call_ensures(verify_checksum, (succeeded,), checked),
        call_ensures(detect_target, (os, arch), target),
    ensures
        r is Ok <==> tools.curl && tools.tar && (tools.sha256sum || tools.shasum),
        c.0@ == (if tools.sha256sum {
            "sha256sum"@
        } else {
            "shasum"@
        }),
        c.1@.len() > 0 && c.1@.last()@ == archive@ + ".sha256"@,
        fetched is Ok <==> succeeded,
        !succeeded ==> (fetched matches Err(WebPilotError::Other { detail }) && text::has_suffix(
            detail@,
            url@,
        )),
        checked is Ok <==> succeeded,
        os@ == "macos"@ && target is Ok ==> target->Ok_0@ == arch@ + "-apple-darwin"@,
        os@ == "linux"@ && target is Ok ==> target->Ok_0@ == arch@ + "-unknown-linux-gnu"@,
        target is Ok <==> (os@ == "macos"@ || os@ == "linux"@) && (arch@ == "x86_64"@ || arch@
            == "aarch64"@),
{
    law_platforms(os@, arch@);
    text::lemma_back("download failed: "@, url@);
    text::lemma_texts_index(c.1@);
    assert(text::texts(c.1@)[c.1@.len() - 1] == c.1@.last()@);
}

/// The stages of an update follow each other: what is fetched is checked before it is unpacked, found
/// before it is signed where that must be, and the skill claimed before the program is replaced. A stage
/// that did not go well ends the update and says which it was.
pub proof fn law_stages_follow_each_other(
    stage: Stage,
    macos: bool,
    url: &str,
    place: &str,
    went: Result<(Stage, Option<String>), WebPilotError>,
    failed: Result<(Stage, Option<String>), WebPilotError>,
)
    requires
        !(stage is Claim) && !(stage is Replace) && !(stage is Done),
        call_ensures(next_stage, (stage, Event::Went(true), macos, url, place), went),
        call_ensures(next_stage, (stage, Event::Went(false), macos, url, place), failed),
    ensures
        went matches Ok((next, record)) && record is None && match stage {
            Stage::FetchArchive => next is FetchChecksum,
            Stage::FetchChecksum => next is Verify,
            Stage::Verify => next is Extract,
            Stage::Extract => next is Locate,
            Stage::Locate => if macos {
                next is Sign
            } else {
                next is Claim
            },
            _ => next is Claim,
        },
        failed matches Err(WebPilotError::Other { detail }) && {
            &&& stage is FetchArchive ==> text::has_suffix(detail@, url@)
            &&& stage is FetchChecksum ==> text::has_suffix(detail@, url@ + ".sha256"@)
            &&& stage is Locate ==> text::has_suffix(detail@, place@)
        },
{
    text::lemma_back("download failed: "@, url@);
    text::lemma_back("download failed: "@, url@ + ".sha256"@);
    text::lemma_back("release archive missing expected binary at "@, place@);
}

/// Before the program is replaced its own skill is put on record; then nothing is left to do. The
/// extension is refreshed, or stale, or not installed.
pub proof fn law_the_last_stages(
    disk: &[u8],
    embedded: &[u8],
    macos: bool,
    url: &str,
    place: &str,
    claimed: Result<(Stage, Option<String>), WebPilotError>,
    replaced: Result<(Stage, Option<String>), WebPilotError>,
    d: String,
    installed: bool,
    refreshed: bool,
    state: ExtensionState,
)
    requires
        call_ensures(
            next_stage,
            (
                Stage::Claim,
                Event::Skill { disk: Some(disk), embedded: Some(embedded) },
                macos,
                url,
                place,
            ),
            claimed,
        ),
        call_ensures(next_stage, (Stage::Replace, Event::Went(true), macos, url, place), replaced),
        call_ensures(skill::digest, (disk,), d),
        call_ensures(extension_state, (installed, refreshed), state),
    ensures
        claimed matches Ok((next, record)) && next is Replace && (record is Some <==> disk@
            == embedded@) && (record matches Some(left) ==> left@ == d@),
        replaced matches Ok((next, record)) && next is Done && record is None,
        state is NotInstalled <==> !installed,
        state is Refreshed <==> installed && refreshed,
        state is Stale <==> installed && !refreshed,
{
}

/// The numbers of a version are the numbers between its dots, in their order. A version goes without
/// the `v` and the blanks around it. The record that is left is that of the program's own skill.
pub proof fn law_versions_are_read(
    v: (u64, u64, u64),
    plain: &str,
    r: Vec<u64>,
    raw: &str,
    normal: String,
    disk: &[u8],
    embedded: &[u8],
    d: String,
    left: Option<String>,
    none: Option<String>,
)
    requires
        plain@ == dotted(v),
        raw@ == seq!['v'] + plain@,
        call_ensures(version_components, (plain,), r),
        call_ensures(normalize_version, (raw,), normal),
        call_ensures(skill::digest, (disk,), d),
        call_ensures(before_replace, (Some(disk), Some(embedded)), left),
        call_ensures(before_replace, (None, Some(embedded)), none),
    ensures
        r@ == seq![v.0, v.1, v.2],
        normal@ == plain@,
        none is None,
        left is Some <==> disk@ == embedded@,
        left matches Some(t) ==> t@ == d@,
{
    lemma_dotted(v);
    text::law_decimals_read_back(v.0 as nat);
    text::law_decimals_read_back(v.2 as nat);
    assert(plain@[0] == text::decimal(v.0 as nat)[0]);
    assert(plain@.last() == text::decimal(v.2 as nat).last());
    let last = text::decimal(v.2 as nat);
    assert('0' <= last[last.len() - 1] <= '9');
    assert(raw@.last() == plain@.last());
    lemma_seen(raw@);
    assert(raw@.drop_first() =~= plain@);
    assert(plain@[0] != 'v');
    assert(text::without_front(plain@, 'v') == plain@);
    assert(text::without_front(raw@, 'v') == plain@);
}

} // verus!
