//! `setup skill`: the agent's skill, on disk.
use crate::codec;
use crate::codec::sha256;
use crate::commands::setup;
use crate::commands::setup::{home_relative_with, StepOutcome};
use crate::error;
use crate::error::{ErrorView, WebPilotError};
use crate::json::{Json, JsonView};
use crate::model;
use crate::paths;
use crate::paths::join;
use crate::text;
use crate::text::{hex_char, same, trim};
use vstd::prelude::*;
use vstd::string::StringExecFns;

verus! {

/// The arguments of `setup skill`.
#[derive(Debug, PartialEq, Eq)]
pub struct SkillArgs {
    /// Writes the skill even where nothing changes.
    pub force: bool,
}

/// Whose the copy on disk is.
#[derive(Debug, Clone, Copy, PartialEq, Eq, Structural)]
pub enum Provenance {
    /// There is none.
    Absent,
    /// The program wrote it.
    Ours,
    /// Someone else did, or changed it.
    Local,
}

/// What is done with the copy on disk.
#[derive(Debug, Clone, Copy, PartialEq, Eq, Structural)]
pub enum Action {
    Installed,
    Reinstalled,
    Updated,
    Unchanged,
}

/// The name of what is done.
pub open spec fn label_of(action: Action) -> Seq<char> {
    match action {
        Action::Installed => "installed"@,
        Action::Reinstalled => "reinstalled"@,
        Action::Updated => "updated"@,
        Action::Unchanged => "unchanged"@,
    }
}

impl Action {
    /// Whether anything is written.
    pub fn writes(self) -> (r: bool)
        ensures
            r == !(self is Unchanged),
    {
        match self {
            Action::Unchanged => false,
            _ => true,
        }
    }

    /// The name of what is done.
    pub fn label(self) -> (r: &'static str)
        ensures
            r@ == label_of(self),
    {
        match self {
            Action::Installed => "installed",
            Action::Reinstalled => "reinstalled",
            Action::Updated => "updated",
            Action::Unchanged => "unchanged",
        }
    }
}

/// Bytes in hexadecimal, two digits a byte.
pub open spec fn hex(bytes: Seq<u8>) -> Seq<char>
    decreases bytes.len(),
{
    if bytes.len() == 0 {
        Seq::empty()
    } else {
        hex(bytes.drop_last()).push(text::hex_digit(bytes.last() as int / 16)).push(
            text::hex_digit(bytes.last() as int % 16),
        )
    }
}

/// The digest by which bytes are known again.
pub open spec fn digest_of(bytes: Seq<u8>) -> Seq<char> {
    hex(codec::sha256_digest(bytes))
}

/// The digest by which bytes are known again.
pub fn digest(bytes: &[u8]) -> (r: String)
    ensures
        r@ == digest_of(bytes@),
{
    let d = sha256(bytes);
    let mut out = String::new();
    assert(d@.take(0) =~= Seq::empty());
    for i in 0..d.len()
        invariant
            out@ == hex(d@.take(i as int)),
    {
        assert(d@.take(i + 1).drop_last() =~= d@.take(i as int));
        assert(d@.take(i + 1).last() == d@[i as int]);
        out.push(hex_char(d[i] / 16));
        out.push(hex_char(d[i] % 16));
    }
    assert(d@.take(d@.len() as int) =~= d@);
    out
}

fn same_bytes(a: &[u8], b: &[u8]) -> (r: bool)
    ensures
        r == (a@ == b@),
{
    if a.len() != b.len() {
        return false;
    }
    for i in 0..a.len()
        invariant
            a@.len() == b@.len(),
            forall|j: int| 0 <= j < i ==> a@[j] == b@[j],
    {
        if a[i] != b[i] {
            assert(a@[i as int] != b@[i as int]);
            return false;
        }
    }
    assert(a@ =~= b@);
    true
}

/// Whose a copy is: the program's where it is what the program would write, or what a record says
/// that it once wrote.
pub open spec fn owner(on_disk: Option<Seq<u8>>, embedded: Seq<u8>, record: Option<Seq<char>>) -> Provenance {
    match on_disk {
        None => Provenance::Absent,
        Some(disk) => if disk == embedded || record == Some(digest_of(disk)) {
            Provenance::Ours
        } else {
            Provenance::Local
        },
    }
}

/// Whose the copy on disk is.
pub fn provenance(on_disk: Option<&[u8]>, embedded: &[u8], record: Option<&str>) -> (r: Provenance)
    ensures
        r == owner(model::maybe(on_disk), embedded@, model::maybe(record)),
{
    match on_disk {
        None => Provenance::Absent,
        Some(disk) => {
            if same_bytes(disk, embedded) {
                return Provenance::Ours;
            }
            if let Some(recorded) = record {
                if same(recorded, digest(disk).as_str()) {
                    return Provenance::Ours;
                }
            }
            Provenance::Local
        },
    }
}

/// What to do: nothing may be said without asking where someone else's copy would be lost.
pub open spec fn decision(provenance: Provenance, unchanged: bool, force: bool) -> Option<Action> {
    match provenance {
        Provenance::Absent => Some(Action::Installed),
        Provenance::Ours => if !unchanged {
            Some(Action::Updated)
        } else if force {
            Some(Action::Reinstalled)
        } else {
            Some(Action::Unchanged)
        },
        Provenance::Local => if force {
            Some(Action::Updated)
        } else {
            None
        },
    }
}

/// What to do; `None` where someone has to be asked.
pub fn decide(provenance: Provenance, unchanged: bool, force: bool) -> (r: Option<Action>)
    ensures
        r == decision(provenance, unchanged, force),
{
    match provenance {
        Provenance::Absent => Some(Action::Installed),
        Provenance::Ours => {
            if !unchanged {
                Some(Action::Updated)
            } else if force {
                Some(Action::Reinstalled)
            } else {
                Some(Action::Unchanged)
            }
        },
        Provenance::Local => {
            if force {
                Some(Action::Updated)
            } else {
                None
            }
        },
    }
}

/// The text with blanks behind it, up to a width.
pub open spec fn padded(s: Seq<char>, width: nat) -> Seq<char>
    decreases width - s.len(),
{
    if s.len() < width {
        padded(s.push(' '), width)
    } else {
        s
    }
}

fn pad(s: &str, width: usize) -> (r: String)
    ensures
        r@ == padded(s@, width as nat),
{
    let mut out = s.to_owned();
    let mut n: usize = s.unicode_len();
    while n < width
        invariant
            n == out@.len(),
            padded(out@, width as nat) == padded(s@, width as nat),
        decreases width - n,
    {
        out.push(' ');
        n += 1;
    }
    out
}

/// What the step reports.
pub open spec fn report(action: Seq<char>, skill_md: Seq<char>, home: Option<Seq<char>>) -> (
    JsonView,
    Seq<char>,
) {
    (
        JsonView::object().with("path"@, JsonView::Str(skill_md)).with(
            "action"@,
            JsonView::Str(action),
        ),
        "✓ Skill "@ + padded(action, 11) + " "@ + setup::home_shown(skill_md, home),
    )
}

fn outcome(action: &str, skill_md: &str, home: Option<&str>) -> (r: StepOutcome)
    ensures
        r@ == report(action@, skill_md@, model::maybe(home)),
{
    let human = "✓ Skill ".to_owned().concat(pad(action, 11).as_str()).concat(" ").concat(
        home_relative_with(skill_md, home).as_str(),
    );
    let json = Json::object().with("path", Json::string(skill_md)).with(
        "action",
        Json::string(action),
    );
    StepOutcome { human, json }
}

/// What installing the skill takes: whether to write it, the record to leave, and the report.
pub struct SkillStep {
    pub writes: bool,
    pub record: Option<String>,
    pub outcome: StepOutcome,
}

/// What a step takes.
pub struct StepView {
    pub writes: bool,
    pub record: Option<Seq<char>>,
    pub outcome: (JsonView, Seq<char>),
}

impl View for SkillStep {
    type V = StepView;

    open spec fn view(&self) -> StepView {
        StepView {
            writes: self.writes,
            record: model::maybe(self.record),
            outcome: self.outcome@,
        }
    }
}

/// What to do about the copy on disk.
pub open spec fn plan(
    on_disk: Option<Seq<u8>>,
    embedded: Seq<u8>,
    record: Option<Seq<char>>,
    force: bool,
) -> Option<Action> {
    decision(owner(on_disk, embedded, record), on_disk == Some(embedded), force)
}

/// What installing the skill comes to. Where someone else's copy would be lost, it is kept unless
/// `confirmed`.
pub open spec fn step(
    on_disk: Option<Seq<u8>>,
    embedded: Seq<u8>,
    record: Option<Seq<char>>,
    force: bool,
    confirmed: bool,
    skill_md: Seq<char>,
    home: Option<Seq<char>>,
) -> StepView {
    let action = match plan(on_disk, embedded, record, force) {
        Some(a) => Some(a),
        None => if confirmed {
            Some(Action::Updated)
        } else {
            None
        },
    };
    match action {
        Some(a) => StepView {
            writes: !(a is Unchanged),
            record: Some(digest_of(embedded)),
            outcome: report(label_of(a), skill_md, home),
        },
        None => StepView {
            writes: false,
            record: None,
            outcome: report("kept"@, skill_md, home),
        },
    }
}

fn unchanged(on_disk: Option<&[u8]>, embedded: &[u8]) -> (r: bool)
    ensures
        r == (model::maybe(on_disk) == Some(embedded@)),
{
    match on_disk {
        Some(disk) => same_bytes(disk, embedded),
        None => false,
    }
}

/// Whether someone has to be asked before the skill is installed.
pub fn must_ask(on_disk: Option<&[u8]>, embedded: &[u8], record: Option<&str>, force: bool) -> (r: bool)
    ensures
        r == (plan(model::maybe(on_disk), embedded@, model::maybe(record), force) is None),
{
    decide(
        provenance(on_disk, embedded, record),
        unchanged(on_disk, embedded),
        force,
    ).is_none()
}

/// Decides what installing the skill takes.
pub fn install(
    on_disk: Option<&[u8]>,
    embedded: &[u8],
    record: Option<&str>,
    force: bool,
    confirmed: bool,
    skill_md: &str,
    home: Option<&str>,
) -> (r: SkillStep)
    ensures
        r@ == step(
            model::maybe(on_disk),
            embedded@,
            model::maybe(record),
            force,
            confirmed,
            skill_md@,
            model::maybe(home),
        ),
{
    let planned = decide(
        provenance(on_disk, embedded, record),
        unchanged(on_disk, embedded),
        force,
    );
    let action = match planned {
        Some(a) => a,
        None => {
            if !confirmed {
                return SkillStep {
                    writes: false,
                    record: None,
                    outcome: outcome("kept", skill_md, home),
                };
            }
            Action::Updated
        },
    };
    SkillStep {
        writes: action.writes(),
        record: Some(digest(embedded)),
        outcome: outcome(action.label(), skill_md, home),
    }
}

/// Decides what `setup skill` takes.
pub fn run(
    args: SkillArgs,
    on_disk: Option<&[u8]>,
    embedded: &[u8],
    record: Option<&str>,
    confirmed: bool,
    skill_md: &str,
    home: Option<&str>,
) -> (r: SkillStep)
    ensures
        r@ == step(
            model::maybe(on_disk),
            embedded@,
            model::maybe(record),
            args.force,
            confirmed,
            skill_md@,
            model::maybe(home),
        ),
{
    install(on_disk, embedded, record, args.force, confirmed, skill_md, home)
}

/// The record that a file holds; an empty one is none.
pub fn read_record(raw: &str) -> (r: Option<String>)
    ensures
        text::trimmed(raw@).len() == 0 ==> r is None,
        text::trimmed(raw@).len() > 0 ==> model::maybe(r) == Some(text::trimmed(raw@)),
{
    let record = trim(raw);
    if record.as_str().is_empty() {
        None
    } else {
        Some(record)
    }
}

/// The record to leave before the program is replaced: the copy's digest, where the copy is what
/// this program would write.
pub fn record_if_ours(disk: &[u8], embedded: &[u8]) -> (r: Option<String>)
    ensures
        disk@ == embedded@ ==> model::maybe(r) == Some(digest_of(disk@)),
        disk@ != embedded@ ==> r is None,
{
    if same_bytes(disk, embedded) {
        Some(digest(disk))
    } else {
        None
    }
}

/// Where an agent reads the skill from, by the directory under the home directory that is the
/// agent's own.
pub open spec fn skill_place(home: Option<Seq<char>>, agent_dir: Seq<char>) -> Result<
    Seq<char>,
    ErrorView,
> {
    match home {
        Some(h) => if h.len() > 0 {
            Ok(paths::joined(paths::joined(paths::joined(h, agent_dir), "skills"@), "webpilot"@))
        } else {
            Err(no_home(agent_dir))
        },
        None => Err(no_home(agent_dir)),
    }
}

/// The error where there is no home directory.
pub open spec fn no_home(agent_dir: Seq<char>) -> ErrorView {
    ErrorView::Other("HOME is not set — cannot locate ~/"@ + agent_dir + "/skills"@)
}

/// Where an agent reads the skill from.
pub fn skill_dir(home: Option<&str>, agent_dir: &str) -> (r: Result<String, WebPilotError>)
    ensures
        error::outcome(r) == skill_place(model::maybe(home), agent_dir@),
{
    if let Some(h) = home {
        if !h.is_empty() {
            return Ok(
                join(join(join(h, agent_dir).as_str(), "skills").as_str(), "webpilot"),
            );
        }
    }
    Err(
        WebPilotError::Other {
            detail: "HOME is not set — cannot locate ~/".to_owned().concat(agent_dir).concat(
                "/skills",
            ),
        },
    )
}

/// Someone else's copy is never lost without a word: unless `force` was given or someone said yes,
/// nothing is written and no record claims the copy.
pub proof fn law_local_copy_is_kept(
    on_disk: Option<Seq<u8>>,
    embedded: Seq<u8>,
    record: Option<Seq<char>>,
    skill_md: Seq<char>,
    home: Option<Seq<char>>,
)
    requires
        owner(on_disk, embedded, record) is Local,
    ensures
        ({
            let s = step(on_disk, embedded, record, false, false, skill_md, home);
            !s.writes && s.record is None && s.outcome == report("kept"@, skill_md, home)
        }),
{
}

/// What one version wrote, the next replaces without a question: with the record that an install
/// leaves, the copy is the program's own, whatever the next version would write.
pub proof fn law_own_copy_is_refreshed(
    on_disk: Option<Seq<u8>>,
    embedded: Seq<u8>,
    next: Seq<u8>,
    record: Option<Seq<char>>,
    force: bool,
    confirmed: bool,
    skill_md: Seq<char>,
    home: Option<Seq<char>>,
)
    ensures
        ({
            let s = step(on_disk, embedded, record, force, confirmed, skill_md, home);
            s.record is Some ==> {
                &&& owner(Some(embedded), next, s.record) is Ours
                &&& plan(Some(embedded), next, s.record, false) == Some(
                    if embedded == next {
                        Action::Unchanged
                    } else {
                        Action::Updated
                    },
                )
            }
        }),
{
}

/// What becomes of the skill on disk. It is written where there is none; where what is there is the
/// program's own and another, or it is to be written anyway; and where it is someone else's, only with
/// `force` or consent. What was written, or was there already, is recorded by its digest; a copy that
/// is kept is not claimed.
pub proof fn law_skills_are_installed(
    args: SkillArgs,
    on_disk: Option<&[u8]>,
    embedded: &[u8],
    record: Option<&str>,
    confirmed: bool,
    skill_md: &str,
    home: Option<&str>,
    r: SkillStep,
    of_disk: String,
    of_embedded: String,
    asks: bool,
)
    requires
        call_ensures(run, (args, on_disk, embedded, record, confirmed, skill_md, home), r),
        on_disk matches Some(disk) ==> call_ensures(digest, (disk,), of_disk),
        call_ensures(digest, (embedded,), of_embedded),
        call_ensures(must_ask, (on_disk, embedded, record, args.force), asks),
    ensures
        ({
            let same = on_disk is Some && on_disk->0@ == embedded@;
            let ours = same || (record is Some && record->0@ == of_disk@);
            let said = |action: Seq<char>|
                r.outcome.json@.get("action"@) == Some(JsonView::Str(action)) && text::has_prefix(
                    r.outcome.human@,
                    "✓ Skill "@ + action,
                );
            &&& r.outcome.json@.get("path"@) == Some(JsonView::Str(skill_md@))
            &&& on_disk is None ==> r.writes && r.record is Some && said("installed"@)
            &&& on_disk is Some && same && args.force ==> r.writes && r.record is Some && said(
                "reinstalled"@,
            )
            &&& on_disk is Some && same && !args.force ==> !r.writes && r.record is Some && said(
                "unchanged"@,
            )
            &&& on_disk is Some && !same && (ours || args.force || confirmed) ==> r.writes && r.record
                is Some && said("updated"@)
            &&& on_disk is Some && !ours && !args.force && !confirmed ==> !r.writes && r.record
                is None && said("kept"@)
            &&& r.record matches Some(left) ==> left@ == of_embedded@
            &&& asks <==> on_disk is Some && !ours && !args.force
        }),
{
    reveal_strlit("path");
    reveal_strlit("action");
    assert("path"@.len() == 4);
    assert("action"@.len() == 6);
    let actions = seq!["installed"@, "reinstalled"@, "updated"@, "unchanged"@, "kept"@];
    let shown = setup::home_shown(skill_md@, model::maybe(home));
    assert forall|i: int| 0 <= i < actions.len() implies text::has_prefix(
        "✓ Skill "@ + padded(actions[i], 11) + " "@ + shown,
        "✓ Skill "@ + #[trigger] actions[i],
    ) by {
        let action = actions[i];
        law_padding(action, 11);
        let rest = padded(action, 11).skip(action.len() as int);
        assert(padded(action, 11) =~= action + rest);
        assert("✓ Skill "@ + padded(action, 11) + " "@ + shown =~= ("✓ Skill "@ + action) + (rest
            + " "@ + shown));
        text::lemma_front("✓ Skill "@ + action, rest + " "@ + shown);
    }
    assert(actions[0] == "installed"@ && actions[1] == "reinstalled"@ && actions[2] == "updated"@);
    assert(actions[3] == "unchanged"@ && actions[4] == "kept"@);
}

/// A text is padded with blanks behind it, up to the width and not beyond.
pub proof fn law_padding(s: Seq<char>, width: nat)
    ensures
        padded(s, width).len() == (if s.len() < width {
            width
        } else {
            s.len()
        }),
        text::has_prefix(padded(s, width), s),
        forall|i: int| s.len() <= i < padded(s, width).len() ==> #[trigger] padded(s, width)[i] == ' ',
    decreases width - s.len(),
{
    if s.len() < width {
        let next = s.push(' ');
        law_padding(next, width);
        assert(padded(s, width).take(s.len() as int) =~= padded(s, width).take(
            next.len() as int,
        ).take(s.len() as int));
        assert(next.take(s.len() as int) =~= s);
        assert forall|i: int| s.len() <= i < padded(s, width).len() implies #[trigger] padded(
            s,
            width,
        )[i] == ' ' by {
            if i == s.len() {
                assert(padded(s, width).take(next.len() as int)[i] == next[i]);
            }
        }
    } else {
        assert(s.take(s.len() as int) =~= s);
    }
}

/// A digest is written with two hexadecimal digits a byte, so that different bytes are written
/// differently.
pub proof fn law_digests_are_told_apart(a: Seq<u8>, b: Seq<u8>)
    ensures
        hex(a).len() == 2 * a.len(),
        forall|i: int|
            0 <= i < hex(a).len() ==> '0' <= #[trigger] hex(a)[i] <= '9' || 'a' <= hex(a)[i] <= 'f',
        hex(a) == hex(b) ==> a == b,
    decreases a.len(),
{
    lemma_hex(a);
    lemma_hex(b);
    if hex(a) == hex(b) {
        if a.len() > 0 {
            let (x, y) = (a.drop_last(), b.drop_last());
            let n = hex(a).len() as int;
            assert(hex(x) =~= hex(a).take(n - 2));
            assert(hex(y) =~= hex(b).take(n - 2));
            law_digests_are_told_apart(x, y);
            let (p, q) = (a.last() as int, b.last() as int);
            assert(hex(a)[n - 2] == text::hex_digit(p / 16) && hex(a)[n - 1] == text::hex_digit(
                p % 16,
            ));
            assert(hex(b)[n - 2] == text::hex_digit(q / 16) && hex(b)[n - 1] == text::hex_digit(
                q % 16,
            ));
            assert(p / 16 == q / 16 && p % 16 == q % 16);
            assert(p == (p / 16) * 16 + p % 16);
            assert(q == (q / 16) * 16 + q % 16);
            assert(a =~= x.push(a.last()));
            assert(b =~= y.push(b.last()));
        } else {
            assert(a =~= b);
        }
    }
}

proof fn lemma_hex(a: Seq<u8>)
    ensures
        hex(a).len() == 2 * a.len(),
        forall|i: int|
            0 <= i < hex(a).len() ==> '0' <= #[trigger] hex(a)[i] <= '9' || 'a' <= hex(a)[i] <= 'f',
    decreases a.len(),
{
    if a.len() > 0 {
        lemma_hex(a.drop_last());
        let n = a.last() as int;
        assert(0 <= n / 16 < 16 && 0 <= n % 16 < 16);
    }
}

/// The record that is left is the digest of the copy exactly where the copy is what this program
/// would write; and what a file holds is a record without the white space around it, unless it is
/// empty.
pub proof fn law_records(disk: &[u8], embedded: &[u8], r: Option<String>, d: String, raw: &str, read: Option<String>)
    requires
        call_ensures(record_if_ours, (disk, embedded), r),
        call_ensures(digest, (disk,), d),
        call_ensures(read_record, (raw,), read),
    ensures
        r is Some <==> disk@ == embedded@,
        r matches Some(left) ==> left@ == d@,
        read is None <==> text::trimmed(raw@).len() == 0,
        read matches Some(t) ==> t@ == text::trimmed(raw@),
{
}

/// An agent reads the skill from a directory of its own under the home directory.
pub proof fn law_skills_have_their_directory(home: &str, agent_dir: &str, r: Result<String, WebPilotError>, none: Result<String, WebPilotError>)
    requires
        home@.len() > 0,
        home@.last() != '/',
        agent_dir@.len() > 0,
        agent_dir@[0] != '/',
        agent_dir@.last() != '/',
        call_ensures(skill_dir, (Some(home), agent_dir), r),
        call_ensures(skill_dir, (None, agent_dir), none),
    ensures
        r matches Ok(dir) && dir@ == home@ + seq!['/'] + agent_dir@ + "/skills/webpilot"@,
        none matches Err(WebPilotError::Other { detail }) && text::holds(detail@, agent_dir@),
{
    reveal_strlit("/");
    reveal_strlit("skills");
    reveal_strlit("webpilot");
    reveal_strlit("/skills/webpilot");
    assert("/"@ =~= seq!['/']);
    assert("/"@ + "skills"@ + "/"@ + "webpilot"@ =~= "/skills/webpilot"@);
    if let Ok(dir) = r {
        assert(dir@ =~= home@ + seq!['/'] + agent_dir@ + ("/"@ + "skills"@ + "/"@ + "webpilot"@));
    }
    text::lemma_part("HOME is not set — cannot locate ~/"@, agent_dir@, "/skills"@);
}

/// A copy is the program's own where it is what the program would write, or what its record says; only
/// another's is asked about, and only a copy that is there and unchanged is left alone.
pub proof fn law_copies_are_told_apart(
    disk: &[u8],
    embedded: &[u8],
    record: Option<&str>,
    d: String,
    r: Provenance,
    none: Provenance,
    unchanged: bool,
    force: bool,
    decided: Option<Action>,
    writes: bool,
)
    requires
        call_ensures(provenance, (Some(disk), embedded, record), r),
        call_ensures(provenance, (None, embedded, record), none),
        call_ensures(digest, (disk,), d),
        call_ensures(decide, (r, unchanged, force), decided),
        decided is Some ==> call_ensures(Action::writes, (decided->0,), writes),
    ensures
        none is Absent,
        r is Ours <==> disk@ == embedded@ || (record is Some && record->0@ == d@),
        r is Local <==> !(r is Ours),
        decided is None <==> r is Local && !force,
        decided is Some ==> (writes <==> r is Local || force || !unchanged),
{
}

} // verus!
