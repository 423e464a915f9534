//! `uninstall`: everything that the program put on the machine.
use crate::commands::setup;
use crate::json;
use crate::json::{Json, JsonView};
use crate::model;
use crate::output::{CommandOutput, OutputView};
use crate::text;
use crate::text::join;
use vstd::prelude::*;
use vstd::string::StringExecFns;

verus! {

broadcast use text::group_texts;

/// The arguments of `uninstall`.
#[derive(Debug, PartialEq, Eq)]
pub struct UninstallArgs {
    /// Asks nothing.
    pub yes: bool,
}

/// What there is to remove: paths that exist.
pub struct Plan {
    pub chrome_running: bool,
    pub binary: Option<String>,
    pub skill: Option<String>,
    pub extension: Option<String>,
    /// The host's manifest, for each browser that has it.
    pub nm_host: Vec<String>,
    pub cache_root: Option<String>,
}

/// A line about a path, where there is one.
pub open spec fn entry(label: Seq<char>, path: Option<Seq<char>>) -> Seq<Seq<char>> {
    match path {
        Some(p) => seq!["● "@ + label + ": "@ + p],
        None => Seq::empty(),
    }
}

/// A line about each path.
pub open spec fn entries(label: Seq<char>, paths: Seq<Seq<char>>) -> Seq<Seq<char>> {
    Seq::new(paths.len(), |i: int| "● "@ + label + ": "@ + paths[i])
}

impl Plan {
    /// Whether there is nothing to remove.
    pub open spec fn nothing(self) -> bool {
        &&& !self.chrome_running
        &&& self.binary is None
        &&& self.skill is None
        &&& self.extension is None
        &&& self.nm_host@.len() == 0
        &&& self.cache_root is None
    }

    /// The lines that tell what there is to remove.
    pub open spec fn lines(self) -> Seq<Seq<char>> {
        (if self.chrome_running {
            seq!["● Headless Chrome (running)"@]
        } else {
            Seq::empty()
        }) + entry("Binary"@, model::maybe(self.binary)) + entry(
            "Skill"@,
            model::maybe(self.skill),
        ) + entry("Extension"@, model::maybe(self.extension)) + entries(
            "NM host"@,
            text::texts(self.nm_host@),
        ) + entry("Cache root"@, model::maybe(self.cache_root))
    }

    /// Whether there is nothing to remove.
    pub fn is_empty(&self) -> (r: bool)
        ensures
            r == self.nothing(),
    {
        !self.chrome_running && self.binary.is_none() && self.skill.is_none()
            && self.extension.is_none() && self.nm_host.len() == 0 && self.cache_root.is_none()
    }

    /// The lines that tell what there is to remove.
    pub fn report_lines(&self) -> (r: Vec<String>)
        ensures
            text::texts(r@) == self.lines(),
    {
        let mut out: Vec<String> = Vec::new();
        if self.chrome_running {
            out.push("● Headless Chrome (running)".to_owned());
            assert(text::texts(out@) =~= seq!["● Headless Chrome (running)"@]);
        } else {
            assert(text::texts(out@) =~= Seq::empty());
        }
        push_entry(&mut out, "Binary", &self.binary);
        push_entry(&mut out, "Skill", &self.skill);
        push_entry(&mut out, "Extension", &self.extension);
        push_entries(&mut out, "NM host", &self.nm_host);
        push_entry(&mut out, "Cache root", &self.cache_root);
        out
    }
}

fn push_entry(out: &mut Vec<String>, label: &str, path: &Option<String>)
    ensures
        text::texts(final(out)@) == text::texts(old(out)@) + entry(label@, model::maybe(*path)),
{
    let ghost before = out@;
    match path {
        Some(p) => {
            let line = "● ".to_owned().concat(label).concat(": ").concat(p.as_str());
            proof {
                text::lemma_texts_push(before, line);
            }
            out.push(line);
            assert(text::texts(out@) =~= text::texts(before) + entry(label@, Some(p@)));
        },
        None => {
            assert(text::texts(out@) =~= text::texts(before) + entry(label@, None));
        },
    }
}

fn push_entries(out: &mut Vec<String>, label: &str, paths: &Vec<String>)
    ensures
        text::texts(final(out)@) == text::texts(old(out)@) + entries(
            label@,
            text::texts(paths@),
        ),
{
    let ghost before = text::texts(out@);
    let ghost all = text::texts(paths@);
    proof {
        text::lemma_texts_index(paths@);
        assert(before + entries(label@, all).take(0) =~= before);
    }
    for i in 0..paths.len()
        invariant
            all.len() == paths@.len(),
            forall|j: int| 0 <= j < paths@.len() ==> (#[trigger] paths@[j])@ == all[j],
            text::texts(out@) == before + entries(label@, all).take(i as int),
    {
        let ghost sofar = out@;
        let line = "● ".to_owned().concat(label).concat(": ").concat(paths[i].as_str());
        proof {
            text::lemma_texts_push(sofar, line);
        }
        out.push(line);
        assert(text::texts(out@) =~= before + entries(label@, all).take(i + 1));
    }
    assert(entries(label@, all).take(paths@.len() as int) =~= entries(label@, all));
}

/// What is printed where there is nothing to remove.
pub fn nothing_output() -> (r: CommandOutput)
    ensures
        r@ == OutputView::Data(
            JsonView::object().with("removed"@, JsonView::array()),
            "Nothing to uninstall."@,
        ),
{
    CommandOutput::Data {
        json: Json::object().with("removed", Json::array()),
        human: "Nothing to uninstall.".to_owned(),
    }
}

/// What is printed where someone said no.
pub fn cancelled_output() -> (r: CommandOutput)
    ensures
        r@ == OutputView::Data(
            JsonView::object().with("removed"@, JsonView::array()).with(
                "canceled"@,
                JsonView::Bool(true),
            ),
            "Cancelled."@,
        ),
{
    CommandOutput::Data {
        json: Json::object().with("removed", Json::array()).with("canceled", Json::Bool(true)),
        human: "Cancelled.".to_owned(),
    }
}

/// What `uninstall` does next.
pub enum Decision {
    /// Prints this.
    Stop(CommandOutput),
    /// Removes what the plan holds.
    Remove,
}

/// What a decision is.
pub enum DecisionView {
    Stop(OutputView),
    Remove,
}

impl View for Decision {
    type V = DecisionView;

    open spec fn view(&self) -> DecisionView {
        match self {
            Decision::Stop(o) => DecisionView::Stop(o@),
            Decision::Remove => DecisionView::Remove,
        }
    }
}

/// Whether anything is removed.
pub open spec fn decision(plan: Plan, confirmed: bool) -> DecisionView {
    if plan.nothing() {
        DecisionView::Stop(
            OutputView::Data(
                JsonView::object().with("removed"@, JsonView::array()),
                "Nothing to uninstall."@,
            ),
        )
    } else if confirmed {
        DecisionView::Remove
    } else {
        DecisionView::Stop(
            OutputView::Data(
                JsonView::object().with("removed"@, JsonView::array()).with(
                    "canceled"@,
                    JsonView::Bool(true),
                ),
                "Cancelled."@,
            ),
        )
    }
}

/// Whether to remove anything: not where there is nothing, nor where someone says no. Without a
/// terminal to ask at, and without `yes`, nothing is removed.
pub fn run(args: &UninstallArgs, plan: &Plan, terminal: bool, line: Option<&str>) -> (r: Decision)
    ensures
        r@ == decision(*plan, args.yes || (terminal && setup::answered(model::maybe(line), false))),
{
    if plan.is_empty() {
        Decision::Stop(nothing_output())
    } else if setup::confirm(false, args.yes, terminal, line) {
        Decision::Remove
    } else {
        Decision::Stop(cancelled_output())
    }
}

/// The directories under the cache root that the program makes, and so the only ones it removes.
pub fn cache_subdirs() -> (r: Vec<String>)
    ensures
        text::texts(r@) == seq!["runtime"@, "contexts"@, "artifacts"@, "chrome-profile"@],
{
    let mut subs: Vec<String> = Vec::new();
    subs.push("runtime".to_owned());
    subs.push("contexts".to_owned());
    subs.push("artifacts".to_owned());
    subs.push("chrome-profile".to_owned());
    proof {
        text::lemma_texts_index(subs@);
        assert(text::texts(subs@) =~= seq![
            "runtime"@,
            "contexts"@,
            "artifacts"@,
            "chrome-profile"@,
        ]);
    }
    subs
}

/// An attempt to remove what stands at a path, and why it failed if it did.
pub struct Attempt {
    pub path: String,
    pub error: Option<String>,
}

impl View for Attempt {
    type V = (Seq<char>, Option<Seq<char>>);

    open spec fn view(&self) -> (Seq<char>, Option<Seq<char>>) {
        (self.path@, model::maybe(self.error))
    }
}

/// A directory under the cache root that could not be removed.
pub struct CacheFailure {
    pub sub: String,
    pub path: String,
    pub error: String,
}

impl View for CacheFailure {
    type V = (Seq<char>, Seq<char>, Seq<char>);

    open spec fn view(&self) -> (Seq<char>, Seq<char>, Seq<char>) {
        (self.sub@, self.path@, self.error@)
    }
}

/// What removing came to; `None` for what was not there.
pub struct Attempts {
    /// Whether the browser stopped, and why not.
    pub chrome: Option<Result<(), String>>,
    pub skill: Option<Attempt>,
    pub extension: Option<Attempt>,
    pub nm_host: Vec<Attempt>,
    /// What could not be removed under the cache root.
    pub cache: Option<Vec<CacheFailure>>,
    pub binary: Option<Attempt>,
}

/// What was removed, and what was not.
pub struct Tally {
    pub removed: Vec<String>,
    pub warnings: Vec<String>,
}

impl View for Tally {
    type V = (Seq<Seq<char>>, Seq<Seq<char>>);

    open spec fn view(&self) -> (Seq<Seq<char>>, Seq<Seq<char>>) {
        (text::texts(self.removed@), text::texts(self.warnings@))
    }
}

/// The tally after an attempt.
pub open spec fn after_attempt(
    t: (Seq<Seq<char>>, Seq<Seq<char>>),
    label: Seq<char>,
    attempt: Option<(Seq<char>, Option<Seq<char>>)>,
) -> (Seq<Seq<char>>, Seq<Seq<char>>) {
    match attempt {
        Some((path, Some(e))) => (t.0, t.1.push(label + " at "@ + path + " ("@ + e + ")"@)),
        Some((_, None)) => (t.0.push(label), t.1),
        None => t,
    }
}

/// The tally after several attempts.
pub open spec fn after_attempts(
    t: (Seq<Seq<char>>, Seq<Seq<char>>),
    label: Seq<char>,
    attempts: Seq<(Seq<char>, Option<Seq<char>>)>,
) -> (Seq<Seq<char>>, Seq<Seq<char>>)
    decreases attempts.len(),
{
    if attempts.len() == 0 {
        t
    } else {
        after_attempt(
            after_attempts(t, label, attempts.drop_last()),
            label,
            Some(attempts.last()),
        )
    }
}

/// The warning for a directory under the cache root.
pub open spec fn cache_warning(f: (Seq<char>, Seq<char>, Seq<char>)) -> Seq<char> {
    "cache "@ + f.0 + " at "@ + f.1 + " ("@ + f.2 + ")"@
}

/// The tally after the cache: it is removed where everything under it is.
pub open spec fn after_cache(
    t: (Seq<Seq<char>>, Seq<Seq<char>>),
    failures: Option<Seq<(Seq<char>, Seq<char>, Seq<char>)>>,
) -> (Seq<Seq<char>>, Seq<Seq<char>>) {
    match failures {
        Some(fs) => if fs.len() == 0 {
            (t.0.push("cache_root"@), t.1)
        } else {
            (t.0, t.1 + Seq::new(fs.len(), |i: int| cache_warning(fs[i])))
        },
        None => t,
    }
}

/// The tally after the browser was told to stop.
pub open spec fn after_chrome(chrome: Option<Result<(), String>>) -> (
    Seq<Seq<char>>,
    Seq<Seq<char>>,
) {
    match chrome {
        Some(Ok(())) => (seq!["chrome"@], Seq::empty()),
        Some(Err(e)) => (Seq::empty(), seq!["stopping Chrome: "@ + e@]),
        None => (Seq::empty(), Seq::empty()),
    }
}

/// The failures under the cache root.
pub open spec fn failures(cache: Option<Vec<CacheFailure>>) -> Option<
    Seq<(Seq<char>, Seq<char>, Seq<char>)>,
> {
    match cache {
        Some(fs) => Some(model::each(fs@)),
        None => None,
    }
}

/// The tally after everything, in order: the program itself comes last.
pub open spec fn after_all(a: Attempts) -> (Seq<Seq<char>>, Seq<Seq<char>>) {
    let t = after_chrome(a.chrome);
    let t = after_attempt(t, "skill"@, model::maybe(a.skill));
    let t = after_attempt(t, "extension"@, model::maybe(a.extension));
    let t = after_attempts(t, "nm_host"@, model::each(a.nm_host@));
    let t = after_cache(t, failures(a.cache));
    after_attempt(t, "binary"@, model::maybe(a.binary))
}

impl Tally {
    fn attempt(&mut self, label: &str, attempt: &Attempt)
        ensures
            final(self)@ == after_attempt(old(self)@, label@, Some(attempt@)),
    {
        match &attempt.error {
            Some(e) => {
                let w = label.to_owned().concat(" at ").concat(attempt.path.as_str()).concat(
                    " (",
                ).concat(e.as_str()).concat(")");
                proof {
                    text::lemma_texts_push(self.warnings@, w);
                }
                self.warnings.push(w);
            },
            None => {
                let l = label.to_owned();
                proof {
                    text::lemma_texts_push(self.removed@, l);
                }
                self.removed.push(l);
            },
        }
    }

    fn attempts(&mut self, label: &str, attempts: &Vec<Attempt>)
        ensures
            final(self)@ == after_attempts(old(self)@, label@, model::each(attempts@)),
    {
        let ghost all = model::each(attempts@);
        let ghost before = self@;
        assert(all.take(0) =~= Seq::empty());
        for i in 0..attempts.len()
            invariant
                all == model::each(attempts@),
                self@ == after_attempts(before, label@, all.take(i as int)),
        {
            assert(all.take(i + 1).drop_last() =~= all.take(i as int));
            assert(all.take(i + 1).last() == attempts@[i as int]@);
            self.attempt(label, &attempts[i]);
        }
        assert(all.take(attempts@.len() as int) =~= all);
    }

    fn cache(&mut self, fs: &Vec<CacheFailure>)
        ensures
            final(self)@ == after_cache(old(self)@, Some(model::each(fs@))),
    {
        if fs.len() == 0 {
            let l = "cache_root".to_owned();
            proof {
                text::lemma_texts_push(self.removed@, l);
            }
            self.removed.push(l);
            return;
        }
        let ghost all = model::each(fs@);
        let ghost warned = Seq::new(all.len(), |i: int| cache_warning(all[i]));
        let ghost before = self@;
        assert(before.1 + warned.take(0) =~= before.1);
        for i in 0..fs.len()
            invariant
                all == model::each(fs@),
                warned == Seq::new(all.len(), |i: int| cache_warning(all[i])),
                self@.0 == before.0,
                self@.1 == before.1 + warned.take(i as int),
        {
            let w = "cache ".to_owned().concat(fs[i].sub.as_str()).concat(" at ").concat(
                fs[i].path.as_str(),
            ).concat(" (").concat(fs[i].error.as_str()).concat(")");
            let ghost sofar = self.warnings@;
            proof {
                text::lemma_texts_push(sofar, w);
                assert(w@ == cache_warning(all[i as int]));
            }
            self.warnings.push(w);
            assert(self@.1 =~= before.1 + warned.take(i + 1));
        }
        assert(warned.take(fs@.len() as int) =~= warned);
    }
}

/// The warnings, a line each.
pub open spec fn warning_lines(warnings: Seq<Seq<char>>) -> Seq<char>
    decreases warnings.len(),
{
    if warnings.len() == 0 {
        Seq::empty()
    } else {
        warning_lines(warnings.drop_last()) + "\n    - "@ + warnings.last()
    }
}

/// What removing printed.
pub open spec fn report(t: (Seq<Seq<char>>, Seq<Seq<char>>)) -> OutputView {
    OutputView::Data(
        JsonView::object().with("removed"@, json::texts_json(t.0)).with(
            "warnings"@,
            json::texts_json(t.1),
        ),
        "✓ Uninstalled: "@ + text::joined(t.0, ", "@) + (if t.1.len() == 0 {
            Seq::empty()
        } else {
            "\n  Could not remove:"@ + warning_lines(t.1)
        }),
    )
}

/// What is printed once everything was tried: what is gone, and what is not with the reason.
pub fn execute(a: &Attempts) -> (r: CommandOutput)
    ensures
        r@ == report(after_all(*a)),
{
    let mut tally = Tally { removed: Vec::new(), warnings: Vec::new() };
    match &a.chrome {
        Some(Ok(())) => {
            tally.removed.push("chrome".to_owned());
            assert(tally@.0 =~= seq!["chrome"@]);
            assert(tally@.1 =~= Seq::empty());
        },
        Some(Err(e)) => {
            tally.warnings.push("stopping Chrome: ".to_owned().concat(e.as_str()));
            assert(tally@.0 =~= Seq::empty());
            assert(tally@.1 =~= seq!["stopping Chrome: "@ + e@]);
        },
        None => {
            assert(tally@.0 =~= Seq::empty());
            assert(tally@.1 =~= Seq::empty());
        },
    }
    assert(tally@ == after_chrome(a.chrome));
    if let Some(s) = &a.skill {
        tally.attempt("skill", s);
    }
    if let Some(x) = &a.extension {
        tally.attempt("extension", x);
    }
    tally.attempts("nm_host", &a.nm_host);
    if let Some(fs) = &a.cache {
        tally.cache(fs);
    }
    if let Some(b) = &a.binary {
        tally.attempt("binary", b);
    }
    assert(tally@ == after_all(*a));
    let json = Json::object().with("removed", Json::strings(&tally.removed)).with(
        "warnings",
        Json::strings(&tally.warnings),
    );
    let mut failed = String::new();
    let ghost all = tally@.1;
    proof {
        text::lemma_texts_index(tally.warnings@);
    }
    if tally.warnings.len() > 0 {
        let mut lines = String::new();
        assert(all.take(0) =~= Seq::empty());
        for i in 0..tally.warnings.len()
            invariant
                all.len() == tally.warnings@.len(),
                forall|j: int|
                    0 <= j < tally.warnings@.len() ==> (#[trigger] tally.warnings@[j])@ == all[j],
                lines@ == warning_lines(all.take(i as int)),
        {
            assert(all.take(i + 1).drop_last() =~= all.take(i as int));
            assert(all.take(i + 1).last() == tally.warnings@[i as int]@);
            lines.append("\n    - ");
            lines.append(tally.warnings[i].as_str());
        }
        assert(all.take(tally.warnings@.len() as int) =~= all);
        failed = "\n  Could not remove:".to_owned().concat(lines.as_str());
    }
    let human = "✓ Uninstalled: ".to_owned().concat(join(&tally.removed, ", ").as_str()).concat(
        failed.as_str(),
    );
    CommandOutput::Data { json, human }
}

/// There is nothing to remove exactly where no line tells of anything.
pub proof fn law_the_report_is_complete(plan: Plan)
    ensures
        plan.nothing() <==> plan.lines().len() == 0,
{
    text::lemma_texts_index(plan.nm_host@);
}

/// What failed is always told: where an attempt carries an error, there is a warning.
pub proof fn law_failures_are_told(a: Attempts)
    requires
        match a.binary {
            Some(b) => b.error is Some,
            None => false,
        } || match a.cache {
            Some(fs) => fs@.len() > 0,
            None => false,
        } || match a.skill {
            Some(s) => s.error is Some,
            None => false,
        } || match a.extension {
            Some(x) => x.error is Some,
            None => false,
        } || a.chrome matches Some(Err(_)) || exists|i: int|
            0 <= i < a.nm_host@.len() && (#[trigger] a.nm_host@[i]).error is Some,
    ensures
        after_all(a).1.len() > 0,
{
    let t0 = after_chrome(a.chrome);
    let t1 = after_attempt(t0, "skill"@, model::maybe(a.skill));
    let t2 = after_attempt(t1, "extension"@, model::maybe(a.extension));
    let hosts = model::each(a.nm_host@);
    lemma_attempts(t2, "nm_host"@, hosts);
    if exists|i: int| 0 <= i < a.nm_host@.len() && (#[trigger] a.nm_host@[i]).error is Some {
        let i = choose|i: int| 0 <= i < a.nm_host@.len() && (#[trigger] a.nm_host@[i]).error is Some;
        assert(hosts[i].1 is Some);
    }
}

proof fn lemma_attempts(
    t: (Seq<Seq<char>>, Seq<Seq<char>>),
    label: Seq<char>,
    attempts: Seq<(Seq<char>, Option<Seq<char>>)>,
)
    ensures
        after_attempts(t, label, attempts).1.len() >= t.1.len(),
        (exists|i: int| 0 <= i < attempts.len() && (#[trigger] attempts[i]).1 is Some)
            ==> after_attempts(t, label, attempts).1.len() > 0,
    decreases attempts.len(),
{
    if attempts.len() > 0 {
        let front = attempts.drop_last();
        lemma_attempts(t, label, front);
        if exists|i: int| 0 <= i < attempts.len() && (#[trigger] attempts[i]).1 is Some {
            let i = choose|i: int| 0 <= i < attempts.len() && (#[trigger] attempts[i]).1 is Some;
            if i < front.len() {
                assert(front[i].1 is Some);
            }
        }
    }
}

/// Everything that there is to remove has a line that names it, and nothing else has one.
pub proof fn law_what_is_there_is_told(plan: Plan, r: Vec<String>, empty: bool)
    requires
        call_ensures(Plan::report_lines, (&plan,), r),
        call_ensures(Plan::is_empty, (&plan,), empty),
    ensures
        ({
            let told = |line: Seq<char>|
                exists|i: int| 0 <= i < r@.len() && (#[trigger] r@[i])@ == line;
            let one = |there: bool|
                if there {
                    1int
                } else {
                    0int
                };
            &&& plan.chrome_running ==> told("● Headless Chrome (running)"@)
            &&& plan.binary matches Some(p) ==> told("● "@ + "Binary"@ + ": "@ + p@)
            &&& plan.skill matches Some(p) ==> told("● "@ + "Skill"@ + ": "@ + p@)
            &&& plan.extension matches Some(p) ==> told("● "@ + "Extension"@ + ": "@ + p@)
            &&& plan.cache_root matches Some(p) ==> told("● "@ + "Cache root"@ + ": "@ + p@)
            &&& forall|i: int|
                0 <= i < plan.nm_host@.len() ==> told(
                    "● "@ + "NM host"@ + ": "@ + (#[trigger] plan.nm_host@[i])@,
                )
            &&& r@.len() == one(plan.chrome_running) + one(plan.binary is Some) + one(
                plan.skill is Some,
            ) + one(plan.extension is Some) + plan.nm_host@.len() + one(plan.cache_root is Some)
            &&& empty <==> r@.len() == 0
        }),
{
    text::lemma_texts_index(r@);
    text::lemma_texts_index(plan.nm_host@);
    let told = |line: Seq<char>| exists|i: int| 0 <= i < r@.len() && (#[trigger] r@[i])@ == line;
    let c = if plan.chrome_running {
        seq!["● Headless Chrome (running)"@]
    } else {
        Seq::empty()
    };
    let b = entry("Binary"@, model::maybe(plan.binary));
    let s = entry("Skill"@, model::maybe(plan.skill));
    let x = entry("Extension"@, model::maybe(plan.extension));
    let h = entries("NM host"@, text::texts(plan.nm_host@));
    let k = entry("Cache root"@, model::maybe(plan.cache_root));
    let all = plan.lines();
    assert(all == c + b + s + x + h + k);
    if plan.chrome_running {
        assert(all[0] == c[0]);
        assert(r@[0]@ == c[0]);
    }
    if let Some(p) = plan.binary {
        let at = c.len() as int;
        assert(all[at] == b[0]);
        assert(r@[at]@ == b[0]);
    }
    if let Some(p) = plan.skill {
        let at = (c + b).len() as int;
        assert(all[at] == s[0]);
        assert(r@[at]@ == s[0]);
    }
    if let Some(p) = plan.extension {
        let at = (c + b + s).len() as int;
        assert(all[at] == x[0]);
        assert(r@[at]@ == x[0]);
    }
    if let Some(p) = plan.cache_root {
        let at = (c + b + s + x + h).len() as int;
        assert(all[at] == k[0]);
        assert(r@[at]@ == k[0]);
    }
    assert forall|i: int| 0 <= i < plan.nm_host@.len() implies told(
        "● "@ + "NM host"@ + ": "@ + (#[trigger] plan.nm_host@[i])@,
    ) by {
        let at = (c + b + s + x).len() as int + i;
        assert(all[at] == h[i]);
        assert(r@[at]@ == h[i]);
    }
}

/// Anything is removed only where there is something to remove and someone agrees; else it is said
/// that there was nothing, or that it was called off, and nothing is claimed to be removed.
pub proof fn law_nothing_is_removed_unasked(
    args: UninstallArgs,
    plan: Plan,
    terminal: bool,
    line: Option<&str>,
    agreed: bool,
    r: Decision,
)
    requires
        call_ensures(setup::confirm, (false, args.yes, terminal, line), agreed),
        call_ensures(run, (&args, &plan, terminal, line), r),
    ensures
        ({
            let nothing = !plan.chrome_running && plan.binary is None && plan.skill is None
                && plan.extension is None && plan.nm_host@.len() == 0 && plan.cache_root is None;
            &&& r is Remove <==> !nothing && agreed
            &&& r matches Decision::Stop(o) ==> (o matches CommandOutput::Data { json, human } && {
                &&& json@.get("removed"@) matches Some(JsonView::Array(list)) && list.len() == 0
                &&& nothing ==> json@.get("canceled"@) is None
                &&& !nothing ==> json@.get("canceled"@) == Some(JsonView::Bool(true))
            })
        }),
{
    reveal_strlit("removed");
    reveal_strlit("canceled");
    assert("removed"@.len() == 7);
    assert("canceled"@.len() == 8);
}

/// What was done away with is what is reported as removed, each by its name, and nothing else is;
/// what failed is reported as a warning with where it stands and why.
pub proof fn law_removals_are_told(a: Attempts, r: CommandOutput)
    requires
        call_ensures(execute, (&a,), r),
    ensures
        r matches CommandOutput::Data { json, human } && {
            let gone = |label: Seq<char>|
                json@.get("removed"@) matches Some(JsonView::Array(list)) && list.contains(
                    JsonView::Str(label),
                );
            let warned = |w: Seq<char>|
                json@.get("warnings"@) matches Some(JsonView::Array(list)) && list.contains(
                    JsonView::Str(w),
                );
            &&& json@.get("removed"@) matches Some(JsonView::Array(_))
            &&& json@.get("warnings"@) matches Some(JsonView::Array(_))
            &&& gone("chrome"@) <==> (a.chrome matches Some(Ok(_)))
            &&& gone("skill"@) <==> (a.skill matches Some(t) && t.error is None)
            &&& gone("extension"@) <==> (a.extension matches Some(t) && t.error is None)
            &&& gone("binary"@) <==> (a.binary matches Some(t) && t.error is None)
            &&& gone("cache_root"@) <==> (a.cache matches Some(fs) && fs@.len() == 0)
            &&& gone("nm_host"@) <==> exists|i: int|
                0 <= i < a.nm_host@.len() && (#[trigger] a.nm_host@[i]).error is None
            &&& a.chrome matches Some(Err(e)) ==> warned("stopping Chrome: "@ + e@)
            &&& a.skill matches Some(t) ==> (t.error matches Some(e) ==> warned(
                "skill"@ + " at "@ + t.path@ + " ("@ + e@ + ")"@,
            ))
            &&& a.extension matches Some(t) ==> (t.error matches Some(e) ==> warned(
                "extension"@ + " at "@ + t.path@ + " ("@ + e@ + ")"@,
            ))
            &&& a.binary matches Some(t) ==> (t.error matches Some(e) ==> warned(
                "binary"@ + " at "@ + t.path@ + " ("@ + e@ + ")"@,
            ))
            &&& forall|i: int|
                0 <= i < a.nm_host@.len() ==> ((#[trigger] a.nm_host@[i]).error matches Some(e)
                    ==> warned("nm_host"@ + " at "@ + a.nm_host@[i].path@ + " ("@ + e@ + ")"@))
            &&& a.cache matches Some(fs) ==> forall|i: int|
                0 <= i < fs@.len() ==> warned(
                    "cache "@ + (#[trigger] fs@[i]).sub@ + " at "@ + fs@[i].path@ + " ("@
                        + fs@[i].error@ + ")"@,
                )
        },
{
    reveal_strlit("removed");
    reveal_strlit("warnings");
    assert("removed"@.len() == 7);
    assert("warnings"@.len() == 8);
    reveal_strlit("chrome");
    reveal_strlit("skill");
    reveal_strlit("extension");
    reveal_strlit("binary");
    reveal_strlit("cache_root");
    reveal_strlit("nm_host");
    assert("chrome"@.len() == 6);
    assert("skill"@.len() == 5);
    assert("extension"@.len() == 9);
    assert("binary"@.len() == 6);
    assert("cache_root"@.len() == 10);
    assert("nm_host"@.len() == 7);
    assert("chrome"@[0] != "binary"@[0]);
    let t = after_all(a);
    if let CommandOutput::Data { json, human } = r {
        assert forall|label: Seq<char>| #![trigger t.0.contains(label)] t.0.contains(label)
            <==> json::texts_json(t.0)->Array_0.contains(JsonView::Str(label)) by {
            lemma_texts_in_json(t.0, label);
        }
        assert forall|w: Seq<char>| #![trigger t.1.contains(w)] t.1.contains(w)
            <==> json::texts_json(t.1)->Array_0.contains(JsonView::Str(w)) by {
            lemma_texts_in_json(t.1, w);
        }
        lemma_gone(a, "chrome"@);
        lemma_gone(a, "skill"@);
        lemma_gone(a, "extension"@);
        lemma_gone(a, "binary"@);
        lemma_gone(a, "cache_root"@);
        lemma_gone(a, "nm_host"@);
        lemma_warned(a);
        let _ = (t.0.contains("chrome"@), t.0.contains("skill"@), t.0.contains("extension"@));
        let _ = (t.0.contains("binary"@), t.0.contains("cache_root"@), t.0.contains("nm_host"@));
    }
}

proof fn lemma_texts_in_json(all: Seq<Seq<char>>, x: Seq<char>)
    ensures
        all.contains(x) <==> json::texts_json(all)->Array_0.contains(JsonView::Str(x)),
{
    let list = json::texts_json(all)->Array_0;
    if all.contains(x) {
        let i = choose|i: int| 0 <= i < all.len() && all[i] == x;
        assert(list[i] == JsonView::Str(x));
    }
    if list.contains(JsonView::Str(x)) {
        let i = choose|i: int| 0 <= i < list.len() && list[i] == JsonView::Str(x);
        assert(all[i] == x);
    }
}

proof fn lemma_pushed(s: Seq<Seq<char>>, y: Seq<char>, x: Seq<char>)
    ensures
        s.push(y).contains(x) <==> s.contains(x) || x == y,
{
    if s.contains(x) {
        let i = choose|i: int| 0 <= i < s.len() && s[i] == x;
        assert(s.push(y)[i] == x);
    }
    if x == y {
        assert(s.push(y)[s.len() as int] == x);
    }
    if s.push(y).contains(x) {
        let i = choose|i: int| 0 <= i < s.push(y).len() && s.push(y)[i] == x;
        if i < s.len() {
            assert(s[i] == x);
        }
    }
}

proof fn lemma_one(
    t: (Seq<Seq<char>>, Seq<Seq<char>>),
    label: Seq<char>,
    attempt: Option<(Seq<char>, Option<Seq<char>>)>,
    x: Seq<char>,
)
    ensures
        after_attempt(t, label, attempt).0.contains(x) <==> t.0.contains(x) || (x == label && (
        attempt matches Some(a) && a.1 is None)),
        t.1.contains(x) ==> after_attempt(t, label, attempt).1.contains(x),
        attempt matches Some(a) ==> (a.1 matches Some(e) ==> after_attempt(
            t,
            label,
            attempt,
        ).1.contains(label + " at "@ + a.0 + " ("@ + e + ")"@)),
{
    lemma_pushed(t.0, label, x);
    if let Some(a) = attempt {
        if let Some(e) = a.1 {
            let w = label + " at "@ + a.0 + " ("@ + e + ")"@;
            lemma_pushed(t.1, w, x);
            lemma_pushed(t.1, w, w);
        }
    }
}

proof fn lemma_many(
    t: (Seq<Seq<char>>, Seq<Seq<char>>),
    label: Seq<char>,
    attempts: Seq<(Seq<char>, Option<Seq<char>>)>,
    x: Seq<char>,
)
    ensures
        after_attempts(t, label, attempts).0.contains(x) <==> t.0.contains(x) || (x == label
            && exists|i: int| 0 <= i < attempts.len() && (#[trigger] attempts[i]).1 is None),
        t.1.contains(x) ==> after_attempts(t, label, attempts).1.contains(x),
        forall|i: int|
            0 <= i < attempts.len() ==> ((#[trigger] attempts[i]).1 matches Some(e)
                ==> after_attempts(t, label, attempts).1.contains(
                label + " at "@ + attempts[i].0 + " ("@ + e + ")"@,
            )),
    decreases attempts.len(),
{
    if attempts.len() > 0 {
        let front = attempts.drop_last();
        let before = after_attempts(t, label, front);
        lemma_many(t, label, front, x);
        lemma_one(before, label, Some(attempts.last()), x);
        if exists|i: int| 0 <= i < front.len() && (#[trigger] front[i]).1 is None {
            let i = choose|i: int| 0 <= i < front.len() && (#[trigger] front[i]).1 is None;
            assert(attempts[i].1 is None);
        }
        if exists|i: int| 0 <= i < attempts.len() && (#[trigger] attempts[i]).1 is None {
            let i = choose|i: int| 0 <= i < attempts.len() && (#[trigger] attempts[i]).1 is None;
            if i < front.len() {
                assert(front[i].1 is None);
            }
        }
        if attempts.last().1 is None {
            assert(attempts[attempts.len() - 1].1 is None);
        }
        assert forall|i: int| 0 <= i < attempts.len() implies ((#[trigger] attempts[i]).1 matches Some(
            e,
        ) ==> after_attempts(t, label, attempts).1.contains(
            label + " at "@ + attempts[i].0 + " ("@ + e + ")"@,
        )) by {
            if let Some(e) = attempts[i].1 {
                let w = label + " at "@ + attempts[i].0 + " ("@ + e + ")"@;
                if i < front.len() {
                    assert(front[i] == attempts[i]);
                    lemma_one(before, label, Some(attempts.last()), w);
                }
            }
        }
    }
}

proof fn lemma_cached(
    t: (Seq<Seq<char>>, Seq<Seq<char>>),
    failures: Option<Seq<(Seq<char>, Seq<char>, Seq<char>)>>,
    x: Seq<char>,
)
    ensures
        after_cache(t, failures).0.contains(x) <==> t.0.contains(x) || (x == "cache_root"@ && (
        failures matches Some(fs) && fs.len() == 0)),
        t.1.contains(x) ==> after_cache(t, failures).1.contains(x),
        failures matches Some(fs) ==> forall|i: int|
            0 <= i < fs.len() ==> after_cache(t, failures).1.contains(
                "cache "@ + (#[trigger] fs[i]).0 + " at "@ + fs[i].1 + " ("@ + fs[i].2 + ")"@,
            ),
{
    lemma_pushed(t.0, "cache_root"@, x);
    if let Some(fs) = failures {
        if fs.len() > 0 {
            let added = Seq::new(fs.len(), |i: int| cache_warning(fs[i]));
            let after = t.1 + added;
            if t.1.contains(x) {
                let i = choose|i: int| 0 <= i < t.1.len() && t.1[i] == x;
                assert(after[i] == x);
            }
            assert forall|i: int| 0 <= i < fs.len() implies after.contains(
                "cache "@ + (#[trigger] fs[i]).0 + " at "@ + fs[i].1 + " ("@ + fs[i].2 + ")"@,
            ) by {
                assert(after[t.1.len() + i] == added[i]);
            }
        }
    }
}

proof fn lemma_gone(a: Attempts, x: Seq<char>)
    ensures
        after_all(a).0.contains(x) <==> {
            ||| x == "chrome"@ && (a.chrome matches Some(Ok(_)))
            ||| x == "skill"@ && (a.skill matches Some(t) && t.error is None)
            ||| x == "extension"@ && (a.extension matches Some(t) && t.error is None)
            ||| x == "nm_host"@ && exists|i: int|
                0 <= i < a.nm_host@.len() && (#[trigger] a.nm_host@[i]).error is None
            ||| x == "cache_root"@ && (a.cache matches Some(fs) && fs@.len() == 0)
            ||| x == "binary"@ && (a.binary matches Some(t) && t.error is None)
        },
{
    let t0 = after_chrome(a.chrome);
    let t1 = after_attempt(t0, "skill"@, model::maybe(a.skill));
    let t2 = after_attempt(t1, "extension"@, model::maybe(a.extension));
    let hosts = model::each(a.nm_host@);
    let t3 = after_attempts(t2, "nm_host"@, hosts);
    let t4 = after_cache(t3, failures(a.cache));
    assert(seq!["chrome"@].contains(x) <==> x == "chrome"@) by {
        if x == "chrome"@ {
            assert(seq!["chrome"@][0] == x);
        }
    }
    lemma_one(t0, "skill"@, model::maybe(a.skill), x);
    lemma_one(t1, "extension"@, model::maybe(a.extension), x);
    lemma_many(t2, "nm_host"@, hosts, x);
    lemma_cached(t3, failures(a.cache), x);
    lemma_one(t4, "binary"@, model::maybe(a.binary), x);
    if exists|i: int| 0 <= i < hosts.len() && (#[trigger] hosts[i]).1 is None {
        let i = choose|i: int| 0 <= i < hosts.len() && (#[trigger] hosts[i]).1 is None;
        assert(a.nm_host@[i].error is None);
    }
    if exists|i: int| 0 <= i < a.nm_host@.len() && (#[trigger] a.nm_host@[i]).error is None {
        let i = choose|i: int| 0 <= i < a.nm_host@.len() && (#[trigger] a.nm_host@[i]).error is None;
        assert(hosts[i].1 is None);
    }
}

proof fn lemma_kept(a: Attempts, w: Seq<char>)
    ensures
        ({
            let t0 = after_chrome(a.chrome);
            let t1 = after_attempt(t0, "skill"@, model::maybe(a.skill));
            let t2 = after_attempt(t1, "extension"@, model::maybe(a.extension));
            let t3 = after_attempts(t2, "nm_host"@, model::each(a.nm_host@));
            let t4 = after_cache(t3, failures(a.cache));
            t0.1.contains(w) || t1.1.contains(w) || t2.1.contains(w) || t3.1.contains(w)
                || t4.1.contains(w) ==> after_all(a).1.contains(w)
        }),
{
    let t0 = after_chrome(a.chrome);
    let t1 = after_attempt(t0, "skill"@, model::maybe(a.skill));
    let t2 = after_attempt(t1, "extension"@, model::maybe(a.extension));
    let t3 = after_attempts(t2, "nm_host"@, model::each(a.nm_host@));
    let t4 = after_cache(t3, failures(a.cache));
    lemma_one(t0, "skill"@, model::maybe(a.skill), w);
    lemma_one(t1, "extension"@, model::maybe(a.extension), w);
    lemma_many(t2, "nm_host"@, model::each(a.nm_host@), w);
    lemma_cached(t3, failures(a.cache), w);
    lemma_one(t4, "binary"@, model::maybe(a.binary), w);
}

proof fn lemma_warned(a: Attempts)
    ensures
        ({
            let warned = after_all(a).1;
            &&& a.chrome matches Some(Err(e)) ==> warned.contains("stopping Chrome: "@ + e@)
            &&& a.skill matches Some(t) ==> (t.error matches Some(e) ==> warned.contains(
                "skill"@ + " at "@ + t.path@ + " ("@ + e@ + ")"@,
            ))
            &&& a.extension matches Some(t) ==> (t.error matches Some(e) ==> warned.contains(
                "extension"@ + " at "@ + t.path@ + " ("@ + e@ + ")"@,
            ))
            &&& a.binary matches Some(t) ==> (t.error matches Some(e) ==> warned.contains(
                "binary"@ + " at "@ + t.path@ + " ("@ + e@ + ")"@,
            ))
            &&& forall|i: int|
                0 <= i < a.nm_host@.len() ==> ((#[trigger] a.nm_host@[i]).error matches Some(e)
                    ==> warned.contains(
                    "nm_host"@ + " at "@ + a.nm_host@[i].path@ + " ("@ + e@ + ")"@,
                ))
            &&& a.cache matches Some(fs) ==> forall|i: int|
                0 <= i < fs@.len() ==> warned.contains(
                    "cache "@ + (#[trigger] fs@[i]).sub@ + " at "@ + fs@[i].path@ + " ("@
                        + fs@[i].error@ + ")"@,
                )
        }),
{
    let t0 = after_chrome(a.chrome);
    let t1 = after_attempt(t0, "skill"@, model::maybe(a.skill));
    let t2 = after_attempt(t1, "extension"@, model::maybe(a.extension));
    let hosts = model::each(a.nm_host@);
    let t3 = after_attempts(t2, "nm_host"@, hosts);
    let t4 = after_cache(t3, failures(a.cache));
    let none = Seq::<char>::empty();
    if let Some(Err(e)) = a.chrome {
        let w = "stopping Chrome: "@ + e@;
        assert(t0.1[0] == w);
        lemma_kept(a, w);
    }
    if let Some(t) = a.skill {
        if let Some(e) = t.error {
            lemma_one(t0, "skill"@, model::maybe(a.skill), none);
            lemma_kept(a, "skill"@ + " at "@ + t.path@ + " ("@ + e@ + ")"@);
        }
    }
    if let Some(t) = a.extension {
        if let Some(e) = t.error {
            lemma_one(t1, "extension"@, model::maybe(a.extension), none);
            lemma_kept(a, "extension"@ + " at "@ + t.path@ + " ("@ + e@ + ")"@);
        }
    }
    if let Some(t) = a.binary {
        if let Some(e) = t.error {
            lemma_one(t4, "binary"@, model::maybe(a.binary), none);
        }
    }
    lemma_many(t2, "nm_host"@, hosts, none);
    assert forall|i: int| 0 <= i < a.nm_host@.len() implies ((#[trigger] a.nm_host@[i]).error matches Some(
        e,
    ) ==> after_all(a).1.contains(
        "nm_host"@ + " at "@ + a.nm_host@[i].path@ + " ("@ + e@ + ")"@,
    )) by {
        if let Some(e) = a.nm_host@[i].error {
            assert(hosts[i].1 == Some(e@));
            lemma_kept(a, "nm_host"@ + " at "@ + a.nm_host@[i].path@ + " ("@ + e@ + ")"@);
        }
    }
    if let Some(fs) = a.cache {
        lemma_cached(t3, failures(a.cache), none);
        assert forall|i: int| 0 <= i < fs@.len() implies after_all(a).1.contains(
            "cache "@ + (#[trigger] fs@[i]).sub@ + " at "@ + fs@[i].path@ + " ("@ + fs@[i].error@
                + ")"@,
        ) by {
            assert(failures(a.cache)->0[i] == fs@[i]@);
            lemma_kept(
                a,
                "cache "@ + fs@[i].sub@ + " at "@ + fs@[i].path@ + " ("@ + fs@[i].error@ + ")"@,
            );
        }
    }
}

/// Only what the program makes under the cache root is removed there.
pub proof fn law_only_what_was_made_is_removed(r: Vec<String>)
    requires
        call_ensures(cache_subdirs, (), r),
    ensures
        r@.len() == 4,
        r@[0]@ == "runtime"@,
        r@[1]@ == "contexts"@,
        r@[2]@ == "artifacts"@,
        r@[3]@ == "chrome-profile"@,
{
    text::lemma_texts_index(r@);
    assert(text::texts(r@)[0] == r@[0]@ && text::texts(r@)[1] == r@[1]@);
    assert(text::texts(r@)[2] == r@[2]@ && text::texts(r@)[3] == r@[3]@);
}

/// Where nothing is removed nothing is listed; that someone said no is told.
pub proof fn law_nothing_removed_is_told(none: CommandOutput, no: CommandOutput)
    requires
        call_ensures(nothing_output, (), none),
        call_ensures(cancelled_output, (), no),
    ensures
        none matches CommandOutput::Data { json, human } && json@.get("removed"@) == Some(
            JsonView::Array(Seq::empty()),
        ) && json@.get("canceled"@) is None,
        no matches CommandOutput::Data { json, human } && json@.get("removed"@) == Some(
            JsonView::Array(Seq::empty()),
        ) && json@.get("canceled"@) == Some(JsonView::Bool(true)),
{
    reveal_strlit("removed");
    reveal_strlit("canceled");
    assert("removed"@.len() == 7);
    assert("canceled"@.len() == 8);
}

} // verus!
