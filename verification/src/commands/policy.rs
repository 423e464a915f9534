//! `policy`: which operations are allowed.
use crate::error;
use crate::error::{ErrorView, WebPilotError};
use crate::json;
use crate::json::{Json, JsonView};
use crate::model;
use crate::output::{CommandOutput, OutputView};
use crate::text;
use crate::text::{in_order, join, same};
use vstd::prelude::*;
use vstd::string::StringExecFns;

verus! {

broadcast use {text::group_texts, json::group_json_views, model::lemma_each_push};

/// The arguments of `policy`.
#[derive(Debug, PartialEq, Eq)]
pub struct PolicyArgs {
    pub command: PolicyCommand,
}

/// What `policy` does.
#[derive(Debug, PartialEq, Eq)]
pub enum PolicyCommand {
    /// Allows or denies an operation.
    SetRule { operation: String, verdict: String },
    /// Allows or denies every operation without a rule of its own.
    Default { verdict: String },
    List,
    Clear,
}

/// Whether an operation may be done.
#[derive(Debug, Clone, Copy, PartialEq, Eq, Structural)]
pub enum PolicyVerdict {
    Allow,
    Deny,
}

/// The verdict of a name.
pub open spec fn verdict_of(name: Seq<char>) -> Option<PolicyVerdict> {
    if name == "allow"@ {
        Some(PolicyVerdict::Allow)
    } else if name == "deny"@ {
        Some(PolicyVerdict::Deny)
    } else {
        None
    }
}

/// The verdict of a name, or the error for a name that is none.
pub fn parse_verdict(verdict: &str) -> (r: Result<PolicyVerdict, WebPilotError>)
    ensures
        match verdict_of(verdict@) {
            Some(v) => r == Ok::<PolicyVerdict, WebPilotError>(v),
            None => r is Err && r->Err_0@ == ErrorView::InvalidArgument(
                "unknown verdict '"@ + verdict@ + "' (use 'allow' or 'deny')"@,
            ),
        },
{
    if same(verdict, "allow") {
        Ok(PolicyVerdict::Allow)
    } else if same(verdict, "deny") {
        Ok(PolicyVerdict::Deny)
    } else {
        Err(
            WebPilotError::InvalidArgument {
                detail: "unknown verdict '".to_owned().concat(verdict).concat(
                    "' (use 'allow' or 'deny')",
                ),
            },
        )
    }
}

/// Refuses an operation that is not among those that can be ruled on.
pub fn check_operation(operation: &str, known: &Vec<String>) -> (r: Result<(), WebPilotError>)
    ensures
        r is Ok <==> text::texts(known@).contains(operation@),
        r is Err ==> r->Err_0@ == ErrorView::InvalidArgument(
            "unknown operation '"@ + operation@ + "' — valid: "@ + text::joined(
                text::texts(known@),
                ", "@,
            ),
        ),
{
    proof {
        text::lemma_texts_index(known@);
    }
    for i in 0..known.len()
        invariant
            text::texts(known@).len() == known@.len(),
            forall|j: int| 0 <= j < i ==> text::texts(known@)[j] != operation@,
    {
        proof {
            text::lemma_texts_index(known@);
        }
        if same(known[i].as_str(), operation) {
            assert(text::texts(known@)[i as int] == operation@);
            return Ok(());
        }
    }
    Err(
        WebPilotError::InvalidArgument {
            detail: "unknown operation '".to_owned().concat(operation).concat(
                "' — valid: ",
            ).concat(join(known, ", ").as_str()),
        },
    )
}

/// The operations that can be ruled on: the actions, and what else has an effect.
pub open spec fn operations() -> Seq<Seq<char>> {
    seq![
        "click"@,
        "type"@,
        "key_press"@,
        "scroll"@,
        "select"@,
        "hover"@,
        "drag"@,
        "upload"@,
        "navigate"@,
        "back"@,
        "forward"@,
        "reload"@,
        "eval"@,
        "fetch"@,
        "dom_set"@,
        "tab_close"@,
        "cookie_list"@,
        "cookie_set"@,
        "cookie_delete"@,
        "session_export"@,
        "session_import"@,
        "device"@,
        "context_close"@,
        "download"@,
    ]
}

/// The operations that can be ruled on.
pub fn known_operations() -> (r: Vec<String>)
    ensures
        text::texts(r@) == operations(),
{
    let mut out: Vec<String> = Vec::new();
    out.push("click".to_owned());
    out.push("type".to_owned());
    out.push("key_press".to_owned());
    out.push("scroll".to_owned());
    out.push("select".to_owned());
    out.push("hover".to_owned());
    out.push("drag".to_owned());
    out.push("upload".to_owned());
    out.push("navigate".to_owned());
    out.push("back".to_owned());
    out.push("forward".to_owned());
    out.push("reload".to_owned());
    out.push("eval".to_owned());
    out.push("fetch".to_owned());
    out.push("dom_set".to_owned());
    out.push("tab_close".to_owned());
    out.push("cookie_list".to_owned());
    out.push("cookie_set".to_owned());
    out.push("cookie_delete".to_owned());
    out.push("session_export".to_owned());
    out.push("session_import".to_owned());
    out.push("device".to_owned());
    out.push("context_close".to_owned());
    out.push("download".to_owned());
    proof {
        text::lemma_texts_index(out@);
        assert(text::texts(out@) =~= operations());
    }
    out
}

/// The operation that a command of the wire is, where it has an effect that is ruled on. What runs
/// a script of the caller's in the page is `eval`, and what goes to an address is `navigate`,
/// whatever it is called.
pub open spec fn operation_of(command: JsonView) -> Option<Seq<char>> {
    match command.get_str("type"@) {
        None => None,
        Some(t) => if t == "Action"@ {
            command.get_or_null("action"@).get_str("kind"@)
        } else if t == "Eval"@ || t == "ConsoleStart"@ || t == "NetworkStart"@ {
            Some("eval"@)
        } else if t == "FrameSwitch"@ {
            if command.get_or_null("selector"@).get_str("by"@) == Some("predicate"@) {
                Some("eval"@)
            } else {
                None
            }
        } else if t == "Fetch"@ {
            Some("fetch"@)
        } else if t == "DomSet"@ {
            Some("dom_set"@)
        } else if t == "TabClose"@ {
            Some("tab_close"@)
        } else if t == "TabNew"@ {
            Some("navigate"@)
        } else if t == "Capture"@ {
            if command.get_str("url"@) is Some {
                Some("navigate"@)
            } else {
                None
            }
        } else if t == "CookieList"@ {
            Some("cookie_list"@)
        } else if t == "CookieSet"@ {
            Some("cookie_set"@)
        } else if t == "CookieDelete"@ {
            Some("cookie_delete"@)
        } else if t == "SessionExport"@ {
            Some("session_export"@)
        } else if t == "SessionImport"@ {
            Some("session_import"@)
        } else {
            None
        },
    }
}

fn nested_text<'a>(command: &'a Json, outer: &str, inner: &str) -> (r: Option<&'a str>)
    ensures
        r is Some <==> command@.get_or_null(outer@).get_str(inner@) is Some,
        r is Some ==> r->0@ == command@.get_or_null(outer@).get_str(inner@)->0,
{
    match command.get(outer) {
        Some(v) => v.get_str(inner),
        None => None,
    }
}

/// The operation that a command of the wire is.
pub fn operation(command: &Json) -> (r: Option<String>)
    ensures
        model::maybe(r) == operation_of(command@),
{
    let t = match command.get_str("type") {
        Some(t) => t,
        None => {
            return None;
        },
    };
    let name = if same(t, "Action") {
        return match nested_text(command, "action", "kind") {
            Some(kind) => Some(kind.to_owned()),
            None => None,
        };
    } else if same(t, "Eval") || same(t, "ConsoleStart") || same(t, "NetworkStart") {
        "eval"
    } else if same(t, "FrameSwitch") {
        match nested_text(command, "selector", "by") {
            Some(by) => if same(by, "predicate") {
                "eval"
            } else {
                return None;
            },
            None => {
                return None;
            },
        }
    } else if same(t, "Fetch") {
        "fetch"
    } else if same(t, "DomSet") {
        "dom_set"
    } else if same(t, "TabClose") {
        "tab_close"
    } else if same(t, "TabNew") {
        "navigate"
    } else if same(t, "Capture") {
        if command.get_str("url").is_some() {
            "navigate"
        } else {
            return None;
        }
    } else if same(t, "CookieList") {
        "cookie_list"
    } else if same(t, "CookieSet") {
        "cookie_set"
    } else if same(t, "CookieDelete") {
        "cookie_delete"
    } else if same(t, "SessionExport") {
        "session_export"
    } else if same(t, "SessionImport") {
        "session_import"
    } else {
        return None;
    };
    Some(name.to_owned())
}

/// A rule: an operation and its verdict, by name.
#[derive(Debug, PartialEq, Eq)]
pub struct Rule {
    pub operation: String,
    pub verdict: String,
}

impl View for Rule {
    type V = (Seq<char>, Seq<char>);

    open spec fn view(&self) -> (Seq<char>, Seq<char>) {
        (self.operation@, self.verdict@)
    }
}

/// Whether a rule comes before another: by operation, then by verdict.
pub open spec fn rule_ordered(a: (Seq<char>, Seq<char>), b: (Seq<char>, Seq<char>)) -> bool {
    if a.0 == b.0 {
        text::ordered(a.1, b.1)
    } else {
        text::ordered(a.0, b.0)
    }
}

/// Whether rules stand in order.
pub open spec fn rules_sorted(rules: Seq<(Seq<char>, Seq<char>)>) -> bool {
    forall|i: int, j: int|
        0 <= i < j < rules.len() ==> rule_ordered(#[trigger] rules[i], #[trigger] rules[j])
}

proof fn lemma_rule_total(a: (Seq<char>, Seq<char>), b: (Seq<char>, Seq<char>))
    ensures
        rule_ordered(a, b) || rule_ordered(b, a),
{
    text::lemma_ordered_total(a.0, b.0);
    text::lemma_ordered_total(a.1, b.1);
}

proof fn lemma_rule_transitive(
    a: (Seq<char>, Seq<char>),
    b: (Seq<char>, Seq<char>),
    c: (Seq<char>, Seq<char>),
)
    requires
        rule_ordered(a, b),
        rule_ordered(b, c),
    ensures
        rule_ordered(a, c),
{
    if a.0 == b.0 && b.0 == c.0 {
        text::lemma_ordered_transitive(a.1, b.1, c.1);
    } else if a.0 == c.0 {
        text::lemma_ordered_antisymmetric(a.0, b.0);
    } else if a.0 != b.0 && b.0 != c.0 {
        text::lemma_ordered_transitive(a.0, b.0, c.0);
    }
}

fn rule_in_order(a: &Rule, b: &Rule) -> (r: bool)
    ensures
        r == rule_ordered(a@, b@),
{
    if same(a.operation.as_str(), b.operation.as_str()) {
        in_order(a.verdict.as_str(), b.verdict.as_str())
    } else {
        in_order(a.operation.as_str(), b.operation.as_str())
    }
}

fn insert_rule(sorted: &mut Vec<Rule>, rule: Rule)
    requires
        rules_sorted(model::each(old(sorted)@)),
    ensures
        rules_sorted(model::each(final(sorted)@)),
        model::each(final(sorted)@).to_multiset() == model::each(old(sorted)@).to_multiset().insert(
            rule@,
        ),
{
    let ghost before = model::each(sorted@);
    let mut at: usize = 0;
    while at < sorted.len() && rule_in_order(&sorted[at], &rule)
        invariant
            at <= sorted@.len(),
            *sorted == *old(sorted),
            before == model::each(sorted@),
            forall|i: int| 0 <= i < at ==> rule_ordered(#[trigger] before[i], rule@),
        decreases sorted@.len() - at,
    {
        assert(before[at as int] == sorted@[at as int]@);
        at += 1;
    }
    proof {
        if at < before.len() {
            assert(before[at as int] == sorted@[at as int]@);
            lemma_rule_total(before[at as int], rule@);
            assert forall|j: int| at <= j < before.len() implies rule_ordered(
                rule@,
                #[trigger] before[j],
            ) by {
                if j > at {
                    assert(rule_ordered(before[at as int], before[j]));
                    lemma_rule_transitive(rule@, before[at as int], before[j]);
                }
            }
        }
    }
    sorted.insert(at, rule);
    proof {
        let after = model::each(sorted@);
        assert(after =~= before.insert(at as int, rule@));
        assert forall|i: int, j: int| 0 <= i < j < after.len() implies rule_ordered(
            #[trigger] after[i],
            #[trigger] after[j],
        ) by {
            let p = if i < at {
                i
            } else {
                i - 1
            };
            let q = if j < at {
                j
            } else {
                j - 1
            };
            if i != at && j != at {
                assert(after[i] == before[p]);
                assert(after[j] == before[q]);
            } else if j == at {
                assert(after[i] == before[i]);
            } else {
                assert(after[j] == before[q]);
            }
        }
        let front = before.take(at as int);
        let back = before.skip(at as int);
        assert(before =~= front + back);
        assert(after =~= front.push(rule@) + back);
        vstd::seq_lib::lemma_multiset_commutative(front, back);
        vstd::seq_lib::lemma_multiset_commutative(front.push(rule@), back);
        front.to_multiset_ensures();
        assert(after.to_multiset() =~= before.to_multiset().insert(rule@));
    }
}

/// The rules in order.
pub fn sort_rules(rules: Vec<Rule>) -> (r: Vec<Rule>)
    ensures
        rules_sorted(model::each(r@)),
        model::each(r@).to_multiset() == model::each(rules@).to_multiset(),
{
    let ghost all = model::each(rules@).to_multiset();
    let mut rest = rules;
    let mut sorted: Vec<Rule> = Vec::new();
    proof {
        assert(model::each(sorted@) =~= Seq::empty());
        model::each(sorted@).to_multiset_ensures();
        assert(model::each(sorted@).to_multiset() =~= vstd::multiset::Multiset::empty());
        assert(all =~= model::each(rest@).to_multiset().add(model::each(sorted@).to_multiset()));
    }
    while rest.len() > 0
        invariant
            rules_sorted(model::each(sorted@)),
            all == model::each(rest@).to_multiset().add(model::each(sorted@).to_multiset()),
        decreases rest@.len(),
    {
        let ghost before = model::each(rest@);
        let ghost kept = model::each(sorted@);
        if let Some(rule) = rest.pop() {
            proof {
                assert(before =~= model::each(rest@).push(rule@));
                model::each(rest@).to_multiset_ensures();
            }
            insert_rule(&mut sorted, rule);
            assert(all =~= model::each(rest@).to_multiset().add(
                model::each(sorted@).to_multiset(),
            ));
        }
    }
    proof {
        assert(model::each(rest@) =~= Seq::empty());
        model::each(rest@).to_multiset_ensures();
        assert(model::each(rest@).to_multiset() =~= vstd::multiset::Multiset::empty());
        assert(all =~= model::each(sorted@).to_multiset());
    }
    sorted
}

/// A rule as JSON.
pub open spec fn rule_json(rule: (Seq<char>, Seq<char>)) -> JsonView {
    JsonView::object().with("operation"@, JsonView::Str(rule.0)).with(
        "verdict"@,
        JsonView::Str(rule.1),
    )
}

/// What a listing of rules in order prints.
pub open spec fn policy_output(default: Seq<char>, rules: Seq<(Seq<char>, Seq<char>)>) -> OutputView {
    OutputView::List(
        JsonView::object().with("default"@, JsonView::Str(default)).with(
            "rules"@,
            JsonView::Array(Seq::new(rules.len(), |i: int| rule_json(rules[i]))),
        ),
        seq!["default: "@ + default] + Seq::new(
            rules.len(),
            |i: int| rules[i].0 + ": "@ + rules[i].1,
        ),
        Seq::empty(),
    )
}

/// What a listing prints: the rules in order, whatever order they were kept in.
pub fn list(default: &str, rules: Vec<Rule>) -> (r: CommandOutput)
    ensures
        exists|sorted: Seq<(Seq<char>, Seq<char>)>|
            {
                &&& rules_sorted(sorted)
                &&& sorted.to_multiset() == model::each(rules@).to_multiset()
                &&& #[trigger] policy_output(default@, sorted) == r@
            },
{
    let sorted = sort_rules(rules);
    let ghost all = model::each(sorted@);
    let mut wires: Vec<Json> = Vec::new();
    let mut rows: Vec<String> = Vec::new();
    rows.push("default: ".to_owned().concat(default));
    for i in 0..sorted.len()
        invariant
            all == model::each(sorted@),
            wires@.len() == i,
            rows@.len() == i + 1,
            rows@[0]@ == "default: "@ + default@,
            forall|j: int| 0 <= j < i ==> (#[trigger] wires@[j])@ == rule_json(all[j]),
            forall|j: int|
                1 <= j < i + 1 ==> (#[trigger] rows@[j])@ == all[j - 1].0 + ": "@ + all[j - 1].1,
    {
        assert(all[i as int] == sorted@[i as int]@);
        wires.push(
            Json::object().with("operation", Json::string(sorted[i].operation.as_str())).with(
                "verdict",
                Json::string(sorted[i].verdict.as_str()),
            ),
        );
        rows.push(
            sorted[i].operation.clone().concat(": ").concat(sorted[i].verdict.as_str()),
        );
    }
    proof {
        json::lemma_views_index(wires@);
        text::lemma_texts_index(rows@);
        assert(json::views(wires@) =~= Seq::new(all.len(), |i: int| rule_json(all[i])));
        assert(text::texts(rows@) =~= seq!["default: "@ + default@] + Seq::new(
            all.len(),
            |i: int| all[i].0 + ": "@ + all[i].1,
        ));
    }
    let items = Json::object().with("default", Json::string(default)).with(
        "rules",
        Json::Array(wires),
    );
    let r = CommandOutput::List { items, human_lines: rows, summary: String::new() };
    assert(policy_output(default@, all) == r@);
    r
}

/// What is on record: the verdict on operations without a rule of their own, and the rules.
#[derive(Debug, PartialEq, Eq)]
pub struct PolicyStore {
    pub default: String,
    pub rules: Vec<Rule>,
}

/// What the rules say of an operation: what the first one for it says.
pub open spec fn ruled(rules: Seq<(Seq<char>, Seq<char>)>, operation: Seq<char>) -> Option<Seq<char>>
    decreases rules.len(),
{
    if rules.len() == 0 {
        None
    } else if rules[0].0 == operation {
        Some(rules[0].1)
    } else {
        ruled(rules.drop_first(), operation)
    }
}

/// The verdict on an operation: that of its rule, else the default. A record that cannot be read,
/// or that does not say, denies.
pub open spec fn verdict_on(store: Option<PolicyStore>, operation: Seq<char>) -> PolicyVerdict {
    match store {
        None => PolicyVerdict::Deny,
        Some(kept) => {
            let said = match ruled(model::each(kept.rules@), operation) {
                Some(v) => v,
                None => kept.default@,
            };
            if verdict_of(said) == Some(PolicyVerdict::Allow) {
                PolicyVerdict::Allow
            } else {
                PolicyVerdict::Deny
            }
        },
    }
}

/// The verdict on an operation. `None` stands for a record that cannot be read.
pub fn verdict(store: &Option<PolicyStore>, operation: &str) -> (r: PolicyVerdict)
    ensures
        r == verdict_on(*store, operation@),
{
    let kept = match store {
        Some(kept) => kept,
        None => {
            return PolicyVerdict::Deny;
        },
    };
    let ghost all = model::each(kept.rules@);
    let mut said: &str = kept.default.as_str();
    let mut i: usize = 0;
    assert(all.skip(0) =~= all);
    while i < kept.rules.len()
        invariant_except_break
            i <= kept.rules@.len(),
            all == model::each(kept.rules@),
            said@ == kept.default@,
            ruled(all, operation@) == ruled(all.skip(i as int), operation@),
        ensures
            said@ == (match ruled(all, operation@) {
                Some(v) => v,
                None => kept.default@,
            }),
        decreases kept.rules@.len() - i,
    {
        assert(all.skip(i as int)[0] == kept.rules@[i as int]@);
        assert(all.skip(i as int).drop_first() =~= all.skip(i + 1));
        if same(kept.rules[i].operation.as_str(), operation) {
            said = kept.rules[i].verdict.as_str();
            break ;
        }
        i += 1;
    }
    if same(said, "allow") {
        PolicyVerdict::Allow
    } else {
        PolicyVerdict::Deny
    }
}

/// Lets an operation through, or says that the rules do not.
pub fn enforce_key(store: &Option<PolicyStore>, operation: &str) -> (r: Result<(), WebPilotError>)
    ensures
        r is Ok <==> verdict_on(*store, operation@) is Allow,
        r is Err ==> r->Err_0@ == ErrorView::PolicyDenied(operation@),
{
    match verdict(store, operation) {
        PolicyVerdict::Allow => Ok(()),
        PolicyVerdict::Deny => Err(
            WebPilotError::PolicyDenied { operation: operation.to_owned() },
        ),
    }
}

/// Lets a command of the wire through, or says that the rules do not. A command without an effect
/// that is ruled on is let through.
pub fn enforce(store: &Option<PolicyStore>, command: &Json) -> (r: Result<(), WebPilotError>)
    ensures
        match operation_of(command@) {
            None => r is Ok,
            Some(op) => {
                &&& r is Ok <==> verdict_on(*store, op) is Allow
                &&& r is Err ==> r->Err_0@ == ErrorView::PolicyDenied(op)
            },
        },
{
    match operation(command) {
        Some(op) => enforce_key(store, op.as_str()),
        None => Ok(()),
    }
}

/// A default of deny forbids every operation that no rule allows; and of a record that cannot be
/// read nothing is allowed.
pub proof fn law_denied_unless_allowed(store: PolicyStore, operation: Seq<char>)
    requires
        store.default@ == "deny"@,
        ruled(model::each(store.rules@), operation) != Some("allow"@),
    ensures
        verdict_on(Some(store), operation) is Deny,
        verdict_on(None, operation) is Deny,
{
    reveal_strlit("allow");
    reveal_strlit("deny");
    assert("allow"@.len() == 5 && "deny"@.len() == 4);
}

/// The error for a store that cannot be read. It is an error, never an empty list of rules.
pub fn invalid_store() -> (r: WebPilotError)
    ensures
        r@ == ErrorView::Other("policy store is invalid; run: webpilot policy clear"@),
{
    WebPilotError::other("policy store is invalid; run: webpilot policy clear")
}

/// What rules let through: what the first rule for an operation allows, and without such a rule what
/// the default allows. Without a readable record nothing is let through.
pub open spec fn lets(store: Option<PolicyStore>, op: Seq<char>) -> bool {
    match store {
        None => false,
        Some(kept) => {
            let rules = kept.rules@;
            ||| exists|i: int|
                {
                    &&& 0 <= i < rules.len()
                    &&& (#[trigger] rules[i]).operation@ == op
                    &&& rules[i].verdict@ == "allow"@
                    &&& forall|j: int| 0 <= j < i ==> (#[trigger] rules[j]).operation@ != op
                }
            ||| kept.default@ == "allow"@ && forall|j: int|
                0 <= j < rules.len() ==> (#[trigger] rules[j]).operation@ != op
        },
    }
}

proof fn lemma_ruled(rules: Seq<Rule>, op: Seq<char>)
    ensures
        ruled(model::each(rules), op) is None <==> forall|j: int|
            0 <= j < rules.len() ==> (#[trigger] rules[j]).operation@ != op,
        ruled(model::each(rules), op) matches Some(v) ==> exists|i: int|
            {
                &&& 0 <= i < rules.len()
                &&& (#[trigger] rules[i]).operation@ == op
                &&& rules[i].verdict@ == v
                &&& forall|j: int| 0 <= j < i ==> (#[trigger] rules[j]).operation@ != op
            },
    decreases rules.len(),
{
    if rules.len() > 0 {
        let rest = rules.drop_first();
        assert(model::each(rules).drop_first() =~= model::each(rest));
        assert(model::each(rules)[0] == rules[0]@);
        lemma_ruled(rest, op);
        if rules[0].operation@ == op {
            assert(rules[0].verdict@ == ruled(model::each(rules), op)->0);
        } else {
            assert forall|j: int| 0 < j < rules.len() implies (#[trigger] rules[j]) == rest[j - 1] by {
            }
            if ruled(model::each(rest), op) is None {
                assert forall|j: int| 0 <= j < rules.len() implies (#[trigger] rules[j]).operation@
                    != op by {
                    if j > 0 {
                        assert(rest[j - 1] == rules[j]);
                    }
                }
            } else {
                let v = ruled(model::each(rest), op)->0;
                let i = choose|i: int|
                    {
                        &&& 0 <= i < rest.len()
                        &&& (#[trigger] rest[i]).operation@ == op
                        &&& rest[i].verdict@ == v
                        &&& forall|j: int| 0 <= j < i ==> (#[trigger] rest[j]).operation@ != op
                    };
                assert(rules[i + 1] == rest[i]);
                assert forall|j: int| 0 <= j < i + 1 implies (#[trigger] rules[j]).operation@ != op by {
                    if j > 0 {
                        assert(rest[j - 1] == rules[j]);
                    }
                }
            }
        }
    }
}

proof fn lemma_lets(store: Option<PolicyStore>, op: Seq<char>)
    ensures
        verdict_on(store, op) is Allow <==> lets(store, op),
{
    reveal_strlit("allow");
    reveal_strlit("deny");
    assert("allow"@.len() == 5);
    assert("deny"@.len() == 4);
    if let Some(kept) = store {
        let rules = kept.rules@;
        lemma_ruled(rules, op);
        if lets(store, op) {
            if ruled(model::each(rules), op) is Some {
                let i = choose|i: int|
                    {
                        &&& 0 <= i < rules.len()
                        &&& (#[trigger] rules[i]).operation@ == op
                        &&& rules[i].verdict@ == "allow"@
                        &&& forall|j: int| 0 <= j < i ==> (#[trigger] rules[j]).operation@ != op
                    };
                let v = ruled(model::each(rules), op)->0;
                let k = choose|k: int|
                    {
                        &&& 0 <= k < rules.len()
                        &&& (#[trigger] rules[k]).operation@ == op
                        &&& rules[k].verdict@ == v
                        &&& forall|j: int| 0 <= j < k ==> (#[trigger] rules[j]).operation@ != op
                    };
                assert(i == k) by {
                    if i < k {
                        assert(rules[i].operation@ != op);
                    }
                    if k < i {
                        assert(rules[k].operation@ != op);
                    }
                }
            }
        }
    }
}

/// An operation is let through exactly where its first rule allows it or, without a rule for it, the
/// default does; else it is denied by its own name. A command is let through where its operation is,
/// or where it has none.
pub proof fn law_a_rule_decides(
    store: Option<PolicyStore>,
    op: &str,
    r: Result<(), WebPilotError>,
    command: Json,
    named: Option<String>,
    let_in: Result<(), WebPilotError>,
)
    requires
        call_ensures(enforce_key, (&store, op), r),
        call_ensures(operation, (&command,), named),
        call_ensures(enforce, (&store, &command), let_in),
    ensures
        r is Ok <==> lets(store, op@),
        r is Err ==> (r->Err_0 matches WebPilotError::PolicyDenied { operation: told } && told@
            == op@),
        named is None ==> let_in is Ok,
        named matches Some(n) ==> (let_in is Ok <==> lets(store, n@)) && (let_in is Err ==> (
        let_in->Err_0 matches WebPilotError::PolicyDenied { operation: told } && told@ == n@)),
{
    lemma_lets(store, op@);
    if let Some(n) = named {
        lemma_lets(store, n@);
    }
}

/// The operation of a command: an action's is its kind; what runs a script of the caller's is `eval`,
/// and what goes to an address is `navigate`; what reads the page is none.
pub proof fn law_commands_are_operations(command: Json, r: Option<String>)
    requires
        call_ensures(operation, (&command,), r),
    ensures
        ({
            let kind = |t: Seq<char>| command@.get("type"@) == Some(JsonView::Str(t));
            let inner = |a: Seq<char>, b: Seq<char>|
                match command@.get(a) {
                    Some(v) => v.get(b),
                    None => None,
                };
            let is = |op: Seq<char>| r is Some && r->0@ == op;
            &&& kind("Eval"@) ==> is("eval"@)
            &&& kind("ConsoleStart"@) ==> is("eval"@)
            &&& kind("NetworkStart"@) ==> is("eval"@)
            &&& kind("Fetch"@) ==> is("fetch"@)
            &&& kind("DomSet"@) ==> is("dom_set"@)
            &&& kind("TabClose"@) ==> is("tab_close"@)
            &&& kind("TabNew"@) ==> is("navigate"@)
            &&& kind("CookieList"@) ==> is("cookie_list"@)
            &&& kind("CookieSet"@) ==> is("cookie_set"@)
            &&& kind("CookieDelete"@) ==> is("cookie_delete"@)
            &&& kind("SessionExport"@) ==> is("session_export"@)
            &&& kind("SessionImport"@) ==> is("session_import"@)
            &&& kind("Action"@) ==> match inner("action"@, "kind"@) {
                Some(JsonView::Str(k)) => is(k),
                _ => r is None,
            }
            &&& kind("FrameSwitch"@) ==> if inner("selector"@, "by"@) == Some(
                JsonView::Str("predicate"@),
            ) {
                is("eval"@)
            } else {
                r is None
            }
            &&& kind("Capture"@) ==> match command@.get("url"@) {
                Some(JsonView::Str(_)) => is("navigate"@),
                _ => r is None,
            }
            &&& !(command@.get("type"@) matches Some(JsonView::Str(_))) ==> r is None
            &&& r is Some && !kind("Action"@) ==> operations().contains(r->0@)
        }),
{
    reveal_strlit("Action");
    reveal_strlit("FrameSwitch");
    reveal_strlit("Capture");
    reveal_strlit("Eval");
    reveal_strlit("ConsoleStart");
    reveal_strlit("NetworkStart");
    reveal_strlit("Fetch");
    reveal_strlit("DomSet");
    reveal_strlit("TabClose");
    reveal_strlit("TabNew");
    reveal_strlit("CookieList");
    reveal_strlit("CookieSet");
    reveal_strlit("CookieDelete");
    reveal_strlit("SessionExport");
    reveal_strlit("SessionImport");
    assert("Action"@.len() == 6);
    assert("FrameSwitch"@.len() == 11);
    assert("Capture"@.len() == 7);
    assert("Eval"@.len() == 4);
    assert("ConsoleStart"@.len() == 12);
    assert("NetworkStart"@.len() == 12);
    assert("Fetch"@.len() == 5);
    assert("DomSet"@.len() == 6);
    assert("TabClose"@.len() == 8);
    assert("TabNew"@.len() == 6);
    assert("CookieList"@.len() == 10);
    assert("CookieSet"@.len() == 9);
    assert("CookieDelete"@.len() == 12);
    assert("SessionExport"@.len() == 13);
    assert("SessionImport"@.len() == 13);
    assert("Action"@[0] != "DomSet"@[0]);
    assert("Action"@[0] != "TabNew"@[0]);
    assert("ConsoleStart"@[0] != "NetworkStart"@[0]);
    assert("ConsoleStart"@[2] != "CookieDelete"@[2]);
    assert("NetworkStart"@[0] != "CookieDelete"@[0]);
    assert("DomSet"@[0] != "TabNew"@[0]);
    assert("SessionExport"@[7] != "SessionImport"@[7]);
    assert(operations()[12] == "eval"@ && operations()[13] == "fetch"@ && operations()[14]
        == "dom_set"@ && operations()[15] == "tab_close"@ && operations()[8] == "navigate"@);
    assert(operations()[16] == "cookie_list"@ && operations()[17] == "cookie_set"@
        && operations()[18] == "cookie_delete"@ && operations()[19] == "session_export"@
        && operations()[20] == "session_import"@);
}

/// A verdict has one of two names, and another name is refused and told.
pub proof fn law_verdicts_are_named(verdict: &str, r: Result<PolicyVerdict, WebPilotError>)
    requires
        call_ensures(parse_verdict, (verdict,), r),
    ensures
        r == Ok::<PolicyVerdict, WebPilotError>(PolicyVerdict::Allow) <==> verdict@ == "allow"@,
        r == Ok::<PolicyVerdict, WebPilotError>(PolicyVerdict::Deny) <==> verdict@ == "deny"@,
        verdict@ != "allow"@ && verdict@ != "deny"@ ==> (r matches Err(
            WebPilotError::InvalidArgument { detail },
        ) && text::holds(detail@, verdict@)),
{
    reveal_strlit("allow");
    reveal_strlit("deny");
    assert("allow"@.len() == 5);
    assert("deny"@.len() == 4);
    text::lemma_part("unknown verdict '"@, verdict@, "' (use 'allow' or 'deny')"@);
}

/// An operation can be ruled on exactly where it is among the known ones; the error for another tells
/// it and all of those.
pub proof fn law_only_known_operations_are_ruled_on(
    op: &str,
    known: Vec<String>,
    r: Result<(), WebPilotError>,
)
    requires
        call_ensures(check_operation, (op, &known), r),
    ensures
        r is Ok <==> exists|i: int| 0 <= i < known@.len() && (#[trigger] known@[i])@ == op@,
        r matches Err(e) ==> (e matches WebPilotError::InvalidArgument { detail } && text::holds(
            detail@,
            op@,
        ) && text::has_suffix(detail@, text::joined(text::texts(known@), ", "@))),
{
    text::lemma_texts_index(known@);
    let all = text::joined(text::texts(known@), ", "@);
    if r is Ok {
        let i = choose|i: int|
            0 <= i < text::texts(known@).len() && text::texts(known@)[i] == op@;
        assert(known@[i]@ == op@);
    } else {
        text::lemma_back("unknown operation '"@ + op@ + "' — valid: "@, all);
        assert("unknown operation '"@ + op@ + "' — valid: "@ + all =~= "unknown operation '"@ + op@
            + ("' — valid: "@ + all));
        text::lemma_part("unknown operation '"@, op@, "' — valid: "@ + all);
    }
    if exists|i: int| 0 <= i < known@.len() && (#[trigger] known@[i])@ == op@ {
        let i = choose|i: int| 0 <= i < known@.len() && (#[trigger] known@[i])@ == op@;
        assert(text::texts(known@)[i] == op@);
    }
}

/// A listing tells the default and every rule as often as it is kept, by operation and then by
/// verdict, each in JSON and on a line of its own.
pub proof fn law_rules_are_listed(default: &str, rules: Vec<Rule>, r: CommandOutput)
    requires
        call_ensures(list, (default, rules), r),
    ensures
        r matches CommandOutput::List { items, human_lines, summary } && {
            &&& items@.get("default"@) == Some(JsonView::Str(default@))
            &&& human_lines@.len() == rules@.len() + 1
            &&& human_lines@[0]@ == "default: "@ + default@
            &&& exists|sorted: Seq<(Seq<char>, Seq<char>)>|
                {
                    &&& #[trigger] sorted.to_multiset() == Seq::new(
                        rules@.len(),
                        |i: int| (rules@[i].operation@, rules@[i].verdict@),
                    ).to_multiset()
                    &&& forall|i: int, j: int|
                        0 <= i < j < sorted.len() ==> text::ordered(
                            (#[trigger] sorted[i]).0,
                            (#[trigger] sorted[j]).0,
                        )
                    &&& items@.get("rules"@) matches Some(JsonView::Array(list)) && list.len()
                        == sorted.len() && forall|i: int|
                        0 <= i < sorted.len() ==> (#[trigger] list[i]).get("operation"@) == Some(
                            JsonView::Str(sorted[i].0),
                        ) && list[i].get("verdict"@) == Some(JsonView::Str(sorted[i].1))
                    &&& forall|i: int|
                        #![trigger sorted[i]]
                        0 <= i < sorted.len() ==> human_lines@[i + 1]@ == sorted[i].0 + ": "@
                            + sorted[i].1
                }
        },
{
    reveal_strlit("default");
    reveal_strlit("rules");
    reveal_strlit("operation");
    reveal_strlit("verdict");
    assert("default"@.len() == 7);
    assert("rules"@.len() == 5);
    assert("operation"@.len() == 9);
    assert("verdict"@.len() == 7);
    assert("default"@[0] != "verdict"@[0]);
    if let CommandOutput::List { items, human_lines, summary } = r {
        text::lemma_texts_index(human_lines@);
        let sorted = choose|sorted: Seq<(Seq<char>, Seq<char>)>|
            {
                &&& rules_sorted(sorted)
                &&& sorted.to_multiset() == model::each(rules@).to_multiset()
                &&& #[trigger] policy_output(default@, sorted) == r@
            };
        let all = Seq::new(rules@.len(), |i: int| (rules@[i].operation@, rules@[i].verdict@));
        assert(all =~= model::each(rules@));
        sorted.to_multiset_ensures();
        all.to_multiset_ensures();
        assert(sorted.len() == all.len());
        assert(text::texts(human_lines@)[0] == human_lines@[0]@);
        assert forall|i: int, j: int| 0 <= i < j < sorted.len() implies text::ordered(
            (#[trigger] sorted[i]).0,
            (#[trigger] sorted[j]).0,
        ) by {
            assert(rule_ordered(sorted[i], sorted[j]));
            text::law_texts_are_ordered(sorted[i].0, sorted[j].0);
        }
        assert forall|i: int| #![trigger sorted[i]] 0 <= i < sorted.len() implies human_lines@[i
            + 1]@ == sorted[i].0 + ": "@ + sorted[i].1 by {
            assert(text::texts(human_lines@)[i + 1] == human_lines@[i + 1]@);
        }
        assert(sorted.to_multiset() == all.to_multiset());
    }
}

/// The verdict is to allow exactly what the rules let through; and every operation that can be ruled on
/// is known under its name.
pub proof fn law_verdicts_are_what_is_let(
    store: Option<PolicyStore>,
    op: &str,
    r: PolicyVerdict,
    known: Vec<String>,
    i: int,
)
    requires
        call_ensures(verdict, (&store, op), r),
        call_ensures(known_operations, (), known),
        0 <= i < 24,
    ensures
        r is Allow <==> lets(store, op@),
        known@.len() == 24,
        known@[i]@ == operations()[i],
{
    lemma_lets(store, op@);
    text::lemma_texts_index(known@);
    assert(text::texts(known@)[i] == known@[i]@);
}

/// Every kind of action can be ruled on, and so can everything else that has an effect.
pub proof fn law_everything_with_an_effect_can_be_ruled_on(op: Seq<char>)
    requires
        op == "click"@ || op == "type"@ || op == "key_press"@ || op == "scroll"@ || op == "select"@ || op
            == "hover"@ || op == "drag"@ || op == "upload"@ || op == "navigate"@ || op == "back"@ || op
            == "forward"@ || op == "reload"@ || op == "eval"@ || op == "fetch"@ || op == "dom_set"@ || op
            == "tab_close"@ || op == "cookie_list"@ || op == "cookie_set"@ || op == "cookie_delete"@
            || op == "session_export"@ || op == "session_import"@ || op == "device"@ || op
            == "context_close"@ || op == "download"@,
    ensures
        operations().contains(op),
{
    let all = operations();
    assert(all[0] == "click"@ && all[1] == "type"@ && all[2] == "key_press"@ && all[3] == "scroll"@
        && all[4] == "select"@ && all[5] == "hover"@);
    assert(all[6] == "drag"@ && all[7] == "upload"@ && all[8] == "navigate"@ && all[9] == "back"@
        && all[10] == "forward"@ && all[11] == "reload"@);
    assert(all[12] == "eval"@ && all[13] == "fetch"@ && all[14] == "dom_set"@ && all[15]
        == "tab_close"@ && all[16] == "cookie_list"@ && all[17] == "cookie_set"@);
    assert(all[18] == "cookie_delete"@ && all[19] == "session_export"@ && all[20]
        == "session_import"@ && all[21] == "device"@ && all[22] == "context_close"@ && all[23]
        == "download"@);
}

/// Rules stand by their operation, and by their verdict where that is the same; none is lost or made
/// up.
pub proof fn law_rules_are_sorted(rules: Vec<Rule>, r: Vec<Rule>, i: int, j: int)
    requires
        call_ensures(sort_rules, (rules,), r),
        0 <= i < j < r@.len(),
    ensures
        r@.len() == rules@.len(),
        r@[i].operation@ != r@[j].operation@ ==> text::ordered(
            r@[i].operation@,
            r@[j].operation@,
        ),
        r@[i].operation@ == r@[j].operation@ ==> text::ordered(r@[i].verdict@, r@[j].verdict@),
        exists|k: int|
            0 <= k < rules@.len() && #[trigger] rules@[k].operation@ == r@[i].operation@
                && rules@[k].verdict@ == r@[i].verdict@,
        exists|k: int|
            0 <= k < r@.len() && #[trigger] r@[k].operation@ == rules@[i].operation@
                && r@[k].verdict@ == rules@[i].verdict@,
{
    let a = model::each(rules@);
    let b = model::each(r@);
    a.to_multiset_ensures();
    b.to_multiset_ensures();
    assert(a.len() == b.len());
    assert(rule_ordered(b[i], b[j]));
    assert(b[i] == r@[i]@ && b[j] == r@[j]@);
    assert(b.contains(b[i]));
    assert(b.to_multiset().count(b[i]) > 0);
    assert(a.to_multiset().count(b[i]) > 0);
    assert(a.contains(b[i]));
    let k = choose|k: int| 0 <= k < a.len() && a[k] == b[i];
    assert(a[k] == rules@[k]@);
    assert(rules@[k].operation@ == r@[i].operation@);
    assert(a[i] == rules@[i]@);
    assert(a.contains(a[i]));
    assert(a.to_multiset().count(a[i]) > 0);
    assert(b.to_multiset().count(a[i]) > 0);
    assert(b.contains(a[i]));
    let m = choose|m: int| 0 <= m < b.len() && b[m] == a[i];
    assert(b[m] == r@[m]@);
    assert(r@[m].operation@ == rules@[i].operation@);
}

} // verus!
