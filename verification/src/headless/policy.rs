//! Which actions are allowed: rules in a file.
use crate::headless;
use crate::headless::{array_of, count_of};
use crate::json;
use crate::json::{Json, JsonView};
use crate::model;
use crate::output::{CommandOutput, OutputView};
use crate::paths;
use crate::paths::join;
use crate::text;
use crate::text::same;
use vstd::prelude::*;
use vstd::string::StringExecFns;

verus! {

/// The file of a user's rules, in the directory for such files.
pub fn policy_file(dir: &str, user: Option<&str>) -> (r: String)
    ensures
        r@ == paths::joined(
            dir@,
            (match user {
                Some(u) => u@,
                None => "default"@,
            }) + "-policies.json"@,
        ),
{
    let owner = match user {
        Some(u) => u.to_owned(),
        None => "default".to_owned(),
    };
    join(dir, owner.concat("-policies.json").as_str())
}

/// A rule: an action and what is said of it.
#[derive(Debug, PartialEq, Eq)]
pub struct Rule {
    pub action: String,
    pub verdict: String,
}

impl View for Rule {
    type V = (Seq<char>, Seq<char>);

    open spec fn view(&self) -> (Seq<char>, Seq<char>) {
        (self.action@, self.verdict@)
    }
}

/// The rules: of each action one at most.
#[derive(Debug, PartialEq, Eq)]
pub struct Policies {
    pub rules: Vec<Rule>,
}

/// What rules say.
pub open spec fn said(rules: Seq<(Seq<char>, Seq<char>)>) -> Map<Seq<char>, Seq<char>>
    decreases rules.len(),
{
    if rules.len() == 0 {
        Map::empty()
    } else {
        said(rules.drop_last()).insert(rules.last().0, rules.last().1)
    }
}

impl View for Policies {
    type V = Map<Seq<char>, Seq<char>>;

    open spec fn view(&self) -> Map<Seq<char>, Seq<char>> {
        said(model::each(self.rules@))
    }
}

impl Policies {
    /// Of each action there is one rule at most.
    pub open spec fn wf(self) -> bool {
        forall|i: int, j: int|
            0 <= i < j < self.rules@.len() ==> (#[trigger] self.rules@[i]).action@ != (
            #[trigger] self.rules@[j]).action@
    }

    /// No rules.
    pub fn new() -> (r: Policies)
        ensures
            r.wf(),
            r@ == Map::<Seq<char>, Seq<char>>::empty(),
    {
        Policies { rules: Vec::new() }
    }

    /// Says something of an action, in place of what was said of it before.
    pub fn insert(&mut self, action: &str, verdict: &str)
        requires
            old(self).wf(),
        ensures
            final(self).wf(),
            final(self)@ == old(self)@.insert(action@, verdict@),
    {
        let ghost all = model::each(self.rules@);
        let n: usize = self.rules.len();
        for i in 0..n
            invariant
                n == self.rules@.len(),
                self.wf(),
                all == model::each(self.rules@),
                self@ == old(self)@,
                forall|k: int| 0 <= k < i ==> (#[trigger] self.rules@[k]).action@ != action@,
        {
            if same(self.rules[i].action.as_str(), action) {
                let rule = Rule { action: action.to_owned(), verdict: verdict.to_owned() };
                let ghost before = self.rules@;
                self.rules.set(i, rule);
                proof {
                    let after = model::each(self.rules@);
                    assert(after =~= all.update(i as int, (action@, verdict@)));
                    lemma_said_update(all, i as int, verdict@);
                    assert forall|a: int, b: int|
                        0 <= a < b < self.rules@.len() implies (#[trigger] self.rules@[a]).action@
                        != (#[trigger] self.rules@[b]).action@ by {
                        assert(before[a].action@ != before[b].action@);
                    }
                }
                return;
            }
        }
        let rule = Rule { action: action.to_owned(), verdict: verdict.to_owned() };
        proof {
            model::lemma_each_push(self.rules@, rule);
            assert(all.push((action@, verdict@)).drop_last() =~= all);
        }
        self.rules.push(rule);
    }
}

/// A rule of an action that has one changes what is said of that action and nothing else.
proof fn lemma_said_update(rules: Seq<(Seq<char>, Seq<char>)>, at: int, verdict: Seq<char>)
    requires
        0 <= at < rules.len(),
        forall|i: int, j: int|
            0 <= i < j < rules.len() ==> (#[trigger] rules[i]).0 != (#[trigger] rules[j]).0,
    ensures
        said(rules.update(at, (rules[at].0, verdict))) == said(rules).insert(
            rules[at].0,
            verdict,
        ),
    decreases rules.len(),
{
    let changed = rules.update(at, (rules[at].0, verdict));
    let front = rules.drop_last();
    if at == rules.len() - 1 {
        assert(changed.drop_last() =~= front);
        assert(said(changed) =~= said(rules).insert(rules[at].0, verdict));
    } else {
        assert(front[at] == rules[at]);
        assert forall|i: int, j: int| 0 <= i < j < front.len() implies (#[trigger] front[i]).0 != (
        #[trigger] front[j]).0 by {
            assert(rules[i].0 != rules[j].0);
        }
        lemma_said_update(front, at, verdict);
        assert(changed.drop_last() =~= front.update(at, (front[at].0, verdict)));
        assert(changed.last() == rules.last());
        assert(rules[at].0 != rules[rules.len() - 1].0);
        assert(said(changed) =~= said(rules).insert(rules[at].0, verdict));
    }
}

/// `"action": "verdict"`.
pub open spec fn row(rule: (Seq<char>, Seq<char>)) -> Seq<char> {
    json::written(JsonView::Str(rule.0)) + ": "@ + json::written(JsonView::Str(rule.1))
}

/// A rule as JSON.
pub open spec fn rule_json(rule: (Seq<char>, Seq<char>)) -> JsonView {
    JsonView::object().with("action_type"@, JsonView::Str(rule.0)).with(
        "verdict"@,
        JsonView::Str(rule.1),
    )
}

/// What a listing prints.
pub fn list(policies: &Policies) -> (r: CommandOutput)
    ensures
        r@ == ({
            let rules = model::each(policies.rules@);
            OutputView::List(
                JsonView::Array(Seq::new(rules.len(), |i: int| rule_json(rules[i]))),
                Seq::new(rules.len(), |i: int| row(rules[i])),
                headless::counted(rules.len(), "rules"@),
            )
        }),
{
    let ghost all = model::each(policies.rules@);
    let mut items: Vec<Json> = Vec::new();
    let mut rows: Vec<String> = Vec::new();
    for i in 0..policies.rules.len()
        invariant
            all == model::each(policies.rules@),
            items@.len() == i,
            rows@.len() == i,
            forall|j: int| 0 <= j < i ==> (#[trigger] items@[j])@ == rule_json(all[j]),
            forall|j: int| 0 <= j < i ==> (#[trigger] rows@[j])@ == row(all[j]),
    {
        let rule = &policies.rules[i];
        items.push(
            Json::object().with("action_type", Json::string(rule.action.as_str())).with(
                "verdict",
                Json::string(rule.verdict.as_str()),
            ),
        );
        rows.push(
            Json::string(rule.action.as_str()).to_text().concat(": ").concat(
                Json::string(rule.verdict.as_str()).to_text().as_str(),
            ),
        );
    }
    let summary = count_of(policies.rules.len(), "rules");
    proof {
        assert(model::each(items@) =~= Seq::new(all.len(), |i: int| rule_json(all[i])));
        text::lemma_texts_index(rows@);
        assert(text::texts(rows@) =~= Seq::new(all.len(), |i: int| row(all[i])));
    }
    CommandOutput::List { items: array_of(items), human_lines: rows, summary }
}

/// What is said of an action is what was said of it last; of another nothing changes.
pub proof fn law_the_last_word_counts(
    policies: &mut Policies,
    action: &str,
    verdict: &str,
    other: Seq<char>,
    none: Policies,
)
    requires
        old(policies).wf(),
        call_ensures(Policies::insert, (policies, action, verdict), ()),
        call_ensures(Policies::new, (), none),
    ensures
        final(policies).wf(),
        final(policies)@.contains_key(action@) && final(policies)@[action@] == verdict@,
        other != action@ ==> (final(policies)@.contains_key(other) <==> old(policies)@.contains_key(
            other,
        )) && (old(policies)@.contains_key(other) ==> final(policies)@[other] == old(
            policies
        )@[other]),
        !none@.contains_key(other),
{
}

/// Rules say what each of them says: of every action that has one, its verdict.
pub proof fn law_rules_say_what_they_say(policies: Policies, i: int)
    requires
        policies.wf(),
        0 <= i < policies.rules@.len(),
    ensures
        policies@.contains_key(policies.rules@[i].action@),
        policies@[policies.rules@[i].action@] == policies.rules@[i].verdict@,
{
    lemma_said(policies.rules@, i);
}

proof fn lemma_said(rules: Seq<Rule>, i: int)
    requires
        forall|i: int, j: int|
            0 <= i < j < rules.len() ==> (#[trigger] rules[i]).action@ != (
            #[trigger] rules[j]).action@,
        0 <= i < rules.len(),
    ensures
        said(model::each(rules)).contains_key(rules[i].action@),
        said(model::each(rules))[rules[i].action@] == rules[i].verdict@,
    decreases rules.len(),
{
    let all = model::each(rules);
    let front = rules.drop_last();
    let last = rules.len() - 1;
    assert(all.drop_last() =~= model::each(front));
    assert(all.last() == rules[last]@);
    if i < last {
        assert forall|a: int, b: int| 0 <= a < b < front.len() implies (#[trigger] front[a]).action@
            != (#[trigger] front[b]).action@ by {
            assert(rules[a].action@ != rules[b].action@);
        }
        lemma_said(front, i);
        assert(rules[i].action@ != rules[last].action@);
    }
}

/// A listing shows every rule in its order, in JSON and on a line of its own. A user's rules are in a
/// file of the user's own.
pub proof fn law_rules_are_shown(policies: Policies, r: CommandOutput, dir: &str, user: &str, file: String)
    requires
        call_ensures(list, (&policies,), r),
        dir@.len() > 0,
        dir@.last() != '/',
        user@.len() > 0,
        user@[0] != '/',
        call_ensures(policy_file, (dir, Some(user)), file),
    ensures
        r matches CommandOutput::List { items, human_lines, summary } && {
            &&& items@ matches JsonView::Array(shown) && shown.len() == policies.rules@.len()
                && forall|i: int|
                0 <= i < shown.len() ==> (#[trigger] shown[i]).get("action_type"@) == Some(
                    JsonView::Str(policies.rules@[i].action@),
                ) && shown[i].get("verdict"@) == Some(JsonView::Str(policies.rules@[i].verdict@))
            &&& human_lines@.len() == policies.rules@.len()
            &&& forall|i: int|
                0 <= i < policies.rules@.len() ==> (#[trigger] human_lines@[i])@ == json::written(
                    JsonView::Str(policies.rules@[i].action@),
                ) + ": "@ + json::written(JsonView::Str(policies.rules@[i].verdict@))
        },
        file@ == dir@ + seq!['/'] + user@ + "-policies.json"@,
{
    reveal_strlit("action_type");
    reveal_strlit("verdict");
    assert("action_type"@.len() == 11);
    assert("verdict"@.len() == 7);
    reveal_strlit("/");
    assert("/"@ =~= seq!['/']);
    assert(file@ =~= dir@ + seq!['/'] + user@ + "-policies.json"@);
    if let CommandOutput::List { items, human_lines, summary } = r {
        text::lemma_texts_index(human_lines@);
        let all = model::each(policies.rules@);
        assert forall|i: int| 0 <= i < policies.rules@.len() implies (#[trigger] human_lines@[i])@
            == row(all[i]) by {
            assert(text::texts(human_lines@)[i] == human_lines@[i]@);
        }
    }
}

/// Without a user the rules are those of the default one.
pub proof fn law_nobody_is_the_default(dir: &str, none: String, user: &str, file: String)
    requires
        user@ == "default"@,
        call_ensures(policy_file, (dir, None), none),
        call_ensures(policy_file, (dir, Some(user)), file),
    ensures
        none@ == file@,
{
}

/// What is listed is counted below it.
pub proof fn law_rules_are_counted(policies: Policies, r: CommandOutput)
    requires
        call_ensures(list, (&policies,), r),
    ensures
        r matches CommandOutput::List { items, human_lines, summary } ==> summary@
            == "("@ + text::decimal(human_lines@.len()) + " "@ + "rules"@ + ")"@,
{
    if let CommandOutput::List { items, human_lines, summary } = r {
        text::lemma_texts_index(human_lines@);
    }
}

} // verus!
