//! `find`: the elements that a filter matches, and what to do with the one it is for.
use crate::action;
use crate::action::{Action, ActionView, Modifiers};
use crate::error;
use crate::error::{ErrorView, WebPilotError};
use crate::fields;
use crate::fields::{check_fields, check_value, is_among, type_error, unknown_field, Kind, Shape};
use crate::json;
use crate::json::{Json, JsonView};
use crate::model;
use crate::output::{CommandOutput, OutputView};
use crate::protocol;
use crate::protocol::{lift_error, ActionData, Download, Reply, TabInfo};
use crate::text;
use crate::text::{contains, debug_text, dec, is_blank, join, line_safe, line_safe_clip, lower, same};
use vstd::prelude::*;
use vstd::string::StringExecFns;

verus! {

broadcast use {model::lemma_each_push, text::group_texts, json::group_json_views};

/// The arguments of `find`.
#[derive(Debug, PartialEq, Eq)]
pub struct FindArgs {
    pub role: Option<String>,
    pub text: Option<String>,
    pub label: Option<String>,
    pub placeholder: Option<String>,
    pub tag: Option<String>,
    /// Clicks the match, which must be the only one.
    pub click: bool,
    /// Types into the match, which must be the only one.
    pub fill: Option<String>,
}

/// What an element must be to match.
pub struct ElementFilter {
    pub role: Option<String>,
    pub text: Option<String>,
    pub label: Option<String>,
    pub placeholder: Option<String>,
    pub tag: Option<String>,
}

/// What a filter asks for.
pub struct FilterView {
    pub role: Option<Seq<char>>,
    pub text: Option<Seq<char>>,
    pub label: Option<Seq<char>>,
    pub placeholder: Option<Seq<char>>,
    pub tag: Option<Seq<char>>,
}

impl View for ElementFilter {
    type V = FilterView;

    open spec fn view(&self) -> FilterView {
        FilterView {
            role: model::maybe(self.role),
            text: model::maybe(self.text),
            label: model::maybe(self.label),
            placeholder: model::maybe(self.placeholder),
            tag: model::maybe(self.tag),
        }
    }
}

/// An element of the page that can be acted on, with the JSON that describes it.
pub struct InteractiveElement {
    pub index: u32,
    pub tag: String,
    pub text: String,
    pub role: Option<String>,
    pub name: Option<String>,
    pub label: Option<String>,
    pub placeholder: Option<String>,
    pub id: Option<String>,
    pub landmark: Option<String>,
    pub wire: Json,
}

/// What an element is.
pub struct ElementView {
    pub index: u32,
    pub tag: Seq<char>,
    pub text: Seq<char>,
    pub role: Option<Seq<char>>,
    pub name: Option<Seq<char>>,
    pub label: Option<Seq<char>>,
    pub placeholder: Option<Seq<char>>,
    pub id: Option<Seq<char>>,
    pub landmark: Option<Seq<char>>,
    pub wire: JsonView,
}

impl View for InteractiveElement {
    type V = ElementView;

    open spec fn view(&self) -> ElementView {
        ElementView {
            index: self.index,
            tag: self.tag@,
            text: self.text@,
            role: model::maybe(self.role),
            name: model::maybe(self.name),
            label: model::maybe(self.label),
            placeholder: model::maybe(self.placeholder),
            id: model::maybe(self.id),
            landmark: model::maybe(self.landmark),
            wire: self.wire@,
        }
    }
}

/// Whether a text is `wanted`, but for the case of its letters.
pub open spec fn is_like(found: Seq<char>, wanted: Seq<char>) -> bool {
    text::lowercase(found) == text::lowercase(wanted)
}

/// Whether a text holds `wanted`, but for the case of its letters.
pub open spec fn holds_like(found: Seq<char>, wanted: Seq<char>) -> bool {
    text::holds(text::lowercase(found), text::lowercase(wanted))
}

/// Whether a field is there and holds `wanted`, but for the case of its letters.
pub open spec fn field_holds(found: Option<Seq<char>>, wanted: Seq<char>) -> bool {
    found is Some && holds_like(found->0, wanted)
}

/// Whether an element matches a filter: it meets each of the filter's criteria. The role may be
/// the element's role or its tag, the text may stand in its text or its name.
pub open spec fn element_matches(el: ElementView, filter: FilterView) -> bool {
    &&& filter.role matches Some(role) ==> (el.role is Some && is_like(el.role->0, role))
        || is_like(el.tag, role)
    &&& filter.text matches Some(t) ==> holds_like(el.text, t) || field_holds(el.name, t)
    &&& filter.label matches Some(label) ==> field_holds(el.label, label)
    &&& filter.placeholder matches Some(p) ==> field_holds(el.placeholder, p)
    &&& filter.tag matches Some(tag) ==> is_like(el.tag, tag)
}

fn like(found: &str, wanted: &str) -> (r: bool)
    ensures
        r == is_like(found@, wanted@),
{
    same(lower(found).as_str(), lower(wanted).as_str())
}

fn part_like(found: &str, wanted: &str) -> (r: bool)
    ensures
        r == holds_like(found@, wanted@),
{
    contains(lower(found).as_str(), lower(wanted).as_str())
}

fn field_like(found: &Option<String>, wanted: &str) -> (r: bool)
    ensures
        r == field_holds(model::maybe(*found), wanted@),
{
    match found {
        Some(f) => part_like(f.as_str(), wanted),
        None => false,
    }
}

impl InteractiveElement {
    /// Whether the element matches a filter.
    pub fn matches(&self, filter: &ElementFilter) -> (r: bool)
        ensures
            r == element_matches(self@, filter@),
    {
        if let Some(role) = &filter.role {
            let by_role = match &self.role {
                Some(r) => like(r.as_str(), role.as_str()),
                None => false,
            };
            if !by_role && !like(self.tag.as_str(), role.as_str()) {
                return false;
            }
        }
        if let Some(t) = &filter.text {
            if !part_like(self.text.as_str(), t.as_str()) && !field_like(&self.name, t.as_str()) {
                return false;
            }
        }
        if let Some(label) = &filter.label {
            if !field_like(&self.label, label.as_str()) {
                return false;
            }
        }
        if let Some(p) = &filter.placeholder {
            if !field_like(&self.placeholder, p.as_str()) {
                return false;
            }
        }
        if let Some(tag) = &filter.tag {
            if !like(self.tag.as_str(), tag.as_str()) {
                return false;
            }
        }
        true
    }
}

/// The error for a filter that is given with nothing to look for.
pub open spec fn empty_filter(name: Seq<char>) -> ErrorView {
    ErrorView::InvalidArgument(
        "--"@ + name + " was given an empty value — a filter must be a non-empty string"@,
    )
}

/// Whether a filter is given with nothing to look for.
pub open spec fn given_blank(value: Option<String>) -> bool {
    value is Some && text::trimmed(value->0@).len() == 0
}

/// Why the arguments are refused, where they are. Without a filter nothing is looked for; an empty
/// one would match everything or nothing; and only one action can follow.
pub open spec fn refusal(args: FindArgs) -> Option<ErrorView> {
    if args.role is None && args.text is None && args.label is None && args.placeholder is None
        && args.tag is None {
        Some(
            ErrorView::InvalidArgument(
                "at least one filter required: --role, --text, --label, --placeholder, or --tag"@,
            ),
        )
    } else if given_blank(args.role) {
        Some(empty_filter("role"@))
    } else if given_blank(args.text) {
        Some(empty_filter("text"@))
    } else if given_blank(args.label) {
        Some(empty_filter("label"@))
    } else if given_blank(args.placeholder) {
        Some(empty_filter("placeholder"@))
    } else if given_blank(args.tag) {
        Some(empty_filter("tag"@))
    } else if args.click && args.fill is Some {
        Some(
            ErrorView::InvalidArgument(
                "--click and --fill are mutually exclusive — chain one action per find"@,
            ),
        )
    } else {
        None
    }
}

fn check_filter(name: &str, value: &Option<String>) -> (r: Option<WebPilotError>)
    ensures
        r is Some <==> given_blank(*value),
        r is Some ==> r->0@ == empty_filter(name@),
{
    match value {
        Some(v) => if is_blank(v.as_str()) {
            Some(
                WebPilotError::InvalidArgument {
                    detail: "--".to_owned().concat(name).concat(
                        " was given an empty value — a filter must be a non-empty string",
                    ),
                },
            )
        } else {
            None
        },
        None => None,
    }
}

/// Refuses arguments that look for nothing, or ask for two actions, before anything is sent.
pub fn check(args: &FindArgs) -> (r: Result<(), WebPilotError>)
    ensures
        r is Ok <==> refusal(*args) is None,
        r is Err ==> r->Err_0@ == refusal(*args)->0,
{
    if args.role.is_none() && args.text.is_none() && args.label.is_none()
        && args.placeholder.is_none() && args.tag.is_none() {
        return Err(
            WebPilotError::invalid(
                "at least one filter required: --role, --text, --label, --placeholder, or --tag",
            ),
        );
    }
    if let Some(e) = check_filter("role", &args.role) {
        return Err(e);
    }
    if let Some(e) = check_filter("text", &args.text) {
        return Err(e);
    }
    if let Some(e) = check_filter("label", &args.label) {
        return Err(e);
    }
    if let Some(e) = check_filter("placeholder", &args.placeholder) {
        return Err(e);
    }
    if let Some(e) = check_filter("tag", &args.tag) {
        return Err(e);
    }
    if args.click && args.fill.is_some() {
        return Err(
            WebPilotError::invalid(
                "--click and --fill are mutually exclusive — chain one action per find",
            ),
        );
    }
    Ok(())
}

/// One criterion of a filter, as a selector shows it.
pub open spec fn criterion(parts: Seq<Seq<char>>, name: Seq<char>, value: Option<Seq<char>>) -> Seq<
    Seq<char>,
> {
    match value {
        Some(v) => parts.push(name + v),
        None => parts,
    }
}

/// The model of an optional text, in quotes.
pub open spec fn quoted_opt(value: Option<Seq<char>>) -> Option<Seq<char>> {
    match value {
        Some(v) => Some(text::quoted(v)),
        None => None,
    }
}

/// A filter as a selector shows it.
pub open spec fn rendered_filter(f: FilterView) -> Seq<char> {
    let p1 = criterion(Seq::empty(), "role="@, f.role);
    let p2 = criterion(p1, "text="@, quoted_opt(f.text));
    let p3 = criterion(p2, "label="@, quoted_opt(f.label));
    let p4 = criterion(p3, "placeholder="@, quoted_opt(f.placeholder));
    let p5 = criterion(p4, "tag="@, f.tag);
    if p5.len() == 0 {
        "<no filter>"@
    } else {
        text::joined(p5, " "@)
    }
}

fn push_criterion(parts: &mut Vec<String>, name: &str, value: &Option<String>, quote: bool)
    ensures
        text::texts(final(parts)@) == criterion(
            text::texts(old(parts)@),
            name@,
            if quote {
                quoted_opt(model::maybe(*value))
            } else {
                model::maybe(*value)
            },
        ),
{
    if let Some(v) = value {
        let shown = if quote {
            debug_text(v.as_str())
        } else {
            v.clone()
        };
        parts.push(name.to_owned().concat(shown.as_str()));
    }
}

/// A filter as a selector shows it.
pub fn render_filter(filter: &ElementFilter) -> (r: String)
    ensures
        r@ == rendered_filter(filter@),
{
    let mut parts: Vec<String> = Vec::new();
    push_criterion(&mut parts, "role=", &filter.role, false);
    push_criterion(&mut parts, "text=", &filter.text, true);
    push_criterion(&mut parts, "label=", &filter.label, true);
    push_criterion(&mut parts, "placeholder=", &filter.placeholder, true);
    push_criterion(&mut parts, "tag=", &filter.tag, false);
    if parts.len() == 0 {
        "<no filter>".to_owned()
    } else {
        join(&parts, " ")
    }
}

/// A mark and a text of the page on one line; nothing where there is no text.
pub open spec fn marked(mark: Seq<char>, value: Option<Seq<char>>) -> Seq<char> {
    match value {
        Some(v) => mark + text::one_line(v),
        None => Seq::empty(),
    }
}

/// `[index] tag "text"`.
pub open spec fn short_row(el: ElementView) -> Seq<char> {
    "["@ + text::decimal(el.index as nat) + "] "@ + el.tag + " \""@ + text::one_line(el.text) + "\""@
}

/// `[index] tag#id "text" @landmark`.
pub open spec fn element_row(el: ElementView) -> Seq<char> {
    "["@ + text::decimal(el.index as nat) + "] "@ + el.tag + marked("#"@, el.id) + " \""@
        + text::one_line(el.text) + "\""@ + marked(" @"@, el.landmark)
}

fn mark(sign: &str, value: &Option<String>) -> (r: String)
    ensures
        r@ == marked(sign@, model::maybe(*value)),
{
    match value {
        Some(v) => sign.to_owned().concat(line_safe(v.as_str()).as_str()),
        None => String::new(),
    }
}

fn row(el: &InteractiveElement) -> (r: String)
    ensures
        r@ == element_row(el@),
{
    "[".to_owned().concat(dec(el.index as u64).as_str()).concat("] ").concat(
        el.tag.as_str(),
    ).concat(mark("#", &el.id).as_str()).concat(" \"").concat(
        line_safe(el.text.as_str()).as_str(),
    ).concat("\"").concat(mark(" @", &el.landmark).as_str())
}

fn brief(el: &InteractiveElement) -> (r: String)
    ensures
        r@ == short_row(el@),
{
    "[".to_owned().concat(dec(el.index as u64).as_str()).concat("] ").concat(
        el.tag.as_str(),
    ).concat(" \"").concat(line_safe(el.text.as_str()).as_str()).concat("\"")
}

/// The elements that match.
pub open spec fn matching(elements: Seq<ElementView>, filter: FilterView) -> Seq<ElementView> {
    model::picked(elements, |el: ElementView| element_matches(el, filter))
}

/// The smaller of two numbers.
pub open spec fn least(a: nat, b: nat) -> nat {
    if a <= b {
        a
    } else {
        b
    }
}

/// How many elements match, and how many are shown.
pub open spec fn summary_text(total: nat, shown: nat) -> Seq<char> {
    if shown < total {
        "("@ + text::decimal(total) + " matches, "@ + text::decimal(shown)
            + " shown — narrow the filter)"@
    } else {
        "("@ + text::decimal(total) + " matches)"@
    }
}

/// The JSON that lists the matches.
pub open spec fn matches_json(found: Seq<ElementView>, shown: nat) -> JsonView {
    JsonView::object().with(
        "matches"@,
        JsonView::Array(Seq::new(shown, |i: int| found[i].wire)),
    ).with("count"@, JsonView::number(found.len() as u64)).with(
        "matches_truncated"@,
        JsonView::Bool(shown < found.len()),
    )
}

/// The error for an action on a filter that matches more than one element.
pub open spec fn ambiguous(found: Seq<ElementView>) -> ErrorView {
    ErrorView::InvalidArgument(
        text::decimal(found.len())
            + " elements match the filter; narrow it or act by index (webpilot action click N): "@
            + text::joined(
            Seq::new(least(found.len(), 5), |i: int| short_row(found[i])),
            ", "@,
        ) + (if found.len() > 5 {
            ", …"@
        } else {
            Seq::empty()
        }),
    )
}

/// What was found: the listing, and the action that follows.
pub struct Selection {
    pub items: Json,
    pub human_lines: Vec<String>,
    pub summary: String,
    pub action: Option<Action>,
}

/// What a selection is.
pub struct SelectionView {
    pub items: JsonView,
    pub human_lines: Seq<Seq<char>>,
    pub summary: Seq<char>,
    pub action: Option<ActionView>,
}

impl View for Selection {
    type V = SelectionView;

    open spec fn view(&self) -> SelectionView {
        SelectionView {
            items: self.items@,
            human_lines: text::texts(self.human_lines@),
            summary: self.summary@,
            action: model::maybe(self.action),
        }
    }
}

/// The action that the arguments ask for, on the element `index`: a click with no key held, or a
/// text in place of what the field holds.
pub open spec fn chained(click: bool, fill: Option<Seq<char>>, index: u32) -> Option<ActionView> {
    if click {
        Some(ActionView::Click(index, action::no_modifiers()))
    } else {
        match fill {
            Some(t) => Some(ActionView::Type(index, t, true)),
            None => None,
        }
    }
}

/// The filter that the arguments describe.
pub open spec fn filter_of(args: FindArgs) -> FilterView {
    FilterView {
        role: model::maybe(args.role),
        text: model::maybe(args.text),
        label: model::maybe(args.label),
        placeholder: model::maybe(args.placeholder),
        tag: model::maybe(args.tag),
    }
}

/// The names that the fields of the arguments can have.
pub open spec fn argument_names() -> Seq<Seq<char>> {
    seq!["role"@, "text"@, "label"@, "placeholder"@, "tag"@, "click"@, "fill"@]
}

/// What the argument of a name must be.
pub open spec fn argument_kind(name: Seq<char>) -> Kind {
    if name == "click"@ {
        Kind::Flag
    } else {
        Kind::OptionalText
    }
}

/// What the fields of the arguments must be.
pub struct FindShape {}

impl Shape for FindShape {
    open spec fn problem(&self, name: Seq<char>, value: JsonView) -> Option<Seq<char>> {
        if argument_names().contains(name) {
            fields::trouble(argument_kind(name), value)
        } else {
            Some(fields::unknown(name, argument_names()))
        }
    }

    fn check(&self, name: &str, value: &Json) -> (r: Option<String>) {
        let names = names_of_arguments();
        if !is_among(name, &names) {
            Some(unknown_field(name, &names))
        } else if same(name, "click") {
            check_value(Kind::Flag, value)
        } else {
            check_value(Kind::OptionalText, value)
        }
    }
}

fn names_of_arguments() -> (r: Vec<&'static str>)
    ensures
        fields::names_of(r@) == argument_names(),
{
    let mut names: Vec<&'static str> = Vec::new();
    names.push("role");
    names.push("text");
    names.push("label");
    names.push("placeholder");
    names.push("tag");
    names.push("click");
    names.push("fill");
    assert(fields::names_of(names@) =~= argument_names());
    names
}

/// What is wrong with an item of arguments that stand in a row, in the order of their names.
pub open spec fn item_trouble(items: Seq<JsonView>, i: int) -> Option<Seq<char>> {
    fields::trouble(argument_kind(argument_names()[i]), items[i])
}

/// What is wrong with the first of the items from `i` on of which anything is; that there are too
/// many where nothing is.
pub open spec fn row_trouble(items: Seq<JsonView>, i: nat) -> Option<Seq<char>>
    decreases items.len() - i,
{
    if i >= items.len() {
        None
    } else if i >= argument_names().len() {
        Some(
            "invalid length "@ + text::decimal(items.len())
                + ", expected fewer elements in array"@,
        )
    } else if item_trouble(items, i as int) is Some {
        item_trouble(items, i as int)
    } else {
        row_trouble(items, i + 1)
    }
}

/// The argument of a name, by its place among the names.
pub open spec fn argument(value: JsonView, i: int) -> Option<JsonView> {
    match value {
        JsonView::Array(items) => if i < items.len() {
            Some(items[i])
        } else {
            None
        },
        _ => value.get(argument_names()[i]),
    }
}

/// A text that may be absent.
pub open spec fn optional_text(value: Option<JsonView>) -> Option<Seq<char>> {
    match value {
        Some(v) => v.as_str(),
        None => None,
    }
}

/// The arguments that a value describes: the filter, whether to click, and what to type. They
/// stand under their names, or in a row. What is absent asks for nothing.
pub open spec fn args_of(value: JsonView) -> Result<
    (FilterView, bool, Option<Seq<char>>),
    Seq<char>,
> {
    let wrong = match value {
        JsonView::Object(_) => fields::first_problem(FindShape {  }, value),
        JsonView::Array(items) => row_trouble(items, 0),
        _ => Some(fields::wrong_type(value, "struct FindArgs"@)),
    };
    match wrong {
        Some(told) => Err(told),
        None => Ok(
            (
                FilterView {
                    role: optional_text(argument(value, 0)),
                    text: optional_text(argument(value, 1)),
                    label: optional_text(argument(value, 2)),
                    placeholder: optional_text(argument(value, 3)),
                    tag: optional_text(argument(value, 4)),
                },
                argument(value, 5) == Some(JsonView::Bool(true)),
                optional_text(argument(value, 6)),
            ),
        ),
    }
}

fn check_row(items: &Vec<Json>) -> (r: Option<String>)
    ensures
        model::maybe(r) == row_trouble(json::views(items@), 0),
{
    let ghost all = json::views(items@);
    let mut i: usize = 0;
    proof {
        json::lemma_views_index(items@);
    }
    while i < items.len()
        invariant
            i <= items@.len(),
            i <= 7,
            all == json::views(items@),
            all.len() == items@.len(),
            forall|j: int| 0 <= j < items@.len() ==> #[trigger] all[j] == items@[j]@,
            row_trouble(all, 0) == row_trouble(all, i as nat),
        decreases items@.len() - i,
    {
        if i >= 7 {
            return Some(
                "invalid length ".to_owned().concat(dec(items.len() as u64).as_str()).concat(
                    ", expected fewer elements in array",
                ),
            );
        }
        let kind = if i == 5 {
            Kind::Flag
        } else {
            Kind::OptionalText
        };
        proof {
            lemma_only_click_is_a_flag();
            assert(all[i as int] == items@[i as int]@);
        }
        if let Some(told) = check_value(kind, &items[i]) {
            return Some(told);
        }
        i += 1;
    }
    None
}

proof fn lemma_only_click_is_a_flag()
    ensures
        forall|i: int|
            0 <= i < 7 ==> #[trigger] argument_kind(argument_names()[i]) == if i == 5 {
                Kind::Flag
            } else {
                Kind::OptionalText
            },
{
    reveal_strlit("role");
    reveal_strlit("text");
    reveal_strlit("label");
    reveal_strlit("placeholder");
    reveal_strlit("tag");
    reveal_strlit("click");
    reveal_strlit("fill");
    assert("role"@.len() == 4 && "text"@.len() == 4 && "placeholder"@.len() == 11);
    assert("tag"@.len() == 3 && "click"@.len() == 5 && "fill"@.len() == 4);
    assert("label"@[0] == 'l' && "click"@[0] == 'c');
}

fn argument_at<'a>(value: &'a Json, i: usize, name: &str) -> (r: Option<&'a Json>)
    requires
        i < 7,
        argument_names()[i as int] == name@,
    ensures
        r is Some <==> argument(value@, i as int) is Some,
        r is Some ==> r->0@ == argument(value@, i as int)->0,
{
    match value {
        Json::Array(items) => {
            proof {
                json::lemma_views_index(items@);
            }
            if i < items.len() {
                assert(json::views(items@)[i as int] == items@[i as int]@);
                Some(&items[i])
            } else {
                None
            }
        },
        _ => value.get(name),
    }
}

fn text_at(value: &Json, i: usize, name: &str) -> (r: Option<String>)
    requires
        i < 7,
        argument_names()[i as int] == name@,
    ensures
        model::maybe(r) == optional_text(argument(value@, i as int)),
{
    match argument_at(value, i, name) {
        Some(v) => match v.as_str() {
            Some(t) => Some(t.to_owned()),
            None => None,
        },
        None => None,
    }
}

/// The model of what reading the arguments gives.
pub open spec fn args_told(r: Result<FindArgs, String>) -> Result<
    (FilterView, bool, Option<Seq<char>>),
    Seq<char>,
> {
    match r {
        Ok(args) => Ok((filter_of(args), args.click, model::maybe(args.fill))),
        Err(e) => Err(e@),
    }
}

impl FindArgs {
    /// The arguments that a value describes. An unknown field is an error: a misspelled filter
    /// would match everything.
    pub fn read(value: &Json) -> (r: Result<FindArgs, String>)
        ensures
            args_told(r) == args_of(value@),
    {
        let wrong = match value {
            Json::Object(_) => check_fields(&FindShape {  }, value),
            Json::Array(items) => check_row(items),
            _ => Some(type_error(value, "struct FindArgs")),
        };
        if let Some(told) = wrong {
            return Err(told);
        }
        Ok(
            FindArgs {
                role: text_at(value, 0, "role"),
                text: text_at(value, 1, "text"),
                label: text_at(value, 2, "label"),
                placeholder: text_at(value, 3, "placeholder"),
                tag: text_at(value, 4, "tag"),
                click: match argument_at(value, 5, "click") {
                    Some(Json::Bool(b)) => *b,
                    _ => false,
                },
                fill: text_at(value, 6, "fill"),
            },
        )
    }
}

/// A misspelled filter is refused, never one that matches everything.
pub proof fn law_unknown_filters_are_refused(value: JsonView, key: Seq<char>)
    requires
        value.get(key) is Some,
        !argument_names().contains(key),
    ensures
        args_of(value) is Err,
{
    assert(fields::is_wrong(FindShape {  }, value, key));
}

/// What a filter finds among the elements of the page. No match is an error; an action needs a
/// single one.
pub open spec fn selection(
    elements: Seq<ElementView>,
    filter: FilterView,
    click: bool,
    fill: Option<Seq<char>>,
    max_elements: nat,
) -> Result<SelectionView, ErrorView> {
    let found = matching(elements, filter);
    let shown = least(found.len(), max_elements);
    if found.len() == 0 {
        Err(ErrorView::SelectorNotFound(rendered_filter(filter)))
    } else if (click || fill is Some) && found.len() > 1 {
        Err(ambiguous(found))
    } else {
        Ok(
            SelectionView {
                items: matches_json(found, shown),
                human_lines: Seq::new(shown, |i: int| element_row(found[i])),
                summary: summary_text(found.len(), shown),
                action: chained(click, fill, found[0].index),
            },
        )
    }
}

fn find_matches<'a>(elements: &'a Vec<InteractiveElement>, filter: &ElementFilter) -> (r: Vec<
    &'a InteractiveElement,
>)
    ensures
        r@.len() == matching(model::each(elements@), filter@).len(),
        forall|i: int|
            0 <= i < r@.len() ==> (#[trigger] r@[i])@ == matching(model::each(elements@), filter@)[i],
{
    let ghost all = model::each(elements@);
    let ghost pick = |el: ElementView| element_matches(el, filter@);
    let mut found: Vec<&'a InteractiveElement> = Vec::new();
    for i in 0..elements.len()
        invariant
            all == model::each(elements@),
            pick == (|el: ElementView| element_matches(el, filter@)),
            found@.len() == model::picked(all.take(i as int), pick).len(),
            forall|j: int|
                0 <= j < found@.len() ==> (#[trigger] found@[j])@ == model::picked(
                    all.take(i as int),
                    pick,
                )[j],
    {
        assert(all.take(i + 1).drop_last() =~= all.take(i as int));
        assert(all.take(i + 1).last() == elements@[i as int]@);
        if elements[i].matches(filter) {
            found.push(&elements[i]);
        }
    }
    assert(all.take(elements@.len() as int) =~= all);
    found
}

fn listing(found: &Vec<&InteractiveElement>, shown: usize) -> (r: (Vec<Json>, Vec<String>))
    requires
        shown <= found@.len(),
    ensures
        json::views(r.0@) == Seq::new(shown as nat, |i: int| found@[i]@.wire),
        text::texts(r.1@) == Seq::new(shown as nat, |i: int| element_row(found@[i]@)),
{
    let mut wires: Vec<Json> = Vec::new();
    let mut rows: Vec<String> = Vec::new();
    for i in 0..shown
        invariant
            shown <= found@.len(),
            wires@.len() == i,
            rows@.len() == i,
            forall|j: int| 0 <= j < i ==> (#[trigger] wires@[j])@ == found@[j]@.wire,
            forall|j: int| 0 <= j < i ==> (#[trigger] rows@[j])@ == element_row(found@[j]@),
    {
        wires.push(found[i].wire.copy());
        rows.push(row(found[i]));
    }
    proof {
        json::lemma_views_index(wires@);
        text::lemma_texts_index(rows@);
        assert(json::views(wires@) =~= Seq::new(shown as nat, |i: int| found@[i]@.wire));
        assert(text::texts(rows@) =~= Seq::new(shown as nat, |i: int| element_row(found@[i]@)));
    }
    (wires, rows)
}

fn ambiguity(found: &Vec<&InteractiveElement>) -> (r: WebPilotError)
    ensures
        r@ == ambiguous(Seq::new(found@.len(), |i: int| found@[i]@)),
{
    let ghost all = Seq::new(found@.len(), |i: int| found@[i]@);
    let shown: usize = if found.len() <= 5 {
        found.len()
    } else {
        5
    };
    let mut rows: Vec<String> = Vec::new();
    for i in 0..shown
        invariant
            shown <= found@.len(),
            rows@.len() == i,
            forall|j: int| 0 <= j < i ==> (#[trigger] rows@[j])@ == short_row(found@[j]@),
    {
        rows.push(brief(found[i]));
    }
    proof {
        text::lemma_texts_index(rows@);
        assert(text::texts(rows@) =~= Seq::new(least(all.len(), 5), |i: int| short_row(all[i])));
    }
    let more = if found.len() > 5 {
        ", …".to_owned()
    } else {
        String::new()
    };
    let detail = dec(found.len() as u64).concat(
        " elements match the filter; narrow it or act by index (webpilot action click N): ",
    ).concat(join(&rows, ", ").as_str()).concat(more.as_str());
    WebPilotError::InvalidArgument { detail }
}

/// Looks for the elements that a filter matches, and decides what follows. `max_elements` bounds
/// the listing, not the search.
pub fn select(
    elements: &Vec<InteractiveElement>,
    filter: &ElementFilter,
    click: bool,
    fill: Option<String>,
    max_elements: usize,
) -> (r: Result<Selection, WebPilotError>)
    ensures
        error::outcome(r) == selection(
            model::each(elements@),
            filter@,
            click,
            model::maybe(fill),
            max_elements as nat,
        ),
{
    let found = find_matches(elements, filter);
    let ghost all = Seq::new(found@.len(), |i: int| found@[i]@);
    assert(all =~= matching(model::each(elements@), filter@));
    if found.len() == 0 {
        return Err(WebPilotError::SelectorNotFound { selector: render_filter(filter) });
    }
    if (click || fill.is_some()) && found.len() > 1 {
        return Err(ambiguity(&found));
    }
    let total: usize = found.len();
    let shown: usize = if total <= max_elements {
        total
    } else {
        max_elements
    };
    let (wires, human_lines) = listing(&found, shown);
    proof {
        assert(Seq::new(shown as nat, |i: int| found@[i]@.wire) =~= Seq::new(
            shown as nat,
            |i: int| all[i].wire,
        ));
        assert(Seq::new(shown as nat, |i: int| element_row(found@[i]@)) =~= Seq::new(
            shown as nat,
            |i: int| element_row(all[i]),
        ));
    }
    let summary = if shown < total {
        "(".to_owned().concat(dec(total as u64).as_str()).concat(" matches, ").concat(
            dec(shown as u64).as_str(),
        ).concat(" shown — narrow the filter)")
    } else {
        "(".to_owned().concat(dec(total as u64).as_str()).concat(" matches)")
    };
    let items = Json::object().with("matches", Json::Array(wires)).with(
        "count",
        Json::number(total as u64),
    ).with("matches_truncated", Json::Bool(shown < total));
    let index: u32 = found[0].index;
    let action = if click {
        Some(Action::Click { index, modifiers: Modifiers::none() })
    } else {
        match fill {
            Some(text) => Some(Action::Type { index, text, clear: true }),
            None => None,
        }
    };
    Ok(Selection { items, human_lines, summary, action })
}

/// What `find` comes to once the page has been captured: the elements of its snapshot, none where
/// there is no page. Arguments that are refused come to nothing else, whatever the page holds.
pub open spec fn run_outcome(
    reply: Reply<Option<Vec<InteractiveElement>>>,
    args: FindArgs,
    max_elements: nat,
) -> Result<SelectionView, ErrorView> {
    if let Some(e) = refusal(args) {
        Err(e)
    } else {
        match reply {
            Reply::Data(Some(elements)) => selection(
                model::each(elements@),
                filter_of(args),
                args.click,
                model::maybe(args.fill),
                max_elements,
            ),
            Reply::Data(None) => Err(ErrorView::NoPage),
            Reply::Error(e) => Err(e@),
            Reply::Unexpected => Err(ErrorView::Other("Unexpected response shape"@)),
        }
    }
}

/// Goes on from the capture of the page.
pub fn run(
    reply: Reply<Option<Vec<InteractiveElement>>>,
    args: FindArgs,
    max_elements: usize,
) -> (r: Result<Selection, WebPilotError>)
    ensures
        error::outcome(r) == run_outcome(reply, args, max_elements as nat),
{
    if let Err(e) = check(&args) {
        return Err(e);
    }
    match reply {
        Reply::Data(Some(elements)) => {
            let filter = ElementFilter {
                role: args.role,
                text: args.text,
                label: args.label,
                placeholder: args.placeholder,
                tag: args.tag,
            };
            select(&elements, &filter, args.click, args.fill, max_elements)
        },
        Reply::Data(None) => Err(WebPilotError::NoPage),
        Reply::Error(e) => Err(e),
        Reply::Unexpected => Err(protocol::unexpected()),
    }
}

/// What the action that followed did to the browser.
pub struct ChainEffect {
    pub url_changed: Option<String>,
    pub new_tab: Option<TabInfo>,
    pub downloads: Vec<Download>,
}

impl ChainEffect {
    /// The effect of no action.
    pub fn none() -> (r: ChainEffect)
        ensures
            r.url_changed is None,
            r.new_tab is None,
            r.downloads@.len() == 0,
    {
        ChainEffect { url_changed: None, new_tab: None, downloads: Vec::new() }
    }
}

/// What the action that followed did, or why it failed.
pub fn chain_action(reply: Reply<ActionData>) -> (r: Result<ChainEffect, WebPilotError>)
    ensures
        match reply {
            Reply::Data(d) => if d.success {
                &&& r is Ok
                &&& r->Ok_0.url_changed == d.url_changed
                &&& r->Ok_0.new_tab == d.new_tab
                &&& r->Ok_0.downloads == d.downloads
            } else {
                r is Err && r->Err_0@ == protocol::failure(model::maybe(d.error))
            },
            _ => r is Err && r->Err_0@ == protocol::no_data(reply),
        },
{
    match reply.data() {
        Ok(d) => {
            let effect = ChainEffect {
                url_changed: d.url_changed,
                new_tab: d.new_tab,
                downloads: d.downloads,
            };
            lift_error(d.success, d.error, effect)
        },
        Err(e) => Err(e),
    }
}

/// The lines that show downloads.
pub open spec fn download_lines(downloads: Seq<(Seq<char>, JsonView)>) -> Seq<Seq<char>> {
    Seq::new(downloads.len(), |i: int| "→ "@ + downloads[i].0)
}

/// The listing with the effects of the action that followed.
pub open spec fn with_effects(
    found: SelectionView,
    url_changed: Option<Seq<char>>,
    new_tab: Option<protocol::TabView>,
    downloads: Seq<(Seq<char>, JsonView)>,
) -> OutputView {
    let (i1, l1) = match url_changed {
        Some(url) => (
            found.items.with("url_changed"@, JsonView::Str(url)),
            found.human_lines.push(
                "→ URL changed: "@ + text::clipped(text::one_line(url), 200),
            ),
        ),
        None => (found.items, found.human_lines),
    };
    let (i2, l2) = match new_tab {
        Some(tab) => (
            i1.with("new_tab"@, tab.wire),
            l1.push(
                "→ New tab opened: "@ + text::clipped(text::one_line(tab.url), 200)
                    + " (switched automatically)"@,
            ),
        ),
        None => (i1, l1),
    };
    let (i3, l3) = if downloads.len() > 0 {
        (
            i2.with(
                "downloads"@,
                JsonView::Array(Seq::new(downloads.len(), |i: int| downloads[i].1)),
            ),
            l2 + download_lines(downloads),
        )
    } else {
        (i2, l2)
    };
    OutputView::List(i3, l3, found.summary)
}

/// What `find` prints: the listing, and what the action that followed did to the browser.
pub fn finish(found: Selection, effect: ChainEffect) -> (r: CommandOutput)
    ensures
        r@ == with_effects(
            found@,
            model::maybe(effect.url_changed),
            model::maybe(effect.new_tab),
            model::each(effect.downloads@),
        ),
{
    let mut items = found.items;
    let mut human_lines = found.human_lines;
    if let Some(url) = &effect.url_changed {
        items = items.with("url_changed", Json::string(url.as_str()));
        human_lines.push(
            "→ URL changed: ".to_owned().concat(line_safe_clip(url.as_str(), 200).as_str()),
        );
    }
    if let Some(tab) = &effect.new_tab {
        items = items.with("new_tab", tab.wire.copy());
        human_lines.push(
            "→ New tab opened: ".to_owned().concat(
                line_safe_clip(tab.url.as_str(), 200).as_str(),
            ).concat(" (switched automatically)"),
        );
    }
    let downloads = effect.downloads;
    if downloads.len() > 0 {
        let ghost all = model::each(downloads@);
        let ghost before = text::texts(human_lines@);
        let mut wires: Vec<Json> = Vec::new();
        assert(before + download_lines(all).take(0) =~= before);
        for i in 0..downloads.len()
            invariant
                all == model::each(downloads@),
                wires@.len() == i,
                forall|j: int| 0 <= j < i ==> (#[trigger] wires@[j])@ == downloads@[j].wire@,
                text::texts(human_lines@) == before + download_lines(all).take(i as int),
        {
            let line = "→ ".to_owned().concat(downloads[i].line.as_str());
            proof {
                text::lemma_texts_push(human_lines@, line);
                assert(before + download_lines(all).take(i + 1) =~= (before + download_lines(
                    all,
                ).take(i as int)).push(line@));
            }
            human_lines.push(line);
            wires.push(downloads[i].wire.copy());
        }
        proof {
            json::lemma_views_index(wires@);
            assert(json::views(wires@) =~= Seq::new(all.len(), |i: int| all[i].1));
            assert(download_lines(all).take(downloads@.len() as int) =~= download_lines(all));
        }
        items = items.with("downloads", Json::Array(wires));
    }
    CommandOutput::List { items, human_lines, summary: found.summary }
}

/// An action follows only where a single element matches, and then it is for that element.
pub proof fn law_actions_are_unambiguous(
    elements: Seq<ElementView>,
    filter: FilterView,
    click: bool,
    fill: Option<Seq<char>>,
    max_elements: nat,
)
    ensures
        match selection(elements, filter, click, fill, max_elements) {
            Ok(s) => s.action is Some ==> {
                let found = matching(elements, filter);
                &&& found.len() == 1
                &&& element_matches(found[0], filter)
                &&& elements.contains(found[0])
                &&& match s.action->0 {
                    ActionView::Click(index, held) => {
                        &&& click
                        &&& index == found[0].index
                        &&& held == action::no_modifiers()
                    },
                    ActionView::Type(index, t, clear) => {
                        &&& !click
                        &&& index == found[0].index
                        &&& fill == Some(t)
                        &&& clear
                    },
                    _ => false,
                }
            },
            Err(_) => true,
        },
{
    model::lemma_picked(elements, |el: ElementView| element_matches(el, filter));
}

/// Every element that matches counts, and none that does not: the listing may be cut short, the
/// search is not.
pub proof fn law_find_is_exhaustive(elements: Seq<ElementView>, filter: FilterView, el: ElementView)
    ensures
        matching(elements, filter).contains(el) <==> elements.contains(el) && element_matches(
            el,
            filter,
        ),
{
    let pick = |el: ElementView| element_matches(el, filter);
    model::lemma_picked(elements, pick);
    let found = matching(elements, filter);
    if found.contains(el) {
        let i = choose|i: int| 0 <= i < found.len() && found[i] == el;
        assert(pick(found[i]));
    }
    if elements.contains(el) && element_matches(el, filter) {
        let i = choose|i: int| 0 <= i < elements.len() && elements[i] == el;
        assert(pick(elements[i]));
    }
}

/// Whether an element is one that the arguments look for, by its own fields: each argument that is
/// given is met, letters compared without case.
pub open spec fn looked_for(el: InteractiveElement, args: FindArgs) -> bool {
    let low = |t: Seq<char>| text::lowercase(t);
    let within = |part: Seq<char>, t: Seq<char>|
        exists|a: Seq<char>, b: Seq<char>| low(t) == #[trigger] (a + low(part) + b);
    &&& args.role matches Some(role) ==> low(el.tag@) == low(role@) || (el.role matches Some(own)
        && low(own@) == low(role@))
    &&& args.text matches Some(t) ==> within(t@, el.text@) || (el.name matches Some(own) && within(
        t@,
        own@,
    ))
    &&& args.label matches Some(label) ==> el.label matches Some(own) && within(label@, own@)
    &&& args.placeholder matches Some(p) ==> el.placeholder matches Some(own) && within(p@, own@)
    &&& args.tag matches Some(tag) ==> low(el.tag@) == low(tag@)
}

/// Whether places are those of the elements that the arguments look for: all of them, in order.
pub open spec fn are_found(at: Seq<int>, elements: Seq<InteractiveElement>, args: FindArgs) -> bool {
    &&& forall|i: int, j: int| 0 <= i < j < at.len() ==> at[i] < at[j]
    &&& forall|i: int| 0 <= i < at.len() ==> 0 <= #[trigger] at[i] < elements.len()
    &&& forall|k: int|
        0 <= k < elements.len() ==> (at.contains(k) <==> looked_for(#[trigger] elements[k], args))
}

proof fn lemma_looked_for(el: InteractiveElement, args: FindArgs)
    ensures
        element_matches(el@, filter_of(args)) <==> looked_for(el, args),
{
    let low = |t: Seq<char>| text::lowercase(t);
    assert forall|part: Seq<char>, t: Seq<char>| #[trigger] holds_like(t, part) <==> (exists|
        a: Seq<char>,
        b: Seq<char>,
    |
        low(t) == #[trigger] (a + low(part) + b)) by {
        text::law_parts(low(t), low(part));
    }
}

/// What `find` comes to, of a page that was captured: its listing counts exactly the elements that
/// the arguments look for and shows them in the order of the page; it fails as not found exactly
/// where there is none; and what follows is done to the only one, never to one of several.
pub proof fn law_find_reports_what_is_looked_for(
    elements: Vec<InteractiveElement>,
    args: FindArgs,
    max_elements: usize,
    r: Result<Selection, WebPilotError>,
) -> (at: Seq<int>)
    requires
        call_ensures(run, (Reply::Data(Some(elements)), args, max_elements), r),
        call_ensures(check, (&args,), Ok::<(), WebPilotError>(())),
    ensures
        are_found(at, elements@, args),
        at.len() == 0 ==> r matches Err(WebPilotError::SelectorNotFound { .. }),
        at.len() > 1 && (args.click || args.fill is Some) ==> r matches Err(
            WebPilotError::InvalidArgument { .. },
        ),
        at.len() == 1 || (at.len() > 0 && !args.click && args.fill is None) ==> (r matches Ok(s) && {
            let shown = if at.len() <= max_elements {
                at.len()
            } else {
                max_elements as nat
            };
            &&& s.items@.get("matches"@) matches Some(JsonView::Array(list)) && list.len() == shown
                && forall|i: int| 0 <= i < shown ==> #[trigger] list[i] == elements@[at[i]].wire@
            &&& s.items@.get("count"@) == Some(
                JsonView::Num(json::NumberView::Unsigned(at.len() as u64)),
            )
            &&& s.items@.get("matches_truncated"@) == Some(JsonView::Bool(shown < at.len()))
            &&& s.human_lines@.len() == shown
            &&& s.action is None <==> !args.click && args.fill is None
            &&& args.click ==> (s.action matches Some(Action::Click { index, modifiers }) && index
                == elements@[at[0]].index && !modifiers.ctrl && !modifiers.shift && !modifiers.alt
                && !modifiers.meta)
            &&& args.fill matches Some(t) ==> (s.action matches Some(
                Action::Type { index, text, clear },
            ) && index == elements@[at[0]].index && text@ == t@ && clear)
        }),
{
    reveal_strlit("matches");
    reveal_strlit("count");
    reveal_strlit("matches_truncated");
    assert("matches"@.len() == 7);
    assert("count"@.len() == 5);
    assert("matches_truncated"@.len() == 17);
    let all = model::each(elements@);
    let filter = filter_of(args);
    let pick = |el: ElementView| element_matches(el, filter);
    let at = model::law_picked_in_order(all, pick);
    assert(matching(all, filter) == model::picked(all, pick));
    assert forall|k: int| 0 <= k < elements@.len() implies (at.contains(k) <==> looked_for(
        #[trigger] elements@[k],
        args,
    )) by {
        lemma_looked_for(elements@[k], args);
        assert(all[k] == elements@[k]@);
        assert(pick(all[k]) == element_matches(all[k], filter));
    }
    if let Ok(s) = r {
        json::lemma_views_index(Seq::empty());
        text::lemma_texts_index(s.human_lines@);
        assert(s@.items == s.items@);
        assert(s@.action == model::maybe(s.action));
    }
    at
}

/// The arguments are refused exactly where they look for nothing, for a blank, or ask for two
/// actions; and refused arguments come to nothing else, whatever the page is.
pub proof fn law_refused_arguments(args: FindArgs, reply: Reply<Option<Vec<InteractiveElement>>>, max: nat)
    ensures
        refusal(args) is Some <==> {
            let blank = |t: Option<String>|
                t is Some && forall|i: int|
                    0 <= i < t->0@.len() ==> text::is_space(#[trigger] t->0@[i]);
            ||| args.role is None && args.text is None && args.label is None && args.placeholder
                is None && args.tag is None
            ||| blank(args.role)
            ||| blank(args.text)
            ||| blank(args.label)
            ||| blank(args.placeholder)
            ||| blank(args.tag)
            ||| args.click && args.fill is Some
        },
        refusal(args) matches Some(e) ==> e is InvalidArgument && run_outcome(reply, args, max)
            == Err::<SelectionView, ErrorView>(e),
        refusal(args) is None && reply is Error ==> run_outcome(reply, args, max) == Err::<
            SelectionView,
            ErrorView,
        >(reply->Error_0@),
        refusal(args) is None && reply is Data && reply->Data_0 is None ==> run_outcome(
            reply,
            args,
            max,
        ) == Err::<SelectionView, ErrorView>(ErrorView::NoPage),
        refusal(args) is None && reply is Unexpected ==> run_outcome(reply, args, max) is Err,
{
    let blank = |t: Option<String>|
        t is Some && forall|i: int| 0 <= i < t->0@.len() ==> text::is_space(#[trigger] t->0@[i]);
    assert forall|t: Option<String>| #[trigger] given_blank(t) <==> blank(t) by {
        if let Some(s) = t {
            text::law_trimmed(s@);
            let n = text::trimmed(s@);
            if n.len() > 0 {
                let (a, b) = choose|a: int, b: int|
                    0 <= a <= b <= s@.len() && n == #[trigger] s@.subrange(a, b);
                assert(n[0] == s@[a]);
            }
        }
    }
    assert(given_blank(args.role) == blank(args.role));
    assert(given_blank(args.text) == blank(args.text));
    assert(given_blank(args.label) == blank(args.label));
    assert(given_blank(args.placeholder) == blank(args.placeholder));
    assert(given_blank(args.tag) == blank(args.tag));
}

/// Arguments that are read are those that stand under their names: each filter is the text of its
/// own field, and what is absent or null asks for nothing.
pub proof fn law_arguments_are_those_of_their_names(
    fields: Map<Seq<char>, JsonView>,
    r: Result<FindArgs, String>,
)
    requires
        args_told(r) == args_of(JsonView::Object(fields)),
    ensures
        r matches Ok(args) ==> {
            let value = JsonView::Object(fields);
            let text_of = |name: Seq<char>|
                match value.get(name) {
                    Some(JsonView::Str(t)) => Some(t),
                    _ => None,
                };
            &&& model::maybe(args.role) == text_of("role"@)
            &&& model::maybe(args.text) == text_of("text"@)
            &&& model::maybe(args.label) == text_of("label"@)
            &&& model::maybe(args.placeholder) == text_of("placeholder"@)
            &&& model::maybe(args.tag) == text_of("tag"@)
            &&& model::maybe(args.fill) == text_of("fill"@)
            &&& args.click <==> value.get("click"@) == Some(JsonView::Bool(true))
        },
{
    let value = JsonView::Object(fields);
    assert(argument(value, 0) == value.get("role"@));
    assert(argument(value, 1) == value.get("text"@));
    assert(argument(value, 2) == value.get("label"@));
    assert(argument(value, 3) == value.get("placeholder"@));
    assert(argument(value, 4) == value.get("tag"@));
    assert(argument(value, 5) == value.get("click"@));
    assert(argument(value, 6) == value.get("fill"@));
}

/// A row shows the element's index, its tag, its id where it has one, its text on one line, and the
/// landmark where it stands in one.
pub proof fn law_rows_show_their_elements(el: ElementView)
    ensures
        ({
            let head = seq!['['] + text::decimal(el.index as nat) + seq![']', ' '] + el.tag;
            let id = if el.id is Some {
                seq!['#'] + text::one_line(el.id->0)
            } else {
                Seq::empty()
            };
            let shown = seq![' ', '"'] + text::one_line(el.text) + seq!['"'];
            let place = if el.landmark is Some {
                seq![' ', '@'] + text::one_line(el.landmark->0)
            } else {
                Seq::empty()
            };
            &&& element_row(el) == head + id + shown + place
            &&& short_row(el) == head + shown
        }),
{
    reveal_strlit("[");
    reveal_strlit("] ");
    reveal_strlit("#");
    reveal_strlit(" \"");
    reveal_strlit("\"");
    reveal_strlit(" @");
    assert("["@ =~= seq!['[']);
    assert("] "@ =~= seq![']', ' ']);
    assert("#"@ =~= seq!['#']);
    assert(" \""@ =~= seq![' ', '"']);
    assert("\""@ =~= seq!['"']);
    assert(" @"@ =~= seq![' ', '@']);
    let head = seq!['['] + text::decimal(el.index as nat) + seq![']', ' '] + el.tag;
    let shown = seq![' ', '"'] + text::one_line(el.text) + seq!['"'];
    assert(short_row(el) =~= head + shown);
    let id = if el.id is Some {
        seq!['#'] + text::one_line(el.id->0)
    } else {
        Seq::empty()
    };
    let place = if el.landmark is Some {
        seq![' ', '@'] + text::one_line(el.landmark->0)
    } else {
        Seq::empty()
    };
    assert(element_row(el) =~= head + id + shown + place);
}

/// What followed a find is told beside its listing, which stays as it was: where the page went, the
/// tab that opened, and each download, in the JSON and on a line of its own.
pub proof fn law_effects_are_told(
    found: SelectionView,
    url_changed: Option<Seq<char>>,
    new_tab: Option<protocol::TabView>,
    downloads: Seq<(Seq<char>, JsonView)>,
)
    requires
        found.items is Object,
        found.items.get("url_changed"@) is None,
        found.items.get("new_tab"@) is None,
        found.items.get("downloads"@) is None,
    ensures
        with_effects(found, url_changed, new_tab, downloads) matches OutputView::List(
            items,
            lines,
            summary,
        ) && {
            let url_line: nat = if url_changed is Some {
                1
            } else {
                0
            };
            let tab_line: nat = if new_tab is Some {
                1
            } else {
                0
            };
            &&& summary == found.summary
            &&& items.get("matches"@) == found.items.get("matches"@)
            &&& items.get("count"@) == found.items.get("count"@)
            &&& items.get("url_changed"@) == (match url_changed {
                Some(url) => Some(JsonView::Str(url)),
                None => None,
            })
            &&& items.get("new_tab"@) == (match new_tab {
                Some(tab) => Some(tab.wire),
                None => None,
            })
            &&& items.get("downloads"@) is Some <==> downloads.len() > 0
            &&& downloads.len() > 0 ==> (items.get("downloads"@) matches Some(JsonView::Array(list))
                && list.len() == downloads.len() && forall|i: int|
                0 <= i < downloads.len() ==> #[trigger] list[i] == downloads[i].1)
            &&& lines.len() == found.human_lines.len() + url_line + tab_line + downloads.len()
            &&& lines.take(found.human_lines.len() as int) == found.human_lines
            &&& forall|i: int|
                0 <= i < downloads.len() ==> lines[(lines.len() - downloads.len()) + i]
                    == seq!['→', ' '] + (#[trigger] downloads[i]).0
        },
{
    reveal_strlit("url_changed");
    reveal_strlit("new_tab");
    reveal_strlit("downloads");
    reveal_strlit("matches");
    reveal_strlit("count");
    assert("url_changed"@.len() == 11);
    assert("new_tab"@.len() == 7);
    assert("downloads"@.len() == 9);
    assert("matches"@.len() == 7);
    assert("count"@.len() == 5);
    assert("new_tab"@[0] != "matches"@[0]);
    reveal_strlit("→ ");
    assert("→ "@ =~= seq!['→', ' ']);
    if let OutputView::List(items, lines, summary) = with_effects(
        found,
        url_changed,
        new_tab,
        downloads,
    ) {
        assert(lines.take(found.human_lines.len() as int) =~= found.human_lines);
        let base = lines.len() - downloads.len();
        assert forall|i: int| 0 <= i < downloads.len() implies lines[base + i] == seq!['→', ' '] + (
        #[trigger] downloads[i]).0 by {
            assert(lines[base + i] == download_lines(downloads)[i]);
        }
    }
}

/// What the action that followed did is what was told of it, all of it; a failure is an error.
pub proof fn law_the_action_that_followed_is_told(d: ActionData, r: Result<ChainEffect, WebPilotError>, none: ChainEffect)
    requires
        call_ensures(chain_action, (Reply::Data(d),), r),
        call_ensures(ChainEffect::none, (), none),
    ensures
        r is Ok <==> d.success,
        r matches Ok(e) ==> e.url_changed == d.url_changed && e.new_tab == d.new_tab && e.downloads
            == d.downloads,
        none.url_changed is None && none.new_tab is None && none.downloads@.len() == 0,
{
}

/// What `find` prints at the end is the listing as it was, and what the action did: where the page went,
/// the tab that opened, and what was downloaded, in JSON and each on a line.
pub proof fn law_listings_end_with_the_effects(found: Selection, effect: ChainEffect, r: CommandOutput, key: Seq<char>)
    requires
        found.items@ is Object,
        found.items@.get("url_changed"@) is None,
        found.items@.get("new_tab"@) is None,
        found.items@.get("downloads"@) is None,
        call_ensures(finish, (found, effect), r),
    ensures
        r matches CommandOutput::List { items, human_lines, summary } && {
            &&& summary@ == found.summary@
            &&& key != "url_changed"@ && key != "new_tab"@ && key != "downloads"@ ==> items@.get(key)
                == found.items@.get(key)
            &&& items@.get("url_changed"@) == (match effect.url_changed {
                Some(u) => Some(JsonView::Str(u@)),
                None => None,
            })
            &&& items@.get("new_tab"@) == (match effect.new_tab {
                Some(t) => Some(t.wire@),
                None => None,
            })
            &&& items@.get("downloads"@) is Some <==> effect.downloads@.len() > 0
            &&& items@.get("downloads"@) matches Some(v) ==> (v matches JsonView::Array(list)
                && list.len() == effect.downloads@.len() && forall|i: int|
                0 <= i < list.len() ==> #[trigger] list[i] == effect.downloads@[i].wire@)
            &&& human_lines@.len() >= found.human_lines@.len()
            &&& forall|i: int|
                0 <= i < found.human_lines@.len() ==> (#[trigger] human_lines@[i])@
                    == found.human_lines@[i]@
        },
{
    reveal_strlit("url_changed");
    reveal_strlit("new_tab");
    reveal_strlit("downloads");
    assert("url_changed"@.len() == 11);
    assert("new_tab"@.len() == 7);
    assert("downloads"@.len() == 9);
    law_effects_are_told(
        found@,
        model::maybe(effect.url_changed),
        model::maybe(effect.new_tab),
        model::each(effect.downloads@),
    );
    if let CommandOutput::List { items, human_lines, summary } = r {
        text::lemma_texts_index(human_lines@);
        text::lemma_texts_index(found.human_lines@);
        let (all, before) = (text::texts(human_lines@), text::texts(found.human_lines@));
        assert forall|i: int| 0 <= i < found.human_lines@.len() implies (#[trigger] human_lines@[i])@
            == found.human_lines@[i]@ by {
            assert(all[i] == human_lines@[i]@);
            assert(before[i] == found.human_lines@[i]@);
            assert(all.take(before.len() as int)[i] == all[i]);
        }
    }
}

/// A filter shows each criterion that it has and no other: a role and a tag as they are, a text, label
/// and placeholder in quotes.
pub proof fn law_filters_show_their_criteria(f: ElementFilter, r: String)
    requires
        call_ensures(render_filter, (&f,), r),
    ensures
        f.role matches Some(v) ==> (f.text is None && f.label is None && f.placeholder is None && f.tag
            is None ==> r@ == "role="@ + v@),
        f.text matches Some(v) ==> (f.role is None && f.label is None && f.placeholder is None && f.tag
            is None ==> r@ == "text="@ + text::quoted(v@)),
        f.label matches Some(v) ==> (f.role is None && f.text is None && f.placeholder is None && f.tag
            is None ==> r@ == "label="@ + text::quoted(v@)),
        f.placeholder matches Some(v) ==> (f.role is None && f.text is None && f.label is None && f.tag
            is None ==> r@ == "placeholder="@ + text::quoted(v@)),
        f.tag matches Some(v) ==> (f.role is None && f.text is None && f.label is None
            && f.placeholder is None ==> r@ == "tag="@ + v@),
        f.role is None && f.text is None && f.label is None && f.placeholder is None && f.tag is None
            ==> r@ == "<no filter>"@,
        f.role is Some && f.tag is Some ==> text::has_prefix(r@, "role="@ + f.role->0@)
            && text::has_suffix(r@, " tag="@ + f.tag->0@),
{
    lemma_filter_shown(f@);
}

proof fn lemma_filter_shown(f: FilterView)
    ensures
        f.role is Some && f.text is None && f.label is None && f.placeholder is None && f.tag is None
            ==> rendered_filter(f) == "role="@ + f.role->0,
        f.role is None && f.text is Some && f.label is None && f.placeholder is None && f.tag is None
            ==> rendered_filter(f) == "text="@ + text::quoted(f.text->0),
        f.role is None && f.text is None && f.label is Some && f.placeholder is None && f.tag is None
            ==> rendered_filter(f) == "label="@ + text::quoted(f.label->0),
        f.role is None && f.text is None && f.label is None && f.placeholder is Some && f.tag is None
            ==> rendered_filter(f) == "placeholder="@ + text::quoted(f.placeholder->0),
        f.role is None && f.text is None && f.label is None && f.placeholder is None && f.tag is Some
            ==> rendered_filter(f) == "tag="@ + f.tag->0,
        f.role is Some && f.tag is Some ==> text::has_prefix(
            rendered_filter(f),
            "role="@ + f.role->0,
        ) && text::has_suffix(rendered_filter(f), " tag="@ + f.tag->0),
{
    let p1 = criterion(Seq::empty(), "role="@, f.role);
    let p2 = criterion(p1, "text="@, quoted_opt(f.text));
    let p3 = criterion(p2, "label="@, quoted_opt(f.label));
    let p4 = criterion(p3, "placeholder="@, quoted_opt(f.placeholder));
    let p5 = criterion(p4, "tag="@, f.tag);
    if p5.len() == 1 {
        lemma_joined_one(p5, " "@);
    }
    if f.role is Some && f.tag is Some {
        reveal_strlit(" ");
        reveal_strlit("tag=");
        reveal_strlit(" tag=");
        assert(" "@ + "tag="@ =~= " tag="@);
        assert(p5[0] == "role="@ + f.role->0);
        assert(p5.last() == "tag="@ + f.tag->0);
        lemma_joined_ends(p5, " "@);
        assert(" "@ + p5.last() =~= " tag="@ + f.tag->0);
    }
}

proof fn lemma_joined_one(parts: Seq<Seq<char>>, separator: Seq<char>)
    requires
        parts.len() == 1,
    ensures
        text::joined(parts, separator) == parts[0],
{
    assert(parts =~= seq![parts[0]]);
    text::law_joined(Seq::empty(), parts[0], separator);
}

proof fn lemma_joined_ends(parts: Seq<Seq<char>>, separator: Seq<char>)
    requires
        parts.len() > 0,
    ensures
        text::has_prefix(text::joined(parts, separator), parts[0]),
        parts.len() > 1 ==> text::has_suffix(
            text::joined(parts, separator),
            separator + parts.last(),
        ),
    decreases parts.len(),
{
    let all = text::joined(parts, separator);
    if parts.len() == 1 {
        lemma_joined_one(parts, separator);
        assert(all.take(all.len() as int) =~= all);
    } else {
        let front = parts.drop_last();
        let before = text::joined(front, separator);
        lemma_joined_ends(front, separator);
        text::law_joined(front, parts.last(), separator);
        assert(parts =~= front.push(parts.last()));
        assert(all =~= before + (separator + parts.last()));
        text::lemma_back(before, separator + parts.last());
        assert(all.take(parts[0].len() as int) =~= before.take(parts[0].len() as int));
    }
}

} // verus!
