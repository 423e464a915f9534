//! The actions that a tool's arguments describe, read strictly.
use crate::fields;
use crate::fields::{
    check_fields, check_value, is_among, missing_field, type_error, unknown_field, value_error,
    variant_error, Kind, Shape,
};
use crate::json;
use crate::json::{Json, JsonView};
use crate::model;
use crate::text::same;
use vstd::prelude::*;

verus! {

broadcast use json::group_json_views;

/// The modifier keys that are held during an action.
#[derive(Debug, Clone, Copy, PartialEq, Eq)]
pub struct Modifiers {
    pub ctrl: bool,
    pub shift: bool,
    pub alt: bool,
    pub meta: bool,
}

/// No modifier key.
pub open spec fn no_modifiers() -> Modifiers {
    Modifiers { ctrl: false, shift: false, alt: false, meta: false }
}

impl Modifiers {
    /// No modifier key.
    pub fn none() -> (r: Modifiers)
        ensures
            r == no_modifiers(),
    {
        Modifiers { ctrl: false, shift: false, alt: false, meta: false }
    }
}

/// Which way to scroll.
#[derive(Debug, Clone, Copy, PartialEq, Eq)]
pub enum ScrollDir {
    Up,
    Down,
}

/// An action on the page.
#[derive(Debug, PartialEq, Eq)]
pub enum Action {
    Click { index: u32, modifiers: Modifiers },
    Type { index: u32, text: String, clear: bool },
    KeyPress { key: String, modifiers: Modifiers },
    Scroll { direction: ScrollDir, amount: u32 },
    Select { index: u32, value: String },
}

/// What an action is.
pub enum ActionView {
    Click(u32, Modifiers),
    Type(u32, Seq<char>, bool),
    KeyPress(Seq<char>, Modifiers),
    Scroll(ScrollDir, u32),
    Select(u32, Seq<char>),
}

impl View for Action {
    type V = ActionView;

    open spec fn view(&self) -> ActionView {
        match self {
            Action::Click { index, modifiers } => ActionView::Click(*index, *modifiers),
            Action::Type { index, text, clear } => ActionView::Type(*index, text@, *clear),
            Action::KeyPress { key, modifiers } => ActionView::KeyPress(key@, *modifiers),
            Action::Scroll { direction, amount } => ActionView::Scroll(*direction, *amount),
            Action::Select { index, value } => ActionView::Select(*index, value@),
        }
    }
}

/// Which kind of action is meant.
#[derive(Debug, Clone, Copy, PartialEq, Eq, Structural)]
pub enum ActionKind {
    Click,
    Type,
    KeyPress,
    Scroll,
    Select,
}

/// The pixels that a scroll goes where none are given.
pub const DEFAULT_SCROLL: u32 = 600;

/// The name of a kind on the wire.
pub open spec fn kind_name(kind: ActionKind) -> Seq<char> {
    match kind {
        ActionKind::Click => "click"@,
        ActionKind::Type => "type"@,
        ActionKind::KeyPress => "key_press"@,
        ActionKind::Scroll => "scroll"@,
        ActionKind::Select => "select"@,
    }
}

/// The names of the fields of an action of a kind, in their order.
pub open spec fn known_fields(kind: ActionKind) -> Seq<Seq<char>> {
    match kind {
        ActionKind::Click => seq!["index"@, "modifiers"@],
        ActionKind::Type => seq!["index"@, "text"@, "clear"@],
        ActionKind::KeyPress => seq!["key"@, "modifiers"@],
        ActionKind::Scroll => seq!["direction"@, "amount"@],
        ActionKind::Select => seq!["index"@, "value"@],
    }
}

fn field_names(kind: ActionKind) -> (r: Vec<&'static str>)
    ensures
        fields::names_of(r@) == known_fields(kind),
{
    let mut names: Vec<&'static str> = Vec::new();
    match kind {
        ActionKind::Click => {
            names.push("index");
            names.push("modifiers");
        },
        ActionKind::Type => {
            names.push("index");
            names.push("text");
            names.push("clear");
        },
        ActionKind::KeyPress => {
            names.push("key");
            names.push("modifiers");
        },
        ActionKind::Scroll => {
            names.push("direction");
            names.push("amount");
        },
        ActionKind::Select => {
            names.push("index");
            names.push("value");
        },
    }
    assert(fields::names_of(names@) =~= known_fields(kind));
    names
}

/// The names of the modifier keys.
pub open spec fn modifier_names() -> Seq<Seq<char>> {
    seq!["ctrl"@, "shift"@, "alt"@, "meta"@]
}

fn key_names() -> (r: Vec<&'static str>)
    ensures
        fields::names_of(r@) == modifier_names(),
{
    let mut names: Vec<&'static str> = Vec::new();
    names.push("ctrl");
    names.push("shift");
    names.push("alt");
    names.push("meta");
    assert(fields::names_of(names@) =~= modifier_names());
    names
}

/// What tells of modifier keys: of each whether it is held.
pub struct KeysShape {}

impl Shape for KeysShape {
    open spec fn problem(&self, name: Seq<char>, value: JsonView) -> Option<Seq<char>> {
        if modifier_names().contains(name) {
            fields::trouble(Kind::Flag, value)
        } else {
            Some(fields::unknown(name, modifier_names()))
        }
    }

    fn check(&self, name: &str, value: &Json) -> (r: Option<String>) {
        let names = key_names();
        if is_among(name, &names) {
            check_value(Kind::Flag, value)
        } else {
            Some(unknown_field(name, &names))
        }
    }
}

/// What is wrong with what tells of modifier keys.
pub open spec fn keys_trouble(value: JsonView) -> Option<Seq<char>> {
    if value is Object {
        fields::first_problem(KeysShape {  }, value)
    } else {
        Some(fields::wrong_type(value, "struct Modifiers"@))
    }
}

fn check_keys(value: &Json) -> (r: Option<String>)
    ensures
        model::maybe(r) == keys_trouble(value@),
{
    if value.is_object() {
        check_fields(&KeysShape {  }, value)
    } else {
        Some(type_error(value, "struct Modifiers"))
    }
}

/// The names of the ways to scroll.
pub open spec fn ways() -> Seq<Seq<char>> {
    seq!["up"@, "down"@]
}

/// What is wrong with what tells which way to scroll.
pub open spec fn way_trouble(value: JsonView) -> Option<Seq<char>> {
    match value {
        JsonView::Str(s) => if ways().contains(s) {
            None
        } else {
            Some(fields::unknown_variant(s, ways()))
        },
        JsonView::Object(_) => Some(fields::wrong_value(value, "map with a single key"@)),
        _ => Some(fields::wrong_type(value, "string or map"@)),
    }
}

fn check_way(value: &Json) -> (r: Option<String>)
    ensures
        model::maybe(r) == way_trouble(value@),
{
    match value {
        Json::Str(s) => {
            let mut names: Vec<&str> = Vec::new();
            names.push("up");
            names.push("down");
            assert(fields::names_of(names@) =~= ways());
            if is_among(s.as_str(), &names) {
                None
            } else {
                Some(variant_error(s.as_str(), &names))
            }
        },
        Json::Object(_) => Some(value_error(value, "map with a single key")),
        _ => Some(type_error(value, "string or map")),
    }
}

/// What the fields of an action of a kind must be. Whatever the arguments say of the kind itself,
/// the tool decides.
pub struct ActionShape {
    pub kind: ActionKind,
}

/// What the fields of an action of a kind must be.
pub open spec fn shape_of(kind: ActionKind) -> ActionShape {
    ActionShape { kind }
}

impl Shape for ActionShape {
    open spec fn problem(&self, name: Seq<char>, value: JsonView) -> Option<Seq<char>> {
        if name == "kind"@ {
            None
        } else if !known_fields(self.kind).contains(name) {
            Some(fields::unknown(name, known_fields(self.kind)))
        } else if name == "index"@ || name == "amount"@ {
            fields::trouble(Kind::Count, value)
        } else if name == "modifiers"@ {
            keys_trouble(value)
        } else if name == "clear"@ {
            fields::trouble(Kind::Flag, value)
        } else if name == "direction"@ {
            way_trouble(value)
        } else {
            fields::trouble(Kind::Text, value)
        }
    }

    fn check(&self, name: &str, value: &Json) -> (r: Option<String>) {
        let names = field_names(self.kind);
        if same(name, "kind") {
            None
        } else if !is_among(name, &names) {
            Some(unknown_field(name, &names))
        } else if same(name, "index") || same(name, "amount") {
            check_value(Kind::Count, value)
        } else if same(name, "modifiers") {
            check_keys(value)
        } else if same(name, "clear") {
            check_value(Kind::Flag, value)
        } else if same(name, "direction") {
            check_way(value)
        } else {
            check_value(Kind::Text, value)
        }
    }
}

/// The fields that an action of a kind is never without, in their order.
pub open spec fn required_fields(kind: ActionKind) -> Seq<Seq<char>> {
    match kind {
        ActionKind::Click => seq!["index"@],
        ActionKind::Type => seq!["index"@, "text"@],
        ActionKind::KeyPress => seq!["key"@],
        ActionKind::Scroll => seq!["direction"@],
        ActionKind::Select => seq!["index"@, "value"@],
    }
}

/// The number in a field, `default` where it is absent.
pub open spec fn count_in(args: JsonView, name: Seq<char>, default: u32) -> u32 {
    match args.get(name) {
        Some(v) => match v.as_u64() {
            Some(n) => n as u32,
            None => default,
        },
        None => default,
    }
}

fn count(args: &Json, name: &str, default: u32) -> (r: u32)
    requires
        args@.get(name@) matches Some(v) ==> fields::trouble(Kind::Count, v) is None,
    ensures
        r == count_in(args@, name@, default),
{
    match args.get(name) {
        Some(v) => match v.as_u64() {
            Some(n) => n as u32,
            None => default,
        },
        None => default,
    }
}

/// The text in a field, nothing where there is none.
pub open spec fn text_in(args: JsonView, name: Seq<char>) -> Seq<char> {
    match args.get_str(name) {
        Some(t) => t,
        None => Seq::empty(),
    }
}

fn text(args: &Json, name: &str) -> (r: String)
    ensures
        r@ == text_in(args@, name@),
{
    match args.get_str(name) {
        Some(t) => t.to_owned(),
        None => String::new(),
    }
}

/// Whether a field says so; not where it is absent.
pub open spec fn flag_in(args: JsonView, name: Seq<char>) -> bool {
    args.get(name) == Some(JsonView::Bool(true))
}

fn flag(args: &Json, name: &str) -> (r: bool)
    ensures
        r == flag_in(args@, name@),
{
    match args.get(name) {
        Some(Json::Bool(b)) => *b,
        _ => false,
    }
}

/// The modifier keys that arguments tell of: none where they do not.
pub open spec fn modifiers_in(args: JsonView) -> Modifiers {
    let held = args.get_or_null("modifiers"@);
    Modifiers {
        ctrl: flag_in(held, "ctrl"@),
        shift: flag_in(held, "shift"@),
        alt: flag_in(held, "alt"@),
        meta: flag_in(held, "meta"@),
    }
}

fn modifiers(args: &Json) -> (r: Modifiers)
    ensures
        r == modifiers_in(args@),
{
    match args.get("modifiers") {
        Some(held) => Modifiers {
            ctrl: flag(held, "ctrl"),
            shift: flag(held, "shift"),
            alt: flag(held, "alt"),
            meta: flag(held, "meta"),
        },
        None => Modifiers::none(),
    }
}

/// Which way arguments say to scroll.
pub open spec fn way_in(args: JsonView) -> ScrollDir {
    if args.get_str("direction"@) == Some("up"@) {
        ScrollDir::Up
    } else {
        ScrollDir::Down
    }
}

/// The action of a kind whose fields are all as they must be.
pub open spec fn described(kind: ActionKind, args: JsonView) -> ActionView {
    match kind {
        ActionKind::Click => ActionView::Click(count_in(args, "index"@, 0), modifiers_in(args)),
        ActionKind::Type => ActionView::Type(
            count_in(args, "index"@, 0),
            text_in(args, "text"@),
            flag_in(args, "clear"@),
        ),
        ActionKind::KeyPress => ActionView::KeyPress(text_in(args, "key"@), modifiers_in(args)),
        ActionKind::Scroll => ActionView::Scroll(
            way_in(args),
            count_in(args, "amount"@, DEFAULT_SCROLL),
        ),
        ActionKind::Select => ActionView::Select(
            count_in(args, "index"@, 0),
            text_in(args, "value"@),
        ),
    }
}

/// The action of a kind that arguments describe, or what is wrong with them: first with a field
/// that is there, then that one is not. Arguments that are no object have no fields.
pub open spec fn action_of(kind: ActionKind, args: JsonView) -> Result<ActionView, Seq<char>> {
    let needed = required_fields(kind);
    match fields::first_problem(ActionShape { kind }, args) {
        Some(told) => Err(told),
        None => if args.get(needed[0]) is None {
            Err(fields::missing(needed[0]))
        } else if needed.len() > 1 && args.get(needed[1]) is None {
            Err(fields::missing(needed[1]))
        } else {
            Ok(described(kind, args))
        },
    }
}

fn missing_of(args: &Json, first: &str, second: Option<&str>) -> (r: Option<String>)
    ensures
        model::maybe(r) == if args@.get(first@) is None {
            Some(fields::missing(first@))
        } else if second is Some && args@.get(second->0@) is None {
            Some(fields::missing(second->0@))
        } else {
            None
        },
{
    if args.get(first).is_none() {
        return Some(missing_field(first));
    }
    match second {
        Some(name) => if args.get(name).is_none() {
            Some(missing_field(name))
        } else {
            None
        },
        None => None,
    }
}

/// A field that is there and known is as it must be where nothing is wrong with any.
proof fn lemma_fields_are_fit(kind: ActionKind, args: JsonView, name: Seq<char>)
    requires
        fields::first_problem(shape_of(kind), args) is None,
    ensures
        args.get(name) is Some ==> shape_of(kind).problem(name, args.get(name)->0) is None,
{
    if args.get(name) is Some {
        assert(!fields::is_wrong(ActionShape { kind }, args, name));
    }
}

/// The model of what reading an action gives.
pub open spec fn read_outcome(r: Result<Action, String>) -> Result<ActionView, Seq<char>> {
    match r {
        Ok(a) => Ok(a@),
        Err(e) => Err(e@),
    }
}

/// The keys that are held, as the wire has them.
pub open spec fn modifiers_wire(m: Modifiers) -> JsonView {
    JsonView::object().with("ctrl"@, JsonView::Bool(m.ctrl)).with(
        "shift"@,
        JsonView::Bool(m.shift),
    ).with("alt"@, JsonView::Bool(m.alt)).with("meta"@, JsonView::Bool(m.meta))
}

fn modifiers_json(m: Modifiers) -> (r: Json)
    ensures
        r@ == modifiers_wire(m),
{
    Json::object().with("ctrl", Json::Bool(m.ctrl)).with("shift", Json::Bool(m.shift)).with(
        "alt",
        Json::Bool(m.alt),
    ).with("meta", Json::Bool(m.meta))
}

/// The kind of an action.
pub open spec fn kind_of(a: ActionView) -> ActionKind {
    match a {
        ActionView::Click(..) => ActionKind::Click,
        ActionView::Type(..) => ActionKind::Type,
        ActionView::KeyPress(..) => ActionKind::KeyPress,
        ActionView::Scroll(..) => ActionKind::Scroll,
        ActionView::Select(..) => ActionKind::Select,
    }
}

/// An action as the wire has it: every field, and the kind.
pub open spec fn wire(a: ActionView) -> JsonView {
    let tagged = JsonView::object().with("kind"@, JsonView::Str(kind_name(kind_of(a))));
    match a {
        ActionView::Click(index, m) => tagged.with("index"@, JsonView::number(index as u64)).with(
            "modifiers"@,
            modifiers_wire(m),
        ),
        ActionView::Type(index, text, clear) => tagged.with(
            "index"@,
            JsonView::number(index as u64),
        ).with("text"@, JsonView::Str(text)).with("clear"@, JsonView::Bool(clear)),
        ActionView::KeyPress(key, m) => tagged.with("key"@, JsonView::Str(key)).with(
            "modifiers"@,
            modifiers_wire(m),
        ),
        ActionView::Scroll(way, amount) => tagged.with(
            "direction"@,
            JsonView::Str(
                match way {
                    ScrollDir::Up => "up"@,
                    ScrollDir::Down => "down"@,
                },
            ),
        ).with("amount"@, JsonView::number(amount as u64)),
        ActionView::Select(index, value) => tagged.with(
            "index"@,
            JsonView::number(index as u64),
        ).with("value"@, JsonView::Str(value)),
    }
}

impl Action {
    /// The action of a kind that arguments describe. A field that is missing, of the wrong kind or
    /// unknown is an error, and the error says what is wrong.
    pub fn read(kind: ActionKind, args: &Json) -> (r: Result<Action, String>)
        ensures
            read_outcome(r) == action_of(kind, args@),
    {
        if let Some(told) = check_fields(&ActionShape { kind }, args) {
            return Err(told);
        }
        let lacking = match kind {
            ActionKind::Click => missing_of(args, "index", None),
            ActionKind::Type => missing_of(args, "index", Some("text")),
            ActionKind::KeyPress => missing_of(args, "key", None),
            ActionKind::Scroll => missing_of(args, "direction", None),
            ActionKind::Select => missing_of(args, "index", Some("value")),
        };
        if let Some(told) = lacking {
            return Err(told);
        }
        proof {
            lemma_names_differ();
            lemma_fields_are_fit(kind, args@, "index"@);
            lemma_fields_are_fit(kind, args@, "amount"@);
            let known = known_fields(kind);
            assert(known.contains(known[0]));
            assert(known.contains(known[1]));
        }
        Ok(
            match kind {
                ActionKind::Click => Action::Click {
                    index: count(args, "index", 0),
                    modifiers: modifiers(args),
                },
                ActionKind::Type => Action::Type {
                    index: count(args, "index", 0),
                    text: text(args, "text"),
                    clear: flag(args, "clear"),
                },
                ActionKind::KeyPress => Action::KeyPress {
                    key: text(args, "key"),
                    modifiers: modifiers(args),
                },
                ActionKind::Scroll => Action::Scroll {
                    direction: match args.get_str("direction") {
                        Some(way) => if same(way, "up") {
                            ScrollDir::Up
                        } else {
                            ScrollDir::Down
                        },
                        None => ScrollDir::Down,
                    },
                    amount: count(args, "amount", DEFAULT_SCROLL),
                },
                ActionKind::Select => Action::Select {
                    index: count(args, "index", 0),
                    value: text(args, "value"),
                },
            },
        )
    }

    /// The action as the wire has it.
    pub fn to_json(&self) -> (r: Json)
        ensures
            r@ == wire(self@),
    {
        let tagged = Json::object();
        match self {
            Action::Click { index, modifiers } => tagged.with("kind", Json::string("click")).with(
                "index",
                Json::number(*index as u64),
            ).with("modifiers", modifiers_json(*modifiers)),
            Action::Type { index, text, clear } => tagged.with("kind", Json::string("type")).with(
                "index",
                Json::number(*index as u64),
            ).with("text", Json::string(text.as_str())).with("clear", Json::Bool(*clear)),
            Action::KeyPress { key, modifiers } => tagged.with(
                "kind",
                Json::string("key_press"),
            ).with("key", Json::string(key.as_str())).with("modifiers", modifiers_json(*modifiers)),
            Action::Scroll { direction, amount } => tagged.with(
                "kind",
                Json::string("scroll"),
            ).with(
                "direction",
                Json::string(
                    match direction {
                        ScrollDir::Up => "up",
                        ScrollDir::Down => "down",
                    },
                ),
            ).with("amount", Json::number(*amount as u64)),
            Action::Select { index, value } => tagged.with("kind", Json::string("select")).with(
                "index",
                Json::number(*index as u64),
            ).with("value", Json::string(value.as_str())),
        }
    }
}

/// No two of the names that stand together are the same.
proof fn lemma_names_differ()
    ensures
        "kind"@ != "index"@,
        "kind"@ != "modifiers"@,
        "kind"@ != "text"@,
        "kind"@ != "clear"@,
        "kind"@ != "key"@,
        "kind"@ != "direction"@,
        "kind"@ != "amount"@,
        "kind"@ != "value"@,
        "index"@ != "modifiers"@,
        "index"@ != "amount"@,
        "index"@ != "direction"@,
        "index"@ != "key"@,
        "index"@ != "text"@,
        "index"@ != "clear"@,
        "index"@ != "value"@,
        "text"@ != "clear"@,
        "text"@ != "amount"@,
        "text"@ != "modifiers"@,
        "text"@ != "direction"@,
        "clear"@ != "amount"@,
        "clear"@ != "modifiers"@,
        "value"@ != "amount"@,
        "value"@ != "modifiers"@,
        "value"@ != "clear"@,
        "value"@ != "direction"@,
        "key"@ != "modifiers"@,
        "key"@ != "amount"@,
        "key"@ != "clear"@,
        "key"@ != "direction"@,
        "modifiers"@ != "amount"@,
        "direction"@ != "modifiers"@,
        "direction"@ != "clear"@,
        "direction"@ != "amount"@,
        "ctrl"@ != "shift"@,
        "ctrl"@ != "alt"@,
        "ctrl"@ != "meta"@,
        "shift"@ != "alt"@,
        "shift"@ != "meta"@,
        "alt"@ != "meta"@,
        "up"@ != "down"@,
{
    reveal_strlit("kind");
    reveal_strlit("index");
    reveal_strlit("modifiers");
    reveal_strlit("text");
    reveal_strlit("clear");
    reveal_strlit("key");
    reveal_strlit("direction");
    reveal_strlit("amount");
    reveal_strlit("value");
    reveal_strlit("ctrl");
    reveal_strlit("shift");
    reveal_strlit("alt");
    reveal_strlit("meta");
    reveal_strlit("up");
    reveal_strlit("down");
    assert("kind"@.len() == 4 && "index"@.len() == 5 && "modifiers"@.len() == 9);
    assert("text"@.len() == 4 && "clear"@.len() == 5 && "key"@.len() == 3 && "value"@.len() == 5);
    assert("direction"@.len() == 9 && "amount"@.len() == 6);
    assert("ctrl"@.len() == 4 && "shift"@.len() == 5 && "alt"@.len() == 3 && "meta"@.len() == 4);
    assert("up"@.len() == 2 && "down"@.len() == 4);
    assert("kind"@[0] == 'k' && "text"@[0] == 't');
    assert("ctrl"@[0] == 'c' && "meta"@[0] == 'm');
    assert("index"@[0] == 'i' && "clear"@[0] == 'c' && "value"@[0] == 'v');
    assert("direction"@[0] == 'd' && "modifiers"@[0] == 'm');
}

/// What is written on the wire is read back as the same action: no field is lost, and none is
/// made up.
pub proof fn law_wire_reads_back(a: ActionView)
    ensures
        action_of(kind_of(a), wire(a)) == Ok::<ActionView, Seq<char>>(a),
{
    lemma_names_differ();
    let kind = kind_of(a);
    let names = known_fields(kind);
    assert(names.contains(names[0]));
    assert(names.contains(names[1]));
    if a is Type {
        assert(names.contains(names[2]));
    }
    match a {
        ActionView::Click(_, m) => lemma_modifiers_are_fit(m),
        ActionView::KeyPress(_, m) => lemma_modifiers_are_fit(m),
        _ => {},
    }
    assert(ways()[0] == "up"@ && ways()[1] == "down"@);
    assert(ways().contains(ways()[0]) && ways().contains(ways()[1]));
    assert forall|name: Seq<char>| !fields::is_wrong(ActionShape { kind }, wire(a), name) by {}
    assert(fields::first_problem(ActionShape { kind }, wire(a)) is None);
}

proof fn lemma_modifiers_are_fit(m: Modifiers)
    ensures
        keys_trouble(modifiers_wire(m)) is None,
        flag_in(modifiers_wire(m), "ctrl"@) == m.ctrl,
        flag_in(modifiers_wire(m), "shift"@) == m.shift,
        flag_in(modifiers_wire(m), "alt"@) == m.alt,
        flag_in(modifiers_wire(m), "meta"@) == m.meta,
{
    lemma_names_differ();
    let names = modifier_names();
    assert(names.contains(names[0]));
    assert(names.contains(names[1]));
    assert(names.contains(names[2]));
    assert(names.contains(names[3]));
    assert forall|name: Seq<char>| !fields::is_wrong(KeysShape {  }, modifiers_wire(m), name) by {}
}

/// A field that an action of the kind does not have is refused, whatever else is there: nothing
/// that was asked for is dropped in silence.
pub proof fn law_unknown_fields_are_refused(kind: ActionKind, args: JsonView, key: Seq<char>)
    requires
        args.get(key) is Some,
        key != "kind"@,
        !known_fields(kind).contains(key),
    ensures
        action_of(kind, args) is Err,
{
    assert(fields::is_wrong(ActionShape { kind }, args, key));
}

/// Whether a field says so.
pub open spec fn says(args: JsonView, key: Seq<char>) -> bool {
    args.get(key) == Some(JsonView::Bool(true))
}

/// Whether modifier keys are those that arguments tell of, each under its own name.
pub open spec fn are_held(m: Modifiers, args: JsonView) -> bool {
    let held = |key: Seq<char>| args.get("modifiers"@) is Some && says(args.get("modifiers"@)->0, key);
    &&& m.ctrl == held("ctrl"@)
    &&& m.shift == held("shift"@)
    &&& m.alt == held("alt"@)
    &&& m.meta == held("meta"@)
}

/// Whether a field holds a number.
pub open spec fn numbers(args: JsonView, key: Seq<char>, n: u32) -> bool {
    args.get(key) == Some(JsonView::Num(json::NumberView::Unsigned(n as u64)))
}

/// An action that is read is the one that the arguments describe: of the kind that was asked for,
/// on the element, with the text, the keys and the way that stand under their names, and nothing
/// else where a field is left out.
pub proof fn law_actions_are_as_described(kind: ActionKind, args: Json, r: Result<Action, String>)
    requires
        call_ensures(Action::read, (kind, &args), r),
    ensures
        r matches Ok(a) ==> match a {
            Action::Click { index, modifiers } => {
                &&& kind == ActionKind::Click
                &&& numbers(args@, "index"@, index)
                &&& are_held(modifiers, args@)
            },
            Action::Type { index, text, clear } => {
                &&& kind == ActionKind::Type
                &&& numbers(args@, "index"@, index)
                &&& args@.get("text"@) == Some(JsonView::Str(text@))
                &&& clear == says(args@, "clear"@)
            },
            Action::KeyPress { key, modifiers } => {
                &&& kind == ActionKind::KeyPress
                &&& args@.get("key"@) == Some(JsonView::Str(key@))
                &&& are_held(modifiers, args@)
            },
            Action::Scroll { direction, amount } => {
                &&& kind == ActionKind::Scroll
                &&& args@.get("direction"@) == Some(
                    JsonView::Str(
                        match direction {
                            ScrollDir::Up => "up"@,
                            ScrollDir::Down => "down"@,
                        },
                    ),
                )
                &&& numbers(args@, "amount"@, amount) || (args@.get("amount"@) is None && amount
                    == 600)
            },
            Action::Select { index, value } => {
                &&& kind == ActionKind::Select
                &&& numbers(args@, "index"@, index)
                &&& args@.get("value"@) == Some(JsonView::Str(value@))
            },
        },
{
    lemma_names_differ();
    if let Ok(a) = r {
        lemma_fields_are_fit(kind, args@, "index"@);
        lemma_fields_are_fit(kind, args@, "text"@);
        lemma_fields_are_fit(kind, args@, "key"@);
        lemma_fields_are_fit(kind, args@, "value"@);
        lemma_fields_are_fit(kind, args@, "direction"@);
        lemma_fields_are_fit(kind, args@, "amount"@);
        let known = known_fields(kind);
        assert(known.contains(known[0]));
        assert(known.contains(known[1]));
        assert(a@ == described(kind, args@));
    }
}

/// What may be left out may: an action without its optional field is read with no key held, nothing
/// cleared, or the way a scroll goes by itself.
pub proof fn law_optional_fields_may_be_left_out(a: ActionView)
    ensures
        action_of(kind_of(a), wire(a).without("modifiers"@)) == Ok::<ActionView, Seq<char>>(
            match a {
                ActionView::Click(index, _) => ActionView::Click(
                    index,
                    Modifiers { ctrl: false, shift: false, alt: false, meta: false },
                ),
                ActionView::KeyPress(key, _) => ActionView::KeyPress(
                    key,
                    Modifiers { ctrl: false, shift: false, alt: false, meta: false },
                ),
                other => other,
            },
        ),
        a matches ActionView::Type(index, text, _) ==> action_of(
            ActionKind::Type,
            wire(a).without("clear"@),
        ) == Ok::<ActionView, Seq<char>>(ActionView::Type(index, text, false)),
        a matches ActionView::Scroll(way, _) ==> action_of(
            ActionKind::Scroll,
            wire(a).without("amount"@),
        ) == Ok::<ActionView, Seq<char>>(ActionView::Scroll(way, 600)),
        action_of(kind_of(a), wire(a).without("kind"@)) == Ok::<ActionView, Seq<char>>(a),
{
    lemma_names_differ();
    law_wire_reads_back(a);
    let kind = kind_of(a);
    let shape = ActionShape { kind };
    assert forall|name: Seq<char>| !fields::is_wrong(shape, wire(a), name) by {}
    assert forall|name: Seq<char>| !fields::is_wrong(shape, wire(a).without("modifiers"@), name) by {
        assert(!fields::is_wrong(shape, wire(a), name));
    }
    assert forall|name: Seq<char>| !fields::is_wrong(shape, wire(a).without("clear"@), name) by {
        assert(!fields::is_wrong(shape, wire(a), name));
    }
    assert forall|name: Seq<char>| !fields::is_wrong(shape, wire(a).without("amount"@), name) by {
        assert(!fields::is_wrong(shape, wire(a), name));
    }
    assert forall|name: Seq<char>| !fields::is_wrong(shape, wire(a).without("kind"@), name) by {
        assert(!fields::is_wrong(shape, wire(a), name));
    }
    match a {
        ActionView::Click(_, m) => lemma_modifiers_are_fit(m),
        ActionView::KeyPress(_, m) => lemma_modifiers_are_fit(m),
        _ => {},
    }
    assert(wire(a).without("modifiers"@).get("modifiers"@) is None);
}

/// An action without one of the fields that it must have is refused.
pub proof fn law_needed_fields_are_missed(args: JsonView)
    ensures
        args.get("index"@) is None ==> action_of(ActionKind::Click, args) is Err && action_of(
            ActionKind::Type,
            args,
        ) is Err && action_of(ActionKind::Select, args) is Err,
        args.get("text"@) is None ==> action_of(ActionKind::Type, args) is Err,
        args.get("key"@) is None ==> action_of(ActionKind::KeyPress, args) is Err,
        args.get("direction"@) is None ==> action_of(ActionKind::Scroll, args) is Err,
        args.get("value"@) is None ==> action_of(ActionKind::Select, args) is Err,
{
}

/// An action goes on the wire with its kind and each of its fields under its own name.
pub proof fn law_actions_are_written(a: Action, r: Json)
    requires
        call_ensures(Action::to_json, (&a,), r),
    ensures
        match a {
            Action::Click { index, modifiers } => {
                &&& r@.get("kind"@) == Some(JsonView::Str("click"@))
                &&& numbers(r@, "index"@, index)
                &&& are_held(modifiers, r@)
            },
            Action::Type { index, text, clear } => {
                &&& r@.get("kind"@) == Some(JsonView::Str("type"@))
                &&& numbers(r@, "index"@, index)
                &&& r@.get("text"@) == Some(JsonView::Str(text@))
                &&& r@.get("clear"@) == Some(JsonView::Bool(clear))
            },
            Action::KeyPress { key, modifiers } => {
                &&& r@.get("kind"@) == Some(JsonView::Str("key_press"@))
                &&& r@.get("key"@) == Some(JsonView::Str(key@))
                &&& are_held(modifiers, r@)
            },
            Action::Scroll { direction, amount } => {
                &&& r@.get("kind"@) == Some(JsonView::Str("scroll"@))
                &&& r@.get("direction"@) == Some(
                    JsonView::Str(
                        match direction {
                            ScrollDir::Up => "up"@,
                            ScrollDir::Down => "down"@,
                        },
                    ),
                )
                &&& numbers(r@, "amount"@, amount)
            },
            Action::Select { index, value } => {
                &&& r@.get("kind"@) == Some(JsonView::Str("select"@))
                &&& numbers(r@, "index"@, index)
                &&& r@.get("value"@) == Some(JsonView::Str(value@))
            },
        },
{
    lemma_names_differ();
    match a@ {
        ActionView::Click(_, m) => lemma_modifiers_are_fit(m),
        ActionView::KeyPress(_, m) => lemma_modifiers_are_fit(m),
        _ => {},
    }
}

} // verus!
