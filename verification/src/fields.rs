//! Reading a value strictly: what is missing, of the wrong kind or unknown is told, never passed
//! over. The words are those that derived readers of JSON use.
use crate::json;
use crate::json::{Json, JsonView, Number, NumberView};
use crate::text;
use crate::text::{debug_text, dec, in_order, same, signed_dec};
use vstd::prelude::*;
use vstd::string::StringExecFns;

verus! {

broadcast use json::group_json_views;

/// What a value is called where another was expected.
pub open spec fn called(value: JsonView) -> Seq<char> {
    match value {
        JsonView::Null => "null"@,
        JsonView::Bool(b) => if b {
            "boolean `true`"@
        } else {
            "boolean `false`"@
        },
        JsonView::Num(NumberView::Unsigned(n)) => "integer `"@ + text::decimal(n as nat) + "`"@,
        JsonView::Num(NumberView::Negative(n)) => "integer `"@ + text::signed_decimal(n as int)
            + "`"@,
        JsonView::Num(NumberView::Other(t)) => "floating point `"@ + t + "`"@,
        JsonView::Str(s) => "string "@ + text::quoted(s),
        JsonView::Array(_) => "sequence"@,
        JsonView::Object(_) => "map"@,
    }
}

fn call(value: &Json) -> (r: String)
    ensures
        r@ == called(value@),
{
    match value {
        Json::Null => "null".to_owned(),
        Json::Bool(b) => if *b {
            "boolean `true`".to_owned()
        } else {
            "boolean `false`".to_owned()
        },
        Json::Num(Number::Unsigned(n)) => "integer `".to_owned().concat(dec(*n).as_str()).concat(
            "`",
        ),
        Json::Num(Number::Negative(n)) => "integer `".to_owned().concat(
            signed_dec(*n).as_str(),
        ).concat("`"),
        Json::Num(Number::Other(t)) => "floating point `".to_owned().concat(t.as_str()).concat("`"),
        Json::Str(s) => "string ".to_owned().concat(debug_text(s.as_str()).as_str()),
        Json::Array(_) => "sequence".to_owned(),
        Json::Object(_) => "map".to_owned(),
    }
}

/// What is told of a value of the wrong type.
pub open spec fn wrong_type(value: JsonView, expected: Seq<char>) -> Seq<char> {
    "invalid type: "@ + called(value) + ", expected "@ + expected
}

/// What is told of a value of the wrong type.
pub fn type_error(value: &Json, expected: &str) -> (r: String)
    ensures
        r@ == wrong_type(value@, expected@),
{
    "invalid type: ".to_owned().concat(call(value).as_str()).concat(", expected ").concat(expected)
}

/// What is told of a value of the right type that cannot be taken.
pub open spec fn wrong_value(value: JsonView, expected: Seq<char>) -> Seq<char> {
    "invalid value: "@ + called(value) + ", expected "@ + expected
}

/// What is told of a value of the right type that cannot be taken.
pub fn value_error(value: &Json, expected: &str) -> (r: String)
    ensures
        r@ == wrong_value(value@, expected@),
{
    "invalid value: ".to_owned().concat(call(value).as_str()).concat(", expected ").concat(expected)
}

/// The names of what a list holds.
pub open spec fn names_of(names: Seq<&str>) -> Seq<Seq<char>> {
    Seq::new(names.len(), |i: int| names[i]@)
}

/// Names as a choice.
pub open spec fn choice(names: Seq<Seq<char>>) -> Seq<char> {
    let ticked = Seq::new(names.len(), |i: int| "`"@ + names[i] + "`"@);
    if names.len() == 1 {
        ticked[0]
    } else if names.len() == 2 {
        ticked[0] + " or "@ + ticked[1]
    } else {
        "one of "@ + text::joined(ticked, ", "@)
    }
}

fn choose_among(names: &Vec<&str>) -> (r: String)
    ensures
        r@ == choice(names_of(names@)),
{
    let ghost ticked = Seq::new(names@.len(), |i: int| "`"@ + names_of(names@)[i] + "`"@);
    let mut out: Vec<String> = Vec::new();
    for i in 0..names.len()
        invariant
            ticked == Seq::new(names@.len(), |i: int| "`"@ + names_of(names@)[i] + "`"@),
            out@.len() == i,
            forall|j: int| 0 <= j < i ==> (#[trigger] out@[j])@ == ticked[j],
    {
        out.push("`".to_owned().concat(names[i]).concat("`"));
    }
    proof {
        text::lemma_texts_index(out@);
        assert(text::texts(out@) =~= ticked);
    }
    if out.len() == 1 {
        out[0].clone()
    } else if out.len() == 2 {
        out[0].clone().concat(" or ").concat(out[1].as_str())
    } else {
        "one of ".to_owned().concat(text::join(&out, ", ").as_str())
    }
}

/// What is told of a field that is not there.
pub open spec fn missing(name: Seq<char>) -> Seq<char> {
    "missing field `"@ + name + "`"@
}

/// What is told of a field that is not there.
pub fn missing_field(name: &str) -> (r: String)
    ensures
        r@ == missing(name@),
{
    "missing field `".to_owned().concat(name).concat("`")
}

/// What is told of a field of an unknown name.
pub open spec fn unknown(name: Seq<char>, names: Seq<Seq<char>>) -> Seq<char> {
    "unknown field `"@ + name + "`, expected "@ + choice(names)
}

/// What is told of a field of an unknown name.
pub fn unknown_field(name: &str, names: &Vec<&str>) -> (r: String)
    ensures
        r@ == unknown(name@, names_of(names@)),
{
    "unknown field `".to_owned().concat(name).concat("`, expected ").concat(
        choose_among(names).as_str(),
    )
}

/// What is told of a name that stands for nothing.
pub open spec fn unknown_variant(name: Seq<char>, names: Seq<Seq<char>>) -> Seq<char> {
    "unknown variant `"@ + name + "`, expected "@ + choice(names)
}

/// What is told of a name that stands for nothing.
pub fn variant_error(name: &str, names: &Vec<&str>) -> (r: String)
    ensures
        r@ == unknown_variant(name@, names_of(names@)),
{
    "unknown variant `".to_owned().concat(name).concat("`, expected ").concat(
        choose_among(names).as_str(),
    )
}

/// Whether a name is one of a list.
pub fn is_among(name: &str, names: &Vec<&str>) -> (r: bool)
    ensures
        r == names_of(names@).contains(name@),
{
    for i in 0..names.len()
        invariant
            forall|j: int| 0 <= j < i ==> (#[trigger] names@[j])@ != name@,
    {
        if same(names[i], name) {
            assert(names_of(names@)[i as int] == name@);
            return true;
        }
    }
    false
}

/// What the value of a field must be.
#[derive(Debug, Clone, Copy, PartialEq, Eq, Structural)]
pub enum Kind {
    Text,
    /// A text, or null for none.
    OptionalText,
    Flag,
    /// A number that is not negative and fits 32 bits.
    Count,
}

/// What is wrong with a value, where something is.
pub open spec fn trouble(kind: Kind, value: JsonView) -> Option<Seq<char>> {
    match (kind, value) {
        (Kind::Text, JsonView::Str(_)) => None,
        (Kind::Text, _) => Some(wrong_type(value, "a string"@)),
        (Kind::OptionalText, JsonView::Null) => None,
        (Kind::OptionalText, JsonView::Str(_)) => None,
        (Kind::OptionalText, _) => Some(wrong_type(value, "a string"@)),
        (Kind::Flag, JsonView::Bool(_)) => None,
        (Kind::Flag, _) => Some(wrong_type(value, "a boolean"@)),
        (Kind::Count, JsonView::Num(NumberView::Unsigned(n))) => if n <= u32::MAX {
            None
        } else {
            Some(wrong_value(value, "u32"@))
        },
        (Kind::Count, JsonView::Num(NumberView::Negative(_))) => Some(wrong_value(value, "u32"@)),
        (Kind::Count, _) => Some(wrong_type(value, "u32"@)),
    }
}

/// What is wrong with a value, where something is.
pub fn check_value(kind: Kind, value: &Json) -> (r: Option<String>)
    ensures
        crate::model::maybe(r) == trouble(kind, value@),
{
    match kind {
        Kind::Text => match value {
            Json::Str(_) => None,
            _ => Some(type_error(value, "a string")),
        },
        Kind::OptionalText => match value {
            Json::Null => None,
            Json::Str(_) => None,
            _ => Some(type_error(value, "a string")),
        },
        Kind::Flag => match value {
            Json::Bool(_) => None,
            _ => Some(type_error(value, "a boolean")),
        },
        Kind::Count => match value {
            Json::Num(Number::Unsigned(n)) => if *n <= u32::MAX as u64 {
                None
            } else {
                Some(value_error(value, "u32"))
            },
            Json::Num(Number::Negative(_)) => Some(value_error(value, "u32")),
            _ => Some(type_error(value, "u32")),
        },
    }
}

/// What an object must be like: what is wrong with a field, by its name and its value.
pub trait Shape {
    spec fn problem(&self, name: Seq<char>, value: JsonView) -> Option<Seq<char>>;

    fn check(&self, name: &str, value: &Json) -> (r: Option<String>)
        ensures
            crate::model::maybe(r) == self.problem(name@, value@),
    ;
}

/// Whether something is wrong with a field of an object.
pub open spec fn is_wrong<S: Shape>(shape: S, value: JsonView, name: Seq<char>) -> bool {
    value.get(name) is Some && shape.problem(name, value.get(name)->0) is Some
}

/// Whether a field is the first with which something is wrong, in the order of the names.
pub open spec fn is_first_wrong<S: Shape>(shape: S, value: JsonView, name: Seq<char>) -> bool {
    &&& is_wrong(shape, value, name)
    &&& forall|other: Seq<char>| #[trigger]
        is_wrong(shape, value, other) ==> text::ordered(name, other)
}

/// What is wrong with an object: what is wrong with the first field of which anything is, in the
/// order of the names.
pub open spec fn first_problem<S: Shape>(shape: S, value: JsonView) -> Option<Seq<char>> {
    if exists|name: Seq<char>| is_wrong(shape, value, name) {
        let name = choose|name: Seq<char>| is_first_wrong(shape, value, name);
        Some(shape.problem(name, value.get(name)->0)->0)
    } else {
        None
    }
}

proof fn lemma_names_are_fields(fields: Seq<(String, Json)>, key: Seq<char>)
    ensures
        json::field_map(fields).contains_key(key) <==> exists|i: int|
            0 <= i < fields.len() && (#[trigger] fields[i]).0@ == key,
    decreases fields.len(),
{
    if fields.len() > 0 {
        let rest = fields.drop_last();
        lemma_names_are_fields(rest, key);
        assert(fields.last() == fields[fields.len() - 1]);
        if json::field_map(rest).contains_key(key) {
            let i = choose|i: int| 0 <= i < rest.len() && (#[trigger] rest[i]).0@ == key;
            assert(fields[i].0@ == key);
        }
        if exists|i: int| 0 <= i < fields.len() && (#[trigger] fields[i]).0@ == key {
            let i = choose|i: int| 0 <= i < fields.len() && (#[trigger] fields[i]).0@ == key;
            if i < rest.len() {
                assert(rest[i].0@ == key);
            }
        }
    }
}

proof fn lemma_first_is_one<S: Shape>(shape: S, value: JsonView, name: Seq<char>)
    requires
        is_first_wrong(shape, value, name),
    ensures
        first_problem(shape, value) == shape.problem(name, value.get(name)->0),
{
    let chosen = choose|name: Seq<char>| is_first_wrong(shape, value, name);
    assert(is_wrong(shape, value, name));
    assert(is_wrong(shape, value, chosen));
    text::lemma_ordered_antisymmetric(name, chosen);
}

/// What is wrong with an object, where something is. Any other value has no fields.
pub fn check_fields<S: Shape>(shape: &S, value: &Json) -> (r: Option<String>)
    ensures
        crate::model::maybe(r) == first_problem(*shape, value@),
{
    let fields = match value {
        Json::Object(fields) => fields,
        _ => {
            assert(forall|name: Seq<char>| !is_wrong(*shape, value@, name));
            return None;
        },
    };
    let mut worst: Option<(usize, String)> = None;
    for i in 0..fields.len()
        invariant
            *value == Json::Object(*fields),
            match worst {
                None => forall|j: int|
                    0 <= j < i ==> !is_wrong(*shape, value@, (#[trigger] fields@[j]).0@),
                Some((at, told)) => {
                    &&& at < i
                    &&& is_wrong(*shape, value@, fields@[at as int].0@)
                    &&& shape.problem(
                        fields@[at as int].0@,
                        value@.get(fields@[at as int].0@)->0,
                    ) == Some(told@)
                    &&& forall|j: int|
                        0 <= j < i && is_wrong(*shape, value@, (#[trigger] fields@[j]).0@)
                            ==> text::ordered(fields@[at as int].0@, fields@[j].0@)
                },
            },
    {
        let name = fields[i].0.as_str();
        proof {
            lemma_names_are_fields(fields@, name@);
            assert(fields@[i as int].0@ == name@);
        }
        if let Some(held) = value.get(name) {
            if let Some(told) = shape.check(name, held) {
                proof {
                    text::lemma_ordered_total(name@, name@);
                }
                let sooner = match &worst {
                    None => true,
                    Some((at, _)) => {
                        proof {
                            text::lemma_ordered_total(name@, fields@[*at as int].0@);
                        }
                        in_order(name, fields[*at].0.as_str())
                    },
                };
                if sooner {
                    proof {
                        if let Some((at, _)) = worst {
                            assert forall|j: int|
                                0 <= j < i && is_wrong(*shape, value@, (#[trigger] fields@[j]).0@)
                                implies text::ordered(name@, fields@[j].0@) by {
                                text::lemma_ordered_transitive(
                                    name@,
                                    fields@[at as int].0@,
                                    fields@[j].0@,
                                );
                            }
                        }
                    }
                    worst = Some((i, told));
                }
            }
        }
    }
    proof {
        assert forall|name: Seq<char>| is_wrong(*shape, value@, name) implies exists|j: int|
            0 <= j < fields@.len() && (#[trigger] fields@[j]).0@ == name by {
            lemma_names_are_fields(fields@, name);
        }
    }
    match worst {
        None => {
            assert forall|name: Seq<char>| !is_wrong(*shape, value@, name) by {
                if is_wrong(*shape, value@, name) {
                    let j = choose|j: int|
                        0 <= j < fields@.len() && (#[trigger] fields@[j]).0@ == name;
                    assert(!is_wrong(*shape, value@, fields@[j].0@));
                }
            }
            None
        },
        Some((at, told)) => {
            proof {
                let first = fields@[at as int].0@;
                assert forall|other: Seq<char>| #[trigger]
                    is_wrong(*shape, value@, other) implies text::ordered(first, other) by {
                    let j = choose|j: int|
                        0 <= j < fields@.len() && (#[trigger] fields@[j]).0@ == other;
                    assert(is_wrong(*shape, value@, fields@[j].0@));
                }
                assert(is_first_wrong(*shape, value@, first));
                lemma_first_is_one(*shape, value@, first);
            }
            Some(told)
        },
    }
}

/// What a value must be: a text, a text or nothing, a flag, or a number that is not negative and fits
/// 32 bits. What it is not is told, with what was expected.
pub proof fn law_values_are_checked(kind: Kind, value: Json, r: Option<String>)
    requires
        call_ensures(check_value, (kind, &value), r),
    ensures
        r is None <==> match kind {
            Kind::Text => value@ is Str,
            Kind::OptionalText => value@ is Str || value@ is Null,
            Kind::Flag => value@ is Bool,
            Kind::Count => value@ matches JsonView::Num(NumberView::Unsigned(n)) && n
                <= 4294967295,
        },
        r matches Some(m) ==> match kind {
            Kind::Text => text::has_suffix(m@, ", expected a string"@),
            Kind::OptionalText => text::has_suffix(m@, ", expected a string"@),
            Kind::Flag => text::has_suffix(m@, ", expected a boolean"@),
            Kind::Count => text::has_suffix(m@, ", expected u32"@),
        },
        r matches Some(m) ==> (text::has_prefix(m@, "invalid value: "@) <==> kind is Count && (
        value@ matches JsonView::Num(n) && !(n is Other))),
{
    let told = called(value@);
    lemma_told(told, "a string"@, ", expected a string"@);
    lemma_told(told, "a boolean"@, ", expected a boolean"@);
    lemma_told(told, "u32"@, ", expected u32"@);
}

proof fn lemma_told(told: Seq<char>, expected: Seq<char>, end: Seq<char>)
    requires
        (expected == "a string"@ && end == ", expected a string"@) || (expected == "a boolean"@ && end
            == ", expected a boolean"@) || (expected == "u32"@ && end == ", expected u32"@),
    ensures
        ({
            let t = "invalid type: "@ + told + ", expected "@ + expected;
            let v = "invalid value: "@ + told + ", expected "@ + expected;
            &&& text::has_suffix(t, end)
            &&& text::has_suffix(v, end)
            &&& text::has_prefix(v, "invalid value: "@)
            &&& !text::has_prefix(t, "invalid value: "@)
        }),
{
    reveal_strlit(", expected ");
    reveal_strlit("a string");
    reveal_strlit("a boolean");
    reveal_strlit("u32");
    reveal_strlit(", expected a string");
    reveal_strlit(", expected a boolean");
    reveal_strlit(", expected u32");
    reveal_strlit("invalid type: ");
    reveal_strlit("invalid value: ");
    assert(", expected "@ + expected =~= end);
    let t = "invalid type: "@ + told + ", expected "@ + expected;
    let v = "invalid value: "@ + told + ", expected "@ + expected;
    assert(t =~= ("invalid type: "@ + told) + end);
    assert(v =~= ("invalid value: "@ + told) + end);
    text::lemma_back("invalid type: "@ + told, end);
    text::lemma_back("invalid value: "@ + told, end);
    assert(v =~= "invalid value: "@ + (told + end));
    text::lemma_front("invalid value: "@, told + end);
    if text::has_prefix(t, "invalid value: "@) {
        assert(t.take("invalid value: "@.len() as int)[8] == t[8]);
        assert(t[8] == "invalid type: "@[8]);
    }
}

/// An object is as it must be exactly where no field of it is wrong; else what is told is what is wrong
/// with the first of the wrong ones, in the order of their names.
pub proof fn law_the_first_wrong_field_is_told<S: Shape>(shape: S, value: Json, r: Option<String>)
    requires
        call_ensures(check_fields::<S>, (&shape, &value), r),
    ensures
        ({
            let wrong = |name: Seq<char>|
                value@.get(name) is Some && shape.problem(name, value@.get(name)->0) is Some;
            &&& r is None <==> forall|name: Seq<char>| !#[trigger] wrong(name)
            &&& forall|name: Seq<char>| #[trigger]
                wrong(name) && (forall|other: Seq<char>| #[trigger]
                    wrong(other) ==> text::ordered(name, other)) ==> (r matches Some(m) && Some(m@)
                    == shape.problem(name, value@.get(name)->0))
        }),
{
    let wrong = |name: Seq<char>|
        value@.get(name) is Some && shape.problem(name, value@.get(name)->0) is Some;
    assert forall|name: Seq<char>| #[trigger] wrong(name) <==> is_wrong(shape, value@, name) by {
    }
    if r is None {
        assert forall|name: Seq<char>| !#[trigger] wrong(name) by {
            assert(wrong(name) <==> is_wrong(shape, value@, name));
        }
    } else {
        let name = choose|name: Seq<char>| is_wrong(shape, value@, name);
        assert(is_wrong(shape, value@, name));
        assert(wrong(name));
    }
    assert forall|name: Seq<char>| #[trigger]
        wrong(name) && (forall|other: Seq<char>| #[trigger]
            wrong(other) ==> text::ordered(name, other)) implies (r matches Some(m) && Some(m@)
        == shape.problem(name, value@.get(name)->0)) by {
        assert forall|other: Seq<char>| #[trigger] is_wrong(shape, value@, other) implies text::ordered(
            name,
            other,
        ) by {
            assert(wrong(other));
        }
        assert(is_first_wrong(shape, value@, name));
        lemma_first_is_one(shape, value@, name);
    }
}

/// What is missing, unknown or no name of anything is told by its name; a name is known where it is
/// among the names.
pub proof fn law_fields_are_named(
    name: &str,
    names: Vec<&str>,
    gone: String,
    strange: String,
    variant: String,
    among: bool,
)
    requires
        call_ensures(missing_field, (name,), gone),
        call_ensures(unknown_field, (name, &names), strange),
        call_ensures(variant_error, (name, &names), variant),
        call_ensures(is_among, (name, &names), among),
    ensures
        gone@ == "missing field `"@ + name@ + "`"@,
        text::has_prefix(strange@, "unknown field `"@ + name@ + "`"@),
        text::has_prefix(variant@, "unknown variant `"@ + name@ + "`"@),
        names@.len() == 1 ==> text::has_suffix(strange@, "`"@ + names@[0]@ + "`"@),
        names@.len() == 2 ==> text::has_suffix(
            strange@,
            "`"@ + names@[0]@ + "`"@ + " or "@ + ("`"@ + names@[1]@ + "`"@),
        ),
        among <==> exists|i: int| 0 <= i < names@.len() && (#[trigger] names@[i])@ == name@,
{
    reveal_strlit("`, expected ");
    reveal_strlit("`");
    reveal_strlit(", expected ");
    assert("`, expected "@ =~= "`"@ + ", expected "@);
    let all = names_of(names@);
    let rest = ", expected "@ + choice(all);
    assert(strange@ =~= ("unknown field `"@ + name@ + "`"@) + rest);
    text::lemma_front("unknown field `"@ + name@ + "`"@, rest);
    text::lemma_back("unknown field `"@ + name@ + "`, expected "@, choice(all));
    assert(variant@ =~= ("unknown variant `"@ + name@ + "`"@) + rest);
    text::lemma_front("unknown variant `"@ + name@ + "`"@, rest);
    if among {
        let i = choose|i: int| 0 <= i < all.len() && all[i] == name@;
        assert(names@[i]@ == name@);
    }
    if exists|i: int| 0 <= i < names@.len() && (#[trigger] names@[i])@ == name@ {
        let i = choose|i: int| 0 <= i < names@.len() && (#[trigger] names@[i])@ == name@;
        assert(all[i] == name@);
    }
}

/// A value that cannot be taken is told for what it is, between what is wrong with it and what was
/// expected: a number and a truth value with what it holds, a text in quotes, the rest by its kind.
pub proof fn law_wrong_values_are_told(value: Json, expected: &str, r: String, v: String)
    requires
        call_ensures(type_error, (&value, expected), r),
        call_ensures(value_error, (&value, expected), v),
    ensures
        ({
            let told = match value@ {
                JsonView::Null => "null"@,
                JsonView::Bool(true) => "boolean `true`"@,
                JsonView::Bool(false) => "boolean `false`"@,
                JsonView::Num(NumberView::Unsigned(n)) => "integer `"@ + text::decimal(n as nat) + "`"@,
                JsonView::Num(NumberView::Negative(n)) => "integer `"@ + text::signed_decimal(n as int)
                    + "`"@,
                JsonView::Num(NumberView::Other(t)) => "floating point `"@ + t + "`"@,
                JsonView::Str(s) => "string "@ + text::quoted(s),
                JsonView::Array(_) => "sequence"@,
                JsonView::Object(_) => "map"@,
            };
            &&& text::holds(r@, told)
            &&& text::holds(v@, told)
            &&& text::has_suffix(r@, expected@)
            &&& text::has_suffix(v@, expected@)
            &&& text::has_prefix(r@, "invalid type: "@)
            &&& text::has_prefix(v@, "invalid value: "@)
        }),
{
    let told = called(value@);
    let end = ", expected "@ + expected@;
    assert(r@ =~= "invalid type: "@ + told + end);
    assert(v@ =~= "invalid value: "@ + told + end);
    text::lemma_part("invalid type: "@, told, end);
    text::lemma_part("invalid value: "@, told, end);
    text::lemma_back("invalid type: "@ + told + ", expected "@, expected@);
    text::lemma_back("invalid value: "@ + told + ", expected "@, expected@);
    assert(r@ =~= "invalid type: "@ + (told + end));
    assert(v@ =~= "invalid value: "@ + (told + end));
    text::lemma_front("invalid type: "@, told + end);
    text::lemma_front("invalid value: "@, told + end);
}

} // verus!
