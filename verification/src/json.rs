//! JSON values as the wire protocols carry them.
use crate::model;
use crate::text;
use crate::text::same;
use vstd::prelude::*;

verus! {

/// A JSON number: an unsigned or a negative integer, or the text of any other number.
#[derive(Debug, PartialEq, Eq)]
pub enum Number {
    Unsigned(u64),
    Negative(i64),
    Other(String),
}

/// A JSON value. Of two fields of an object with one name the later counts.
#[derive(Debug, PartialEq, Eq)]
pub enum Json {
    Null,
    Bool(bool),
    Num(Number),
    Str(String),
    Array(Vec<Json>),
    Object(Vec<(String, Json)>),
}

/// What a JSON number is.
pub enum NumberView {
    Unsigned(u64),
    Negative(i64),
    Other(Seq<char>),
}

/// What a JSON value is.
pub enum JsonView {
    Null,
    Bool(bool),
    Num(NumberView),
    Str(Seq<char>),
    Array(Seq<JsonView>),
    Object(Map<Seq<char>, JsonView>),
}

impl View for Number {
    type V = NumberView;

    open spec fn view(&self) -> NumberView {
        match self {
            Number::Unsigned(n) => NumberView::Unsigned(*n),
            Number::Negative(n) => NumberView::Negative(*n),
            Number::Other(t) => NumberView::Other(t@),
        }
    }
}

/// The model of a JSON value.
pub open spec fn json_view(value: Json) -> JsonView
    decreases value,
{
    match value {
        Json::Null => JsonView::Null,
        Json::Bool(b) => JsonView::Bool(b),
        Json::Num(n) => JsonView::Num(n@),
        Json::Str(s) => JsonView::Str(s@),
        Json::Array(items) => JsonView::Array(views(items@)),
        Json::Object(fields) => JsonView::Object(field_map(fields@)),
    }
}

/// The models of a sequence of JSON values.
pub open spec fn views(items: Seq<Json>) -> Seq<JsonView>
    decreases items,
{
    if items.len() == 0 {
        Seq::empty()
    } else {
        views(items.drop_last()).push(json_view(items.last()))
    }
}

/// The map of names to models that a sequence of fields stands for.
pub open spec fn field_map(fields: Seq<(String, Json)>) -> Map<Seq<char>, JsonView>
    decreases fields,
{
    if fields.len() == 0 {
        Map::empty()
    } else {
        field_map(fields.drop_last()).insert(fields.last().0@, json_view(fields.last().1))
    }
}

impl View for Json {
    type V = JsonView;

    open spec fn view(&self) -> JsonView {
        json_view(*self)
    }
}

impl JsonView {
    /// The object without fields.
    pub open spec fn object() -> JsonView {
        JsonView::Object(Map::empty())
    }

    /// A non-negative number.
    pub open spec fn number(n: u64) -> JsonView {
        JsonView::Num(NumberView::Unsigned(n))
    }

    /// An integer.
    pub open spec fn integer(n: int) -> JsonView {
        if n < 0 {
            JsonView::Num(NumberView::Negative(n as i64))
        } else {
            JsonView::Num(NumberView::Unsigned(n as u64))
        }
    }

    /// The value of the field `key`, where the value is an object that has it.
    pub open spec fn get(self, key: Seq<char>) -> Option<JsonView> {
        match self {
            JsonView::Object(fields) => if fields.contains_key(key) {
                Some(fields[key])
            } else {
                None
            },
            _ => None,
        }
    }

    /// The object with its field `key` set to `value`. Any other value is unchanged.
    pub open spec fn with(self, key: Seq<char>, value: JsonView) -> JsonView {
        match self {
            JsonView::Object(fields) => JsonView::Object(fields.insert(key, value)),
            other => other,
        }
    }

    /// The object without its field `key`. Any other value is unchanged.
    pub open spec fn without(self, key: Seq<char>) -> JsonView {
        match self {
            JsonView::Object(fields) => JsonView::Object(fields.remove(key)),
            other => other,
        }
    }

    /// The value at the end of a path of two names.
    pub open spec fn at2(self, first: Seq<char>, second: Seq<char>) -> Option<JsonView> {
        match self.get(first) {
            Some(v) => v.get(second),
            None => None,
        }
    }

    /// The string at the end of a path of two names.
    pub open spec fn str_at2(self, first: Seq<char>, second: Seq<char>) -> Option<Seq<char>> {
        match self.get(first) {
            Some(v) => v.get_str(second),
            None => None,
        }
    }

    /// The array without items.
    pub open spec fn array() -> JsonView {
        JsonView::Array(Seq::empty())
    }

    /// The array with one more item. Any other value is unchanged.
    pub open spec fn item(self, value: JsonView) -> JsonView {
        match self {
            JsonView::Array(items) => JsonView::Array(items.push(value)),
            other => other,
        }
    }

    /// The string, where the value is one.
    pub open spec fn as_str(self) -> Option<Seq<char>> {
        match self {
            JsonView::Str(s) => Some(s),
            _ => None,
        }
    }

    /// The truth value, where the value is one.
    pub open spec fn as_bool(self) -> Option<bool> {
        match self {
            JsonView::Bool(b) => Some(b),
            _ => None,
        }
    }

    /// The number, where the value is an integer that fits.
    pub open spec fn as_u64(self) -> Option<u64> {
        match self {
            JsonView::Num(NumberView::Unsigned(n)) => Some(n),
            _ => None,
        }
    }

    /// The number, where the value is an integer that fits.
    pub open spec fn as_i64(self) -> Option<i64> {
        match self {
            JsonView::Num(NumberView::Unsigned(n)) => if n <= i64::MAX {
                Some(n as i64)
            } else {
                None
            },
            JsonView::Num(NumberView::Negative(n)) => Some(n),
            _ => None,
        }
    }

    /// The value of the field `key`, or `null` where it is absent.
    pub open spec fn get_or_null(self, key: Seq<char>) -> JsonView {
        match self.get(key) {
            Some(v) => v,
            None => JsonView::Null,
        }
    }

    /// The string in the field `key`.
    pub open spec fn get_str(self, key: Seq<char>) -> Option<Seq<char>> {
        match self.get(key) {
            Some(v) => v.as_str(),
            None => None,
        }
    }
}

/// A text as JSON, or null.
pub open spec fn text_json(t: Option<Seq<char>>) -> JsonView {
    match t {
        Some(t) => JsonView::Str(t),
        None => JsonView::Null,
    }
}

/// Texts as a JSON array.
pub open spec fn texts_json(lines: Seq<Seq<char>>) -> JsonView {
    JsonView::Array(Seq::new(lines.len(), |i: int| JsonView::Str(lines[i])))
}

/// The model of an optional value.
pub open spec fn json_opt(v: Option<Json>) -> Option<JsonView> {
    match v {
        Some(v) => Some(v@),
        None => None,
    }
}

/// One more item adds one more model.
pub broadcast proof fn lemma_views_push(items: Seq<Json>, item: Json)
    ensures
        #[trigger] views(items.push(item)) == views(items).push(json_view(item)),
{
    assert(items.push(item).drop_last() =~= items);
}

/// One more field sets one more name.
pub broadcast proof fn lemma_field_map_push(fields: Seq<(String, Json)>, field: (String, Json))
    ensures
        #[trigger] field_map(fields.push(field)) == field_map(fields).insert(
            field.0@,
            json_view(field.1),
        ),
{
    assert(fields.push(field).drop_last() =~= fields);
}

/// The models of a sequence stand in its order.
pub broadcast proof fn lemma_views_index(items: Seq<Json>)
    ensures
        #[trigger] views(items).len() == items.len(),
        forall|i: int| 0 <= i < items.len() ==> #[trigger] views(items)[i] == items[i]@,
    decreases items.len(),
{
    if items.len() > 0 {
        lemma_views_index(items.drop_last());
    }
}

/// An array's model lists the models of its items.
pub broadcast proof fn lemma_array_view(items: Vec<Json>)
    ensures
        #[trigger] json_view(Json::Array(items)) == JsonView::Array(views(items@)),
{
    reveal_with_fuel(json_view, 2);
    reveal_with_fuel(views, 2);
}

/// An object's model maps the names of its fields to their models.
pub broadcast proof fn lemma_object_view(fields: Vec<(String, Json)>)
    ensures
        #[trigger] json_view(Json::Object(fields)) == JsonView::Object(field_map(fields@)),
{
    reveal_with_fuel(json_view, 2);
    reveal_with_fuel(field_map, 2);
}

pub broadcast group group_json_views {
    lemma_array_view,
    lemma_object_view,
    lemma_views_push,
    lemma_views_index,
    lemma_field_map_push,
}

impl Number {
    /// A copy of the number.
    pub fn copy(&self) -> (r: Number)
        ensures
            r@ == self@,
    {
        match self {
            Number::Unsigned(n) => Number::Unsigned(*n),
            Number::Negative(n) => Number::Negative(*n),
            Number::Other(t) => Number::Other(t.clone()),
        }
    }
}

impl Json {
    /// The object without fields.
    pub fn object() -> (r: Json)
        ensures
            r@ == JsonView::object(),
    {
        Json::Object(Vec::new())
    }

    /// A string value.
    pub fn string(s: &str) -> (r: Json)
        ensures
            r@ == JsonView::Str(s@),
    {
        Json::Str(s.to_owned())
    }

    /// A non-negative number.
    pub fn number(n: u64) -> (r: Json)
        ensures
            r@ == JsonView::number(n),
    {
        Json::Num(Number::Unsigned(n))
    }

    /// An integer.
    pub fn integer(n: i64) -> (r: Json)
        ensures
            r@ == JsonView::integer(n as int),
    {
        if n < 0 {
            Json::Num(Number::Negative(n))
        } else {
            Json::Num(Number::Unsigned(n as u64))
        }
    }

    /// The value of the field `key`, where this is an object that has it.
    pub fn get(&self, key: &str) -> (r: Option<&Json>)
        ensures
            r is Some <==> self@.get(key@) is Some,
            r is Some ==> r->0@ == self@.get(key@)->0,
    {
        match self {
            Json::Object(fields) => {
                let mut i: usize = fields.len();
                assert(fields@.take(i as int) =~= fields@);
                while i > 0
                    invariant
                        i <= fields@.len(),
                        self == Json::Object(*fields),
                        field_map(fields@).contains_key(key@) == field_map(
                            fields@.take(i as int),
                        ).contains_key(key@),
                        field_map(fields@).contains_key(key@) ==> field_map(fields@)[key@]
                            == field_map(fields@.take(i as int))[key@],
                    decreases i,
                {
                    assert(fields@.take(i as int).drop_last() =~= fields@.take(i - 1));
                    if same(fields[i - 1].0.as_str(), key) {
                        return Some(&fields[i - 1].1);
                    }
                    i -= 1;
                }
                None
            },
            _ => None,
        }
    }

    /// The object with its field `key` set to `value`; any other value is returned unchanged.
    pub fn with(self, key: &str, value: Json) -> (r: Json)
        ensures
            r@ == self@.with(key@, value@),
    {
        broadcast use group_json_views;

        match self {
            Json::Object(fields) => {
                let mut fields = fields;
                fields.push((key.to_owned(), value));
                Json::Object(fields)
            },
            other => other,
        }
    }

    /// The object without its field `key`; any other value is returned unchanged.
    pub fn without(self, key: &str) -> (r: Json)
        ensures
            r@ == self@.without(key@),
    {
        broadcast use group_json_views;

        match self {
            Json::Object(fields) => {
                let mut rest: Vec<(String, Json)> = Vec::new();
                assert(fields@.take(0) =~= Seq::empty());
                assert(field_map(rest@) =~= field_map(fields@.take(0)).remove(key@));
                for i in 0..fields.len()
                    invariant
                        field_map(rest@) == field_map(fields@.take(i as int)).remove(key@),
                {
                    proof {
                        lemma_field_map_push(fields@.take(i as int), fields@[i as int]);
                        assert(fields@.take(i + 1) =~= fields@.take(i as int).push(
                            fields@[i as int],
                        ));
                    }
                    let ghost before = field_map(fields@.take(i as int));
                    let ghost value = json_view(fields@[i as int].1);
                    if same(fields[i].0.as_str(), key) {
                        assert(before.insert(key@, value).remove(key@) =~= before.remove(key@));
                    } else {
                        let ghost name = fields@[i as int].0@;
                        let field = (fields[i].0.clone(), fields[i].1.copy());
                        proof {
                            lemma_field_map_push(rest@, field);
                            assert(before.insert(name, value).remove(key@) =~= before.remove(
                                key@,
                            ).insert(name, value));
                        }
                        rest.push(field);
                    }
                }
                assert(fields@.take(fields@.len() as int) =~= fields@);
                Json::Object(rest)
            },
            other => other,
        }
    }

    /// The string at the end of a path of two names.
    pub fn str_at2(&self, first: &str, second: &str) -> (r: Option<&str>)
        ensures
            r is Some <==> self@.str_at2(first@, second@) is Some,
            r is Some ==> r->0@ == self@.str_at2(first@, second@)->0,
    {
        match self.get(first) {
            Some(v) => v.get_str(second),
            None => None,
        }
    }

    /// The array without items.
    pub fn array() -> (r: Json)
        ensures
            r@ == JsonView::array(),
    {
        Json::Array(Vec::new())
    }

    /// The array with one more item; any other value is returned unchanged.
    pub fn item(self, value: Json) -> (r: Json)
        ensures
            r@ == self@.item(value@),
    {
        broadcast use group_json_views;

        match self {
            Json::Array(items) => {
                let mut items = items;
                items.push(value);
                Json::Array(items)
            },
            other => other,
        }
    }

    /// The string, where this is one.
    pub fn as_str(&self) -> (r: Option<&str>)
        ensures
            r is Some <==> self@.as_str() is Some,
            r is Some ==> r->0@ == self@.as_str()->0,
    {
        match self {
            Json::Str(s) => Some(s.as_str()),
            _ => None,
        }
    }

    /// The truth value, where this is one.
    pub fn as_bool(&self) -> (r: Option<bool>)
        ensures
            r == self@.as_bool(),
    {
        match self {
            Json::Bool(b) => Some(*b),
            _ => None,
        }
    }

    /// The number, where this is an integer that fits.
    pub fn as_u64(&self) -> (r: Option<u64>)
        ensures
            r == self@.as_u64(),
    {
        match self {
            Json::Num(Number::Unsigned(n)) => Some(*n),
            _ => None,
        }
    }

    /// The number, where this is an integer that fits.
    pub fn as_i64(&self) -> (r: Option<i64>)
        ensures
            r == self@.as_i64(),
    {
        match self {
            Json::Num(Number::Unsigned(n)) => if *n <= i64::MAX as u64 {
                Some(*n as i64)
            } else {
                None
            },
            Json::Num(Number::Negative(n)) => Some(*n),
            _ => None,
        }
    }

    /// The items, where this is an array.
    pub fn as_array(&self) -> (r: Option<&Vec<Json>>)
        ensures
            r is Some <==> self@ is Array,
            r is Some ==> views(r->0@) == self@->Array_0,
    {
        match self {
            Json::Array(items) => Some(items),
            _ => None,
        }
    }

    /// Whether this is an object.
    pub fn is_object(&self) -> (r: bool)
        ensures
            r == (self@ is Object),
    {
        matches!(self, Json::Object(_))
    }

    /// A copy of the value of the field `key`, or `null` where it is absent.
    pub fn get_or_null(&self, key: &str) -> (r: Json)
        ensures
            r@ == self@.get_or_null(key@),
    {
        match self.get(key) {
            Some(v) => v.copy(),
            None => Json::Null,
        }
    }

    /// The string in the field `key`.
    pub fn get_str(&self, key: &str) -> (r: Option<&str>)
        ensures
            r is Some <==> self@.get_str(key@) is Some,
            r is Some ==> r->0@ == self@.get_str(key@)->0,
    {
        match self.get(key) {
            Some(v) => v.as_str(),
            None => None,
        }
    }

    /// A copy of the value.
    pub fn copy(&self) -> (r: Json)
        ensures
            r@ == self@,
        decreases self,
    {
        broadcast use group_json_views;

        match self {
            Json::Null => Json::Null,
            Json::Bool(b) => Json::Bool(*b),
            Json::Num(n) => Json::Num(n.copy()),
            Json::Str(s) => Json::Str(s.clone()),
            Json::Array(items) => {
                let mut out: Vec<Json> = Vec::new();
                assert(items@.take(0) =~= Seq::empty());
                for i in 0..items.len()
                    invariant
                        self == Json::Array(*items),
                        views(out@) == views(items@.take(i as int)),
                {
                    assert(decreases_to!(*self => self->Array_0));
                    assert(decreases_to!(items@ => items@[i as int]));
                    let item = items[i].copy();
                    proof {
                        lemma_views_push(out@, item);
                        lemma_views_push(items@.take(i as int), items@[i as int]);
                        assert(items@.take(i + 1) =~= items@.take(i as int).push(items@[i as int]));
                    }
                    out.push(item);
                }
                assert(items@.take(items@.len() as int) =~= items@);
                Json::Array(out)
            },
            Json::Object(fields) => {
                let mut out: Vec<(String, Json)> = Vec::new();
                assert(fields@.take(0) =~= Seq::empty());
                for i in 0..fields.len()
                    invariant
                        self == Json::Object(*fields),
                        field_map(out@) == field_map(fields@.take(i as int)),
                {
                    assert(decreases_to!(*self => self->Object_0));
                    assert(decreases_to!(fields@ => fields@[i as int]));
                    let field = (fields[i].0.clone(), fields[i].1.copy());
                    proof {
                        lemma_field_map_push(out@, field);
                        lemma_field_map_push(fields@.take(i as int), fields@[i as int]);
                        assert(fields@.take(i + 1) =~= fields@.take(i as int).push(
                            fields@[i as int],
                        ));
                    }
                    out.push(field);
                }
                assert(fields@.take(fields@.len() as int) =~= fields@);
                Json::Object(out)
            },
        }
    }
}

/// `serde_json::Value`, held while a text is read or written.
#[verifier::external_type_specification]
#[verifier::external_body]
pub struct ExValue(serde_json::Value);

/// What a `serde_json::Value` holds.
pub uninterp spec fn value_contents(value: serde_json::Value) -> JsonView;

/// What reading a text as JSON gives: the value, or the message of the error.
pub uninterp spec fn parsed_json(text: Seq<char>) -> Result<JsonView, Seq<char>>;

/// The value that stands for a model: the model itself, but for the numbers whose text is
/// written otherwise than `serde_json` writes it.
pub uninterp spec fn settled(value: JsonView) -> JsonView;

/// A value written without spaces or line breaks between its parts.
pub uninterp spec fn compact_json(value: JsonView) -> Seq<char>;

/// A value written over several lines, indented by two spaces a level.
pub uninterp spec fn pretty_json(value: JsonView) -> Seq<char>;

/// A value's text, without spaces or line breaks between its parts.
pub open spec fn written(value: JsonView) -> Seq<char> {
    compact_json(settled(value))
}

/// `serde_json::from_str::<serde_json::Value>` reads a text. What it returns depends on the text
/// alone: `parsed_json` names it, and the message that `to_string` gives of its error.
#[verifier::external_body]
fn read_value(text: &str) -> (r: Result<serde_json::Value, String>)
    ensures
        r is Ok <==> parsed_json(text@) is Ok,
        r is Ok ==> value_contents(r->Ok_0) == parsed_json(text@)->Ok_0,
        r is Err ==> r->Err_0@ == parsed_json(text@)->Err_0,
{
    serde_json::from_str::<serde_json::Value>(text).map_err(|e| e.to_string())
}

/// Takes a `serde_json::Value` apart, variant by variant. The result holds what the value holds.
#[verifier::external_body]
fn from_value(value: serde_json::Value) -> (r: Json)
    ensures
        r@ == value_contents(value),
{
    match value {
        serde_json::Value::Null => Json::Null,
        serde_json::Value::Bool(b) => Json::Bool(b),
        serde_json::Value::Number(n) => Json::Num(match (n.as_u64(), n.as_i64()) {
            (Some(u), _) => Number::Unsigned(u),
            (None, Some(i)) => Number::Negative(i),
            (None, None) => Number::Other(n.to_string()),
        }),
        serde_json::Value::String(s) => Json::Str(s),
        serde_json::Value::Array(a) => Json::Array(a.into_iter().map(from_value).collect()),
        serde_json::Value::Object(m) => Json::Object(
            m.into_iter().map(|(k, v)| (k, from_value(v))).collect()),
    }
}

/// Builds the `serde_json::Value` of a value, variant by variant. `settled` names what it holds: a
/// number that is kept as text is read again, and is null where the text is no number.
#[verifier::external_body]
fn to_value(json: &Json) -> (r: serde_json::Value)
    ensures
        value_contents(r) == settled(json@),
{
    match json {
        Json::Null => serde_json::Value::Null,
        Json::Bool(b) => serde_json::Value::Bool(*b),
        Json::Num(Number::Unsigned(n)) => serde_json::Value::from(*n),
        Json::Num(Number::Negative(n)) => serde_json::Value::from(*n),
        Json::Num(Number::Other(t)) => serde_json::from_str(t).unwrap_or_default(),
        Json::Str(s) => serde_json::Value::from(s.as_str()),
        Json::Array(a) => serde_json::Value::Array(a.iter().map(to_value).collect()),
        Json::Object(m) => serde_json::Value::Object(
            m.iter().map(|(k, v)| (k.to_owned(), to_value(v))).collect()),
    }
}

/// `serde_json::Value`'s `to_string` writes a value compactly. The text depends on what the value
/// holds alone: `compact_json` names it.
#[verifier::external_body]
fn write_compact(value: &serde_json::Value) -> (r: String)
    ensures
        r@ == compact_json(value_contents(*value)),
{
    value.to_string()
}

/// `serde_json::Value`'s alternate form writes a value over several lines, as
/// `serde_json::to_string_pretty` does. The text depends on what the value holds alone:
/// `pretty_json` names it.
#[verifier::external_body]
fn write_pretty(value: &serde_json::Value) -> (r: String)
    ensures
        r@ == pretty_json(value_contents(*value)),
{
    format!("{:#}", value)
}

impl Json {
    /// A text, or null.
    pub fn text_or_null(t: Option<&str>) -> (r: Json)
        ensures
            r@ == text_json(model::maybe(t)),
    {
        match t {
            Some(t) => Json::string(t),
            None => Json::Null,
        }
    }

    /// A text, or null.
    pub fn optional(t: &Option<String>) -> (r: Json)
        ensures
            r@ == text_json(model::maybe(*t)),
    {
        match t {
            Some(t) => Json::string(t.as_str()),
            None => Json::Null,
        }
    }

    /// An array of texts.
    pub fn strings(lines: &Vec<String>) -> (r: Json)
        ensures
            r@ == texts_json(text::texts(lines@)),
    {
        let mut items: Vec<Json> = Vec::new();
        for i in 0..lines.len()
            invariant
                items@.len() == i,
                forall|j: int| 0 <= j < i ==> (#[trigger] items@[j])@ == JsonView::Str(lines@[j]@),
        {
            items.push(Json::string(lines[i].as_str()));
        }
        proof {
            text::lemma_texts_index(lines@);
            lemma_views_index(items@);
            lemma_array_view(items);
            assert(views(items@) =~= Seq::new(
                text::texts(lines@).len(),
                |i: int| JsonView::Str(text::texts(lines@)[i]),
            ));
        }
        Json::Array(items)
    }
}

impl Json {
    /// Reads a text as JSON, or says why it is none.
    pub fn parse(text: &str) -> (r: Result<Json, String>)
        ensures
            r is Ok <==> parsed_json(text@) is Ok,
            r is Ok ==> r->Ok_0@ == parsed_json(text@)->Ok_0,
            r is Err ==> r->Err_0@ == parsed_json(text@)->Err_0,
    {
        match read_value(text) {
            Ok(value) => Ok(from_value(value)),
            Err(e) => Err(e),
        }
    }

    /// Writes the value compactly.
    pub fn to_text(&self) -> (r: String)
        ensures
            r@ == compact_json(settled(self@)),
    {
        write_compact(&to_value(self))
    }

    /// Writes the value over several lines.
    pub fn to_pretty_text(&self) -> (r: String)
        ensures
            r@ == pretty_json(settled(self@)),
    {
        write_pretty(&to_value(self))
    }
}

/// A field that is set is what is read under its name, and no other field changes; a field that is
/// taken out is not there, and again no other changes. What is no object has no fields to set.
pub proof fn law_fields_are_set_and_read(
    fields: Map<Seq<char>, JsonView>,
    key: Seq<char>,
    value: JsonView,
    other: Seq<char>,
    scalar: JsonView,
)
    requires
        other != key,
        !(scalar is Object),
    ensures
        ({
            let object = JsonView::Object(fields);
            &&& object.get(key) is Some <==> fields.dom().contains(key)
            &&& fields.dom().contains(key) ==> object.get(key) == Some(fields[key])
            &&& object.with(key, value).get(key) == Some(value)
            &&& object.with(key, value).get(other) == object.get(other)
            &&& object.without(key).get(key) is None
            &&& object.without(key).get(other) == object.get(other)
            &&& object.get_or_null(key) == if object.get(key) is Some {
                object.get(key)->0
            } else {
                JsonView::Null
            }
            &&& JsonView::object().get(key) is None
        }),
        scalar.get(key) is None,
        scalar.with(key, value) == scalar,
        scalar.without(key) == scalar,
        scalar.get_or_null(key) == JsonView::Null,
{
}

/// A value is read as what it is and as nothing else: a text, a truth value, an integer in the range
/// that is asked for.
pub proof fn law_scalars_are_read(v: JsonView, key: Seq<char>)
    ensures
        forall|s: Seq<char>| #[trigger] v.as_str() == Some(s) <==> v == JsonView::Str(s),
        forall|b: bool| #[trigger] v.as_bool() == Some(b) <==> v == JsonView::Bool(b),
        forall|n: u64| #[trigger]
            v.as_u64() == Some(n) <==> v == JsonView::Num(NumberView::Unsigned(n)),
        forall|n: i64| #[trigger]
            v.as_i64() == Some(n) <==> v == JsonView::Num(NumberView::Negative(n)) || (n >= 0 && v
                == JsonView::Num(NumberView::Unsigned(n as u64))),
        forall|n: i64|
            n >= 0 ==> #[trigger] JsonView::integer(n as int) == JsonView::Num(
                NumberView::Unsigned(n as u64),
            ),
        forall|n: i64|
            n < 0 ==> #[trigger] JsonView::integer(n as int) == JsonView::Num(
                NumberView::Negative(n),
            ),
        forall|s: Seq<char>|
            (#[trigger] v.get_str(key) == Some(s)) <==> v.get(key) == Some(JsonView::Str(s)),
        forall|n: u64| #[trigger] JsonView::number(n) == JsonView::Num(NumberView::Unsigned(n)),
{
}

/// What a value of this library stands for: its items in their order, and under each name the last
/// field of it.
pub proof fn law_values_stand_for_what_they_hold(items: Vec<Json>, fields: Vec<(String, Json)>, s: String)
    ensures
        Json::Array(items)@ matches JsonView::Array(all) && all.len() == items@.len() && forall|
            i: int,
        |
            0 <= i < items@.len() ==> #[trigger] all[i] == items@[i]@,
        Json::Str(s)@ == JsonView::Str(s@),
        Json::Null@ == JsonView::Null,
        forall|b: bool| (#[trigger] Json::Bool(b)@) == JsonView::Bool(b),
        Json::Object(fields)@ matches JsonView::Object(_),
        forall|i: int|
            0 <= i < fields@.len() && (forall|j: int|
                i < j < fields@.len() ==> (#[trigger] fields@[j]).0@ != fields@[i].0@)
                ==> Json::Object(fields)@.get((#[trigger] fields@[i]).0@) == Some(fields@[i].1@),
        forall|key: Seq<char>|
            (forall|j: int| 0 <= j < fields@.len() ==> (#[trigger] fields@[j]).0@ != key)
                ==> (#[trigger] Json::Object(fields)@.get(key)) is None,
{
    lemma_array_view(items);
    lemma_views_index(items@);
    lemma_object_view(fields);
    assert forall|i: int|
        0 <= i < fields@.len() && (forall|j: int|
            i < j < fields@.len() ==> (#[trigger] fields@[j]).0@ != fields@[i].0@) implies Json::Object(
        fields,
    )@.get((#[trigger] fields@[i]).0@) == Some(fields@[i].1@) by {
        lemma_last_counts(fields@, i);
    }
    assert forall|key: Seq<char>|
        (forall|j: int| 0 <= j < fields@.len() ==> (#[trigger] fields@[j]).0@ != key) implies (
    #[trigger] Json::Object(fields)@.get(key)) is None by {
        lemma_absent(fields@, key);
    }
}

proof fn lemma_last_counts(fields: Seq<(String, Json)>, i: int)
    requires
        0 <= i < fields.len(),
        forall|j: int| i < j < fields.len() ==> (#[trigger] fields[j]).0@ != fields[i].0@,
    ensures
        field_map(fields).contains_key(fields[i].0@),
        field_map(fields)[fields[i].0@] == fields[i].1@,
    decreases fields.len(),
{
    if i < fields.len() - 1 {
        let rest = fields.drop_last();
        assert forall|j: int| i < j < rest.len() implies (#[trigger] rest[j]).0@ != rest[i].0@ by {
            assert(fields[j].0@ != fields[i].0@);
        }
        lemma_last_counts(rest, i);
        assert(fields[fields.len() - 1].0@ != fields[i].0@);
    }
}

proof fn lemma_absent(fields: Seq<(String, Json)>, key: Seq<char>)
    requires
        forall|j: int| 0 <= j < fields.len() ==> (#[trigger] fields[j]).0@ != key,
    ensures
        !field_map(fields).contains_key(key),
    decreases fields.len(),
{
    if fields.len() > 0 {
        let rest = fields.drop_last();
        assert forall|j: int| 0 <= j < rest.len() implies (#[trigger] rest[j]).0@ != key by {
            assert(fields[j].0@ != key);
        }
        lemma_absent(rest, key);
        assert(fields[fields.len() - 1].0@ != key);
    }
}

} // verus!
