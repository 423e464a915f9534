//! The tools that the MCP server offers, each with the JSON Schema of its arguments.
use crate::json;
use crate::json::{Json, JsonView};
use crate::text::same;
use crate::action;
use crate::action::ActionKind;
use vstd::prelude::*;

verus! {

broadcast use json::group_json_views;

/// The property that addresses an element.
pub open spec fn index_property_view() -> JsonView {
    JsonView::object()
        .with("type"@, JsonView::Str("integer"@))
        .with("minimum"@, JsonView::number(1))
        .with(
            "description"@,
            JsonView::Str("Element index from the most recent snapshot's [N] markers."@),
        )
}

fn index_property() -> (r: Json)
    ensures
        r@ == index_property_view(),
{
    Json::object()
        .with("type", Json::string("integer"))
        .with("minimum", Json::number(1))
        .with(
            "description",
            Json::string("Element index from the most recent snapshot's [N] markers."),
        )
}

/// The property that names the modifier keys held.
pub open spec fn modifiers_property_view(description: Seq<char>) -> JsonView {
    JsonView::object()
        .with("type"@, JsonView::Str("object"@))
        .with("description"@, JsonView::Str(description))
        .with(
            "properties"@,
            JsonView::object()
                .with("ctrl"@, JsonView::object().with("type"@, JsonView::Str("boolean"@)))
                .with("shift"@, JsonView::object().with("type"@, JsonView::Str("boolean"@)))
                .with("alt"@, JsonView::object().with("type"@, JsonView::Str("boolean"@)))
                .with("meta"@, JsonView::object().with("type"@, JsonView::Str("boolean"@))),
        )
        .with("additionalProperties"@, JsonView::Bool(false))
}

fn modifiers_property(description: &str) -> (r: Json)
    ensures
        r@ == modifiers_property_view(description@),
{
    Json::object()
        .with("type", Json::string("object"))
        .with("description", Json::string(description))
        .with(
            "properties",
            Json::object()
                .with("ctrl", Json::object().with("type", Json::string("boolean")))
                .with("shift", Json::object().with("type", Json::string("boolean")))
                .with("alt", Json::object().with("type", Json::string("boolean")))
                .with("meta", Json::object().with("type", Json::string("boolean"))),
        )
        .with("additionalProperties", Json::Bool(false))
}

/// A property that is a string.
pub open spec fn text_property_view(description: Seq<char>) -> JsonView {
    JsonView::object()
        .with("type"@, JsonView::Str("string"@))
        .with("description"@, JsonView::Str(description))
}

fn text_property(description: &str) -> (r: Json)
    ensures
        r@ == text_property_view(description@),
{
    Json::object()
        .with("type", Json::string("string"))
        .with("description", Json::string(description))
}

/// The schema of a tool without arguments.
pub open spec fn bare_schema_view() -> JsonView {
    JsonView::object()
        .with("properties"@, JsonView::object())
        .with("type"@, JsonView::Str("object"@))
}

fn bare_schema() -> (r: Json)
    ensures
        r@ == bare_schema_view(),
{
    Json::object().with("properties", Json::object()).with("type", Json::string("object"))
}

/// A schema that leaves further properties open.
pub open spec fn loose_schema_view(properties: JsonView, required: JsonView) -> JsonView {
    JsonView::object()
        .with("properties"@, properties)
        .with("required"@, required)
        .with("type"@, JsonView::Str("object"@))
}

fn loose_schema(properties: Json, required: Json) -> (r: Json)
    ensures
        r@ == loose_schema_view(properties@, required@),
{
    Json::object()
        .with("properties", properties)
        .with("required", required)
        .with("type", Json::string("object"))
}

/// A schema that forbids any property it does not name.
pub open spec fn strict_schema_view(properties: JsonView, required: JsonView) -> JsonView {
    loose_schema_view(properties, required).with("additionalProperties"@, JsonView::Bool(false))
}

fn strict_schema(properties: Json, required: Json) -> (r: Json)
    ensures
        r@ == strict_schema_view(properties@, required@),
{
    loose_schema(properties, required).with("additionalProperties", Json::Bool(false))
}

/// A tool's entry in the list.
pub open spec fn tool_view(name: Seq<char>, description: Seq<char>, schema: JsonView) -> JsonView {
    JsonView::object()
        .with("description"@, JsonView::Str(description))
        .with("inputSchema"@, schema)
        .with("name"@, JsonView::Str(name))
}

fn tool(name: &str, description: &str, schema: Json) -> (r: Json)
    ensures
        r@ == tool_view(name@, description@, schema@),
{
    Json::object()
        .with("description", Json::string(description))
        .with("inputSchema", schema)
        .with("name", Json::string(name))
}

/// The tool `browser_navigate`.
pub open spec fn navigate_tool_view() -> JsonView {
    tool_view(
        "browser_navigate"@,
        "Navigate to a URL and return the page's interactive-element snapshot."@,
        loose_schema_view(
            JsonView::object().with("url"@, text_property_view("Absolute URL to load."@)),
            JsonView::array().item(JsonView::Str("url"@)),
        ),
    )
}

fn navigate_tool() -> (r: Json)
    ensures
        r@ == navigate_tool_view(),
{
    tool(
        "browser_navigate",
        "Navigate to a URL and return the page's interactive-element snapshot.",
        loose_schema(
            Json::object().with("url", text_property("Absolute URL to load.")),
            Json::array().item(Json::string("url")),
        ),
    )
}

/// The tool `browser_snapshot`.
pub open spec fn snapshot_tool_view() -> JsonView {
    tool_view(
        "browser_snapshot"@,
        "Re-capture the current page's interactive-element snapshot (the [N]-indexed list used to address elements)."@,
        bare_schema_view(),
    )
}

fn snapshot_tool() -> (r: Json)
    ensures
        r@ == snapshot_tool_view(),
{
    tool(
        "browser_snapshot",
        "Re-capture the current page's interactive-element snapshot (the [N]-indexed list used to address elements).",
        bare_schema(),
    )
}

/// The tool `browser_screenshot`.
pub open spec fn screenshot_tool_view() -> JsonView {
    tool_view(
        "browser_screenshot"@,
        "Capture a screenshot of the current page; returns the image and its saved path."@,
        bare_schema_view(),
    )
}

fn screenshot_tool() -> (r: Json)
    ensures
        r@ == screenshot_tool_view(),
{
    tool(
        "browser_screenshot",
        "Capture a screenshot of the current page; returns the image and its saved path.",
        bare_schema(),
    )
}

/// The tool `browser_click`.
pub open spec fn click_tool_view() -> JsonView {
    tool_view(
        "browser_click"@,
        "Click the element at the given snapshot index, then return the updated snapshot. Modifier flags reach the page's own handlers; browser-level open-in-new-tab does not apply to a synthetic click — browser_navigate to the link's URL instead."@,
        strict_schema_view(
            JsonView::object()
                .with("index"@, index_property_view())
                .with(
                    "modifiers"@,
                    modifiers_property_view("Optional modifier keys held during the click."@),
                ),
            JsonView::array().item(JsonView::Str("index"@)),
        ),
    )
}

fn click_tool() -> (r: Json)
    ensures
        r@ == click_tool_view(),
{
    tool(
        "browser_click",
        "Click the element at the given snapshot index, then return the updated snapshot. Modifier flags reach the page's own handlers; browser-level open-in-new-tab does not apply to a synthetic click — browser_navigate to the link's URL instead.",
        strict_schema(
            Json::object()
                .with("index", index_property())
                .with(
                    "modifiers",
                    modifiers_property("Optional modifier keys held during the click."),
                ),
            Json::array().item(Json::string("index")),
        ),
    )
}

/// The tool `browser_type`.
pub open spec fn type_tool_view() -> JsonView {
    tool_view(
        "browser_type"@,
        "Type text into the element at the given index, then return the updated snapshot."@,
        strict_schema_view(
            JsonView::object()
                .with("index"@, index_property_view())
                .with("text"@, text_property_view("Text to type."@))
                .with(
                    "clear"@,
                    JsonView::object()
                        .with("type"@, JsonView::Str("boolean"@))
                        .with(
                            "description"@,
                            JsonView::Str("Replace the existing value instead of appending."@),
                        )
                        .with("default"@, JsonView::Bool(false)),
                ),
            JsonView::array().item(JsonView::Str("index"@)).item(JsonView::Str("text"@)),
        ),
    )
}

fn type_tool() -> (r: Json)
    ensures
        r@ == type_tool_view(),
{
    tool(
        "browser_type",
        "Type text into the element at the given index, then return the updated snapshot.",
        strict_schema(
            Json::object()
                .with("index", index_property())
                .with("text", text_property("Text to type."))
                .with(
                    "clear",
                    Json::object()
                        .with("type", Json::string("boolean"))
                        .with(
                            "description",
                            Json::string("Replace the existing value instead of appending."),
                        )
                        .with("default", Json::Bool(false)),
                ),
            Json::array().item(Json::string("index")).item(Json::string("text")),
        ),
    )
}

/// The tool `browser_press_key`.
pub open spec fn press_key_tool_view() -> JsonView {
    tool_view(
        "browser_press_key"@,
        "Press a key (e.g. Enter, Tab, Escape, ArrowDown) on the focused element."@,
        strict_schema_view(
            JsonView::object()
                .with(
                    "key"@,
                    text_property_view("Key name, e.g. \"Enter\" or a single character."@),
                )
                .with(
                    "modifiers"@,
                    modifiers_property_view("Optional modifier keys held during the press."@),
                ),
            JsonView::array().item(JsonView::Str("key"@)),
        ),
    )
}

fn press_key_tool() -> (r: Json)
    ensures
        r@ == press_key_tool_view(),
{
    tool(
        "browser_press_key",
        "Press a key (e.g. Enter, Tab, Escape, ArrowDown) on the focused element.",
        strict_schema(
            Json::object()
                .with("key", text_property("Key name, e.g. \"Enter\" or a single character."))
                .with(
                    "modifiers",
                    modifiers_property("Optional modifier keys held during the press."),
                ),
            Json::array().item(Json::string("key")),
        ),
    )
}

/// The tool `browser_scroll`.
pub open spec fn scroll_tool_view() -> JsonView {
    tool_view(
        "browser_scroll"@,
        "Scroll the page up or down by a pixel amount."@,
        strict_schema_view(
            JsonView::object()
                .with(
                    "direction"@,
                    JsonView::object()
                        .with("type"@, JsonView::Str("string"@))
                        .with(
                            "enum"@,
                            JsonView::array()
                                .item(JsonView::Str("up"@))
                                .item(JsonView::Str("down"@)),
                        ),
                )
                .with(
                    "amount"@,
                    JsonView::object()
                        .with("type"@, JsonView::Str("integer"@))
                        .with("minimum"@, JsonView::number(1))
                        .with("description"@, JsonView::Str("Pixels to scroll."@))
                        .with("default"@, JsonView::number(600)),
                ),
            JsonView::array().item(JsonView::Str("direction"@)),
        ),
    )
}

fn scroll_tool() -> (r: Json)
    ensures
        r@ == scroll_tool_view(),
{
    tool(
        "browser_scroll",
        "Scroll the page up or down by a pixel amount.",
        strict_schema(
            Json::object()
                .with(
                    "direction",
                    Json::object()
                        .with("type", Json::string("string"))
                        .with(
                            "enum",
                            Json::array().item(Json::string("up")).item(Json::string("down")),
                        ),
                )
                .with(
                    "amount",
                    Json::object()
                        .with("type", Json::string("integer"))
                        .with("minimum", Json::number(1))
                        .with("description", Json::string("Pixels to scroll."))
                        .with("default", Json::number(600)),
                ),
            Json::array().item(Json::string("direction")),
        ),
    )
}

/// The tool `browser_select`.
pub open spec fn select_tool_view() -> JsonView {
    tool_view(
        "browser_select"@,
        "Select an option by value in the <select> element at the given index."@,
        strict_schema_view(
            JsonView::object()
                .with("index"@, index_property_view())
                .with("value"@, text_property_view("The option value to select."@)),
            JsonView::array().item(JsonView::Str("index"@)).item(JsonView::Str("value"@)),
        ),
    )
}

fn select_tool() -> (r: Json)
    ensures
        r@ == select_tool_view(),
{
    tool(
        "browser_select",
        "Select an option by value in the <select> element at the given index.",
        strict_schema(
            Json::object()
                .with("index", index_property())
                .with("value", text_property("The option value to select.")),
            Json::array().item(Json::string("index")).item(Json::string("value")),
        ),
    )
}

/// The tool `browser_eval`.
pub open spec fn eval_tool_view() -> JsonView {
    tool_view(
        "browser_eval"@,
        "Evaluate JavaScript in the page (MAIN world) and return the JSON-serialized result."@,
        loose_schema_view(
            JsonView::object()
                .with("code"@, text_property_view("JavaScript expression or statements."@)),
            JsonView::array().item(JsonView::Str("code"@)),
        ),
    )
}

fn eval_tool() -> (r: Json)
    ensures
        r@ == eval_tool_view(),
{
    tool(
        "browser_eval",
        "Evaluate JavaScript in the page (MAIN world) and return the JSON-serialized result.",
        loose_schema(
            Json::object().with("code", text_property("JavaScript expression or statements.")),
            Json::array().item(Json::string("code")),
        ),
    )
}

/// The tool `browser_wait`.
pub open spec fn wait_tool_view() -> JsonView {
    tool_view(
        "browser_wait"@,
        "Wait for a condition before continuing."@,
        loose_schema_view(
            JsonView::object()
                .with(
                    "until"@,
                    JsonView::object()
                        .with("type"@, JsonView::Str("string"@))
                        .with(
                            "enum"@,
                            JsonView::array()
                                .item(JsonView::Str("selector"@))
                                .item(JsonView::Str("text"@))
                                .item(JsonView::Str("navigation"@))
                                .item(JsonView::Str("idle"@)),
                        ),
                )
                .with(
                    "value"@,
                    text_property_view("Selector or text (required for until=selector|text)."@),
                )
                .with(
                    "timeout_ms"@,
                    JsonView::object()
                        .with("type"@, JsonView::Str("integer"@))
                        .with("minimum"@, JsonView::number(1))
                        .with("default"@, JsonView::number(10000)),
                ),
            JsonView::array().item(JsonView::Str("until"@)),
        ),
    )
}

fn wait_tool() -> (r: Json)
    ensures
        r@ == wait_tool_view(),
{
    tool(
        "browser_wait",
        "Wait for a condition before continuing.",
        loose_schema(
            Json::object()
                .with(
                    "until",
                    Json::object()
                        .with("type", Json::string("string"))
                        .with(
                            "enum",
                            Json::array()
                                .item(Json::string("selector"))
                                .item(Json::string("text"))
                                .item(Json::string("navigation"))
                                .item(Json::string("idle")),
                        ),
                )
                .with(
                    "value",
                    text_property("Selector or text (required for until=selector|text)."),
                )
                .with(
                    "timeout_ms",
                    Json::object()
                        .with("type", Json::string("integer"))
                        .with("minimum", Json::number(1))
                        .with("default", Json::number(10000)),
                ),
            Json::array().item(Json::string("until")),
        ),
    )
}

/// The tools that the server offers, in order: the loop of observing, acting and observing again.
pub open spec fn tool_list() -> Seq<JsonView> {
    seq![
        navigate_tool_view(),
        snapshot_tool_view(),
        screenshot_tool_view(),
        click_tool_view(),
        type_tool_view(),
        press_key_tool_view(),
        scroll_tool_view(),
        select_tool_view(),
        eval_tool_view(),
        wait_tool_view(),
    ]
}

/// The tools that the server offers, with the schemas of their arguments.
pub fn tool_specs() -> (r: Json)
    ensures
        r@ == JsonView::Array(tool_list()),
{
    let r = Json::array()
        .item(navigate_tool())
        .item(snapshot_tool())
        .item(screenshot_tool())
        .item(click_tool())
        .item(type_tool())
        .item(press_key_tool())
        .item(scroll_tool())
        .item(select_tool())
        .item(eval_tool())
        .item(wait_tool());
    assert(r@->Array_0 =~= tool_list());
    r
}

/// Whether the server offers a tool called `name`.
pub open spec fn advertised(name: Seq<char>) -> bool {
    exists|i: int|
        0 <= i < tool_list().len() && (#[trigger] tool_list()[i]).get_str("name"@) == Some(name)
}

/// Whether the server offers a tool called `name`: the list that `tools/list` serves decides.
pub fn tool_exists(name: &str) -> (r: bool)
    ensures
        r == advertised(name@),
{
    let specs = tool_specs();
    match specs.as_array() {
        Some(tools) => {
            for i in 0..tools.len()
                invariant
                    json::views(tools@) == tool_list(),
                    forall|j: int|
                        0 <= j < i ==> (#[trigger] tool_list()[j]).get_str("name"@) != Some(name@),
            {
                proof {
                    json::lemma_views_index(tools@);
                }
                if let Some(n) = tools[i].get_str("name") {
                    if same(n, name) {
                        return true;
                    }
                }
            }
            proof {
                json::lemma_views_index(tools@);
            }
            false
        },
        None => false,
    }
}

/// The advertised tools are these ten, in this order.
pub proof fn law_advertised_names()
    ensures
        tool_list().len() == 10,
        tool_list()[0].get_str("name"@) == Some("browser_navigate"@),
        tool_list()[1].get_str("name"@) == Some("browser_snapshot"@),
        tool_list()[2].get_str("name"@) == Some("browser_screenshot"@),
        tool_list()[3].get_str("name"@) == Some("browser_click"@),
        tool_list()[4].get_str("name"@) == Some("browser_type"@),
        tool_list()[5].get_str("name"@) == Some("browser_press_key"@),
        tool_list()[6].get_str("name"@) == Some("browser_scroll"@),
        tool_list()[7].get_str("name"@) == Some("browser_select"@),
        tool_list()[8].get_str("name"@) == Some("browser_eval"@),
        tool_list()[9].get_str("name"@) == Some("browser_wait"@),
{
}

/// Every tool takes an object: the schema of each says so.
pub proof fn law_schemas_are_objects(i: int)
    requires
        0 <= i < tool_list().len(),
    ensures
        tool_list()[i].get("inputSchema"@) is Some,
        tool_list()[i].get("inputSchema"@)->0.get_str("type"@) == Some("object"@),
{
    reveal_strlit("name");
    reveal_strlit("inputSchema");
    reveal_strlit("type");
    reveal_strlit("additionalProperties");
    assert("name"@.len() != "inputSchema"@.len());
    assert("type"@.len() != "additionalProperties"@.len());
}

/// Every acting tool forbids the properties that its schema does not name.
pub proof fn law_action_schemas_are_strict(i: int)
    requires
        3 <= i < 8,
    ensures
        tool_list()[i].get("inputSchema"@) is Some,
        tool_list()[i].get("inputSchema"@)->0.get("additionalProperties"@) == Some(
            JsonView::Bool(false),
        ),
{
    reveal_strlit("name");
    reveal_strlit("inputSchema");
    assert("name"@.len() != "inputSchema"@.len());
}

/// What a tool takes, by the list of tools: the properties of its schema, and those that it needs.
pub open spec fn takes(i: int, key: Seq<char>) -> Option<JsonView> {
    match tool_list()[i].get("inputSchema"@) {
        Some(schema) => match schema.get("properties"@) {
            Some(properties) => properties.get(key),
            None => None,
        },
        None => None,
    }
}

/// Whether a tool needs a property, by the list of tools.
pub open spec fn needs(i: int, key: Seq<char>) -> bool {
    match tool_list()[i].get("inputSchema"@) {
        Some(schema) => match schema.get("required"@) {
            Some(JsonView::Array(names)) => names.contains(JsonView::Str(key)),
            _ => false,
        },
        None => false,
    }
}

/// Each acting tool takes just the fields that its action is read from, and needs just those that the
/// action cannot do without: what the schema admits is never refused for its names, and what the schema
/// asks for is what is asked for.
pub proof fn law_schemas_tell_what_is_read(kind: ActionKind, key: Seq<char>)
    ensures
        ({
            let i: int = match kind {
                ActionKind::Click => 3,
                ActionKind::Type => 4,
                ActionKind::KeyPress => 5,
                ActionKind::Scroll => 6,
                ActionKind::Select => 7,
            };
            &&& takes(i, key) is Some <==> action::known_fields(kind).contains(key)
            &&& needs(i, key) <==> action::required_fields(kind).contains(key)
        }),
{
    reveal_strlit("name");
    reveal_strlit("inputSchema");
    reveal_strlit("description");
    reveal_strlit("properties");
    reveal_strlit("required");
    reveal_strlit("type");
    reveal_strlit("additionalProperties");
    assert("name"@.len() == 4);
    assert("inputSchema"@.len() == 11);
    assert("description"@.len() == 11);
    assert("properties"@.len() == 10);
    assert("required"@.len() == 8);
    assert("type"@.len() == 4);
    assert("additionalProperties"@.len() == 20);
    assert("name"@[0] != "type"@[0]);
    assert("inputSchema"@[0] != "description"@[0]);
    reveal_strlit("index");
    reveal_strlit("modifiers");
    reveal_strlit("text");
    reveal_strlit("clear");
    reveal_strlit("key");
    reveal_strlit("direction");
    reveal_strlit("amount");
    reveal_strlit("value");
    assert("index"@.len() == 5);
    assert("modifiers"@.len() == 9);
    assert("text"@.len() == 4);
    assert("clear"@.len() == 5);
    assert("key"@.len() == 3);
    assert("direction"@.len() == 9);
    assert("amount"@.len() == 6);
    assert("value"@.len() == 5);
    assert("index"@[0] != "clear"@[0]);
    assert("index"@[0] != "value"@[0]);
    assert("modifiers"@[0] != "direction"@[0]);
    assert("clear"@[0] != "value"@[0]);
    let known = action::known_fields(kind);
    let needed = action::required_fields(kind);
    lemma_among(known, key);
    lemma_among(needed, key);
    let names = Seq::<JsonView>::empty();
    lemma_item(names, "index"@, key);
    lemma_item(names, "key"@, key);
    lemma_item(names, "direction"@, key);
    lemma_item(names.push(JsonView::Str("index"@)), "text"@, key);
    lemma_item(names.push(JsonView::Str("index"@)), "value"@, key);
}

proof fn lemma_among(names: Seq<Seq<char>>, key: Seq<char>)
    ensures
        names.len() == 1 ==> (names.contains(key) <==> key == names[0]),
        names.len() == 2 ==> (names.contains(key) <==> key == names[0] || key == names[1]),
        names.len() == 3 ==> (names.contains(key) <==> key == names[0] || key == names[1] || key
            == names[2]),
{
}

proof fn lemma_item(names: Seq<JsonView>, name: Seq<char>, key: Seq<char>)
    ensures
        names.push(JsonView::Str(name)).contains(JsonView::Str(key)) <==> names.contains(
            JsonView::Str(key),
        ) || key == name,
{
    let all = names.push(JsonView::Str(name));
    let wanted = JsonView::Str(key);
    if names.contains(wanted) {
        let i = choose|i: int| 0 <= i < names.len() && names[i] == wanted;
        assert(all[i] == wanted);
    }
    if key == name {
        assert(all[names.len() as int] == wanted);
    }
    if all.contains(wanted) {
        let i = choose|i: int| 0 <= i < all.len() && all[i] == wanted;
        if i < names.len() {
            assert(names[i] == wanted);
        }
    }
}

/// The other tools tell what they take too: an address to go to, a script to run, what to wait for and
/// how long; a snapshot and a screenshot take nothing. An element is counted from one.
pub proof fn law_the_other_tools_tell_what_they_take(key: Seq<char>, i: int)
    ensures
        takes(0, key) is Some <==> key == "url"@,
        needs(0, key) <==> key == "url"@,
        takes(1, key) is None && !needs(1, key),
        takes(2, key) is None && !needs(2, key),
        takes(8, key) is Some <==> key == "code"@,
        needs(8, key) <==> key == "code"@,
        takes(9, key) is Some <==> key == "until"@ || key == "value"@ || key == "timeout_ms"@,
        needs(9, key) <==> key == "until"@,
        i == 3 || i == 4 || i == 7 ==> (takes(i, "index"@) matches Some(p) && p.get("type"@) == Some(
            JsonView::Str("integer"@),
        ) && p.get("minimum"@) == Some(JsonView::Num(json::NumberView::Unsigned(1)))),
{
    reveal_strlit("name");
    reveal_strlit("inputSchema");
    reveal_strlit("description");
    reveal_strlit("properties");
    reveal_strlit("required");
    reveal_strlit("type");
    reveal_strlit("additionalProperties");
    assert("name"@.len() == 4);
    assert("inputSchema"@.len() == 11);
    assert("description"@.len() == 11);
    assert("properties"@.len() == 10);
    assert("required"@.len() == 8);
    assert("type"@.len() == 4);
    assert("additionalProperties"@.len() == 20);
    assert("name"@[0] != "type"@[0]);
    assert("inputSchema"@[0] != "description"@[0]);
    reveal_strlit("url");
    reveal_strlit("code");
    reveal_strlit("until");
    reveal_strlit("value");
    reveal_strlit("timeout_ms");
    assert("url"@.len() == 3);
    assert("code"@.len() == 4);
    assert("until"@.len() == 5);
    assert("value"@.len() == 5);
    assert("timeout_ms"@.len() == 10);
    assert("until"@[0] != "value"@[0]);
    reveal_strlit("type");
    reveal_strlit("minimum");
    reveal_strlit("description");
    assert("type"@.len() == 4);
    assert("minimum"@.len() == 7);
    assert("description"@.len() == 11);
    reveal_strlit("index");
    reveal_strlit("modifiers");
    reveal_strlit("text");
    reveal_strlit("clear");
    reveal_strlit("value");
    assert("index"@.len() == 5);
    assert("modifiers"@.len() == 9);
    assert("text"@.len() == 4);
    assert("clear"@.len() == 5);
    assert("value"@.len() == 5);
    assert("index"@[0] != "clear"@[0]);
    assert("index"@[0] != "value"@[0]);
    assert("clear"@[0] != "value"@[0]);
    let names = Seq::<JsonView>::empty();
    lemma_item(names, "url"@, key);
    lemma_item(names, "code"@, key);
    lemma_item(names, "until"@, key);
}

/// A tool exists exactly where the list has one of its name.
pub proof fn law_tools_exist_where_they_are_listed(name: &str, r: bool, specs: Json)
    requires
        call_ensures(tool_exists, (name,), r),
        call_ensures(tool_specs, (), specs),
    ensures
        specs@ matches JsonView::Array(list) && (r <==> exists|i: int|
            0 <= i < list.len() && (#[trigger] list[i]).get("name"@) == Some(JsonView::Str(name@))),
{
    let list = tool_list();
    if r {
        let i = choose|i: int|
            0 <= i < list.len() && (#[trigger] list[i]).get_str("name"@) == Some(name@);
        assert(list[i].get("name"@) == Some(JsonView::Str(name@)));
    }
    if exists|i: int|
        0 <= i < list.len() && (#[trigger] list[i]).get("name"@) == Some(JsonView::Str(name@)) {
        let i = choose|i: int|
            0 <= i < list.len() && (#[trigger] list[i]).get("name"@) == Some(JsonView::Str(name@));
        assert(list[i].get_str("name"@) == Some(name@));
    }
}

/// A property that takes one of several words lists those that are taken: the ways to scroll, and what
/// can be waited for. A property that may be left out says what it then is.
pub proof fn law_choices_are_listed(way: Seq<char>)
    ensures
        takes(6, "direction"@) matches Some(p) && p.get("type"@) == Some(JsonView::Str("string"@)) && (
        p.get("enum"@) matches Some(JsonView::Array(words)) && (words.contains(JsonView::Str(way))
            <==> way == "up"@ || way == "down"@)),
        takes(9, "until"@) matches Some(p) && p.get("type"@) == Some(JsonView::Str("string"@)) && (
        p.get("enum"@) matches Some(JsonView::Array(words)) && (words.contains(JsonView::Str(way))
            <==> way == "selector"@ || way == "text"@ || way == "navigation"@ || way == "idle"@)),
        takes(6, "amount"@) matches Some(p) && p.get("type"@) == Some(JsonView::Str("integer"@))
            && p.get("minimum"@) == Some(JsonView::Num(json::NumberView::Unsigned(1))) && p.get(
            "default"@,
        ) == Some(JsonView::Num(json::NumberView::Unsigned(600))),
        takes(9, "timeout_ms"@) matches Some(p) && p.get("type"@) == Some(
            JsonView::Str("integer"@),
        ) && p.get("minimum"@) == Some(JsonView::Num(json::NumberView::Unsigned(1))) && p.get(
            "default"@,
        ) == Some(JsonView::Num(json::NumberView::Unsigned(10000))),
        takes(0, "url"@) matches Some(p) && p.get("type"@) == Some(JsonView::Str("string"@)),
        takes(8, "code"@) matches Some(p) && p.get("type"@) == Some(JsonView::Str("string"@)),
        takes(9, "value"@) matches Some(p) && p.get("type"@) == Some(JsonView::Str("string"@)),
        takes(4, "text"@) matches Some(p) && p.get("type"@) == Some(JsonView::Str("string"@)),
        takes(5, "key"@) matches Some(p) && p.get("type"@) == Some(JsonView::Str("string"@)),
        takes(7, "value"@) matches Some(p) && p.get("type"@) == Some(JsonView::Str("string"@)),
{
    reveal_strlit("name");
    reveal_strlit("inputSchema");
    reveal_strlit("description");
    reveal_strlit("properties");
    reveal_strlit("required");
    reveal_strlit("type");
    reveal_strlit("additionalProperties");
    reveal_strlit("enum");
    reveal_strlit("minimum");
    reveal_strlit("default");
    assert("name"@.len() == 4);
    assert("inputSchema"@.len() == 11);
    assert("description"@.len() == 11);
    assert("properties"@.len() == 10);
    assert("required"@.len() == 8);
    assert("type"@.len() == 4);
    assert("additionalProperties"@.len() == 20);
    assert("enum"@.len() == 4);
    assert("minimum"@.len() == 7);
    assert("default"@.len() == 7);
    assert("name"@[0] != "type"@[0]);
    assert("name"@[0] != "enum"@[0]);
    assert("inputSchema"@[0] != "description"@[0]);
    assert("type"@[0] != "enum"@[0]);
    assert("minimum"@[0] != "default"@[0]);
    reveal_strlit("direction");
    reveal_strlit("amount");
    reveal_strlit("until");
    reveal_strlit("value");
    reveal_strlit("timeout_ms");
    reveal_strlit("index");
    reveal_strlit("text");
    reveal_strlit("clear");
    reveal_strlit("modifiers");
    reveal_strlit("key");
    reveal_strlit("url");
    reveal_strlit("code");
    assert("direction"@.len() == 9);
    assert("amount"@.len() == 6);
    assert("until"@.len() == 5);
    assert("value"@.len() == 5);
    assert("timeout_ms"@.len() == 10);
    assert("index"@.len() == 5);
    assert("text"@.len() == 4);
    assert("clear"@.len() == 5);
    assert("modifiers"@.len() == 9);
    assert("key"@.len() == 3);
    assert("url"@.len() == 3);
    assert("code"@.len() == 4);
    assert("direction"@[0] != "modifiers"@[0]);
    assert("until"@[0] != "value"@[0]);
    assert("until"@[0] != "index"@[0]);
    assert("until"@[0] != "clear"@[0]);
    assert("value"@[0] != "index"@[0]);
    assert("value"@[0] != "clear"@[0]);
    assert("index"@[0] != "clear"@[0]);
    assert("text"@[0] != "code"@[0]);
    assert("key"@[0] != "url"@[0]);
    let none = Seq::<JsonView>::empty();
    lemma_item(none, "up"@, way);
    lemma_item(none.push(JsonView::Str("up"@)), "down"@, way);
    lemma_item(none, "selector"@, way);
    let a = none.push(JsonView::Str("selector"@));
    lemma_item(a, "text"@, way);
    let b = a.push(JsonView::Str("text"@));
    lemma_item(b, "navigation"@, way);
    lemma_item(b.push(JsonView::Str("navigation"@)), "idle"@, way);
}

/// The keys that are held meanwhile are told one by one, each held or not; no other is taken.
pub proof fn law_held_keys_are_listed(i: int, key: Seq<char>)
    requires
        i == 3 || i == 5,
    ensures
        takes(i, "modifiers"@) matches Some(p) && p.get("type"@) == Some(JsonView::Str("object"@))
            && p.get("additionalProperties"@) == Some(JsonView::Bool(false)) && (p.get(
            "properties"@,
        ) matches Some(keys) && {
            &&& keys.get(key) is Some <==> key == "ctrl"@ || key == "shift"@ || key == "alt"@ || key
                == "meta"@
            &&& keys.get(key) matches Some(held) ==> held.get("type"@) == Some(
                JsonView::Str("boolean"@),
            )
        }),
{
    reveal_strlit("name");
    reveal_strlit("inputSchema");
    reveal_strlit("description");
    reveal_strlit("properties");
    reveal_strlit("required");
    reveal_strlit("type");
    reveal_strlit("additionalProperties");
    assert("name"@.len() == 4);
    assert("inputSchema"@.len() == 11);
    assert("description"@.len() == 11);
    assert("properties"@.len() == 10);
    assert("required"@.len() == 8);
    assert("type"@.len() == 4);
    assert("additionalProperties"@.len() == 20);
    assert("name"@[0] != "type"@[0]);
    assert("inputSchema"@[0] != "description"@[0]);
    reveal_strlit("index");
    reveal_strlit("modifiers");
    reveal_strlit("key");
    assert("index"@.len() == 5);
    assert("modifiers"@.len() == 9);
    assert("key"@.len() == 3);
    reveal_strlit("ctrl");
    reveal_strlit("shift");
    reveal_strlit("alt");
    reveal_strlit("meta");
    assert("ctrl"@.len() == 4);
    assert("shift"@.len() == 5);
    assert("alt"@.len() == 3);
    assert("meta"@.len() == 4);
    assert("ctrl"@[0] != "meta"@[0]);
}

} // verus!
