//! Parameters of the language-server requests and notifications that the
//! client sends.
use vstd::prelude::*;

use crate::json::{Json, JsonValue};
use crate::message::{json_text, text};

verus! {

pub open spec fn obj1(k1: Seq<char>, v1: JsonValue) -> JsonValue {
    JsonValue::Object(seq![k1], seq![v1])
}

pub open spec fn obj2(k1: Seq<char>, v1: JsonValue, k2: Seq<char>, v2: JsonValue) -> JsonValue {
    JsonValue::Object(seq![k1, k2], seq![v1, v2])
}

pub open spec fn obj3(
    k1: Seq<char>,
    v1: JsonValue,
    k2: Seq<char>,
    v2: JsonValue,
    k3: Seq<char>,
    v3: JsonValue,
) -> JsonValue {
    JsonValue::Object(seq![k1, k2, k3], seq![v1, v2, v3])
}

pub open spec fn obj4(
    k1: Seq<char>,
    v1: JsonValue,
    k2: Seq<char>,
    v2: JsonValue,
    k3: Seq<char>,
    v3: JsonValue,
    k4: Seq<char>,
    v4: JsonValue,
) -> JsonValue {
    JsonValue::Object(seq![k1, k2, k3, k4], seq![v1, v2, v3, v4])
}

pub open spec fn num(n: int) -> JsonValue {
    JsonValue::Num(n)
}

/// The URI of the file at `path`.
pub open spec fn file_uri(path: Seq<char>) -> Seq<char> {
    "file://"@ + path
}

/// `{"uri": uri}`
pub open spec fn document_id(uri: Seq<char>) -> JsonValue {
    obj1("uri"@, text(uri))
}

/// `{"line": line, "character": character}`
pub open spec fn position_value(line: u32, character: u32) -> JsonValue {
    obj2("line"@, num(line as int), "character"@, num(character as int))
}

/// A position in the document at `uri`.
pub open spec fn position_params_value(uri: Seq<char>, line: u32, character: u32) -> JsonValue {
    obj2("textDocument"@, document_id(uri), "position"@, position_value(line, character))
}

/// A position, asking for the declaration among the references too.
pub open spec fn references_params_value(uri: Seq<char>, line: u32, character: u32) -> JsonValue {
    obj3(
        "textDocument"@,
        document_id(uri),
        "position"@,
        position_value(line, character),
        "context"@,
        obj1("includeDeclaration"@, JsonValue::Bool(true)),
    )
}

/// A position and the new name for the symbol there.
pub open spec fn rename_params_value(
    uri: Seq<char>,
    line: u32,
    character: u32,
    new_name: Seq<char>,
) -> JsonValue {
    obj3(
        "textDocument"@,
        document_id(uri),
        "position"@,
        position_value(line, character),
        "newName"@,
        text(new_name),
    )
}

/// `{"query": query}`
pub open spec fn workspace_symbol_params_value(query: Seq<char>) -> JsonValue {
    obj1("query"@, text(query))
}

/// The whole document at `uri`, indented by four spaces.
pub open spec fn formatting_params_value(uri: Seq<char>) -> JsonValue {
    obj2(
        "textDocument"@,
        document_id(uri),
        "options"@,
        obj2("tabSize"@, num(4), "insertSpaces"@, JsonValue::Bool(true)),
    )
}

/// The code actions for a range, of kind `kind`.
pub open spec fn code_action_params_value(
    uri: Seq<char>,
    start_line: u32,
    start_character: u32,
    end_line: u32,
    end_character: u32,
    kind: Seq<char>,
) -> JsonValue {
    obj3(
        "textDocument"@,
        document_id(uri),
        "range"@,
        obj2(
            "start"@,
            position_value(start_line, start_character),
            "end"@,
            position_value(end_line, end_character),
        ),
        "context"@,
        obj2(
            "diagnostics"@,
            JsonValue::Array(Seq::empty()),
            "only"@,
            JsonValue::Array(seq![text(kind)]),
        ),
    )
}

/// All the code actions for a range.
pub open spec fn range_code_action_params_value(
    uri: Seq<char>,
    start_line: u32,
    start_character: u32,
    end_line: u32,
    end_character: u32,
) -> JsonValue {
    obj3(
        "textDocument"@,
        document_id(uri),
        "range"@,
        obj2(
            "start"@,
            position_value(start_line, start_character),
            "end"@,
            position_value(end_line, end_character),
        ),
        "context"@,
        obj1("diagnostics"@, JsonValue::Array(Seq::empty())),
    )
}

/// The notice that the document at `uri` is open with content `content`.
pub open spec fn did_open_params_value(uri: Seq<char>, content: Seq<char>) -> JsonValue {
    obj1(
        "textDocument"@,
        obj4(
            "uri"@,
            text(uri),
            "languageId"@,
            text("rust"@),
            "version"@,
            num(1),
            "text"@,
            text(content),
        ),
    )
}

/// The capabilities that the client declares.
pub open spec fn capabilities_value() -> JsonValue {
    let off = obj1("dynamicRegistration"@, JsonValue::Bool(false));
    obj2(
        "textDocument"@,
        obj3(
            "definition"@,
            off,
            "references"@,
            off,
            "publishDiagnostics"@,
            obj1("relatedInformation"@, JsonValue::Bool(true)),
        ),
        "workspace"@,
        obj1("symbol"@, off),
    )
}

/// The parameters of the initialization request for the workspace at
/// `root_uri`.
pub open spec fn initialize_params_value(root_uri: Seq<char>) -> JsonValue {
    obj4(
        "processId"@,
        JsonValue::Null,
        "clientInfo"@,
        obj2("name"@, text("rust-mcp-server"@), "version"@, text("0.1.0"@)),
        "rootUri"@,
        text(root_uri),
        "capabilities"@,
        capabilities_value(),
    )
}

fn object1(k1: &str, v1: Json) -> (r: Json)
    ensures
        r@ == obj1(k1@, v1@),
{
    let ghost g1 = v1@;
    let mut m: Vec<(String, Json)> = Vec::new();
    m.push((String::from_str(k1), v1));
    let r = Json::Object(m);
    assert(r@->Object_0 =~= seq![k1@]);
    assert(r@->Object_1 =~= seq![g1]);
    r
}

fn object2(k1: &str, v1: Json, k2: &str, v2: Json) -> (r: Json)
    ensures
        r@ == obj2(k1@, v1@, k2@, v2@),
{
    let ghost g1 = v1@;
    let ghost g2 = v2@;
    let mut m: Vec<(String, Json)> = Vec::new();
    m.push((String::from_str(k1), v1));
    m.push((String::from_str(k2), v2));
    let r = Json::Object(m);
    assert(r@->Object_0 =~= seq![k1@, k2@]);
    assert(r@->Object_1 =~= seq![g1, g2]);
    r
}

fn object3(k1: &str, v1: Json, k2: &str, v2: Json, k3: &str, v3: Json) -> (r: Json)
    ensures
        r@ == obj3(k1@, v1@, k2@, v2@, k3@, v3@),
{
    let ghost g1 = v1@;
    let ghost g2 = v2@;
    let ghost g3 = v3@;
    let mut m: Vec<(String, Json)> = Vec::new();
    m.push((String::from_str(k1), v1));
    m.push((String::from_str(k2), v2));
    m.push((String::from_str(k3), v3));
    let r = Json::Object(m);
    assert(r@->Object_0 =~= seq![k1@, k2@, k3@]);
    assert(r@->Object_1 =~= seq![g1, g2, g3]);
    r
}

fn object4(k1: &str, v1: Json, k2: &str, v2: Json, k3: &str, v3: Json, k4: &str, v4: Json) -> (r:
    Json)
    ensures
        r@ == obj4(k1@, v1@, k2@, v2@, k3@, v3@, k4@, v4@),
{
    let ghost g1 = v1@;
    let ghost g2 = v2@;
    let ghost g3 = v3@;
    let ghost g4 = v4@;
    let mut m: Vec<(String, Json)> = Vec::new();
    m.push((String::from_str(k1), v1));
    m.push((String::from_str(k2), v2));
    m.push((String::from_str(k3), v3));
    m.push((String::from_str(k4), v4));
    let r = Json::Object(m);
    assert(r@->Object_0 =~= seq![k1@, k2@, k3@, k4@]);
    assert(r@->Object_1 =~= seq![g1, g2, g3, g4]);
    r
}

fn number(n: u32) -> (r: Json)
    ensures
        r@ == num(n as int),
{
    let r = Json::UInt(n as u64);
    assert(r@ == num(n as int));
    r
}

fn boolean(b: bool) -> (r: Json)
    ensures
        r@ == JsonValue::Bool(b),
{
    let r = Json::Bool(b);
    assert(r@ == JsonValue::Bool(b));
    r
}

fn empty_array() -> (r: Json)
    ensures
        r@ == JsonValue::Array(Seq::empty()),
{
    let r = Json::Array(Vec::new());
    assert(r@->Array_0 =~= Seq::<JsonValue>::empty());
    r
}

fn null() -> (r: Json)
    ensures
        r@ == JsonValue::Null,
{
    let r = Json::Null;
    assert(r@ == JsonValue::Null);
    r
}

/// The URI of the file at `path`.
pub fn file_uri_of(path: &str) -> (r: String)
    ensures
        r@ == file_uri(path@),
{
    String::from_str("file://").concat(path)
}

pub fn position_params(uri: &str, line: u32, character: u32) -> (r: Json)
    ensures
        r@ == position_params_value(uri@, line, character),
{
    object2(
        "textDocument",
        object1("uri", json_text(uri)),
        "position",
        object2("line", number(line), "character", number(character)),
    )
}

pub fn references_params(uri: &str, line: u32, character: u32) -> (r: Json)
    ensures
        r@ == references_params_value(uri@, line, character),
{
    object3(
        "textDocument",
        object1("uri", json_text(uri)),
        "position",
        object2("line", number(line), "character", number(character)),
        "context",
        object1("includeDeclaration", boolean(true)),
    )
}

pub fn rename_params(uri: &str, line: u32, character: u32, new_name: &str) -> (r: Json)
    ensures
        r@ == rename_params_value(uri@, line, character, new_name@),
{
    object3(
        "textDocument",
        object1("uri", json_text(uri)),
        "position",
        object2("line", number(line), "character", number(character)),
        "newName",
        json_text(new_name),
    )
}

pub fn workspace_symbol_params(query: &str) -> (r: Json)
    ensures
        r@ == workspace_symbol_params_value(query@),
{
    object1("query", json_text(query))
}

pub fn formatting_params(uri: &str) -> (r: Json)
    ensures
        r@ == formatting_params_value(uri@),
{
    object2(
        "textDocument",
        object1("uri", json_text(uri)),
        "options",
        object2("tabSize", number(4), "insertSpaces", boolean(true)),
    )
}

pub fn code_action_params(
    uri: &str,
    start_line: u32,
    start_character: u32,
    end_line: u32,
    end_character: u32,
    kind: &str,
) -> (r: Json)
    ensures
        r@ == code_action_params_value(
            uri@,
            start_line,
            start_character,
            end_line,
            end_character,
            kind@,
        ),
{
    let mut only: Vec<Json> = Vec::new();
    only.push(json_text(kind));
    let only = Json::Array(only);
    assert(only@->Array_0 =~= seq![text(kind@)]);
    object3(
        "textDocument",
        object1("uri", json_text(uri)),
        "range",
        object2(
            "start",
            object2("line", number(start_line), "character", number(start_character)),
            "end",
            object2("line", number(end_line), "character", number(end_character)),
        ),
        "context",
        object2("diagnostics", empty_array(), "only", only),
    )
}

pub fn range_code_action_params(
    uri: &str,
    start_line: u32,
    start_character: u32,
    end_line: u32,
    end_character: u32,
) -> (r: Json)
    ensures
        r@ == range_code_action_params_value(
            uri@,
            start_line,
            start_character,
            end_line,
            end_character,
        ),
{
    object3(
        "textDocument",
        object1("uri", json_text(uri)),
        "range",
        object2(
            "start",
            object2("line", number(start_line), "character", number(start_character)),
            "end",
            object2("line", number(end_line), "character", number(end_character)),
        ),
        "context",
        object1("diagnostics", empty_array()),
    )
}

pub fn did_open_params(uri: &str, content: &str) -> (r: Json)
    ensures
        r@ == did_open_params_value(uri@, content@),
{
    object1(
        "textDocument",
        object4(
            "uri",
            json_text(uri),
            "languageId",
            json_text("rust"),
            "version",
            number(1),
            "text",
            json_text(content),
        ),
    )
}

fn capabilities() -> (r: Json)
    ensures
        r@ == capabilities_value(),
{
    object2(
        "textDocument",
        object3(
            "definition",
            object1("dynamicRegistration", boolean(false)),
            "references",
            object1("dynamicRegistration", boolean(false)),
            "publishDiagnostics",
            object1("relatedInformation", boolean(true)),
        ),
        "workspace",
        object1("symbol", object1("dynamicRegistration", boolean(false))),
    )
}

pub fn initialize_params(root_uri: &str) -> (r: Json)
    ensures
        r@ == initialize_params_value(root_uri@),
{
    object4(
        "processId",
        null(),
        "clientInfo",
        object2("name", json_text("rust-mcp-server"), "version", json_text("0.1.0")),
        "rootUri",
        json_text(root_uri),
        "capabilities",
        capabilities(),
    )
}

} // verus!
