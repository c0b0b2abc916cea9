//! What the crates underneath do, as far as this library relies on it.
//!
//! Each function here stands for one call into another crate or into the standard library, and
//! its contract says what that call is taken to do. The contracts of this file are taken on
//! trust; all others are proved.

use vstd::prelude::*;
use crate::json::{JsonView, keys_distinct};

verus! {

/// `serde_json::Value`: a JSON value. See [`value_json`] for what it says.
#[verifier::external_type_specification]
#[verifier::external_body]
pub struct ExValue(serde_json::Value);

/// `serde_json::Number`: a JSON number, carried along. See [`is_float`] for all that is asked of
/// it.
#[verifier::external_type_specification]
#[verifier::external_body]
pub struct ExNumber(serde_json::Number);

/// `rmcp::model::Tool`: one entry of a tool list, carried along unread.
#[verifier::external_type_specification]
#[verifier::external_body]
pub struct ExTool(rmcp::model::Tool);

/// `rmcp::model::CallToolResult`: the result of a tool call, carried along unread.
#[verifier::external_type_specification]
#[verifier::external_body]
pub struct ExCallToolResult(rmcp::model::CallToolResult);

/// The contents of a `serde_json::Value`.
///
/// An object's members stand in the order in which `serde_json::Map` walks them, which is the
/// order of insertion, since the map is built with the `preserve_order` feature.
pub uninterp spec fn value_json(value: serde_json::Value) -> JsonView;

/// What `serde_json::from_str` makes of a text: the value it holds, or the message of the error.
pub uninterp spec fn json_parse(text: Seq<char>) -> Result<JsonView, Seq<char>>;

/// The text that `serde_json::to_string` gives a value.
pub uninterp spec fn json_text(json: JsonView) -> Seq<char>;

/// The number that `Number::from` makes of a `u64`.
pub uninterp spec fn u64_number(n: u64) -> serde_json::Number;

/// The tools that `serde_json::from_value` reads from a value, or the message of the error.
pub uninterp spec fn tools_of(json: JsonView) -> Result<Seq<rmcp::model::Tool>, Seq<char>>;

/// The tool call result that `serde_json::from_value` reads from a value, if it finds one.
pub uninterp spec fn call_result_of(json: JsonView) -> Option<rmcp::model::CallToolResult>;

/// Whether `Number::is_f64` holds of a number: whether it is kept in floating point.
pub uninterp spec fn is_float(n: serde_json::Number) -> bool;

/// Whether a character is white space, that is, has the Unicode property `White_Space`.
pub open spec fn white_space(c: char) -> bool {
    let code = c as u32;
    ||| 0x9 <= code <= 0xd
    ||| code == 0x20
    ||| code == 0x85
    ||| code == 0xa0
    ||| code == 0x1680
    ||| 0x2000 <= code <= 0x200a
    ||| code == 0x2028
    ||| code == 0x2029
    ||| code == 0x202f
    ||| code == 0x205f
    ||| code == 0x3000
}

/// Whether a value survives being written as text and read again, at a nesting of at most
/// `depth` arrays and objects.
///
/// An integer does. A number in floating point has to survive this by itself, which one with
/// many fractional digits may not; and an object must not begin with the key by which
/// `serde_json` marks raw text.
pub open spec fn reads_back(json: JsonView, depth: nat) -> bool
    decreases json,
{
    match json {
        JsonView::Number(n) => {
            ||| !is_float(n)
            ||| exists|u: u64| n == #[trigger] u64_number(u)
            ||| json_parse(json_text(json)) == Ok::<JsonView, Seq<char>>(json)
        },
        JsonView::Array(items) => {
            &&& depth > 0
            &&& forall|i: int|
                0 <= i < items.len() ==> reads_back(#[trigger] items[i], (depth - 1) as nat)
        },
        JsonView::Object(entries) => {
            &&& depth > 0
            &&& keys_distinct(entries)
            &&& entries.len() > 0 ==> entries[0].0 != "$serde_json::private::RawValue"@
            &&& forall|i: int|
                0 <= i < entries.len() ==> reads_back(
                    (#[trigger] entries[i]).1,
                    (depth - 1) as nat,
                )
        },
        _ => true,
    }
}

/// One level of a `serde_json::Value`, its variants told apart.
pub enum ValueParts {
    Null,
    Bool(bool),
    Number(serde_json::Number),
    Str(String),
    Array(Vec<serde_json::Value>),
    Object(Vec<(String, serde_json::Value)>),
}

impl ValueParts {
    /// The JSON value of which these are the parts.
    pub open spec fn json(self) -> JsonView {
        match self {
            ValueParts::Null => JsonView::Null,
            ValueParts::Bool(b) => JsonView::Bool(b),
            ValueParts::Number(n) => JsonView::Number(n),
            ValueParts::Str(s) => JsonView::Str(s@),
            ValueParts::Array(items) => JsonView::Array(
                Seq::new(items@.len(), |i: int| value_json(items@[i])),
            ),
            ValueParts::Object(entries) => JsonView::Object(
                Seq::new(entries@.len(), |i: int| (entries@[i].0@, value_json(entries@[i].1))),
            ),
        }
    }

    /// Whether no key of an object comes twice.
    pub open spec fn distinct(self) -> bool {
        self.json() matches JsonView::Object(entries) ==> keys_distinct(entries)
    }
}

/// What came of reading a value: the value's contents, or the message of the error.
pub open spec fn parsed_json(parsed: Result<serde_json::Value, String>) -> Result<
    JsonView,
    Seq<char>,
> {
    match parsed {
        Ok(value) => Ok(value_json(value)),
        Err(message) => Err(message@),
    }
}

/// What came of reading a list of tools: the tools, or the message of the error.
pub open spec fn tools_read(read: Result<Vec<rmcp::model::Tool>, String>) -> Result<
    Seq<rmcp::model::Tool>,
    Seq<char>,
> {
    match read {
        Ok(tools) => Ok(tools@),
        Err(message) => Err(message@),
    }
}

/// Whether `trimmed` is what is left of `text` without the white space at its two ends.
pub open spec fn is_trimmed(trimmed: Seq<char>, text: Seq<char>) -> bool {
    exists|from: int, to: int|
        {
            &&& 0 <= from <= to <= text.len()
            &&& trimmed == #[trigger] text.subrange(from, to)
            &&& forall|i: int|
                0 <= i < from || to <= i < text.len() ==> white_space(#[trigger] text[i])
            &&& from < to ==> !white_space(text[from]) && !white_space(text[to - 1])
        }
}

/// Takes a `serde_json::Value` apart, one level deep.
///
/// Taken to be true of the enum: its variants are those of [`ValueParts`], each holding what
/// [`value_json`] says; and a `serde_json::Map` never holds a key twice.
#[verifier::external_body]
pub(crate) fn open_value(value: serde_json::Value) -> (parts: ValueParts)
    ensures
        parts.json() == value_json(value),
        parts.distinct(),
{
    match value {
        serde_json::Value::Null => ValueParts::Null,
        serde_json::Value::Bool(b) => ValueParts::Bool(b),
        serde_json::Value::Number(n) => ValueParts::Number(n),
        serde_json::Value::String(s) => ValueParts::Str(s),
        serde_json::Value::Array(items) => ValueParts::Array(items),
        serde_json::Value::Object(map) => ValueParts::Object(map.into_iter().collect()),
    }
}

/// Puts a `serde_json::Value` together, one level deep.
///
/// Taken to be true of the enum: each variant holds what it is made from, and a
/// `serde_json::Map` collected from entries with distinct keys holds these entries in their
/// order.
#[verifier::external_body]
pub(crate) fn close_value(parts: ValueParts) -> (value: serde_json::Value)
    requires
        parts.distinct(),
    ensures
        value_json(value) == parts.json(),
{
    match parts {
        ValueParts::Null => serde_json::Value::Null,
        ValueParts::Bool(b) => serde_json::Value::Bool(b),
        ValueParts::Number(n) => serde_json::Value::Number(n),
        ValueParts::Str(s) => serde_json::Value::String(s),
        ValueParts::Array(items) => serde_json::Value::Array(items),
        ValueParts::Object(entries) => serde_json::Value::Object(entries.into_iter().collect()),
    }
}

/// `Number::from` on a `u64`: the number is named, [`u64_number`]. It is also taken to be true
/// that it is not kept in floating point.
#[verifier::external_body]
pub(crate) fn number_from_u64(n: u64) -> (number: serde_json::Number)
    ensures
        number == u64_number(n),
        !is_float(number),
{
    serde_json::Number::from(n)
}

/// `Number::is_f64`: the outcome is named, [`is_float`].
#[verifier::external_body]
pub(crate) fn number_is_f64(n: &serde_json::Number) -> (float: bool)
    ensures
        float == is_float(*n),
{
    n.is_f64()
}

/// `serde_json::from_str`, on a text that is to hold any JSON value.
///
/// The outcome is named, [`json_parse`]. It is also taken to be true that the text of a value
/// that [`reads_back`] gives this value again: `serde_json` escapes what it must and undoes
/// it, writes and reads an integer digit for digit, keeps the order of an object's members, and
/// stops only at a nesting of more than 127.
#[verifier::external_body]
pub(crate) fn parse_value(text: &str) -> (parsed: Result<serde_json::Value, String>)
    ensures
        parsed_json(parsed) == json_parse(text@),
        forall|json: JsonView|
            #![trigger json_text(json)]
            reads_back(json, 127) && json_text(json) == text@ ==> parsed is Ok && value_json(
                parsed->Ok_0,
            ) == json,
{
    serde_json::from_str(text).map_err(|error: serde_json::Error| error.to_string())
}

/// `serde_json::to_string`, on any JSON value.
///
/// The text is named, [`json_text`]. It is also taken to be true that there always is one, since
/// writing a `Value` to memory has no way to fail; that it holds no line break, since the
/// compact form puts none in and control characters within strings are escaped; and that the
/// text of an object begins with a brace.
#[verifier::external_body]
pub(crate) fn value_text(value: &serde_json::Value) -> (text: Result<String, String>)
    ensures
        text is Ok,
        text->Ok_0@ == json_text(value_json(*value)),
        !text->Ok_0@.contains('\n'),
        value_json(*value) is Object ==> text->Ok_0@.len() > 0 && text->Ok_0@[0] == '{',
{
    serde_json::to_string(value).map_err(|error: serde_json::Error| error.to_string())
}

/// `serde_json::from_value`, for a list of tools.
///
/// The outcome is named, [`tools_of`].
#[verifier::external_body]
pub(crate) fn read_tools(value: serde_json::Value) -> (read: Result<
    Vec<rmcp::model::Tool>,
    String,
>)
    ensures
        tools_read(read) == tools_of(value_json(value)),
{
    serde_json::from_value(value).map_err(|error: serde_json::Error| error.to_string())
}

/// `serde_json::from_value`, for the result of a tool call.
///
/// The outcome is named, [`call_result_of`].
#[verifier::external_body]
pub(crate) fn read_call_result(value: serde_json::Value) -> (read: Option<
    rmcp::model::CallToolResult,
>)
    ensures
        read == call_result_of(value_json(value)),
{
    serde_json::from_value(value).ok()
}

/// The JSON form of a tool call result that is no error and holds one piece of text.
pub open spec fn text_result_json(text: Seq<char>) -> JsonView {
    JsonView::Object(
        seq![
            (
                "content"@,
                JsonView::Array(
                    seq![
                        JsonView::Object(
                            seq![
                                ("type"@, JsonView::Str("text"@)),
                                ("text"@, JsonView::Str(text)),
                            ],
                        ),
                    ],
                ),
            ),
            ("isError"@, JsonView::Bool(false)),
        ],
    )
}

/// `rmcp::model::CallToolResult::success`, on one `Content::text`.
///
/// Taken to be true: the result is the one that is read from the JSON form of a result that is
/// no error and holds this one piece of text.
#[verifier::external_body]
pub(crate) fn text_result(text: &str) -> (result: rmcp::model::CallToolResult)
    ensures
        call_result_of(text_result_json(text@)) == Some(result),
{
    rmcp::model::CallToolResult::success(vec![rmcp::model::Content::text(text)])
}

/// The fields of an error as `agent_client_protocol` and `rmcp` have it.
pub struct ErrorParts {
    pub code: i32,
    pub message: String,
    pub data: Option<serde_json::Value>,
}

/// `agent_client_protocol::Error::invalid_params`, with `data` attached.
///
/// Taken to be true: the code is that of JSON-RPC's invalid parameters, the message is
/// "Invalid params", and the data is the text as a JSON string.
#[verifier::external_body]
pub(crate) fn acp_invalid_params(data: &str) -> (error: ErrorParts)
    ensures
        error.code == -32602,
        error.message@ == "Invalid params"@,
        error.data is Some,
        value_json(error.data->0) == JsonView::Str(data@),
{
    let error = agent_client_protocol::Error::invalid_params().data(data);
    ErrorParts { code: error.code.into(), message: error.message, data: error.data }
}

/// `rmcp::ErrorData::internal_error`, with data.
///
/// Taken to be true: the code is that of JSON-RPC's internal error, and the message and the
/// data are those handed in.
#[verifier::external_body]
pub(crate) fn mcp_internal_error(message: String, data: serde_json::Value) -> (error: ErrorParts)
    ensures
        error.code == -32603,
        error.message@ == message@,
        error.data == Some(data),
{
    let error = rmcp::ErrorData::internal_error(message, Some(data));
    ErrorParts { code: error.code.0, message: error.message.into_owned(), data: error.data }
}

/// `str::trim`.
///
/// Taken to be true: what is left of the text is what stands between the white space at its two
/// ends, where white space is what Unicode has as `White_Space`.
#[verifier::external_body]
pub(crate) fn trim(text: &str) -> (trimmed: &str)
    ensures
        is_trimmed(trimmed@, text@),
{
    text.trim()
}

} // verus!
