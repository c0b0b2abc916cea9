//! The session's end of the line: a stdio MCP server that forwards every tool list and tool
//! call to the bridge, and hands back what comes of it.

use vstd::prelude::*;
use vstd::string::StringExecFns;
use crate::foreign::{
    call_result_of, json_parse, json_text, read_call_result, read_tools, reads_back, text_result,
    text_result_json, tools_of, tools_read, u64_number,
};
use crate::json::{
    lemma_fresh_key, lemma_key_index, member, no_members, outcome_view, Json, JsonObject, JsonView,
};
use crate::mcp_acp_bridge::bridge::{
    connect_outcome, end_line, is_line, lemma_call_comes_to_what_the_client_answers,
    lemma_relay_outcome, lemma_relay_requests, lemma_response_keys, message_outcome,
    outcome_response, relay_start, relay_trace, ReplyView, RequestView,
};
use crate::rpc_error::{internal_error_view, RpcError, RpcErrorView};

verus! {

/// How long the bridge is given to answer, in seconds.
pub const REPLY_TIMEOUT_SECONDS: u64 = 30;

/// Hands out the identifiers of the calls of one process.
#[derive(Debug, PartialEq, Eq)]
pub struct RequestIds {
    pub next: u64,
}

/// The identifier of the call with this position, counted from zero. After the greatest
/// identifier comes zero.
pub open spec fn nth_request_id(position: nat) -> nat {
    (1 + position) % 0x1_0000_0000_0000_0000
}

impl RequestIds {
    /// Before the first call.
    pub fn new() -> (ids: RequestIds)
        ensures
            ids.next == nth_request_id(0),
            ids.next == 1,
    {
        RequestIds { next: 1 }
    }

    /// The identifier of the next call.
    pub fn take(&mut self) -> (id: u64)
        ensures
            id == old(self).next,
            final(self).next == (old(self).next + 1) % 0x1_0000_0000_0000_0000,
    {
        let id: u64 = self.next;
        self.next = id.wrapping_add(1);
        id
    }
}

/// The identifier after that of a call is that of the next call.
pub proof fn lemma_next_request_id(position: nat)
    ensures
        nth_request_id(position + 1) == (nth_request_id(position) + 1) % 0x1_0000_0000_0000_0000,
{
}

/// The first call is number one, and no two calls have the same number unless all the numbers
/// were given out between them.
pub proof fn lemma_request_ids_differ(first: nat, second: nat)
    requires
        first < second < first + 0x1_0000_0000_0000_0000,
    ensures
        nth_request_id(0) == 1,
        nth_request_id(first) != nth_request_id(second),
{
}

/// The stdio MCP server of one session for one MCP server of the client.
#[derive(Debug, PartialEq, Eq)]
pub struct AcpMcpProxy {
    pub bridge_addr: String,
    pub session_id: String,
    pub server_id: String,
    pub server_name: String,
}

/// What the server says of itself.
#[derive(Debug, PartialEq, Eq)]
pub struct ProxyInfo {
    pub name: String,
    pub title: Option<String>,
    pub version: String,
    /// Whether it offers tools.
    pub tools: bool,
    pub instructions: Option<String>,
}

impl AcpMcpProxy {
    /// Reads the settings of the server. The first three have to be there; what went wrong
    /// with the first that is not comes back, together with the message to report it under.
    /// Without a name, the server goes by its identifier.
    pub fn from_settings<E>(
        bridge_addr: Result<String, E>,
        session_id: Result<String, E>,
        server_id: Result<String, E>,
        server_name: Result<String, E>,
    ) -> (proxy: Result<AcpMcpProxy, (E, String)>)
        ensures
            match (bridge_addr, session_id, server_id) {
                (Err(error), _, _) => proxy matches Err(failed) && failed.0 == error && failed.1@
                    == "ACP_MCP_BRIDGE_ADDR environment variable is required"@,
                (_, Err(error), _) => proxy matches Err(failed) && failed.0 == error && failed.1@
                    == "ACP_MCP_SESSION_ID environment variable is required"@,
                (_, _, Err(error)) => proxy matches Err(failed) && failed.0 == error && failed.1@
                    == "ACP_MCP_SERVER_ID environment variable is required"@,
                (Ok(addr), Ok(session), Ok(server)) => {
                    &&& proxy matches Ok(p)
                    &&& p.bridge_addr == addr
                    &&& p.session_id == session
                    &&& p.server_id == server
                    &&& p.server_name == (match server_name {
                        Ok(name) => name,
                        Err(_) => server,
                    })
                },
            },
    {
        let bridge_addr: String = match bridge_addr {
            Ok(value) => value,
            Err(error) => {
                return Err(
                    (error, "ACP_MCP_BRIDGE_ADDR environment variable is required".to_owned()),
                );
            },
        };
        let session_id: String = match session_id {
            Ok(value) => value,
            Err(error) => {
                return Err(
                    (error, "ACP_MCP_SESSION_ID environment variable is required".to_owned()),
                );
            },
        };
        let server_id: String = match server_id {
            Ok(value) => value,
            Err(error) => {
                return Err(
                    (error, "ACP_MCP_SERVER_ID environment variable is required".to_owned()),
                );
            },
        };
        let server_name: String = match server_name {
            Ok(value) => value,
            Err(_) => server_id.clone(),
        };
        Ok(AcpMcpProxy { bridge_addr, session_id, server_id, server_name })
    }

    /// What the server says of itself: its name and title tell whose tools it offers.
    pub fn get_info(&self, version: &str) -> (info: ProxyInfo)
        ensures
            info.name@ == "codex-acp-mcp-bridge:"@ + self.server_name@,
            info.title matches Some(title) && title@ == "Codex ACP MCP Bridge ("@
                + self.server_name@ + ")"@,
            info.version@ == version@,
            info.tools,
            info.instructions is None,
    {
        let name: String = "codex-acp-mcp-bridge:".to_owned().concat(self.server_name.as_str());
        let title: String = "Codex ACP MCP Bridge (".to_owned().concat(
            self.server_name.as_str(),
        ).concat(")");
        ProxyInfo {
            name,
            title: Some(title),
            version: version.to_owned(),
            tools: true,
            instructions: None,
        }
    }
}

/// The members of the object that a call is on the wire.
pub open spec fn request_members(
    id: u64,
    session_id: Seq<char>,
    server_id: Seq<char>,
    method: Seq<char>,
    params: JsonView,
) -> Seq<(Seq<char>, JsonView)> {
    seq![
        ("id"@, JsonView::Number(u64_number(id))),
        ("session_id"@, JsonView::Str(session_id)),
        ("server_id"@, JsonView::Str(server_id)),
        ("method"@, JsonView::Str(method)),
        ("params"@, params),
    ]
}

/// The object that a call is on the wire.
pub open spec fn request_object(
    id: u64,
    session_id: Seq<char>,
    server_id: Seq<char>,
    method: Seq<char>,
    params: JsonView,
) -> JsonView {
    JsonView::Object(request_members(id, session_id, server_id, method, params))
}

/// A call while the connection to the bridge is being made.
#[derive(Debug, PartialEq)]
pub struct Connecting {
    request: Json,
}

/// A call whose line is to go out to the bridge.
#[derive(Debug, PartialEq, Eq)]
pub struct Sending {
    line: String,
}

/// A call whose answer is awaited.
#[derive(Debug, PartialEq, Eq)]
pub struct Awaiting {
    sent: (),
}

/// What came from the bridge.
#[derive(Debug, PartialEq, Eq)]
pub enum BridgeReply {
    /// Nothing, in the time that it is given.
    TimedOut,
    /// Reading failed.
    Failed(String),
    /// The connection was closed.
    Closed,
    /// This line.
    Line(String),
}

impl AcpMcpProxy {
    /// Starts a call: a connection to the bridge is to be made.
    pub fn forward(&self, request_id: u64, method: &str, params: JsonObject) -> (call: Connecting)
        ensures
            call.request_view() == request_object(
                request_id,
                self.session_id@,
                self.server_id@,
                method@,
                JsonView::Object(params@),
            ),
            call.request_view().field("id"@) == Some(JsonView::Number(u64_number(request_id))),
            call.request_view().field("session_id"@) == Some(JsonView::Str(self.session_id@)),
            call.request_view().field("server_id"@) == Some(JsonView::Str(self.server_id@)),
            call.request_view().field("method"@) == Some(JsonView::Str(method@)),
            call.request_view().field("params"@) == Some(JsonView::Object(params@)),
    {
        proof {
            lemma_request_fields(
                request_id,
                self.session_id@,
                self.server_id@,
                method@,
                JsonView::Object(params@),
            );
        }
        let request = request_json(
            request_id,
            self.session_id.as_str(),
            self.server_id.as_str(),
            method,
            Json::Object(params),
        );
        Connecting { request }
    }
}

/// The parameters with which the tools are asked for: where to go on, if that was said.
pub open spec fn list_tools_members(cursor: Option<Seq<char>>) -> Seq<(Seq<char>, JsonView)> {
    match cursor {
        Some(c) => seq![("cursor"@, JsonView::Str(c))],
        None => no_members(),
    }
}

/// Where a request for the tools is to go on, if that was said.
pub open spec fn cursor_view(cursor: Option<String>) -> Option<Seq<char>> {
    match cursor {
        Some(c) => Some(c@),
        None => None,
    }
}

/// The parameters with which the tools are asked for: where to go on, if that was said.
pub fn list_tools_params(cursor: Option<String>) -> (params: JsonObject)
    ensures
        params@ == list_tools_members(cursor_view(cursor)),
        match cursor {
            Some(c) => params@.len() == 1 && member(params@, "cursor"@) == Some(JsonView::Str(c@)),
            None => params@.len() == 0,
        },
{
    proof {
        lemma_cursor_is_sent(cursor_view(cursor));
    }
    match cursor {
        Some(c) => {
            proof {
                lemma_fresh_key(no_members(), "cursor"@, JsonView::Str(c@));
            }
            let params = JsonObject::new().with("cursor", Json::Str(c));
            assert(params@ =~= list_tools_members(Some(c@)));
            params
        },
        None => JsonObject::new(),
    }
}

/// The parameters with which a tool is called: its name, and its arguments if there are any.
pub open spec fn call_tool_members(
    name: Seq<char>,
    arguments: Option<Seq<(Seq<char>, JsonView)>>,
) -> Seq<(Seq<char>, JsonView)> {
    match arguments {
        Some(members) => seq![
            ("name"@, JsonView::Str(name)),
            ("arguments"@, JsonView::Object(members)),
        ],
        None => seq![("name"@, JsonView::Str(name))],
    }
}

/// A request for the tools carries the cursor that it is given, and nothing else.
pub proof fn lemma_cursor_is_sent(cursor: Option<Seq<char>>)
    ensures
        ({
            let params = JsonView::Object(list_tools_members(cursor));
            match cursor {
                Some(c) => {
                    &&& params->Object_0.len() == 1
                    &&& params.field("cursor"@) == Some(JsonView::Str(c))
                },
                None => params->Object_0.len() == 0 && params.field("cursor"@) is None,
            }
        }),
{
    let members = list_tools_members(cursor);
    lemma_key_index(members, "cursor"@, 0);
}

/// A tool call carries the name of the tool and the arguments that it is given, all of them as
/// they are; where it is given none it carries none; and it carries nothing else.
pub proof fn lemma_tool_parameters_are_whole(
    name: Seq<char>,
    arguments: Option<Seq<(Seq<char>, JsonView)>>,
)
    ensures
        ({
            let params = JsonView::Object(call_tool_members(name, arguments));
            &&& params.field("name"@) == Some(JsonView::Str(name))
            &&& match arguments {
                Some(given) => {
                    &&& params->Object_0.len() == 2
                    &&& params.field("arguments"@) == Some(JsonView::Object(given))
                },
                None => params->Object_0.len() == 1 && params.field("arguments"@) is None,
            }
        }),
{
    reveal_strlit("name");
    reveal_strlit("arguments");
    assert("name"@.len() != "arguments"@.len());
    let members = call_tool_members(name, arguments);
    lemma_key_index(members, "name"@, 0);
    lemma_key_index(members, "arguments"@, 1);
}

/// The arguments of a tool call, if it has any.
pub open spec fn arguments_view(arguments: Option<JsonObject>) -> Option<
    Seq<(Seq<char>, JsonView)>,
> {
    match arguments {
        Some(object) => Some(object@),
        None => None,
    }
}

/// The parameters with which a tool is called: its name, and its arguments if there are any.
pub fn call_tool_params(name: &str, arguments: Option<JsonObject>) -> (params: JsonObject)
    ensures
        params@ == call_tool_members(name@, arguments_view(arguments)),
        member(params@, "name"@) == Some(JsonView::Str(name@)),
        match arguments {
            Some(given) => params@.len() == 2 && member(params@, "arguments"@) == Some(
                JsonView::Object(given@),
            ),
            None => params@.len() == 1 && member(params@, "arguments"@) is None,
        },
{
    proof {
        lemma_tool_parameters_are_whole(name@, arguments_view(arguments));
    }
    let ghost members = call_tool_members(name@, arguments_view(arguments));
    proof {
        reveal_strlit("name");
        reveal_strlit("arguments");
        assert("name"@.len() != "arguments"@.len());
        lemma_fresh_key(no_members(), "name"@, JsonView::Str(name@));
    }
    let named = JsonObject::new().with("name", Json::string(name));
    let params: JsonObject = match arguments {
        Some(object) => {
            proof {
                lemma_fresh_key(named@, "arguments"@, JsonView::Object(object@));
            }
            named.with("arguments", Json::Object(object))
        },
        None => named,
    };
    assert(params@ =~= members);
    params
}

impl AcpMcpProxy {
    /// Starts asking the MCP server for its tools, from where the cursor says on.
    pub fn list_tools(&self, request_id: u64, cursor: Option<String>) -> (call: Connecting)
        ensures
            call.request_view() == request_object(
                request_id,
                self.session_id@,
                self.server_id@,
                "tools/list"@,
                JsonView::Object(list_tools_members(cursor_view(cursor))),
            ),
            call.request_view().field("method"@) == Some(JsonView::Str("tools/list"@)),
            call.request_view().field("params"@) matches Some(JsonView::Object(params)) && (
            match cursor {
                Some(c) => params.len() == 1 && member(params, "cursor"@) == Some(
                    JsonView::Str(c@),
                ),
                None => params.len() == 0,
            }),
    {
        self.forward(request_id, "tools/list", list_tools_params(cursor))
    }

    /// Starts a call of one of the MCP server's tools.
    pub fn call_tool(
        &self,
        request_id: u64,
        name: &str,
        arguments: Option<JsonObject>,
    ) -> (call: Connecting)
        ensures
            call.request_view() == request_object(
                request_id,
                self.session_id@,
                self.server_id@,
                "tools/call"@,
                JsonView::Object(call_tool_members(name@, arguments_view(arguments))),
            ),
            call.request_view().field("method"@) == Some(JsonView::Str("tools/call"@)),
            call.request_view().field("params"@) matches Some(params) && params.field("name"@)
                == Some(JsonView::Str(name@)) && params.field("arguments"@) == (match arguments {
                Some(given) => Some(JsonView::Object(given@)),
                None => None,
            }),
    {
        self.forward(request_id, "tools/call", call_tool_params(name, arguments))
    }
}

/// The object that a call is on the wire.
pub fn request_json(
    id: u64,
    session_id: &str,
    server_id: &str,
    method: &str,
    params: Json,
) -> (json: Json)
    ensures
        json@ == request_object(id, session_id@, server_id@, method@, params@),
        json@->Object_0.len() == 5,
        json@.field("id"@) == Some(JsonView::Number(u64_number(id))),
        json@.field("session_id"@) == Some(JsonView::Str(session_id@)),
        json@.field("server_id"@) == Some(JsonView::Str(server_id@)),
        json@.field("method"@) == Some(JsonView::Str(method@)),
        json@.field("params"@) == Some(params@),
{
    proof {
        lemma_request_fields(id, session_id@, server_id@, method@, params@);
        lemma_request_keys();
        lemma_fresh_key(no_members(), "id"@, JsonView::Number(u64_number(id)));
    }
    let object = JsonObject::new().with("id", Json::from_u64(id));
    proof {
        lemma_fresh_key(object@, "session_id"@, JsonView::Str(session_id@));
    }
    let object = object.with("session_id", Json::string(session_id));
    proof {
        lemma_fresh_key(object@, "server_id"@, JsonView::Str(server_id@));
    }
    let object = object.with("server_id", Json::string(server_id));
    proof {
        lemma_fresh_key(object@, "method"@, JsonView::Str(method@));
    }
    let object = object.with("method", Json::string(method));
    proof {
        lemma_fresh_key(object@, "params"@, params@);
    }
    let object = object.with("params", params);
    assert(object@ =~= request_members(id, session_id@, server_id@, method@, params@));
    Json::Object(object)
}

/// The keys of a request differ from one another.
proof fn lemma_request_keys()
    ensures
        "id"@.len() == 2,
        "session_id"@.len() == 10,
        "server_id"@.len() == 9,
        "method"@.len() == 6,
        "params"@.len() == 6,
        "method"@ != "params"@,
{
    reveal_strlit("id");
    reveal_strlit("session_id");
    reveal_strlit("server_id");
    reveal_strlit("method");
    reveal_strlit("params");
    assert("method"@[0] != "params"@[0]);
}

/// A call survives being written as text and read again if its parameters do, and the object
/// then has its five members and no others.
pub proof fn lemma_request_reads_back(
    id: u64,
    session_id: Seq<char>,
    server_id: Seq<char>,
    method: Seq<char>,
    params: JsonView,
)
    requires
        reads_back(params, 126),
    ensures
        ({
            let call = request_object(id, session_id, server_id, method, params);
            &&& reads_back(call, 127)
            &&& call->Object_0.len() == 5
            &&& call.field("id"@) == Some(JsonView::Number(u64_number(id)))
            &&& call.field("session_id"@) == Some(JsonView::Str(session_id))
            &&& call.field("server_id"@) == Some(JsonView::Str(server_id))
            &&& call.field("method"@) == Some(JsonView::Str(method))
            &&& call.field("params"@) == Some(params)
        }),
{
    let members = request_members(id, session_id, server_id, method, params);
    lemma_request_fields(id, session_id, server_id, method, params);
    lemma_request_keys();
    reveal_strlit("$serde_json::private::RawValue");
    assert("$serde_json::private::RawValue"@.len() != 2);
    assert forall|i: int| 0 <= i < members.len() implies reads_back(
        (#[trigger] members[i]).1,
        126,
    ) by {
        if i == 0 {
            assert(members[0].1 == JsonView::Number(u64_number(id)));
        }
    }
}

/// The object that a call is on the wire has the call's five members, each under its key, and no
/// others.
pub proof fn lemma_request_fields(
    id: u64,
    session_id: Seq<char>,
    server_id: Seq<char>,
    method: Seq<char>,
    params: JsonView,
)
    ensures
        ({
            let call = request_object(id, session_id, server_id, method, params);
            &&& call->Object_0.len() == 5
            &&& call.field("id"@) == Some(JsonView::Number(u64_number(id)))
            &&& call.field("session_id"@) == Some(JsonView::Str(session_id))
            &&& call.field("server_id"@) == Some(JsonView::Str(server_id))
            &&& call.field("method"@) == Some(JsonView::Str(method))
            &&& call.field("params"@) == Some(params)
        }),
{
    let members = request_members(id, session_id, server_id, method, params);
    lemma_request_keys();
    lemma_key_index(members, "id"@, 0);
    lemma_key_index(members, "session_id"@, 1);
    lemma_key_index(members, "server_id"@, 2);
    lemma_key_index(members, "method"@, 3);
    lemma_key_index(members, "params"@, 4);
}

/// A call reaches the MCP server as it was made: the object that goes to the bridge holds its
/// method and parameters, and once the connection and the handshake have succeeded the client
/// is asked to pass on just these.
pub proof fn lemma_call_is_forwarded_verbatim(
    id: u64,
    session_id: Seq<char>,
    server_id: Seq<char>,
    method: Seq<char>,
    params: Seq<(Seq<char>, JsonView)>,
    version: Seq<char>,
    replies: Seq<ReplyView>,
)
    requires
        replies.len() >= 2,
        connect_outcome(replies[0]) is Ok,
        message_outcome(replies[1]) is Ok,
    ensures
        ({
            let call = request_object(id, session_id, server_id, method, JsonView::Object(params));
            let requests = relay_trace(
                relay_start(server_id, method, JsonView::Object(params), version),
                replies,
            ).requests;
            &&& call.field("id"@) == Some(JsonView::Number(u64_number(id)))
            &&& call.field("session_id"@) == Some(JsonView::Str(session_id))
            &&& call.field("server_id"@) == Some(JsonView::Str(server_id))
            &&& call.field("method"@) == Some(JsonView::Str(method))
            &&& call.field("params"@) == Some(JsonView::Object(params))
            &&& requests.len() == 3
            &&& requests[0] == RequestView::Connect { server_id }
            &&& requests[2] == RequestView::Message {
                connection_id: connect_outcome(replies[0])->Ok_0,
                method,
                params,
            }
        }),
{
    lemma_request_fields(id, session_id, server_id, method, JsonView::Object(params));
    lemma_relay_requests(server_id, method, JsonView::Object(params), version, replies);
    lemma_relay_outcome(server_id, method, JsonView::Object(params), version, replies);
}

impl Connecting {
    /// The object that the call is on the wire.
    pub closed spec fn request_view(self) -> JsonView {
        self.request@
    }

    /// Goes on once it is known whether the connection stands: the call is to be sent, in a
    /// line that holds a brace and so is not blank.
    pub fn connected(self, connected: Result<(), String>) -> (next: Result<Sending, String>)
        ensures
            match connected {
                Ok(_) => next matches Ok(call) && is_line(
                    call.line_view(),
                    json_text(self.request_view()),
                ) && (self.request_view() is Object ==> json_text(self.request_view()).contains(
                    '{',
                )),
                Err(reason) => next matches Err(message) && message@
                    == "failed to connect to acp mcp bridge: "@ + reason@,
            },
            connected is Ok ==> next is Ok && next->Ok_0.line_view() == json_text(
                self.request_view(),
            ).push('\n'),
    {
        match connected {
            Ok(_) => match self.request.into_text() {
                Ok(text) => {
                    assert(self.request@ is Object ==> text@[0] == '{');
                    Ok(Sending { line: end_line(text) })
                },
                Err(message) => Err(message),
            },
            Err(reason) => Err(
                "failed to connect to acp mcp bridge: ".to_owned().concat(reason.as_str()),
            ),
        }
    }
}

impl Sending {
    /// The line to send.
    pub closed spec fn line_view(self) -> Seq<char> {
        self.line@
    }

    /// The line to send, with the line break at its end.
    pub fn line(&self) -> (line: &str)
        ensures
            line@ == self.line_view(),
    {
        self.line.as_str()
    }

    /// Goes on once it is known whether the line went out: the answer is to be awaited.
    pub fn sent(self, sent: Result<(), String>) -> (next: Result<Awaiting, String>)
        ensures
            match sent {
                Ok(_) => next is Ok,
                Err(reason) => next == Err::<Awaiting, String>(reason),
            },
    {
        match sent {
            Ok(_) => Ok(Awaiting { sent: () }),
            Err(reason) => Err(reason),
        }
    }
}

/// What the answer of the bridge says came of the call: its result if it claims success (null
/// if it gives none), otherwise its error (a general one if it gives none).
pub open spec fn reply_outcome(response: JsonView) -> Result<JsonView, Seq<char>> {
    if response.field("success"@) == Some(JsonView::Bool(true)) {
        match response.field("result"@) {
            Some(result) => Ok(result),
            None => Ok(JsonView::Null),
        }
    } else {
        match response.field("error"@) {
            Some(JsonView::Str(message)) => Err(message),
            _ => Err("acp mcp bridge error"@),
        }
    }
}

/// What came of a call when the answer is this line.
pub open spec fn line_outcome(line: Seq<char>) -> Result<JsonView, Seq<char>> {
    match json_parse(line) {
        Ok(response) => reply_outcome(response),
        Err(message) => Err(message),
    }
}

/// What the answer of the bridge says came of the call.
pub fn read_response(response: Json) -> (outcome: Result<Json, String>)
    ensures
        outcome_view(outcome) == reply_outcome(response@),
        if response@.field("success"@) == Some(JsonView::Bool(true)) {
            outcome matches Ok(json) && match response@.field("result"@) {
                Some(result) => json@ == result,
                None => json@ == JsonView::Null,
            }
        } else {
            outcome matches Err(reason) && match response@.field("error"@) {
                Some(JsonView::Str(message)) => reason@ == message,
                _ => reason@ == "acp mcp bridge error"@,
            }
        },
{
    let success: bool = match response.get("success") {
        Some(json) => match json.as_bool() {
            Some(b) => b,
            None => false,
        },
        None => false,
    };
    if success {
        match response.into_field("result") {
            Some(result) => Ok(result),
            None => Ok(Json::Null),
        }
    } else {
        match response.into_field("error") {
            Some(error) => match error.into_string() {
                Some(message) => Err(message),
                None => Err("acp mcp bridge error".to_owned()),
            },
            None => Err("acp mcp bridge error".to_owned()),
        }
    }
}

/// The bridge's answer to a call tells what came of it, whatever that was.
pub proof fn lemma_response_is_understood(id: u64, outcome: Result<JsonView, Seq<char>>)
    ensures
        reply_outcome(outcome_response(id, outcome).object()) == outcome,
{
    lemma_response_keys();
    let members = outcome_response(id, outcome).members();
    lemma_key_index(members, "success"@, 1);
    match outcome {
        Ok(_) => lemma_key_index(members, "result"@, 2),
        Err(_) => lemma_key_index(members, "error"@, 2),
    }
}

/// Whether what came of a call survives being written as text and read again: a message always
/// does, and a result if it does so within the response that holds it.
pub open spec fn outcome_reads_back(outcome: Result<JsonView, Seq<char>>) -> bool {
    match outcome {
        Ok(result) => reads_back(result, 126),
        Err(_) => true,
    }
}

/// A response survives being written as text and read again if what it reports does.
pub proof fn lemma_response_reads_back(id: u64, outcome: Result<JsonView, Seq<char>>)
    requires
        outcome_reads_back(outcome),
    ensures
        reads_back(outcome_response(id, outcome).object(), 127),
{
    lemma_response_keys();
    reveal_strlit("id");
    reveal_strlit("$serde_json::private::RawValue");
    assert("id"@.len() != "$serde_json::private::RawValue"@.len());
    let members = outcome_response(id, outcome).members();
    assert forall|i: int| 0 <= i < members.len() implies reads_back(
        (#[trigger] members[i]).1,
        126,
    ) by {
        if i == 0 {
            assert(members[0].1 == JsonView::Number(u64_number(id)));
        }
    }
}

impl Awaiting {
    /// Ends the call with what came from the bridge.
    ///
    /// When that is the line of a response to a call, the outcome is what came of that call.
    pub fn received(self, reply: BridgeReply) -> (outcome: Result<Json, String>)
        ensures
            match reply {
                BridgeReply::TimedOut => outcome matches Err(message) && message@
                    == "acp mcp bridge request timed out"@,
                BridgeReply::Failed(reason) => outcome == Err::<Json, String>(reason),
                BridgeReply::Closed => outcome matches Err(message) && message@
                    == "acp mcp bridge closed connection"@,
                BridgeReply::Line(line) => {
                    &&& outcome_view(outcome) == line_outcome(line@)
                    &&& forall|id: u64, answered: Result<JsonView, Seq<char>>|
                        #![trigger outcome_response(id, answered)]
                        outcome_reads_back(answered) && line@ == json_text(
                            outcome_response(id, answered).object(),
                        ) ==> outcome_view(outcome) == answered
                    &&& match json_parse(line@) {
                        Ok(response) => if response.field("success"@) == Some(
                            JsonView::Bool(true),
                        ) {
                            outcome matches Ok(json) && match response.field("result"@) {
                                Some(result) => json@ == result,
                                None => json@ == JsonView::Null,
                            }
                        } else {
                            outcome matches Err(reason) && match response.field("error"@) {
                                Some(JsonView::Str(message)) => reason@ == message,
                                _ => reason@ == "acp mcp bridge error"@,
                            }
                        },
                        Err(message) => outcome matches Err(reason) && reason@ == message,
                    }
                    &&& forall|id: u64, result: JsonView|
                        #![trigger outcome_response(id, Ok(result))]
                        reads_back(result, 126) && line@ == json_text(
                            outcome_response(id, Ok(result)).object(),
                        ) ==> outcome is Ok && outcome->Ok_0@ == result
                },
            },
    {
        match reply {
            BridgeReply::TimedOut => Err("acp mcp bridge request timed out".to_owned()),
            BridgeReply::Failed(reason) => Err(reason),
            BridgeReply::Closed => Err("acp mcp bridge closed connection".to_owned()),
            BridgeReply::Line(line) => {
                let parsed: Result<Json, String> = Json::parse(line.as_str());
                proof {
                    assert forall|id: u64, answered: Result<JsonView, Seq<char>>|
                        #![trigger outcome_response(id, answered)]
                        outcome_reads_back(answered) && line@ == json_text(
                            outcome_response(id, answered).object(),
                        ) implies line_outcome(line@) == answered by {
                        lemma_response_reads_back(id, answered);
                        lemma_response_is_understood(id, answered);
                    }
                }
                match parsed {
                    Ok(response) => read_response(response),
                    Err(message) => Err(message),
                }
            },
        }
    }
}

/// The error that reports why the bridge could not carry out a request.
pub open spec fn bridge_error_view(reason: Seq<char>) -> RpcErrorView {
    internal_error_view("acp mcp bridge request failed"@, reason_object(reason))
}

/// An object that gives a reason.
pub open spec fn reason_object(reason: Seq<char>) -> JsonView {
    JsonView::Object(seq![("reason"@, JsonView::Str(reason))])
}

/// An object that gives a reason gives this reason, and nothing else.
pub proof fn lemma_reason_is_given(reason: Seq<char>)
    ensures
        reason_object(reason)->Object_0.len() == 1,
        reason_object(reason).field("reason"@) == Some(JsonView::Str(reason)),
{
    lemma_key_index(reason_object(reason)->Object_0, "reason"@, 0);
}

/// An object that gives a reason.
fn reason_json(reason: String) -> (json: Json)
    ensures
        json@ == reason_object(reason@),
        json@->Object_0.len() == 1,
        json@.field("reason"@) == Some(JsonView::Str(reason@)),
{
    proof {
        lemma_reason_is_given(reason@);
        lemma_fresh_key(no_members(), "reason"@, JsonView::Str(reason@));
    }
    let object = JsonObject::new().with("reason", Json::Str(reason));
    assert(object@ =~= seq![("reason"@, JsonView::Str(reason@))]);
    Json::Object(object)
}

/// Reports why the bridge could not carry out a request.
pub fn bridge_error(reason: String) -> (error: RpcError)
    ensures
        error@ == bridge_error_view(reason@),
        error.code == -32603,
        error.message@ == "acp mcp bridge request failed"@,
        error.data matches Some(json) && json@->Object_0.len() == 1 && json@.field("reason"@)
            == Some(JsonView::Str(reason@)),
{
    RpcError::internal_error("acp mcp bridge request failed", reason_json(reason))
}

/// The answer to a request for the tools.
#[derive(Debug, PartialEq)]
pub struct ToolList {
    pub tools: Vec<rmcp::model::Tool>,
    /// Where the list goes on, if it does.
    pub next_cursor: Option<String>,
    /// What else is said of the list.
    pub meta: Option<JsonObject>,
}

/// What the answer to a request for the tools says.
pub struct ToolListView {
    pub tools: Seq<rmcp::model::Tool>,
    pub next_cursor: Option<Seq<char>>,
    pub meta: Option<Seq<(Seq<char>, JsonView)>>,
}

impl View for ToolList {
    type V = ToolListView;

    open spec fn view(&self) -> ToolListView {
        ToolListView {
            tools: self.tools@,
            next_cursor: cursor_view(self.next_cursor),
            meta: arguments_view(self.meta),
        }
    }
}

/// These tools, and no more.
pub open spec fn whole_list(tools: Seq<rmcp::model::Tool>) -> ToolListView {
    ToolListView { tools, next_cursor: None, meta: None }
}

/// The tools that a server's answer lists, when this came of reading the list; no tools if the
/// answer has no list.
pub open spec fn tools_reply(
    read: Option<Result<Seq<rmcp::model::Tool>, Seq<char>>>,
) -> Result<ToolListView, RpcErrorView> {
    match read {
        Some(Ok(tools)) => Ok(whole_list(tools)),
        Some(Err(message)) => Err(
            internal_error_view("malformed tools/list result"@, reason_object(message)),
        ),
        None => Ok(whole_list(Seq::empty())),
    }
}

/// What a request for the tools is answered, when this came of forwarding it.
pub open spec fn list_tools_reply(outcome: Result<JsonView, Seq<char>>) -> Result<
    ToolListView,
    RpcErrorView,
> {
    match outcome {
        Ok(result) => tools_reply(
            match result.field("tools"@) {
                Some(list) => Some(tools_of(list)),
                None => None,
            },
        ),
        Err(reason) => Err(bridge_error_view(reason)),
    }
}

/// An answer with tools.
pub open spec fn tools_view(answer: Result<ToolList, RpcError>) -> Result<
    ToolListView,
    RpcErrorView,
> {
    match answer {
        Ok(list) => Ok(list@),
        Err(error) => Err(error@),
    }
}

/// The tools that a server's answer lists, when this came of reading the list; no tools if the
/// answer has no list.
pub fn read_tool_list(read: Option<Result<Vec<rmcp::model::Tool>, String>>) -> (answer: Result<
    ToolList,
    RpcError,
>)
    ensures
        tools_view(answer) == tools_reply(
            match read {
                Some(list) => Some(tools_read(list)),
                None => None,
            },
        ),
        match read {
            Some(Ok(tools)) => answer matches Ok(list) && list.tools@ == tools@
                && list.next_cursor is None && list.meta is None,
            Some(Err(message)) => {
                &&& answer matches Err(error)
                &&& error.code == -32603
                &&& error.message@ == "malformed tools/list result"@
                &&& error.data matches Some(json) && json@.field("reason"@) == Some(
                    JsonView::Str(message@),
                )
            },
            None => answer matches Ok(list) && list.tools@.len() == 0 && list.next_cursor is None
                && list.meta is None,
        },
{
    match read {
        Some(Ok(tools)) => Ok(ToolList { tools, next_cursor: None, meta: None }),
        Some(Err(message)) => Err(
            RpcError::internal_error("malformed tools/list result", reason_json(message)),
        ),
        None => {
            let none: Vec<rmcp::model::Tool> = Vec::new();
            Ok(ToolList { tools: none, next_cursor: None, meta: None })
        },
    }
}

/// Answers a request for the tools, when this came of forwarding it.
pub fn list_tools_answer(outcome: Result<Json, String>) -> (answer: Result<ToolList, RpcError>)
    ensures
        tools_view(answer) == list_tools_reply(outcome_view(outcome)),
        match outcome {
            Ok(result) => match result@.field("tools"@) {
                Some(list) => match tools_of(list) {
                    Ok(tools) => answer matches Ok(given) && given.tools@ == tools,
                    Err(message) => {
                        &&& answer matches Err(error)
                        &&& error.code == -32603
                        &&& error.message@ == "malformed tools/list result"@
                        &&& error.data matches Some(json) && json@.field("reason"@) == Some(
                            JsonView::Str(message),
                        )
                    },
                },
                None => answer matches Ok(given) && given.tools@.len() == 0,
            },
            Err(reason) => {
                &&& answer matches Err(error)
                &&& error.code == -32603
                &&& error.message@ == "acp mcp bridge request failed"@
                &&& error.data matches Some(json) && json@.field("reason"@) == Some(
                    JsonView::Str(reason@),
                )
            },
        },
{
    match outcome {
        Ok(result) => {
            let read: Option<Result<Vec<rmcp::model::Tool>, String>> = match result.into_field(
                "tools",
            ) {
                Some(list) => Some(read_tools(list.into_value())),
                None => None,
            };
            read_tool_list(read)
        },
        Err(reason) => Err(bridge_error(reason)),
    }
}

/// The text that stands in for a result that is not one as MCP has it.
pub open spec fn unparsed_text() -> Seq<char> {
    "tool call forwarded, but the response could not be parsed as a standard MCP result"@
}

/// The result of a tool call, when this came of reading it: if nothing did, one that holds the
/// text that stands in for it.
pub open spec fn call_reply(
    read: Option<rmcp::model::CallToolResult>,
) -> Option<rmcp::model::CallToolResult> {
    match read {
        Some(result) => Some(result),
        None => call_result_of(text_result_json(unparsed_text())),
    }
}

/// What a tool call is answered, when this came of forwarding it.
pub open spec fn call_tool_reply(outcome: Result<JsonView, Seq<char>>) -> Result<
    Option<rmcp::model::CallToolResult>,
    RpcErrorView,
> {
    match outcome {
        Ok(result) => Ok(call_reply(call_result_of(result))),
        Err(reason) => Err(bridge_error_view(reason)),
    }
}

/// The result of a tool call, when this came of reading it: a text that says so if it could
/// not be read.
pub fn read_call(read: Option<rmcp::model::CallToolResult>) -> (result: rmcp::model::CallToolResult)
    ensures
        Some(result) == call_reply(read),
        match read {
            Some(given) => result == given,
            None => call_result_of(
                text_result_json(
                    "tool call forwarded, but the response could not be parsed as a standard MCP result"@,
                ),
            ) == Some(result),
        },
{
    match read {
        Some(result) => result,
        None => text_result(
            "tool call forwarded, but the response could not be parsed as a standard MCP result",
        ),
    }
}

/// Answers a tool call, when this came of forwarding it.
pub fn call_tool_answer(outcome: Result<Json, String>) -> (answer: Result<
    rmcp::model::CallToolResult,
    RpcError,
>)
    ensures
        call_tool_reply(outcome_view(outcome)) == (match answer {
            Ok(result) => Ok::<Option<rmcp::model::CallToolResult>, RpcErrorView>(Some(result)),
            Err(error) => Err::<Option<rmcp::model::CallToolResult>, RpcErrorView>(error@),
        }),
        match outcome {
            Ok(result) => match call_result_of(result@) {
                Some(given) => answer == Ok::<rmcp::model::CallToolResult, RpcError>(given),
                None => answer is Ok,
            },
            Err(reason) => {
                &&& answer matches Err(error)
                &&& error.code == -32603
                &&& error.message@ == "acp mcp bridge request failed"@
                &&& error.data matches Some(json) && json@.field("reason"@) == Some(
                    JsonView::Str(reason@),
                )
            },
        },
{
    match outcome {
        Ok(result) => Ok(read_call(read_call_result(result.into_value()))),
        Err(reason) => Err(bridge_error(reason)),
    }
}

/// What a session is told came of a call is what did come of it on the way to the client, and
/// the line of the response tells it as far as the line reads back, which it does if what came
/// of the call does; and when the connection and the handshake have succeeded, a tool list or a
/// tool call is answered from the client's reply to the call itself, whatever that is.
pub proof fn lemma_reply_comes_through(
    id: u64,
    server_id: Seq<char>,
    method: Seq<char>,
    params: JsonView,
    version: Seq<char>,
    replies: Seq<ReplyView>,
)
    ensures
        ({
            let outcome = relay_trace(
                relay_start(server_id, method, params, version),
                replies,
            ).outcome;
            let response = outcome_response(id, outcome->0).object();
            let told = reply_outcome(response);
            &&& outcome is Some ==> told == outcome->0
            &&& outcome is Some && outcome_reads_back(outcome->0) ==> reads_back(response, 127)
            &&& outcome is Some && json_parse(json_text(response)) == Ok::<JsonView, Seq<char>>(
                response,
            ) ==> line_outcome(json_text(response)) == outcome->0
            &&& replies.len() >= 3 && connect_outcome(replies[0]) is Ok && message_outcome(
                replies[1],
            ) is Ok ==> {
                &&& outcome == Some(message_outcome(replies[2]))
                &&& list_tools_reply(told) == list_tools_reply(message_outcome(replies[2]))
                &&& call_tool_reply(told) == call_tool_reply(message_outcome(replies[2]))
            }
        }),
{
    let outcome = relay_trace(relay_start(server_id, method, params, version), replies).outcome;
    lemma_relay_outcome(server_id, method, params, version, replies);
    lemma_response_is_understood(id, outcome->0);
    if outcome_reads_back(outcome->0) {
        lemma_response_reads_back(id, outcome->0);
    }
}

/// A call is taken to have succeeded only if the answer claims so.
pub proof fn lemma_success_is_claimed(response: JsonView)
    ensures
        reply_outcome(response) is Ok <==> response.field("success"@) == Some(
            JsonView::Bool(true),
        ),
{
}

/// An answer of the bridge is read for what it claims: where it claims success, the result that
/// it gives, whatever that is, or null; where it does not, the message that it gives, or a
/// general one. A line is read as the answer that it holds, and one that is not JSON is reported.
pub proof fn lemma_answers_are_read_for_what_they_claim(line: Seq<char>, response: JsonView)
    ensures
        response.field("success"@) == Some(JsonView::Bool(true)) ==> {
            &&& response.field("result"@) matches Some(result) ==> reply_outcome(response) == Ok::<
                JsonView,
                Seq<char>,
            >(result)
            &&& response.field("result"@) is None ==> reply_outcome(response) == Ok::<
                JsonView,
                Seq<char>,
            >(JsonView::Null)
        },
        response.field("success"@) != Some(JsonView::Bool(true)) ==> {
            &&& response.field("error"@) matches Some(JsonView::Str(message)) ==> reply_outcome(
                response,
            ) == Err::<JsonView, Seq<char>>(message)
            &&& !(response.field("error"@) matches Some(JsonView::Str(_))) ==> reply_outcome(
                response,
            ) == Err::<JsonView, Seq<char>>("acp mcp bridge error"@)
        },
        json_parse(line) == Ok::<JsonView, Seq<char>>(response) ==> line_outcome(line)
            == reply_outcome(response),
        json_parse(line) matches Err(message) ==> line_outcome(line) == Err::<
            JsonView,
            Seq<char>,
        >(message),
{
}

/// What came of a call survives being written and read again if it is a message, or a result
/// that does at one level of nesting less.
pub proof fn lemma_which_outcomes_read_back(result: JsonView, message: Seq<char>)
    ensures
        reads_back(result, 126) ==> outcome_reads_back(Ok(result)),
        outcome_reads_back(Err(message)),
{
}

/// A list of tools says what it holds.
pub proof fn lemma_tool_list_says_what_it_holds(list: ToolList)
    ensures
        list@.tools == list.tools@,
        match list.next_cursor {
            Some(cursor) => list@.next_cursor == Some(cursor@),
            None => list@.next_cursor is None,
        },
        match list.meta {
            Some(meta) => list@.meta == Some(meta@),
            None => list@.meta is None,
        },
{
}

/// A request for the tools is answered with all the tools that the server's list is read as, each
/// at its place, and with none if the server gives no list.
pub proof fn lemma_every_tool_is_listed(
    result: JsonView,
    list: JsonView,
    tools: Seq<rmcp::model::Tool>,
)
    ensures
        result.field("tools"@) == Some(list) && tools_of(list) == Ok::<
            Seq<rmcp::model::Tool>,
            Seq<char>,
        >(tools) ==> {
            let answer = list_tools_reply(Ok(result));
            &&& answer is Ok
            &&& answer->Ok_0.tools.len() == tools.len()
            &&& forall|i: int|
                0 <= i < tools.len() ==> #[trigger] answer->Ok_0.tools[i] == tools[i]
            &&& answer->Ok_0.next_cursor is None
            &&& answer->Ok_0.meta is None
        },
        result.field("tools"@) is None ==> {
            let answer = list_tools_reply(Ok(result));
            answer is Ok && answer->Ok_0.tools.len() == 0
        },
        tools_reply(Some(Ok(tools))) is Ok,
        tools_reply(Some(Ok(tools)))->Ok_0.tools == tools,
{
}

/// A request for the tools fails if the server's list cannot be read or the request could not be
/// carried out, and so does a tool call that could not be; the error gives the reason.
pub proof fn lemma_failures_give_the_reason(result: JsonView, list: JsonView, reason: Seq<char>)
    ensures
        result.field("tools"@) == Some(list) && tools_of(list) == Err::<
            Seq<rmcp::model::Tool>,
            Seq<char>,
        >(reason) ==> {
            let answer = list_tools_reply(Ok(result));
            &&& answer matches Err(error)
            &&& error.code == -32603
            &&& error.message == "malformed tools/list result"@
            &&& error.data matches Some(data) && data.field("reason"@) == Some(
                JsonView::Str(reason),
            )
        },
        ({
            &&& list_tools_reply(Err(reason)) matches Err(error)
            &&& error.code == -32603
            &&& error.message == "acp mcp bridge request failed"@
            &&& error.data matches Some(data) && data.field("reason"@) == Some(
                JsonView::Str(reason),
            )
        }),
        ({
            &&& call_tool_reply(Err(reason)) matches Err(error)
            &&& error.code == -32603
            &&& error.message == "acp mcp bridge request failed"@
            &&& error.data matches Some(data) && data.field("reason"@) == Some(
                JsonView::Str(reason),
            )
        }),
{
    lemma_reason_is_given(reason);
}

/// A tool call is answered with the result that the server's answer is read as, whatever that
/// is; only where the answer is no such result, a text stands in for it.
pub proof fn lemma_call_result_is_handed_on(result: JsonView)
    ensures
        call_result_of(result) is Some ==> call_tool_reply(Ok(result)) == Ok::<
            Option<rmcp::model::CallToolResult>,
            RpcErrorView,
        >(call_result_of(result)),
        call_result_of(result) is None ==> call_tool_reply(Ok(result)) == Ok::<
            Option<rmcp::model::CallToolResult>,
            RpcErrorView,
        >(
            call_result_of(
                text_result_json(
                    "tool call forwarded, but the response could not be parsed as a standard MCP result"@,
                ),
            ),
        ),
{
}

/// The arguments of a tool call reach the MCP server: the object that goes to the bridge holds
/// the name and the arguments that the tool is called with, all of them as they are, and once
/// the connection and the handshake have succeeded the client is asked to pass on a tool call
/// that holds them too.
pub proof fn lemma_arguments_reach_the_server(
    id: u64,
    session_id: Seq<char>,
    server_id: Seq<char>,
    name: Seq<char>,
    arguments: Option<Seq<(Seq<char>, JsonView)>>,
    version: Seq<char>,
    connection: Seq<char>,
    greeting: Seq<char>,
    replies: Seq<ReplyView>,
)
    requires
        replies.len() >= 3,
        replies[0] == ReplyView::Answered(connection),
        replies[1] == ReplyView::Answered(greeting),
        json_parse(greeting) is Ok,
    ensures
        ({
            let params = JsonView::Object(call_tool_members(name, arguments));
            let call = request_object(id, session_id, server_id, "tools/call"@, params);
            let asked = relay_trace(
                relay_start(server_id, "tools/call"@, call.field("params"@)->0, version),
                replies,
            ).requests[2];
            let passed_on = JsonView::Object(asked->params);
            let given = match arguments {
                Some(members) => Some(JsonView::Object(members)),
                None => None,
            };
            &&& call.field("method"@) == Some(JsonView::Str("tools/call"@))
            &&& call.field("params"@)->0.field("name"@) == Some(JsonView::Str(name))
            &&& call.field("params"@)->0.field("arguments"@) == given
            &&& asked == (RequestView::Message {
                connection_id: connection,
                method: "tools/call"@,
                params: asked->params,
            })
            &&& passed_on.field("name"@) == Some(JsonView::Str(name))
            &&& passed_on.field("arguments"@) == given
        }),
{
    let params = JsonView::Object(call_tool_members(name, arguments));
    lemma_tool_parameters_are_whole(name, arguments);
    lemma_request_fields(id, session_id, server_id, "tools/call"@, params);
    lemma_call_comes_to_what_the_client_answers(
        server_id,
        "tools/call"@,
        params,
        version,
        connection,
        greeting,
        replies,
    );
}

/// The tools that the client's MCP server lists reach the session: once the connection and the
/// handshake have succeeded and the client has answered with a text that is read as a result with
/// a list, the session is given all the tools that this list is read as.
pub proof fn lemma_tools_reach_the_session(
    id: u64,
    server_id: Seq<char>,
    method: Seq<char>,
    params: JsonView,
    version: Seq<char>,
    connection: Seq<char>,
    greeting: Seq<char>,
    text: Seq<char>,
    result: JsonView,
    list: JsonView,
    tools: Seq<rmcp::model::Tool>,
    replies: Seq<ReplyView>,
)
    requires
        replies.len() >= 3,
        replies[0] == ReplyView::Answered(connection),
        replies[1] == ReplyView::Answered(greeting),
        json_parse(greeting) is Ok,
        replies[2] == ReplyView::Answered(text),
        json_parse(text) == Ok::<JsonView, Seq<char>>(result),
        result.field("tools"@) == Some(list),
        tools_of(list) == Ok::<Seq<rmcp::model::Tool>, Seq<char>>(tools),
    ensures
        ({
            let outcome = relay_trace(
                relay_start(server_id, method, params, version),
                replies,
            ).outcome;
            let told = reply_outcome(outcome_response(id, outcome->0).object());
            &&& told == Ok::<JsonView, Seq<char>>(result)
            &&& list_tools_reply(told) matches Ok(answer)
            &&& answer.tools == tools
        }),
{
    lemma_call_comes_to_what_the_client_answers(
        server_id,
        method,
        params,
        version,
        connection,
        greeting,
        replies,
    );
    lemma_response_is_understood(id, Ok(result));
}

} // verus!
