//! The bridge's end of the line: takes the calls that a session's stdio server sends in, and
//! relays each through the agent's ACP connection to the client that owns the MCP server.

use vstd::pervasive::unreached;
use vstd::prelude::*;
use vstd::string::StringExecFns;
use crate::foreign::{json_parse, json_text, reads_back, trim, u64_number, white_space};
use crate::json::{
    lemma_fresh_key, lemma_key_index, no_members, outcome_view, Json, JsonObject, JsonView,
};

verus! {

/// What became of a request that was put to the client.
#[derive(Debug, PartialEq)]
pub enum ClientReply {
    /// There was no one left to put it to.
    ChannelClosed,
    /// It was taken, and then no reply came.
    Dropped,
    /// The client answered with an error that has this message.
    Refused(String),
    /// The client answered: with a connection's identifier, or with the text of a result.
    Answered(String),
}

/// What a reply says.
pub enum ReplyView {
    ChannelClosed,
    Dropped,
    Refused(Seq<char>),
    Answered(Seq<char>),
}

impl View for ClientReply {
    type V = ReplyView;

    open spec fn view(&self) -> ReplyView {
        match self {
            ClientReply::ChannelClosed => ReplyView::ChannelClosed,
            ClientReply::Dropped => ReplyView::Dropped,
            ClientReply::Refused(message) => ReplyView::Refused(message@),
            ClientReply::Answered(text) => ReplyView::Answered(text@),
        }
    }
}

/// A request to be put to the client.
#[derive(Debug, PartialEq)]
pub enum ClientRequest {
    /// Open a connection to an MCP server (`mcp/connect`).
    Connect { server_id: String },
    /// Send a message over a connection (`mcp/message`).
    Message { connection_id: String, method: String, params: JsonObject },
}

/// What a request says.
pub enum RequestView {
    Connect { server_id: Seq<char> },
    Message {
        connection_id: Seq<char>,
        method: Seq<char>,
        params: Seq<(Seq<char>, JsonView)>,
    },
}

impl View for ClientRequest {
    type V = RequestView;

    open spec fn view(&self) -> RequestView {
        match self {
            ClientRequest::Connect { server_id } => RequestView::Connect { server_id: server_id@ },
            ClientRequest::Message { connection_id, method, params } => RequestView::Message {
                connection_id: connection_id@,
                method: method@,
                params: params@,
            },
        }
    }
}

/// How far a call has come on its way to the MCP server.
#[derive(Debug, PartialEq)]
pub enum Relay {
    /// The connection was asked for.
    Connecting { method: String, params: Json, version: String },
    /// The connection stands, and the MCP handshake was sent.
    Initializing { connection_id: String, method: String, params: Json },
    /// The call itself was sent.
    Calling,
}

/// What a relay says.
pub enum RelayView {
    Connecting { method: Seq<char>, params: JsonView, version: Seq<char> },
    Initializing { connection_id: Seq<char>, method: Seq<char>, params: JsonView },
    Calling,
}

impl View for Relay {
    type V = RelayView;

    open spec fn view(&self) -> RelayView {
        match self {
            Relay::Connecting { method, params, version } => RelayView::Connecting {
                method: method@,
                params: params@,
                version: version@,
            },
            Relay::Initializing { connection_id, method, params } => RelayView::Initializing {
                connection_id: connection_id@,
                method: method@,
                params: params@,
            },
            Relay::Calling => RelayView::Calling,
        }
    }
}

/// What a relay does next.
#[derive(Debug, PartialEq)]
pub enum RelayStep {
    /// Put a request to the client, and go on with its reply.
    Ask { relay: Relay, request: ClientRequest },
    /// Nothing more: this is what came of the call.
    Done { outcome: Result<Json, String> },
}

/// What a step says.
pub enum StepView {
    Ask { relay: RelayView, request: RequestView },
    Done { outcome: Result<JsonView, Seq<char>> },
}

impl View for RelayStep {
    type V = StepView;

    open spec fn view(&self) -> StepView {
        match self {
            RelayStep::Ask { relay, request } => StepView::Ask { relay: relay@, request: request@ },
            RelayStep::Done { outcome } => StepView::Done { outcome: outcome_view(*outcome) },
        }
    }
}

/// The connection's identifier that a reply to `mcp/connect` gives, or why there is none.
pub open spec fn connect_outcome(reply: ReplyView) -> Result<Seq<char>, Seq<char>> {
    match reply {
        ReplyView::ChannelClosed => Err("client connect_mcp channel closed"@),
        ReplyView::Dropped => Err("client connect_mcp response dropped"@),
        ReplyView::Refused(message) => Err(message),
        ReplyView::Answered(connection_id) => Ok(connection_id),
    }
}

/// The result that a reply to `mcp/message` gives, or why there is none.
pub open spec fn message_outcome(reply: ReplyView) -> Result<JsonView, Seq<char>> {
    match reply {
        ReplyView::ChannelClosed => Err("client message_mcp channel closed"@),
        ReplyView::Dropped => Err("client message_mcp response dropped"@),
        ReplyView::Refused(message) => Err(message),
        ReplyView::Answered(text) => json_parse(text),
    }
}

/// The parameters of the MCP handshake.
pub open spec fn initialize_members(version: Seq<char>) -> Seq<(Seq<char>, JsonView)> {
    seq![
        ("protocolVersion"@, JsonView::Str("2025-11-25"@)),
        ("capabilities"@, JsonView::Object(no_members())),
        (
            "clientInfo"@,
            JsonView::Object(
                seq![
                    ("name"@, JsonView::Str("codex-acp-mcp-bridge"@)),
                    ("version"@, JsonView::Str(version)),
                ],
            ),
        ),
    ]
}

/// Whether these are the parameters of a handshake in which the bridge names itself and this
/// version, asks for the protocol that it speaks, and claims nothing more.
pub open spec fn is_handshake(params: Seq<(Seq<char>, JsonView)>, version: Seq<char>) -> bool {
    let said = JsonView::Object(params);
    &&& params.len() == 3
    &&& said.field("protocolVersion"@) == Some(JsonView::Str("2025-11-25"@))
    &&& said.field("capabilities"@) matches Some(JsonView::Object(claimed)) && claimed.len() == 0
    &&& said.field("clientInfo"@) matches Some(client)
    &&& client.field("name"@) == Some(JsonView::Str("codex-acp-mcp-bridge"@))
    &&& client.field("version"@) == Some(JsonView::Str(version))
}

/// The parameters of the handshake name the bridge and its version, ask for the protocol that
/// the bridge speaks, and claim nothing more.
pub proof fn lemma_handshake(version: Seq<char>)
    ensures
        is_handshake(initialize_members(version), version),
        ({
            let said = JsonView::Object(initialize_members(version));
            let client = said.field("clientInfo"@)->0;
            &&& said->Object_0.len() == 3
            &&& said.field("protocolVersion"@) == Some(JsonView::Str("2025-11-25"@))
            &&& said.field("capabilities"@) == Some(JsonView::Object(Seq::empty()))
            &&& said.field("clientInfo"@) is Some
            &&& client is Object && client->Object_0.len() == 2
            &&& client.field("name"@) == Some(JsonView::Str("codex-acp-mcp-bridge"@))
            &&& client.field("version"@) == Some(JsonView::Str(version))
        }),
{
    reveal_strlit("protocolVersion");
    reveal_strlit("capabilities");
    reveal_strlit("clientInfo");
    reveal_strlit("name");
    reveal_strlit("version");
    assert("name"@.len() != "version"@.len());
    assert("protocolVersion"@.len() != "capabilities"@.len());
    assert("protocolVersion"@.len() != "clientInfo"@.len());
    assert("capabilities"@.len() != "clientInfo"@.len());
    let members = initialize_members(version);
    lemma_key_index(members, "protocolVersion"@, 0);
    lemma_key_index(members, "capabilities"@, 1);
    lemma_key_index(members, "clientInfo"@, 2);
    let client = members[2].1->Object_0;
    lemma_key_index(client, "name"@, 0);
    lemma_key_index(client, "version"@, 1);
}

/// The parameters that a call is sent with: those of an object as they are, none for null, and
/// any other value as the one parameter `value`.
pub open spec fn params_members(params: JsonView) -> Seq<(Seq<char>, JsonView)> {
    match params {
        JsonView::Object(members) => members,
        JsonView::Null => no_members(),
        other => seq![("value"@, other)],
    }
}

/// The first step of a call.
pub open spec fn relay_start(
    server_id: Seq<char>,
    method: Seq<char>,
    params: JsonView,
    version: Seq<char>,
) -> StepView {
    StepView::Ask {
        relay: RelayView::Connecting { method, params, version },
        request: RequestView::Connect { server_id },
    }
}

/// The step after the connection was asked for.
pub open spec fn step_connected(
    method: Seq<char>,
    params: JsonView,
    version: Seq<char>,
    connected: Result<Seq<char>, Seq<char>>,
) -> StepView {
    match connected {
        Ok(connection_id) => StepView::Ask {
            relay: RelayView::Initializing { connection_id, method, params },
            request: RequestView::Message {
                connection_id,
                method: "initialize"@,
                params: initialize_members(version),
            },
        },
        Err(message) => StepView::Done { outcome: Err(message) },
    }
}

/// The step after the handshake was sent.
pub open spec fn step_initialized(
    connection_id: Seq<char>,
    method: Seq<char>,
    params: JsonView,
    initialized: Result<JsonView, Seq<char>>,
) -> StepView {
    match initialized {
        Ok(_) => StepView::Ask {
            relay: RelayView::Calling,
            request: RequestView::Message {
                connection_id,
                method,
                params: params_members(params),
            },
        },
        Err(message) => StepView::Done { outcome: Err(message) },
    }
}

/// The step that a reply leads to.
pub open spec fn relay_step(relay: RelayView, reply: ReplyView) -> StepView {
    match relay {
        RelayView::Connecting { method, params, version } => step_connected(
            method,
            params,
            version,
            connect_outcome(reply),
        ),
        RelayView::Initializing { connection_id, method, params } => step_initialized(
            connection_id,
            method,
            params,
            message_outcome(reply),
        ),
        RelayView::Calling => StepView::Done { outcome: message_outcome(reply) },
    }
}

/// The connection's identifier that a reply to `mcp/connect` gives, or why there is none.
pub fn connect_mcp(reply: ClientReply) -> (outcome: Result<String, String>)
    ensures
        match outcome {
            Ok(connection_id) => connect_outcome(reply@) == Ok::<Seq<char>, Seq<char>>(
                connection_id@,
            ),
            Err(message) => connect_outcome(reply@) == Err::<Seq<char>, Seq<char>>(message@),
        },
        match reply {
            ClientReply::ChannelClosed => outcome matches Err(message) && message@
                == "client connect_mcp channel closed"@,
            ClientReply::Dropped => outcome matches Err(message) && message@
                == "client connect_mcp response dropped"@,
            ClientReply::Refused(message) => outcome == Err::<String, String>(message),
            ClientReply::Answered(connection_id) => outcome == Ok::<String, String>(connection_id),
        },
{
    match reply {
        ClientReply::ChannelClosed => Err("client connect_mcp channel closed".to_owned()),
        ClientReply::Dropped => Err("client connect_mcp response dropped".to_owned()),
        ClientReply::Refused(message) => Err(message),
        ClientReply::Answered(connection_id) => Ok(connection_id),
    }
}

/// The result that a reply to `mcp/message` gives, or why there is none.
pub fn message_mcp(reply: ClientReply) -> (outcome: Result<Json, String>)
    ensures
        outcome_view(outcome) == message_outcome(reply@),
        match reply {
            ClientReply::ChannelClosed => outcome matches Err(message) && message@
                == "client message_mcp channel closed"@,
            ClientReply::Dropped => outcome matches Err(message) && message@
                == "client message_mcp response dropped"@,
            ClientReply::Refused(message) => outcome == Err::<Json, String>(message),
            ClientReply::Answered(text) => {
                &&& match outcome {
                    Ok(json) => json_parse(text@) == Ok::<JsonView, Seq<char>>(json@),
                    Err(message) => json_parse(text@) == Err::<JsonView, Seq<char>>(message@),
                }
                &&& forall|json: JsonView|
                    #![trigger json_text(json)]
                    reads_back(json, 127) && json_text(json) == text@ ==> outcome is Ok
                        && outcome->Ok_0@ == json
            },
        },
{
    match reply {
        ClientReply::ChannelClosed => Err("client message_mcp channel closed".to_owned()),
        ClientReply::Dropped => Err("client message_mcp response dropped".to_owned()),
        ClientReply::Refused(message) => Err(message),
        ClientReply::Answered(text) => Json::parse(text.as_str()),
    }
}

/// The parameters of the MCP handshake.
pub fn initialize_params(version: &str) -> (params: JsonObject)
    ensures
        params@ == initialize_members(version@),
        is_handshake(params@, version@),
{
    proof {
        lemma_handshake(version@);
        reveal_strlit("protocolVersion");
        reveal_strlit("capabilities");
        reveal_strlit("clientInfo");
        reveal_strlit("name");
        reveal_strlit("version");
        assert("name"@.len() != "version"@.len());
        assert("protocolVersion"@.len() != "capabilities"@.len());
        assert("protocolVersion"@.len() != "clientInfo"@.len());
        assert("capabilities"@.len() != "clientInfo"@.len());
    }
    let client = JsonObject::new().with("name", Json::string("codex-acp-mcp-bridge"));
    proof {
        lemma_fresh_key(no_members(), "name"@, JsonView::Str("codex-acp-mcp-bridge"@));
        lemma_fresh_key(client@, "version"@, JsonView::Str(version@));
    }
    let client = client.with("version", Json::string(version));
    let first = JsonObject::new().with("protocolVersion", Json::string("2025-11-25"));
    proof {
        lemma_fresh_key(no_members(), "protocolVersion"@, JsonView::Str("2025-11-25"@));
        lemma_fresh_key(first@, "capabilities"@, JsonView::Object(no_members()));
    }
    let second = first.with("capabilities", Json::Object(JsonObject::new()));
    proof {
        lemma_fresh_key(second@, "clientInfo"@, JsonView::Object(client@));
    }
    let params = second.with("clientInfo", Json::Object(client));
    assert(client@ =~= initialize_members(version@)[2].1->Object_0);
    assert(params@ =~= initialize_members(version@));
    params
}

/// The parameters that a call is sent with: those of an object as they are, none for null, and
/// any other value as the one parameter `value`.
pub fn params_object(params: Json) -> (object: JsonObject)
    ensures
        object@ == params_members(params@),
        match params {
            Json::Object(given) => object@ == given@,
            Json::Null => object@.len() == 0,
            _ => object@.len() == 1 && object@[0] == ("value"@, params@),
        },
{
    match params {
        Json::Object(object) => object,
        Json::Null => JsonObject::new(),
        other => {
            proof {
                lemma_fresh_key(no_members(), "value"@, other@);
            }
            let object = JsonObject::new().with("value", other);
            assert(object@ =~= params_members(params@));
            object
        },
    }
}

impl Relay {
    /// Starts a call: asks the client for a fresh connection to the server.
    pub fn start(server_id: String, method: String, params: Json, version: String) -> (step: (
        Relay,
        ClientRequest,
    ))
        ensures
            (StepView::Ask { relay: step.0@, request: step.1@ }) == relay_start(
                server_id@,
                method@,
                params@,
                version@,
            ),
            step.1 == (ClientRequest::Connect { server_id }),
            step.0 == (Relay::Connecting { method, params, version }),
    {
        (Relay::Connecting { method, params, version }, ClientRequest::Connect { server_id })
    }

    /// Goes on once it is known whether the connection stands: runs the MCP handshake over it.
    pub fn connected(
        method: String,
        params: Json,
        version: String,
        connected: Result<String, String>,
    ) -> (step: RelayStep)
        ensures
            step@ == step_connected(
                method@,
                params@,
                version@,
                match connected {
                    Ok(connection_id) => Ok(connection_id@),
                    Err(message) => Err(message@),
                },
            ),
            match connected {
                Ok(connection) => {
                    &&& step matches RelayStep::Ask { relay, request }
                    &&& relay matches Relay::Initializing {
                        connection_id: kept,
                        method: later,
                        params: with,
                    }
                    &&& request matches ClientRequest::Message {
                        connection_id,
                        method: first,
                        params: handshake,
                    }
                    &&& kept@ == connection@
                    &&& later@ == method@
                    &&& with@ == params@
                    &&& connection_id@ == connection@
                    &&& first@ == "initialize"@
                    &&& is_handshake(handshake@, version@)
                },
                Err(message) => step == (RelayStep::Done { outcome: Err(message) }),
            },
    {
        match connected {
            Ok(connection_id) => {
                let request = ClientRequest::Message {
                    connection_id: connection_id.clone(),
                    method: "initialize".to_owned(),
                    params: initialize_params(version.as_str()),
                };
                RelayStep::Ask {
                    relay: Relay::Initializing { connection_id, method, params },
                    request,
                }
            },
            Err(message) => RelayStep::Done { outcome: Err(message) },
        }
    }

    /// Goes on once it is known what came of the handshake: sends the call itself. What the
    /// server said in the handshake is not looked at.
    pub fn initialized(
        connection_id: String,
        method: String,
        params: Json,
        initialized: Result<Json, String>,
    ) -> (step: RelayStep)
        ensures
            step@ == step_initialized(
                connection_id@,
                method@,
                params@,
                outcome_view(initialized),
            ),
            match initialized {
                Ok(_) => {
                    &&& step matches RelayStep::Ask { relay, request }
                    &&& relay is Calling
                    &&& request matches ClientRequest::Message {
                        connection_id: over,
                        method: call,
                        params: with,
                    }
                    &&& over@ == connection_id@
                    &&& call@ == method@
                    &&& params@ matches JsonView::Object(members) ==> with@ == members
                },
                Err(message) => step == (RelayStep::Done { outcome: Err(message) }),
            },
    {
        match initialized {
            Ok(_) => RelayStep::Ask {
                relay: Relay::Calling,
                request: ClientRequest::Message {
                    connection_id,
                    method,
                    params: params_object(params),
                },
            },
            Err(message) => RelayStep::Done { outcome: Err(message) },
        }
    }

    /// Goes on with the client's reply to what was asked last.
    pub fn step(self, reply: ClientReply) -> (step: RelayStep)
        ensures
            step@ == relay_step(self@, reply@),
    {
        match self {
            Relay::Connecting { method, params, version } => Relay::connected(
                method,
                params,
                version,
                connect_mcp(reply),
            ),
            Relay::Initializing { connection_id, method, params } => Relay::initialized(
                connection_id,
                method,
                params,
                message_mcp(reply),
            ),
            Relay::Calling => RelayStep::Done { outcome: message_mcp(reply) },
        }
    }
}

/// One forwarded MCP call: what the session's stdio server received, and which MCP server it
/// is for.
#[derive(Debug, PartialEq)]
pub struct BridgeRequest {
    pub id: u64,
    pub session_id: String,
    pub server_id: String,
    pub method: String,
    pub params: Json,
}

/// What came of a forwarded call.
#[derive(Debug, PartialEq)]
pub struct BridgeResponse {
    pub id: u64,
    pub success: bool,
    pub result: Option<Json>,
    pub error: Option<String>,
}

/// What a response says.
pub struct ResponseView {
    pub id: u64,
    pub success: bool,
    pub result: Option<JsonView>,
    pub error: Option<Seq<char>>,
}

impl View for BridgeResponse {
    type V = ResponseView;

    open spec fn view(&self) -> ResponseView {
        ResponseView {
            id: self.id,
            success: self.success,
            result: match self.result {
                Some(json) => Some(json@),
                None => None,
            },
            error: match self.error {
                Some(message) => Some(message@),
                None => None,
            },
        }
    }
}

/// The response to the call `id` when this came of it.
pub open spec fn outcome_response(id: u64, outcome: Result<JsonView, Seq<char>>) -> ResponseView {
    match outcome {
        Ok(result) => ResponseView { id, success: true, result: Some(result), error: None },
        Err(message) => ResponseView { id, success: false, result: None, error: Some(message) },
    }
}

impl ResponseView {
    /// The members of the object that a response is on the wire: a result or an error that is
    /// not there is left out.
    pub open spec fn members(self) -> Seq<(Seq<char>, JsonView)> {
        let head = seq![
            ("id"@, JsonView::Number(u64_number(self.id))),
            ("success"@, JsonView::Bool(self.success)),
        ];
        let with_result = match self.result {
            Some(result) => head.push(("result"@, result)),
            None => head,
        };
        match self.error {
            Some(message) => with_result.push(("error"@, JsonView::Str(message))),
            None => with_result,
        }
    }

    /// The object that a response is on the wire.
    pub open spec fn object(self) -> JsonView {
        JsonView::Object(self.members())
    }
}

impl BridgeResponse {
    /// The call `id` gave a result.
    pub fn success(id: u64, result: Json) -> (response: BridgeResponse)
        ensures
            response@ == outcome_response(id, Ok(result@)),
            response.id == id,
            response.success,
            response.result == Some(result),
            response.error is None,
    {
        BridgeResponse { id, success: true, result: Some(result), error: None }
    }

    /// The call `id` failed.
    pub fn error(id: u64, error: String) -> (response: BridgeResponse)
        ensures
            response@ == outcome_response(id, Err(error@)),
            response.id == id,
            !response.success,
            response.result is None,
            response.error == Some(error),
    {
        BridgeResponse { id, success: false, result: None, error: Some(error) }
    }

    /// The response to the call `id` when this came of it.
    pub fn from_outcome(id: u64, outcome: Result<Json, String>) -> (response: BridgeResponse)
        ensures
            response@ == outcome_response(id, outcome_view(outcome)),
            response.id == id,
            match outcome {
                Ok(result) => response.success && response.result == Some(result)
                    && response.error is None,
                Err(message) => !response.success && response.result is None && response.error
                    == Some(message),
            },
    {
        match outcome {
            Ok(result) => BridgeResponse::success(id, result),
            Err(message) => BridgeResponse::error(id, message),
        }
    }

    /// The object that the response is on the wire.
    pub fn into_json(self) -> (json: Json)
        ensures
            json@ == self@.object(),
    {
        proof {
            lemma_response_keys();
            lemma_fresh_key(no_members(), "id"@, JsonView::Number(u64_number(self.id)));
        }
        let ghost view = self@;
        let mut object = JsonObject::new().with("id", Json::from_u64(self.id));
        proof {
            lemma_fresh_key(object@, "success"@, JsonView::Bool(self.success));
        }
        object = object.with("success", Json::Bool(self.success));
        if let Some(result) = self.result {
            proof {
                lemma_fresh_key(object@, "result"@, result@);
            }
            object = object.with("result", result);
        }
        if let Some(message) = self.error {
            proof {
                lemma_fresh_key(object@, "error"@, JsonView::Str(message@));
            }
            object = object.with("error", Json::Str(message));
        }
        assert(object@ =~= view.members());
        Json::Object(object)
    }

    /// The line that the response is on the wire.
    pub fn into_line(self) -> (line: Result<String, String>)
        ensures
            line matches Ok(l) && is_line(l@, json_text(self@.object())),
            line matches Ok(l) && l@ == json_text(self@.object()).push('\n'),
    {
        match self.into_json().into_text() {
            Ok(text) => Ok(end_line(text)),
            Err(message) => Err(message),
        }
    }
}

/// Whether `line` is this text with a line break at its end and no other.
pub open spec fn is_line(line: Seq<char>, text: Seq<char>) -> bool {
    line == text.push('\n') && !text.contains('\n')
}

/// A line is its text and a line break, which is its last character and stands nowhere else in
/// it.
pub proof fn lemma_line_is_text_and_break(line: Seq<char>, text: Seq<char>)
    requires
        is_line(line, text),
    ensures
        line.len() == text.len() + 1,
        line.drop_last() == text,
        line.last() == '\n',
        forall|i: int| 0 <= i < text.len() ==> #[trigger] line[i] == text[i] && text[i] != '\n',
{
    assert(line.drop_last() =~= text);
    assert forall|i: int| 0 <= i < text.len() implies #[trigger] line[i] == text[i] && text[i]
        != '\n' by {
        assert(text.contains(text[i]));
    }
}

/// Ends a text with a line break.
pub fn end_line(text: String) -> (line: String)
    ensures
        line@ == text@.push('\n'),
{
    proof {
        reveal_strlit("\n");
    }
    let line: String = text.concat("\n");
    assert(line@ =~= text@.push('\n'));
    line
}

/// The keys of a response differ from one another.
pub proof fn lemma_response_keys()
    ensures
        "id"@ != "success"@,
        "id"@ != "result"@,
        "id"@ != "error"@,
        "success"@ != "result"@,
        "success"@ != "error"@,
        "result"@ != "error"@,
{
    reveal_strlit("id");
    reveal_strlit("success");
    reveal_strlit("result");
    reveal_strlit("error");
    assert("id"@.len() == 2);
    assert("success"@.len() == 7);
    assert("result"@.len() == 6);
    assert("error"@.len() == 5);
}

/// A call that the bridge has taken and not answered yet.
#[derive(Debug, PartialEq)]
pub struct PendingCall {
    id: u64,
    relay: Relay,
}

impl PendingCall {
    /// The identifier under which the call was made.
    pub closed spec fn id(self) -> u64 {
        self.id
    }

    /// How far the call has come.
    pub closed spec fn relay(self) -> RelayView {
        self.relay@
    }
}

/// What the bridge does next about a call.
#[derive(Debug, PartialEq)]
pub enum CallStep {
    /// Put a request to the client, and go on with its reply.
    Ask { call: PendingCall, request: ClientRequest },
    /// Send the response: the call is done.
    Respond { response: BridgeResponse },
}

/// Whether `step` is what the bridge does about the call `id` when its relay takes this step.
pub open spec fn answers(step: CallStep, id: u64, relayed: StepView) -> bool {
    match (step, relayed) {
        (CallStep::Ask { call, request }, StepView::Ask { relay, request: asked }) => {
            call.id() == id && call.relay() == relay && request@ == asked
        },
        (CallStep::Respond { response }, StepView::Done { outcome }) => {
            response@ == outcome_response(id, outcome)
        },
        _ => false,
    }
}

/// Takes a call: opens a fresh connection to its MCP server, over which first the MCP
/// handshake and then the call itself will go.
pub fn handle_request(request: BridgeRequest, version: String) -> (taken: (
    PendingCall,
    ClientRequest,
))
    ensures
        taken.0.id() == request.id,
        (StepView::Ask { relay: taken.0.relay(), request: taken.1@ }) == relay_start(
            request.server_id@,
            request.method@,
            request.params@,
            version@,
        ),
        taken.1 == (ClientRequest::Connect { server_id: request.server_id }),
        taken.0.relay() == (RelayView::Connecting {
            method: request.method@,
            params: request.params@,
            version: version@,
        }),
{
    let (relay, asked) = Relay::start(request.server_id, request.method, request.params, version);
    (PendingCall { id: request.id, relay }, asked)
}

impl PendingCall {
    /// Goes on with the client's reply to what was asked last.
    pub fn step(self, reply: ClientReply) -> (step: CallStep)
        ensures
            answers(step, self.id(), relay_step(self.relay(), reply@)),
            match step {
                CallStep::Ask { call, .. } => call.id() == self.id(),
                CallStep::Respond { response } => response.id == self.id(),
            },
            self.relay() is Calling ==> step is Respond && match reply {
                ClientReply::Answered(text) => match json_parse(text@) {
                    Ok(result) => {
                        &&& step->response.success
                        &&& step->response.result matches Some(json) && json@ == result
                        &&& step->response.error is None
                    },
                    Err(message) => {
                        &&& !step->response.success
                        &&& step->response.result is None
                        &&& step->response.error matches Some(error) && error@ == message
                    },
                },
                ClientReply::Refused(message) => {
                    &&& !step->response.success
                    &&& step->response.result is None
                    &&& step->response.error matches Some(error) && error@ == message@
                },
                _ => !step->response.success && step->response.result is None,
            },
    {
        match self.relay.step(reply) {
            RelayStep::Ask { relay, request } => CallStep::Ask {
                call: PendingCall { id: self.id, relay },
                request,
            },
            RelayStep::Done { outcome } => CallStep::Respond {
                response: BridgeResponse::from_outcome(self.id, outcome),
            },
        }
    }
}

/// What happened on a connection to the bridge.
#[derive(Debug, PartialEq)]
pub enum ConnectionEvent<E> {
    /// A line came in.
    Line(String),
    /// The other side is done.
    EndOfStream,
    /// No line could be read.
    ReadFailed(E),
    /// A line was read as a request, or was found to be none.
    Parsed(Result<BridgeRequest, String>),
    /// A call was carried out.
    Answered(BridgeResponse),
    /// A line went out, or did not.
    Written(Result<(), E>),
}

/// What to do about it.
#[derive(Debug, PartialEq)]
pub enum ConnectionAction<E> {
    /// Wait for the next line.
    ReadLine,
    /// Read this line as a request.
    Parse(String),
    /// Carry out this call.
    Carry(BridgeRequest),
    /// Send out this line, which ends with a line break.
    Write(String),
    /// Be done with the connection.
    Close,
    /// Give the connection up.
    Fail(E),
}

/// Whether a line has nothing but white space.
pub open spec fn is_blank(line: Seq<char>) -> bool {
    forall|i: int| 0 <= i < line.len() ==> white_space(#[trigger] line[i])
}

/// Whether `action` is what a connection does about `event`.
pub open spec fn connection_step<E>(event: ConnectionEvent<E>, action: ConnectionAction<E>) -> bool {
    match event {
        ConnectionEvent::Line(line) => if is_blank(line@) {
            action is ReadLine
        } else {
            action == ConnectionAction::<E>::Parse(line)
        },
        ConnectionEvent::EndOfStream => action is Close,
        ConnectionEvent::ReadFailed(error) => action == ConnectionAction::<E>::Fail(error),
        ConnectionEvent::Parsed(Ok(request)) => action == ConnectionAction::<E>::Carry(request),
        ConnectionEvent::Parsed(Err(_)) => action is ReadLine,
        ConnectionEvent::Answered(response) => {
            action matches ConnectionAction::Write(line) && is_line(
                line@,
                json_text(response@.object()),
            )
        },
        ConnectionEvent::Written(Ok(_)) => action is ReadLine,
        ConnectionEvent::Written(Err(error)) => action == ConnectionAction::<E>::Fail(error),
    }
}

/// Serves a connection, one event at a time: each line that holds a request is carried out and
/// answered with one line, blank and malformed lines are passed over, and the connection is
/// given up when reading or writing fails. A line with a brace in it is not blank.
pub fn handle_connection<E>(event: ConnectionEvent<E>) -> (action: ConnectionAction<E>)
    ensures
        connection_step(event, action),
        event matches ConnectionEvent::Line(line) ==> line@.contains('{') ==> action
            == ConnectionAction::<E>::Parse(line),
        match event {
            ConnectionEvent::Line(line) => if exists|i: int|
                0 <= i < line@.len() && !white_space(#[trigger] line@[i]) {
                action == ConnectionAction::<E>::Parse(line)
            } else {
                action is ReadLine
            },
            ConnectionEvent::EndOfStream => action is Close,
            ConnectionEvent::ReadFailed(error) => action == ConnectionAction::<E>::Fail(error),
            ConnectionEvent::Parsed(parsed) => match parsed {
                Ok(request) => action == ConnectionAction::<E>::Carry(request),
                Err(_) => action is ReadLine,
            },
            ConnectionEvent::Answered(response) => action matches ConnectionAction::Write(line)
                && line@ == json_text(response@.object()).push('\n'),
            ConnectionEvent::Written(written) => match written {
                Ok(_) => action is ReadLine,
                Err(error) => action == ConnectionAction::<E>::Fail(error),
            },
        },
{
    match event {
        ConnectionEvent::Line(line) => {
            if trim(line.as_str()).is_empty() {
                ConnectionAction::ReadLine
            } else {
                ConnectionAction::Parse(line)
            }
        },
        ConnectionEvent::EndOfStream => ConnectionAction::Close,
        ConnectionEvent::ReadFailed(error) => ConnectionAction::Fail(error),
        ConnectionEvent::Parsed(Ok(request)) => ConnectionAction::Carry(request),
        ConnectionEvent::Parsed(Err(_)) => ConnectionAction::ReadLine,
        ConnectionEvent::Answered(response) => match response.into_line() {
            Ok(line) => ConnectionAction::Write(line),
            // Writing JSON to memory does not fail.
            Err(_) => unreached(),
        },
        ConnectionEvent::Written(Ok(_)) => ConnectionAction::ReadLine,
        ConnectionEvent::Written(Err(error)) => ConnectionAction::Fail(error),
    }
}

/// An IPv4 address and port.
#[derive(Debug, Clone, Copy, PartialEq, Eq)]
pub struct BridgeAddress {
    pub octets: [u8; 4],
    pub port: u16,
}

/// Where the bridge is to listen: on the local host, at a port of the system's choosing.
pub fn listen_address() -> (address: BridgeAddress)
    ensures
        address.octets@ == seq![127u8, 0u8, 0u8, 1u8],
        address.port == 0,
{
    let octets: [u8; 4] = [127, 0, 0, 1];
    assert(octets@ =~= seq![127u8, 0u8, 0u8, 1u8]);
    BridgeAddress { octets, port: 0 }
}

/// The local endpoint that sessions' stdio servers send their calls to.
#[derive(Debug, Clone, Copy, PartialEq, Eq)]
pub struct AcpMcpBridge {
    address: BridgeAddress,
}

/// What the bridge does once a connection was waited for.
#[derive(Debug, PartialEq)]
pub enum AcceptAction<S, E> {
    /// Serve the connection, and wait for the next.
    Serve(S),
    /// Take no more connections.
    Stop(E),
}

impl AcpMcpBridge {
    /// Where the bridge listens.
    pub closed spec fn spec_address(self) -> BridgeAddress {
        self.address
    }

    /// The bridge that listens at the address it was bound to, if it could be bound.
    pub fn start<E>(bound: Result<BridgeAddress, E>) -> (started: Result<AcpMcpBridge, E>)
        ensures
            match bound {
                Ok(address) => started matches Ok(bridge) && bridge.spec_address() == address,
                Err(error) => started == Err::<AcpMcpBridge, E>(error),
            },
    {
        match bound {
            Ok(address) => Ok(AcpMcpBridge { address }),
            Err(error) => Err(error),
        }
    }

    /// Where the bridge listens.
    pub fn address(&self) -> (address: BridgeAddress)
        ensures
            address == self.spec_address(),
    {
        self.address
    }

    /// Serves a connection that came in; takes no more of them once waiting for one failed.
    pub fn accept<S, E>(accepted: Result<S, E>) -> (action: AcceptAction<S, E>)
        ensures
            action == (match accepted {
                Ok(stream) => AcceptAction::<S, E>::Serve(stream),
                Err(error) => AcceptAction::<S, E>::Stop(error),
            }),
    {
        match accepted {
            Ok(stream) => AcceptAction::Serve(stream),
            Err(error) => AcceptAction::Stop(error),
        }
    }
}

/// All that the client is asked for a call, and what came of the call, when these are the
/// replies. There is no outcome as long as a reply is missing.
pub struct RelayTrace {
    pub requests: Seq<RequestView>,
    pub outcome: Option<Result<JsonView, Seq<char>>>,
}

/// What a relay does from a step on, when these are the replies.
pub open spec fn relay_trace(step: StepView, replies: Seq<ReplyView>) -> RelayTrace
    decreases replies.len(),
{
    match step {
        StepView::Done { outcome } => RelayTrace { requests: seq![], outcome: Some(outcome) },
        StepView::Ask { relay, request } => if replies.len() == 0 {
            RelayTrace { requests: seq![request], outcome: None }
        } else {
            let rest = relay_trace(relay_step(relay, replies[0]), replies.skip(1));
            RelayTrace { requests: seq![request] + rest.requests, outcome: rest.outcome }
        },
    }
}

/// A call is at most three requests to the client, in this order: a connection to the server
/// it names, the MCP handshake, and the call itself, both over the connection that the client
/// just gave. Each is sent only once the one before it has succeeded.
pub proof fn lemma_relay_requests(
    server_id: Seq<char>,
    method: Seq<char>,
    params: JsonView,
    version: Seq<char>,
    replies: Seq<ReplyView>,
)
    ensures
        ({
            let requests = relay_trace(
                relay_start(server_id, method, params, version),
                replies,
            ).requests;
            &&& 1 <= requests.len() <= 3
            &&& requests.len() <= replies.len() + 1
            &&& requests[0] == RequestView::Connect { server_id }
            &&& requests.len() >= 2 ==> {
                &&& connect_outcome(replies[0]) is Ok
                &&& requests[1] == RequestView::Message {
                    connection_id: connect_outcome(replies[0])->Ok_0,
                    method: "initialize"@,
                    params: initialize_members(version),
                }
            }
            &&& requests.len() == 3 ==> {
                &&& message_outcome(replies[1]) is Ok
                &&& requests[2] == RequestView::Message {
                    connection_id: connect_outcome(replies[0])->Ok_0,
                    method,
                    params: params_members(params),
                }
            }
        }),
{
    reveal_with_fuel(relay_trace, 5);
}

/// A call comes to what the client said: the message of the first request that failed, after
/// which the client is asked nothing more, or else the reply to the call itself. It comes to
/// nothing yet as long as the reply to the last request is awaited.
pub proof fn lemma_relay_outcome(
    server_id: Seq<char>,
    method: Seq<char>,
    params: JsonView,
    version: Seq<char>,
    replies: Seq<ReplyView>,
)
    ensures
        ({
            let trace = relay_trace(relay_start(server_id, method, params, version), replies);
            if replies.len() == 0 {
                trace.outcome is None && trace.requests.len() == 1
            } else if let Err(message) = connect_outcome(replies[0]) {
                trace.outcome == Some(Err::<JsonView, Seq<char>>(message)) && trace.requests.len()
                    == 1
            } else if replies.len() == 1 {
                trace.outcome is None && trace.requests.len() == 2
            } else if let Err(message) = message_outcome(replies[1]) {
                trace.outcome == Some(Err::<JsonView, Seq<char>>(message)) && trace.requests.len()
                    == 2
            } else if replies.len() == 2 {
                trace.outcome is None && trace.requests.len() == 3
            } else {
                trace.outcome == Some(message_outcome(replies[2])) && trace.requests.len() == 3
            }
        }),
{
    reveal_with_fuel(relay_trace, 5);
    if replies.len() > 1 {
        assert(replies.skip(1)[0] == replies[1]);
    }
    if replies.len() > 2 {
        assert(replies.skip(1).skip(1)[0] == replies[2]);
    }
}

/// Whatever the client replies, a call keeps its identifier, and is answered under it with
/// either a result or an error, never both.
pub proof fn lemma_call_keeps_its_id(step: CallStep, id: u64, relayed: StepView)
    requires
        answers(step, id, relayed),
    ensures
        match step {
            CallStep::Ask { call, .. } => call.id() == id,
            CallStep::Respond { response } => {
                &&& response.id == id
                &&& response.success <==> response.result is Some
                &&& response.success <==> response.error is None
            },
        },
{
    if let CallStep::Respond { response } = step {
        let said = response@;
        assert(said.id == response.id);
        assert(said.result is Some <==> response.result is Some);
        assert(said.error is Some <==> response.error is Some);
    }
}

/// Whether this is how the bridge goes on with the call `id` whose relay has come this far, when
/// these are the client's replies: one step for each of them, up to the response.
pub open spec fn is_run(
    id: u64,
    relay: RelayView,
    replies: Seq<ReplyView>,
    steps: Seq<CallStep>,
) -> bool
    decreases steps.len(),
{
    &&& steps.len() == replies.len()
    &&& steps.len() > 0 ==> answers(steps[0], id, relay_step(relay, replies[0])) && match steps[0] {
        CallStep::Ask { call, .. } => is_run(id, call.relay(), replies.skip(1), steps.skip(1)),
        CallStep::Respond { .. } => steps.len() == 1,
    }
}

/// What the client is asked in these steps, in their order.
pub open spec fn asked(steps: Seq<CallStep>) -> Seq<RequestView>
    decreases steps.len(),
{
    if steps.len() == 0 {
        Seq::empty()
    } else {
        let rest = asked(steps.skip(1));
        match steps[0] {
            CallStep::Ask { request, .. } => seq![request@] + rest,
            CallStep::Respond { .. } => rest,
        }
    }
}

/// Whether `response` answers the call `request`: it tells, under the identifier of the call,
/// what came of relaying the call, for some replies of the client.
pub open spec fn is_answer(request: BridgeRequest, response: BridgeResponse) -> bool {
    exists|version: Seq<char>, replies: Seq<ReplyView>|
        {
            let trace = #[trigger] relay_trace(
                relay_start(request.server_id@, request.method@, request.params@, version),
                replies,
            );
            trace.outcome is Some && response@ == outcome_response(request.id, trace.outcome->0)
        }
}

/// The steps of a call ask the client what its relay asks, and end with what its relay comes to.
proof fn lemma_run_follows_relay(
    id: u64,
    relay: RelayView,
    request: RequestView,
    replies: Seq<ReplyView>,
    steps: Seq<CallStep>,
)
    requires
        is_run(id, relay, replies, steps),
    ensures
        ({
            let trace = relay_trace(StepView::Ask { relay, request }, replies);
            &&& trace.requests == seq![request] + asked(steps)
            &&& steps.len() > 0 ==> (steps.last() matches CallStep::Respond { response }
                ==> trace.outcome is Some && response@ == outcome_response(id, trace.outcome->0))
        }),
    decreases steps.len(),
{
    reveal_with_fuel(relay_trace, 2);
    if steps.len() == 0 {
        assert(seq![request] + asked(steps) =~= seq![request]);
    } else {
        match steps[0] {
            CallStep::Ask { call, request: next } => {
                let rest = steps.skip(1);
                lemma_run_follows_relay(id, call.relay(), next@, replies.skip(1), rest);
                if rest.len() > 0 {
                    assert(rest.last() == steps.last());
                }
            },
            CallStep::Respond { .. } => {
                assert(asked(steps.skip(1)) =~= Seq::empty());
            },
        }
    }
}

/// From when the bridge takes a call, with [`handle_request`], on, it asks the client for it what
/// [`relay_trace`] says, and the response that it ends with answers the call.
pub proof fn lemma_call_is_answered(
    request: BridgeRequest,
    version: Seq<char>,
    call: PendingCall,
    first: RequestView,
    replies: Seq<ReplyView>,
    steps: Seq<CallStep>,
)
    requires
        call.id() == request.id,
        (StepView::Ask { relay: call.relay(), request: first }) == relay_start(
            request.server_id@,
            request.method@,
            request.params@,
            version,
        ),
        is_run(call.id(), call.relay(), replies, steps),
    ensures
        ({
            let trace = relay_trace(
                relay_start(request.server_id@, request.method@, request.params@, version),
                replies,
            );
            &&& trace.requests == seq![first] + asked(steps)
            &&& steps.len() > 0 ==> (steps.last() matches CallStep::Respond { response } ==> {
                &&& trace.outcome is Some
                &&& response@ == outcome_response(request.id, trace.outcome->0)
                &&& is_answer(request, response)
            })
        }),
{
    lemma_run_follows_relay(call.id(), call.relay(), first, replies, steps);
}

/// Whether `event` can come of doing `action`. What comes of carrying out a call is a response
/// that answers it.
pub open spec fn comes_of<E>(action: ConnectionAction<E>, event: ConnectionEvent<E>) -> bool {
    match action {
        ConnectionAction::ReadLine => event is Line || event is EndOfStream || event is ReadFailed,
        ConnectionAction::Parse(_) => event is Parsed,
        ConnectionAction::Carry(request) => {
            event matches ConnectionEvent::Answered(response) && is_answer(request, response)
        },
        ConnectionAction::Write(_) => event is Written,
        ConnectionAction::Close => false,
        ConnectionAction::Fail(_) => false,
    }
}

/// Whether this is a stretch of what happens on a connection: each event with what is done about
/// it.
pub open spec fn is_stretch<E>(steps: Seq<(ConnectionEvent<E>, ConnectionAction<E>)>) -> bool {
    &&& forall|i: int|
        0 <= i < steps.len() ==> connection_step((#[trigger] steps[i]).0, steps[i].1)
    &&& forall|i: int|
        #![trigger steps[i]]
        0 < i < steps.len() ==> comes_of(steps[i - 1].1, steps[i].0)
}

/// Whether this is what happens on a connection from its beginning on: each event with what is
/// done about it.
pub open spec fn is_conversation<E>(
    steps: Seq<(ConnectionEvent<E>, ConnectionAction<E>)>,
) -> bool {
    &&& steps.len() > 0 ==> comes_of(ConnectionAction::<E>::ReadLine, steps[0].0)
    &&& is_stretch(steps)
}

/// A part of a stretch is a stretch.
proof fn lemma_part_of_stretch<E>(
    steps: Seq<(ConnectionEvent<E>, ConnectionAction<E>)>,
    from: int,
    to: int,
)
    requires
        is_stretch(steps),
        0 <= from <= to <= steps.len(),
    ensures
        is_stretch(steps.subrange(from, to)),
{
    let part = steps.subrange(from, to);
    assert forall|i: int| 0 <= i < part.len() implies connection_step(
        (#[trigger] part[i]).0,
        part[i].1,
    ) by {
        assert(part[i] == steps[from + i]);
    }
    assert forall|i: int| #![trigger part[i]] 0 < i < part.len() implies comes_of(
        part[i - 1].1,
        part[i].0,
    ) by {
        assert(part[i] == steps[from + i]);
    }
}

/// Two stretches, the second of which can come after the first, make one.
proof fn lemma_joined_stretches<E>(
    first: Seq<(ConnectionEvent<E>, ConnectionAction<E>)>,
    second: Seq<(ConnectionEvent<E>, ConnectionAction<E>)>,
)
    requires
        is_stretch(first),
        is_stretch(second),
        first.len() > 0 && second.len() > 0 ==> comes_of(first.last().1, second[0].0),
    ensures
        is_stretch(first + second),
{
    let joined = first + second;
    assert forall|i: int| 0 <= i < joined.len() implies connection_step(
        (#[trigger] joined[i]).0,
        joined[i].1,
    ) by {
        if i < first.len() {
            assert(joined[i] == first[i]);
        } else {
            assert(joined[i] == second[i - first.len()]);
        }
    }
    assert forall|i: int| #![trigger joined[i]] 0 < i < joined.len() implies comes_of(
        joined[i - 1].1,
        joined[i].0,
    ) by {
        if i < first.len() {
            assert(joined[i] == first[i]);
        } else {
            assert(joined[i] == second[i - first.len()]);
        }
    }
}

/// Each request that is read on a connection is answered before anything else is read there,
/// with one line under its identifier, and nothing else is ever written there: not for a blank
/// line, nor for a malformed one.
pub proof fn lemma_one_line_per_request<E>(
    steps: Seq<(ConnectionEvent<E>, ConnectionAction<E>)>,
    at: int,
)
    requires
        is_conversation(steps),
        0 <= at < steps.len(),
    ensures
        steps[at].1 is Write ==> {
            &&& at >= 2
            &&& steps[at - 2].0 matches ConnectionEvent::Line(line) && !is_blank(line@)
            &&& steps[at - 1].0 matches ConnectionEvent::Parsed(Ok(request))
            &&& steps[at].0 matches ConnectionEvent::Answered(response)
            &&& response.id == request.id
            &&& is_answer(request, response)
        },
        steps[at].1 is Carry && at + 1 < steps.len() ==> steps[at + 1].1 is Write,
{
    if steps[at].1 is Write && at > 0 {
        assert(steps[at - 1].1 is Carry);
        if at > 1 {
            assert(steps[at - 2].1 is Parse);
        }
    }
    if at + 1 < steps.len() {
        assert(connection_step(steps[at + 1].0, steps[at + 1].1));
    }
}

/// Whether the first of these steps passes over a line: one that is blank, or that is found to
/// hold no request.
pub open spec fn passes_over<E>(steps: Seq<(ConnectionEvent<E>, ConnectionAction<E>)>) -> bool {
    match steps[0].0 {
        ConnectionEvent::Line(line) => {
            ||| is_blank(line@)
            ||| steps.len() > 1 && (steps[1].0 matches ConnectionEvent::Parsed(Err(_)))
        },
        ConnectionEvent::Parsed(Err(_)) => true,
        _ => false,
    }
}

/// What happens on a connection, but for the lines that are passed over.
pub open spec fn heeded<E>(steps: Seq<(ConnectionEvent<E>, ConnectionAction<E>)>) -> Seq<
    ConnectionEvent<E>,
>
    decreases steps.len(),
{
    if steps.len() == 0 {
        Seq::empty()
    } else if passes_over(steps) {
        heeded(steps.skip(1))
    } else {
        seq![steps[0].0] + heeded(steps.skip(1))
    }
}

/// The calls that are carried out on a connection, in their order.
pub open spec fn carried<E>(steps: Seq<(ConnectionEvent<E>, ConnectionAction<E>)>) -> Seq<
    BridgeRequest,
>
    decreases steps.len(),
{
    if steps.len() == 0 {
        Seq::empty()
    } else {
        let rest = carried(steps.skip(1));
        match steps[0].1 {
            ConnectionAction::Carry(request) => seq![request] + rest,
            _ => rest,
        }
    }
}

/// The lines that are written on a connection, in their order.
pub open spec fn written<E>(steps: Seq<(ConnectionEvent<E>, ConnectionAction<E>)>) -> Seq<Seq<char>>
    decreases steps.len(),
{
    if steps.len() == 0 {
        Seq::empty()
    } else {
        let rest = written(steps.skip(1));
        match steps[0].1 {
            ConnectionAction::Write(line) => seq![line@] + rest,
            _ => rest,
        }
    }
}

/// How a connection ended, if it has.
pub open spec fn ending<E>(steps: Seq<(ConnectionEvent<E>, ConnectionAction<E>)>) -> Option<
    Result<(), E>,
> {
    if steps.len() == 0 {
        None
    } else {
        match steps.last().1 {
            ConnectionAction::Close => Some(Ok(())),
            ConnectionAction::Fail(error) => Some(Err(error)),
            _ => None,
        }
    }
}

/// The calls that are carried out when this happens on a connection.
spec fn carried_for<E>(events: Seq<ConnectionEvent<E>>) -> Seq<BridgeRequest>
    decreases events.len(),
{
    if events.len() == 0 {
        Seq::empty()
    } else {
        let rest = carried_for(events.skip(1));
        match events[0] {
            ConnectionEvent::Parsed(Ok(request)) => seq![request] + rest,
            _ => rest,
        }
    }
}

/// The lines that are written when this happens on a connection.
spec fn written_for<E>(events: Seq<ConnectionEvent<E>>) -> Seq<Seq<char>>
    decreases events.len(),
{
    if events.len() == 0 {
        Seq::empty()
    } else {
        let rest = written_for(events.skip(1));
        match events[0] {
            ConnectionEvent::Answered(response) => seq![
                json_text(response@.object()).push('\n'),
            ] + rest,
            _ => rest,
        }
    }
}

/// How a connection ended, if it has, when this happened on it.
spec fn ending_for<E>(events: Seq<ConnectionEvent<E>>) -> Option<Result<(), E>> {
    if events.len() == 0 {
        None
    } else {
        match events.last() {
            ConnectionEvent::EndOfStream => Some(Ok(())),
            ConnectionEvent::ReadFailed(error) => Some(Err(error)),
            ConnectionEvent::Written(Err(error)) => Some(Err(error)),
            _ => None,
        }
    }
}

/// What a connection does follows from what happens on it, but for the lines passed over.
proof fn lemma_heeded_decides<E>(steps: Seq<(ConnectionEvent<E>, ConnectionAction<E>)>)
    requires
        is_stretch(steps),
    ensures
        carried(steps) == carried_for(heeded(steps)),
        written(steps) == written_for(heeded(steps)),
        ending(steps) == ending_for(heeded(steps)),
    decreases steps.len(),
{
    if steps.len() > 0 {
        let rest = steps.skip(1);
        lemma_part_of_stretch(steps, 1, steps.len() as int);
        lemma_heeded_decides(rest);
        let event = steps[0].0;
        assert(connection_step(event, steps[0].1));
        if !passes_over(steps) {
            let kept = seq![event] + heeded(rest);
            assert(kept.skip(1) =~= heeded(rest));
            if heeded(rest).len() > 0 {
                assert(kept.last() == heeded(rest).last());
            }
        }
        if rest.len() > 0 {
            assert(rest.last() == steps.last());
            assert(comes_of(steps[0].1, steps[1].0));
        }
    }
}

/// Two connections on which the same happens, but for blank lines and lines that hold no
/// request, carry out the same calls, write the same lines and end alike.
pub proof fn lemma_passed_over_lines_change_nothing<E>(
    first: Seq<(ConnectionEvent<E>, ConnectionAction<E>)>,
    second: Seq<(ConnectionEvent<E>, ConnectionAction<E>)>,
)
    requires
        is_conversation(first),
        is_conversation(second),
        heeded(first) == heeded(second),
    ensures
        carried(first) == carried(second),
        written(first) == written(second),
        ending(first) == ending(second),
{
    lemma_heeded_decides(first);
    lemma_heeded_decides(second);
}

/// Whether these steps are what is done about a line that is passed over: one that is blank, or
/// that is found to hold no request.
pub open spec fn is_passed_over<E>(
    line: String,
    steps: Seq<(ConnectionEvent<E>, ConnectionAction<E>)>,
) -> bool {
    if is_blank(line@) {
        steps == seq![(ConnectionEvent::<E>::Line(line), ConnectionAction::<E>::ReadLine)]
    } else {
        &&& steps.len() == 2
        &&& steps[0] == (ConnectionEvent::<E>::Line(line), ConnectionAction::<E>::Parse(line))
        &&& steps[1].0 matches ConnectionEvent::Parsed(Err(_))
        &&& steps[1].1 is ReadLine
    }
}

/// What is heeded of two stretches, the first of which ends with waiting for a line, is heeded of
/// both together.
proof fn lemma_heeded_in_parts<E>(
    first: Seq<(ConnectionEvent<E>, ConnectionAction<E>)>,
    second: Seq<(ConnectionEvent<E>, ConnectionAction<E>)>,
)
    requires
        is_stretch(first),
        first.len() > 0 ==> first.last().1 is ReadLine,
    ensures
        heeded(first + second) == heeded(first) + heeded(second),
    decreases first.len(),
{
    if first.len() == 0 {
        assert(first + second =~= second);
    } else {
        let rest = first.skip(1);
        assert((first + second).skip(1) =~= rest + second);
        lemma_part_of_stretch(first, 1, first.len() as int);
        lemma_heeded_in_parts(rest, second);
        assert(connection_step(first[0].0, first[0].1));
        assert(passes_over(first + second) == passes_over(first));
    }
}

/// What is done about a line that is passed over is a stretch of which nothing is heeded.
proof fn lemma_passed_over_stretch<E>(
    line: String,
    passed: Seq<(ConnectionEvent<E>, ConnectionAction<E>)>,
)
    requires
        is_passed_over(line, passed),
    ensures
        is_stretch(passed),
        heeded(passed) == Seq::<ConnectionEvent<E>>::empty(),
{
    reveal_with_fuel(heeded, 3);
}

/// A blank line, or one that holds no request, can come in wherever a line is waited for: the
/// connection passes it over and goes on as it would have gone on without it.
pub proof fn lemma_line_is_passed_over<E>(
    before: Seq<(ConnectionEvent<E>, ConnectionAction<E>)>,
    line: String,
    passed: Seq<(ConnectionEvent<E>, ConnectionAction<E>)>,
    after: Seq<(ConnectionEvent<E>, ConnectionAction<E>)>,
)
    requires
        is_conversation(before + after),
        before.len() > 0 ==> before.last().1 is ReadLine,
        is_passed_over(line, passed),
    ensures
        is_conversation(before + passed + after),
        heeded(before + passed + after) == heeded(before + after),
        carried(before + passed + after) == carried(before + after),
        written(before + passed + after) == written(before + after),
        ending(before + passed + after) == ending(before + after),
{
    let without = before + after;
    let from = before.len() as int;
    assert(before =~= without.subrange(0, from));
    assert(after =~= without.subrange(from, without.len() as int));
    lemma_part_of_stretch(without, 0, from);
    lemma_part_of_stretch(without, from, without.len() as int);
    lemma_passed_over_stretch(line, passed);
    if after.len() > 0 {
        assert(without[from] == after[0]);
        if from > 0 {
            assert(without[from - 1] == before.last());
        }
    }
    lemma_joined_stretches(passed, after);
    lemma_joined_stretches(before, passed + after);
    lemma_heeded_in_parts(before, after);
    lemma_heeded_in_parts(before, passed + after);
    lemma_heeded_in_parts(passed, after);
    assert(before + (passed + after) =~= before + passed + after);
    assert(heeded(before + passed + after) =~= heeded(without));
    lemma_passed_over_lines_change_nothing(before + passed + after, without);
}

/// Whether `line` is the line of a response that answers the call `request`.
pub open spec fn is_line_of_answer(request: BridgeRequest, line: Seq<char>) -> bool {
    exists|response: BridgeResponse| #[trigger]
        is_answer(request, response) && is_line(line, json_text(response@.object()))
}

/// Whether these lines are those of responses that answer these calls, each the call at its own
/// place.
pub open spec fn are_answered(requests: Seq<BridgeRequest>, lines: Seq<Seq<char>>) -> bool {
    &&& lines.len() <= requests.len()
    &&& forall|i: int|
        0 <= i < lines.len() ==> is_line_of_answer(requests[i], #[trigger] lines[i])
}

/// The calls of a stretch that does not begin in the middle of one are answered in their order.
proof fn lemma_stretch_answers_in_order<E>(steps: Seq<(ConnectionEvent<E>, ConnectionAction<E>)>)
    requires
        is_stretch(steps),
        steps.len() > 0 ==> !(steps[0].0 is Answered),
    ensures
        are_answered(carried(steps), written(steps)),
        carried(steps).len() == written(steps).len() + if steps.len() > 0 && steps.last().1 is Carry {
            1int
        } else {
            0
        },
    decreases steps.len(),
{
    if steps.len() > 0 {
        let rest = steps.skip(1);
        lemma_part_of_stretch(steps, 1, steps.len() as int);
        assert(connection_step(steps[0].0, steps[0].1));
        if rest.len() == 0 {
            assert(carried(rest) =~= Seq::empty());
            assert(written(rest) =~= Seq::empty());
        } else {
            assert(rest.last() == steps.last());
            assert(comes_of(steps[0].1, steps[1].0));
            assert(connection_step(steps[1].0, steps[1].1));
            if let ConnectionAction::Carry(request) = steps[0].1 {
                let later = rest.skip(1);
                lemma_part_of_stretch(rest, 1, rest.len() as int);
                if later.len() > 0 {
                    assert(later.last() == steps.last());
                    assert(comes_of(steps[1].1, steps[2].0));
                }
                lemma_stretch_answers_in_order(later);
                let line = steps[1].1->Write_0@;
                assert(is_line_of_answer(request, line));
                assert(rest[0] == steps[1]);
                assert(written(rest) == seq![line] + written(later));
                assert(carried(rest) == carried(later));
                assert(written(steps) == written(rest));
                assert(carried(steps) == seq![request] + carried(later));
            } else {
                lemma_stretch_answers_in_order(rest);
            }
        }
    }
}

/// The lines that are written on a connection are those of responses to the calls that are
/// carried out there, one for each and in the order of the calls; only the last call can be
/// without its line, while it is being carried out, and none is once the connection is closed.
pub proof fn lemma_calls_are_answered_in_order<E>(
    steps: Seq<(ConnectionEvent<E>, ConnectionAction<E>)>,
)
    requires
        is_conversation(steps),
    ensures
        are_answered(carried(steps), written(steps)),
        carried(steps).len() <= written(steps).len() + 1,
        !(steps.len() > 0 && steps.last().1 is Carry) ==> carried(steps).len() == written(
            steps,
        ).len(),
        ending(steps) == Some(Ok::<(), E>(())) ==> carried(steps).len() == written(steps).len(),
{
    lemma_stretch_answers_in_order(steps);
}

/// A reply, a request to the client and a response say what they hold.
pub proof fn lemma_messages_say_what_they_hold(
    reply: ClientReply,
    request: ClientRequest,
    response: BridgeResponse,
)
    ensures
        match reply {
            ClientReply::ChannelClosed => reply@ is ChannelClosed,
            ClientReply::Dropped => reply@ is Dropped,
            ClientReply::Refused(message) => reply@ == ReplyView::Refused(message@),
            ClientReply::Answered(text) => reply@ == ReplyView::Answered(text@),
        },
        match request {
            ClientRequest::Connect { server_id } => request@ == (RequestView::Connect {
                server_id: server_id@,
            }),
            ClientRequest::Message { connection_id, method, params } => request@ == (
            RequestView::Message {
                connection_id: connection_id@,
                method: method@,
                params: params@,
            }),
        },
        response@.id == response.id,
        response@.success == response.success,
        match response.result {
            Some(json) => response@.result == Some(json@),
            None => response@.result is None,
        },
        match response.error {
            Some(message) => response@.error == Some(message@),
            None => response@.error is None,
        },
{
}

/// What the client answers is what is taken to have come of the request: the connection that it
/// names, or the value that its text is read as, whatever that value is; and where the client
/// refuses, what it says is the reason.
pub proof fn lemma_answers_are_taken_as_they_are(text: Seq<char>)
    ensures
        connect_outcome(ReplyView::Answered(text)) == Ok::<Seq<char>, Seq<char>>(text),
        connect_outcome(ReplyView::Refused(text)) == Err::<Seq<char>, Seq<char>>(text),
        connect_outcome(ReplyView::ChannelClosed) == Err::<Seq<char>, Seq<char>>(
            "client connect_mcp channel closed"@,
        ),
        connect_outcome(ReplyView::Dropped) == Err::<Seq<char>, Seq<char>>(
            "client connect_mcp response dropped"@,
        ),
        message_outcome(ReplyView::Answered(text)) == json_parse(text),
        message_outcome(ReplyView::Refused(text)) == Err::<JsonView, Seq<char>>(text),
        message_outcome(ReplyView::ChannelClosed) == Err::<JsonView, Seq<char>>(
            "client message_mcp channel closed"@,
        ),
        message_outcome(ReplyView::Dropped) == Err::<JsonView, Seq<char>>(
            "client message_mcp response dropped"@,
        ),
{
}

/// When the client connects and the handshake is answered with JSON, the client is asked for just
/// this: a connection to the server, the handshake over it, and the call itself over it, with
/// its own method and its own parameters. What comes of the call is what the client says to that
/// last request: the value that its answer is read as, or why there is none.
pub proof fn lemma_call_comes_to_what_the_client_answers(
    server_id: Seq<char>,
    method: Seq<char>,
    params: JsonView,
    version: Seq<char>,
    connection: Seq<char>,
    greeting: Seq<char>,
    replies: Seq<ReplyView>,
)
    requires
        replies.len() >= 3,
        replies[0] == ReplyView::Answered(connection),
        replies[1] == ReplyView::Answered(greeting),
        json_parse(greeting) is Ok,
    ensures
        ({
            let trace = relay_trace(relay_start(server_id, method, params, version), replies);
            let handshake = trace.requests[1]->params;
            let sent = trace.requests[2]->params;
            &&& trace.requests.len() == 3
            &&& trace.requests[0] == (RequestView::Connect { server_id })
            &&& trace.requests[1] == (RequestView::Message {
                connection_id: connection,
                method: "initialize"@,
                params: handshake,
            })
            &&& JsonView::Object(handshake).field("protocolVersion"@) == Some(
                JsonView::Str("2025-11-25"@),
            )
            &&& trace.requests[2] == (RequestView::Message {
                connection_id: connection,
                method,
                params: sent,
            })
            &&& match params {
                JsonView::Object(members) => sent == members,
                JsonView::Null => sent.len() == 0,
                other => sent.len() == 1 && sent[0] == ("value"@, other),
            }
            &&& trace.outcome == Some(
                match replies[2] {
                    ReplyView::Answered(answer) => json_parse(answer),
                    ReplyView::Refused(message) => Err(message),
                    ReplyView::Dropped => Err("client message_mcp response dropped"@),
                    ReplyView::ChannelClosed => Err("client message_mcp channel closed"@),
                },
            )
        }),
{
    lemma_relay_requests(server_id, method, params, version, replies);
    lemma_relay_outcome(server_id, method, params, version, replies);
    lemma_handshake(version);
}

/// When the client does not connect, a call fails with what the client says, and nothing more is
/// asked; and so it does when the handshake is not answered, or not with JSON.
pub proof fn lemma_call_fails_with_what_the_client_says(
    server_id: Seq<char>,
    method: Seq<char>,
    params: JsonView,
    version: Seq<char>,
    replies: Seq<ReplyView>,
)
    ensures
        ({
            let trace = relay_trace(relay_start(server_id, method, params, version), replies);
            &&& replies.len() >= 1 && !(replies[0] is Answered) ==> {
                &&& trace.requests.len() == 1
                &&& trace.outcome == Some(
                    match replies[0] {
                        ReplyView::Refused(message) => Err::<JsonView, Seq<char>>(message),
                        ReplyView::Dropped => Err("client connect_mcp response dropped"@),
                        _ => Err("client connect_mcp channel closed"@),
                    },
                )
            }
            &&& replies.len() >= 2 && replies[0] is Answered ==> match replies[1] {
                ReplyView::Answered(text) => json_parse(text) is Err ==> trace.requests.len() == 2
                    && trace.outcome == Some(json_parse(text)),
                ReplyView::Refused(message) => trace.requests.len() == 2 && trace.outcome == Some(
                    Err::<JsonView, Seq<char>>(message),
                ),
                ReplyView::Dropped => trace.requests.len() == 2 && trace.outcome == Some(
                    Err::<JsonView, Seq<char>>("client message_mcp response dropped"@),
                ),
                ReplyView::ChannelClosed => trace.requests.len() == 2 && trace.outcome == Some(
                    Err::<JsonView, Seq<char>>("client message_mcp channel closed"@),
                ),
            }
        }),
{
    lemma_relay_outcome(server_id, method, params, version, replies);
}

/// When the client connects, and answers the handshake with JSON and then the call, the response
/// to the call succeeds with the value that the answer is read as, under the identifier of the
/// call; if the answer is not JSON, the response is why.
pub proof fn lemma_response_holds_what_the_client_answers(
    request: BridgeRequest,
    version: Seq<char>,
    call: PendingCall,
    first: RequestView,
    replies: Seq<ReplyView>,
    steps: Seq<CallStep>,
    text: Seq<char>,
)
    requires
        call.id() == request.id,
        (StepView::Ask { relay: call.relay(), request: first }) == relay_start(
            request.server_id@,
            request.method@,
            request.params@,
            version,
        ),
        is_run(call.id(), call.relay(), replies, steps),
        replies.len() == 3,
        replies[0] is Answered,
        replies[1] is Answered,
        json_parse(replies[1]->Answered_0) is Ok,
        replies[2] == ReplyView::Answered(text),
    ensures
        steps.len() == 3,
        steps[2] is Respond,
        steps[2]->response.id == request.id,
        match json_parse(text) {
            Ok(result) => {
                &&& steps[2]->response.success
                &&& steps[2]->response.result matches Some(json) && json@ == result
                &&& steps[2]->response.error is None
            },
            Err(message) => {
                &&& !steps[2]->response.success
                &&& steps[2]->response.result is None
                &&& steps[2]->response.error matches Some(error) && error@ == message
            },
        },
{
    reveal_with_fuel(is_run, 4);
    let after_one = steps.skip(1);
    let after_two = after_one.skip(1);
    assert(after_one[0] == steps[1]);
    assert(after_two[0] == steps[2]);
    assert(replies.skip(1)[0] == replies[1]);
    assert(replies.skip(1).skip(1)[0] == replies[2]);
    assert(steps[2] is Respond);
    let response = steps[2]->response;
    assert(response@ == outcome_response(request.id, json_parse(text)));
    lemma_response_tells_the_outcome(request.id, json_parse(text));
    assert(response@.id == response.id);
    assert(response@.result is Some <==> response.result is Some);
    assert(response@.error is Some <==> response.error is Some);
}

/// A response tells what came of its call: the result if there is one, whatever it is, or else
/// the message; and responses to different calls, or with different outcomes, differ.
pub proof fn lemma_response_tells_the_outcome(id: u64, outcome: Result<JsonView, Seq<char>>)
    ensures
        ({
            let response = outcome_response(id, outcome);
            &&& response.id == id
            &&& match outcome {
                Ok(result) => response.success && response.result == Some(result)
                    && response.error is None,
                Err(message) => !response.success && response.result is None && response.error
                    == Some(message),
            }
        }),
{
}

/// The object that a response is on the wire has the response's identifier, whether it is a
/// success, and its result and its message as far as there are any; and nothing else.
pub proof fn lemma_response_is_whole_on_the_wire(response: BridgeResponse)
    ensures
        ({
            let object = response@.object();
            &&& object is Object
            &&& object.field("id"@) == Some(JsonView::Number(u64_number(response.id)))
            &&& object.field("success"@) == Some(JsonView::Bool(response.success))
            &&& match response.result {
                Some(json) => object.field("result"@) == Some(json@),
                None => object.field("result"@) is None,
            }
            &&& match response.error {
                Some(message) => object.field("error"@) == Some(JsonView::Str(message@)),
                None => object.field("error"@) is None,
            }
            &&& object->Object_0.len() == 2 + (if response.result is Some {
                1int
            } else {
                0
            }) + (if response.error is Some {
                1int
            } else {
                0
            })
        }),
{
    lemma_response_keys();
    let members = response@.members();
    lemma_key_index(members, "id"@, 0);
    lemma_key_index(members, "success"@, 1);
    lemma_key_index(members, "result"@, if response.result is Some { 2 } else { members.len() as int });
    lemma_key_index(
        members,
        "error"@,
        if response.error is Some {
            members.len() - 1
        } else {
            members.len() as int
        },
    );
}

/// A line is blank just if each of its characters is white space: none is, one is if it is white
/// space, and two texts together are if each is.
pub proof fn lemma_blank_lines_are_white_space(c: char, first: Seq<char>, second: Seq<char>)
    ensures
        is_blank(Seq::empty()),
        is_blank(seq![c]) <==> white_space(c),
        is_blank(first + second) <==> is_blank(first) && is_blank(second),
        0x21 <= c as u32 <= 0x7e ==> !white_space(c),
        white_space(' ') && white_space('\t') && white_space('\r') && white_space('\n'),
{
    if is_blank(seq![c]) {
        assert(seq![c][0] == c);
    }
    let both = first + second;
    if is_blank(both) {
        assert forall|i: int| 0 <= i < first.len() implies white_space(#[trigger] first[i]) by {
            assert(both[i] == first[i]);
        }
        assert forall|i: int| 0 <= i < second.len() implies white_space(#[trigger] second[i]) by {
            assert(both[first.len() + i] == second[i]);
        }
    }
    if is_blank(first) && is_blank(second) {
        assert forall|i: int| 0 <= i < both.len() implies white_space(#[trigger] both[i]) by {
            if i < first.len() {
                assert(both[i] == first[i]);
            } else {
                assert(both[i] == second[i - first.len()]);
            }
        }
    }
}

/// On a connection each line with something in it is read as a request, each request is carried
/// out, whatever it asks, each answer is written, and the next line is waited for after what was
/// written and after what holds no request; the connection ends when the other side is done, and
/// with the failure when reading or writing fails.
pub proof fn lemma_connection_goes_on<E>(
    steps: Seq<(ConnectionEvent<E>, ConnectionAction<E>)>,
    at: int,
)
    requires
        is_conversation(steps),
        0 <= at < steps.len(),
    ensures
        match steps[at].0 {
            ConnectionEvent::Line(line) => {
                &&& (forall|i: int| 0 <= i < line@.len() ==> white_space(#[trigger] line@[i]))
                    ==> steps[at].1 is ReadLine
                &&& (exists|i: int| 0 <= i < line@.len() && !white_space(#[trigger] line@[i]))
                    ==> steps[at].1 == ConnectionAction::<E>::Parse(line)
            },
            ConnectionEvent::Parsed(Ok(request)) => steps[at].1 == ConnectionAction::<E>::Carry(
                request,
            ),
            ConnectionEvent::Parsed(Err(_)) => steps[at].1 is ReadLine,
            ConnectionEvent::Answered(response) => {
                &&& steps[at].1 matches ConnectionAction::Write(line)
                &&& line@ == json_text(response@.object()).push('\n')
            },
            ConnectionEvent::Written(Ok(_)) => steps[at].1 is ReadLine,
            ConnectionEvent::Written(Err(error)) => steps[at].1 == ConnectionAction::<E>::Fail(
                error,
            ),
            ConnectionEvent::ReadFailed(error) => steps[at].1 == ConnectionAction::<E>::Fail(error),
            ConnectionEvent::EndOfStream => steps[at].1 is Close,
        },
{
    assert(connection_step(steps[at].0, steps[at].1));
}

/// The requests that are read on a connection, in their order.
pub open spec fn requested<E>(steps: Seq<(ConnectionEvent<E>, ConnectionAction<E>)>) -> Seq<
    BridgeRequest,
>
    decreases steps.len(),
{
    if steps.len() == 0 {
        Seq::empty()
    } else {
        let rest = requested(steps.skip(1));
        match steps[0].0 {
            ConnectionEvent::Parsed(Ok(read)) => seq![read] + rest,
            _ => rest,
        }
    }
}

/// The calls that are carried out in a stretch are the requests that are read in it.
proof fn lemma_stretch_carries_requests<E>(steps: Seq<(ConnectionEvent<E>, ConnectionAction<E>)>)
    requires
        is_stretch(steps),
    ensures
        carried(steps) == requested(steps),
    decreases steps.len(),
{
    if steps.len() > 0 {
        lemma_part_of_stretch(steps, 1, steps.len() as int);
        lemma_stretch_carries_requests(steps.skip(1));
        assert(connection_step(steps[0].0, steps[0].1));
    }
}

/// The calls that are carried out on a connection are the requests that are read there, all of
/// them and in their order, whatever they ask; and once the connection waits for a line again, or
/// is closed, one line has been written for each, which answers it.
pub proof fn lemma_every_request_is_carried_out_and_answered<E>(
    steps: Seq<(ConnectionEvent<E>, ConnectionAction<E>)>,
)
    requires
        is_conversation(steps),
    ensures
        forall|i: int|
            #![trigger steps[i]]
            0 <= i < steps.len() ==> (steps[i].0 matches ConnectionEvent::Parsed(Ok(request))
                ==> steps[i].1 == ConnectionAction::<E>::Carry(request)),
        carried(steps) == requested(steps),
        are_answered(requested(steps), written(steps)),
        steps.len() > 0 && (steps.last().1 is ReadLine || steps.last().1 is Close) ==> written(
            steps,
        ).len() == requested(steps).len(),
{
    lemma_stretch_carries_requests(steps);
    lemma_calls_are_answered_in_order(steps);
    assert forall|i: int|
        #![trigger steps[i]]
        0 <= i < steps.len() && (steps[i].0 matches ConnectionEvent::Parsed(Ok(_))) implies steps[i].1
        == ConnectionAction::<E>::Carry(steps[i].0->Parsed_0->Ok_0) by {
        lemma_connection_goes_on(steps, i);
    }
}

} // verus!
