use codex_acp::json::{Json, JsonObject};
use codex_acp::mcp_acp_bridge::bridge::{
    connect_mcp, end_line, handle_connection, handle_request, initialize_params, listen_address,
    message_mcp, params_object, AcceptAction, AcpMcpBridge, BridgeAddress, BridgeRequest,
    BridgeResponse, CallStep, ClientReply, ClientRequest, ConnectionAction, ConnectionEvent,
    PendingCall, Relay, RelayStep,
};

const INITIALIZE: &str = "{\"protocolVersion\":\"2025-11-25\",\"capabilities\":{},\
\"clientInfo\":{\"name\":\"codex-acp-mcp-bridge\",\"version\":\"9.9\"}}";

fn parsed(text: &str) -> Json {
    Json::parse(text).unwrap()
}

fn parsed_object(text: &str) -> JsonObject {
    match parsed(text) {
        Json::Object(object) => object,
        _ => panic!("not an object: {}", text),
    }
}

fn request(params: Json) -> BridgeRequest {
    BridgeRequest {
        id: 41,
        session_id: "session".to_string(),
        server_id: "server".to_string(),
        method: "tools/call".to_string(),
        params,
    }
}

fn answered(text: &str) -> ClientReply {
    ClientReply::Answered(text.to_string())
}

fn expect_ask(step: CallStep) -> (PendingCall, ClientRequest) {
    match step {
        CallStep::Ask { call, request } => (call, request),
        CallStep::Respond { response } => panic!("responded: {:?}", response),
    }
}

fn expect_response(step: CallStep) -> BridgeResponse {
    match step {
        CallStep::Respond { response } => response,
        CallStep::Ask { request, .. } => panic!("asked: {:?}", request),
    }
}

#[test]
fn call_connects_initializes_and_calls() {
    let (call, asked) =
        handle_request(request(parsed("{\"name\":\"t\",\"arguments\":null}")), "9.9".to_string());
    assert_eq!(asked, ClientRequest::Connect { server_id: "server".to_string() });

    let (call, asked) = expect_ask(call.step(answered("conn-1")));
    assert_eq!(
        asked,
        ClientRequest::Message {
            connection_id: "conn-1".to_string(),
            method: "initialize".to_string(),
            params: parsed_object(INITIALIZE),
        }
    );

    let (call, asked) = expect_ask(call.step(answered("{\"anything\":1}")));
    assert_eq!(
        asked,
        ClientRequest::Message {
            connection_id: "conn-1".to_string(),
            method: "tools/call".to_string(),
            params: parsed_object("{\"name\":\"t\",\"arguments\":null}"),
        }
    );

    let response = expect_response(call.step(answered("{\"content\":[]}")));
    assert_eq!(response, BridgeResponse::success(41, parsed("{\"content\":[]}")));
}

#[test]
fn failed_connection_ends_the_call() {
    for (reply, message) in [
        (ClientReply::ChannelClosed, "client connect_mcp channel closed"),
        (ClientReply::Dropped, "client connect_mcp response dropped"),
        (ClientReply::Refused("no such server".to_string()), "no such server"),
    ] {
        let (call, _) = handle_request(request(Json::Null), "9.9".to_string());
        let response = expect_response(call.step(reply));
        assert_eq!(response, BridgeResponse::error(41, message.to_string()));
    }
}

#[test]
fn failed_handshake_ends_the_call() {
    for (reply, message) in [
        (ClientReply::ChannelClosed, "client message_mcp channel closed"),
        (ClientReply::Dropped, "client message_mcp response dropped"),
        (ClientReply::Refused("bad version".to_string()), "bad version"),
        (answered("nonsense"), "expected ident at line 1 column 2"),
    ] {
        let (call, _) = handle_request(request(Json::Null), "9.9".to_string());
        let (call, _) = expect_ask(call.step(answered("c")));
        let response = expect_response(call.step(reply));
        assert_eq!(response, BridgeResponse::error(41, message.to_string()));
    }
}

#[test]
fn failed_call_is_reported() {
    let (call, _) = handle_request(request(Json::Null), "9.9".to_string());
    let (call, _) = expect_ask(call.step(answered("c")));
    let (call, _) = expect_ask(call.step(answered("null")));
    let response = expect_response(call.step(ClientReply::Refused("unknown tool".to_string())));
    assert_eq!(response, BridgeResponse::error(41, "unknown tool".to_string()));
}

#[test]
fn relay_steps_take_what_was_read() {
    let step = Relay::initialized(
        "c".to_string(),
        "m".to_string(),
        Json::from_u64(5),
        Ok(Json::Bool(false)),
    );
    assert_eq!(
        step,
        RelayStep::Ask {
            relay: Relay::Calling,
            request: ClientRequest::Message {
                connection_id: "c".to_string(),
                method: "m".to_string(),
                params: parsed_object("{\"value\":5}"),
            },
        }
    );
    let step = Relay::connected(
        "m".to_string(),
        Json::Null,
        "1".to_string(),
        Err("down".to_string()),
    );
    assert_eq!(step, RelayStep::Done { outcome: Err("down".to_string()) });
}

#[test]
fn replies_to_connect_and_message() {
    assert_eq!(connect_mcp(answered("not json")), Ok("not json".to_string()));
    assert_eq!(message_mcp(answered("[1]")), Ok(Json::Array(vec![Json::from_u64(1)])));
    assert_eq!(
        message_mcp(answered("[1")),
        Err("EOF while parsing a list at line 1 column 2".to_string())
    );
}

#[test]
fn params_are_an_object() {
    assert_eq!(params_object(parsed("{\"a\":1}")), parsed_object("{\"a\":1}"));
    assert_eq!(params_object(Json::Null), JsonObject::new());
    assert_eq!(params_object(Json::string("x")), parsed_object("{\"value\":\"x\"}"));
    assert_eq!(params_object(parsed("[]")), parsed_object("{\"value\":[]}"));
    assert_eq!(params_object(Json::Bool(false)), parsed_object("{\"value\":false}"));
}

#[test]
fn handshake_names_the_bridge() {
    assert_eq!(
        Json::Object(initialize_params("9.9")).into_text(),
        Ok(INITIALIZE.to_string())
    );
}

#[test]
fn responses_carry_one_of_result_and_error() {
    let good = BridgeResponse::from_outcome(7, Ok(Json::Null));
    assert_eq!(
        good,
        BridgeResponse { id: 7, success: true, result: Some(Json::Null), error: None }
    );
    let bad = BridgeResponse::from_outcome(8, Err("x".to_string()));
    assert_eq!(
        bad,
        BridgeResponse { id: 8, success: false, result: None, error: Some("x".to_string()) }
    );
}

#[test]
fn responses_are_lines_of_json() {
    assert_eq!(
        BridgeResponse::success(1, parsed("{\"t\":\"a\\nb\"}")).into_line(),
        Ok("{\"id\":1,\"success\":true,\"result\":{\"t\":\"a\\nb\"}}\n".to_string())
    );
    assert_eq!(
        BridgeResponse::error(2, "no \"luck\"".to_string()).into_line(),
        Ok("{\"id\":2,\"success\":false,\"error\":\"no \\\"luck\\\"\"}\n".to_string())
    );
    let both = BridgeResponse {
        id: 3,
        success: false,
        result: Some(Json::Null),
        error: Some("e".to_string()),
    };
    assert_eq!(
        both.into_json(),
        parsed("{\"id\":3,\"success\":false,\"result\":null,\"error\":\"e\"}")
    );
    assert_eq!(end_line("x".to_string()), "x\n");
}

#[test]
fn blank_lines_are_passed_over() {
    for line in ["", " ", "\t \r", "\u{3000}", "\u{85}\u{a0}\u{1680}\u{2000}\u{200a}\u{2028}\u{205f}"] {
        assert_eq!(
            handle_connection(ConnectionEvent::<String>::Line(line.to_string())),
            ConnectionAction::ReadLine
        );
    }
    for line in ["{}", "  x ", "\u{200b}", "\u{180e}", "\u{feff}", "\u{8}", "\u{1f}"] {
        assert_eq!(
            handle_connection(ConnectionEvent::<String>::Line(line.to_string())),
            ConnectionAction::Parse(line.to_string())
        );
    }
}

#[test]
fn white_space_is_what_unicode_has_as_such() {
    let white = |code: u32| {
        matches!(
            code,
            0x9..=0xd
                | 0x20
                | 0x85
                | 0xa0
                | 0x1680
                | 0x2000..=0x200a
                | 0x2028
                | 0x2029
                | 0x202f
                | 0x205f
                | 0x3000
        )
    };
    for c in (0..=0x10ffff_u32).filter_map(char::from_u32) {
        let action = handle_connection(ConnectionEvent::<String>::Line(c.to_string()));
        assert_eq!(action == ConnectionAction::ReadLine, white(u32::from(c)), "{:?}", c);
    }
}

#[test]
fn malformed_requests_are_passed_over() {
    assert_eq!(
        handle_connection(ConnectionEvent::<String>::Parsed(Err("missing field".to_string()))),
        ConnectionAction::ReadLine
    );
    assert_eq!(
        handle_connection(ConnectionEvent::<String>::Parsed(Ok(request(Json::Null)))),
        ConnectionAction::Carry(request(Json::Null))
    );
}

#[test]
fn answers_are_written_and_the_next_line_is_read() {
    assert_eq!(
        handle_connection(ConnectionEvent::<String>::Answered(BridgeResponse::success(5, Json::Null))),
        ConnectionAction::Write("{\"id\":5,\"success\":true,\"result\":null}\n".to_string())
    );
    assert_eq!(
        handle_connection(ConnectionEvent::<String>::Written(Ok(()))),
        ConnectionAction::ReadLine
    );
}

#[test]
fn connection_ends() {
    assert_eq!(
        handle_connection(ConnectionEvent::<String>::EndOfStream),
        ConnectionAction::Close
    );
    assert_eq!(
        handle_connection(ConnectionEvent::ReadFailed("reset".to_string())),
        ConnectionAction::Fail("reset".to_string())
    );
    assert_eq!(
        handle_connection(ConnectionEvent::Written(Err("broken pipe".to_string()))),
        ConnectionAction::Fail("broken pipe".to_string())
    );
}

#[test]
fn bridge_listens_where_it_was_bound() {
    assert_eq!(listen_address(), BridgeAddress { octets: [127, 0, 0, 1], port: 0 });
    let address = BridgeAddress { octets: [127, 0, 0, 1], port: 4711 };
    let bridge = AcpMcpBridge::start::<String>(Ok(address)).unwrap();
    assert_eq!(bridge.address(), address);
    assert_eq!(AcpMcpBridge::start(Err("in use")), Err("in use"));
}

#[test]
fn accepting_stops_at_the_first_failure() {
    assert_eq!(AcpMcpBridge::accept::<u8, String>(Ok(3)), AcceptAction::Serve(3));
    assert_eq!(
        AcpMcpBridge::accept::<u8, String>(Err("gone".to_string())),
        AcceptAction::Stop("gone".to_string())
    );
}
