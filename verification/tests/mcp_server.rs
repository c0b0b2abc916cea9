use codex_acp::json::{Json, JsonObject};
use codex_acp::mcp_acp_bridge::bridge::BridgeResponse;
use codex_acp::mcp_acp_bridge::mcp_server::{
    bridge_error, call_tool_answer, call_tool_params, list_tools_answer, list_tools_params,
    read_call, read_response, read_tool_list, request_json, AcpMcpProxy, Awaiting, BridgeReply,
    ProxyInfo, RequestIds, ToolList, REPLY_TIMEOUT_SECONDS,
};
use codex_acp::rpc_error::RpcError;

const UNPARSED: &str =
    "tool call forwarded, but the response could not be parsed as a standard MCP result";

fn parsed(text: &str) -> Json {
    Json::parse(text).unwrap()
}

fn text(s: &str) -> Result<String, String> {
    Ok(s.to_string())
}

fn proxy() -> AcpMcpProxy {
    AcpMcpProxy {
        bridge_addr: "127.0.0.1:9".to_string(),
        session_id: "ses".to_string(),
        server_id: "srv".to_string(),
        server_name: "files".to_string(),
    }
}

fn awaiting() -> Awaiting {
    proxy().list_tools(1, None).connected(Ok(())).unwrap().sent(Ok(())).unwrap()
}

#[test]
fn settings_are_taken_over() {
    let made = AcpMcpProxy::from_settings(text("127.0.0.1:9"), text("ses"), text("srv"), text("files"));
    assert_eq!(made, Ok(proxy()));
}

#[test]
fn server_goes_by_its_identifier_without_a_name() {
    let made = AcpMcpProxy::from_settings(text("a"), text("s"), text("srv"), Err("unset".to_string()));
    assert_eq!(made.unwrap().server_name, "srv");
}

#[test]
fn first_missing_setting_is_reported() {
    let missing = |n: u8| -> Result<String, u8> { Err(n) };
    let there = || -> Result<String, u8> { Ok("x".to_string()) };
    assert_eq!(
        AcpMcpProxy::from_settings(missing(1), missing(2), missing(3), missing(4)),
        Err((1, "ACP_MCP_BRIDGE_ADDR environment variable is required".to_string()))
    );
    assert_eq!(
        AcpMcpProxy::from_settings(there(), missing(2), missing(3), missing(4)),
        Err((2, "ACP_MCP_SESSION_ID environment variable is required".to_string()))
    );
    assert_eq!(
        AcpMcpProxy::from_settings(there(), there(), missing(3), there()),
        Err((3, "ACP_MCP_SERVER_ID environment variable is required".to_string()))
    );
}

#[test]
fn info_names_the_server() {
    assert_eq!(
        proxy().get_info("0.4.2"),
        ProxyInfo {
            name: "codex-acp-mcp-bridge:files".to_string(),
            title: Some("Codex ACP MCP Bridge (files)".to_string()),
            version: "0.4.2".to_string(),
            tools: true,
            instructions: None,
        }
    );
}

#[test]
fn request_ids_count_from_one_and_wrap() {
    let mut ids = RequestIds::new();
    assert_eq!((ids.take(), ids.take(), ids.take()), (1, 2, 3));
    let mut last = RequestIds { next: u64::MAX };
    assert_eq!((last.take(), last.take()), (u64::MAX, 0));
}

#[test]
fn tool_list_goes_out_as_one_line() {
    let sending = proxy().list_tools(12, None).connected(Ok(())).unwrap();
    assert_eq!(
        sending.line(),
        "{\"id\":12,\"session_id\":\"ses\",\"server_id\":\"srv\",\"method\":\"tools/list\",\"params\":{}}\n"
    );
}

#[test]
fn tool_list_goes_on_from_the_cursor() {
    let sending = proxy().list_tools(12, Some("c1".to_string())).connected(Ok(())).unwrap();
    assert_eq!(
        sending.line(),
        "{\"id\":12,\"session_id\":\"ses\",\"server_id\":\"srv\",\"method\":\"tools/list\",\
         \"params\":{\"cursor\":\"c1\"}}\n"
    );
    assert_eq!(list_tools_params(None), JsonObject::new());
    assert_eq!(
        Json::Object(list_tools_params(Some("".to_string()))),
        parsed("{\"cursor\":\"\"}")
    );
}

#[test]
fn tool_call_goes_out_as_one_line() {
    let arguments = JsonObject::new().with("path", Json::string("a\nb"));
    let sending = proxy().call_tool(13, "read", Some(arguments)).connected(Ok(())).unwrap();
    assert_eq!(
        sending.line(),
        "{\"id\":13,\"session_id\":\"ses\",\"server_id\":\"srv\",\"method\":\"tools/call\",\
         \"params\":{\"name\":\"read\",\"arguments\":{\"path\":\"a\\nb\"}}}\n"
    );
}

#[test]
fn tool_call_without_arguments_has_none() {
    assert_eq!(
        Json::Object(call_tool_params("ping", None)),
        parsed("{\"name\":\"ping\"}")
    );
    assert_eq!(
        Json::Object(call_tool_params("ping", Some(JsonObject::new()))),
        parsed("{\"name\":\"ping\",\"arguments\":{}}")
    );
    let sending = proxy().call_tool(4, "ping", None).connected(Ok(())).unwrap();
    assert_eq!(
        sending.line(),
        "{\"id\":4,\"session_id\":\"ses\",\"server_id\":\"srv\",\"method\":\"tools/call\",\
         \"params\":{\"name\":\"ping\"}}\n"
    );
}

#[test]
fn request_line_reads_back() {
    let params = || parsed("{\"n\":-9223372036854775808,\"deep\":[[{\"s\":\"a\\nb\"}]]}");
    assert!(params().is_plain(126));
    let given = match params() {
        Json::Object(object) => object,
        other => panic!("{:?}", other),
    };
    let sending = proxy().forward(u64::MAX, "m\"", given).connected(Ok(())).unwrap();
    let text = sending.line().strip_suffix('\n').unwrap();
    assert!(!text.contains('\n'));
    assert_eq!(parsed(text), request_json(u64::MAX, "ses", "srv", "m\"", params()));
}

#[test]
fn request_is_an_object_with_five_members() {
    assert_eq!(
        request_json(1, "s", "v", "m", Json::Bool(true)),
        parsed("{\"id\":1,\"session_id\":\"s\",\"server_id\":\"v\",\"method\":\"m\",\"params\":true}")
    );
}

#[test]
fn failed_connection_is_reported() {
    assert_eq!(
        proxy().list_tools(1, None).connected(Err("refused".to_string())),
        Err("failed to connect to acp mcp bridge: refused".to_string())
    );
}

#[test]
fn failed_sending_is_reported() {
    let sending = proxy().forward(1, "m", JsonObject::new()).connected(Ok(())).unwrap();
    assert_eq!(sending.sent(Err("broken pipe".to_string())), Err("broken pipe".to_string()));
}

#[test]
fn missing_answers_are_reported() {
    assert_eq!(REPLY_TIMEOUT_SECONDS, 30);
    assert_eq!(
        awaiting().received(BridgeReply::TimedOut),
        Err("acp mcp bridge request timed out".to_string())
    );
    assert_eq!(
        awaiting().received(BridgeReply::Closed),
        Err("acp mcp bridge closed connection".to_string())
    );
    assert_eq!(
        awaiting().received(BridgeReply::Failed("reset".to_string())),
        Err("reset".to_string())
    );
    assert_eq!(
        awaiting().received(BridgeReply::Line("{".to_string())),
        Err("EOF while parsing an object at line 1 column 1".to_string())
    );
}

#[test]
fn answers_of_the_bridge_are_understood() {
    let outcomes = || {
        vec![
            Ok(Json::Null),
            Ok(parsed("{\"success\":false,\"error\":\"inner\",\"n\":-12}")),
            Ok(parsed("[1,\"two\\n\",{\"three\":null}]")),
            Ok(parsed("7")),
            Ok(parsed("[18446744073709551615,-9223372036854775808,-1,0]")),
            Err("".to_string()),
            Err("tool \"x\" failed\n".to_string()),
        ]
    };
    for (given, expected) in outcomes().into_iter().zip(outcomes()) {
        let line = BridgeResponse::from_outcome(99, given).into_line().unwrap();
        let line = line.strip_suffix('\n').unwrap().to_string();
        assert_eq!(awaiting().received(BridgeReply::Line(line)), expected);
    }
}

#[test]
fn answers_of_any_shape_are_read() {
    let general = Err("acp mcp bridge error".to_string());
    assert_eq!(read_response(parsed("{\"success\":true}")), Ok(Json::Null));
    assert_eq!(read_response(parsed("{\"success\":true,\"error\":\"e\",\"result\":1}")), Ok(Json::from_u64(1)));
    assert_eq!(read_response(parsed("{\"success\":\"true\",\"result\":1}")), general);
    assert_eq!(read_response(parsed("{\"result\":1,\"error\":\"why\"}")), Err("why".to_string()));
    assert_eq!(
        read_response(parsed("{\"success\":false,\"error\":{\"m\":1}}")),
        Err("acp mcp bridge error".to_string())
    );
    assert_eq!(read_response(parsed("[true]")), Err("acp mcp bridge error".to_string()));
}

#[test]
fn bridge_errors_give_the_reason() {
    let expected = RpcError {
        code: -32603,
        message: "acp mcp bridge request failed".to_string(),
        data: Some(parsed("{\"reason\":\"down\"}")),
    };
    assert_eq!(bridge_error("down".to_string()), expected);
    assert_eq!(list_tools_answer(Err("down".to_string())), Err(bridge_error("down".to_string())));
    assert_eq!(call_tool_answer(Err("down".to_string())), Err(bridge_error("down".to_string())));
}

#[test]
fn tools_are_listed() {
    let list = list_tools_answer(Ok(parsed(
        "{\"tools\":[{\"name\":\"a\",\"inputSchema\":{\"type\":\"object\"}},\
         {\"name\":\"b\",\"description\":\"second\",\"inputSchema\":{}}]}",
    )))
    .unwrap();
    assert_eq!(list.tools.len(), 2);
    assert_eq!(list.tools[0].name, "a");
    assert_eq!(list.tools[1].description.as_deref(), Some("second"));
    assert_eq!((list.next_cursor, list.meta), (None, None));
}

#[test]
fn no_list_is_no_tools() {
    let none = || Ok(ToolList { tools: vec![], next_cursor: None, meta: None });
    assert_eq!(list_tools_answer(Ok(parsed("{}"))), none());
    assert_eq!(list_tools_answer(Ok(Json::Null)), none());
    assert_eq!(read_tool_list(None), none());
}

#[test]
fn malformed_list_is_an_error() {
    let malformed = |reason: &str| RpcError {
        code: -32603,
        message: "malformed tools/list result".to_string(),
        data: Some(Json::Object(JsonObject::new().with("reason", Json::string(reason)))),
    };
    assert_eq!(
        list_tools_answer(Ok(parsed("{\"tools\":null}"))),
        Err(malformed("invalid type: null, expected a sequence"))
    );
    assert_eq!(read_tool_list(Some(Err("x".to_string()))), Err(malformed("x")));
}

#[test]
fn call_results_are_handed_on() {
    let result = call_tool_answer(Ok(parsed(
        "{\"content\":[{\"type\":\"text\",\"text\":\"hi\"}],\"isError\":true}",
    )))
    .unwrap();
    assert_eq!(result.is_error, Some(true));
    assert_eq!(result.content[0].as_text().unwrap().text, "hi");
}

#[test]
fn unreadable_call_result_becomes_a_text() {
    for result in [call_tool_answer(Ok(parsed("[1]"))).unwrap(), read_call(None)] {
        assert_eq!(result.is_error, Some(false));
        assert_eq!(result.content.len(), 1);
        assert_eq!(result.content[0].as_text().unwrap().text, UNPARSED);
        assert_eq!(result.structured_content, None);
        let form = format!(
            "{{\"content\":[{{\"type\":\"text\",\"text\":\"{}\"}}],\"isError\":false}}",
            UNPARSED
        );
        assert_eq!(call_tool_answer(Ok(parsed(&form))), Ok(result));
    }
}
