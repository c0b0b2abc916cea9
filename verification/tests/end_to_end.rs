use codex_acp::json::{Json, JsonObject};
use codex_acp::mcp_acp_bridge::bridge::{
    handle_connection, handle_request, BridgeRequest, BridgeResponse, CallStep, ClientReply,
    ClientRequest, ConnectionAction, ConnectionEvent,
};
use codex_acp::mcp_acp_bridge::mcp_server::{
    call_tool_answer, AcpMcpProxy, Awaiting, BridgeReply,
};

fn proxy() -> AcpMcpProxy {
    AcpMcpProxy {
        bridge_addr: "127.0.0.1:9".to_string(),
        session_id: "ses".to_string(),
        server_id: "srv".to_string(),
        server_name: "srv".to_string(),
    }
}

fn awaiting() -> Awaiting {
    proxy().list_tools(1, None).connected(Ok(())).unwrap().sent(Ok(())).unwrap()
}

fn text_of(json: Option<Json>) -> String {
    json.unwrap().into_string().unwrap()
}

/// Reads a line as the bridge does.
fn read_request(line: &str) -> Result<BridgeRequest, String> {
    let json = || Json::parse(line);
    let id = match json()?.into_field("id") {
        Some(Json::Number(n)) => n.as_u64().ok_or("no id".to_string())?,
        _ => return Err("no id".to_string()),
    };
    Ok(BridgeRequest {
        id,
        session_id: text_of(json()?.into_field("session_id")),
        server_id: text_of(json()?.into_field("server_id")),
        method: text_of(json()?.into_field("method")),
        params: json()?.into_field("params").unwrap_or(Json::Null),
    })
}

/// Carries out a call against a client that gives these replies, and collects what it is asked.
fn carry(request: BridgeRequest, replies: Vec<ClientReply>) -> (Vec<ClientRequest>, BridgeResponse) {
    let mut asked = vec![];
    let (mut call, first) = handle_request(request, "1.0".to_string());
    asked.push(first);
    for reply in replies {
        match call.step(reply) {
            CallStep::Ask { call: next, request } => {
                call = next;
                asked.push(request);
            }
            CallStep::Respond { response } => return (asked, response),
        }
    }
    panic!("no response after {:?}", asked);
}

fn answered(text: &str) -> ClientReply {
    ClientReply::Answered(text.to_string())
}

#[test]
fn tool_call_goes_to_the_client_and_its_result_comes_back() {
    let arguments = || JsonObject::new().with("path", Json::string("/tmp/\u{e9}\n"));
    let sending = proxy().call_tool(6, "read", Some(arguments())).connected(Ok(())).unwrap();
    let line = sending.line().strip_suffix('\n').unwrap().to_string();
    assert!(!line.contains('\n'));

    let request = match handle_connection(ConnectionEvent::<String>::Line(line)) {
        ConnectionAction::Parse(line) => read_request(&line).unwrap(),
        other => panic!("{:?}", other),
    };
    let (asked, response) = carry(
        request,
        vec![
            answered("c7"),
            answered("{}"),
            answered("{\"content\":[{\"type\":\"text\",\"text\":\"body\"}]}"),
        ],
    );
    assert_eq!(asked.len(), 3);
    assert_eq!(asked[0], ClientRequest::Connect { server_id: "srv".to_string() });
    assert_eq!(
        asked[2],
        ClientRequest::Message {
            connection_id: "c7".to_string(),
            method: "tools/call".to_string(),
            params: JsonObject::new()
                .with("name", Json::string("read"))
                .with("arguments", Json::Object(arguments())),
        }
    );
    assert_eq!(response.id, 6);

    let line = response.into_line().unwrap().strip_suffix('\n').unwrap().to_string();
    let outcome = sending.sent(Ok(())).unwrap().received(BridgeReply::Line(line));
    let result = call_tool_answer(outcome).unwrap();
    assert_eq!(result.content[0].as_text().unwrap().text, "body");
}

#[test]
fn refusal_of_the_client_comes_back() {
    let sending = proxy().list_tools(2, None).connected(Ok(())).unwrap();
    let request = read_request(sending.line()).unwrap();
    let (asked, response) = carry(request, vec![ClientReply::Refused("not yours".to_string())]);
    assert_eq!(asked.len(), 1);
    let line = response.into_line().unwrap().strip_suffix('\n').unwrap().to_string();
    let outcome = sending.sent(Ok(())).unwrap().received(BridgeReply::Line(line));
    assert_eq!(outcome, Err("not yours".to_string()));
}

/// Serves a connection on which these lines come in, and collects the calls that are carried out
/// and the lines that are written.
fn converse(lines: Vec<&str>) -> (Vec<BridgeRequest>, Vec<String>) {
    let mut carried = vec![];
    let mut written = vec![];
    for line in lines {
        let mut action = handle_connection(ConnectionEvent::<String>::Line(line.to_string()));
        loop {
            let event = match action {
                ConnectionAction::ReadLine => break,
                ConnectionAction::Parse(line) => ConnectionEvent::Parsed(read_request(&line)),
                ConnectionAction::Carry(request) => {
                    let replies = vec![answered("c"), answered("null"), answered("true")];
                    let again = BridgeRequest {
                        id: request.id,
                        session_id: request.session_id.clone(),
                        server_id: request.server_id.clone(),
                        method: request.method.clone(),
                        params: Json::Null,
                    };
                    let response = carry(request, replies).1;
                    carried.push(again);
                    ConnectionEvent::Answered(response)
                }
                ConnectionAction::Write(line) => {
                    written.push(line);
                    ConnectionEvent::Written(Ok(()))
                }
                other => panic!("{:?}", other),
            };
            action = handle_connection(event);
        }
    }
    assert_eq!(
        handle_connection(ConnectionEvent::<String>::EndOfStream),
        ConnectionAction::Close
    );
    (carried, written)
}

const FIRST: &str = "{\"id\":1,\"session_id\":\"s\",\"server_id\":\"v\",\"method\":\"a\"}";
const SECOND: &str =
    "{\"id\":2,\"session_id\":\"s\",\"server_id\":\"v\",\"method\":\"b\",\"params\":3}";

#[test]
fn each_request_on_a_connection_gets_one_line() {
    let (_, written) = converse(vec!["", FIRST, "   ", "{not json", SECOND]);
    assert_eq!(
        written,
        vec![
            "{\"id\":1,\"success\":true,\"result\":true}\n".to_string(),
            "{\"id\":2,\"success\":true,\"result\":true}\n".to_string(),
        ]
    );
}

#[test]
fn calls_are_answered_in_order() {
    let (carried, written) = converse(vec![SECOND, "", FIRST, SECOND]);
    let ids: Vec<u64> = carried.iter().map(|request| request.id).collect();
    assert_eq!(ids, vec![2, 1, 2]);
    let answers: Vec<String> = ids
        .into_iter()
        .map(|id| BridgeResponse::success(id, Json::Bool(true)).into_line().unwrap())
        .collect();
    assert_eq!(written, answers);
}

#[test]
fn passed_over_lines_change_nothing() {
    let plain = converse(vec![FIRST, SECOND]);
    assert_eq!(plain.0.len(), 2);
    assert_eq!(converse(vec!["\t", FIRST, "", "[1]", "nonsense", SECOND, " "]), plain);
}

#[test]
fn results_nested_to_126_come_back_and_deeper_ones_do_not() {
    let nested = |depth: usize| format!("{}{}", "[".repeat(depth), "]".repeat(depth));
    let through = |depth: usize| {
        let result = Json::parse(&nested(depth)).unwrap();
        let line = BridgeResponse::success(1, result).into_line().unwrap();
        awaiting().received(BridgeReply::Line(line.strip_suffix('\n').unwrap().to_string()))
    };
    assert_eq!(through(126), Json::parse(&nested(126)));
    assert_eq!(
        through(127),
        Err("recursion limit exceeded at line 1 column 159".to_string())
    );
}
