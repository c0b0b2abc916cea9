use codex_acp::agent::{
    read_route, route, serve, unknown_write_route, write_route, ClientOp, OpRoute, ServeAction,
    ServeEvent,
};
use codex_acp::launch::{select_mode, Mode};
use codex_acp::rpc_error::RpcError;

fn resolve(id: &String) -> Option<String> {
    id.strip_prefix("codex-").map(|rest| format!("acp-{}", rest))
}

fn is_read_only(id: &String) -> bool {
    id == "acp-locked"
}

fn read(id: &str) -> ClientOp {
    ClientOp::ReadTextFile { session_id: id.to_string() }
}

fn write(id: &str) -> ClientOp {
    ClientOp::WriteTextFile { session_id: id.to_string() }
}

fn forward_as(id: &str) -> OpRoute {
    OpRoute::ForwardAs { session_id: id.to_string() }
}

fn refuse(reason: &str) -> OpRoute {
    OpRoute::Refuse { error: RpcError::invalid_params(reason) }
}

#[test]
fn reads_go_out_under_the_clients_session() {
    assert_eq!(route(read("codex-1"), &resolve, &is_read_only), forward_as("acp-1"));
    assert_eq!(route(read("codex-locked"), &resolve, &is_read_only), forward_as("acp-locked"));
    assert_eq!(
        route(read("1"), &resolve, &is_read_only),
        refuse("unknown session for read_text_file")
    );
}

#[test]
fn writes_are_refused_in_read_only_mode() {
    assert_eq!(route(write("codex-1"), &resolve, &is_read_only), forward_as("acp-1"));
    assert_eq!(
        route(write("codex-locked"), &resolve, &is_read_only),
        refuse("write_text_file is disabled while session mode is read-only")
    );
    assert_eq!(
        route(write("locked"), &resolve, &is_read_only),
        refuse("unknown session for write_text_file")
    );
}

#[test]
fn routes_follow_from_what_is_known_of_the_session() {
    assert_eq!(read_route(Some("s".to_string())), forward_as("s"));
    assert_eq!(read_route(None), refuse("unknown session for read_text_file"));
    assert_eq!(write_route("s".to_string(), false), forward_as("s"));
    assert_eq!(
        write_route("s".to_string(), true),
        refuse("write_text_file is disabled while session mode is read-only")
    );
    assert_eq!(unknown_write_route(), refuse("unknown session for write_text_file"));
}

#[test]
fn other_operations_go_out_as_they_are() {
    for op in [ClientOp::RequestPermission, ClientOp::ConnectMcp, ClientOp::MessageMcp] {
        assert_eq!(route(op, &resolve, &is_read_only), OpRoute::Forward);
    }
    assert_eq!(
        route(ClientOp::MessageMcpNotification, &resolve, &is_read_only),
        OpRoute::Notify
    );
}

type Event = ServeEvent<&'static str, u8, &'static str, char, Result<u8, String>>;
type Action = ServeAction<&'static str, u8, &'static str, char, Result<u8, String>>;

fn served(event: Event) -> Action {
    serve(event, &resolve, &is_read_only)
}

#[test]
fn notifications_are_sent_and_acknowledged() {
    assert_eq!(
        served(Event::Notification { notification: "n", ack: 7 }),
        Action::SendNotification { notification: "n", ack: 7 }
    );
    assert_eq!(served(Event::NotificationSent { ack: 7, delivered: true }), Action::Acknowledge(7));
}

#[test]
fn replies_answer_operations() {
    for reply in [Ok(3), Err("no".to_string())] {
        assert_eq!(
            served(Event::Replied { reply_to: 'h', reply: reply.clone() }),
            Action::Answer { reply_to: 'h', reply }
        );
    }
}

#[test]
fn serving_stops() {
    for event in [
        Event::NotificationsClosed,
        Event::OpsClosed,
        Event::NotificationSent { ack: 1, delivered: false },
    ] {
        assert_eq!(served(event), Action::Stop);
    }
}

#[test]
fn refused_operations_do_not_stop_serving() {
    assert_eq!(
        served(Event::Op { op: write("unknown"), request: "w", reply_to: 'h' }),
        Action::Carry {
            route: refuse("unknown session for write_text_file"),
            request: "w",
            reply_to: 'h',
        }
    );
}

#[test]
fn operations_are_carried_out_by_their_own_request() {
    for (op, route) in [
        (ClientOp::RequestPermission, OpRoute::Forward),
        (read("codex-1"), forward_as("acp-1")),
        (write("codex-1"), forward_as("acp-1")),
        (ClientOp::ConnectMcp, OpRoute::Forward),
        (ClientOp::MessageMcp, OpRoute::Forward),
        (ClientOp::MessageMcpNotification, OpRoute::Notify),
    ] {
        assert_eq!(
            served(Event::Op { op, request: "its own", reply_to: 'h' }),
            Action::Carry { route, request: "its own", reply_to: 'h' }
        );
    }
}

#[test]
fn one_thing_is_served_at_a_time() {
    let mut log = vec![];
    for first in [
        Event::Notification { notification: "a", ack: 1 },
        Event::Op { op: ClientOp::ConnectMcp, request: "connect", reply_to: 'x' },
        Event::Op { op: read("unknown"), request: "read", reply_to: 'y' },
        Event::Notification { notification: "b", ack: 2 },
        Event::Notification { notification: "lost", ack: 3 },
        Event::Notification { notification: "never", ack: 4 },
    ] {
        let mut event = first;
        let going_on = loop {
            match served(event) {
                Action::SendNotification { notification, ack } => {
                    log.push(format!("send {}", notification));
                    event = Event::NotificationSent { ack, delivered: notification != "lost" };
                }
                Action::Acknowledge(ack) => {
                    log.push(format!("ack {}", ack));
                    break true;
                }
                Action::Carry { route: OpRoute::Forward, request, reply_to } => {
                    log.push(format!("ask {}", request));
                    event = Event::Replied { reply_to, reply: Ok(5) };
                }
                Action::Carry { reply_to, .. } => {
                    log.push(format!("refuse {}", reply_to));
                    break true;
                }
                Action::Answer { reply_to, reply } => {
                    log.push(format!("answer {} {:?}", reply_to, reply));
                    break true;
                }
                Action::Stop => break false,
            }
        };
        if !going_on {
            break;
        }
    }
    assert_eq!(
        log,
        [
            "send a",
            "ack 1",
            "ask connect",
            "answer x Ok(5)",
            "refuse y",
            "send b",
            "ack 2",
            "send lost",
        ]
    );
}

#[test]
fn first_argument_selects_the_mode() {
    assert_eq!(select_mode(Some("--acp-fs-mcp".to_string())), Mode::FsMcp);
    assert_eq!(select_mode(Some("--acp-mcp-bridge".to_string())), Mode::McpBridge);
    assert_eq!(select_mode(Some("--acp-mcp-bridge ".to_string())), Mode::Agent);
    assert_eq!(select_mode(Some("".to_string())), Mode::Agent);
    assert_eq!(select_mode(None), Mode::Agent);
}
