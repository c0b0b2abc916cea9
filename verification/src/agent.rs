//! What the agent does while it serves a client.

use vstd::prelude::*;
use crate::json::JsonView;
use crate::rpc_error::{invalid_params_view, RpcError, RpcErrorView};

verus! {

/// An operation that some part of the agent wants of the client.
#[derive(Debug, PartialEq, Eq)]
pub enum ClientOp {
    RequestPermission,
    /// Read a file, on behalf of this session.
    ReadTextFile { session_id: String },
    /// Write a file, on behalf of this session.
    WriteTextFile { session_id: String },
    ConnectMcp,
    MessageMcp,
    /// Pass on an MCP notification, to which there is no reply.
    MessageMcpNotification,
}

/// How an operation is carried out.
#[derive(Debug, PartialEq)]
pub enum OpRoute {
    /// Put the request to the client as it is; the client's reply answers the operation.
    Forward,
    /// Put the request to the client under this session; the client's reply answers the
    /// operation.
    ForwardAs { session_id: String },
    /// Send the notification to the client.
    Notify,
    /// Answer the operation with this error; the client is not asked.
    Refuse { error: RpcError },
}

/// What a route says.
pub enum RouteView {
    Forward,
    ForwardAs { session_id: Seq<char> },
    Notify,
    Refuse { error: RpcErrorView },
}

impl View for OpRoute {
    type V = RouteView;

    open spec fn view(&self) -> RouteView {
        match self {
            OpRoute::Forward => RouteView::Forward,
            OpRoute::ForwardAs { session_id } => RouteView::ForwardAs { session_id: session_id@ },
            OpRoute::Notify => RouteView::Notify,
            OpRoute::Refuse { error } => RouteView::Refuse { error: error@ },
        }
    }
}

/// How a file is read, for the session that the client knows under this identifier.
pub open spec fn read_route_view(resolved: Option<Seq<char>>) -> RouteView {
    match resolved {
        Some(session_id) => RouteView::ForwardAs { session_id },
        None => RouteView::Refuse {
            error: invalid_params_view("unknown session for read_text_file"@),
        },
    }
}

/// How a file is written, for the session that the client knows under this identifier, and
/// that is in read-only mode or not.
pub open spec fn write_route_view(resolved: Option<Seq<char>>, read_only: bool) -> RouteView {
    match resolved {
        Some(session_id) => if read_only {
            RouteView::Refuse {
                error: invalid_params_view(
                    "write_text_file is disabled while session mode is read-only"@,
                ),
            }
        } else {
            RouteView::ForwardAs { session_id }
        },
        None => RouteView::Refuse {
            error: invalid_params_view("unknown session for write_text_file"@),
        },
    }
}

/// How an operation is carried out, when its session is known to the client under this
/// identifier, and is in read-only mode or not.
pub open spec fn route_view(
    op: ClientOp,
    resolved: Option<Seq<char>>,
    read_only: bool,
) -> RouteView {
    match op {
        ClientOp::RequestPermission => RouteView::Forward,
        ClientOp::ReadTextFile { .. } => read_route_view(resolved),
        ClientOp::WriteTextFile { .. } => write_route_view(resolved, read_only),
        ClientOp::ConnectMcp => RouteView::Forward,
        ClientOp::MessageMcp => RouteView::Forward,
        ClientOp::MessageMcpNotification => RouteView::Notify,
    }
}

/// A session's identifier, if there is one.
pub open spec fn session_view(session_id: Option<String>) -> Option<Seq<char>> {
    match session_id {
        Some(id) => Some(id@),
        None => None,
    }
}

/// Whether a route refuses an operation for its parameters, and gives this reason.
pub open spec fn refuses(route: RouteView, reason: Seq<char>) -> bool {
    &&& route matches RouteView::Refuse { error }
    &&& error.code == -32602
    &&& error.message == "Invalid params"@
    &&& error.data == Some(JsonView::Str(reason))
}

/// How a file is read, for the session that the client knows under this identifier.
pub fn read_route(resolved: Option<String>) -> (route: OpRoute)
    ensures
        route@ == read_route_view(session_view(resolved)),
        match resolved {
            Some(id) => route matches OpRoute::ForwardAs { session_id } && session_id@ == id@,
            None => refuses(route@, "unknown session for read_text_file"@),
        },
{
    match resolved {
        Some(session_id) => OpRoute::ForwardAs { session_id },
        None => OpRoute::Refuse {
            error: RpcError::invalid_params("unknown session for read_text_file"),
        },
    }
}

/// How a file is written, for a session that the client knows under this identifier.
pub fn write_route(session_id: String, read_only: bool) -> (route: OpRoute)
    ensures
        route@ == write_route_view(Some(session_id@), read_only),
        if read_only {
            refuses(route@, "write_text_file is disabled while session mode is read-only"@)
        } else {
            route matches OpRoute::ForwardAs { session_id: id } && id@ == session_id@
        },
{
    if read_only {
        OpRoute::Refuse {
            error: RpcError::invalid_params(
                "write_text_file is disabled while session mode is read-only",
            ),
        }
    } else {
        OpRoute::ForwardAs { session_id }
    }
}

/// How a file is written for a session that the client does not know: not at all.
pub fn unknown_write_route() -> (route: OpRoute)
    ensures
        forall|read_only: bool| route@ == #[trigger] write_route_view(None, read_only),
        refuses(route@, "unknown session for write_text_file"@),
{
    OpRoute::Refuse { error: RpcError::invalid_params("unknown session for write_text_file") }
}

/// Whether `route` is how `op` is carried out, when `resolve` tells under which identifier the
/// client knows a session, and `is_read_only` tells its mode.
pub open spec fn is_routed<R, M>(
    op: ClientOp,
    resolve: R,
    is_read_only: M,
    route: RouteView,
) -> bool
    where R: Fn(&String) -> Option<String>, M: Fn(&String) -> bool
{
    match op {
        ClientOp::ReadTextFile { session_id } => exists|resolved: Option<String>|
            #[trigger] call_ensures(resolve, (&session_id,), resolved) && route == route_view(
                op,
                session_view(resolved),
                false,
            ),
        ClientOp::WriteTextFile { session_id } => exists|resolved: Option<String>|
            #[trigger] call_ensures(resolve, (&session_id,), resolved) && match resolved {
                Some(id) => exists|read_only: bool|
                    #[trigger] call_ensures(is_read_only, (&id,), read_only) && route
                        == route_view(op, Some(id@), read_only),
                None => route == route_view(op, None, false),
            },
        _ => route == route_view(op, None, false),
    }
}

/// Finds how an operation is carried out. A file operation goes to the client under the
/// identifier by which the client knows its session, and is refused if there is none; a write
/// is also refused while the session is in read-only mode.
pub fn route<R, M>(op: ClientOp, resolve: &R, is_read_only: &M) -> (route: OpRoute)
    where R: Fn(&String) -> Option<String>, M: Fn(&String) -> bool
    requires
        forall|id: &String| call_requires(*resolve, (id,)),
        forall|id: &String| call_requires(*is_read_only, (id,)),
    ensures
        is_routed(op, *resolve, *is_read_only, route@),
{
    match &op {
        ClientOp::RequestPermission => OpRoute::Forward,
        ClientOp::ReadTextFile { session_id } => read_route(resolve(session_id)),
        ClientOp::WriteTextFile { session_id } => match resolve(session_id) {
            Some(resolved) => {
                let read_only: bool = is_read_only(&resolved);
                write_route(resolved, read_only)
            },
            None => unknown_write_route(),
        },
        ClientOp::ConnectMcp => OpRoute::Forward,
        ClientOp::MessageMcp => OpRoute::Forward,
        ClientOp::MessageMcpNotification => OpRoute::Notify,
    }
}

/// What happened while the agent serves a client: `N` is a notification, `A` is who is told that
/// the notification is out, `Q` is the request of an operation, `H` is who is given the answer to
/// the operation, and `T` is that answer.
#[derive(Debug, PartialEq, Eq)]
pub enum ServeEvent<N, A, Q, H, T> {
    /// There is a notification for the client, and someone waits for it to be out.
    Notification { notification: N, ack: A },
    /// There will be no more notifications.
    NotificationsClosed,
    /// The notification was handed to the connection; `delivered` tells whether it took it.
    NotificationSent { ack: A, delivered: bool },
    /// There is an operation to be carried out, by this request, and someone waits for the
    /// answer.
    Op { op: ClientOp, request: Q, reply_to: H },
    /// There will be no more operations.
    OpsClosed,
    /// This came of the request that was put to the client for an operation.
    Replied { reply_to: H, reply: T },
}

/// What the agent does about it.
#[derive(Debug, PartialEq)]
pub enum ServeAction<N, A, Q, H, T> {
    /// Hand the notification to the connection.
    SendNotification { notification: N, ack: A },
    /// Tell who waits for it that the notification is out, and wait for what comes next, whether
    /// or not there still is someone to tell.
    Acknowledge(A),
    /// Carry out the operation this way, by this request, which is put to the client as it is
    /// but for the session that the route may set. If it is put to the client and there is a
    /// reply to it, wait for the reply, otherwise for what comes next.
    Carry { route: OpRoute, request: Q, reply_to: H },
    /// Answer the operation with the reply, and wait for what comes next.
    Answer { reply_to: H, reply: T },
    /// Serve no more.
    Stop,
}

/// Whether `action` is what the agent does about `event`.
pub open spec fn is_served<N, A, Q, H, T, R, M>(
    event: ServeEvent<N, A, Q, H, T>,
    resolve: R,
    is_read_only: M,
    action: ServeAction<N, A, Q, H, T>,
) -> bool
    where R: Fn(&String) -> Option<String>, M: Fn(&String) -> bool
{
    match event {
        ServeEvent::Notification { notification, ack } => action == (
        ServeAction::<N, A, Q, H, T>::SendNotification { notification, ack }),
        ServeEvent::NotificationsClosed => action is Stop,
        ServeEvent::NotificationSent { ack, delivered } => if delivered {
            action == ServeAction::<N, A, Q, H, T>::Acknowledge(ack)
        } else {
            action is Stop
        },
        ServeEvent::Op { op, request, reply_to } => {
            &&& action matches ServeAction::Carry { route, request: carried, reply_to: waiting }
            &&& carried == request
            &&& waiting == reply_to
            &&& is_routed(op, resolve, is_read_only, route@)
        },
        ServeEvent::OpsClosed => action is Stop,
        ServeEvent::Replied { reply_to, reply } => action == (
        ServeAction::<N, A, Q, H, T>::Answer { reply_to, reply }),
    }
}

/// Serves a client, one event at a time: sends on the notifications and acknowledges each that
/// went out, carries out the operations and answers them, and stops once either source has dried
/// up or a notification could not be sent.
pub fn serve<N, A, Q, H, T, R, M>(
    event: ServeEvent<N, A, Q, H, T>,
    resolve: &R,
    is_read_only: &M,
) -> (action: ServeAction<N, A, Q, H, T>)
    where R: Fn(&String) -> Option<String>, M: Fn(&String) -> bool
    requires
        forall|id: &String| call_requires(*resolve, (id,)),
        forall|id: &String| call_requires(*is_read_only, (id,)),
    ensures
        is_served(event, *resolve, *is_read_only, action),
{
    match event {
        ServeEvent::Notification { notification, ack } => ServeAction::SendNotification {
            notification,
            ack,
        },
        ServeEvent::NotificationsClosed => ServeAction::Stop,
        ServeEvent::NotificationSent { ack, delivered } => if delivered {
            ServeAction::Acknowledge(ack)
        } else {
            ServeAction::Stop
        },
        ServeEvent::Op { op, request, reply_to } => ServeAction::Carry {
            route: route(op, resolve, is_read_only),
            request,
            reply_to,
        },
        ServeEvent::OpsClosed => ServeAction::Stop,
        ServeEvent::Replied { reply_to, reply } => ServeAction::Answer { reply_to, reply },
    }
}

/// Serving the client ends when there will be no more notifications, when there will be no
/// more operations, and when a notification could not be sent, and at no other time; no
/// operation, however it turns out, ends it.
pub proof fn lemma_when_serving_stops<N, A, Q, H, T, R, M>(
    event: ServeEvent<N, A, Q, H, T>,
    resolve: R,
    is_read_only: M,
    action: ServeAction<N, A, Q, H, T>,
)
    where R: Fn(&String) -> Option<String>, M: Fn(&String) -> bool
    requires
        is_served(event, resolve, is_read_only, action),
    ensures
        action is Stop <==> {
            ||| event is NotificationsClosed
            ||| event is OpsClosed
            ||| event matches ServeEvent::NotificationSent { delivered, .. } && !delivered
        },
{
}

/// Whether an event is something new to serve, or the end of it.
pub open spec fn is_new<N, A, Q, H, T>(event: ServeEvent<N, A, Q, H, T>) -> bool {
    event is Notification || event is NotificationsClosed || event is Op || event is OpsClosed
}

/// Whether a request is put to the client for an operation that is carried out this way.
pub open spec fn asks_client(route: OpRoute) -> bool {
    route is Forward || route is ForwardAs
}

/// Whether `event` can come of doing `action`.
pub open spec fn follows<N, A, Q, H, T>(
    action: ServeAction<N, A, Q, H, T>,
    event: ServeEvent<N, A, Q, H, T>,
) -> bool {
    match action {
        ServeAction::SendNotification { ack, .. } => {
            event matches ServeEvent::NotificationSent { ack: sent, .. } && sent == ack
        },
        ServeAction::Acknowledge(_) => is_new(event),
        ServeAction::Carry { route, reply_to, .. } => if asks_client(route) {
            event matches ServeEvent::Replied { reply_to: replied, .. } && replied == reply_to
        } else {
            is_new(event)
        },
        ServeAction::Answer { .. } => is_new(event),
        ServeAction::Stop => false,
    }
}

/// Whether this is what happens while a client is served, from the beginning on: each event with
/// what is done about it.
pub open spec fn is_service<N, A, Q, H, T, R, M>(
    steps: Seq<(ServeEvent<N, A, Q, H, T>, ServeAction<N, A, Q, H, T>)>,
    resolve: R,
    is_read_only: M,
) -> bool
    where R: Fn(&String) -> Option<String>, M: Fn(&String) -> bool
{
    &&& steps.len() > 0 ==> is_new(steps[0].0)
    &&& forall|i: int|
        0 <= i < steps.len() ==> is_served(
            (#[trigger] steps[i]).0,
            resolve,
            is_read_only,
            steps[i].1,
        )
    &&& forall|i: int|
        #![trigger steps[i]]
        0 < i < steps.len() ==> follows(steps[i - 1].1, steps[i].0)
}

/// A notification that is handed to the connection is acknowledged next, to whom it is due, if
/// the connection took it; if not, it is not acknowledged and nothing comes after. There is no
/// other acknowledgement.
pub proof fn lemma_sent_then_acknowledged<N, A, Q, H, T, R, M>(
    steps: Seq<(ServeEvent<N, A, Q, H, T>, ServeAction<N, A, Q, H, T>)>,
    resolve: R,
    is_read_only: M,
    at: int,
)
    where R: Fn(&String) -> Option<String>, M: Fn(&String) -> bool
    requires
        is_service(steps, resolve, is_read_only),
        0 <= at < steps.len(),
    ensures
        steps[at].1 matches ServeAction::SendNotification { notification, ack } ==> {
            &&& steps[at].0 == (ServeEvent::<N, A, Q, H, T>::Notification { notification, ack })
            &&& at + 1 < steps.len() ==> {
                ||| steps[at + 1] == (
                    ServeEvent::<N, A, Q, H, T>::NotificationSent { ack, delivered: true },
                    ServeAction::<N, A, Q, H, T>::Acknowledge(ack),
                )
                ||| steps[at + 1] == (
                    ServeEvent::<N, A, Q, H, T>::NotificationSent { ack, delivered: false },
                    ServeAction::<N, A, Q, H, T>::Stop,
                ) && steps.len() == at + 2
            }
        },
        steps[at].1 matches ServeAction::Acknowledge(ack) ==> {
            &&& at > 0
            &&& steps[at].0 == (ServeEvent::<N, A, Q, H, T>::NotificationSent { ack, delivered: true })
            &&& steps[at - 1].1 matches ServeAction::SendNotification { ack: due, .. }
            &&& due == ack
        },
        steps[at].1 is Stop ==> steps.len() == at + 1,
{
    assert(is_served(steps[at].0, resolve, is_read_only, steps[at].1));
    if at + 1 < steps.len() {
        assert(follows(steps[at].1, steps[at + 1].0));
        assert(is_served(steps[at + 1].0, resolve, is_read_only, steps[at + 1].1));
    }
    if at + 2 < steps.len() {
        assert(follows(steps[at + 1].1, steps[at + 2].0));
    }
    if at > 0 {
        assert(follows(steps[at - 1].1, steps[at].0));
    }
}

/// An operation for which a request is put to the client is answered next, with the client's
/// reply and to whom it is due, and nothing else is taken up before; there is no other such
/// answer.
pub proof fn lemma_one_request_at_a_time<N, A, Q, H, T, R, M>(
    steps: Seq<(ServeEvent<N, A, Q, H, T>, ServeAction<N, A, Q, H, T>)>,
    resolve: R,
    is_read_only: M,
    at: int,
)
    where R: Fn(&String) -> Option<String>, M: Fn(&String) -> bool
    requires
        is_service(steps, resolve, is_read_only),
        0 <= at < steps.len(),
    ensures
        steps[at].1 matches ServeAction::Carry { route, reply_to, .. } ==> asks_client(route)
            ==> at + 1 < steps.len() ==> {
            &&& steps[at + 1].0 matches ServeEvent::Replied { reply_to: replied, reply }
            &&& replied == reply_to
            &&& steps[at + 1].1 == (ServeAction::<N, A, Q, H, T>::Answer { reply_to, reply })
        },
        steps[at].1 matches ServeAction::Answer { reply_to, reply } ==> {
            &&& at > 0
            &&& steps[at].0 == (ServeEvent::<N, A, Q, H, T>::Replied { reply_to, reply })
            &&& steps[at - 1].1 matches ServeAction::Carry { route, reply_to: due, .. }
            &&& asks_client(route)
            &&& due == reply_to
        },
{
    assert(is_served(steps[at].0, resolve, is_read_only, steps[at].1));
    if at + 1 < steps.len() {
        assert(follows(steps[at].1, steps[at + 1].0));
        assert(is_served(steps[at + 1].0, resolve, is_read_only, steps[at + 1].1));
    }
    if at > 0 {
        assert(follows(steps[at - 1].1, steps[at].0));
    }
}

/// Before something new is taken up, all that was taken up before it is done with: each
/// notification is acknowledged, and each operation for which a request was put to the client is
/// answered.
pub proof fn lemma_one_thing_at_a_time<N, A, Q, H, T, R, M>(
    steps: Seq<(ServeEvent<N, A, Q, H, T>, ServeAction<N, A, Q, H, T>)>,
    resolve: R,
    is_read_only: M,
    earlier: int,
    later: int,
)
    where R: Fn(&String) -> Option<String>, M: Fn(&String) -> bool
    requires
        is_service(steps, resolve, is_read_only),
        0 <= earlier < later < steps.len(),
        is_new(steps[later].0),
    ensures
        steps[earlier].0 matches ServeEvent::Notification { ack, .. } ==> {
            &&& earlier + 1 < later
            &&& steps[earlier + 1].1 == ServeAction::<N, A, Q, H, T>::Acknowledge(ack)
        },
        steps[earlier].1 matches ServeAction::Carry { route, reply_to, .. } ==> asks_client(route)
            ==> {
            &&& earlier + 1 < later
            &&& steps[earlier + 1].1 matches ServeAction::Answer { reply_to: answered, .. }
            &&& answered == reply_to
        },
{
    lemma_sent_then_acknowledged(steps, resolve, is_read_only, earlier);
    lemma_one_request_at_a_time(steps, resolve, is_read_only, earlier);
    assert(is_served(steps[earlier].0, resolve, is_read_only, steps[earlier].1));
}

/// All but the last step of serving a client is what happens while it is served, too.
proof fn lemma_service_without_last<N, A, Q, H, T, R, M>(
    steps: Seq<(ServeEvent<N, A, Q, H, T>, ServeAction<N, A, Q, H, T>)>,
    resolve: R,
    is_read_only: M,
)
    where R: Fn(&String) -> Option<String>, M: Fn(&String) -> bool
    requires
        is_service(steps, resolve, is_read_only),
        steps.len() > 0,
    ensures
        is_service(steps.drop_last(), resolve, is_read_only),
{
    let before = steps.drop_last();
    assert forall|i: int| 0 <= i < before.len() implies is_served(
        (#[trigger] before[i]).0,
        resolve,
        is_read_only,
        before[i].1,
    ) by {
        assert(before[i] == steps[i]);
    }
    assert forall|i: int| #![trigger before[i]] 0 < i < before.len() implies follows(
        before[i - 1].1,
        before[i].0,
    ) by {
        assert(before[i] == steps[i]);
    }
}

/// The notifications that there are for the client, in their order, each with whom it is
/// acknowledged to.
pub open spec fn offered<N, A, Q, H, T>(
    steps: Seq<(ServeEvent<N, A, Q, H, T>, ServeAction<N, A, Q, H, T>)>,
) -> Seq<(N, A)>
    decreases steps.len(),
{
    if steps.len() == 0 {
        Seq::empty()
    } else {
        let before = offered(steps.drop_last());
        match steps.last().0 {
            ServeEvent::Notification { notification, ack } => before.push((notification, ack)),
            _ => before,
        }
    }
}

/// The notifications that are handed to the connection, in their order, each with whom it is
/// acknowledged to.
pub open spec fn handed_over<N, A, Q, H, T>(
    steps: Seq<(ServeEvent<N, A, Q, H, T>, ServeAction<N, A, Q, H, T>)>,
) -> Seq<(N, A)>
    decreases steps.len(),
{
    if steps.len() == 0 {
        Seq::empty()
    } else {
        let before = handed_over(steps.drop_last());
        match steps.last().1 {
            ServeAction::SendNotification { notification, ack } => before.push(
                (notification, ack),
            ),
            _ => before,
        }
    }
}

/// To whom notifications are acknowledged, in their order.
pub open spec fn acknowledged<N, A, Q, H, T>(
    steps: Seq<(ServeEvent<N, A, Q, H, T>, ServeAction<N, A, Q, H, T>)>,
) -> Seq<A>
    decreases steps.len(),
{
    if steps.len() == 0 {
        Seq::empty()
    } else {
        let before = acknowledged(steps.drop_last());
        match steps.last().1 {
            ServeAction::Acknowledge(ack) => before.push(ack),
            _ => before,
        }
    }
}

/// The notifications go out unchanged and in the order in which they came. All of them are
/// acknowledged in this order, but for the last if it is just being sent or could not be.
pub proof fn lemma_notifications_go_out_in_order<N, A, Q, H, T, R, M>(
    steps: Seq<(ServeEvent<N, A, Q, H, T>, ServeAction<N, A, Q, H, T>)>,
    resolve: R,
    is_read_only: M,
)
    where R: Fn(&String) -> Option<String>, M: Fn(&String) -> bool
    requires
        is_service(steps, resolve, is_read_only),
    ensures
        handed_over(steps) == offered(steps),
        ({
            let due = if steps.len() > 0 && (steps.last().1 is SendNotification
                || steps.last().0 is NotificationSent && steps.last().1 is Stop) {
                offered(steps).drop_last()
            } else {
                offered(steps)
            };
            acknowledged(steps) == due.map_values(|pair: (N, A)| pair.1)
        }),
    decreases steps.len(),
{
    let ack_of = |pair: (N, A)| pair.1;
    if steps.len() == 0 {
        assert(acknowledged(steps) =~= offered(steps).map_values(ack_of));
    } else {
        let before = steps.drop_last();
        let last = steps.last();
        lemma_service_without_last(steps, resolve, is_read_only);
        lemma_notifications_go_out_in_order(before, resolve, is_read_only);
        assert(last == steps[steps.len() - 1]);
        if before.len() > 0 {
            assert(before.last() == steps[steps.len() - 2]);
            assert(is_served(before.last().0, resolve, is_read_only, before.last().1));
        }
    }
}

/// The operations that there are for the client, in their order: the request of each, and who
/// waits for the answer.
pub open spec fn taken_up<N, A, Q, H, T>(
    steps: Seq<(ServeEvent<N, A, Q, H, T>, ServeAction<N, A, Q, H, T>)>,
) -> Seq<(Q, H)>
    decreases steps.len(),
{
    if steps.len() == 0 {
        Seq::empty()
    } else {
        let before = taken_up(steps.drop_last());
        match steps.last().0 {
            ServeEvent::Op { request, reply_to, .. } => before.push((request, reply_to)),
            _ => before,
        }
    }
}

/// The operations that are carried out, in their order: the request of each, and who waits for
/// the answer.
pub open spec fn carried_out<N, A, Q, H, T>(
    steps: Seq<(ServeEvent<N, A, Q, H, T>, ServeAction<N, A, Q, H, T>)>,
) -> Seq<(Q, H)>
    decreases steps.len(),
{
    if steps.len() == 0 {
        Seq::empty()
    } else {
        let before = carried_out(steps.drop_last());
        match steps.last().1 {
            ServeAction::Carry { request, reply_to, .. } => before.push((request, reply_to)),
            _ => before,
        }
    }
}

/// The operations are carried out in the order in which they came, each by its own request and
/// for who waits for its answer.
pub proof fn lemma_operations_are_carried_out_in_order<N, A, Q, H, T, R, M>(
    steps: Seq<(ServeEvent<N, A, Q, H, T>, ServeAction<N, A, Q, H, T>)>,
    resolve: R,
    is_read_only: M,
)
    where R: Fn(&String) -> Option<String>, M: Fn(&String) -> bool
    requires
        is_service(steps, resolve, is_read_only),
    ensures
        carried_out(steps) == taken_up(steps),
    decreases steps.len(),
{
    if steps.len() > 0 {
        let last = steps[steps.len() - 1];
        assert(is_served(last.0, resolve, is_read_only, last.1));
        lemma_service_without_last(steps, resolve, is_read_only);
        lemma_operations_are_carried_out_in_order(steps.drop_last(), resolve, is_read_only);
    }
}

/// A file is read for a session that the client knows, under the identifier by which it knows the
/// session, and the reading is refused only if there is none.
pub proof fn lemma_reads_follow_the_session<R, M>(
    session_id: String,
    resolve: R,
    is_read_only: M,
    route: RouteView,
)
    where R: Fn(&String) -> Option<String>, M: Fn(&String) -> bool
    requires
        is_routed(ClientOp::ReadTextFile { session_id }, resolve, is_read_only, route),
    ensures
        exists|resolved: Option<String>|
            #[trigger] call_ensures(resolve, (&session_id,), resolved) && match resolved {
                Some(id) => route == (RouteView::ForwardAs { session_id: id@ }),
                None => {
                    &&& route matches RouteView::Refuse { error }
                    &&& error.code == -32602
                    &&& error.message == "Invalid params"@
                    &&& error.data == Some(JsonView::Str("unknown session for read_text_file"@))
                },
            },
{
}

/// For a session that the client is sure to know, and under one identifier, a file is read under
/// this identifier, whatever the mode of the session.
pub proof fn lemma_known_session_can_read<R, M>(
    session_id: String,
    id: String,
    resolve: R,
    is_read_only: M,
    route: RouteView,
)
    where R: Fn(&String) -> Option<String>, M: Fn(&String) -> bool
    requires
        is_routed(ClientOp::ReadTextFile { session_id }, resolve, is_read_only, route),
        forall|resolved: Option<String>| #[trigger]
            call_ensures(resolve, (&session_id,), resolved) ==> resolved == Some(id),
    ensures
        route == (RouteView::ForwardAs { session_id: id@ }),
{
    lemma_reads_follow_the_session(session_id, resolve, is_read_only, route);
}

/// The mode of a session has no bearing on how a file is read for it, nor on any operation that
/// is not on a file.
pub proof fn lemma_mode_matters_to_writes_only<R, M, L>(
    op: ClientOp,
    resolve: R,
    is_read_only: M,
    other: L,
    route: RouteView,
)
    where
        R: Fn(&String) -> Option<String>,
        M: Fn(&String) -> bool,
        L: Fn(&String) -> bool,
    requires
        !(op is WriteTextFile),
    ensures
        is_routed(op, resolve, is_read_only, route) <==> is_routed(op, resolve, other, route),
{
}

/// A file is written for a session that the client knows and that is not in read-only mode, under
/// the identifier by which the client knows the session; it is refused for one of these two
/// reasons only, and the reason is given.
pub proof fn lemma_writes_follow_the_session<R, M>(
    session_id: String,
    resolve: R,
    is_read_only: M,
    route: RouteView,
)
    where R: Fn(&String) -> Option<String>, M: Fn(&String) -> bool
    requires
        is_routed(ClientOp::WriteTextFile { session_id }, resolve, is_read_only, route),
    ensures
        exists|resolved: Option<String>|
            #[trigger] call_ensures(resolve, (&session_id,), resolved) && match resolved {
                Some(id) => exists|read_only: bool|
                    #[trigger] call_ensures(is_read_only, (&id,), read_only) && if read_only {
                        &&& route matches RouteView::Refuse { error }
                        &&& error.code == -32602
                        &&& error.message == "Invalid params"@
                        &&& error.data == Some(
                            JsonView::Str(
                                "write_text_file is disabled while session mode is read-only"@,
                            ),
                        )
                    } else {
                        route == (RouteView::ForwardAs { session_id: id@ })
                    },
                None => {
                    &&& route matches RouteView::Refuse { error }
                    &&& error.code == -32602
                    &&& error.message == "Invalid params"@
                    &&& error.data == Some(JsonView::Str("unknown session for write_text_file"@))
                },
            },
{
}

/// For a session that the client is sure to know, and under one identifier, and that is sure not
/// to be in read-only mode, a file is written under this identifier.
pub proof fn lemma_writable_session_can_write<R, M>(
    session_id: String,
    id: String,
    resolve: R,
    is_read_only: M,
    route: RouteView,
)
    where R: Fn(&String) -> Option<String>, M: Fn(&String) -> bool
    requires
        is_routed(ClientOp::WriteTextFile { session_id }, resolve, is_read_only, route),
        forall|resolved: Option<String>| #[trigger]
            call_ensures(resolve, (&session_id,), resolved) ==> resolved == Some(id),
        forall|read_only: bool| #[trigger]
            call_ensures(is_read_only, (&id,), read_only) ==> !read_only,
    ensures
        route == (RouteView::ForwardAs { session_id: id@ }),
{
    lemma_writes_follow_the_session(session_id, resolve, is_read_only, route);
}

/// An operation that is not on a file goes out as it is, whatever is known of sessions: a
/// notification as a notification, anything else as a request.
pub proof fn lemma_other_operations_go_out<R, M>(
    op: ClientOp,
    resolve: R,
    is_read_only: M,
    route: RouteView,
)
    where R: Fn(&String) -> Option<String>, M: Fn(&String) -> bool
    requires
        is_routed(op, resolve, is_read_only, route),
    ensures
        op is RequestPermission || op is ConnectMcp || op is MessageMcp ==> route is Forward,
        op is MessageMcpNotification ==> route is Notify,
{
}

/// A route says what it holds, and a request is put to the client on those routes that forward
/// one.
pub proof fn lemma_route_says_what_it_holds(route: OpRoute)
    ensures
        match route {
            OpRoute::Forward => route@ is Forward,
            OpRoute::ForwardAs { session_id } => route@ == (RouteView::ForwardAs {
                session_id: session_id@,
            }),
            OpRoute::Notify => route@ is Notify,
            OpRoute::Refuse { error } => route@ == (RouteView::Refuse { error: error@ }),
        },
        asks_client(route) <==> route@ is Forward || route@ is ForwardAs,
{
}

/// Whatever operation there is, it is carried out: by its own request, for who waits for its
/// answer, and the way that is found for it.
pub proof fn lemma_operations_are_carried_out<N, A, Q, H, T, R, M>(
    steps: Seq<(ServeEvent<N, A, Q, H, T>, ServeAction<N, A, Q, H, T>)>,
    resolve: R,
    is_read_only: M,
    at: int,
)
    where R: Fn(&String) -> Option<String>, M: Fn(&String) -> bool
    requires
        is_service(steps, resolve, is_read_only),
        0 <= at < steps.len(),
    ensures
        steps[at].0 matches ServeEvent::Op { op, request, reply_to } ==> {
            &&& steps[at].1 matches ServeAction::Carry { route, request: by, reply_to: whose }
            &&& by == request
            &&& whose == reply_to
            &&& is_routed(op, resolve, is_read_only, route@)
        },
        steps[at].0 is Notification ==> steps[at].1 is SendNotification,
        steps[at].0 matches ServeEvent::Replied { reply_to, reply } ==> {
            &&& steps[at].1 matches ServeAction::Answer { reply_to: whose, reply: given }
            &&& whose == reply_to
            &&& given == reply
        },
{
    assert(is_served(steps[at].0, resolve, is_read_only, steps[at].1));
}

/// A write goes out to the client only after the session was found under the identifier that
/// it goes out under, and was found not to be in read-only mode.
pub proof fn lemma_writes_need_leave<R, M>(
    session_id: String,
    resolve: R,
    is_read_only: M,
    route: RouteView,
)
    where R: Fn(&String) -> Option<String>, M: Fn(&String) -> bool
    requires
        is_routed(ClientOp::WriteTextFile { session_id }, resolve, is_read_only, route),
        !(route is Refuse),
    ensures
        exists|resolved: String|
            {
                &&& route == RouteView::ForwardAs { session_id: resolved@ }
                &&& #[trigger] call_ensures(resolve, (&session_id,), Some(resolved))
                &&& call_ensures(is_read_only, (&resolved,), false)
            },
{
    let found = choose|found: Option<String>|
        #[trigger] call_ensures(resolve, (&session_id,), found) && match found {
            Some(id) => exists|read_only: bool|
                #[trigger] call_ensures(is_read_only, (&id,), read_only) && route
                    == write_route_view(Some(id@), read_only),
            None => route == write_route_view(None, false),
        };
    assert(found is Some);
}

/// The client is asked to write a file only for a session that it knows and that is not in
/// read-only mode, and to read one only for a session that it knows; in both cases under the
/// identifier by which it knows the session.
pub proof fn lemma_file_operations_are_guarded(
    op: ClientOp,
    resolved: Option<Seq<char>>,
    read_only: bool,
)
    requires
        op is ReadTextFile || op is WriteTextFile,
    ensures
        match route_view(op, resolved, read_only) {
            RouteView::ForwardAs { session_id } => {
                &&& resolved == Some(session_id)
                &&& op is WriteTextFile ==> !read_only
            },
            RouteView::Refuse { error } => {
                &&& resolved is None || (op is WriteTextFile && read_only)
                &&& error.code == -32602
            },
            _ => false,
        },
{
}

/// Only a file operation is ever refused, and only a notification goes without a reply.
pub proof fn lemma_other_operations_are_forwarded(
    op: ClientOp,
    resolved: Option<Seq<char>>,
    read_only: bool,
)
    ensures
        route_view(op, resolved, read_only) is Refuse ==> op is ReadTextFile
            || op is WriteTextFile,
        route_view(op, resolved, read_only) is Notify <==> op is MessageMcpNotification,
        route_view(op, resolved, read_only) is Forward <==> op is RequestPermission
            || op is ConnectMcp || op is MessageMcp,
{
}

} // verus!
