//! What holds of a client: to whom responses and notifications go, and how long they are waited for.

use crate::batch::{message_from, MessageView};
use crate::error::{data_error, ErrorView as ProtocolErrorView, RpcErrorView};
use crate::frame::{FrameView, Message};
use crate::http::{http_result, http_sent, ErrorView as HttpErrorView};
use crate::json::{json_text, Tree};
use crate::request::{request_tree, RequestView};
use crate::response::{outcome, ResponseView};
use crate::subscription::{subscription_message_of, SubId, SubscriptionMessageView};
use crate::websocket::{
    after_message, after_read, after_run, after_step, client_request, client_result, delivered,
    disconnects, ends_connection, ends_request, fresh, lemma_closed_just_by_an_end, lemma_request_ids_differ,
    new_client, reader_action, received_message, registers, request_id, sends, sent, torn_down, waiting,
    with_request, with_stream, without_request, without_stream, ClientStep, ClientView,
    ConnectionView, DeliveryView, ErrorView, ReaderActionView, ReaderEvent, Wait,
};
use vstd::prelude::*;
use vstd::utf8::valid_utf8;

verus! {

/// Connecting the stream of a subscription leaves all others alone, and the requests; and so does
/// disconnecting it. Nothing is connected once the connection is closed.
pub proof fn lemma_streams_are_independent<S, R>(
    c: ConnectionView<S, R>,
    id: SubId,
    sender: S,
    other: SubId,
)
    ensures
        !c.closed ==> {
            let with = with_stream(c, id, sender);
            let without = without_stream(c, id);
            &&& with.streams.contains_key(id) && with.streams[id] == sender
            &&& !without.streams.contains_key(id)
            &&& other != id ==> {
                &&& with.streams.contains_key(other) == c.streams.contains_key(other)
                &&& without.streams.contains_key(other) == c.streams.contains_key(other)
                &&& c.streams.contains_key(other) ==> with.streams[other] == c.streams[other]
                    && without.streams[other] == c.streams[other]
            }
            &&& with.requests == c.requests && without.requests == c.requests
            &&& !with.closed && !without.closed
        },
        c.closed ==> with_stream(c, id, sender) == c && without_stream(c, id) == c,
{
}

/// Sending a request leaves all others alone, and the subscriptions; and so does ending it. Nothing
/// is sent once the connection is closed.
pub proof fn lemma_requests_are_independent<S, R>(
    c: ConnectionView<S, R>,
    id: u64,
    sender: R,
    other: u64,
)
    ensures
        !c.closed ==> {
            let with = with_request(c, id, sender);
            &&& with.requests.contains_key(id) && with.requests[id] == sender
            &&& other != id ==> {
                &&& with.requests.contains_key(other) == c.requests.contains_key(other)
                &&& c.requests.contains_key(other) ==> with.requests[other] == c.requests[other]
            }
            &&& with.streams == c.streams
            &&& !with.closed
        },
        c.closed ==> with_request(c, id, sender) == c,
        ({
            let without = without_request(c, id);
            &&& !without.requests.contains_key(id)
            &&& other != id ==> {
                &&& without.requests.contains_key(other) == c.requests.contains_key(other)
                &&& c.requests.contains_key(other) ==> without.requests[other] == c.requests[other]
            }
            &&& without.streams == c.streams
            &&& without.closed == c.closed
        }),
{
}

/// A connection begins open and without anybody who waits; torn down, it is closed and has nobody
/// who waits.
pub proof fn lemma_begin_and_end_of_a_connection<S, R>()
    ensures
        fresh::<S, R>() == (ConnectionView::<S, R> {
            streams: Map::empty(),
            requests: Map::empty(),
            closed: false,
        }),
        torn_down::<S, R>() == (ConnectionView::<S, R> {
            streams: Map::empty(),
            requests: Map::empty(),
            closed: true,
        }),
        new_client::<S, R>() == (ClientView::<S, R> { connection: fresh(), next_id: 1 }),
        waiting(fresh::<S, R>()) == Wait::Pending,
        waiting(torn_down::<S, R>()) == Wait::Over,
{
}

/// To whom a message goes. A notification goes to the subscription that it names if that is
/// connected, a response to the request with its ID if that is pending. Anything else goes to
/// nobody.
pub proof fn lemma_to_whom_a_message_goes<S, R>(
    c: ConnectionView<S, R>,
    q: RequestView,
    r: ResponseView,
)
    ensures
        q.id is Some ==> (delivered(c, MessageView::Request(q)) matches Ok(
            DeliveryView::UnexpectedRequest,
        )),
        q.id is None && q.params is None ==> (delivered(c, MessageView::Request(q)) matches Ok(
            DeliveryView::NoParams,
        )),
        q.id is None ==> (q.params matches Some(params) ==> match subscription_message_of(params) {
            Some(m) => if c.streams.contains_key(m.subscription) {
                delivered(c, MessageView::Request(q)) matches Ok(DeliveryView::Notification(x))
                    && x == m
            } else {
                delivered(c, MessageView::Request(q)) matches Ok(DeliveryView::UnknownStream(id))
                    && id == m.subscription
            },
            None => delivered(c, MessageView::Request(q)) matches Err(ErrorView::Json(e)) && e
                == data_error(),
        }),
        forall|id: u64|
            r.id == Tree::Int(id as int) && #[trigger] c.requests.contains_key(id) ==> {
                &&& delivered(c, MessageView::Response(r)) matches Ok(DeliveryView::Response(to, x))
                    && to == c.requests[id] && x == r
                &&& after_message(c, MessageView::Response(r)) == without_request(c, id)
            },
        (forall|id: u64| r.id == Tree::Int(id as int) ==> !#[trigger] c.requests.contains_key(id))
            ==> {
            &&& delivered(c, MessageView::Response(r)) matches Ok(DeliveryView::UnknownRequest(id))
                && id == r.id
            &&& after_message(c, MessageView::Response(r)) == c
        },
        after_message(c, MessageView::Request(q)) == c,
{
    if let Tree::Int(n) = r.id {
        if 0 <= n <= u64::MAX {
            let id = n as u64;
            assert(r.id == Tree::Int(id as int));
            assert(forall|other: u64| r.id == Tree::Int(other as int) ==> other == id);
        }
    }
}

/// What a client reads out of what it receives: what the bytes of text and binary data stand for,
/// of which the latter must be valid UTF-8, and out of the rest nothing.
pub proof fn lemma_what_a_client_reads(s: Seq<char>, d: Seq<u8>)
    ensures
        received_message(FrameView::Ping) is None,
        received_message(FrameView::Pong) is None,
        received_message(FrameView::Close) is None,
        !valid_utf8(d) ==> (received_message(FrameView::Binary(d)) matches Some(
            Err(ErrorView::Utf8),
        )),
        message_from(d) matches Ok(m) ==> (valid_utf8(d) ==> (received_message(
            FrameView::Binary(d),
        ) matches Some(Ok(x)) && x == m)),
        message_from(d) matches Err(e) ==> (valid_utf8(d) ==> (received_message(
            FrameView::Binary(d),
        ) matches Some(Err(ErrorView::JsonRpc(ProtocolErrorView::Json(x)))) && x == e)),
        message_from(vstd::utf8::encode_utf8(s)) matches Ok(m) ==> (received_message(
            FrameView::Text(s),
        ) matches Some(Ok(x)) && x == m),
        message_from(vstd::utf8::encode_utf8(s)) matches Err(e) ==> (received_message(
            FrameView::Text(s),
        ) matches Some(Err(ErrorView::JsonRpc(ProtocolErrorView::Json(x)))) && x == e),
{
}

/// What the reader of a connection changes: a message what it changes by itself, a failure nothing,
/// and the end tears the connection down.
pub proof fn lemma_what_a_reader_changes<S, R>(c: ConnectionView<S, R>, event: ReaderEvent)
    ensures
        event is Failed ==> after_read(c, event) == c,
        event is Ended ==> after_read(c, event) == torn_down::<S, R>(),
        event matches ReaderEvent::Message(message) ==> after_read(c, event) == match received_message(
            message@,
        ) {
            Some(Ok(m)) => after_message(c, m),
            _ => c,
        },
{
}

/// The request that a client sends has the method, the parameters and the ID that it is sent with,
/// and the version of the protocol.
pub proof fn lemma_what_a_client_sends(method: Seq<char>, params: Tree, id: int)
    ensures
        client_request(method, params, id) == (RequestView {
            jsonrpc: "2.0"@,
            method,
            params: Some(params),
            id: Some(Tree::Int(id)),
        }),
{
}

/// What a caller gets: the result where the response has just a result, the error where it has just
/// an error, and where it has both or none, that it is invalid. Where there is no response, that the
/// connection is closed.
pub proof fn lemma_what_a_caller_gets(
    version: Seq<char>,
    id: Tree,
    result: Tree,
    error: RpcErrorView,
    expected: usize,
)
    ensures
        ({
            let with = |result: Option<Tree>, error: Option<RpcErrorView>|
                ResponseView { jsonrpc: version, result, error, id };
            &&& outcome(with(Some(result), None)) == Ok::<Tree, ProtocolErrorView>(result)
            &&& outcome(with(None, Some(error))) == Err::<Tree, ProtocolErrorView>(
                ProtocolErrorView::JsonRpc(error),
            )
            &&& outcome(with(Some(result), Some(error))) == Err::<Tree, ProtocolErrorView>(
                ProtocolErrorView::InvalidResponse,
            )
            &&& outcome(with(None, None)) == Err::<Tree, ProtocolErrorView>(
                ProtocolErrorView::InvalidResponse,
            )
            &&& client_result(Some(with(Some(result), None))) == Ok::<Tree, ErrorView>(result)
            &&& client_result(Some(with(None, Some(error)))) == Err::<Tree, ErrorView>(
                ErrorView::JsonRpc(ProtocolErrorView::JsonRpc(error)),
            )
            &&& client_result(Some(with(None, None))) == Err::<Tree, ErrorView>(
                ErrorView::JsonRpc(ProtocolErrorView::InvalidResponse),
            )
            &&& client_result(Some(with(Some(result), Some(error)))) == Err::<Tree, ErrorView>(
                ErrorView::JsonRpc(ProtocolErrorView::InvalidResponse),
            )
            &&& id == Tree::Int(expected as int) ==> {
                &&& http_result(expected, with(Some(result), None)) == Ok::<Tree, HttpErrorView>(
                    result,
                )
                &&& http_result(expected, with(None, Some(error))) == Err::<Tree, HttpErrorView>(
                    HttpErrorView::JsonRpc(ProtocolErrorView::JsonRpc(error)),
                )
                &&& http_result(expected, with(None, None)) == Err::<Tree, HttpErrorView>(
                    HttpErrorView::JsonRpc(ProtocolErrorView::InvalidResponse),
                )
                &&& http_result(expected, with(Some(result), Some(error))) == Err::<
                    Tree,
                    HttpErrorView,
                >(HttpErrorView::JsonRpc(ProtocolErrorView::InvalidResponse))
            }
            &&& id != Tree::Int(expected as int) ==> http_result(
                expected,
                with(Some(result), None),
            ) == Err::<Tree, HttpErrorView>(HttpErrorView::IdMismatch { expected, got: id })
            &&& id != Tree::Int(expected as int) ==> http_result(
                expected,
                with(None, Some(error)),
            ) == Err::<Tree, HttpErrorView>(HttpErrorView::IdMismatch { expected, got: id })
        }),
        client_result(None) == Err::<Tree, ErrorView>(ErrorView::ConnectionClosed),
{
}

/// Whether a step ends the stream of a subscription, or connects another in its place.
pub open spec fn ends_stream<S, R>(step: ClientStep<S, R>, id: SubId) -> bool {
    ends_connection(step) || match step {
        ClientStep::ConnectStream(other, _) => other == id,
        ClientStep::DisconnectStream(other) => other == id,
        _ => false,
    }
}

/// A subscription gets its items as long as it is connected: from when its stream is connected, and
/// until it is disconnected or the connection ends, a notification for it is handed to it, whatever
/// is done to other subscriptions and to requests meanwhile.
pub proof fn lemma_subscription_gets_its_items<S, R>(
    run: Seq<ClientStep<S, R>>,
    k: int,
    id: SubId,
    sender: S,
    notification: RequestView,
    item: Tree,
)
    requires
        0 <= k < run.len(),
        run[k] == ClientStep::<S, R>::ConnectStream(id, sender),
        forall|j: int| 0 <= j < k ==> !ends_connection(#[trigger] run[j]),
        forall|j: int| k < j < run.len() ==> !ends_stream(#[trigger] run[j], id),
        notification.id is None,
        notification.params matches Some(params) && subscription_message_of(params) == Some(
            SubscriptionMessageView { subscription: id, result: item },
        ),
    ensures
        after_run(run).connection.streams.contains_key(id),
        after_run(run).connection.streams[id] == sender,
        delivered(after_run(run).connection, MessageView::Request(notification)) matches Ok(
            DeliveryView::Notification(m),
        ) && m == (SubscriptionMessageView { subscription: id, result: item }),
{
    lemma_stream_stays_connected(run, k, id, sender);
}

proof fn lemma_stream_stays_connected<S, R>(
    run: Seq<ClientStep<S, R>>,
    k: int,
    id: SubId,
    sender: S,
)
    requires
        0 <= k < run.len(),
        run[k] == ClientStep::<S, R>::ConnectStream(id, sender),
        forall|j: int| 0 <= j < k ==> !ends_connection(#[trigger] run[j]),
        forall|j: int| k < j < run.len() ==> !ends_stream(#[trigger] run[j], id),
    ensures
        after_run(run).connection.streams.contains_key(id),
        after_run(run).connection.streams[id] == sender,
        !after_run(run).connection.closed,
    decreases run.len(),
{
    let before = run.drop_last();
    lemma_closed_just_by_an_end(before);
    lemma_closed_just_by_an_end(run);
    assert forall|j: int| 0 <= j < run.len() implies !ends_connection(#[trigger] run[j]) by {
        if j > k {
            assert(!ends_stream(run[j], id));
        }
    }
    assert forall|j: int| 0 <= j < before.len() implies !ends_connection(#[trigger] before[j]) by {
        assert(before[j] == run[j]);
    }
    let c = after_run(before).connection;
    assert(!c.closed);
    if k < before.len() {
        assert(before[k] == run[k]);
        assert forall|j: int| 0 <= j < k implies !ends_connection(#[trigger] before[j]) by {}
        assert forall|j: int| k < j < before.len() implies !ends_stream(#[trigger] before[j], id) by {
            assert(before[j] == run[j]);
        }
        lemma_stream_stays_connected(before, k, id, sender);
        assert(!ends_stream(run[run.len() - 1], id));
    } else {
        assert(run.last() == run[k]);
    }
}

/// A request gets its response as long as it is pending: from when it is sent, and until it is
/// answered or cancelled or the connection ends, a response with its ID is handed to it, whatever is
/// done to other requests and to subscriptions meanwhile.
pub proof fn lemma_request_gets_its_response<S, R>(
    run: Seq<ClientStep<S, R>>,
    k: int,
    sender: R,
    response: ResponseView,
)
    requires
        0 <= k < run.len(),
        run[k] == ClientStep::<S, R>::SendRequest(sender),
        sends(run) <= u64::MAX + 1,
        forall|j: int| 0 <= j < k ==> !ends_connection(#[trigger] run[j]),
        forall|j: int|
            k < j < run.len() ==> !ends_request(
                after_run(run.take(j)),
                #[trigger] run[j],
                request_id(run, k),
            ),
        response.id == Tree::Int(request_id(run, k) as int),
    ensures
        delivered(after_run(run).connection, MessageView::Response(response)) matches Ok(
            DeliveryView::Response(to, r),
        ) && to == sender && r == response,
{
    lemma_request_stays_pending(run, k, sender);
    lemma_to_whom_a_message_goes(
        after_run(run).connection,
        RequestView { jsonrpc: Seq::empty(), method: Seq::empty(), params: None, id: None },
        response,
    );
}

proof fn lemma_request_stays_pending<S, R>(run: Seq<ClientStep<S, R>>, k: int, sender: R)
    requires
        0 <= k < run.len(),
        run[k] == ClientStep::<S, R>::SendRequest(sender),
        sends(run) <= u64::MAX + 1,
        forall|j: int| 0 <= j < k ==> !ends_connection(#[trigger] run[j]),
        forall|j: int|
            k < j < run.len() ==> !ends_request(
                after_run(run.take(j)),
                #[trigger] run[j],
                request_id(run, k),
            ),
    ensures
        after_run(run).connection.requests.contains_key(request_id(run, k)),
        after_run(run).connection.requests[request_id(run, k)] == sender,
    decreases run.len(),
{
    let before = run.drop_last();
    let id = request_id(run, k);
    let n = before.len() as int;
    lemma_closed_just_by_an_end(before);
    assert forall|j: int| 0 <= j < before.len() implies !ends_connection(#[trigger] before[j]) by {
        assert(before[j] == run[j]);
        if j > k {
            assert(!ends_request(after_run(run.take(j)), run[j], id));
        }
    }
    let c = after_run(before).connection;
    assert(!c.closed);
    assert(before.take(k) =~= run.take(k));
    assert(run.take(n) =~= before);
    if k < n {
        assert(before[k] == run[k]);
        assert(sends(before) <= sends(run));
        assert forall|j: int| k < j < before.len() implies !ends_request(
            after_run(before.take(j)),
            #[trigger] before[j],
            request_id(before, k),
        ) by {
            assert(before[j] == run[j]);
            assert(before.take(j) =~= run.take(j));
        }
        lemma_request_stays_pending(before, k, sender);
        assert(!ends_request(after_run(run.take(n)), run[n], id));
        if run[n] is SendRequest {
            lemma_request_ids_differ(run, k, n);
        }
        if let ClientStep::Read(ReaderEvent::Message(message)) = run[n] {
            if let Some(Ok(MessageView::Response(response))) = received_message(message@) {
                assert(response.id != Tree::Int(id as int));
            }
        }
    } else {
        assert(run.last() == run[k]);
    }
}

/// What each thing does that can be done to a client.
pub proof fn lemma_what_a_step_does<S, R>(
    c: ClientView<S, R>,
    sender: R,
    id: u64,
    event: ReaderEvent,
    stream: SubId,
    items: S,
)
    ensures
        after_step(c, ClientStep::SendRequest(sender)).connection == with_request(
            c.connection,
            c.next_id,
            sender,
        ),
        c.next_id < u64::MAX ==> after_step(c, ClientStep::SendRequest(sender)).next_id == c.next_id
            + 1,
        after_step(c, ClientStep::CancelRequest(id)) == (ClientView {
            connection: without_request(c.connection, id),
            ..c
        }),
        after_step(c, ClientStep::Read(event)) == (ClientView {
            connection: after_read(c.connection, event),
            ..c
        }),
        after_step(c, ClientStep::ConnectStream(stream, items)) == (ClientView {
            connection: with_stream(c.connection, stream, items),
            ..c
        }),
        after_step(c, ClientStep::DisconnectStream(stream)) == (ClientView {
            connection: without_stream(c.connection, stream),
            ..c
        }),
        after_step(c, ClientStep::Teardown) == (ClientView { connection: torn_down(), ..c }),
        after_step(c, ClientStep::Close) == (ClientView { connection: torn_down(), ..c }),
{
}

/// What comes of sending a request: a message with it, under the next ID, unless the connection is
/// closed.
pub proof fn lemma_what_comes_of_sending<S, R>(c: ClientView<S, R>, method: Seq<char>, params: Tree)
    ensures
        c.connection.closed ==> sent(c, method, params) == Err::<(u64, FrameView), ErrorView>(
            ErrorView::ConnectionClosed,
        ),
        !c.connection.closed ==> sent(c, method, params) == Ok::<(u64, FrameView), ErrorView>(
            (
                c.next_id,
                FrameView::Binary(
                    vstd::utf8::encode_utf8(
                        json_text(
                            request_tree(
                                RequestView {
                                    jsonrpc: "2.0"@,
                                    method,
                                    params: Some(params),
                                    id: Some(Tree::Int(c.next_id as int)),
                                },
                            ),
                        ),
                    ),
                ),
            ),
        ),
{
}

/// What the reader of a connection does: it hands on what it reads, logs what it cannot read, goes on
/// after a failure, and stops at the end.
pub proof fn lemma_what_a_reader_does<S, R>(c: ConnectionView<S, R>, message: Message)
    ensures
        reader_action(c, ReaderEvent::Failed) is Continue,
        reader_action(c, ReaderEvent::Ended) is Stop,
        received_message(message@) is None ==> (reader_action(
            c,
            ReaderEvent::Message(message),
        ) matches ReaderActionView::Deliver(DeliveryView::Ignored)),
        received_message(message@) matches Some(Err(e)) ==> reader_action(
            c,
            ReaderEvent::Message(message),
        ) == ReaderActionView::<R>::Log(e),
        received_message(message@) matches Some(Ok(m)) ==> match delivered(c, m) {
            Ok(d) => reader_action(c, ReaderEvent::Message(message)) == ReaderActionView::Deliver(d),
            Err(e) => reader_action(c, ReaderEvent::Message(message)) == ReaderActionView::<R>::Log(
                e,
            ),
        },
{
}

/// The requests of a client over HTTP are numbered: each has the next ID.
pub proof fn lemma_what_is_sent_over_http(next: usize, method: Seq<char>, params: Tree)
    requires
        next < usize::MAX,
    ensures
        http_sent(next, method, params).0 == next,
        http_sent(next, method, params).1 == (RequestView {
            jsonrpc: "2.0"@,
            method,
            params: Some(params),
            id: Some(Tree::Int(next as int)),
        }),
        http_sent(next, method, params).2 == next + 1,
{
}

/// What is registered is there afterwards, and what is disconnected was there before: just on a
/// connection that is not closed.
pub proof fn lemma_what_is_registered<S, R>(
    c: ConnectionView<S, R>,
    id: SubId,
    items: S,
    request: u64,
    sender: R,
)
    requires
        c.closed ==> c.streams == Map::<SubId, S>::empty() && c.requests == Map::<u64, R>::empty(),
    ensures
        registers(c) <==> with_stream(c, id, items).streams.contains_key(id),
        registers(c) <==> with_request(c, request, sender).requests.contains_key(request),
        registers(c) <==> !c.closed,
        disconnects(c, id) <==> c.streams.contains_key(id),
{
}

} // verus!
