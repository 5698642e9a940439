//! The state of a client that is connected over websocket.

use crate::batch::{message_from, MessageView, RequestOrResponse};
use crate::error::{
    data_error, error_text, text_view, Error as ProtocolError, ErrorView as ProtocolErrorView,
};
use crate::frame::{framed, payload, FrameView, Message};
use crate::id_map::IdMap;
use crate::json::{readable, reads_as, Json, JsonError, JsonNumber, Tree};
use crate::request::{new_request, request_tree, verdict, Request, RequestView};
use crate::response::{outcome, Response, ResponseView};
use crate::server::{id_after, lemma_id_after, lemma_ids_are_unique, next_id};
use crate::subscription::{
    subscription_message_of, SubId, SubscriptionId, SubscriptionMessage, SubscriptionMessageView,
};
use std::collections::HashMap;
use vstd::prelude::*;
use vstd::utf8::valid_utf8;

verus! {

/// Calls `std::str::from_utf8`, which succeeds just on valid UTF-8, to learn whether it does.
#[verifier::external_body]
fn is_utf8(bytes: &[u8]) -> (r: bool)
    ensures
        r == valid_utf8(bytes@),
{
    std::str::from_utf8(bytes).is_ok()
}

/// Error type returned by websocket client.
#[derive(Debug, PartialEq, Eq)]
pub enum Error {
    /// Binary data that should be text are not valid UTF-8.
    Utf8,
    /// JSON-RPC protocol error
    JsonRpc(ProtocolError),
    /// JSON error
    Json(JsonError),
    /// The websocket connection is closed, either because it was closed explicitly, or because it
    /// died. The client can't be used anymore and has to be re-created.
    ConnectionClosed,
}

/// What an error says.
pub enum ErrorView {
    /// Binary data that should be text are not valid UTF-8.
    Utf8,
    /// JSON-RPC protocol error
    JsonRpc(ProtocolErrorView),
    /// JSON error
    Json(JsonError),
    /// The websocket connection is closed.
    ConnectionClosed,
}

impl View for Error {
    type V = ErrorView;

    open spec fn view(&self) -> ErrorView {
        match *self {
            Error::Utf8 => ErrorView::Utf8,
            Error::JsonRpc(e) => ErrorView::JsonRpc(e@),
            Error::Json(e) => ErrorView::Json(e),
            Error::ConnectionClosed => ErrorView::ConnectionClosed,
        }
    }
}

/// An error in one line. Where reading JSON or UTF-8 failed, the line is that of the reader.
pub open spec fn client_error_text(e: ErrorView) -> Option<Seq<char>> {
    match e {
        ErrorView::JsonRpc(e) => match error_text(e) {
            Some(text) => Some("JSON-RPC protocol error: "@ + text),
            None => None,
        },
        ErrorView::ConnectionClosed => Some("The websocket connection is closed"@),
        ErrorView::Utf8 | ErrorView::Json(_) => None,
    }
}

impl Error {
    /// The error in one line. Where reading JSON or UTF-8 failed, the line is that of the reader, and
    /// there is none here.
    pub fn to_text(&self) -> (r: Option<String>)
        ensures
            text_view(r) == client_error_text(self@),
    {
        match self {
            Error::JsonRpc(e) => match e.to_text() {
                Some(text) => {
                    let mut r = "JSON-RPC protocol error: ".to_owned();
                    r.append(text.as_str());
                    Some(r)
                },
                None => None,
            },
            Error::ConnectionClosed => Some("The websocket connection is closed".to_owned()),
            Error::Utf8 => None,
            Error::Json(_) => None,
        }
    }
}

/// Connection state shared between the client and its reader task: what each subscription's items
/// are handed to, of type `S`, and what each pending request's response is handed to, of type `R`.
pub struct SharedConnectionState<S, R> {
    streams: IdMap<S>,
    requests: HashMap<u64, R>,
    closed: bool,
}

/// What the state of a connection is.
#[verifier::ext_equal]
pub struct ConnectionView<S, R> {
    /// What the items of each subscription are handed to.
    pub streams: Map<SubId, S>,
    /// What the response to each pending request is handed to.
    pub requests: Map<u64, R>,
    /// Whether the connection is closed.
    pub closed: bool,
}

impl<S, R> View for SharedConnectionState<S, R> {
    type V = ConnectionView<S, R>;

    closed spec fn view(&self) -> ConnectionView<S, R> {
        ConnectionView {
            streams: self.streams@,
            requests: self.requests@,
            closed: self.closed,
        }
    }
}

/// A new connection.
pub open spec fn fresh<S, R>() -> ConnectionView<S, R> {
    ConnectionView { streams: Map::empty(), requests: Map::empty(), closed: false }
}

/// A connection that was torn down.
pub open spec fn torn_down<S, R>() -> ConnectionView<S, R> {
    ConnectionView { streams: Map::empty(), requests: Map::empty(), closed: true }
}

/// A connection with one more pending request. Nothing is registered once it is closed.
pub open spec fn with_request<S, R>(c: ConnectionView<S, R>, id: u64, sender: R) -> ConnectionView<
    S,
    R,
> {
    if c.closed {
        c
    } else {
        ConnectionView { requests: c.requests.insert(id, sender), ..c }
    }
}

/// A connection without a pending request.
pub open spec fn without_request<S, R>(c: ConnectionView<S, R>, id: u64) -> ConnectionView<S, R> {
    ConnectionView { requests: c.requests.remove(id), ..c }
}

/// A connection with one more subscription. Nothing is registered once it is closed.
pub open spec fn with_stream<S, R>(c: ConnectionView<S, R>, id: SubId, sender: S) -> ConnectionView<
    S,
    R,
> {
    if c.closed {
        c
    } else {
        ConnectionView { streams: c.streams.insert(id, sender), ..c }
    }
}

/// Whether a request or a subscription is registered: unless the connection is closed.
pub open spec fn registers<S, R>(c: ConnectionView<S, R>) -> bool {
    !c.closed
}

/// Whether there is a stream to be disconnected.
pub open spec fn disconnects<S, R>(c: ConnectionView<S, R>, id: SubId) -> bool {
    !c.closed && c.streams.contains_key(id)
}

/// A connection without a subscription.
pub open spec fn without_stream<S, R>(c: ConnectionView<S, R>, id: SubId) -> ConnectionView<S, R> {
    if c.closed {
        c
    } else {
        ConnectionView { streams: c.streams.remove(id), ..c }
    }
}

/// Whether nobody waits on a connection that is closed.
pub open spec fn nobody_left_waiting<S, R>(c: ConnectionView<S, R>) -> bool {
    c.closed ==> c.streams == Map::<SubId, S>::empty() && c.requests == Map::<u64, R>::empty()
}

/// Nobody is ever left waiting on a closed connection: whatever is done, a connection that is
/// closed has neither pending requests nor subscriptions. And it stays closed.
pub proof fn lemma_nobody_left_waiting<S, R>(
    c: ConnectionView<S, R>,
    request: u64,
    request_sender: R,
    stream: SubId,
    stream_sender: S,
    message: MessageView,
)
    requires
        nobody_left_waiting(c),
    ensures
        nobody_left_waiting(fresh::<S, R>()),
        nobody_left_waiting(torn_down::<S, R>()),
        nobody_left_waiting(with_request(c, request, request_sender)),
        nobody_left_waiting(without_request(c, request)),
        nobody_left_waiting(with_stream(c, stream, stream_sender)),
        nobody_left_waiting(without_stream(c, stream)),
        nobody_left_waiting(after_message(c, message)),
        torn_down::<S, R>().closed,
        c.closed ==> {
            &&& with_request(c, request, request_sender) == c
            &&& without_request(c, request) == c
            &&& with_stream(c, stream, stream_sender) == c
            &&& without_stream(c, stream) == c
            &&& after_message(c, message) == c
        },
{
    if c.closed {
        assert(without_request(c, request) =~= c);
        assert(after_message(c, message) =~= c);
    }
}

/// What a message is handed to.
#[derive(Debug, PartialEq, Eq)]
pub enum Delivery<R> {
    /// Nothing: it is handled by the transport.
    Ignored,
    /// Nothing: it is a request, which is not a notification.
    UnexpectedRequest,
    /// Nothing: it is a notification without parameters.
    NoParams,
    /// Nothing: the subscription is not known.
    UnknownStream(SubscriptionId),
    /// Nothing: the request is not known.
    UnknownRequest(Json),
    /// The item goes to the subscription, which is known.
    Notification(SubscriptionMessage<Json>),
    /// The response goes to the request, which is pending no more.
    Response(R, Response),
}

/// What a message is handed to.
pub enum DeliveryView<R> {
    /// Nothing: it is handled by the transport.
    Ignored,
    /// Nothing: it is a request, which is not a notification.
    UnexpectedRequest,
    /// Nothing: it is a notification without parameters.
    NoParams,
    /// Nothing: the subscription is not known.
    UnknownStream(SubId),
    /// Nothing: the request is not known.
    UnknownRequest(Tree),
    /// The item goes to the subscription.
    Notification(SubscriptionMessageView),
    /// The response goes to the request.
    Response(R, ResponseView),
}

impl<R> View for Delivery<R> {
    type V = DeliveryView<R>;

    open spec fn view(&self) -> DeliveryView<R> {
        match *self {
            Delivery::Ignored => DeliveryView::Ignored,
            Delivery::UnexpectedRequest => DeliveryView::UnexpectedRequest,
            Delivery::NoParams => DeliveryView::NoParams,
            Delivery::UnknownStream(id) => DeliveryView::UnknownStream(id@),
            Delivery::UnknownRequest(id) => DeliveryView::UnknownRequest(id@),
            Delivery::Notification(m) => DeliveryView::Notification(m@),
            Delivery::Response(r, x) => DeliveryView::Response(r, x@),
        }
    }
}

/// The pending request that a response with this ID belongs to, if there is one.
pub open spec fn pending_request<S, R>(c: ConnectionView<S, R>, id: Tree) -> Option<u64> {
    match id {
        Tree::Int(n) => if 0 <= n <= u64::MAX && c.requests.contains_key(n as u64) {
            Some(n as u64)
        } else {
            None
        },
        _ => None,
    }
}

/// What a request or response is handed to. A notification goes to its subscription, a response to
/// its request.
pub open spec fn delivered<S, R>(c: ConnectionView<S, R>, message: MessageView) -> Result<
    DeliveryView<R>,
    ErrorView,
> {
    match message {
        MessageView::Request(request) => match (request.id, request.params) {
            (Some(_), _) => Ok(DeliveryView::UnexpectedRequest),
            (None, None) => Ok(DeliveryView::NoParams),
            (None, Some(params)) => match subscription_message_of(params) {
                Some(m) => if c.streams.contains_key(m.subscription) {
                    Ok(DeliveryView::Notification(m))
                } else {
                    Ok(DeliveryView::UnknownStream(m.subscription))
                },
                None => Err(ErrorView::Json(data_error())),
            },
        },
        MessageView::Response(response) => match pending_request(c, response.id) {
            Some(id) => Ok(DeliveryView::Response(c.requests[id], response)),
            None => Ok(DeliveryView::UnknownRequest(response.id)),
        },
    }
}

/// The state of a connection after a request or response: a request that is answered is pending no
/// more.
pub open spec fn after_message<S, R>(
    c: ConnectionView<S, R>,
    message: MessageView,
) -> ConnectionView<S, R> {
    match message {
        MessageView::Request(_) => c,
        MessageView::Response(response) => match pending_request(c, response.id) {
            Some(id) => without_request(c, id),
            None => c,
        },
    }
}

/// A response is handed to its request once: the same response again is not known any more. And
/// no other request notices.
pub proof fn lemma_response_is_delivered_once<S, R>(
    c: ConnectionView<S, R>,
    id: u64,
    response: ResponseView,
    other: u64,
)
    requires
        c.requests.contains_key(id),
        response.id == Tree::Int(id as int),
        other != id,
    ensures
        delivered(c, MessageView::Response(response)) == Ok::<
            DeliveryView<R>,
            ErrorView,
        >(DeliveryView::Response(c.requests[id], response)),
        delivered(
            after_message(c, MessageView::Response(response)),
            MessageView::Response(response),
        ) == Ok::<DeliveryView<R>, ErrorView>(DeliveryView::UnknownRequest(response.id)),
        after_message(c, MessageView::Response(response)).requests.contains_key(other)
            == c.requests.contains_key(other),
        after_message(c, MessageView::Response(response)).streams == c.streams,
{
}

/// What the client reads out of a websocket message.
pub open spec fn received_message(m: FrameView) -> Option<Result<MessageView, ErrorView>> {
    match m {
        FrameView::Text(_) => Some(
            match message_from(payload(m)) {
                Ok(x) => Ok(x),
                Err(e) => Err(ErrorView::JsonRpc(ProtocolErrorView::Json(e))),
            },
        ),
        FrameView::Binary(data) => Some(
            if !valid_utf8(data) {
                Err(ErrorView::Utf8)
            } else {
                match message_from(payload(m)) {
                    Ok(x) => Ok(x),
                    Err(e) => Err(ErrorView::JsonRpc(ProtocolErrorView::Json(e))),
                }
            },
        ),
        _ => None,
    }
}

impl<S, R> SharedConnectionState<S, R> {
    /// The state of a new connection.
    pub fn new() -> (r: Self)
        ensures
            r@ == fresh::<S, R>(),
    {
        broadcast use vstd::std_specs::hash::group_hash_axioms;

        let r = SharedConnectionState {
            streams: IdMap::new(),
            requests: HashMap::new(),
            closed: false,
        };
        assert(r@.requests =~= Map::<u64, R>::empty());
        r
    }

    /// Whether the connection is closed.
    pub fn is_closed(&self) -> (r: bool)
        ensures
            r == self@.closed,
    {
        self.closed
    }

    /// Marks the connection as closed and drops every subscription and request sender. This ends
    /// all subscription streams and makes all pending requests resolve with
    /// [`Error::ConnectionClosed`]. Running this more than once is harmless.
    pub fn teardown(&mut self)
        ensures
            final(self)@ == torn_down::<S, R>(),
    {
        broadcast use vstd::std_specs::hash::group_hash_axioms;

        self.closed = true;
        self.requests = HashMap::new();
        self.streams.clear();
        assert(self@.requests =~= Map::<u64, R>::empty());
    }

    /// Registers a pending request.
    pub fn register_request(&mut self, id: u64, sender: R) -> (r: Result<(), Error>)
        ensures
            final(self)@ == with_request(old(self)@, id, sender),
            if old(self)@.closed {
                r matches Err(e) && e@ == ErrorView::ConnectionClosed
            } else {
                r is Ok
            },
            r is Ok <==> registers(old(self)@),
    {
        broadcast use vstd::std_specs::hash::group_hash_axioms;

        if self.closed {
            return Err(Error::ConnectionClosed);
        }
        self.requests.insert(id, sender);
        Ok(())
    }

    /// Unregisters a pending request. Once the response arrived, this does nothing.
    pub fn unregister_request(&mut self, id: u64)
        ensures
            final(self)@ == without_request(old(self)@, id),
    {
        broadcast use vstd::std_specs::hash::group_hash_axioms;

        self.requests.remove(&id);
    }

    /// Registers a subscription. Returns whether that was done: it is not, once the connection is
    /// closed.
    pub fn register_stream(&mut self, id: SubscriptionId, sender: S) -> (r: bool)
        ensures
            final(self)@ == with_stream(old(self)@, id@, sender),
            r == !old(self)@.closed,
            r == registers(old(self)@),
    {
        if self.closed {
            return false;
        }
        self.streams.insert(id, sender);
        true
    }

    /// Drops the sender of a subscription, which ends its stream. Returns whether there was one.
    pub fn disconnect_stream(&mut self, id: &SubscriptionId) -> (r: bool)
        ensures
            final(self)@ == without_stream(old(self)@, id@),
            r == (!old(self)@.closed && old(self)@.streams.contains_key(id@)),
            r == disconnects(old(self)@, id@),
    {
        if self.closed {
            // The connection is gone, so all streams ended already.
            return false;
        }
        self.streams.remove(id).is_some()
    }

    /// What the items of a subscription are handed to, if it is known.
    pub fn stream(&self, id: &SubscriptionId) -> (r: Option<&S>)
        ensures
            match r {
                Some(s) => self@.streams.contains_key(id@) && self@.streams[id@] == *s,
                None => !self@.streams.contains_key(id@),
            },
    {
        self.streams.get(id)
    }

    /// Decides what a request or response is handed to.
    pub fn handle_message(&mut self, message: RequestOrResponse) -> (r: Result<
        Delivery<R>,
        Error,
    >)
        ensures
            match delivered(old(self)@, message@) {
                Ok(d) => r matches Ok(x) && x@ == d,
                Err(e) => r matches Err(x) && x@ == e,
            },
            final(self)@ == after_message(old(self)@, message@),
    {
        broadcast use vstd::std_specs::hash::group_hash_axioms;

        match message {
            RequestOrResponse::Request(request) => {
                if request.id.is_some() {
                    return Ok(Delivery::UnexpectedRequest);
                }
                let params = match request.params {
                    Some(params) => params,
                    None => return Ok(Delivery::NoParams),
                };
                let message = match SubscriptionMessage::from_value(&params) {
                    Ok(message) => message,
                    Err(_) => return Err(Error::Json(JsonError::data())),
                };
                if self.streams.get(&message.subscription).is_some() {
                    Ok(Delivery::Notification(message))
                } else {
                    Ok(Delivery::UnknownStream(message.subscription))
                }
            },
            RequestOrResponse::Response(response) => {
                let sender = match response.id.as_u64() {
                    Some(id) => self.requests.remove(&id),
                    None => None,
                };
                match sender {
                    Some(sender) => Ok(Delivery::Response(sender, response)),
                    None => {
                        assert(self@ =~= old(self)@);
                        Ok(Delivery::UnknownRequest(response.id))
                    },
                }
            },
        }
    }

    /// Decides what a websocket message is handed to.
    pub fn handle_websocket_message(&mut self, message: &Message) -> (r: Result<Delivery<R>, Error>)
        ensures
            match received_message(message@) {
                Some(Ok(m)) => match delivered(old(self)@, m) {
                    Ok(d) => r matches Ok(x) && x@ == d,
                    Err(e) => r matches Err(x) && x@ == e,
                },
                Some(Err(e)) => r matches Err(x) && x@ == e,
                None => r matches Ok(Delivery::Ignored),
            },
            final(self)@ == match received_message(message@) {
                Some(Ok(m)) => after_message(old(self)@, m),
                _ => old(self)@,
            },
    {
        // Pings are answered by the transport, and a close frame ends the stream on its own.
        let data = match message {
            Message::Text(_) => message.as_bytes(),
            Message::Binary(_) => {
                let data = message.as_bytes();
                if !is_utf8(data) {
                    return Err(Error::Utf8);
                }
                data
            },
            _ => return Ok(Delivery::Ignored),
        };
        let message = match RequestOrResponse::from_slice(data) {
            Ok(message) => message,
            Err(e) => return Err(Error::JsonRpc(e)),
        };
        self.handle_message(message)
    }
}

/// A websocket JSON-RPC client.
pub struct WebsocketClient<S, R> {
    shared: SharedConnectionState<S, R>,
    next_id: u64,
}

/// What the state of a client is.
#[verifier::ext_equal]
pub struct ClientView<S, R> {
    /// The connection.
    pub connection: ConnectionView<S, R>,
    /// The ID that the next request gets.
    pub next_id: u64,
}

impl<S, R> View for WebsocketClient<S, R> {
    type V = ClientView<S, R>;

    closed spec fn view(&self) -> ClientView<S, R> {
        ClientView { connection: self.shared@, next_id: self.next_id }
    }
}

/// What the reader of a connection meets.
pub enum ReaderEvent {
    /// A message.
    Message(Message),
    /// A message could not be read.
    Failed,
    /// The connection ended.
    Ended,
}

/// What the reader of a connection does.
#[derive(Debug, PartialEq, Eq)]
pub enum ReaderAction<R> {
    /// It hands a message on, and goes on.
    Deliver(Delivery<R>),
    /// It logs an error, and goes on.
    Log(Error),
    /// It goes on.
    Continue,
    /// It stops.
    Stop,
}

/// What the reader of a connection does.
pub enum ReaderActionView<R> {
    /// It hands a message on, and goes on.
    Deliver(DeliveryView<R>),
    /// It logs an error, and goes on.
    Log(ErrorView),
    /// It goes on.
    Continue,
    /// It stops.
    Stop,
}

impl<R> View for ReaderAction<R> {
    type V = ReaderActionView<R>;

    open spec fn view(&self) -> ReaderActionView<R> {
        match *self {
            ReaderAction::Deliver(d) => ReaderActionView::Deliver(d@),
            ReaderAction::Log(e) => ReaderActionView::Log(e@),
            ReaderAction::Continue => ReaderActionView::Continue,
            ReaderAction::Stop => ReaderActionView::Stop,
        }
    }
}

/// What the reader of a connection does on what it meets.
pub open spec fn reader_action<S, R>(
    c: ConnectionView<S, R>,
    event: ReaderEvent,
) -> ReaderActionView<R> {
    match event {
        ReaderEvent::Message(message) => match received_message(message@) {
            Some(Ok(m)) => match delivered(c, m) {
                Ok(d) => ReaderActionView::Deliver(d),
                Err(e) => ReaderActionView::Log(e),
            },
            Some(Err(e)) => ReaderActionView::Log(e),
            None => ReaderActionView::Deliver(DeliveryView::Ignored),
        },
        ReaderEvent::Failed => ReaderActionView::Continue,
        ReaderEvent::Ended => ReaderActionView::Stop,
    }
}

/// The state of a connection after its reader met something: a message may answer a request, and
/// the end of the connection tears it down.
pub open spec fn after_read<S, R>(c: ConnectionView<S, R>, event: ReaderEvent) -> ConnectionView<
    S,
    R,
> {
    match event {
        ReaderEvent::Message(message) => match received_message(message@) {
            Some(Ok(m)) => after_message(c, m),
            _ => c,
        },
        ReaderEvent::Failed => c,
        ReaderEvent::Ended => torn_down(),
    }
}

/// Whether one who waits for a connection to be closed has to wait on.
#[derive(Clone, Copy, Debug, PartialEq, Eq)]
pub enum Wait {
    /// The wait is over.
    Over,
    /// The wait goes on.
    Pending,
}

/// Whether one who waits for a connection to be closed has to wait on: until it is closed.
pub open spec fn waiting<S, R>(c: ConnectionView<S, R>) -> Wait {
    if c.closed {
        Wait::Over
    } else {
        Wait::Pending
    }
}

/// The request that a client sends.
pub open spec fn client_request(method: Seq<char>, params: Tree, id: int) -> RequestView {
    new_request(method, Some(params), Some(Tree::Int(id)))
}

/// What comes of sending a request: its ID and the message to be sent, unless the connection is
/// closed.
pub open spec fn sent<S, R>(c: ClientView<S, R>, method: Seq<char>, params: Tree) -> Result<
    (u64, FrameView),
    ErrorView,
> {
    if c.connection.closed {
        Err(ErrorView::ConnectionClosed)
    } else {
        Ok(
            (
                c.next_id,
                framed(request_tree(client_request(method, params, c.next_id as int)), false),
            ),
        )
    }
}

/// The requests of a client are correct, by the rules that a server verifies them with.
pub proof fn lemma_client_requests_are_correct(method: Seq<char>, params: Tree, id: int)
    ensures
        verdict(client_request(method, params, id)) is Ok,
{
}

/// A client of a connection that was just opened.
pub open spec fn new_client<S, R>() -> ClientView<S, R> {
    ClientView { connection: fresh(), next_id: 1 }
}

/// What a client hands to its caller for a response, if there was one.
pub open spec fn client_result(response: Option<ResponseView>) -> Result<Tree, ErrorView> {
    match response {
        Some(response) => match outcome(response) {
            Ok(t) => Ok(t),
            Err(e) => Err(ErrorView::JsonRpc(e)),
        },
        None => Err(ErrorView::ConnectionClosed),
    }
}

/// What an optional response says.
pub open spec fn optional_response(r: Option<Response>) -> Option<ResponseView> {
    match r {
        Some(r) => Some(r@),
        None => None,
    }
}

impl<S, R> WebsocketClient<S, R> {
    /// Creates a new JSON-RPC websocket client, for a connection that was just opened.
    pub fn new() -> (r: Self)
        ensures
            r@ == new_client::<S, R>(),
    {
        WebsocketClient { shared: SharedConnectionState::new(), next_id: 1 }
    }

    /// Returns whether the connection is closed, i.e. whether it either died or was closed with
    /// [`WebsocketClient::close`]. A closed client can't be used anymore and has to be re-created.
    pub fn is_closed(&self) -> (r: bool)
        ensures
            r == self@.connection.closed,
    {
        self.shared.is_closed()
    }

    /// Returns whether a wait for the connection to be closed is over: as soon as it either dies or
    /// is closed with [`WebsocketClient::close`], and immediately if it is closed already. One who
    /// waits asks again whenever something was done to the client.
    ///
    /// This allows detecting a dead connection without waiting for a request or a subscription to
    /// fail.
    pub fn closed(&self) -> (r: Wait)
        ensures
            r == waiting(self@.connection),
    {
        if self.shared.is_closed() {
            Wait::Over
        } else {
            Wait::Pending
        }
    }

    /// The state of the connection.
    pub fn shared(&self) -> (r: &SharedConnectionState<S, R>)
        ensures
            r@ == self@.connection,
    {
        &self.shared
    }

    /// Begins to send a request: registers it, and returns its ID and the message to be sent.
    ///
    /// The request is registered *before* it is sent: the response can arrive as soon as the send
    /// completes, and a response that can't be matched to a pending request is discarded.
    pub fn send_request(&mut self, method: &str, params: Json, sender: R) -> (r: Result<
        (u64, Message),
        Error,
    >)
        ensures
            final(self)@.next_id == next_id(old(self)@.next_id),
            final(self)@.connection == with_request(
                old(self)@.connection,
                old(self)@.next_id,
                sender,
            ),
            if old(self)@.connection.closed {
                r matches Err(e) && e@ == ErrorView::ConnectionClosed
            } else {
                &&& r matches Ok((id, m)) && id == old(self)@.next_id && m@ == framed(
                    request_tree(client_request(method@, params@, id as int)),
                    false,
                )
                &&& r matches Ok((id, m)) && (readable(
                    request_tree(client_request(method@, params@, id as int)),
                    127,
                ) ==> reads_as(
                    payload(m@),
                    request_tree(client_request(method@, params@, id as int)),
                ))
            },
            match sent(old(self)@, method@, params@) {
                Ok((id, m)) => r matches Ok((x, y)) && x == id && y@ == m,
                Err(e) => r matches Err(x) && x@ == e,
            },
            final(self)@ == after_step(old(self)@, ClientStep::SendRequest(sender)),
    {
        let request_id: u64 = self.next_id;
        self.next_id = request_id.wrapping_add(1);
        let request = Request::new(
            method.to_owned(),
            Some(params),
            Some(Json::Number(JsonNumber::PosInt(request_id))),
        );
        let value = match request.to_value() {
            Ok(value) => value,
            Err(e) => return Err(Error::JsonRpc(e)),
        };
        let message = Message::frame(&value, false);
        match self.shared.register_request(request_id, sender) {
            Ok(_) => Ok((request_id, message)),
            Err(e) => Err(e),
        }
    }

    /// Ends a request that was cancelled before its response arrived.
    pub fn cancel_request(&mut self, id: u64)
        ensures
            final(self)@ == (ClientView {
                connection: without_request(old(self)@.connection, id),
                ..old(self)@
            }),
            final(self)@ == after_step(old(self)@, ClientStep::CancelRequest(id)),
    {
        self.shared.unregister_request(id);
    }

    /// What is handed to the caller for the response to a request. There is none, if the
    /// connection was torn down before.
    pub fn finish_request(response: Option<Response>) -> (r: Result<Json, Error>)
        ensures
            match client_result(optional_response(response)) {
                Ok(t) => r matches Ok(v) && v@ == t,
                Err(e) => r matches Err(x) && x@ == e,
            },
    {
        match response {
            Some(response) => match response.into_result() {
                Ok(v) => Ok(v),
                Err(e) => Err(Error::JsonRpc(e)),
            },
            None => Err(Error::ConnectionClosed),
        }
    }

    /// Decides what a websocket message is handed to.
    pub fn handle_websocket_message(&mut self, message: &Message) -> (r: Result<Delivery<R>, Error>)
        ensures
            match received_message(message@) {
                Some(Ok(m)) => match delivered(old(self)@.connection, m) {
                    Ok(d) => r matches Ok(x) && x@ == d,
                    Err(e) => r matches Err(x) && x@ == e,
                },
                Some(Err(e)) => r matches Err(x) && x@ == e,
                None => r matches Ok(Delivery::Ignored),
            },
            final(self)@.connection == match received_message(message@) {
                Some(Ok(m)) => after_message(old(self)@.connection, m),
                _ => old(self)@.connection,
            },
            final(self)@.next_id == old(self)@.next_id,
    {
        self.shared.handle_websocket_message(message)
    }

    /// Handles what the reader of the connection meets: a message, a failure to read one, or the end
    /// of the connection, which is propagated to everyone waiting on it, instead of leaving them
    /// pending forever.
    pub fn read(&mut self, event: ReaderEvent) -> (r: ReaderAction<R>)
        ensures
            match event {
                ReaderEvent::Message(message) => match received_message(message@) {
                    Some(Ok(m)) => match delivered(old(self)@.connection, m) {
                        Ok(d) => r matches ReaderAction::Deliver(x) && x@ == d,
                        Err(e) => r matches ReaderAction::Log(x) && x@ == e,
                    },
                    Some(Err(e)) => r matches ReaderAction::Log(x) && x@ == e,
                    None => r matches ReaderAction::Deliver(Delivery::Ignored),
                },
                ReaderEvent::Failed => r is Continue,
                ReaderEvent::Ended => r is Stop,
            },
            final(self)@ == (ClientView {
                connection: after_read(old(self)@.connection, event),
                ..old(self)@
            }),
            r@ == reader_action(old(self)@.connection, event),
            final(self)@ == after_step(old(self)@, ClientStep::Read(event)),
    {
        match event {
            ReaderEvent::Message(message) => match self.handle_websocket_message(&message) {
                Ok(d) => ReaderAction::Deliver(d),
                Err(e) => ReaderAction::Log(e),
            },
            ReaderEvent::Failed => ReaderAction::Continue,
            ReaderEvent::Ended => {
                self.teardown();
                ReaderAction::Stop
            },
        }
    }

    /// Connects to the stream of a subscription. Returns whether that was done: it is not, once
    /// the connection is closed, and the stream is then one that has already ended.
    pub fn connect_stream(&mut self, id: SubscriptionId, sender: S) -> (r: bool)
        ensures
            final(self)@ == (ClientView {
                connection: with_stream(old(self)@.connection, id@, sender),
                ..old(self)@
            }),
            final(self)@ == after_step(old(self)@, ClientStep::ConnectStream(id@, sender)),
            r == !old(self)@.connection.closed,
            r == registers(old(self)@.connection),
    {
        self.shared.register_stream(id, sender)
    }

    /// Closes the stream of a subscription. Returns whether there was one.
    pub fn disconnect_stream(&mut self, id: &SubscriptionId) -> (r: bool)
        ensures
            final(self)@ == (ClientView {
                connection: without_stream(old(self)@.connection, id@),
                ..old(self)@
            }),
            final(self)@ == after_step(old(self)@, ClientStep::DisconnectStream(id@)),
            r == (!old(self)@.connection.closed && old(self)@.connection.streams.contains_key(id@)),
            r == disconnects(old(self)@.connection, id@),
    {
        self.shared.disconnect_stream(id)
    }

    /// Tears the connection down, because it ended.
    pub fn teardown(&mut self)
        ensures
            final(self)@ == (ClientView { connection: torn_down::<S, R>(), ..old(self)@ }),
            final(self)@ == after_step(old(self)@, ClientStep::Teardown),
    {
        self.shared.teardown();
    }

    /// Close the websocket connection. Returns the message to be sent.
    pub fn close(&mut self) -> (r: Message)
        ensures
            final(self)@ == (ClientView { connection: torn_down::<S, R>(), ..old(self)@ }),
            final(self)@ == after_step(old(self)@, ClientStep::Close),
            r@ == FrameView::Close,
    {
        self.shared.teardown();
        Message::Close
    }
}

/// What can be done to a client.
pub enum ClientStep<S, R> {
    /// A request is sent, whose response is handed to this.
    SendRequest(R),
    /// The request with this ID is cancelled.
    CancelRequest(u64),
    /// The reader meets something.
    Read(ReaderEvent),
    /// The stream of a subscription is connected, whose items are handed to this.
    ConnectStream(SubId, S),
    /// The stream of a subscription is closed.
    DisconnectStream(SubId),
    /// The connection is torn down, because it ended.
    Teardown,
    /// The connection is closed.
    Close,
}

/// A client after something was done to it.
pub open spec fn after_step<S, R>(c: ClientView<S, R>, step: ClientStep<S, R>) -> ClientView<S, R> {
    match step {
        ClientStep::SendRequest(sender) => ClientView {
            connection: with_request(c.connection, c.next_id, sender),
            next_id: next_id(c.next_id),
        },
        ClientStep::CancelRequest(id) => ClientView {
            connection: without_request(c.connection, id),
            ..c
        },
        ClientStep::Read(event) => ClientView { connection: after_read(c.connection, event), ..c },
        ClientStep::ConnectStream(id, sender) => ClientView {
            connection: with_stream(c.connection, id, sender),
            ..c
        },
        ClientStep::DisconnectStream(id) => ClientView {
            connection: without_stream(c.connection, id),
            ..c
        },
        ClientStep::Teardown | ClientStep::Close => ClientView { connection: torn_down(), ..c },
    }
}

/// A client after all of this was done to it, since its connection was opened.
pub open spec fn after_run<S, R>(run: Seq<ClientStep<S, R>>) -> ClientView<S, R>
    decreases run.len(),
{
    if run.len() == 0 {
        new_client()
    } else {
        after_step(after_run(run.drop_last()), run.last())
    }
}

/// Whether the connection dies or is closed with this.
pub open spec fn ends_connection<S, R>(step: ClientStep<S, R>) -> bool {
    match step {
        ClientStep::Read(event) => event is Ended,
        ClientStep::Teardown | ClientStep::Close => true,
        _ => false,
    }
}

/// A client is closed if and only if its connection died or was closed, whatever else was done to
/// it.
pub proof fn lemma_closed_just_by_an_end<S, R>(run: Seq<ClientStep<S, R>>)
    ensures
        after_run(run).connection.closed <==> exists|i: int|
            0 <= i < run.len() && ends_connection(#[trigger] run[i]),
    decreases run.len(),
{
    if run.len() > 0 {
        let before = run.drop_last();
        lemma_closed_just_by_an_end(before);
        assert(run.last() == run[run.len() - 1]);
        if exists|i: int| 0 <= i < before.len() && ends_connection(#[trigger] before[i]) {
            let i = choose|i: int| 0 <= i < before.len() && ends_connection(#[trigger] before[i]);
            assert(run[i] == before[i]);
        }
        if exists|i: int| 0 <= i < run.len() && ends_connection(#[trigger] run[i]) {
            let i = choose|i: int| 0 <= i < run.len() && ends_connection(#[trigger] run[i]);
            if i < before.len() {
                assert(before[i] == run[i]);
            }
        }
    }
}

/// A client that is closed stays closed, whatever is done to it afterwards.
pub proof fn lemma_closed_stays_closed<S, R>(run: Seq<ClientStep<S, R>>, k: int)
    requires
        0 <= k <= run.len(),
        after_run(run.take(k)).connection.closed,
    ensures
        after_run(run).connection.closed,
{
    let before = run.take(k);
    lemma_closed_just_by_an_end(before);
    lemma_closed_just_by_an_end(run);
    let i = choose|i: int| 0 <= i < before.len() && ends_connection(#[trigger] before[i]);
    assert(run[i] == before[i]);
}

/// Nobody is left waiting on a closed client: whatever was done to it, it has neither pending
/// requests nor subscriptions.
pub proof fn lemma_closed_client_has_nobody_waiting<S, R>(run: Seq<ClientStep<S, R>>)
    ensures
        nobody_left_waiting(after_run(run).connection),
    decreases run.len(),
{
    if run.len() > 0 {
        lemma_closed_client_has_nobody_waiting(run.drop_last());
        let c = after_run(run.drop_last()).connection;
        let after = after_run(run).connection;
        if c.closed {
            match run.last() {
                ClientStep::CancelRequest(id) => {
                    assert(after =~= c);
                },
                ClientStep::Read(ReaderEvent::Message(_)) => {
                    assert(after =~= c);
                },
                _ => {},
            }
        }
    }
}

/// How many requests are sent in a run.
pub open spec fn sends<S, R>(run: Seq<ClientStep<S, R>>) -> nat
    decreases run.len(),
{
    if run.len() == 0 {
        0
    } else if run.last() is SendRequest {
        sends(run.drop_last()) + 1
    } else {
        sends(run.drop_last())
    }
}

/// The ID of the request that the step `i` of a run sends.
pub open spec fn request_id<S, R>(run: Seq<ClientStep<S, R>>, i: int) -> u64 {
    after_run(run.take(i)).next_id
}

/// Whether the request `id` of a client ends with a step: it is answered or cancelled, or the
/// connection ends, or the request is refused because the connection had ended before.
pub open spec fn ends_request<S, R>(c: ClientView<S, R>, step: ClientStep<S, R>, id: u64) -> bool {
    ends_connection(step) || match step {
        ClientStep::SendRequest(_) => c.next_id == id && c.connection.closed,
        ClientStep::CancelRequest(cancelled) => cancelled == id,
        ClientStep::Read(ReaderEvent::Message(message)) => match received_message(message@) {
            Some(Ok(MessageView::Response(response))) => response.id == Tree::Int(id as int),
            _ => false,
        },
        _ => false,
    }
}

/// The requests of a client are numbered: the first one that is sent has the ID 1, and each later
/// one the next. Nothing else that is done to the client counts.
pub proof fn lemma_requests_are_numbered<S, R>(run: Seq<ClientStep<S, R>>)
    ensures
        after_run(run).next_id == id_after(1, sends(run)),
        sends(run) < u64::MAX ==> after_run(run).next_id == sends(run) + 1,
    decreases run.len(),
{
    if run.len() > 0 {
        lemma_requests_are_numbered(run.drop_last());
    }
    if sends(run) < u64::MAX {
        lemma_id_after(1, sends(run));
    }
}

/// No two requests of a client have the same ID, as long as no more than 2^64 are sent.
pub proof fn lemma_request_ids_differ<S, R>(run: Seq<ClientStep<S, R>>, i: int, j: int)
    requires
        0 <= i < j < run.len(),
        run[i] is SendRequest,
        run[j] is SendRequest,
        sends(run) <= u64::MAX + 1,
    ensures
        request_id(run, i) == id_after(1, sends(run.take(i))),
        request_id(run, j) == id_after(1, sends(run.take(j))),
        request_id(run, i) != request_id(run, j),
{
    lemma_requests_are_numbered(run.take(i));
    lemma_requests_are_numbered(run.take(j));
    lemma_more_sends(run.take(j), i);
    assert(run.take(j).take(i) =~= run.take(i));
    lemma_more_sends(run, j);
    lemma_ids_are_unique(1, sends(run.take(i)), sends(run.take(j)));
}

/// A request that is sent counts.
proof fn lemma_more_sends<S, R>(run: Seq<ClientStep<S, R>>, i: int)
    requires
        0 <= i < run.len(),
        run[i] is SendRequest,
    ensures
        sends(run.take(i)) < sends(run),
    decreases run.len(),
{
    let before = run.drop_last();
    if i == before.len() {
        assert(run.take(i) =~= before);
    } else {
        assert(before.take(i) =~= run.take(i));
        lemma_more_sends(before, i);
    }
}

/// A request that ended, in whatever way, leaves nothing behind: it is not among the pending
/// requests, then and ever after, as long as no more than 2^64 requests are sent.
pub proof fn lemma_ended_request_leaves_nothing<S, R>(
    run: Seq<ClientStep<S, R>>,
    i: int,
    k: int,
)
    requires
        0 <= i <= k < run.len(),
        run[i] is SendRequest,
        ends_request(after_run(run.take(k)), run[k], request_id(run, i)),
        sends(run) <= u64::MAX + 1,
    ensures
        !after_run(run).connection.requests.contains_key(request_id(run, i)),
    decreases run.len(),
{
    let id = request_id(run, i);
    let before = run.drop_last();
    let last = run.last();
    let c = after_run(before).connection;
    assert(before.take(i) =~= run.take(i));
    if k == before.len() {
        assert(run.take(k) =~= before);
        assert(last == run[k]);
        lemma_closed_client_has_nobody_waiting(before);
    } else {
        assert(before.take(k) =~= run.take(k));
        assert(sends(before) <= sends(run));
        lemma_ended_request_leaves_nothing(before, i, k);
        if last is SendRequest {
            let j = before.len() as int;
            assert(run.take(j) =~= before);
            lemma_request_ids_differ(run, i, j);
        }
    }
}

/// The end of a request does not touch the others: they are pending as before, unless it is the
/// connection that ends.
pub proof fn lemma_other_requests_stay_pending<S, R>(
    c: ClientView<S, R>,
    step: ClientStep<S, R>,
    id: u64,
    other: u64,
)
    requires
        ends_request(c, step, id),
        !ends_connection(step),
        other != id,
    ensures
        after_step(c, step).connection.requests.contains_key(other)
            == c.connection.requests.contains_key(other),
        c.connection.requests.contains_key(other) ==> after_step(c, step).connection.requests[other]
            == c.connection.requests[other],
        after_step(c, step).connection.streams == c.connection.streams,
{
}

/// When the wait of one ends who waits for the client to be closed from the time on when the first
/// `k` things were done to it: how many were then done. It does not end, if it still goes on after
/// all were.
pub open spec fn wait_ends<S, R>(run: Seq<ClientStep<S, R>>, k: int) -> Option<int>
    decreases run.len() + 1 - k,
{
    if k < 0 || k > run.len() {
        None
    } else if waiting(after_run(run.take(k)).connection) == Wait::Over {
        Some(k)
    } else {
        wait_ends(run, k + 1)
    }
}

/// Waiting for a client to be closed ends if and only if the connection dies or is closed. It ends
/// at once if that happened before, else as soon as it happens: no request or subscription need be
/// pending. When it ends the client is closed, and it stays closed.
pub proof fn lemma_wait_ends_with_the_connection<S, R>(run: Seq<ClientStep<S, R>>, k: int)
    requires
        0 <= k <= run.len(),
    ensures
        wait_ends(run, k) is Some <==> exists|i: int|
            0 <= i < run.len() && ends_connection(#[trigger] run[i]),
        (exists|i: int| 0 <= i < k && ends_connection(#[trigger] run[i])) ==> wait_ends(run, k)
            == Some(k),
        wait_ends(run, k) matches Some(j) ==> {
            &&& k <= j <= run.len()
            &&& k < j ==> ends_connection(run[j - 1])
            &&& k < j ==> forall|i: int| 0 <= i < j - 1 ==> !ends_connection(#[trigger] run[i])
            &&& forall|n: int|
                j <= n <= run.len() ==> (#[trigger] after_run(run.take(n))).connection.closed
        },
    decreases run.len() - k,
{
    let before = run.take(k);
    lemma_closed_just_by_an_end(before);
    assert(forall|i: int| 0 <= i < k ==> #[trigger] before[i] == run[i]);
    if after_run(before).connection.closed {
        let i = choose|i: int| 0 <= i < before.len() && ends_connection(#[trigger] before[i]);
        assert(ends_connection(run[i]));
        assert forall|n: int| k <= n <= run.len() implies (#[trigger] after_run(
            run.take(n),
        )).connection.closed by {
            assert(run.take(n).take(k) =~= before);
            lemma_closed_stays_closed(run.take(n), k);
        }
    } else {
        if exists|i: int| 0 <= i < k && ends_connection(#[trigger] run[i]) {
            let i = choose|i: int| 0 <= i < k && ends_connection(#[trigger] run[i]);
            assert(ends_connection(before[i]));
        }
        if k < run.len() {
            lemma_wait_ends_with_the_connection(run, k + 1);
            if ends_connection(run[k]) {
                assert(exists|i: int| 0 <= i < k + 1 && ends_connection(#[trigger] run[i]));
            }
            if wait_ends(run, k + 1) == Some(k + 1) {
                let upto = run.take(k + 1);
                lemma_closed_just_by_an_end(upto);
                let i = choose|i: int| 0 <= i < upto.len() && ends_connection(#[trigger] upto[i]);
                assert(upto[i] == run[i]);
                assert(i == k);
            }
        } else {
            assert(wait_ends(run, k + 1) is None);
        }
    }
}

} // verus!
