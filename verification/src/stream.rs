//! Streams whose items are sent to a client as notifications.

use crate::batch::{message_from, MessageView};
use crate::error::{Error, ErrorView};
use crate::frame::{framed, payload, FrameType, FrameView, Message};
use crate::json::{readable, reads_as, Json, JsonError, Tree};
use crate::request::{lemma_request_round_trip, new_request, request_tree, Request, RequestView};
use crate::subscription::{
    lemma_subscription_message_round_trip, subscription_message_of, subscription_message_tree,
    SubId, SubscriptionId, SubscriptionMessage, SubscriptionMessageView,
};
use vstd::prelude::*;

verus! {

/// The notification of an item.
pub open spec fn notification(id: SubId, method: Seq<char>, item: Tree) -> RequestView {
    new_request(
        method,
        Some(
            subscription_message_tree(SubscriptionMessageView { subscription: id, result: item }),
        ),
        None,
    )
}

/// The message with the notification of an item. It is sent as text where the client asked for
/// text.
pub open spec fn notification_frame(
    id: SubId,
    method: Seq<char>,
    frame_type: Option<FrameType>,
    item: Tree,
) -> FrameView {
    framed(request_tree(notification(id, method, item)), frame_type == Some(FrameType::Text))
}

/// Writes the notification of an item, which was turned into JSON. Where that failed, the failure
/// is passed on.
pub fn forward_notification(
    item: Result<Json, JsonError>,
    id: &SubscriptionId,
    method: &str,
    frame_type: Option<FrameType>,
) -> (r: Result<Message, Error>)
    ensures
        match item {
            Ok(item) => r matches Ok(m) && m@ == notification_frame(
                id@,
                method@,
                frame_type,
                item@,
            ) && (readable(request_tree(notification(id@, method@, item@)), 127) ==> reads_as(
                payload(m@),
                request_tree(notification(id@, method@, item@)),
            )),
            Err(e) => r matches Err(x) && x@ == ErrorView::Json(e),
        },
{
    let params = match item {
        Ok(result) => Ok(
            SubscriptionMessage { subscription: id.clone(), result }.into_value(),
        ),
        Err(e) => Err(e),
    };
    let notification = match Request::build(method.to_owned(), Some(params), None) {
        Ok(notification) => notification,
        Err(e) => return Err(e),
    };
    let value = match notification.to_value() {
        Ok(value) => value,
        Err(e) => return Err(e),
    };
    let text = match frame_type {
        Some(FrameType::Text) => true,
        Some(FrameType::Binary) => false,
        None => false,
    };
    Ok(Message::frame(&value, text))
}

/// A client that reads the notification of an item finds the item there, under the ID of the
/// subscription, and takes the notification for no response.
pub proof fn lemma_notification_arrives(id: SubId, method: Seq<char>, item: Tree, text: Seq<u8>)
    requires
        reads_as(text, request_tree(notification(id, method, item))),
    ensures
        message_from(text) == Ok::<MessageView, JsonError>(
            MessageView::Request(notification(id, method, item)),
        ),
        notification(id, method, item).id is None,
        subscription_message_of(notification(id, method, item).params->0) == Some(
            SubscriptionMessageView { subscription: id, result: item },
        ),
{
    lemma_request_round_trip(notification(id, method, item));
    lemma_subscription_message_round_trip(
        SubscriptionMessageView { subscription: id, result: item },
    );
}

/// What happens to a stream that is forwarded to a client.
#[derive(Debug, PartialEq, Eq)]
pub enum StreamEvent {
    /// It yields an item, which was turned into JSON.
    Item(Result<Json, JsonError>),
    /// It ends.
    Ended,
    /// The client unsubscribes.
    Unsubscribed,
    /// The queue to the client is closed.
    QueueClosed,
}

/// What is done about a stream that is forwarded to a client.
#[derive(Debug, PartialEq, Eq)]
pub enum StreamAction {
    /// A message is sent to the client.
    Send(Message),
    /// An error is logged.
    Log(Error),
    /// The stream is dropped.
    Stop,
}

/// A stream that is forwarded to a client.
pub struct StreamForwarder {
    id: SubscriptionId,
    method: String,
    frame_type: Option<FrameType>,
    open: bool,
}

/// What a stream is that is forwarded to a client.
#[verifier::ext_equal]
pub struct ForwarderView {
    /// The ID of the subscription.
    pub id: SubId,
    /// The name of the method in the notifications.
    pub method: Seq<char>,
    /// How notifications are sent.
    pub frame_type: Option<FrameType>,
    /// Whether the stream is still forwarded.
    pub open: bool,
}

impl View for StreamForwarder {
    type V = ForwarderView;

    closed spec fn view(&self) -> ForwarderView {
        ForwarderView {
            id: self.id@,
            method: self.method@,
            frame_type: self.frame_type,
            open: self.open,
        }
    }
}

/// Connects a stream such that its items are sent to the client as notifications.
///
/// # Arguments
///
///  - `stream_id`: An unique ID that can be assigned to the stream.
///  - `method`: The method name set in the notifications.
///  - `frame_type`: How notifications are sent.
///
/// # Returns
///
/// Returns the subscription ID, and what forwards the stream.
pub fn connect_stream(
    stream_id: u64,
    method: String,
    frame_type: Option<FrameType>,
) -> (r: (SubscriptionId, StreamForwarder))
    ensures
        r.0@ == SubId::Number(stream_id),
        r.1@ == (ForwarderView {
            id: SubId::Number(stream_id),
            method: method@,
            frame_type,
            open: true,
        }),
{
    let id: SubscriptionId = SubscriptionId::Number(stream_id);
    let forwarder = StreamForwarder { id: id.clone(), method, frame_type, open: true };
    (id, forwarder)
}

/// The stream is dropped.
pub open spec fn stopped(f: ForwarderView) -> ForwarderView {
    ForwarderView { open: false, ..f }
}

/// What a stream is after an event: it is dropped when it ends, when the client unsubscribes, and
/// when the queue to the client is closed.
pub open spec fn after_event(f: ForwarderView, event: StreamEvent) -> ForwarderView {
    if event is Item {
        f
    } else {
        stopped(f)
    }
}

/// What is done about a stream that is forwarded to a client.
pub enum StreamActionView {
    /// A message is sent to the client.
    Send(FrameView),
    /// An error is logged.
    Log(ErrorView),
    /// The stream is dropped.
    Stop,
}

impl View for StreamAction {
    type V = StreamActionView;

    open spec fn view(&self) -> StreamActionView {
        match *self {
            StreamAction::Send(m) => StreamActionView::Send(m@),
            StreamAction::Log(e) => StreamActionView::Log(e@),
            StreamAction::Stop => StreamActionView::Stop,
        }
    }
}

/// What is done on an event: as long as the stream is forwarded, an item is sent, or logged if it was
/// not turned into JSON. Anything else drops the stream.
pub open spec fn stream_action(f: ForwarderView, event: StreamEvent) -> StreamActionView {
    match event {
        StreamEvent::Item(Ok(item)) if f.open => StreamActionView::Send(
            notification_frame(f.id, f.method, f.frame_type, item@),
        ),
        StreamEvent::Item(Err(e)) if f.open => StreamActionView::Log(ErrorView::Json(e)),
        _ => StreamActionView::Stop,
    }
}

impl StreamForwarder {
    /// Decides what is done on an event. A stream that was dropped sends nothing any more.
    pub fn step(&mut self, event: StreamEvent) -> (r: StreamAction)
        ensures
            final(self)@ == after_event(old(self)@, event),
            r@ == stream_action(old(self)@, event),
            match event {
                StreamEvent::Item(item) if old(self)@.open => match item {
                    Ok(item) => r matches StreamAction::Send(m) && m@ == notification_frame(
                        old(self)@.id,
                        old(self)@.method,
                        old(self)@.frame_type,
                        item@,
                    ) && (readable(
                        request_tree(notification(old(self)@.id, old(self)@.method, item@)),
                        127,
                    ) ==> reads_as(
                        payload(m@),
                        request_tree(notification(old(self)@.id, old(self)@.method, item@)),
                    )),
                    Err(e) => r matches StreamAction::Log(x) && x@ == ErrorView::Json(e),
                },
                _ => r is Stop,
            },
    {
        match event {
            StreamEvent::Item(item) => {
                if !self.open {
                    return StreamAction::Stop;
                }
                match forward_notification(item, &self.id, self.method.as_str(), self.frame_type) {
                    Ok(message) => StreamAction::Send(message),
                    Err(e) => StreamAction::Log(e),
                }
            },
            _ => {
                self.open = false;
                StreamAction::Stop
            },
        }
    }
}

/// What a stream is after some events.
pub open spec fn after_events(f: ForwarderView, events: Seq<StreamEvent>) -> ForwarderView
    decreases events.len(),
{
    if events.len() == 0 {
        f
    } else {
        after_event(after_events(f, events.drop_last()), events.last())
    }
}

/// A stream is forwarded just as long as it neither ended nor was unsubscribed nor lost its queue;
/// and whatever happens, its notifications keep their ID, method and frame type.
pub proof fn lemma_stream_runs_until_stopped(f: ForwarderView, events: Seq<StreamEvent>)
    ensures
        after_events(f, events).open == (f.open && forall|i: int|
            0 <= i < events.len() ==> (#[trigger] events[i]) is Item),
        after_events(f, events) == f || after_events(f, events) == stopped(f),
    decreases events.len(),
{
    if events.len() > 0 {
        let rest = events.drop_last();
        lemma_stream_runs_until_stopped(f, rest);
        assert(forall|i: int|
            #![trigger rest[i]]
            #![trigger events[i]]
            0 <= i < rest.len() ==> rest[i] == events[i]);
        assert(events.last() == events[events.len() - 1]);
    }
}

} // verus!
