use std::sync::mpsc::{channel, Receiver, Sender};

use nimiq_jsonrpc::client::{header_value, Credentials};
use nimiq_jsonrpc::error::{Error as ProtocolError, RpcError};
use nimiq_jsonrpc::frame::Message;
use nimiq_jsonrpc::http::{Error as HttpError, HttpClient};
use nimiq_jsonrpc::json::{Category, Json, JsonError, JsonNumber};
use nimiq_jsonrpc::request::Request;
use nimiq_jsonrpc::response::Response;
use nimiq_jsonrpc::subscription::SubscriptionId;
use nimiq_jsonrpc::websocket::{
    Delivery, Error, ReaderAction, ReaderEvent, SharedConnectionState, Wait, WebsocketClient,
};

type Client = WebsocketClient<Sender<Json>, Sender<Response>>;

/// What a reader finds wrong with a text.
const MISREAD: JsonError = JsonError {
    line: 3,
    column: 14,
    category: Category::Syntax,
};

fn num(n: u64) -> Json {
    Json::Number(JsonNumber::PosInt(n))
}

/// Begins a request.
fn send(client: &mut Client, method: &str) -> Result<(u64, Receiver<Response>), Error> {
    let (tx, rx) = channel();
    let (id, message) = client.send_request(method, Json::Null, tx)?;
    let sent = Request::from_slice(message.as_bytes(), MISREAD).unwrap();
    assert_eq!(sent.method, method);
    assert_eq!(sent.id, Some(num(id)));
    Ok((id, rx))
}

/// Waits for the response to a request.
fn wait(rx: Receiver<Response>) -> Result<Json, Error> {
    Client::finish_request(rx.recv().ok())
}

/// Hands a message that the server sent to whom it belongs.
fn deliver(client: &mut Client, message: Message) {
    match client.read(ReaderEvent::Message(message)) {
        ReaderAction::Deliver(Delivery::Response(tx, response)) => {
            tx.send(response).ok();
        }
        ReaderAction::Deliver(Delivery::Notification(message)) => {
            let tx = client.shared().stream(&message.subscription).unwrap();
            tx.send(message.result).unwrap();
        }
        _ => {}
    }
}

fn respond(client: &mut Client, id: u64, result: Json) {
    let text = Response::new_success(num(id), result).to_value().to_text();
    deliver(client, Message::Text(text));
}

fn notify(client: &mut Client, subscription: u64, result: u64) {
    deliver(
        client,
        Message::Text(format!(
            r#"{{"jsonrpc":"2.0","method":"notification","params":{{"subscription":{subscription},"result":{result}}}}}"#
        )),
    );
}

fn connect(client: &mut Client, id: u64) -> Receiver<Json> {
    let (tx, rx) = channel();
    client.connect_stream(SubscriptionId::Number(id), tx);
    rx
}

/// Subscribes, and returns the stream.
fn subscribe(client: &mut Client) -> Receiver<Json> {
    let (id, rx) = send(client, "subscribe").unwrap();
    respond(client, id, num(1));
    let subscription = wait(rx).unwrap().as_u64().unwrap();
    assert_eq!(subscription, 1);
    connect(client, subscription)
}

#[test]
fn connection_loss_ends_streams_and_fails_pending_requests() {
    let mut client = Client::new();
    let stream = subscribe(&mut client);
    let (_, pending) = send(&mut client, "never_answered").unwrap();

    notify(&mut client, 1, 42);
    assert_eq!(stream.recv().ok(), Some(num(42)));

    // A message that cannot be read ends nothing.
    assert!(matches!(
        client.read(ReaderEvent::Failed),
        ReaderAction::Continue
    ));
    assert!(!client.is_closed());

    // The connection is gone: the stream must end and the in-flight request must fail.
    assert!(matches!(
        client.read(ReaderEvent::Ended),
        ReaderAction::Stop
    ));
    assert_eq!(stream.recv().ok(), None);
    assert_eq!(wait(pending), Err(Error::ConnectionClosed));
}

#[test]
fn explicit_close_ends_streams_and_fails_pending_requests() {
    let mut client = Client::new();
    let stream = subscribe(&mut client);
    let (_, pending) = send(&mut client, "never_answered").unwrap();

    assert_eq!(client.close(), Message::Close);

    assert_eq!(stream.recv().ok(), None);
    assert!(wait(pending).is_err());

    // A closed client must fail fast rather than register into a dead connection.
    assert!(send(&mut client, "after_close").is_err());
    let after_close = connect(&mut client, 2);
    assert_eq!(after_close.recv().ok(), None);
}

#[test]
fn connection_loss_is_observable_without_a_pending_request() {
    let mut client = Client::new();
    assert!(!client.is_closed());

    let (id, rx) = send(&mut client, "subscribe").unwrap();
    respond(&mut client, id, num(1));
    wait(rx).unwrap();

    client.teardown();
    assert!(client.is_closed());
    assert_eq!(client.closed(), Wait::Over);
}

#[test]
fn requests_are_numbered() {
    let mut client = Client::new();
    let (tx, _rx) = channel();
    let (id, message) = client.send_request("hello", Json::Array(vec![]), tx).unwrap();
    assert_eq!(id, 1);
    assert_eq!(
        message,
        Message::Binary(br#"{"jsonrpc":"2.0","method":"hello","params":[],"id":1}"#.to_vec())
    );
    assert_eq!(send(&mut client, "hello").unwrap().0, 2);
}

#[test]
fn responses_are_delivered_once() {
    let mut client = Client::new();
    let (id, rx) = send(&mut client, "hello").unwrap();
    respond(&mut client, id, num(7));
    assert_eq!(wait(rx), Ok(num(7)));
    let again = Response::new_success(num(id), num(7)).to_value().to_text();
    match client.handle_websocket_message(&Message::Text(again)) {
        Ok(Delivery::UnknownRequest(got)) => assert_eq!(got, num(id)),
        _ => panic!("the request is not pending any more"),
    }
}

#[test]
fn errors_of_the_server_arrive() {
    let mut client = Client::new();
    let (id, rx) = send(&mut client, "hello").unwrap();
    let error = RpcError::invalid_params(Some("why".to_owned()));
    let text = Response::new_error(num(id), error.clone()).to_value().to_text();
    deliver(&mut client, Message::Text(text));
    assert_eq!(
        wait(rx),
        Err(Error::JsonRpc(ProtocolError::JsonRpc(error)))
    );
}

#[test]
fn cancelled_requests_are_forgotten() {
    let mut client = Client::new();
    let (id, rx) = send(&mut client, "hello").unwrap();
    client.cancel_request(id);
    assert_eq!(wait(rx), Err(Error::ConnectionClosed));
}

fn handle(message: Message) -> Result<Delivery<()>, Error> {
    let mut state: SharedConnectionState<(), ()> = SharedConnectionState::new();
    state.handle_websocket_message(&message)
}

#[test]
fn messages_that_nobody_waits_for() {
    let request = r#"{"jsonrpc":"2.0","method":"m","id":1}"#;
    let bare = r#"{"jsonrpc":"2.0","method":"m"}"#;
    let unknown = r#"{"jsonrpc":"2.0","method":"m","params":{"subscription":"x","result":1}}"#;
    let response = r#"{"jsonrpc":"2.0","result":1,"id":"x"}"#;
    let handle_text = |s: &str| handle(Message::Text(s.to_owned()));
    assert_eq!(handle_text(request), Ok(Delivery::UnexpectedRequest));
    assert_eq!(handle_text(bare), Ok(Delivery::NoParams));
    assert_eq!(
        handle_text(unknown),
        Ok(Delivery::UnknownStream(SubscriptionId::String("x".to_owned())))
    );
    assert_eq!(
        handle_text(response),
        Ok(Delivery::UnknownRequest(Json::String("x".to_owned())))
    );
    assert_eq!(handle(Message::Ping), Ok(Delivery::Ignored));
    assert_eq!(handle(Message::Close), Ok(Delivery::Ignored));
}

#[test]
fn messages_that_cannot_be_read() {
    assert_eq!(handle(Message::Binary(vec![0xff])), Err(Error::Utf8));
    let data = JsonError {
        line: 0,
        column: 0,
        category: Category::Data,
    };
    for s in ["1", r#"{"jsonrpc":"2.0","result":1,"id":1,"id":1}"#] {
        assert_eq!(
            handle(Message::Binary(s.as_bytes().to_vec())),
            Err(Error::JsonRpc(ProtocolError::Json(data)))
        );
    }
    // A notification that is read, but is not one of a subscription.
    let notification = r#"{"jsonrpc":"2.0","method":"m","params":1}"#;
    assert_eq!(
        handle(Message::Binary(notification.as_bytes().to_vec())),
        Err(Error::Json(data))
    );
    let mut client = Client::new();
    match client.read(ReaderEvent::Message(Message::Text(notification.to_owned()))) {
        ReaderAction::Log(e) => assert_eq!(e, Error::Json(data)),
        _ => panic!("expected an error"),
    }
    assert!(!client.is_closed());
}

#[test]
fn waiting_for_the_end_of_the_connection() {
    // Nothing but its end closes a connection.
    let mut client = Client::new();
    assert_eq!(client.closed(), Wait::Pending);
    let (id, _response) = send(&mut client, "m").unwrap();
    client.cancel_request(id);
    let _stream = connect(&mut client, 1);
    notify(&mut client, 1, 1);
    assert!(client.disconnect_stream(&SubscriptionId::Number(1)));
    client.read(ReaderEvent::Message(Message::Binary(vec![0xff])));
    client.read(ReaderEvent::Message(Message::Close));
    client.read(ReaderEvent::Failed);
    assert_eq!(client.closed(), Wait::Pending);
    assert!(!client.is_closed());

    // The wait ends with it, though nothing is pending, and for good.
    assert!(matches!(client.read(ReaderEvent::Ended), ReaderAction::Stop));
    assert_eq!(client.closed(), Wait::Over);
    assert!(client.is_closed());
    assert_eq!(send(&mut client, "m").err(), Some(Error::ConnectionClosed));
    client.read(ReaderEvent::Failed);
    client.teardown();
    assert_eq!(client.closed(), Wait::Over);
    assert!(client.is_closed());

    let mut client = Client::new();
    assert_eq!(client.close(), Message::Close);
    assert_eq!(client.closed(), Wait::Over);
    assert!(client.is_closed());
}

#[test]
fn responses_arrive_in_either_kind_of_message() {
    for text in [true, false] {
        let mut client = Client::new();
        let (id, rx) = send(&mut client, "m").unwrap();
        let response = Response::new_success(num(id), num(7)).to_value();
        deliver(&mut client, Message::frame(&response, text));
        assert_eq!(wait(rx), Ok(num(7)));
    }
}

#[test]
fn streams_are_connected_and_disconnected() {
    let mut client = Client::new();
    let stream = connect(&mut client, 5);
    let id = SubscriptionId::Number(5);
    assert!(client.shared().stream(&id).is_some());
    notify(&mut client, 5, 1);
    notify(&mut client, 5, 2);
    assert!(client.disconnect_stream(&id));
    assert!(!client.disconnect_stream(&id));
    assert_eq!(stream.recv().ok(), Some(num(1)));
    assert_eq!(stream.recv().ok(), Some(num(2)));
    assert_eq!(stream.recv().ok(), None);

    let name = SubscriptionId::String("blocks".to_owned());
    let (tx, _rx) = channel();
    assert!(client.connect_stream(name.clone(), tx));
    assert!(client.shared().stream(&name).is_some());
    assert!(client.disconnect_stream(&name));
    assert!(client.shared().stream(&name).is_none());
}

#[test]
fn request_ids_of_a_client_differ_and_nothing_is_left_of_them() {
    let mut client = Client::new();
    let (first, a) = send(&mut client, "a").unwrap();
    let (second, b) = send(&mut client, "b").unwrap();
    let (third, c) = send(&mut client, "c").unwrap();
    assert_eq!((first, second, third), (1, 2, 3));
    respond(&mut client, second, num(7));
    client.cancel_request(first);
    // Neither is known any more, and the third one still is.
    for id in [first, second] {
        let response = Response::new_success(num(id), num(8)).to_value();
        assert!(matches!(
            client.handle_websocket_message(&Message::frame(&response, true)),
            Ok(Delivery::UnknownRequest(_))
        ));
    }
    respond(&mut client, third, num(9));
    assert_eq!(wait(a), Err(Error::ConnectionClosed));
    assert_eq!(wait(b), Ok(num(7)));
    assert_eq!(wait(c), Ok(num(9)));
    client.close();
    assert_eq!(send(&mut client, "d").err(), Some(Error::ConnectionClosed));
}

#[test]
fn client_errors_have_a_text() {
    assert_eq!(
        Error::ConnectionClosed.to_text().as_deref(),
        Some("The websocket connection is closed")
    );
    assert_eq!(
        Error::JsonRpc(ProtocolError::InvalidResponse).to_text().as_deref(),
        Some("JSON-RPC protocol error: Received invalid response")
    );
    assert_eq!(Error::Utf8.to_text(), None);
    assert_eq!(Error::Json(MISREAD).to_text(), None);
    assert_eq!(Error::JsonRpc(ProtocolError::Json(MISREAD)).to_text(), None);
    let mismatch = HttpError::IdMismatch {
        expected: 12,
        got: num(3),
    };
    assert_eq!(
        mismatch.to_text().as_deref(),
        Some("Response ID doesn't match request ID: expected 12, but got Number(3)")
    );
    assert_eq!(
        HttpError::JsonRpc(ProtocolError::InvalidResponse).to_text().as_deref(),
        Some("Received invalid response")
    );
}

#[test]
fn authorization_is_in_base64() {
    let credentials = Credentials::new("Aladdin", "open sesame");
    assert_eq!(
        credentials.authorization(),
        "Basic QWxhZGRpbjpvcGVuIHNlc2FtZQ=="
    );
    assert_eq!(header_value("YTpi"), "Basic YTpi");
}

#[test]
fn http_requests_are_numbered() {
    let mut client = HttpClient::new(Some(("user", "secret").into()));
    assert_eq!(client.basic_auth().as_ref().unwrap().username, "user");
    assert_eq!(client.basic_auth().as_ref().unwrap().password, "secret");
    assert!(client.can_send());
    for expected in 1..4 {
        let (id, request) = client.send_request("hello", num(0));
        assert_eq!(id, expected);
        assert_eq!(
            request,
            Request::new("hello".to_owned(), Some(num(0)), Some(num(expected as u64)))
        );
    }
}

#[test]
fn http_responses_must_have_the_id() {
    assert_eq!(
        HttpClient::finish_request(3, Response::new_success(num(3), num(9))),
        Ok(num(9))
    );
    assert_eq!(
        HttpClient::finish_request(3, Response::new_success(num(4), num(9))),
        Err(HttpError::IdMismatch {
            expected: 3,
            got: num(4)
        })
    );
    assert_eq!(
        HttpClient::finish_request(3, Response::new_success(Json::Null, num(9))),
        Err(HttpError::IdMismatch {
            expected: 3,
            got: Json::Null
        })
    );
    assert_eq!(
        HttpClient::finish_request(3, Response::new_error(num(3), RpcError::from(()))),
        Err(HttpError::JsonRpc(ProtocolError::JsonRpc(RpcError::from(()))))
    );
}
