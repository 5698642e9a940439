use nimiq_jsonrpc::auth::{
    basic_auth_filter, basic_auth_middleware, handle_auth_rejection, Access, Credentials, Rejection,
    RejectionReply, Unauthorized,
};
use nimiq_jsonrpc::batch::SingleOrBatch;
use nimiq_jsonrpc::config::{
    is_valid_origin, Config, Cors, Endpoint, IpAddr, Origins, SocketAddr, BODY_LIMIT,
};
use nimiq_jsonrpc::derive::{Attribute, FnArg, Meta, Pat, Signature, Type};
use nimiq_jsonrpc::dispatch::{Action, Dispatcher, ModularDispatcher};
use nimiq_jsonrpc::error::RpcError;
use nimiq_jsonrpc::frame::{FrameType, Message};
use nimiq_jsonrpc::json::{Category, Json, JsonError, JsonNumber};
use nimiq_jsonrpc::request::Request;
use nimiq_jsonrpc::response::Response;
use nimiq_jsonrpc::server::{
    http_reply, requested_frame_type, Exchange, Forwarded, Received, Server, Step, WebsocketSession,
};
use nimiq_jsonrpc::service::{Method, MethodCall, Returned, Service};
use nimiq_jsonrpc::websocket::{Delivery, WebsocketClient};

const LOCALHOST: IpAddr = IpAddr::V4(0x7f000001);
const FOREIGN: IpAddr = IpAddr::V4(0xc0000201);

/// What a reader finds wrong with a text.
const MISREAD: JsonError = JsonError {
    line: 3,
    column: 14,
    category: Category::Syntax,
};

fn num(n: u64) -> Json {
    Json::Number(JsonNumber::PosInt(n))
}

fn text(s: &str) -> Json {
    Json::String(s.to_owned())
}

fn parse(s: &str) -> Json {
    Json::parse(s.as_bytes()).unwrap()
}

fn method(name: &str, arg: Option<&str>, attr: Option<&str>) -> Method {
    let mut inputs = vec![FnArg::Receiver];
    if let Some(arg) = arg {
        inputs.push(FnArg::Typed(
            Pat::Ident(arg.to_owned()),
            Type {
                text: "Greeting".to_owned(),
                optional: false,
            },
        ));
    }
    Method {
        sig: Signature {
            ident: name.to_owned(),
            inputs,
            output: "-> Result<String, Self::Error>".to_owned(),
        },
        attrs: attr
            .map(|name| Attribute {
                path: name.to_owned(),
                meta: Meta::Path,
            })
            .into_iter()
            .collect(),
    }
}

fn hello_service() -> Service {
    Service::new(
        "HelloWorldService",
        &None,
        vec![
            method("hello", Some("greeting"), None),
            method("watch", None, Some("stream")),
            method("hi", Some("greeting"), Some("deprecated")),
        ],
    )
    .0
}

type TestServer = Server<Service, String>;

fn server(config: Config) -> TestServer {
    Server::new(config, hello_service())
}

/// Calls a method of the service.
fn perform(stream_id: u64, call: MethodCall) -> Option<(Response, Option<String>)> {
    if call.method == "watch" {
        return call.finish(Ok(Returned::Stream(format!("stream {stream_id}"))));
    }
    let name = match &call.args[0] {
        Some(Json::Object(greeting)) => match greeting.get("name") {
            Some(Json::String(name)) => Ok(name.clone()),
            _ => Err("no name".to_owned()),
        },
        _ => Err("no greeting".to_owned()),
    };
    let misfits = call.order.iter().map(|_| name.clone().err()).collect();
    let call = match call.check(misfits) {
        Ok(call) => call,
        Err(reply) => return reply.map(|r| (r, None)),
    };
    let name = name.unwrap();
    call.finish(Ok(Returned::Value(text(&format!("Hello, {name}")))))
}

/// Answers a message, and returns the reply and the streams that were stopped.
fn answer(
    server: &mut TestServer,
    message: &Message,
    notifiable: bool,
) -> (Option<Message>, Vec<String>) {
    let mut exchange = if notifiable {
        WebsocketSession::upgrade_to_ws(None).answer(message)
    } else {
        Exchange::open(message, false, None)
    };
    let mut stopped = vec![];
    loop {
        match exchange.step(server) {
            Step::Done(reply) => return (reply, stopped),
            Step::Request(handled) => {
                stopped.extend(handled.stopped);
                if let Action::Call((stream_id, call)) = handled.action {
                    let outcome = perform(stream_id, call);
                    exchange.resume(server, stream_id, outcome);
                }
            }
        }
    }
}

fn ask(server: &mut TestServer, request: &str) -> Option<String> {
    match answer(server, &Message::Text(request.to_owned()), true).0 {
        Some(Message::Text(reply)) => Some(reply),
        Some(_) => panic!("the reply to text is text"),
        None => None,
    }
}

const RPC_BODY: &str =
    r#"{"jsonrpc":"2.0","method":"hello","params":{"greeting":{"name":"World"}},"id":1}"#;

/// Sends a request and returns the HTTP status code.
fn request_status(server: &mut TestServer, path: &str, body: &str) -> u16 {
    match server.config().route(LOCALHOST, path, None) {
        Ok(Endpoint::Http) => {
            let message = Message::Binary(body.as_bytes().to_vec());
            let reply = http_reply(answer(server, &message, false).0);
            assert_eq!(reply.content_type, "application/json");
            reply.status
        }
        Ok(Endpoint::Websocket) => 101,
        Err(status) => status,
    }
}

/// Performs a JSON-RPC call over a websocket connection.
fn websocket_call(server: &mut TestServer) -> Result<String, ()> {
    match server.config().route(LOCALHOST, "/ws", None) {
        Ok(Endpoint::Websocket) => {}
        _ => return Err(()),
    }
    let mut client: WebsocketClient<(), ()> = WebsocketClient::new();
    let params = parse(r#"{"greeting":{"name":"World"}}"#);
    let (_, message) = client.send_request("hello", params, ()).map_err(|_| ())?;
    let reply = answer(server, &message, true).0.ok_or(())?;
    match client.handle_websocket_message(&reply) {
        Ok(Delivery::Response(_, response)) => {
            match WebsocketClient::<(), ()>::finish_request(Some(response)) {
                Ok(Json::String(s)) => Ok(s),
                _ => Err(()),
            }
        }
        _ => Err(()),
    }
}

fn start_server(enable_websocket: bool) -> TestServer {
    server(Config {
        enable_websocket,
        ..Default::default()
    })
}

fn whitelisting_server(ip_whitelist: Option<Vec<IpAddr>>) -> TestServer {
    server(Config {
        ip_whitelist,
        ..Default::default()
    })
}

fn status_for_whitelist(ip_whitelist: Option<Vec<IpAddr>>) -> u16 {
    request_status(&mut whitelisting_server(ip_whitelist), "/", RPC_BODY)
}

#[test]
fn websocket_endpoint_is_available_when_enabled() {
    let mut server = start_server(true);
    assert_eq!(websocket_call(&mut server), Ok("Hello, World".to_owned()));
}

#[test]
fn websocket_endpoint_is_absent_when_disabled() {
    let mut server = start_server(false);

    assert_eq!(request_status(&mut server, "/ws", ""), 404);
    assert_eq!(websocket_call(&mut server), Err(()));
}

#[test]
fn http_endpoint_still_works_when_websocket_is_disabled() {
    let mut server = start_server(false);
    assert_eq!(request_status(&mut server, "/", RPC_BODY), 200);
}

#[test]
fn request_from_whitelisted_ip_is_accepted() {
    assert_eq!(status_for_whitelist(Some(vec![LOCALHOST])), 200);
}

#[test]
fn request_from_non_whitelisted_ip_is_rejected() {
    // The documented repro: whitelist a foreign address, then call from loopback
    assert_eq!(status_for_whitelist(Some(vec![FOREIGN])), 403);
}

#[test]
fn request_is_accepted_when_no_whitelist_is_configured() {
    assert_eq!(status_for_whitelist(None), 200);
}

#[test]
fn websocket_from_whitelisted_ip_is_accepted() {
    let mut server = whitelisting_server(Some(vec![LOCALHOST]));
    assert_eq!(websocket_call(&mut server), Ok("Hello, World".to_owned()));
}

#[test]
fn websocket_from_non_whitelisted_ip_is_rejected() {
    let mut server = whitelisting_server(Some(vec![FOREIGN]));
    assert_eq!(websocket_call(&mut server), Err(()));
}

#[test]
fn websocket_is_accepted_when_no_whitelist_is_configured() {
    let mut server = whitelisting_server(None);
    assert_eq!(websocket_call(&mut server), Ok("Hello, World".to_owned()));
}

#[test]
fn default_config() {
    let config = Config::default();
    assert_eq!(
        config.bind_to,
        SocketAddr {
            ip: LOCALHOST,
            port: 8000
        }
    );
    assert!(config.enable_websocket);
    assert!(config.ip_whitelist.is_none());
    assert!(config.basic_auth.is_none());
    assert!(config.cors.is_none());
    assert_eq!(BODY_LIMIT, 1024 * 1024);
    assert_eq!(config.route(LOCALHOST, "/other", None), Err(404));
}

#[test]
fn basic_auth_is_asked_for_where_it_is_configured() {
    let config = Config {
        basic_auth: Some(Credentials::new("user", "secret")),
        ..Default::default()
    };
    let route = |header| config.route(IpAddr::V6(1), "/", header);
    assert_eq!(route(None), Err(401));
    assert_eq!(route(Some(("user", "wrong"))), Err(401));
    assert_eq!(route(Some(("other", "secret"))), Err(401));
    assert_eq!(route(Some(("user", "secret"))), Ok(Endpoint::Http));
    assert_eq!(config.route(LOCALHOST, "/nothing", None), Err(404));
    assert_eq!(basic_auth_middleware(&None, None), Access::Granted);
}

#[test]
fn passwords_are_kept_as_blake2b_hashes() {
    // The hash of the empty password.
    let hash: [u8; 32] = [
        0x0e, 0x57, 0x51, 0xc0, 0x26, 0xe5, 0x43, 0xb2, 0xe8, 0xab, 0x2e, 0xb0, 0x60, 0x99, 0xda,
        0xa1, 0xd1, 0xe5, 0xdf, 0x47, 0x77, 0x8f, 0x77, 0x87, 0xfa, 0xab, 0x45, 0xcd, 0xf1, 0x2f,
        0xe3, 0xa8,
    ];
    let credentials = Credentials::new_from_blake2b("user", hash);
    assert!(credentials.verify_blake2b("user", hash).is_ok());
    assert!(credentials.verify_blake2b("user", [0; 32]).is_err());
    assert!(credentials.verify("user", "").is_ok());
    assert!(credentials.verify("user", " ").is_err());
    match credentials.verify("", "") {
        Err(e) => assert_eq!(e.to_text(), "invalid username or password"),
        Ok(_) => panic!("another username was accepted"),
    }
}

#[test]
fn rejections_have_their_status() {
    assert_eq!(
        handle_auth_rejection(&Rejection::Unauthorized(Unauthorized {
            realm: "JSON-RPC".to_owned()
        })),
        RejectionReply {
            status: 401,
            www_authenticate: Some("Basic realm = \"JSON-RPC\"".to_owned())
        }
    );
    assert_eq!(handle_auth_rejection(&Rejection::NotFound).status, 404);
    assert_eq!(handle_auth_rejection(&Rejection::Other).status, 500);
    assert_eq!(basic_auth_filter("r", Some(1)), Ok(1));
    assert_eq!(
        basic_auth_filter::<u8>("r", None),
        Err(Unauthorized {
            realm: "r".to_owned()
        })
    );
}

#[test]
fn cors_origins_override_each_other() {
    let cors = Cors::default();
    assert_eq!(cors.header, "content-type");
    assert_eq!(cors.method, "POST");
    assert_eq!(cors.origins, Origins::Unset);
    let cors = cors.with_any_origin();
    assert_eq!(cors.origins, Origins::Any);
    let cors = cors.with_origins(vec!["https://a.example"]);
    assert_eq!(
        cors.origins,
        Origins::List(vec!["https://a.example".to_owned()])
    );
    assert!(is_valid_origin("https://a.example"));
    assert!(!is_valid_origin("*"));
    assert!(!is_valid_origin("a\nb"));
    assert!(!is_valid_origin("a\u{7f}"));
    assert!(!is_valid_origin("a\0"));
    assert!(is_valid_origin("a\tb"));
    assert!(is_valid_origin("https://\u{e4}.example"));
    assert!(is_valid_origin(""));
    let origin = "https://\u{e4}.example";
    assert_eq!(
        Cors::new().with_origins(vec![origin]).origins,
        Origins::List(vec![origin.to_owned()])
    );
}

#[test]
fn replies_have_the_form_of_the_message() {
    let mut server = server(Config::default());
    assert_eq!(
        ask(&mut server, RPC_BODY).unwrap(),
        r#"{"jsonrpc":"2.0","result":"Hello, World","id":1}"#
    );
    let message = Message::Binary(RPC_BODY.as_bytes().to_vec());
    match answer(&mut server, &message, false).0 {
        Some(Message::Binary(reply)) => assert_eq!(
            reply,
            br#"{"jsonrpc":"2.0","result":"Hello, World","id":1}"#.to_vec()
        ),
        _ => panic!("the reply to binary data is binary data"),
    }
}

#[test]
fn invalid_json_is_answered() {
    let mut server = server(Config::default());
    let expected = r#"{"jsonrpc":"2.0","error":{"code":-32600,"message":"Invalid Request","data":"Received invalid JSON"},"id":null}"#;
    for s in ["{", "1", r#"{"jsonrpc":"2.0"}"#, r#"[1]"#] {
        assert_eq!(ask(&mut server, s).unwrap(), expected);
    }
}

#[test]
fn notifications_are_not_answered() {
    let mut server = server(Config::default());
    let notification =
        r#"{"jsonrpc":"2.0","method":"hello","params":{"greeting":{"name":"World"}}}"#;
    assert_eq!(ask(&mut server, notification), None);
    let reply = http_reply(None);
    assert_eq!(reply.status, 200);
    assert!(reply.body.is_empty());
}

#[test]
fn each_request_of_a_batch_is_answered_once() {
    let mut server = server(Config::default());
    let batch = format!(
        r#"[{RPC_BODY},{{"jsonrpc":"2.0","method":"nope"}},{{"jsonrpc":"2.0","method":"rpc.methods","id":"x"}}]"#
    );
    assert_eq!(
        ask(&mut server, &batch).unwrap(),
        r#"[{"jsonrpc":"2.0","result":"Hello, World","id":1},{"jsonrpc":"2.0","result":["hello","watch","hi"],"id":"x"}]"#
    );
    assert_eq!(ask(&mut server, "[]").unwrap(), "[]");
    let silent = r#"[{"jsonrpc":"2.0","method":"nope"}]"#;
    assert_eq!(ask(&mut server, silent).unwrap(), "[]");
}

#[test]
fn built_in_methods_list_the_methods() {
    let mut server = server(Config::default());
    assert_eq!(
        ask(
            &mut server,
            r#"{"jsonrpc":"2.0","method":"rpc.deprecatedMethods","id":2}"#
        )
        .unwrap(),
        r#"{"jsonrpc":"2.0","result":["hi"],"id":2}"#
    );
    assert_eq!(
        ask(&mut server, r#"{"jsonrpc":"2.0","method":"rpc.methods"}"#),
        None
    );
}

#[test]
fn wrong_arguments_are_answered() {
    let mut server = server(Config::default());
    assert_eq!(
        ask(
            &mut server,
            r#"{"jsonrpc":"2.0","method":"hello","params":{"greeting":1},"id":1}"#
        )
        .unwrap(),
        r#"{"jsonrpc":"2.0","error":{"code":-32602,"message":"Invalid params","data":"no greeting"},"id":1}"#
    );
}

fn unsubscribe(server: &mut TestServer, params: &str, id: &str) -> (Option<String>, Vec<String>) {
    let request = format!(r#"{{"jsonrpc":"2.0","method":"unsubscribe"{params}{id}}}"#);
    let (reply, stopped) = answer(server, &Message::Text(request), true);
    let reply = reply.map(|m| String::from_utf8(m.as_bytes().to_vec()).unwrap());
    (reply, stopped)
}

#[test]
fn subscriptions_are_stopped_once() {
    let mut server = server(Config::default());
    let watch = r#"{"jsonrpc":"2.0","method":"watch","params":[],"id":1}"#;
    assert_eq!(
        ask(&mut server, watch).unwrap(),
        r#"{"jsonrpc":"2.0","result":1,"id":1}"#
    );
    assert_eq!(
        ask(&mut server, watch).unwrap(),
        r#"{"jsonrpc":"2.0","result":2,"id":1}"#
    );
    let (reply, stopped) = unsubscribe(&mut server, r#","params":[2,"x",7,2]"#, r#","id":9"#);
    assert_eq!(reply.unwrap(), r#"{"jsonrpc":"2.0","result":[2],"id":9}"#);
    assert_eq!(stopped, vec!["stream 2"]);
    let (reply, stopped) = unsubscribe(&mut server, r#","params":[2,1]"#, "");
    assert_eq!(reply.unwrap(), r#"{"jsonrpc":"2.0","result":[1],"id":null}"#);
    assert_eq!(stopped, vec!["stream 1"]);
}

#[test]
fn wrong_unsubscribe_requests_are_answered() {
    let mut server = server(Config::default());
    let error = |server: &mut TestServer, params: &str| {
        let (reply, stopped) = unsubscribe(server, params, r#","id":1"#);
        assert!(stopped.is_empty());
        let response = Response::from_slice(reply.unwrap().as_bytes(), MISREAD).unwrap();
        response.error.unwrap()
    };
    assert_eq!(
        error(&mut server, ""),
        RpcError::invalid_request(Some(
            "Missing request parameter containing a list of subscription ids".to_owned()
        ))
    );
    for params in [r#","params":1"#, r#","params":[1.5]"#] {
        assert_eq!(
            error(&mut server, params),
            RpcError::invalid_params(Some(
                "A list of subscription ids is not provided".to_owned()
            ))
        );
    }
    assert_eq!(
        error(&mut server, r#","params":[]"#),
        RpcError::invalid_params(Some("Empty list of subscription ids provided".to_owned()))
    );
    assert_eq!(unsubscribe(&mut server, "", "").0, None);
}

#[test]
fn streams_are_refused_over_http() {
    let mut server = server(Config::default());
    let watch = br#"{"jsonrpc":"2.0","method":"watch","params":[],"id":1}"#;
    let (reply, _) = answer(&mut server, &Message::Binary(watch.to_vec()), false);
    let response = Response::from_slice(reply.unwrap().as_bytes(), MISREAD).unwrap();
    assert_eq!(
        response.error.unwrap().data,
        Some(text("Client does not support streams"))
    );
}

#[test]
fn websocket_messages_are_answered_or_not() {
    let mut session = WebsocketSession::upgrade_to_ws(Some("text"));
    assert_eq!(session.receive(&Message::Ping), Received::Ignore);
    assert_eq!(session.receive(&Message::Pong), Received::Ignore);
    assert_eq!(
        session.receive(&Message::Text("".to_owned())),
        Received::Answer
    );
    assert_eq!(session.receive(&Message::Binary(vec![])), Received::Answer);
    assert!(session.is_open());
    assert_eq!(session.receive(&Message::Close), Received::Close);
    assert!(!session.is_open());
    assert_eq!(
        WebsocketSession::forward(&Message::Close),
        Forwarded::CloseSink
    );
    assert_eq!(
        WebsocketSession::forward(&Message::Binary(vec![])),
        Forwarded::Send
    );
    assert_eq!(requested_frame_type(None), None);
    assert_eq!(requested_frame_type(Some("text")), Some(FrameType::Text));
    assert_eq!(requested_frame_type(Some("binary")), Some(FrameType::Binary));
}

#[test]
fn the_dispatcher_can_be_changed() {
    let mut server: Server<ModularDispatcher<Service>, ()> =
        Server::new(Config::default(), ModularDispatcher::default());
    assert!(server.dispatcher().method_names().is_empty());
    server.dispatcher_mut().add(hello_service());
    assert_eq!(server.dispatcher().method_names().len(), 3);
    let request = Request::new("rpc.methods".to_owned(), None, Some(num(1)));
    match server.handle_single_request(request, false, None).action {
        Action::Reply(Some(response)) => assert_eq!(
            response,
            Response::new_success(
                num(1),
                Json::Array(vec![text("hello"), text("watch"), text("hi")])
            )
        ),
        _ => panic!("expected a response"),
    }
}

#[test]
fn a_single_response_is_no_list() {
    let single = SingleOrBatch::Single(Response::new_success(num(1), num(2)));
    assert_eq!(
        single.to_value().to_text(),
        r#"{"jsonrpc":"2.0","result":2,"id":1}"#
    );
}
