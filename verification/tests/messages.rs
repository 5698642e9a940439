use nimiq_jsonrpc::batch::{RequestOrResponse, SingleOrBatch};
use nimiq_jsonrpc::error::{is_reserved_code, Error, RpcError, JSONRPC_RESERVED_ERROR_CODES};
use nimiq_jsonrpc::json::{Category, Json, JsonError, JsonNumber, JsonObject};
use nimiq_jsonrpc::request::{Request, JSONRPC_VERSION};
use nimiq_jsonrpc::response::Response;
use nimiq_jsonrpc::subscription::{SubscriptionId, SubscriptionMessage};

fn num(n: u64) -> Json {
    Json::Number(JsonNumber::PosInt(n))
}

fn text(s: &str) -> Json {
    Json::String(s.to_owned())
}

fn object(members: Vec<(&str, Json)>) -> Json {
    let mut o = JsonObject::new();
    for (name, value) in members {
        o.insert(name.to_owned(), value);
    }
    Json::Object(o)
}

fn parse(s: &str) -> Json {
    Json::parse(s.as_bytes()).unwrap()
}

/// What a reader finds wrong with a text.
const MISREAD: JsonError = JsonError {
    line: 3,
    column: 14,
    category: Category::Syntax,
};

const DATA: JsonError = JsonError {
    line: 0,
    column: 0,
    category: Category::Data,
};

#[test]
fn json_text_is_read_and_written() {
    let source = r#"{"b":[1,-2,"x\n",null,true,1.5],"a":{}}"#;
    let value = parse(source);
    assert_eq!(value.to_text(), source);
    assert_eq!(value.to_bytes(), source.as_bytes().to_vec());
    match &value {
        Json::Object(o) => {
            assert_eq!(o.len(), 2);
            assert_eq!(o.name_at(0), "b");
            assert_eq!(o.get("a"), Some(&object(vec![])));
            assert_eq!(o.get("c"), None);
        }
        _ => panic!("not an object"),
    }
}

#[test]
fn json_syntax_errors_have_a_place() {
    assert_eq!(
        Json::parse(b"[1,"),
        Err(JsonError {
            line: 1,
            column: 3,
            category: Category::Eof
        })
    );
    assert_eq!(
        Json::parse(b"[1,\n x]"),
        Err(JsonError {
            line: 2,
            column: 2,
            category: Category::Syntax
        })
    );
}

#[test]
fn json_is_read_back_unless_it_is_nested_too_deep() {
    let nested = |depth: usize| {
        let mut value = Json::Null;
        for _ in 0..depth {
            value = Json::Array(vec![value]);
        }
        value
    };
    let deep = nested(127);
    assert_eq!(Json::parse(&deep.to_bytes()), Ok(deep));
    let too_deep = nested(128);
    assert!(matches!(
        Json::parse(&too_deep.to_bytes()),
        Err(JsonError {
            category: Category::Syntax,
            ..
        })
    ));
}

#[test]
fn json_numbers_are_told_apart() {
    assert_eq!(num(7).as_u64(), Some(7));
    assert_eq!(parse("-7").as_u64(), None);
    assert_eq!(parse("-7").as_i64(), Some(-7));
    assert_eq!(parse("1.5").as_i64(), None);
    assert_eq!(parse("18446744073709551615").as_u64(), Some(u64::MAX));
    assert_eq!(parse("18446744073709551615").as_i64(), None);
    assert!(Json::Null.is_null());
    assert!(!num(0).is_null());
}

#[test]
fn json_object_keeps_one_member_per_name() {
    let mut o = JsonObject::new();
    o.insert("a".to_owned(), num(1));
    o.insert("b".to_owned(), num(2));
    o.insert("a".to_owned(), num(3));
    assert_eq!(o.len(), 2);
    assert_eq!(o.get("a"), Some(&num(3)));
    assert_eq!(o.value_at(1), &num(2));
}

#[test]
fn request_has_the_version() {
    let request = Request::new("hello".to_owned(), Some(num(1)), None);
    assert_eq!(request.jsonrpc, "2.0");
    assert_eq!(JSONRPC_VERSION, "2.0");
    assert_eq!(
        request.to_value().unwrap().to_text(),
        r#"{"jsonrpc":"2.0","method":"hello","params":1}"#
    );
}

#[test]
fn request_round_trip() {
    let request = Request::new(
        "hello".to_owned(),
        Some(object(vec![("name", text("World"))])),
        Some(num(5)),
    );
    let bytes = request.to_value().unwrap().to_bytes();
    assert_eq!(Request::from_slice(&bytes, MISREAD), Ok(request));
}

#[test]
fn request_with_null_reads_as_absent() {
    let request = Request::new("hello".to_owned(), Some(Json::Null), Some(Json::Null));
    let bytes = request.to_value().unwrap().to_bytes();
    let read = Request::from_slice(&bytes, MISREAD).unwrap();
    assert_eq!(read.params, None);
    assert_eq!(read.id, None);
}

#[test]
fn request_is_read_from_a_list() {
    let request = Request::from_slice(br#"["2.0","hello",null,7]"#, MISREAD).unwrap();
    assert_eq!(request, Request::new("hello".to_owned(), None, Some(num(7))));
    assert_eq!(
        Request::from_slice(br#"["2.0","hello",null]"#, MISREAD),
        Err(Error::Json(MISREAD))
    );
}

#[test]
fn request_refuses_unknown_missing_and_repeated_members() {
    for s in [
        r#"{"jsonrpc":"2.0","method":"m","extra":1}"#,
        r#"{"jsonrpc":"2.0"}"#,
        r#"{"jsonrpc":"2.0","method":1}"#,
        r#"{"jsonrpc":"2.0","method":"m","method":"m"}"#,
        r#"{"jsonrpc":"2.0","method":"m","id":1,"id":2}"#,
        r#"7"#,
    ] {
        assert_eq!(Request::from_slice(s.as_bytes(), MISREAD), Err(Error::Json(MISREAD)));
    }
    // Inside of the parameters the last of several members counts.
    let read =
        Request::from_slice(br#"{"jsonrpc":"2.0","method":"m","params":{"a":1,"a":2}}"#, MISREAD)
            .unwrap();
    assert_eq!(read.params, Some(object(vec![("a", num(2))])));
    // Commas and brackets in strings are no members.
    let read =
        Request::from_slice(br#"{"jsonrpc":"2.0","method":"a,\"},b[","id":"x,\\"}"#, MISREAD)
            .unwrap();
    assert_eq!(read.method, "a,\"},b[");
}

#[test]
fn request_build_passes_failures_on() {
    let failure = JsonError {
        line: 3,
        column: 4,
        category: Category::Io,
    };
    assert_eq!(
        Request::build("m".to_owned(), Some(Err(failure)), Some(Err(DATA))),
        Err(Error::Json(failure))
    );
    assert_eq!(
        Request::build("m".to_owned(), None, Some(Err(DATA))),
        Err(Error::Json(DATA))
    );
    assert_eq!(
        Request::build("m".to_owned(), Some(Ok(num(1))), Some(Ok(num(2)))),
        Ok(Request::new("m".to_owned(), Some(num(1)), Some(num(2))))
    );
}

#[test]
fn request_verify_checks_version_and_id() {
    let with_id = |id: Option<Json>| Request::new("m".to_owned(), None, id).verify();
    assert_eq!(with_id(Some(num(1))), Ok(()));
    assert_eq!(with_id(Some(parse("-1"))), Ok(()));
    assert_eq!(with_id(Some(text("x"))), Ok(()));
    assert_eq!(
        with_id(Some(parse("1.5"))),
        Err(RpcError::invalid_request(Some(
            "Field 'id' is a number, but should not be fractional: Some(Number(1.5))".to_owned()
        )))
    );
    assert_eq!(
        with_id(Some(Json::Bool(true))),
        Err(RpcError::invalid_request(Some(
            "Invalid type in field 'id': Some(Bool(true))".to_owned()
        )))
    );
    assert_eq!(
        with_id(None),
        Err(RpcError::invalid_request(Some(
            "Invalid type in field 'id': None".to_owned()
        )))
    );
    assert_eq!(
        Request::new("m".to_owned(), None, Some(Json::Null)).verify_showing("nothing"),
        Err(RpcError::invalid_request(Some(
            "Invalid type in field 'id': nothing".to_owned()
        )))
    );
    let mut old = Request::new("m".to_owned(), None, Some(num(1)));
    old.jsonrpc = "1.0".to_owned();
    assert_eq!(
        old.verify(),
        Err(RpcError::invalid_request(Some(
            "Field 'jsonrpc' must be '2.0', but was '1.0'".to_owned()
        )))
    );
}

#[test]
fn response_round_trip() {
    let success = Response::new_success(num(1), text("ok"));
    let bytes = success.to_value().to_bytes();
    assert_eq!(
        String::from_utf8(bytes.clone()).unwrap(),
        r#"{"jsonrpc":"2.0","result":"ok","id":1}"#
    );
    assert_eq!(Response::from_slice(&bytes, MISREAD), Ok(success));

    let error = Response::new_error(Json::Null, RpcError::parse_error(Some("bad".to_owned())));
    let bytes = error.to_value().to_bytes();
    assert_eq!(
        String::from_utf8(bytes.clone()).unwrap(),
        r#"{"jsonrpc":"2.0","error":{"code":-32700,"message":"Parse error","data":"bad"},"id":null}"#
    );
    assert_eq!(Response::from_slice(&bytes, MISREAD), Ok(error));
}

#[test]
fn response_refuses_repeated_members() {
    for s in [
        r#"{"jsonrpc":"2.0","result":1,"id":1,"id":1}"#,
        r#"{"jsonrpc":"2.0","error":{"code":1,"message":"m","code":1},"id":1}"#,
        r#"["2.0",null,{"code":1,"message":"m","code":1},1]"#,
        r#"{"jsonrpc":"2.0","result":1}"#,
        r#"{"jsonrpc":"2.0","error":{"code":1.5,"message":"m"},"id":1}"#,
        r#"{"jsonrpc":"2.0","error":{"code":1,"message":2},"id":1}"#,
    ] {
        assert_eq!(Response::from_slice(s.as_bytes(), MISREAD), Err(Error::Json(MISREAD)));
    }
    let read =
        Response::from_slice(br#"{"jsonrpc":"2.0","result":{"a":1,"a":2},"id":1}"#, MISREAD)
            .unwrap();
    assert_eq!(read.result, Some(object(vec![("a", num(2))])));
}

#[test]
fn response_into_result() {
    assert_eq!(
        Response::new_success(num(1), num(9)).into_result(),
        Ok(num(9))
    );
    let error = RpcError::internal_error(None);
    assert_eq!(
        Response::new_error(num(1), error.clone()).into_result(),
        Err(Error::JsonRpc(error.clone()))
    );
    let mut both = Response::new_success(num(1), num(9));
    both.error = Some(error);
    assert_eq!(both.into_result(), Err(Error::InvalidResponse));
    let read = Response::from_slice(br#"{"jsonrpc":"2.0","result":null,"id":1}"#, MISREAD).unwrap();
    assert_eq!(read.into_result(), Err(Error::InvalidResponse));
}

#[test]
fn response_from_result() {
    assert_eq!(
        Response::from_result(num(1), Ok(Ok(num(2)))),
        Ok(Response::new_success(num(1), num(2)))
    );
    assert_eq!(
        Response::from_result(num(1), Ok(Err(DATA))),
        Err(Error::Json(DATA))
    );
    assert_eq!(
        Response::from_result(num(1), Err(RpcError::from(()))),
        Ok(Response::new_error(num(1), RpcError::internal_error(None)))
    );
}

#[test]
fn error_constructors_have_their_codes() {
    let description = || Some("why".to_owned());
    let codes: Vec<(i64, Option<String>)> = vec![
        RpcError::parse_error(description()),
        RpcError::invalid_request(description()),
        RpcError::method_not_found(description()),
        RpcError::invalid_params(description()),
        RpcError::internal_from_string(description()),
    ]
    .into_iter()
    .map(|e| {
        assert_eq!(e.data, Some(text("why")));
        (e.code, e.message)
    })
    .collect();
    assert_eq!(
        codes,
        vec![
            (-32700, Some("Parse error".to_owned())),
            (-32600, Some("Invalid Request".to_owned())),
            (-32601, Some("Method not found".to_owned())),
            (-32602, Some("Invalid params".to_owned())),
            (-32603, Some("Internal error".to_owned())),
        ]
    );
    assert_eq!(RpcError::default(), RpcError::internal_error(None));
}

#[test]
fn error_text_is_one_line() {
    let mut error = RpcError::internal_error(None);
    assert_eq!(
        error.to_text(),
        "JSON-RPC error: code=-32603: Internal error"
    );
    error.message = None;
    error.code = i64::MIN;
    assert_eq!(error.to_text(), "JSON-RPC error: code=-9223372036854775808");
    error.code = 120;
    assert_eq!(error.to_text(), "JSON-RPC error: code=120");
}

#[test]
fn errors_are_told_to_the_client() {
    let e = Error::JsonRpc(RpcError::invalid_params(None));
    assert_eq!(e.into_rpc_error(), Some(RpcError::invalid_params(None)));
    let e = Error::Json(JsonError {
        line: 1,
        column: 2,
        category: Category::Syntax,
    });
    assert_eq!(
        e.into_rpc_error(),
        Some(RpcError::internal_error(Some(object(vec![
            ("line", num(1)),
            ("column", num(2)),
            ("classify", text("Syntax")),
        ]))))
    );
    assert_eq!(Error::InvalidResponse.into_rpc_error(), None);
    assert_eq!(
        Error::InvalidSubscriptionId(Json::Null).into_rpc_error(),
        Some(RpcError::internal_error(Some(Json::Null)))
    );
}

#[test]
fn subscription_ids() {
    assert_eq!(SubscriptionId::from(7), SubscriptionId::Number(7));
    assert_eq!(
        SubscriptionId::from("x".to_owned()),
        SubscriptionId::String("x".to_owned())
    );
    assert_eq!(SubscriptionId::try_from(num(7)), Ok(SubscriptionId::Number(7)));
    assert_eq!(
        SubscriptionId::try_from(text("7")),
        Ok(SubscriptionId::String("7".to_owned()))
    );
    for bad in [parse("-1"), parse("1.5"), Json::Null] {
        assert_eq!(
            SubscriptionId::try_from(bad.clone()),
            Err(Error::InvalidSubscriptionId(bad))
        );
    }
    assert_eq!(SubscriptionId::Number(1205).to_text(), "1205");
    assert_eq!(SubscriptionId::String("abc".to_owned()).to_text(), "abc");
    assert_eq!(SubscriptionId::Number(3).to_value(), num(3));
}

#[test]
fn subscription_message_round_trip() {
    let message = SubscriptionMessage {
        subscription: SubscriptionId::Number(3),
        result: text("item"),
    };
    let value = message.into_value();
    assert_eq!(value.to_text(), r#"{"subscription":3,"result":"item"}"#);
    let read = SubscriptionMessage::from_value(&value).unwrap();
    assert_eq!(read.subscription, SubscriptionId::Number(3));
    assert_eq!(read.result, text("item"));
    assert_eq!(
        SubscriptionMessage::from_value(&parse(r#"{"subscription":3}"#)),
        Err(Error::Json(DATA))
    );
    let read = SubscriptionMessage::from_value(&parse(r#"{"subscription":"a","result":null,"x":1}"#));
    assert_eq!(read.unwrap().result, Json::Null);
}

#[test]
fn single_requests_and_batches() {
    let single = SingleOrBatch::<Request>::from_slice(br#"{"jsonrpc":"2.0","method":"a"}"#);
    assert_eq!(
        single,
        Ok(SingleOrBatch::Single(Request::new("a".to_owned(), None, None)))
    );
    let batch = SingleOrBatch::<Request>::from_slice(
        br#"[{"jsonrpc":"2.0","method":"a"},["2.0","b",null,1]]"#,
    );
    assert_eq!(
        batch,
        Ok(SingleOrBatch::Batch(vec![
            Request::new("a".to_owned(), None, None),
            Request::new("b".to_owned(), None, Some(num(1))),
        ]))
    );
    assert_eq!(
        SingleOrBatch::<Request>::from_slice(b"[]"),
        Ok(SingleOrBatch::Batch(vec![]))
    );
    for s in [
        r#"[{"jsonrpc":"2.0","method":"a"},1]"#,
        r#"[{"jsonrpc":"2.0","method":"a","method":"a"}]"#,
        r#"{"jsonrpc":"2.0","method":"a","method":"a"}"#,
        r#"null"#,
    ] {
        assert_eq!(
            SingleOrBatch::<Request>::from_slice(s.as_bytes()),
            Err(DATA)
        );
    }
}

#[test]
fn batch_of_responses_is_written_as_a_list() {
    let batch = SingleOrBatch::Batch(vec![
        Response::new_success(num(1), num(2)),
        Response::new_success(num(2), num(3)),
    ]);
    assert_eq!(
        batch.to_value().to_text(),
        r#"[{"jsonrpc":"2.0","result":2,"id":1},{"jsonrpc":"2.0","result":3,"id":2}]"#
    );
}

#[test]
fn batch_of_responses_is_read_back() {
    let success = || Response::new_success(num(1), num(2));
    let failure = || Response::new_error(num(2), RpcError::invalid_params(Some("x".to_owned())));
    let batch = || SingleOrBatch::Batch(vec![success(), failure()]);
    assert_eq!(
        SingleOrBatch::<Response>::from_slice(&batch().to_value().to_bytes()),
        Ok(batch())
    );
    assert_eq!(
        SingleOrBatch::<Response>::from_slice(&success().to_value().to_bytes()),
        Ok(SingleOrBatch::Single(success()))
    );
    assert_eq!(
        SingleOrBatch::<Response>::from_slice(b"[]"),
        Ok(SingleOrBatch::Batch(vec![]))
    );
    // A response can be a list itself, alone and in a list.
    let listed = r#"["2.0",2,null,1]"#;
    assert_eq!(
        SingleOrBatch::<Response>::from_slice(listed.as_bytes()),
        Ok(SingleOrBatch::Single(success()))
    );
    assert_eq!(
        SingleOrBatch::<Response>::from_slice(format!("[{listed},{listed}]").as_bytes()),
        Ok(SingleOrBatch::Batch(vec![success(), success()]))
    );
    // A member that is written twice is refused, also in the error of an item.
    for s in [
        r#"[{"jsonrpc":"2.0","result":1,"id":1},{"jsonrpc":"2.0","result":1,"id":1,"id":1}]"#,
        r#"[{"jsonrpc":"2.0","error":{"code":1,"message":null,"code":1},"id":1}]"#,
        r#"[["2.0",null,{"code":1,"message":null,"code":1},1]]"#,
        r#"{"jsonrpc":"2.0","error":{"code":1,"message":null,"code":1},"id":1}"#,
        r#"[{"jsonrpc":"2.0","method":"m"}]"#,
        r#"[1]"#,
        r#"1"#,
    ] {
        assert_eq!(
            SingleOrBatch::<Response>::from_slice(s.as_bytes()),
            Err(DATA),
            "{s}"
        );
    }
    // In values of any kind the last of several members counts.
    let s = r#"[{"jsonrpc":"2.0","result":{"a":1,"a":2},"id":1},
        {"jsonrpc":"2.0","error":{"code":1,"message":null,"data":{"a":1,"a":2}},"id":2}]"#;
    let value = || object(vec![("a", num(2))]);
    assert_eq!(
        SingleOrBatch::<Response>::from_slice(s.as_bytes()),
        Ok(SingleOrBatch::Batch(vec![
            Response::new_success(num(1), value()),
            Response::new_error(
                num(2),
                RpcError {
                    code: 1,
                    message: None,
                    data: Some(value()),
                }
            ),
        ]))
    );
}

#[test]
fn batch_of_requests_is_written_and_read_back() {
    let request = |id: u64| Request::new("m".to_owned(), None, Some(num(id)));
    let batch = || SingleOrBatch::Batch(vec![request(1), request(2)]);
    assert_eq!(
        batch().to_value().to_text(),
        r#"[{"jsonrpc":"2.0","method":"m","id":1},{"jsonrpc":"2.0","method":"m","id":2}]"#
    );
    assert_eq!(
        SingleOrBatch::<Request>::from_slice(&batch().to_value().to_bytes()),
        Ok(batch())
    );
    let single = SingleOrBatch::Single(request(1));
    assert_eq!(
        single.to_value().to_text(),
        r#"{"jsonrpc":"2.0","method":"m","id":1}"#
    );
}

#[test]
fn errors_have_a_text() {
    let error = Error::JsonRpc(RpcError::invalid_params(None));
    assert_eq!(
        error.to_text().as_deref(),
        Some("The server responded with an error: JSON-RPC error: code=-32602: Invalid params")
    );
    assert_eq!(
        Error::InvalidResponse.to_text().as_deref(),
        Some("Received invalid response")
    );
    assert_eq!(
        Error::InvalidSubscriptionId(Json::Bool(true)).to_text().as_deref(),
        Some("Invalid subscription ID: Bool(true)")
    );
    assert_eq!(
        Error::InvalidSubscriptionId(text("x")).to_text().as_deref(),
        Some("Invalid subscription ID: String(\"x\")")
    );
    assert_eq!(Error::Json(DATA).to_text(), None);
}

#[test]
fn requests_and_responses_are_told_apart() {
    let request = Request::new("m".to_owned(), None, Some(num(1)));
    let response = Response::new_success(num(1), num(2));
    assert_eq!(
        RequestOrResponse::from_str(&request.to_value().unwrap().to_text()),
        Ok(RequestOrResponse::Request(request.clone()))
    );
    assert_eq!(
        RequestOrResponse::from_slice(&response.to_value().to_bytes()),
        Ok(RequestOrResponse::Response(response.clone()))
    );
    assert_eq!(
        RequestOrResponse::from_value(response.to_value()),
        Ok(RequestOrResponse::Response(response))
    );
    assert_eq!(
        RequestOrResponse::from_value(Json::Null),
        Err(Error::Json(DATA))
    );
    assert!(matches!(
        RequestOrResponse::from_str("{"),
        Err(Error::Json(JsonError {
            category: Category::Eof,
            ..
        }))
    ));
}

#[test]
fn reserved_codes_are_a_range() {
    assert_eq!(JSONRPC_RESERVED_ERROR_CODES, (-32768, -32000));
    assert!(is_reserved_code(-32768));
    assert!(is_reserved_code(-32603));
    assert!(is_reserved_code(-32000));
    assert!(!is_reserved_code(-32769));
    assert!(!is_reserved_code(-31999));
    assert!(!is_reserved_code(0));
}

#[test]
fn a_wrong_form_is_told_before_what_follows() {
    let trailing = |column: usize| JsonError {
        line: 1,
        column,
        category: Category::Syntax,
    };
    // The form is wrong, whatever follows.
    for s in [r#"{"a":1}"#, r#"{"a":1} x"#, "1 x", r#"[{"a":1}] ]"#] {
        let d = s.as_bytes();
        assert_eq!(Request::from_slice(d, MISREAD), Err(Error::Json(MISREAD)), "{s}");
        assert_eq!(Response::from_slice(d, MISREAD), Err(Error::Json(MISREAD)), "{s}");
        assert_eq!(SingleOrBatch::<Request>::from_slice(d), Err(DATA), "{s}");
        assert_eq!(RequestOrResponse::from_slice(d), Err(Error::Json(DATA)), "{s}");
    }
    // The form is right, but something follows. Its members are not those of the request.
    let request = r#"{"jsonrpc":"2.0","method":"m"}"#;
    for rest in ["x", ",", r#"{"a":1,"b":2}"#, "]"] {
        let s = format!("{request} {rest}");
        let d = s.as_bytes();
        let e = trailing(request.len() + 2);
        assert_eq!(Request::from_slice(d, MISREAD), Err(Error::Json(MISREAD)), "{s}");
        assert_eq!(SingleOrBatch::<Request>::from_slice(d), Err(e), "{s}");
        assert_eq!(RequestOrResponse::from_slice(d), Err(Error::Json(e)), "{s}");
        assert_eq!(Json::read(d), Ok((parse(request), Some(e))), "{s}");
    }
    let response = r#"{"jsonrpc":"2.0","result":1,"id":1}"#;
    let s = format!("{response}{response}");
    assert_eq!(
        SingleOrBatch::<Response>::from_slice(s.as_bytes()),
        Err(trailing(response.len() + 1))
    );
    assert_eq!(
        Response::from_slice(s.as_bytes(), MISREAD),
        Err(Error::Json(MISREAD))
    );
    // Whitespace may follow.
    assert!(Request::from_slice(format!("{request}\n ").as_bytes(), MISREAD).is_ok());
    // A text that does not begin with a value.
    let e = JsonError {
        line: 1,
        column: 1,
        category: Category::Eof,
    };
    assert_eq!(Json::read(b"{"), Err(e));
    assert_eq!(SingleOrBatch::<Request>::from_slice(b"{"), Err(e));
}
