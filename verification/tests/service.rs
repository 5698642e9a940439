use nimiq_jsonrpc::args::invalid_type;
use nimiq_jsonrpc::derive::{
    Attribute, FnArg, Meta, MetaValue, MethodAttributes, NestedMeta, Param, Pat, RpcMethod,
    Signature, Type,
};
use nimiq_jsonrpc::dispatch::{
    dispatch_method_with_args, dispatch_method_without_args, error_response, method_not_found,
    response, Action, AllowListDispatcher, Dispatcher, EitherCall, EitherDispatcher,
    ModularDispatcher,
};
use nimiq_jsonrpc::error::{Error, RpcError};
use nimiq_jsonrpc::frame::{FrameType, Message};
use nimiq_jsonrpc::json::{Category, Json, JsonError, JsonNumber, JsonObject};
use nimiq_jsonrpc::rename::RenameAll;
use nimiq_jsonrpc::request::Request;
use nimiq_jsonrpc::response::Response;
use nimiq_jsonrpc::service::{
    log_deprecated, proxy_macro, service_macro, Method, MethodCall, Returned, Service,
};
use nimiq_jsonrpc::stream::{connect_stream, StreamAction, StreamEvent};
use nimiq_jsonrpc::subscription::SubscriptionId;

fn num(n: u64) -> Json {
    Json::Number(JsonNumber::PosInt(n))
}

fn text(s: &str) -> Json {
    Json::String(s.to_owned())
}

fn object(members: Vec<(&str, Json)>) -> Json {
    let mut o = JsonObject::new();
    for (name, value) in members {
        o.insert(name.to_owned(), value);
    }
    Json::Object(o)
}

fn arg(name: &str, ty: &str) -> FnArg {
    FnArg::Typed(
        Pat::Ident(name.to_owned()),
        Type {
            text: ty.to_owned(),
            optional: ty.starts_with("Option<"),
        },
    )
}

fn method(name: &str, args: Vec<FnArg>, attrs: Vec<Attribute>) -> Method {
    let mut inputs = vec![FnArg::Receiver];
    inputs.extend(args);
    Method {
        sig: Signature {
            ident: name.to_owned(),
            inputs,
            output: "-> Result<u32, RpcError>".to_owned(),
        },
        attrs,
    }
}

fn deprecated(meta: Meta) -> Attribute {
    Attribute {
        path: "deprecated".to_owned(),
        meta,
    }
}

fn stream_attr() -> Attribute {
    Attribute {
        path: "stream".to_owned(),
        meta: Meta::Path,
    }
}

fn service(name: &str, rename_all: Option<&str>, methods: Vec<Method>) -> Service {
    Service::new(name, &rename_all.map(|r| r.to_owned()), methods).0
}

/// Calls a method of one of the services below.
fn perform(call: MethodCall) -> Option<Response> {
    let numbers: Vec<Option<u64>> = call
        .args
        .iter()
        .map(|a| a.as_ref().and_then(|v| v.as_u64()))
        .collect();
    let misfits = call
        .order
        .iter()
        .map(|&i| match numbers[i] {
            Some(_) => None,
            None => Some(format!("argument {i} is not a number")),
        })
        .collect();
    let call = match call.check(misfits) {
        Ok(call) => call,
        Err(reply) => return reply,
    };
    let result = match call.method.as_str() {
        "add_numbers" => Ok(num(numbers[0].unwrap() + numbers[1].unwrap())),
        "current_method" | "old_method" => Ok(num(numbers[0].unwrap() + 1)),
        "other_old_method" => Ok(Json::Null),
        _ => Err(RpcError::from(())),
    };
    call.finish::<()>(result.map(Returned::Value))
        .map(|(response, _)| response)
}

/// Dispatches a request and returns the response and the warnings.
fn run(service: &Service, request: Request) -> (Option<Response>, Vec<String>) {
    let dispatched = service.dispatch(request, false, 0, None);
    let response = match dispatched.action {
        Action::Reply(response) => response,
        Action::Call(call) => perform(call),
    };
    (response, dispatched.warnings)
}

fn test_service() -> Service {
    service(
        "TestService",
        Some("camelCase"),
        vec![
            method("current_method", vec![arg("value", "u32")], vec![]),
            method(
                "old_method",
                vec![arg("value", "u32")],
                vec![deprecated(Meta::NameValue(MetaValue::Text(
                    "use current_method instead".to_owned(),
                )))],
            ),
            method("other_old_method", vec![], vec![deprecated(Meta::Path)]),
        ],
    )
}

fn calculator(rename_all: &str) -> Service {
    service(
        "CalculatorService",
        Some(rename_all),
        vec![method(
            "add_numbers",
            vec![arg("first_operand", "u32"), arg("second_operand", "u32")],
            vec![],
        )],
    )
}

fn dispatch(service: &Service, method: &str, params: Json) -> (Response, Vec<String>) {
    let request = Request::new(method.to_owned(), Some(params), Some(num(1)));
    let (response, warnings) = run(service, request);
    (
        response.expect("expected a response for a request carrying an id"),
        warnings,
    )
}

#[test]
fn it_reports_deprecated_methods() {
    let service = test_service();

    // All methods are listed (renamed to camelCase).
    let mut methods = service.method_names();
    methods.sort();
    assert_eq!(
        methods,
        vec!["currentMethod", "oldMethod", "otherOldMethod"]
    );

    // Only the `#[deprecated]` ones show up here.
    let mut deprecated = service.deprecated_methods();
    deprecated.sort();
    assert_eq!(deprecated, vec!["oldMethod", "otherOldMethod"]);
}

#[test]
fn deprecated_methods_still_dispatch() {
    let service = test_service();

    let request = Request::new(
        "oldMethod".to_owned(),
        Some(object(vec![("value", num(41))])),
        Some(num(1)),
    );

    let (response, warnings) = run(&service, request);
    let response = response.expect("expected a response");

    assert_eq!(response.result, Some(num(42)));
    assert!(response.error.is_none());
    assert_eq!(
        warnings,
        vec!["RPC method 'oldMethod' is deprecated: use current_method instead"]
    );
}

#[test]
fn a_deprecation_without_note_is_logged_too() {
    let (response, warnings) = dispatch(&test_service(), "otherOldMethod", object(vec![]));
    assert_eq!(response.result, Some(Json::Null));
    assert_eq!(warnings, vec!["RPC method 'otherOldMethod' is deprecated"]);
    assert_eq!(log_deprecated("m", Some("n")), "RPC method 'm' is deprecated: n");
}

#[test]
fn legacy_param_name_emits_a_single_warning() {
    let service = calculator("camelCase");

    // New name: must NOT warn.
    let (response, warnings) = dispatch(
        &service,
        "addNumbers",
        object(vec![("firstOperand", num(2)), ("secondOperand", num(3))]),
    );
    assert!(response.error.is_none(), "{:?}", response.error);
    assert_eq!(response.result, Some(num(5)));
    assert!(
        warnings.is_empty(),
        "the renamed (current) parameter names must not trigger a deprecation warning"
    );

    // Legacy (aliased) name: must warn exactly once, and still succeed.
    let (response, warnings) = dispatch(
        &service,
        "addNumbers",
        object(vec![("first_operand", num(2)), ("second_operand", num(3))]),
    );
    assert!(response.error.is_none(), "{:?}", response.error);
    assert_eq!(response.result, Some(num(5)));
    assert_eq!(
        warnings.len(),
        1,
        "expected exactly one deprecation warning, got: {warnings:?}"
    );
    assert!(
        warnings[0].contains("addNumbers") && warnings[0].contains("deprecated"),
        "warning should name the method and mention deprecation, got: {}",
        warnings[0]
    );

    // A single legacy name among otherwise-current names still warns once.
    let (response, warnings) = dispatch(
        &service,
        "addNumbers",
        object(vec![("first_operand", num(2)), ("secondOperand", num(3))]),
    );
    assert!(response.error.is_none(), "{:?}", response.error);
    assert_eq!(warnings.len(), 1);
}

#[test]
fn method_name_is_renamed_to_camel_case() {
    // `add_numbers` -> `addNumbers`; the snake_case name is gone.
    assert!(calculator("camelCase").match_method("addNumbers"));
    assert!(!calculator("camelCase").match_method("add_numbers"));
}

#[test]
fn camel_case_param_names_are_accepted_on_the_wire() {
    let (response, _) = dispatch(
        &calculator("camelCase"),
        "addNumbers",
        object(vec![("firstOperand", num(2)), ("secondOperand", num(3))]),
    );

    assert!(
        response.error.is_none(),
        "camelCase params should deserialize, got error: {:?}",
        response.error
    );
    assert_eq!(response.result, Some(num(5)));
}

#[test]
fn original_snake_case_param_names_are_still_accepted() {
    let (response, _) = dispatch(
        &calculator("camelCase"),
        "addNumbers",
        object(vec![("first_operand", num(2)), ("second_operand", num(3))]),
    );

    assert!(
        response.error.is_none(),
        "snake_case aliases should still deserialize, got error: {:?}",
        response.error
    );
    assert_eq!(response.result, Some(num(5)));
}

#[test]
fn sending_both_spellings_is_rejected_as_duplicate() {
    // Supplying a field under both its rename and its alias is a duplicate, not
    // a silent merge.
    let (response, _) = dispatch(
        &calculator("camelCase"),
        "addNumbers",
        object(vec![
            ("firstOperand", num(2)),
            ("first_operand", num(2)),
            ("secondOperand", num(3)),
        ]),
    );

    let error = response
        .error
        .expect("supplying a field under both its rename and its alias is invalid");
    // -32602 == invalid params.
    assert_eq!(error.code, -32602);
    assert_eq!(error.data, Some(text("duplicate field `firstOperand`")));
}

#[test]
fn kebab_case_compiles_and_accepts_both_spellings() {
    let service = calculator("kebab-case");

    // `add_numbers` -> `add-numbers`.
    assert!(service.match_method("add-numbers"));

    // The kebab wire name.
    let (renamed, _) = dispatch(
        &service,
        "add-numbers",
        object(vec![("first-operand", num(2)), ("second-operand", num(3))]),
    );
    assert!(
        renamed.error.is_none(),
        "kebab params should deserialize, got error: {:?}",
        renamed.error
    );
    assert_eq!(renamed.result, Some(num(5)));

    // The snake_case alias.
    let (aliased, _) = dispatch(
        &service,
        "add-numbers",
        object(vec![("first_operand", num(2)), ("second_operand", num(3))]),
    );
    assert!(
        aliased.error.is_none(),
        "snake_case alias should still deserialize, got error: {:?}",
        aliased.error
    );
    assert_eq!(aliased.result, Some(num(5)));
}

#[test]
fn snake_case_identity_emits_no_alias() {
    let service = calculator("snake_case");
    let (response, warnings) = dispatch(
        &service,
        "add_numbers",
        object(vec![("first_operand", num(2)), ("second_operand", num(3))]),
    );
    assert!(response.error.is_none(), "{:?}", response.error);
    assert_eq!(response.result, Some(num(5)));
    assert!(warnings.is_empty());
    for args in &service.generate().args_structs {
        for field in &args.fields {
            assert_eq!(field.rename, None);
            assert_eq!(field.alias, None);
        }
    }
}

fn refusal(params: Json) -> Option<Json> {
    let (response, _) = dispatch(&calculator("camelCase"), "addNumbers", params);
    let error = response.error.expect("expected an error");
    assert_eq!(error.code, -32602);
    error.data
}

#[test]
fn parameters_that_do_not_fit_are_refused() {
    let name = "struct ServiceArgs_CalculatorService_add_numbers";
    let expected = |s: &str| Some(text(s));
    assert_eq!(
        refusal(object(vec![("secondOperand", num(3))])),
        expected("missing field `firstOperand`")
    );
    assert_eq!(
        refusal(Json::Array(vec![num(1)])),
        Some(text(&format!("invalid length 1, expected {name} with 2 elements")))
    );
    assert_eq!(
        refusal(Json::Array(vec![num(1), num(2), num(3)])),
        expected("invalid length 3, expected fewer elements in array")
    );
    let kind = |v: Json| match refusal(v) {
        Some(Json::String(s)) => s
            .strip_suffix(&format!(", expected {name}"))
            .map(|s| s.to_owned()),
        _ => None,
    };
    assert_eq!(kind(num(12)).as_deref(), Some("invalid type: integer `12`"));
    assert_eq!(
        kind(Json::Number(JsonNumber::NegInt(-12))).as_deref(),
        Some("invalid type: integer `-12`")
    );
    assert_eq!(
        kind(Json::parse(b"1.5").unwrap()).as_deref(),
        Some("invalid type: floating point `1.5`")
    );
    assert_eq!(kind(Json::Bool(true)).as_deref(), Some("invalid type: boolean `true`"));
    assert_eq!(kind(Json::Bool(false)).as_deref(), Some("invalid type: boolean `false`"));
    assert_eq!(
        kind(text("a\"b")).as_deref(),
        Some("invalid type: string \"a\\\"b\"")
    );
    assert_eq!(kind(Json::Null).as_deref(), Some("invalid type: null"));
}

#[test]
fn one_argument_is_one_element() {
    let (response, _) = dispatch(&test_service(), "currentMethod", Json::Array(vec![]));
    assert_eq!(
        response.error.unwrap().data,
        Some(text(
            "invalid length 0, expected struct ServiceArgs_TestService_current_method with 1 element"
        ))
    );
}

#[test]
fn parameters_can_be_a_list() {
    let (response, _) = dispatch(
        &calculator("camelCase"),
        "addNumbers",
        Json::Array(vec![num(2), num(3)]),
    );
    assert_eq!(response.result, Some(num(5)));
}

#[test]
fn unknown_parameters_are_ignored_and_optional_ones_may_be_missing() {
    let service = service(
        "S",
        None,
        vec![method(
            "m",
            vec![arg("a", "u32"), arg("b", "Option<u32>")],
            vec![],
        )],
    );
    let request = Request::new(
        "m".to_owned(),
        Some(object(vec![("x", num(9)), ("a", num(1))])),
        None,
    );
    match service.dispatch(request, true, 5, None).action {
        Action::Call(call) => {
            assert_eq!(call.args, vec![Some(num(1)), None]);
            assert_eq!(call.id, None);
            assert!(call.stream.is_none());
            // A notification is not answered.
            assert!(call.finish::<()>(Ok(Returned::Value(num(1)))).is_none());
        }
        Action::Reply(_) => panic!("expected a call"),
    }
}

#[test]
fn missing_parameters_are_refused() {
    let request = Request::new("addNumbers".to_owned(), None, Some(num(1)));
    let (response, _) = run(&calculator("camelCase"), request);
    assert_eq!(
        response,
        Some(Response::new_error(
            num(1),
            RpcError::invalid_params(Some("Missing request parameters.".to_owned()))
        ))
    );
}

#[test]
fn unknown_methods_are_not_found() {
    let request = Request::new("nope".to_owned(), None, Some(num(1)));
    let expected = Response::new_error(
        num(1),
        RpcError::method_not_found(Some("Method does not exist: nope".to_owned())),
    );
    assert_eq!(
        run(&calculator("camelCase"), request.clone()).0,
        Some(expected.clone())
    );
    assert_eq!(method_not_found(request), Some(expected));
    let notification = Request::new("nope".to_owned(), None, None);
    assert_eq!(method_not_found(notification), None);
}

#[test]
fn arguments_of_the_wrong_type_are_refused_by_the_caller() {
    let request = Request::new(
        "currentMethod".to_owned(),
        Some(object(vec![("value", text("x"))])),
        Some(num(1)),
    );
    match test_service().dispatch(request, false, 0, None).action {
        Action::Call(call) => {
            assert_eq!(call.order, vec![0]);
            assert_eq!(call.fault, None);
            assert_eq!(
                call.check(vec![Some("not a number".to_owned())]).err(),
                Some(Some(Response::new_error(
                    num(1),
                    RpcError::invalid_params(Some("not a number".to_owned()))
                )))
            );
        }
        Action::Reply(_) => panic!("expected a call"),
    }
}

#[test]
fn the_first_argument_that_does_not_fit_is_named() {
    let expected = |s: &str| Some(text(s));
    // A value of the wrong type comes before a field that is missing.
    assert_eq!(
        refusal(object(vec![("firstOperand", text("x"))])),
        expected("argument 0 is not a number")
    );
    assert_eq!(
        refusal(object(vec![("secondOperand", text("x"))])),
        expected("argument 1 is not a number")
    );
    // It comes before a field that is given again only where it is read before.
    assert_eq!(
        refusal(object(vec![
            ("firstOperand", text("x")),
            ("first_operand", num(1)),
            ("secondOperand", num(2)),
        ])),
        expected("argument 0 is not a number")
    );
    assert_eq!(
        refusal(object(vec![
            ("firstOperand", num(1)),
            ("first_operand", num(1)),
            ("secondOperand", text("x")),
        ])),
        expected("duplicate field `firstOperand`")
    );
    // It comes before a list that is too short or too long.
    assert_eq!(
        refusal(Json::Array(vec![text("x")])),
        expected("argument 0 is not a number")
    );
    assert_eq!(
        refusal(Json::Array(vec![num(1), text("x"), num(3)])),
        expected("argument 1 is not a number")
    );
    // An item for which there is no field is not read.
    assert_eq!(
        refusal(Json::Array(vec![num(1), num(2), text("x")])),
        expected("invalid length 3, expected fewer elements in array")
    );
}

#[test]
fn arguments_are_read_in_the_order_of_the_members() {
    let args = &calculator("camelCase").generate().args_structs[0];
    let bound = args.bind(&object(vec![
        ("first_operand", num(1)),
        ("other", num(2)),
        ("secondOperand", num(3)),
    ]));
    assert_eq!(bound.args, vec![Some(num(1)), Some(num(3))]);
    assert_eq!(bound.order, vec![0, 1]);
    assert_eq!(bound.fault, None);
    let bound = args.bind(&Json::Array(vec![num(1)]));
    assert_eq!(bound.args, vec![Some(num(1)), None]);
    assert_eq!(bound.order, vec![0]);
    assert!(bound.fault.is_some());
    let bound = args.bind(&Json::Null);
    assert_eq!(bound.args, vec![None, None]);
    assert!(bound.order.is_empty());
    assert!(bound.fault.is_some());
}

fn stream_service() -> Service {
    service(
        "S",
        Some("camelCase"),
        vec![method("watch_it", vec![], vec![stream_attr()])],
    )
}

#[test]
fn streams_need_a_client_that_can_be_notified() {
    let request = Request::new("watchIt".to_owned(), Some(object(vec![])), Some(num(1)));
    match stream_service().dispatch(request, false, 0, None).action {
        Action::Reply(response) => assert_eq!(
            response,
            Some(Response::new_error(
                num(1),
                RpcError::internal_from_string(Some("Client does not support streams".to_owned()))
            ))
        ),
        Action::Call(_) => panic!("expected a reply"),
    }
}

#[test]
fn stream_items_are_sent_until_the_stream_stops() {
    let request = Request::new("watchIt".to_owned(), Some(object(vec![])), Some(num(1)));
    let mut call = match stream_service()
        .dispatch(request, true, 17, Some(FrameType::Text))
        .action
    {
        Action::Call(call) => call,
        Action::Reply(_) => panic!("expected a call"),
    };
    let mut forwarder = call.forwarder.take().unwrap();
    assert_eq!(call.stream, Some(SubscriptionId::Number(17)));
    assert_eq!(
        forwarder.step(StreamEvent::Item(Ok(num(42)))),
        StreamAction::Send(Message::Text(
            r#"{"jsonrpc":"2.0","method":"watchIt","params":{"subscription":17,"result":42}}"#
                .to_owned()
        ))
    );
    assert_eq!(forwarder.step(StreamEvent::Unsubscribed), StreamAction::Stop);
    assert_eq!(
        forwarder.step(StreamEvent::Item(Ok(num(43)))),
        StreamAction::Stop
    );
}

#[test]
fn stream_items_that_cannot_be_written_are_passed_over() {
    let failure = JsonError {
        line: 0,
        column: 0,
        category: Category::Io,
    };
    let (id, mut forwarder) = connect_stream(3, "m".to_owned(), None);
    assert_eq!(id, SubscriptionId::Number(3));
    assert_eq!(
        forwarder.step(StreamEvent::Item(Err(failure))),
        StreamAction::Log(Error::Json(failure))
    );
    let sent = br#"{"jsonrpc":"2.0","method":"m","params":{"subscription":3,"result":1}}"#;
    assert_eq!(
        forwarder.step(StreamEvent::Item(Ok(num(1)))),
        StreamAction::Send(Message::Binary(sent.to_vec()))
    );
    assert_eq!(forwarder.step(StreamEvent::QueueClosed), StreamAction::Stop);
    assert_eq!(
        forwarder.step(StreamEvent::Item(Ok(num(2)))),
        StreamAction::Stop
    );
    let (_, mut forwarder) = connect_stream(4, "m".to_owned(), Some(FrameType::Binary));
    assert_eq!(forwarder.step(StreamEvent::Ended), StreamAction::Stop);
}

#[test]
fn a_stream_is_told_of_by_its_id() {
    let request = Request::new("watchIt".to_owned(), Some(object(vec![])), Some(num(1)));
    match stream_service().dispatch(request, true, 17, None).action {
        Action::Call(call) => {
            let (response, handle) = call.finish(Ok(Returned::Stream("handle"))).unwrap();
            assert_eq!(response, Response::new_success(num(1), num(17)));
            assert_eq!(handle, Some("handle"));
        }
        Action::Reply(_) => panic!("expected a call"),
    }
}

#[test]
fn modular_dispatcher_takes_the_first_match() {
    let mut modular = ModularDispatcher::new();
    modular.add(calculator("camelCase"));
    modular.add(test_service());
    assert!(modular.match_method("addNumbers"));
    assert!(modular.match_method("oldMethod"));
    assert!(!modular.match_method("anything"));
    assert_eq!(
        modular.method_names(),
        vec!["addNumbers", "currentMethod", "oldMethod", "otherOldMethod"]
    );
    assert_eq!(
        modular.deprecated_methods(),
        vec!["oldMethod", "otherOldMethod"]
    );
    let request = Request::new(
        "currentMethod".to_owned(),
        Some(object(vec![("value", num(1))])),
        Some(num(1)),
    );
    match modular.dispatch(request, false, 0, None).action {
        Action::Call((which, call)) => {
            assert_eq!(which, 1);
            assert_eq!(call.method, "current_method");
        }
        Action::Reply(_) => panic!("expected a call"),
    }
    let request = Request::new("nope".to_owned(), None, Some(num(1)));
    assert!(matches!(
        modular.dispatch(request, false, 0, None).action,
        Action::Reply(Some(Response { error: Some(RpcError { code: -32601, .. }), .. }))
    ));
}

#[test]
fn allow_list_hides_other_methods() {
    let dispatcher =
        AllowListDispatcher::new(test_service(), Some(vec!["currentMethod".to_owned()]));
    assert!(dispatcher.match_method("currentMethod"));
    assert!(!dispatcher.match_method("oldMethod"));
    assert_eq!(dispatcher.method_names(), vec!["currentMethod"]);
    assert!(dispatcher.deprecated_methods().is_empty());
    let request = Request::new(
        "oldMethod".to_owned(),
        Some(object(vec![("value", num(1))])),
        Some(num(1)),
    );
    match dispatcher.dispatch(request, false, 0, None).action {
        Action::Reply(response) => assert_eq!(
            response,
            Some(Response::new_error(
                num(1),
                RpcError::method_not_found(Some("Method does not exist: oldMethod".to_owned()))
            ))
        ),
        Action::Call(_) => panic!("expected a reply"),
    }
    let open = AllowListDispatcher::new(test_service(), None);
    assert_eq!(open.method_names().len(), 3);
    assert!(open.match_method("oldMethod"));
    assert!(!open.match_method("nope"));
    let listed = AllowListDispatcher::new(test_service(), Some(vec!["nope".to_owned()]));
    assert!(!listed.match_method("nope"));
}

#[test]
fn a_composition_without_methods_matches_nothing() {
    assert!(!ModularDispatcher::<Service>::default().match_method("foo"));
    assert!(ModularDispatcher::<Service>::new().method_names().is_empty());
}

#[test]
fn a_composition_leaves_other_methods_to_the_dispatchers_behind_it() {
    let mut first = ModularDispatcher::new();
    first.add(calculator("camelCase"));
    let mut second = ModularDispatcher::new();
    second.add(test_service());
    let mut modular = ModularDispatcher::new();
    modular.add(first);
    modular.add(second);
    assert!(modular.match_method("currentMethod"));
    let request = Request::new(
        "currentMethod".to_owned(),
        Some(object(vec![("value", num(1))])),
        Some(num(1)),
    );
    match modular.dispatch(request, false, 0, None).action {
        Action::Call((outer, (inner, call))) => {
            assert_eq!((outer, inner), (1, 0));
            assert_eq!(perform(call), Some(Response::new_success(num(1), num(2))));
        }
        Action::Reply(_) => panic!("expected a call"),
    }
}

#[test]
fn dispatchers_of_two_kinds_can_be_composed() {
    let mut modular = ModularDispatcher::new();
    modular.add(EitherDispatcher::First(AllowListDispatcher::new(
        test_service(),
        Some(vec!["oldMethod".to_owned()]),
    )));
    modular.add(EitherDispatcher::Second(calculator("camelCase")));
    assert_eq!(modular.method_names(), vec!["oldMethod", "addNumbers"]);
    assert_eq!(modular.deprecated_methods(), vec!["oldMethod"]);
    assert!(modular.match_method("addNumbers"));
    assert!(!modular.match_method("currentMethod"));
    let ask = |method: &str, params: Json| {
        let request = Request::new(method.to_owned(), Some(params), Some(num(1)));
        modular.dispatch(request, false, 0, None)
    };
    let dispatched = ask("addNumbers", Json::Array(vec![num(2), num(3)]));
    match dispatched.action {
        Action::Call((1, EitherCall::Second(call))) => {
            assert_eq!(perform(call), Some(Response::new_success(num(1), num(5))));
        }
        _ => panic!("expected a call"),
    }
    let dispatched = ask("oldMethod", Json::Array(vec![num(2)]));
    assert_eq!(dispatched.warnings.len(), 1);
    match dispatched.action {
        Action::Call((0, EitherCall::First(call))) => {
            assert_eq!(perform(call), Some(Response::new_success(num(1), num(3))));
        }
        _ => panic!("expected a call"),
    }
}

#[test]
fn methods_without_arguments_expect_none() {
    let ask = |params: Option<Json>, result: Result<(Json, Option<u8>), RpcError>| {
        dispatch_method_without_args(Request::new("m".to_owned(), params, Some(num(1))), result)
    };
    for params in [
        None,
        Some(Json::Null),
        Some(Json::Array(vec![])),
        Some(object(vec![])),
    ] {
        assert_eq!(
            ask(params, Ok((num(2), Some(9)))),
            Some((Response::new_success(num(1), num(2)), Some(9)))
        );
    }
    assert_eq!(
        ask(Some(num(0)), Ok((num(2), Some(9)))),
        Some((
            Response::new_error(
                num(1),
                RpcError::invalid_params(Some("Didn't expect any request parameters".to_owned()))
            ),
            None
        ))
    );
    assert_eq!(
        ask(None, Err(RpcError::from(()))),
        Some((Response::new_error(num(1), RpcError::from(())), None))
    );
}

#[test]
fn responses_are_made_for_requests_only() {
    assert_eq!(response::<u8>(None, Ok((num(1), Some(3)))), None);
    assert_eq!(
        response(Some(num(1)), Ok((num(2), Some(3)))),
        Some((Response::new_success(num(1), num(2)), Some(3)))
    );
    assert_eq!(
        error_response(Some(num(1)), || RpcError::parse_error(None)),
        Some(Response::new_error(num(1), RpcError::parse_error(None)))
    );
    assert_eq!(
        error_response(None, || panic!("the error is not made")),
        None
    );
}

#[test]
fn parameters_are_decoded_before_the_call() {
    let decode = |v: Json| v.as_u64().ok_or("no number".to_owned());
    let request = |params| Request::new("m".to_owned(), params, Some(num(1)));
    assert_eq!(
        dispatch_method_with_args(request(Some(num(7))), decode),
        Action::Call((Some(num(1)), 7))
    );
    assert_eq!(
        dispatch_method_with_args(request(Some(text("x"))), decode),
        Action::Reply(Some(Response::new_error(
            num(1),
            RpcError::invalid_params(Some("no number".to_owned()))
        )))
    );
    assert_eq!(
        dispatch_method_with_args(request(None), decode),
        Action::Reply(Some(Response::new_error(
            num(1),
            RpcError::invalid_params(Some("Missing request parameters.".to_owned()))
        )))
    );
}

#[test]
fn names_are_renamed() {
    let renamed: Vec<String> = [
        "CamelCase",
        "kebab-case",
        "mixedCase",
        "camelCase",
        "SHOUTY_SNAKE_CASE",
        "snake_case",
    ]
    .iter()
    .map(|case| RenameAll::from_str(case).unwrap().rename("getBlock_by_hash"))
    .collect();
    assert_eq!(
        renamed,
        vec![
            "GetBlockByHash",
            "get-block-by-hash",
            "getBlockByHash",
            "getBlockByHash",
            "GET_BLOCK_BY_HASH",
            "get_block_by_hash"
        ]
    );
    assert!(RenameAll::is_case_name("kebab-case"));
    assert!(!RenameAll::is_case_name("PascalCase"));
    assert!(!RenameAll::is_case_name(""));
}

#[test]
fn stream_attributes_are_taken_out_and_deprecations_stay() {
    let other = Attribute {
        path: "doc".to_owned(),
        meta: Meta::NameValue(MetaValue::Other),
    };
    let mut attrs = vec![
        stream_attr(),
        other,
        deprecated(Meta::List(vec![
            NestedMeta {
                name: "since".to_owned(),
                value: Some(MetaValue::Text("1.0".to_owned())),
            },
            NestedMeta {
                name: "note".to_owned(),
                value: Some(MetaValue::Text("gone".to_owned())),
            },
        ])),
    ];
    let parsed = MethodAttributes::parse(&mut attrs);
    assert!(parsed.stream.is_some());
    assert_eq!(parsed.deprecated.unwrap().note, Some("gone".to_owned()));
    let left: Vec<&str> = attrs.iter().map(|a| a.path.as_str()).collect();
    assert_eq!(left, vec!["doc", "deprecated"]);

    let mut attrs = vec![deprecated(Meta::NameValue(MetaValue::Other))];
    let parsed = MethodAttributes::parse(&mut attrs);
    assert!(parsed.stream.is_none());
    assert_eq!(parsed.deprecated.unwrap().note, None);
}

#[test]
fn generated_items_of_a_method() {
    let Method { sig, mut attrs } = method(
        "add_numbers",
        vec![arg("first_operand", "u32"), arg("b", "u8")],
        vec![stream_attr(), deprecated(Meta::Path)],
    );
    let method = RpcMethod::new(&sig, "ServiceArgs_X", &mut attrs, &Some(RenameAll::Mixed));
    assert_eq!(attrs.len(), 1);
    assert!(method.is_deprecated());
    assert_eq!(method.method_name(), "addNumbers");
    assert_eq!(method.generate_dispatcher_method_matcher(), "addNumbers");
    assert_eq!(
        method.generate_deprecation_warning(),
        Some(("addNumbers".to_owned(), None))
    );
    let args = method.generate_args_struct();
    assert_eq!(args.ident, "ServiceArgs_X_add_numbers");
    assert_eq!(args.fields[0].rename, Some("firstOperand".to_owned()));
    assert_eq!(args.fields[0].alias, Some("first_operand".to_owned()));
    assert_eq!(args.fields[1].rename, None);
    let arm = method.generate_dispatcher_match_arm();
    assert_eq!(arm.name, "addNumbers");
    assert_eq!(arm.method, "add_numbers");
    assert_eq!(arm.args, vec!["first_operand", "b"]);
    assert!(arm.stream);
    let proxy = method.generate_proxy_method();
    assert_eq!(proxy.method, "add_numbers");
    assert_eq!(proxy.name, "addNumbers");
    assert_eq!(
        proxy.args,
        vec![
            ("first_operand".to_owned(), "u32".to_owned()),
            ("b".to_owned(), "u8".to_owned())
        ]
    );
    assert_eq!(proxy.output, "-> Result<u32, RpcError>");
    assert!(proxy.stream);
}

#[test]
fn renamed_arguments_keep_their_name_as_alias() {
    let param = |wire: &str| Param {
        ident: "a_b".to_owned(),
        ty: "u8".to_owned(),
        optional: true,
        wire: wire.to_owned(),
    };
    let field = param("aB").args_field();
    assert_eq!(field.rename, Some("aB".to_owned()));
    assert_eq!(field.alias, Some("a_b".to_owned()));
    assert_eq!(field.wire(), "aB");
    assert!(field.optional);
    let field = param("a_b").args_field();
    assert_eq!(field.rename, None);
    assert_eq!(field.alias, None);
    assert_eq!(field.wire(), "a_b");
    assert_eq!(
        invalid_type("null", "S"),
        "invalid type: null, expected struct S"
    );
}

#[test]
fn generated_service_and_proxy() {
    let methods = || {
        vec![
            method("one", vec![], vec![]),
            method("two", vec![], vec![stream_attr(), deprecated(Meta::Path)]),
        ]
    };
    let (service, rest) = service_macro("S", &Some("SHOUTY_SNAKE_CASE".to_owned()), methods());
    assert_eq!(service.method_names, vec!["ONE", "TWO"]);
    assert_eq!(service.name_match_arms, vec!["ONE", "TWO"]);
    assert_eq!(service.deprecated_methods, vec!["TWO"]);
    assert_eq!(service.match_arms.len(), 2);
    assert_eq!(service.args_structs[1].ident, "ServiceArgs_S_two");
    assert_eq!(rest[1].attrs.len(), 1);

    let (proxy, rest) = proxy_macro("Hello", &None, methods());
    assert_eq!(proxy.struct_ident, "HelloProxy");
    assert_eq!(proxy.args_structs[0].ident, "ProxyArgs_Hello_one");
    assert_eq!(proxy.methods[1].name, "two");
    assert!(proxy.methods[1].stream);
    assert_eq!(rest.len(), 2);
    let (proxy, _) = proxy_macro("Hello", &Some("Mine".to_owned()), methods());
    assert_eq!(proxy.struct_ident, "Mine");
}

#[test]
fn raw_identifiers_lose_their_prefix_on_the_wire() {
    let methods = || vec![method("r#move", vec![arg("r#type", "u32"), arg("b", "u32")], vec![])];
    let plain = service("X", None, methods());
    let generated = plain.generate();
    let args = &generated.args_structs[0];
    assert_eq!(args.ident, "ServiceArgs_X_move");
    assert_eq!(args.fields[0].ident, "r#type");
    assert_eq!(args.fields[0].rename, None);
    assert_eq!(args.fields[0].alias, None);
    assert_eq!(generated.match_arms[0].method, "r#move");
    assert_eq!(generated.match_arms[0].name, "r#move");
    let given = |name: &str| object(vec![(name, num(1)), ("b", num(2))]);
    let bound = args.bind(&given("type"));
    assert_eq!(bound.args, vec![Some(num(1)), Some(num(2))]);
    assert_eq!(bound.fault, None);
    assert_eq!(
        args.bind(&given("r#type")).fault.as_deref(),
        Some("missing field `type`")
    );

    let renamed = service("X", Some("SHOUTY_SNAKE_CASE"), methods()).generate();
    let field = &renamed.args_structs[0].fields[0];
    assert_eq!(field.ident, "r#type");
    assert_eq!(field.rename.as_deref(), Some("TYPE"));
    assert_eq!(field.alias.as_deref(), Some("type"));

    let (proxy, _) = proxy_macro("Hello", &None, methods());
    assert_eq!(proxy.args_structs[0].ident, "ProxyArgs_Hello_move");
    assert_eq!(proxy.methods[0].args_struct, "ProxyArgs_Hello_move");
    assert_eq!(proxy.methods[0].method, "r#move");
    assert_eq!(proxy.methods[0].args[0].0, "r#type");
    assert_eq!(proxy_macro("r#Self_", &None, vec![]).0.struct_ident, "Self_Proxy");
}

#[test]
fn what_a_proxy_sends_its_service_gets() {
    let methods = || vec![method("add_numbers", vec![arg("r#type", "u32"), arg("b", "u32")], vec![])];
    let (proxy, _) = proxy_macro("Calculator", &None, methods());
    let sent = &proxy.args_structs[0];
    let params = object(vec![(sent.fields[0].wire(), num(2)), (sent.fields[1].wire(), num(3))]);
    let request = Request::new(proxy.methods[0].name.clone(), Some(params), Some(num(1)));
    match service("X", None, methods()).dispatch(request, false, 0, None).action {
        Action::Call(call) => {
            assert_eq!(call.args, vec![Some(num(2)), Some(num(3))]);
            assert_eq!(call.fault, None);
            assert_eq!(perform(call), Some(Response::new_success(num(1), num(5))));
        }
        Action::Reply(_) => panic!("expected a call"),
    }
}

#[test]
fn a_note_without_a_text_ends_the_search() {
    let note = |value: Option<MetaValue>| NestedMeta {
        name: "note".to_owned(),
        value,
    };
    let text = |s: &str| Some(MetaValue::Text(s.to_owned()));
    let found = |items: Vec<NestedMeta>| {
        let mut attrs = vec![deprecated(Meta::List(items))];
        MethodAttributes::parse(&mut attrs).deprecated.unwrap().note
    };
    assert_eq!(found(vec![note(Some(MetaValue::Other)), note(text("x"))]), None);
    assert_eq!(found(vec![note(None), note(text("x"))]), None);
    assert_eq!(
        found(vec![note(text("a")), note(None), note(text("x"))]),
        Some("a".to_owned())
    );
    assert_eq!(
        found(vec![note(text("a")), note(text("x"))]),
        Some("x".to_owned())
    );
    let since = NestedMeta {
        name: "since".to_owned(),
        value: text("1"),
    };
    assert_eq!(found(vec![since, note(text("x"))]), Some("x".to_owned()));
}
