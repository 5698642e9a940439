//! What holds of a whole exchange between a client and a server, and of its parts.

pub mod access;
pub mod arguments;
pub mod connection;
pub mod dispatching;
pub mod generated;
pub mod messages;
pub mod serving;
pub mod texts;
pub mod views;

use crate::batch::{
    lemma_kinds_are_told_apart, message_from, requests_from, BatchView, MessageView,
};
use crate::dispatch::ActionView;
use crate::error::{rpc_error_without_nulls, ErrorView, RpcErrorView};
use crate::frame::{framed, payload, FrameType, FrameView};
use crate::json::{json_text, reads_as, JsonError, Tree};
use crate::request::{
    lemma_request_round_trip, new_request, request_tree, request_without_nulls, RequestView,
};
use crate::response::{failure, response_tree, response_without_nulls, success, ResponseView};
use crate::server::{
    after_call, after_request, collected, handled, invalid_json_reply, names_tree, opened,
    with_response, without_next, ExchangeView, ServerView,
};
use crate::service::{
    lemma_service_deprecated, service_deprecated, service_names, MethodCallView, Service,
};
use crate::stream::{lemma_notification_arrives, notification, notification_frame};
use crate::subscription::{ids_of, SubId, SubscriptionMessageView};
use crate::websocket::{
    after_message, client_request, client_result, delivered, received_message, ConnectionView,
    DeliveryView, ErrorView as ClientErrorView,
};
use vstd::prelude::*;

verus! {

/// The outcome of a call: the response, and the handle of the subscription that it opened. It may
/// depend on how many requests are left.
pub type Outcomes<N> = spec_fn(nat, (u64, MethodCallView)) -> (Option<ResponseView>, Option<N>);

/// An exchange after all of its requests.
pub open spec fn completed<N>(
    x: ExchangeView,
    s: ServerView<Service, N>,
    outcomes: Outcomes<N>,
) -> ExchangeView
    decreases x.pending.len(),
{
    if x.pending.len() == 0 {
        x
    } else {
        let request = x.pending[0];
        let after = after_request(s, request);
        match handled(s, request, x.notifiable, x.frame_type).action {
            ActionView::Reply(reply) => completed(
                with_response(without_next(x), reply),
                after,
                outcomes,
            ),
            ActionView::Call(call) => {
                let (reply, handle) = outcomes(x.pending.len(), call);
                completed(
                    with_response(without_next(x), reply),
                    after_call(after, call.0, handle),
                    outcomes,
                )
            },
        }
    }
}

/// Whether a call is answered with the ID of its request, just if there is one.
pub open spec fn answers(call: MethodCallView, reply: Option<ResponseView>) -> bool {
    match call.id {
        Some(id) => reply matches Some(r) && r.id == id,
        None => reply is None,
    }
}

/// The ID with which a request is answered, if it is: its own. A request without an ID is not
/// answered, but for an `unsubscribe` that lists subscriptions, which is answered with `null`.
pub open spec fn answer_id(request: RequestView) -> Option<Tree> {
    match request.id {
        Some(id) => Some(id),
        None => if request.method == "unsubscribe"@ && (request.params matches Some(params) && (
        ids_of(params) matches Some(ids) && ids.len() > 0)) {
            Some(Tree::Null)
        } else {
            None
        },
    }
}

/// The IDs with which some requests are answered, in their order.
pub open spec fn answer_ids(requests: Seq<RequestView>) -> Seq<Tree>
    decreases requests.len(),
{
    if requests.len() == 0 {
        Seq::empty()
    } else {
        match answer_id(requests[0]) {
            Some(id) => seq![id] + answer_ids(requests.drop_first()),
            None => answer_ids(requests.drop_first()),
        }
    }
}

/// The IDs of some responses.
pub open spec fn response_ids(responses: Seq<ResponseView>) -> Seq<Tree> {
    responses.map_values(|r: ResponseView| r.id)
}

/// Each request of an exchange with a service is answered once, with its ID, if it has one, and a
/// notification is not answered.
pub proof fn lemma_each_request_is_answered_once<N>(
    x: ExchangeView,
    s: ServerView<Service, N>,
    outcomes: Outcomes<N>,
)
    requires
        forall|n: nat, call: (u64, MethodCallView)|
            answers(call.1, (#[trigger] outcomes(n, call)).0),
    ensures
        completed(x, s, outcomes).pending.len() == 0,
        response_ids(completed(x, s, outcomes).responses) == response_ids(x.responses)
            + answer_ids(x.pending),
    decreases x.pending.len(),
{
    if x.pending.len() == 0 {
        assert(response_ids(x.responses) + answer_ids(x.pending) =~= response_ids(x.responses));
    } else {
        let request = x.pending[0];
        let after = after_request(s, request);
        let action = handled(s, request, x.notifiable, x.frame_type).action;
        let (reply, next) = match action {
            ActionView::Reply(reply) => (reply, after),
            ActionView::Call(call) => {
                let (reply, handle) = outcomes(x.pending.len(), call);
                (reply, after_call(after, call.0, handle))
            },
        };
        let y = with_response(without_next(x), reply);
        lemma_each_request_is_answered_once(y, next, outcomes);
        assert(match answer_id(request) {
            Some(id) => reply matches Some(r) && r.id == id,
            None => reply is None,
        });
        match reply {
            Some(r) => {
                assert(response_ids(y.responses) =~= response_ids(x.responses).push(r.id));
                assert(response_ids(x.responses).push(r.id) + answer_ids(y.pending)
                    =~= response_ids(x.responses) + (seq![r.id] + answer_ids(y.pending)));
            },
            None => {},
        }
    }
}

/// A request of a client is answered, with one response, which has the ID of the request.
pub proof fn lemma_call_is_answered<N>(
    message: FrameView,
    method: Seq<char>,
    params: Tree,
    id: int,
    s: ServerView<Service, N>,
    notifiable: bool,
    frame_type: Option<FrameType>,
    outcomes: Outcomes<N>,
)
    requires
        reads_as(payload(message), request_tree(client_request(method, params, id))),
        forall|n: nat, call: (u64, MethodCallView)|
            answers(call.1, (#[trigger] outcomes(n, call)).0),
    ensures
        ({
            let x = completed(opened(message, notifiable, frame_type), s, outcomes);
            &&& x.responses.len() == 1
            &&& x.responses[0].id == Tree::Int(id)
            &&& collected(x.batch, x.responses) == Some(BatchView::Single(x.responses[0]))
        }),
{
    let request = client_request(method, params, id);
    lemma_request_arrives(request, payload(message));
    let x = opened(message, notifiable, frame_type);
    lemma_each_request_is_answered_once(x, s, outcomes);
    lemma_form_is_kept(x, s, outcomes);
    let y = completed(x, s, outcomes);
    assert(x.pending.drop_first() =~= Seq::empty());
    assert(answer_ids(x.pending.drop_first()) =~= Seq::empty());
    assert(answer_ids(x.pending) =~= seq![Tree::Int(id)]);
    assert(response_ids(x.responses) =~= Seq::empty());
    assert(response_ids(y.responses) =~= seq![Tree::Int(id)]);
    assert(response_ids(y.responses).len() == y.responses.len());
    assert(response_ids(y.responses)[0] == y.responses[0].id);
}

/// What is neither a request nor a list of requests is answered with an error, without an ID, and
/// changes nothing.
pub proof fn lemma_invalid_json_is_answered<N>(
    message: FrameView,
    s: ServerView<Service, N>,
    notifiable: bool,
    frame_type: Option<FrameType>,
    outcomes: Outcomes<N>,
)
    requires
        requests_from(payload(message)) is Err,
    ensures
        ({
            let x = completed(opened(message, notifiable, frame_type), s, outcomes);
            &&& x == opened(message, notifiable, frame_type)
            &&& collected(x.batch, x.responses) == Some(BatchView::Single(invalid_json_reply()))
            &&& invalid_json_reply().id == Tree::Null
        }),
{
}

/// Whether an exchange is that of a list, and how it is framed, is the same throughout.
pub proof fn lemma_form_is_kept<N>(
    x: ExchangeView,
    s: ServerView<Service, N>,
    outcomes: Outcomes<N>,
)
    ensures
        completed(x, s, outcomes).batch == x.batch,
        completed(x, s, outcomes).text == x.text,
    decreases x.pending.len(),
{
    if x.pending.len() > 0 {
        let request = x.pending[0];
        let after = after_request(s, request);
        match handled(s, request, x.notifiable, x.frame_type).action {
            ActionView::Reply(reply) => {
                lemma_form_is_kept(with_response(without_next(x), reply), after, outcomes);
            },
            ActionView::Call(call) => {
                let (reply, handle) = outcomes(x.pending.len(), call);
                lemma_form_is_kept(
                    with_response(without_next(x), reply),
                    after_call(after, call.0, handle),
                    outcomes,
                );
            },
        }
    }
}

/// Any client can ask a server for the methods of its service: `rpc.methods` is answered with their
/// names, and `rpc.deprecatedMethods` with the names of those that are deprecated.
pub proof fn lemma_methods_are_listed<N>(
    s: ServerView<Service, N>,
    all: RequestView,
    deprecated: RequestView,
    id: Tree,
    notifiable: bool,
    frame_type: Option<FrameType>,
    name: Seq<char>,
)
    requires
        all.method == "rpc.methods"@,
        all.id == Some(id),
        deprecated.method == "rpc.deprecatedMethods"@,
        deprecated.id == Some(id),
    ensures
        handled(s, all, notifiable, frame_type).action == ActionView::<(u64, MethodCallView)>::Reply(
            Some(success(id, names_tree(service_names(s.dispatcher@)))),
        ),
        handled(s, deprecated, notifiable, frame_type).action == ActionView::<
            (u64, MethodCallView),
        >::Reply(Some(success(id, names_tree(service_deprecated(s.dispatcher@))))),
        service_deprecated(s.dispatcher@).contains(name) <==> exists|i: int|
            0 <= i < s.dispatcher@.len() && (#[trigger] s.dispatcher@[i]).name == name
                && s.dispatcher@[i].deprecated is Some,
        after_request(s, all) == s,
        after_request(s, deprecated) == s,
{
    reveal_strlit("unsubscribe");
    reveal_strlit("rpc.methods");
    reveal_strlit("rpc.deprecatedMethods");
    assert("unsubscribe"@[0] != "rpc.methods"@[0]);
    assert("rpc.methods"@.len() == 11 && "rpc.deprecatedMethods"@.len() == 21
        && "unsubscribe"@.len() == 11);
    lemma_service_deprecated(s.dispatcher@, name);
}

/// A server that reads the text of a request finds that request, alone, where `null` as parameters
/// or ID stands for their absence.
pub proof fn lemma_request_arrives(q: RequestView, text: Seq<u8>)
    requires
        reads_as(text, request_tree(q)),
    ensures
        requests_from(text) == Ok::<BatchView<RequestView>, JsonError>(
            BatchView::Single(request_without_nulls(q)),
        ),
{
    lemma_request_round_trip(q);
}

/// A client gets what the method returned: it reads a response with a result out of the message
/// that it is framed as, hands it to the request that waits for it, and gets that result out of it,
/// unless it is `null`, which stands for its absence.
pub proof fn lemma_result_arrives<S, R>(
    c: ConnectionView<S, R>,
    id: u64,
    result: Tree,
    text: bool,
)
    requires
        c.requests.contains_key(id),
        result != Tree::Null,
        ({
            let tree = response_tree(success(Tree::Int(id as int), result));
            reads_as(payload(framed(tree, text)), tree)
        }),
    ensures
        ({
            let response = success(Tree::Int(id as int), result);
            &&& received_message(framed(response_tree(response), text)) == Some(
                Ok::<MessageView, ClientErrorView>(MessageView::Response(response)),
            )
            &&& delivered(c, MessageView::Response(response)) == Ok::<
                DeliveryView<R>,
                ClientErrorView,
            >(DeliveryView::Response(c.requests[id], response))
            &&& client_result(Some(response)) == Ok::<Tree, ClientErrorView>(result)
        }),
{
    let response = success(Tree::Int(id as int), result);
    assert(response_without_nulls(response) == response);
    lemma_kinds_are_told_apart(new_request(Seq::empty(), None, None), response);
    lemma_framed_is_read(response_tree(response), text);
}

/// A client gets the error of the server: it reads a response with an error out of the message that
/// it is framed as, hands it to the request that waits for it, and gets that error out of it, where
/// `null` as data stands for their absence.
pub proof fn lemma_error_arrives<S, R>(
    c: ConnectionView<S, R>,
    id: u64,
    error: RpcErrorView,
    text: bool,
)
    requires
        c.requests.contains_key(id),
        i64::MIN <= error.code <= i64::MAX,
        ({
            let tree = response_tree(failure(Tree::Int(id as int), error));
            reads_as(payload(framed(tree, text)), tree)
        }),
    ensures
        ({
            let tree = response_tree(failure(Tree::Int(id as int), error));
            let response = failure(Tree::Int(id as int), rpc_error_without_nulls(error));
            &&& received_message(framed(tree, text)) == Some(
                Ok::<MessageView, ClientErrorView>(MessageView::Response(response)),
            )
            &&& delivered(c, MessageView::Response(response)) == Ok::<
                DeliveryView<R>,
                ClientErrorView,
            >(DeliveryView::Response(c.requests[id], response))
            &&& client_result(Some(response)) == Err::<Tree, ClientErrorView>(
                ClientErrorView::JsonRpc(ErrorView::JsonRpc(rpc_error_without_nulls(error))),
            )
        }),
{
    let response = failure(Tree::Int(id as int), error);
    assert(response_without_nulls(response) == failure(
        Tree::Int(id as int),
        rpc_error_without_nulls(error),
    ));
    lemma_kinds_are_told_apart(new_request(Seq::empty(), None, None), response);
    lemma_framed_is_read(response_tree(response), text);
}

/// A client hands the item of a notification, which it reads out of the message that it is sent as,
/// to the subscription that it belongs to.
pub proof fn lemma_item_arrives<S, R>(
    c: ConnectionView<S, R>,
    id: SubId,
    method: Seq<char>,
    item: Tree,
    frame_type: Option<FrameType>,
)
    requires
        c.streams.contains_key(id),
        reads_as(
            payload(notification_frame(id, method, frame_type, item)),
            request_tree(notification(id, method, item)),
        ),
    ensures
        ({
            let message = MessageView::Request(notification(id, method, item));
            &&& received_message(notification_frame(id, method, frame_type, item)) == Some(
                Ok::<MessageView, ClientErrorView>(message),
            )
            &&& delivered(c, message) == Ok::<DeliveryView<R>, ClientErrorView>(
                DeliveryView::Notification(
                    SubscriptionMessageView { subscription: id, result: item },
                ),
            )
            &&& after_message(c, message) == c
        }),
{
    let text = frame_type == Some(FrameType::Text);
    let tree = request_tree(notification(id, method, item));
    lemma_notification_arrives(id, method, item, payload(framed(tree, text)));
    lemma_framed_is_read(tree, text);
}

/// A client reads what a framed message carries, whether it is sent as text or as binary data.
pub proof fn lemma_framed_is_read(t: Tree, text: bool)
    ensures
        received_message(framed(t, text)) == Some(
            match message_from(payload(framed(t, text))) {
                Ok(m) => Ok(m),
                Err(e) => Err(ClientErrorView::JsonRpc(ErrorView::Json(e))),
            },
        ),
{
    vstd::utf8::encode_utf8_valid_utf8(json_text(t));
}

} // verus!
