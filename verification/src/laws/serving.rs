//! What holds of a server: of the IDs of its streams, of its subscriptions, and of its replies.

use crate::batch::{lemma_responses_read_back, requests_from, responses_from, BatchView};
use crate::config::Config;
use crate::dispatch::{
    no_params, outcome_view, responded, responded_without_args, ActionView, Dispatcher,
};
use crate::error::{ErrorView, RpcError};
use crate::frame::{framed, payload, FrameType, FrameView};
use crate::json::{json_text, readable, reads_as, Json, JsonError, Tree};
use crate::laws::dispatching::{answered_with, lemma_request_reaches_its_method, refused};
use crate::laws::{
    answer_ids, answers, completed, lemma_each_request_is_answered_once, lemma_form_is_kept,
    response_ids, Outcomes,
};
use crate::request::RequestView;
use crate::response::{
    code_fits, response_tree, response_without_nulls, Response, ResponseView,
};
use crate::server::{
    after_call, after_next_step, after_received, after_request, asked_frame_type, collected,
    forwarded, handled, http_body, id_after, lemma_id_after, lemma_ids_are_unique,
    lemma_terminated, new_server, next_step, opened, outcome_handle,
    outcome_reply, received, reply_frame, terminated, unsubscribed, with_response, without_next,
    ExchangeView, Forwarded, Received, ServerView, SessionView, StepView,
};
use crate::service::{finished, MethodCallView, Returned, Service};
use crate::stream::{
    notification_frame, stream_action, ForwarderView, StreamActionView, StreamEvent,
};
use crate::subscription::{id_of, id_tree, ids_of, SubId};
use vstd::prelude::*;
use vstd::utf8::encode_utf8;

verus! {

/// What can happen to a server.
pub enum ServerStep<N> {
    /// It handles a request.
    Request(RequestView),
    /// A call returned that was made with this ID for a stream, and opened a subscription, if there
    /// is a handle.
    Returned(u64, Option<N>),
}

/// A server after all of this happened to it.
pub open spec fn after_steps<D: Dispatcher, N>(
    s: ServerView<D, N>,
    steps: Seq<ServerStep<N>>,
) -> ServerView<D, N>
    decreases steps.len(),
{
    if steps.len() == 0 {
        s
    } else {
        let before = after_steps(s, steps.drop_last());
        match steps.last() {
            ServerStep::Request(request) => after_request(before, request),
            ServerStep::Returned(id, handle) => after_call(before, id, handle),
        }
    }
}

/// Whether a request is handed to the dispatcher: all are but those for the methods of the server
/// itself.
pub open spec fn is_dispatched(request: RequestView) -> bool {
    request.method != "unsubscribe"@ && request.method != "rpc.methods"@ && request.method
        != "rpc.deprecatedMethods"@
}

/// How many requests are handed to the dispatcher.
pub open spec fn dispatches<N>(steps: Seq<ServerStep<N>>) -> nat
    decreases steps.len(),
{
    if steps.len() == 0 {
        0
    } else {
        let before = dispatches(steps.drop_last());
        if steps.last() matches ServerStep::Request(request) && is_dispatched(request) {
            before + 1
        } else {
            before
        }
    }
}

/// What happens to a server changes neither its configuration nor its dispatcher. A request that is
/// dispatched uses up one ID, and nothing else does.
pub proof fn lemma_what_a_step_changes<D: Dispatcher, N>(
    s: ServerView<D, N>,
    request: RequestView,
    id: u64,
    handle: Option<N>,
)
    ensures
        after_request(s, request).config == s.config,
        after_request(s, request).dispatcher == s.dispatcher,
        after_call(s, id, handle).config == s.config,
        after_call(s, id, handle).dispatcher == s.dispatcher,
        after_call(s, id, handle).next_id == s.next_id,
        !is_dispatched(request) ==> after_request(s, request).next_id == s.next_id,
        is_dispatched(request) && s.next_id < u64::MAX ==> after_request(s, request).next_id
            == s.next_id + 1,
        is_dispatched(request) && s.next_id == u64::MAX ==> after_request(s, request).next_id == 0,
        is_dispatched(request) ==> after_request(s, request).notifiers == s.notifiers,
        request.method == "rpc.methods"@ || request.method == "rpc.deprecatedMethods"@
            ==> after_request(s, request) == s,
{
    reveal_strlit("unsubscribe");
    reveal_strlit("rpc.methods");
    reveal_strlit("rpc.deprecatedMethods");
    assert("unsubscribe"@[0] != "rpc.methods"@[0]);
    assert("rpc.methods"@.len() == 11 && "rpc.deprecatedMethods"@.len() == 21
        && "unsubscribe"@.len() == 11);
}

/// The requests that a server dispatches are numbered, from the ID on that it begins with, whatever
/// else happens meanwhile: subscriptions that are opened and stopped, and lists of methods.
pub proof fn lemma_streams_are_numbered<D: Dispatcher, N>(
    s: ServerView<D, N>,
    steps: Seq<ServerStep<N>>,
)
    requires
        s.next_id == 1,
    ensures
        after_steps(s, steps).next_id == id_after(1, dispatches(steps)),
        dispatches(steps) < u64::MAX ==> after_steps(s, steps).next_id == dispatches(steps) + 1,
        after_steps(s, steps).dispatcher == s.dispatcher,
        after_steps(s, steps).config == s.config,
    decreases steps.len(),
{
    if steps.len() > 0 {
        let before = after_steps(s, steps.drop_last());
        lemma_streams_are_numbered(s, steps.drop_last());
        match steps.last() {
            ServerStep::Request(request) => {
                lemma_what_a_step_changes(before, request, 0, None);
            },
            ServerStep::Returned(id, handle) => {
                lemma_what_a_step_changes(
                    before,
                    RequestView { jsonrpc: Seq::empty(), method: Seq::empty(), params: None, id: None },
                    id,
                    handle,
                );
            },
        }
    }
    if dispatches(steps) < u64::MAX {
        lemma_id_after(1, dispatches(steps));
    }
}

/// No two calls of a server get the same ID for a stream, as long as no more than 2^64 requests are
/// dispatched, whatever happens in between.
pub proof fn lemma_stream_ids_differ<D: Dispatcher, N>(
    s: ServerView<D, N>,
    steps: Seq<ServerStep<N>>,
    i: int,
    j: int,
    notifiable: bool,
    frame_type: Option<FrameType>,
)
    requires
        s.next_id == 1,
        0 <= i < j < steps.len(),
        steps[i] is Request,
        steps[j] is Request,
        dispatches(steps) <= u64::MAX + 1,
    ensures
        ({
            let first = handled(after_steps(s, steps.take(i)), steps[i]->Request_0, notifiable, frame_type);
            let second = handled(after_steps(s, steps.take(j)), steps[j]->Request_0, notifiable, frame_type);
            first.action matches ActionView::Call((a, _)) ==> (second.action matches ActionView::Call(
                (b, _),
            ) ==> a != b)
        }),
{
    let first = handled(after_steps(s, steps.take(i)), steps[i]->Request_0, notifiable, frame_type);
    let second = handled(after_steps(s, steps.take(j)), steps[j]->Request_0, notifiable, frame_type);
    if first.action is Call && second.action is Call {
        lemma_streams_are_numbered(s, steps.take(i));
        lemma_streams_are_numbered(s, steps.take(j));
        assert(is_dispatched(steps[i]->Request_0));
        assert(is_dispatched(steps[j]->Request_0));
        lemma_more_dispatches(steps.take(j), i);
        assert(steps.take(j).take(i) =~= steps.take(i));
        lemma_more_dispatches(steps, j);
        lemma_ids_are_unique(1, dispatches(steps.take(i)), dispatches(steps.take(j)));
    }
}

proof fn lemma_more_dispatches<N>(steps: Seq<ServerStep<N>>, i: int)
    requires
        0 <= i < steps.len(),
        steps[i] matches ServerStep::Request(request) && is_dispatched(request),
    ensures
        dispatches(steps.take(i)) < dispatches(steps),
    decreases steps.len(),
{
    let before = steps.drop_last();
    if i == before.len() {
        assert(steps.take(i) =~= before);
    } else {
        assert(before.take(i) =~= steps.take(i));
        lemma_more_dispatches(before, i);
    }
}

/// What is dispatched is what the dispatcher makes of the request, with the ID that is next.
pub proof fn lemma_dispatcher_decides<D: Dispatcher, N>(
    s: ServerView<D, N>,
    request: RequestView,
    notifiable: bool,
    frame_type: Option<FrameType>,
)
    requires
        is_dispatched(request),
    ensures
        ({
            let inner = s.dispatcher.dispatched(request, notifiable, s.next_id, frame_type);
            let h = handled(s, request, notifiable, frame_type);
            &&& h.warnings == inner.warnings
            &&& h.stopped.len() == 0
            &&& match inner.action {
                ActionView::Reply(r) => h.action matches ActionView::Reply(q) && q == r,
                ActionView::Call(c) => h.action matches ActionView::Call((id, q)) && id == s.next_id
                    && q == c,
            }
        }),
{
}

/// A client that asks for the methods gets their names, in their order, under the ID of its request,
/// and without an ID nothing.
pub proof fn lemma_names_are_answered<D: Dispatcher, N>(
    s: ServerView<D, N>,
    request: RequestView,
    notifiable: bool,
    frame_type: Option<FrameType>,
)
    requires
        request.method == "rpc.methods"@ || request.method == "rpc.deprecatedMethods"@,
    ensures
        ({
            let names = if request.method == "rpc.methods"@ {
                s.dispatcher.names()
            } else {
                s.dispatcher.deprecated()
            };
            let h = handled(s, request, notifiable, frame_type);
            &&& h.warnings.len() == 0
            &&& h.stopped.len() == 0
            &&& h.action is Reply
            &&& request.id is None ==> h.action->Reply_0 is None
            &&& request.id matches Some(id) ==> {
                &&& h.action->Reply_0 matches Some(r)
                &&& h.action->Reply_0->0.jsonrpc == "2.0"@
                &&& h.action->Reply_0->0.id == id
                &&& h.action->Reply_0->0.error is None
                &&& h.action->Reply_0->0.result matches Some(Tree::Array(list)) && list.len()
                    == names.len() && forall|i: int|
                    0 <= i < names.len() ==> #[trigger] list[i] == Tree::String(names[i])
            }
        }),
{
    reveal_strlit("unsubscribe");
    reveal_strlit("rpc.methods");
    reveal_strlit("rpc.deprecatedMethods");
    assert("unsubscribe"@[0] != "rpc.methods"@[0]);
    assert("rpc.methods"@.len() == 11 && "rpc.deprecatedMethods"@.len() == 21
        && "unsubscribe"@.len() == 11);
}

/// Whether an ID is listed before the item `i`.
pub open spec fn listed_before(list: Seq<Tree>, id: SubId, i: int) -> bool {
    exists|j: int| 0 <= j < i && id_of(#[trigger] list[j]) == Some(id)
}

/// An `unsubscribe` that lists subscriptions stops those that are known, and no others. It is
/// answered with the IDs of those that are stopped, each once and in the order in which it lists
/// them, under its own ID; their handles are those to be stopped, in the same order.
pub proof fn lemma_unsubscribe_stops_what_it_lists<D: Dispatcher, N>(
    s: ServerView<D, N>,
    request: RequestView,
    list: Seq<Tree>,
    notifiable: bool,
    frame_type: Option<FrameType>,
)
    requires
        request.method == "unsubscribe"@,
        request.params == Some(Tree::Array(list)),
        list.len() > 0,
        forall|i: int| 0 <= i < list.len() ==> id_of(#[trigger] list[i]) is Some,
    ensures
        ({
            let h = handled(s, request, notifiable, frame_type);
            let after = after_request(s, request);
            let ended = unsubscribed(request, s.notifiers.dom()).1;
            &&& h.warnings.len() == 0
            &&& h.action is Reply
            &&& h.action->Reply_0 == Some(
                ResponseView {
                    jsonrpc: "2.0"@,
                    result: Some(Tree::Array(ended.map_values(|id: SubId| id_tree(id)))),
                    error: None,
                    id: match request.id {
                        Some(id) => id,
                        None => Tree::Null,
                    },
                },
            )
            &&& h.stopped == ended.map_values(|id: SubId| s.notifiers[id])
            &&& ended.no_duplicates()
            &&& forall|id: SubId| #[trigger]
                ended.contains(id) <==> s.notifiers.contains_key(id) && exists|i: int|
                    0 <= i < list.len() && id_of(#[trigger] list[i]) == Some(id)
            &&& forall|a: int, b: int, i: int|
                #![trigger ended[a], ended[b], list[i]]
                0 <= a < b < ended.len() && 0 <= i < list.len() && id_of(list[i]) == Some(ended[b])
                    ==> listed_before(list, ended[a], i)
            &&& forall|id: SubId| #[trigger]
                after.notifiers.contains_key(id) <==> s.notifiers.contains_key(id)
                    && !ended.contains(id)
            &&& forall|id: SubId|
                after.notifiers.contains_key(id) ==> #[trigger] after.notifiers[id]
                    == s.notifiers[id]
        }),
{
    let ids = ids_of(Tree::Array(list))->0;
    let known = s.notifiers.dom();
    let ended = terminated(ids, known);
    let after = after_request(s, request);
    lemma_terminated(ids, known);
    assert(forall|i: int| 0 <= i < list.len() ==> Some(#[trigger] ids[i]) == id_of(list[i]));
    assert forall|id: SubId| #[trigger] ended.contains(id) <==> s.notifiers.contains_key(id)
        && exists|i: int| 0 <= i < list.len() && id_of(#[trigger] list[i]) == Some(id) by {
        if ids.contains(id) {
            let i = choose|i: int| 0 <= i < ids.len() && ids[i] == id;
            assert(id_of(list[i]) == Some(id));
        }
        if exists|i: int| 0 <= i < list.len() && id_of(#[trigger] list[i]) == Some(id) {
            let i = choose|i: int| 0 <= i < list.len() && id_of(#[trigger] list[i]) == Some(id);
            assert(ids[i] == id);
        }
    }
    assert forall|a: int, b: int, i: int|
        #![trigger ended[a], ended[b], list[i]]
        0 <= a < b < ended.len() && 0 <= i < list.len() && id_of(list[i]) == Some(
            ended[b],
        ) implies listed_before(list, ended[a], i) by {
        assert(ids[i] == ended[b]);
        let j = lemma_terminated_in_order(ids, known, a, b, i);
        assert(id_of(list[j]) == Some(ended[a]));
    }
    assert forall|id: SubId| #[trigger] after.notifiers.contains_key(id)
        <==> s.notifiers.contains_key(id) && !ended.contains(id) by {
        assert(ended.to_set().contains(id) <==> ended.contains(id));
    }
}

proof fn lemma_terminated_in_order(ids: Seq<SubId>, known: Set<SubId>, a: int, b: int, i: int) -> (j:
    int)
    requires
        0 <= a < b < terminated(ids, known).len(),
        0 <= i < ids.len(),
        ids[i] == terminated(ids, known)[b],
    ensures
        0 <= j < i,
        ids[j] == terminated(ids, known)[a],
    decreases ids.len(),
{
    let rest = ids.drop_last();
    let before = terminated(rest, known);
    let all = terminated(ids, known);
    lemma_terminated(rest, known);
    assert(all[a] == before[a]);
    assert(before.contains(before[a]));
    assert(rest.contains(before[a]));
    let k = choose|k: int| 0 <= k < rest.len() && rest[k] == before[a];
    assert(ids[k] == all[a]);
    if i < rest.len() {
        assert(rest[i] == ids[i]);
        if b < before.len() {
            assert(all[b] == before[b]);
            let j = lemma_terminated_in_order(rest, known, a, b, i);
            assert(ids[j] == rest[j]);
            j
        } else {
            assert(rest.contains(ids.last()));
            assert(false);
            k
        }
    } else {
        k
    }
}

/// An `unsubscribe` without a list of IDs, or with an empty one, is refused, and stops nothing.
pub proof fn lemma_unsubscribe_needs_a_list<D: Dispatcher, N>(
    s: ServerView<D, N>,
    request: RequestView,
    notifiable: bool,
    frame_type: Option<FrameType>,
)
    requires
        request.method == "unsubscribe"@,
    ensures
        ({
            let h = handled(s, request, notifiable, frame_type);
            let refused_with = |code: int, message: Seq<char>, text: Seq<char>|
                {
                    &&& h.action matches ActionView::Reply(r) && answered_with(
                        request,
                        r,
                        code,
                        message,
                        text,
                    )
                    &&& h.stopped.len() == 0
                    &&& after_request(s, request).notifiers == s.notifiers
                };
            match request.params {
                None => refused_with(
                    -32600,
                    "Invalid Request"@,
                    "Missing request parameter containing a list of subscription ids"@,
                ),
                Some(Tree::Array(list)) => {
                    &&& list.len() == 0 ==> refused_with(
                        -32602,
                        "Invalid params"@,
                        "Empty list of subscription ids provided"@,
                    )
                    &&& (exists|i: int| 0 <= i < list.len() && id_of(#[trigger] list[i]) is None)
                        ==> refused_with(
                        -32602,
                        "Invalid params"@,
                        "A list of subscription ids is not provided"@,
                    )
                },
                Some(_) => refused_with(
                    -32602,
                    "Invalid params"@,
                    "A list of subscription ids is not provided"@,
                ),
            }
        }),
{
    let none = Seq::<SubId>::empty();
    assert(s.notifiers.remove_keys(none.to_set()) =~= s.notifiers);
}

/// A subscription is known from when its call returns, under its own ID and with its own handle,
/// and others are as before. A call that opens none changes nothing.
pub proof fn lemma_subscription_is_opened<D: Dispatcher, N>(
    s: ServerView<D, N>,
    id: u64,
    handle: N,
    other: SubId,
)
    ensures
        after_call(s, id, Some(handle)).notifiers.contains_key(SubId::Number(id)),
        after_call(s, id, Some(handle)).notifiers[SubId::Number(id)] == handle,
        other != SubId::Number(id) ==> after_call(s, id, Some(handle)).notifiers.contains_key(other)
            == s.notifiers.contains_key(other),
        other != SubId::Number(id) && s.notifiers.contains_key(other) ==> after_call(
            s,
            id,
            Some(handle),
        ).notifiers[other] == s.notifiers[other],
        after_call(s, id, None) == s,
{
}

/// Whether a step may end the subscription `id`, or put another in its place.
pub open spec fn touches<N>(step: ServerStep<N>, id: SubId) -> bool {
    match step {
        ServerStep::Request(request) => request.method == "unsubscribe"@ && (
        request.params matches Some(Tree::Array(list)) && exists|i: int|
            0 <= i < list.len() && id_of(#[trigger] list[i]) == Some(id)),
        ServerStep::Returned(other, handle) => SubId::Number(other) == id && handle is Some,
    }
}

/// A subscription lives, with the handle that it was opened with, until it is stopped: whatever
/// else happens to the server, as long as no `unsubscribe` lists its ID and no other subscription
/// is opened under it.
pub proof fn lemma_subscription_lives<D: Dispatcher, N>(
    s: ServerView<D, N>,
    steps: Seq<ServerStep<N>>,
    id: SubId,
)
    requires
        s.notifiers.contains_key(id),
        forall|i: int| 0 <= i < steps.len() ==> !touches(#[trigger] steps[i], id),
    ensures
        after_steps(s, steps).notifiers.contains_key(id),
        after_steps(s, steps).notifiers[id] == s.notifiers[id],
    decreases steps.len(),
{
    if steps.len() > 0 {
        let rest = steps.drop_last();
        assert forall|i: int| 0 <= i < rest.len() implies !touches(#[trigger] rest[i], id) by {
            assert(rest[i] == steps[i]);
        }
        lemma_subscription_lives(s, rest, id);
        let before = after_steps(s, rest);
        assert(!touches(steps[steps.len() - 1], id));
        match steps.last() {
            ServerStep::Request(request) => {
                if request.method == "unsubscribe"@ {
                    let ended = unsubscribed(request, before.notifiers.dom()).1;
                    if request.params is Some && ids_of(request.params->0) is Some {
                        let list = request.params->0->Array_0;
                        let ids = ids_of(request.params->0)->0;
                        lemma_terminated(ids, before.notifiers.dom());
                        if ended.contains(id) {
                            assert(ids.contains(id));
                            let i = choose|i: int| 0 <= i < ids.len() && ids[i] == id;
                            assert(id_of(list[i]) == Some(id));
                        }
                    }
                    assert(!ended.contains(id));
                    assert(!ended.to_set().contains(id));
                }
            },
            ServerStep::Returned(other, handle) => {},
        }
    }
}

/// The reply to a list of requests holds every response, and no other, in the order of the
/// requests; that to a single request is its response, if there is one. It is sent as text just
/// where the message was text.
pub proof fn lemma_reply_holds_the_responses(responses: Seq<ResponseView>, r: ResponseView, text: bool)
    ensures
        ({
            let tree = Tree::Array(responses.map_values(|r: ResponseView| response_tree(r)));
            reply_frame(collected(true, responses), text) == Some(
                if text {
                    FrameView::Text(json_text(tree))
                } else {
                    FrameView::Binary(encode_utf8(json_text(tree)))
                },
            )
        }),
        reply_frame(collected(false, seq![r]), text) == Some(
            if text {
                FrameView::Text(json_text(response_tree(r)))
            } else {
                FrameView::Binary(encode_utf8(json_text(response_tree(r))))
            },
        ),
        reply_frame(collected(false, Seq::empty()), text) is None,
        responses.len() > 0 ==> collected(false, responses) == collected(false, seq![responses[0]]),
{
}

/// How an exchange begins: with the requests that the message holds and no responses, or with the
/// answer that there are none.
pub proof fn lemma_how_an_exchange_begins(
    message: FrameView,
    notifiable: bool,
    frame_type: Option<FrameType>,
)
    ensures
        ({
            let x = opened(message, notifiable, frame_type);
            &&& x.notifiable == notifiable
            &&& x.frame_type == frame_type
            &&& x.text <==> message is Text
            &&& match requests_from(payload(message)) {
                Ok(BatchView::Single(r)) => !x.batch && x.pending == seq![r] && x.responses.len()
                    == 0,
                Ok(BatchView::Batch(s)) => x.batch && x.pending == s && x.responses.len() == 0,
                Err(_) => !x.batch && x.pending.len() == 0 && x.responses == seq![
                    refused(Tree::Null, -32600, "Invalid Request"@, "Received invalid JSON"@),
                ],
            }
        }),
{
}

/// How an exchange goes on: the next request is taken out, and its response, if there is one, is put
/// behind the others.
pub proof fn lemma_how_an_exchange_goes_on(x: ExchangeView, r: ResponseView)
    ensures
        with_response(x, None) == x,
        with_response(x, Some(r)) == (ExchangeView { responses: x.responses.push(r), ..x }),
        x.pending.len() > 0 ==> without_next(x) == (ExchangeView {
            pending: x.pending.subrange(1, x.pending.len() as int),
            ..x
        }),
{
    if x.pending.len() > 0 {
        assert(without_next(x).pending =~= x.pending.subrange(1, x.pending.len() as int));
    }
}

/// Whether what is framed is read back, unless it holds fractions or is nested too deep, as what
/// [`crate::frame::Message::frame`] writes is.
pub open spec fn frames_are_read() -> bool {
    forall|t: Tree, text: bool|
        readable(t, 127) ==> reads_as(payload(#[trigger] framed(t, text)), t)
}

/// Every request of a list is answered in the message that is sent for it: who reads that message
/// finds a list with one response for each request that has an ID, under that ID and in the order
/// of the requests, whether the request succeeded or failed.
pub proof fn lemma_batch_is_answered<N>(
    message: FrameView,
    requests: Seq<RequestView>,
    s: ServerView<Service, N>,
    notifiable: bool,
    frame_type: Option<FrameType>,
    outcomes: Outcomes<N>,
)
    requires
        requests_from(payload(message)) == Ok::<BatchView<RequestView>, JsonError>(
            BatchView::Batch(requests),
        ),
        forall|n: nat, call: (u64, MethodCallView)|
            answers(call.1, (#[trigger] outcomes(n, call)).0),
        ({
            let x = completed(opened(message, notifiable, frame_type), s, outcomes);
            &&& forall|i: int|
                0 <= i < x.responses.len() ==> code_fits(#[trigger] x.responses[i])
            &&& readable(
                Tree::Array(x.responses.map_values(|r: ResponseView| response_tree(r))),
                127,
            )
        }),
        frames_are_read(),
    ensures
        ({
            let x = completed(opened(message, notifiable, frame_type), s, outcomes);
            let sent = reply_frame(collected(x.batch, x.responses), x.text);
            &&& sent is Some
            &&& sent->0 is Text <==> message is Text
            &&& responses_from(payload(sent->0)) matches Ok(BatchView::Batch(read)) && response_ids(
                read,
            ) == answer_ids(requests) && read == x.responses.map_values(
                |r: ResponseView| response_without_nulls(r),
            )
        }),
{
    let x = opened(message, notifiable, frame_type);
    let y = completed(x, s, outcomes);
    lemma_each_request_is_answered_once(x, s, outcomes);
    lemma_form_is_kept(x, s, outcomes);
    let sent = reply_frame(collected(y.batch, y.responses), y.text);
    let tree = Tree::Array(y.responses.map_values(|r: ResponseView| response_tree(r)));
    assert(reads_as(payload(framed(tree, y.text)), tree));
    lemma_responses_read_back(y.responses, payload(sent->0));
    let read = y.responses.map_values(|r: ResponseView| response_without_nulls(r));
    assert(response_ids(x.responses) =~= Seq::empty());
    assert(response_ids(read) =~= response_ids(y.responses));
    assert(response_ids(x.responses) + answer_ids(x.pending) =~= answer_ids(requests));
}

/// A single request is answered with its own response and nothing else, or with nothing.
pub proof fn lemma_single_request_is_answered<N>(
    message: FrameView,
    request: RequestView,
    s: ServerView<Service, N>,
    notifiable: bool,
    frame_type: Option<FrameType>,
    outcomes: Outcomes<N>,
)
    requires
        requests_from(payload(message)) == Ok::<BatchView<RequestView>, JsonError>(
            BatchView::Single(request),
        ),
    ensures
        ({
            let x = completed(opened(message, notifiable, frame_type), s, outcomes);
            let reply = match handled(s, request, notifiable, frame_type).action {
                ActionView::Reply(reply) => reply,
                ActionView::Call(call) => outcomes(1, call).0,
            };
            reply_frame(collected(x.batch, x.responses), x.text) == match reply {
                Some(r) => Some(framed(response_tree(r), message is Text)),
                None => None,
            }
        }),
{
    let x = opened(message, notifiable, frame_type);
    assert(x.pending[0] == request);
    let y = without_next(x);
    assert(y.pending.len() == 0);
    assert(x.responses =~= Seq::empty());
    reveal_with_fuel(completed, 3);
}

/// A server answers what is text or binary data, leaves pings to the transport, and stops at a
/// close message; it sends all messages of its queue, and closes the sink for a close message.
pub proof fn lemma_messages_of_a_session(s: Seq<char>, d: Seq<u8>)
    ensures
        received(FrameView::Text(s)) == Received::Answer,
        received(FrameView::Binary(d)) == Received::Answer,
        received(FrameView::Ping) == Received::Ignore,
        received(FrameView::Pong) == Received::Ignore,
        received(FrameView::Close) == Received::Close,
        forwarded(FrameView::Text(s)) == Forwarded::Send,
        forwarded(FrameView::Binary(d)) == Forwarded::Send,
        forwarded(FrameView::Ping) == Forwarded::Send,
        forwarded(FrameView::Pong) == Forwarded::Send,
        forwarded(FrameView::Close) == Forwarded::CloseSink,
{
}

/// A server begins with the ID 1 for its streams and without subscriptions.
pub proof fn lemma_how_a_server_begins<D: Dispatcher, N>(config: Config, dispatcher: D)
    ensures
        new_server::<D, N>(config, dispatcher).config == config,
        new_server::<D, N>(config, dispatcher).dispatcher == dispatcher,
        new_server::<D, N>(config, dispatcher).next_id == 1,
        new_server::<D, N>(config, dispatcher).notifiers == Map::<SubId, N>::empty(),
{
}

/// What a call is answered: its value or its error, under the ID of its request; and that it opened a
/// stream, by the ID of the stream. The handle of a stream is kept just if the client is told of it.
/// A notification is not answered.
pub proof fn lemma_what_a_call_is_answered<N>(
    c: MethodCallView,
    id: Tree,
    stream: SubId,
    v: Json,
    e: RpcError,
    handle: N,
    result: Result<Returned<N>, RpcError>,
)
    ensures
        c.id == Some(id) ==> {
            &&& finished(c, Ok::<Returned<N>, RpcError>(Returned::Value(v))) == Some(
                (
                    ResponseView { jsonrpc: "2.0"@, result: Some(v@), error: None, id },
                    None::<N>,
                ),
            )
            &&& finished(c, Err::<Returned<N>, RpcError>(e)) == Some(
                (
                    ResponseView { jsonrpc: "2.0"@, result: None, error: Some(e@), id },
                    None::<N>,
                ),
            )
            &&& c.stream == Some(stream) ==> finished(
                c,
                Ok::<Returned<N>, RpcError>(Returned::Stream(handle)),
            ) == Some(
                (
                    ResponseView {
                        jsonrpc: "2.0"@,
                        result: Some(id_tree(stream)),
                        error: None,
                        id,
                    },
                    Some(handle),
                ),
            )
        },
        c.id is None ==> finished(c, result) is None,
        answers(
            c,
            match finished(c, result) {
                Some((r, _)) => Some(r),
                None => None,
            },
        ),
{
}

/// What a handler's result is answered: the value or the error, under the ID of the request, if it
/// has one. A method without arguments does not take any.
pub proof fn lemma_what_a_result_is_answered<N>(
    request: RequestView,
    id: Tree,
    v: Json,
    e: RpcError,
    handle: Option<N>,
    result: Result<(Json, Option<N>), RpcError>,
)
    ensures
        responded(Some(id), Ok::<(Json, Option<N>), RpcError>((v, handle))) == Some(
            (ResponseView { jsonrpc: "2.0"@, result: Some(v@), error: None, id }, handle),
        ),
        responded(Some(id), Err::<(Json, Option<N>), RpcError>(e)) == Some(
            (ResponseView { jsonrpc: "2.0"@, result: None, error: Some(e@), id }, None::<N>),
        ),
        responded(None, result) is None,
        no_params(request.params) ==> responded_without_args(request, result) == responded(
            request.id,
            result,
        ),
        !no_params(request.params) && request.id == Some(id) ==> responded_without_args(
            request,
            result,
        ) == Some(
            (
                refused(id, -32602, "Invalid params"@, "Didn't expect any request parameters"@),
                None::<N>,
            ),
        ),
        request.id is None ==> responded_without_args(request, result) is None,
{
}

/// What an outcome of a call is: the response goes to the client, the handle to the server.
pub proof fn lemma_outcome_of_a_call<N>(response: Response, handle: Option<N>)
    ensures
        outcome_reply(Some((response, handle))) == Some(response@),
        outcome_handle(Some((response, handle))) == handle,
        outcome_reply(None::<(Response, Option<N>)>) is None,
        outcome_handle(None::<(Response, Option<N>)>) is None,
        outcome_view(Some((response, handle))) == Some((response@, handle)),
        outcome_view(None::<(Response, Option<N>)>) is None,
{
}

/// The ID that a client is told is the one by which its stream is known: the call gets it, the answer
/// tells it, the items go out under it, and an `unsubscribe` with it stops the stream, whatever
/// happens in between, unless it is stopped before.
pub proof fn lemma_stream_goes_by_the_id_that_is_told<N>(
    s: ServerView<Service, N>,
    i: int,
    request: RequestView,
    params: Tree,
    frame_type: Option<FrameType>,
    handle: N,
    item: Json,
    steps: Seq<ServerStep<N>>,
    unsubscribe: RequestView,
)
    requires
        is_dispatched(request),
        0 <= i < s.dispatcher@.len(),
        s.dispatcher@[i].name == request.method,
        s.dispatcher@[i].stream,
        forall|j: int| 0 <= j < i ==> (#[trigger] s.dispatcher@[j]).name != request.method,
        request.params == Some(params),
        request.id is Some,
        handled(s, request, true, frame_type).action is Call,
        forall|j: int|
            0 <= j < steps.len() ==> !touches(#[trigger] steps[j], SubId::Number(s.next_id)),
        unsubscribe.method == "unsubscribe"@,
        unsubscribe.params == Some(Tree::Array(seq![Tree::Int(s.next_id as int)])),
    ensures
        ({
            let n = s.next_id;
            let call = handled(s, request, true, frame_type).action->Call_0;
            let told = finished(call.1, Ok::<Returned<N>, RpcError>(Returned::Stream(handle)));
            let opened = after_call(after_request(s, request), call.0, Some(handle));
            let later = after_steps(opened, steps);
            &&& call.0 == n
            &&& told matches Some((r, h)) && r.result == Some(Tree::Int(n as int)) && h == Some(
                handle,
            )
            &&& call.1.forwarder matches Some(f) && stream_action(f, StreamEvent::Item(Ok(item)))
                == StreamActionView::Send(
                notification_frame(SubId::Number(n), request.method, frame_type, item@),
            )
            &&& opened.notifiers[SubId::Number(n)] == handle
            &&& handled(later, unsubscribe, true, frame_type).stopped == seq![handle]
            &&& !after_request(later, unsubscribe).notifiers.contains_key(SubId::Number(n))
        }),
{
    let n = s.next_id;
    let id = SubId::Number(n);
    lemma_request_reaches_its_method(s.dispatcher, i, request, params, true, n, frame_type);
    let call = handled(s, request, true, frame_type).action->Call_0;
    let opened = after_call(after_request(s, request), call.0, Some(handle));
    let later = after_steps(opened, steps);
    assert(opened.notifiers.contains_key(id));
    lemma_subscription_lives(opened, steps, id);
    let list = seq![Tree::Int(n as int)];
    lemma_unsubscribe_stops_what_it_lists(later, unsubscribe, list, true, frame_type);
    let ended = unsubscribed(unsubscribe, later.notifiers.dom()).1;
    assert(id_of(list[0]) == Some(id));
    assert(ended.contains(id));
    assert(forall|j: int| 0 <= j < ended.len() ==> ended.contains(#[trigger] ended[j]));
    assert(ended =~= seq![id]) by {
        assert(forall|j: int| 0 <= j < ended.len() ==> #[trigger] ended[j] == id) by {
            assert forall|j: int| 0 <= j < ended.len() implies #[trigger] ended[j] == id by {
                assert(ended.contains(ended[j]));
                let k = choose|k: int| 0 <= k < list.len() && id_of(#[trigger] list[k]) == Some(
                    ended[j],
                );
                assert(k == 0);
            }
        }
        if ended.len() > 1 {
            assert(ended[0] == ended[1]);
        }
    }
    assert(handled(later, unsubscribe, true, frame_type).stopped =~= seq![handle]);
}

/// What is done about a stream: as long as it is forwarded its items are sent, and one that was not
/// turned into JSON is logged; it is dropped when it ends, when the client unsubscribes, and when the
/// queue is closed, and then nothing is sent any more.
pub proof fn lemma_what_is_done_about_a_stream(f: ForwarderView, item: Json, e: JsonError, event: StreamEvent)
    ensures
        f.open ==> stream_action(f, StreamEvent::Item(Ok(item))) == StreamActionView::Send(
            notification_frame(f.id, f.method, f.frame_type, item@),
        ),
        f.open ==> stream_action(f, StreamEvent::Item(Err(e))) == StreamActionView::Log(
            ErrorView::Json(e),
        ),
        !f.open ==> stream_action(f, event) is Stop,
        event !is Item ==> stream_action(f, event) is Stop,
{
}

/// The body of a reply over HTTP is what the message carries, and empty where there is none.
pub proof fn lemma_body_of_a_reply(s: Seq<char>, d: Seq<u8>)
    ensures
        http_body(Some(FrameView::Text(s))) == encode_utf8(s),
        http_body(Some(FrameView::Binary(d))) == d,
        http_body(None) == Seq::<u8>::empty(),
{
}

/// A session ends with a close message, and with no other.
pub proof fn lemma_end_of_a_session(s: SessionView, m: FrameView)
    ensures
        after_received(s, m).open <==> m !is Close,
        after_received(s, m).frame_type == s.frame_type,
{
}

/// What a step of an exchange is: as long as requests are left, the next is handled, and its response
/// is kept if it is there; at the end the reply is sent. The handles to be stopped and the warnings to
/// be logged come out with it.
pub proof fn lemma_steps_of_an_exchange<D: Dispatcher, N>(x: ExchangeView, s: ServerView<D, N>)
    ensures
        x.pending.len() == 0 ==> after_next_step(x, s) == x && (next_step(
            x,
            s,
        ) matches StepView::Done(m) && m == reply_frame(collected(x.batch, x.responses), x.text)),
        x.pending.len() > 0 ==> {
            let h = handled(s, x.pending[0], x.notifiable, x.frame_type);
            let left = ExchangeView {
                pending: x.pending.subrange(1, x.pending.len() as int),
                ..x
            };
            &&& next_step(x, s) matches StepView::Request(y) && y.warnings == h.warnings && y.stopped
                == h.stopped && match h.action {
                ActionView::Reply(_) => y.action matches ActionView::Reply(None),
                ActionView::Call(c) => y.action matches ActionView::Call(d) && d == c,
            }
            &&& after_next_step(x, s) == match h.action {
                ActionView::Reply(Some(r)) => ExchangeView { responses: x.responses.push(r), ..left },
                _ => left,
            }
        },
{
    if x.pending.len() > 0 {
        lemma_how_an_exchange_goes_on(x, refused(Tree::Null, 0, Seq::empty(), Seq::empty()));
    }
}

/// A client gets text by asking for `text`, binary data by asking for anything else, and else what is
/// usual.
pub proof fn lemma_what_a_client_asks_for(s: Seq<char>)
    ensures
        asked_frame_type(Some("text"@)) == Some(FrameType::Text),
        s != "text"@ ==> asked_frame_type(Some(s)) == Some(FrameType::Binary),
        asked_frame_type(None) is None,
{
}

} // verus!
