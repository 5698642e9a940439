//! The state of a server, and how it handles requests.

use crate::batch::{requests_from, responses_tree, responses_view, BatchView, SingleOrBatch};
use crate::config::{Config, CONTENT_TYPE};
use crate::dispatch::{
    error_reply, error_response, reply_view, response, Action, ActionView, Dispatcher,
};
use crate::error::{invalid_params, invalid_request, json_view, RpcError};
use crate::frame::{frame_type_of, framed, payload, FrameType, FrameView, Message};
use crate::id_map::IdMap;
use crate::json::{array_tree, lemma_array, readable, reads_as, Json, Tree};
use crate::request::{Request, RequestView};
use crate::response::{failure, success, Response, ResponseView};
use crate::subscription::{id_tree, ids_of, ids_view, SubId, SubscriptionId};
use crate::text::{same, strs_view, texts_view};
use std::collections::VecDeque;
use vstd::prelude::*;

verus! {

/// The state of a JSON-RPC server. A subscription is stopped by its handle, of type `N`.
pub struct Server<D: Dispatcher, N> {
    config: Config,
    dispatcher: D,
    next_id: u64,
    subscription_notifiers: IdMap<N>,
}

/// What the state of a server is.
#[verifier::ext_equal]
pub struct ServerView<D, N> {
    /// The configuration.
    pub config: Config,
    /// The dispatcher.
    pub dispatcher: D,
    /// The ID that the next stream gets.
    pub next_id: u64,
    /// The handles of the subscriptions.
    pub notifiers: Map<SubId, N>,
}

impl<D: Dispatcher, N> View for Server<D, N> {
    type V = ServerView<D, N>;

    closed spec fn view(&self) -> ServerView<D, N> {
        ServerView {
            config: self.config,
            dispatcher: self.dispatcher,
            next_id: self.next_id,
            notifiers: self.subscription_notifiers@,
        }
    }
}

/// A server that was just created.
pub open spec fn new_server<D, N>(config: Config, dispatcher: D) -> ServerView<D, N> {
    ServerView { config, dispatcher, next_id: 1, notifiers: Map::empty() }
}

/// The response in the outcome of a call, if there is one.
pub open spec fn outcome_reply<N>(outcome: Option<(Response, Option<N>)>) -> Option<ResponseView> {
    match outcome {
        Some((response, _)) => Some(response@),
        None => None,
    }
}

/// The handle of the subscription that a call opened, if it opened one.
pub open spec fn outcome_handle<N>(outcome: Option<(Response, Option<N>)>) -> Option<N> {
    match outcome {
        Some((_, handle)) => handle,
        None => None,
    }
}

/// What a request comes to, and what is to be done before.
pub struct Handled<C, N> {
    /// The warnings to be logged.
    pub warnings: Vec<String>,
    /// The handles of the subscriptions that are to be stopped.
    pub stopped: Vec<N>,
    /// What is to be done. A call comes with the ID of the stream that it may open.
    pub action: Action<(u64, C)>,
}

/// What a request comes to, and what is to be done before.
#[verifier::ext_equal]
pub struct HandledView<V, N> {
    /// The warnings to be logged.
    pub warnings: Seq<Seq<char>>,
    /// The handles of the subscriptions that are to be stopped.
    pub stopped: Seq<N>,
    /// What is to be done.
    pub action: ActionView<(u64, V)>,
}

impl<C: View, N> View for Handled<C, N> {
    type V = HandledView<C::V, N>;

    open spec fn view(&self) -> HandledView<C::V, N> {
        HandledView {
            warnings: texts_view(self.warnings@),
            stopped: self.stopped@,
            action: self.action@,
        }
    }
}

/// A request that is answered at once, with nothing else to be done.
pub open spec fn answered<V, N>(reply: Option<ResponseView>) -> HandledView<V, N> {
    HandledView {
        warnings: Seq::empty(),
        stopped: Seq::empty(),
        action: ActionView::Reply(reply),
    }
}

/// The ID after `n`. The first follows the last.
pub open spec fn next_id(n: u64) -> u64 {
    if n == u64::MAX {
        0
    } else {
        (n + 1) as u64
    }
}

/// The ID that is reached from `n` in `k` steps.
pub open spec fn id_after(n: u64, k: nat) -> u64
    decreases k,
{
    if k == 0 {
        n
    } else {
        next_id(id_after(n, (k - 1) as nat))
    }
}

/// The ID that is reached from `n` in fewer than 2^64 steps.
pub proof fn lemma_id_after(n: u64, k: nat)
    requires
        k <= u64::MAX,
    ensures
        id_after(n, k) == if n + k <= u64::MAX {
            n + k
        } else {
            n + k - u64::MAX - 1
        },
    decreases k,
{
    if k > 0 {
        lemma_id_after(n, (k - 1) as nat);
    }
}

/// No two of 2^64 IDs in a row are the same.
pub proof fn lemma_ids_are_unique(n: u64, j: nat, k: nat)
    requires
        j < k <= u64::MAX,
    ensures
        id_after(n, j) != id_after(n, k),
{
    lemma_id_after(n, j);
    lemma_id_after(n, k);
}

/// Those of the IDs that are known, each where it comes first.
pub open spec fn terminated(ids: Seq<SubId>, known: Set<SubId>) -> Seq<SubId>
    decreases ids.len(),
{
    if ids.len() == 0 {
        Seq::empty()
    } else {
        let before = terminated(ids.drop_last(), known);
        if known.contains(ids.last()) && !ids.drop_last().contains(ids.last()) {
            before.push(ids.last())
        } else {
            before
        }
    }
}

/// The JSON form of a list of IDs.
pub open spec fn ids_tree(ids: Seq<SubId>) -> Tree {
    Tree::Array(ids.map_values(|id: SubId| id_tree(id)))
}

/// The IDs that are terminated are those that are asked for and known, each once.
pub proof fn lemma_terminated(ids: Seq<SubId>, known: Set<SubId>)
    ensures
        forall|id: SubId| #[trigger]
            terminated(ids, known).contains(id) <==> ids.contains(id) && known.contains(id),
        terminated(ids, known).no_duplicates(),
    decreases ids.len(),
{
    if ids.len() > 0 {
        let rest = ids.drop_last();
        let last = ids.last();
        lemma_terminated(rest, known);
        let before = terminated(rest, known);
        let after = terminated(ids, known);
        assert(ids =~= rest.push(last));
        assert forall|id: SubId| #[trigger] after.contains(id) <==> ids.contains(id)
            && known.contains(id) by {
            assert(before.contains(id) <==> rest.contains(id) && known.contains(id));
            assert(ids.contains(id) <==> rest.contains(id) || id == last) by {
                if rest.contains(id) {
                    let j = choose|j: int| 0 <= j < rest.len() && rest[j] == id;
                    assert(ids[j] == id);
                }
                if id == last {
                    assert(ids[ids.len() - 1] == id);
                }
            }
            if before.contains(id) {
                let j = choose|j: int| 0 <= j < before.len() && before[j] == id;
                assert(after[j] == id);
            }
            if after.len() > before.len() {
                assert(after[before.len() as int] == last);
            }
        }
        assert(!before.contains(last) || after == before);
    }
}

/// What `unsubscribe` comes to: the answer, and the IDs of the subscriptions that are stopped.
///
/// The parameters are a list of IDs, of which those that are known are stopped and listed in the
/// answer. The answer is sent even to a request without an ID; an error is not.
pub open spec fn unsubscribed(request: RequestView, known: Set<SubId>) -> (
    Option<ResponseView>,
    Seq<SubId>,
) {
    match request.params {
        None => (
            error_reply(
                request.id,
                invalid_request(
                    Some("Missing request parameter containing a list of subscription ids"@),
                ),
            ),
            Seq::empty(),
        ),
        Some(params) => match ids_of(params) {
            None => (
                error_reply(
                    request.id,
                    invalid_params(Some("A list of subscription ids is not provided"@)),
                ),
                Seq::empty(),
            ),
            Some(ids) => if ids.len() == 0 {
                (
                    error_reply(
                        request.id,
                        invalid_params(Some("Empty list of subscription ids provided"@)),
                    ),
                    Seq::empty(),
                )
            } else {
                (
                    Some(
                        success(
                            match request.id {
                                Some(id) => id,
                                None => Tree::Null,
                            },
                            ids_tree(terminated(ids, known)),
                        ),
                    ),
                    terminated(ids, known),
                )
            },
        },
    }
}

/// The JSON form of a list of names.
pub open spec fn names_tree(names: Seq<Seq<char>>) -> Tree {
    Tree::Array(names.map_values(|s: Seq<char>| Tree::String(s)))
}

/// The answer with a list of names, if one is expected.
pub open spec fn names_reply(id: Option<Tree>, names: Seq<Seq<char>>) -> Option<ResponseView> {
    match id {
        Some(id) => Some(success(id, names_tree(names))),
        None => None,
    }
}

/// The state of a server after it dispatched a request.
pub open spec fn after_dispatch<D, N>(s: ServerView<D, N>) -> ServerView<D, N> {
    ServerView { next_id: next_id(s.next_id), ..s }
}

/// The state of a server after it stopped subscriptions.
pub open spec fn after_unsubscribe<D, N>(s: ServerView<D, N>, ids: Seq<SubId>) -> ServerView<
    D,
    N,
> {
    ServerView { notifiers: s.notifiers.remove_keys(ids.to_set()), ..s }
}

/// The handles of subscriptions.
pub open spec fn handles<N>(notifiers: Map<SubId, N>, ids: Seq<SubId>) -> Seq<N> {
    ids.map_values(|id: SubId| notifiers[id])
}

/// The state of a server after a request.
pub open spec fn after_request<D: Dispatcher, N>(
    s: ServerView<D, N>,
    request: RequestView,
) -> ServerView<D, N> {
    if request.method == "unsubscribe"@ {
        after_unsubscribe(s, unsubscribed(request, s.notifiers.dom()).1)
    } else if request.method == "rpc.methods"@ || request.method == "rpc.deprecatedMethods"@ {
        s
    } else {
        after_dispatch(s)
    }
}

/// What a request comes to: `unsubscribe`, `rpc.methods` and `rpc.deprecatedMethods` are answered
/// by the server itself, all else is dispatched.
pub open spec fn handled<D: Dispatcher, N>(
    s: ServerView<D, N>,
    request: RequestView,
    notifiable: bool,
    frame_type: Option<FrameType>,
) -> HandledView<<D::Call as View>::V, N> {
    if request.method == "unsubscribe"@ {
        let (reply, ids) = unsubscribed(request, s.notifiers.dom());
        HandledView {
            warnings: Seq::empty(),
            stopped: handles(s.notifiers, ids),
            action: ActionView::Reply(reply),
        }
    } else if request.method == "rpc.methods"@ {
        answered(names_reply(request.id, s.dispatcher.names()))
    } else if request.method == "rpc.deprecatedMethods"@ {
        answered(names_reply(request.id, s.dispatcher.deprecated()))
    } else {
        let inner = s.dispatcher.dispatched(request, notifiable, s.next_id, frame_type);
        HandledView {
            warnings: inner.warnings,
            stopped: Seq::empty(),
            action: match inner.action {
                ActionView::Reply(r) => ActionView::Reply(r),
                ActionView::Call(c) => ActionView::Call((s.next_id, c)),
            },
        }
    }
}

/// Writes a list of names.
fn names_value(names: Vec<&str>) -> (r: Json)
    ensures
        r@ == names_tree(strs_view(names@)),
{
    broadcast use lemma_array;

    let mut items: Vec<Json> = Vec::new();
    for i in 0..names.len()
        invariant
            items@.len() == i,
            forall|j: int| 0 <= j < i ==> (#[trigger] items@[j])@ == Tree::String(names@[j]@),
    {
        items.push(Json::String(names[i].to_owned()));
    }
    assert(array_tree(items@)->Array_0 =~= names_tree(strs_view(names@))->Array_0);
    Json::Array(items)
}

/// The answer to a failed `unsubscribe`.
fn unsubscribe_failed(id: Option<Json>, e: RpcError) -> (r: Option<Response>)
    ensures
        reply_view(r) == error_reply(json_view(id), e@),
{
    error_response(
        id,
        || -> (x: RpcError)
            ensures
                x@ == e@
            { e },
    )
}

impl<D: Dispatcher, N> Server<D, N> {
    /// Creates a new JSON-RPC server.
    ///
    /// # Arguments
    ///
    ///  - `config`: The server configuration.
    ///  - `dispatcher`: The dispatcher that takes a request and decides which method is called.
    pub fn new(config: Config, dispatcher: D) -> (r: Self)
        ensures
            r@ == (ServerView {
                config,
                dispatcher,
                next_id: 1,
                notifiers: Map::<SubId, N>::empty(),
            }),
            r@ == new_server::<D, N>(config, dispatcher),
    {
        Server { config, dispatcher, next_id: 1, subscription_notifiers: IdMap::new() }
    }

    /// Returns a borrow to the server config.
    pub fn config(&self) -> (r: &Config)
        ensures
            *r == self@.config,
    {
        &self.config
    }

    /// Returns a borrow to the server's dispatcher.
    pub fn dispatcher(&self) -> (r: &D)
        ensures
            *r == self@.dispatcher,
    {
        &self.dispatcher
    }

    /// Returns a mutable borrow to the server's dispatcher.
    pub fn dispatcher_mut(&mut self) -> (r: &mut D)
        ensures
            *r == old(self)@.dispatcher,
            final(self)@ == (ServerView { dispatcher: *final(r), ..old(self)@ }),
    {
        &mut self.dispatcher
    }

    /// Stops subscriptions.
    fn handle_unsubscribe_stream(&mut self, request: Request) -> (r: (Option<Response>, Vec<N>))
        ensures
            reply_view(r.0) == unsubscribed(request@, old(self)@.notifiers.dom()).0,
            r.1@ == handles(
                old(self)@.notifiers,
                unsubscribed(request@, old(self)@.notifiers.dom()).1,
            ),
            final(self)@ == after_unsubscribe(
                old(self)@,
                unsubscribed(request@, old(self)@.notifiers.dom()).1,
            ),
    {
        let ghost notifiers = self@.notifiers;
        let ghost known = notifiers.dom();
        let ghost start = self@;
        let mut stopped: Vec<N> = Vec::new();
        proof {
            assert(handles(notifiers, Seq::<SubId>::empty()) =~= Seq::empty());
            assert(notifiers.remove_keys(Seq::<SubId>::empty().to_set()) =~= notifiers);
        }
        let params = match request.params {
            Some(params) => params,
            None => {
                let e = RpcError::invalid_request(
                    Some(
                        "Missing request parameter containing a list of subscription ids".to_owned(),
                    ),
                );
                return (unsubscribe_failed(request.id, e), stopped);
            },
        };
        let ids = match SubscriptionId::read_list(&params) {
            Some(ids) => ids,
            None => {
                let e = RpcError::invalid_params(
                    Some("A list of subscription ids is not provided".to_owned()),
                );
                return (unsubscribe_failed(request.id, e), stopped);
            },
        };
        if ids.len() == 0 {
            let e = RpcError::invalid_params(
                Some("Empty list of subscription ids provided".to_owned()),
            );
            return (unsubscribe_failed(request.id, e), stopped);
        }
        let ghost all = ids_view(ids@);
        let mut terminated_streams: Vec<SubscriptionId> = Vec::new();
        for i in 0..ids.len()
            invariant
                all == ids_view(ids@),
                known == notifiers.dom(),
                self@ == (ServerView {
                    notifiers: notifiers.remove_keys(all.take(i as int).to_set()),
                    ..start
                }),
                ids_view(terminated_streams@) == terminated(all.take(i as int), known),
                stopped@ == handles(notifiers, terminated(all.take(i as int), known)),
        {
            let ghost before = all.take(i as int);
            let ghost id = all[i as int];
            proof {
                assert(all.take(i + 1).drop_last() =~= before);
                assert(all.take(i + 1).last() == id);
                lemma_take_set(all, i as int);
            }
            let ghost ids_before = terminated_streams@;
            if let Some(notifier) = self.subscription_notifiers.remove(&ids[i]) {
                stopped.push(notifier);
                terminated_streams.push(ids[i].clone());
                proof {
                    assert(known.contains(id) && !before.contains(id));
                    assert(ids_view(terminated_streams@) =~= ids_view(ids_before).push(id));
                    assert(stopped@ =~= handles(notifiers, terminated(all.take(i + 1), known)));
                }
            }
            assert(self@.notifiers =~= notifiers.remove_keys(all.take(i + 1).to_set()));
        }
        proof {
            assert(all.take(all.len() as int) =~= all);
            lemma_terminated(all, known);
            let ended = terminated(all, known);
            assert forall|id: SubId| known.contains(id) implies (all.to_set().contains(id)
                <==> ended.to_set().contains(id)) by {
                assert(ended.contains(id) <==> all.contains(id) && known.contains(id));
            }
            assert(notifiers.remove_keys(all.to_set()) =~= notifiers.remove_keys(ended.to_set()));
        }
        let id = match request.id {
            Some(id) => id,
            None => Json::Null,
        };
        let value = SubscriptionId::list_to_value(&terminated_streams);
        (Some(Response::new_success(id, value)), stopped)
    }

    /// Handles a single JSON RPC request
    ///
    /// # Arguments
    ///
    ///  - `request`: The request that was received.
    ///  - `notifiable`: Whether notifications can be sent to the client: whether the request was
    ///    received over websocket.
    ///  - `frame_type`: How notifications are sent to the client.
    pub fn handle_single_request(
        &mut self,
        request: Request,
        notifiable: bool,
        frame_type: Option<FrameType>,
    ) -> (r: Handled<D::Call, N>)
        ensures
            r@ == handled(old(self)@, request@, notifiable, frame_type),
            final(self)@ == after_request(old(self)@, request@),
    {
        if same(request.method.as_str(), "unsubscribe") {
            let (reply, stopped) = self.handle_unsubscribe_stream(request);
            let r = Handled { warnings: Vec::new(), stopped, action: Action::Reply(reply) };
            assert(r@.warnings =~= Seq::empty());
            return r;
        }
        if same(request.method.as_str(), "rpc.methods") {
            let names = names_value(self.dispatcher.method_names());
            return Self::answer(request.id, names);
        }
        if same(request.method.as_str(), "rpc.deprecatedMethods") {
            let names = names_value(self.dispatcher.deprecated_methods());
            return Self::answer(request.id, names);
        }
        // This ID is only used for streams
        let id: u64 = self.next_id;
        self.next_id = id.wrapping_add(1);
        let inner = self.dispatcher.dispatch(request, notifiable, id, frame_type);
        Handled {
            warnings: inner.warnings,
            stopped: Vec::new(),
            action: match inner.action {
                Action::Reply(reply) => Action::Reply(reply),
                Action::Call(call) => Action::Call((id, call)),
            },
        }
    }

    /// Answers a request with a list of names.
    fn answer(id: Option<Json>, names: Json) -> (r: Handled<D::Call, N>)
        ensures
            r@ == answered::<<D::Call as View>::V, N>(
                match json_view(id) {
                    Some(id) => Some(success(id, names@)),
                    None => None,
                },
            ),
    {
        let reply = match response::<N>(id, Ok((names, None))) {
            Some((reply, _)) => Some(reply),
            None => None,
        };
        let r = Handled { warnings: Vec::new(), stopped: Vec::new(), action: Action::Reply(reply) };
        assert(r@.warnings =~= Seq::empty());
        r
    }

    /// Takes the outcome of a call: the response, if one is expected, and the handle of the
    /// subscription that was opened, under the ID of its stream.
    pub fn finish_call(&mut self, stream_id: u64, outcome: Option<(Response, Option<N>)>) -> (r:
        Option<Response>)
        ensures
            match outcome {
                Some((response, _)) => r == Some(response),
                None => r is None,
            },
            final(self)@ == after_call(
                old(self)@,
                stream_id,
                match outcome {
                    Some((_, handle)) => handle,
                    None => None,
                },
            ),
            reply_view(r) == outcome_reply(outcome),
            final(self)@ == after_call(old(self)@, stream_id, outcome_handle(outcome)),
    {
        match outcome {
            Some((response, Some(handle))) => {
                self.subscription_notifiers.insert(SubscriptionId::Number(stream_id), handle);
                Some(response)
            },
            Some((response, None)) => Some(response),
            None => None,
        }
    }
}

/// The state of a server after a call, which may have opened a subscription.
pub open spec fn after_call<D, N>(
    s: ServerView<D, N>,
    stream_id: u64,
    handle: Option<N>,
) -> ServerView<D, N> {
    match handle {
        Some(handle) => ServerView {
            notifiers: s.notifiers.insert(SubId::Number(stream_id), handle),
            ..s
        },
        None => s,
    }
}

/// The set of the first items grows by the next.
proof fn lemma_take_set(s: Seq<SubId>, i: int)
    requires
        0 <= i < s.len(),
    ensures
        s.take(i + 1).to_set() == s.take(i).to_set().insert(s[i]),
{
    let a = s.take(i);
    let b = s.take(i + 1);
    assert forall|id: SubId| b.to_set().contains(id) <==> a.to_set().insert(s[i]).contains(id) by {
        if b.contains(id) {
            let j = choose|j: int| 0 <= j < b.len() && b[j] == id;
            if j < i {
                assert(a[j] == id);
            }
        }
        if a.contains(id) {
            let j = choose|j: int| 0 <= j < a.len() && a[j] == id;
            assert(b[j] == id);
        }
        if id == s[i] {
            assert(b[i] == id);
        }
    }
    assert(b.to_set() =~= a.to_set().insert(s[i]));
}

/// A subscription can be stopped once: the same `unsubscribe` again finds none of its
/// subscriptions.
pub proof fn lemma_unsubscribe_once<D: Dispatcher, N>(s: ServerView<D, N>, request: RequestView)
    requires
        request.method == "unsubscribe"@,
    ensures
        unsubscribed(request, after_request(s, request).notifiers.dom()).1 == Seq::<SubId>::empty(),
{
    let known = s.notifiers.dom();
    let ended = unsubscribed(request, known).1;
    let left = after_request(s, request).notifiers.dom();
    let again = unsubscribed(request, left).1;
    if request.params is Some && ids_of(request.params->0) is Some {
        let ids = ids_of(request.params->0)->0;
        lemma_terminated(ids, known);
        lemma_terminated(ids, left);
        if ids.len() > 0 && again.len() > 0 {
            let id = again[0];
            assert(terminated(ids, left).contains(id));
            assert(terminated(ids, known).contains(id));
            assert(ended.to_set().contains(id));
            assert(false);
        }
        assert(again =~= Seq::<SubId>::empty());
    }
}

/// A subscription that a call opened is stopped by an `unsubscribe` that lists its ID: its handle
/// is among those to be stopped, the answer lists it, and it is known no more.
pub proof fn lemma_unsubscribe_stops<D: Dispatcher, N>(
    s: ServerView<D, N>,
    stream_id: u64,
    handle: N,
    request: RequestView,
    notifiable: bool,
    frame_type: Option<FrameType>,
)
    requires
        request.method == "unsubscribe"@,
        request.params matches Some(params) && (ids_of(params) matches Some(ids) && ids.contains(
            SubId::Number(stream_id),
        )),
    ensures
        ({
            let opened = after_call(s, stream_id, Some(handle));
            let ended = unsubscribed(request, opened.notifiers.dom()).1;
            &&& handled(opened, request, notifiable, frame_type).stopped.contains(handle)
            &&& ended.contains(SubId::Number(stream_id))
            &&& handled(opened, request, notifiable, frame_type).action == ActionView::<
                (u64, <D::Call as View>::V),
            >::Reply(
                Some(
                    success(
                        match request.id {
                            Some(id) => id,
                            None => Tree::Null,
                        },
                        ids_tree(ended),
                    ),
                ),
            )
            &&& !after_request(opened, request).notifiers.contains_key(SubId::Number(stream_id))
        }),
{
    let id = SubId::Number(stream_id);
    let opened = after_call(s, stream_id, Some(handle));
    let known = opened.notifiers.dom();
    let ids = ids_of(request.params->0)->0;
    lemma_terminated(ids, known);
    let ended = terminated(ids, known);
    assert(ended.contains(id));
    let j = choose|j: int| 0 <= j < ended.len() && ended[j] == id;
    assert(handles(opened.notifiers, ended)[j] == handle);
    assert(ended.to_set().contains(id));
}

/// How the reply to some responses is made: of a list all, of a single one the first, and nothing
/// where it is expected to be none.
pub open spec fn collected(batch: bool, responses: Seq<ResponseView>) -> Option<
    BatchView<ResponseView>,
> {
    if batch {
        Some(BatchView::Batch(responses))
    } else if responses.len() > 0 {
        Some(BatchView::Single(responses[0]))
    } else {
        None
    }
}

/// The message with some responses, if there is one. It is text where the request was text.
pub open spec fn reply_frame(b: Option<BatchView<ResponseView>>, text: bool) -> Option<FrameView> {
    match b {
        Some(b) => Some(framed(responses_tree(b), text)),
        None => None,
    }
}

/// Whether the message with some responses is read back as their JSON form, unless that holds
/// fractions or is nested too deep.
pub open spec fn reply_reads_back(m: Option<Message>, b: Option<BatchView<ResponseView>>) -> bool {
    match (m, b) {
        (Some(m), Some(b)) => readable(responses_tree(b), 127) ==> reads_as(
            payload(m@),
            responses_tree(b),
        ),
        _ => true,
    }
}

/// What an optional message says.
pub open spec fn message_view(m: Option<Message>) -> Option<FrameView> {
    match m {
        Some(m) => Some(m@),
        None => None,
    }
}

/// The answer to what is not JSON, or not a request.
pub open spec fn invalid_json_reply() -> ResponseView {
    failure(Tree::Null, invalid_request(Some("Received invalid JSON"@)))
}

/// A message of a client that is being answered: the requests that are left, and the responses so
/// far. One request after the other is handled; then the reply is sent.
pub struct Exchange {
    batch: bool,
    pending: VecDeque<Request>,
    responses: Vec<Response>,
    text: bool,
    notifiable: bool,
    frame_type: Option<FrameType>,
}

/// What an exchange is.
#[verifier::ext_equal]
pub struct ExchangeView {
    /// Whether the message held a list of requests.
    pub batch: bool,
    /// The requests that are left.
    pub pending: Seq<RequestView>,
    /// The responses so far.
    pub responses: Seq<ResponseView>,
    /// Whether the message was text.
    pub text: bool,
    /// Whether notifications can be sent to the client.
    pub notifiable: bool,
    /// How notifications are sent to the client.
    pub frame_type: Option<FrameType>,
}

impl View for Exchange {
    type V = ExchangeView;

    closed spec fn view(&self) -> ExchangeView {
        ExchangeView {
            batch: self.batch,
            pending: self.pending@.map_values(|r: Request| r@),
            responses: responses_view(self.responses@),
            text: self.text,
            notifiable: self.notifiable,
            frame_type: self.frame_type,
        }
    }
}

/// How the answer to a message begins.
pub open spec fn opened(
    message: FrameView,
    notifiable: bool,
    frame_type: Option<FrameType>,
) -> ExchangeView {
    let parsed = requests_from(payload(message));
    ExchangeView {
        batch: parsed matches Ok(BatchView::Batch(_)),
        pending: match parsed {
            Ok(BatchView::Single(r)) => seq![r],
            Ok(BatchView::Batch(s)) => s,
            Err(_) => Seq::empty(),
        },
        responses: match parsed {
            Ok(_) => Seq::empty(),
            Err(_) => seq![invalid_json_reply()],
        },
        text: message is Text,
        notifiable,
        frame_type,
    }
}

/// An exchange with one more response, if there is one.
pub open spec fn with_response(x: ExchangeView, r: Option<ResponseView>) -> ExchangeView {
    match r {
        Some(r) => ExchangeView { responses: x.responses.push(r), ..x },
        None => x,
    }
}

/// An exchange without its next request.
pub open spec fn without_next(x: ExchangeView) -> ExchangeView {
    ExchangeView { pending: x.pending.drop_first(), ..x }
}

/// What is to be done next in an exchange.
pub enum Step<C, N> {
    /// A request was answered, or a method is to be called for it, whose outcome goes to
    /// [`Exchange::resume`].
    Request(Handled<C, N>),
    /// The reply is to be sent, if there is one, and the exchange ends.
    Done(Option<Message>),
}

/// What is to be done next in an exchange.
pub enum StepView<V, N> {
    /// A request was answered, or a method is to be called for it.
    Request(HandledView<V, N>),
    /// The reply is to be sent, if there is one, and the exchange ends.
    Done(Option<FrameView>),
}

impl<C: View, N> View for Step<C, N> {
    type V = StepView<C::V, N>;

    open spec fn view(&self) -> StepView<C::V, N> {
        match *self {
            Step::Request(h) => StepView::Request(h@),
            Step::Done(m) => StepView::Done(message_view(m)),
        }
    }
}

/// What is to be done next in an exchange. A response that is there is kept for the reply.
pub open spec fn next_step<D: Dispatcher, N>(x: ExchangeView, s: ServerView<D, N>) -> StepView<
    <D::Call as View>::V,
    N,
> {
    if x.pending.len() == 0 {
        StepView::Done(reply_frame(collected(x.batch, x.responses), x.text))
    } else {
        let h = handled(s, x.pending[0], x.notifiable, x.frame_type);
        StepView::Request(
            HandledView {
                action: match h.action {
                    ActionView::Reply(_) => ActionView::Reply(None),
                    ActionView::Call(c) => ActionView::Call(c),
                },
                ..h
            },
        )
    }
}

/// An exchange after its next step.
pub open spec fn after_next_step<D: Dispatcher, N>(
    x: ExchangeView,
    s: ServerView<D, N>,
) -> ExchangeView {
    if x.pending.len() == 0 {
        x
    } else {
        match handled(s, x.pending[0], x.notifiable, x.frame_type).action {
            ActionView::Reply(reply) => with_response(without_next(x), reply),
            ActionView::Call(_) => without_next(x),
        }
    }
}

impl Exchange {
    /// Begins to answer a message, received as POST request, or as websocket message.
    ///
    /// # Arguments
    ///
    ///  - `message`: The message.
    ///  - `notifiable`: Whether notifications can be sent to the client: whether the message was
    ///    received over websocket.
    ///  - `frame_type`: How notifications are sent to the client.
    pub fn open(message: &Message, notifiable: bool, frame_type: Option<FrameType>) -> (r: Self)
        ensures
            r@ == opened(message@, notifiable, frame_type),
    {
        let text = message.is_text();
        let mut pending: VecDeque<Request> = VecDeque::new();
        let mut responses: Vec<Response> = Vec::new();
        let mut batch = false;
        match SingleOrBatch::<Request>::from_slice(message.as_bytes()) {
            Ok(SingleOrBatch::Single(request)) => {
                pending.push_back(request);
            },
            Ok(SingleOrBatch::Batch(requests)) => {
                batch = true;
                let ghost all = requests@;
                for request in it: requests
                    invariant
                        it.seq() == all,
                        pending@ == all.take(it.index() as int),
                {
                    pending.push_back(request);
                    assert(pending@ =~= all.take(it.index() + 1));
                }
                assert(pending@ =~= all);
            },
            Err(_) => {
                let error = RpcError::invalid_request(Some("Received invalid JSON".to_owned()));
                responses.push(Response::new_error(Json::Null, error));
            },
        }
        let r = Exchange { batch, pending, responses, text, notifiable, frame_type };
        assert(r@.pending =~= opened(message@, notifiable, frame_type).pending);
        assert(r@.responses =~= opened(message@, notifiable, frame_type).responses);
        r
    }

    /// Adds a response, if there is one.
    fn add(&mut self, response: Option<Response>)
        ensures
            final(self)@ == with_response(old(self)@, reply_view(response)),
    {
        if let Some(response) = response {
            self.responses.push(response);
            assert(self@.responses =~= old(self)@.responses.push(response@));
        }
    }

    /// Handles the next request, or sends the reply where no request is left.
    pub fn step<D: Dispatcher, N>(&mut self, server: &mut Server<D, N>) -> (r: Step<D::Call, N>)
        ensures
            if old(self)@.pending.len() == 0 {
                &&& r matches Step::Done(m) && message_view(m) == reply_frame(
                    collected(old(self)@.batch, old(self)@.responses),
                    old(self)@.text,
                ) && reply_reads_back(m, collected(old(self)@.batch, old(self)@.responses))
                &&& final(self)@ == old(self)@
                &&& final(server)@ == old(server)@
            } else {
                let request = old(self)@.pending[0];
                let h = handled(
                    old(server)@,
                    request,
                    old(self)@.notifiable,
                    old(self)@.frame_type,
                );
                &&& r matches Step::Request(x) && x.warnings@.map_values(|s: String| s@)
                    == h.warnings && x.stopped@ == h.stopped && match h.action {
                    // The response is kept for the reply.
                    ActionView::Reply(_) => x.action == Action::<(u64, D::Call)>::Reply(None),
                    ActionView::Call(_) => x.action@ == h.action,
                }
                &&& final(server)@ == after_request(old(server)@, request)
                &&& final(self)@ == match h.action {
                    ActionView::Reply(reply) => with_response(without_next(old(self)@), reply),
                    ActionView::Call(_) => without_next(old(self)@),
                }
            },
            r@ == next_step(old(self)@, old(server)@),
            final(self)@ == after_next_step(old(self)@, old(server)@),
    {
        let request = match self.pending.pop_front() {
            Some(request) => request,
            None => {
                return Step::Done(self.reply());
            },
        };
        assert(self@.pending =~= old(self)@.pending.drop_first());
        assert(request@ == old(self)@.pending[0]);
        let Handled { warnings, stopped, action } = server.handle_single_request(
            request,
            self.notifiable,
            self.frame_type,
        );
        match action {
            Action::Reply(reply) => {
                self.add(reply);
                Step::Request(Handled { warnings, stopped, action: Action::Reply(None) })
            },
            Action::Call(call) => {
                Step::Request(Handled { warnings, stopped, action: Action::Call(call) })
            },
        }
    }

    /// Takes the outcome of a call that was made for a request.
    pub fn resume<D: Dispatcher, N>(
        &mut self,
        server: &mut Server<D, N>,
        stream_id: u64,
        outcome: Option<(Response, Option<N>)>,
    )
        ensures
            final(self)@ == with_response(
                old(self)@,
                match outcome {
                    Some((response, _)) => Some(response@),
                    None => None,
                },
            ),
            final(server)@ == after_call(
                old(server)@,
                stream_id,
                match outcome {
                    Some((_, handle)) => handle,
                    None => None,
                },
            ),
            final(self)@ == with_response(old(self)@, outcome_reply(outcome)),
            final(server)@ == after_call(old(server)@, stream_id, outcome_handle(outcome)),
    {
        let response = server.finish_call(stream_id, outcome);
        self.add(response);
    }

    /// The reply with the responses so far.
    fn reply(&mut self) -> (r: Option<Message>)
        ensures
            message_view(r) == reply_frame(
                collected(old(self)@.batch, old(self)@.responses),
                old(self)@.text,
            ),
            reply_reads_back(r, collected(old(self)@.batch, old(self)@.responses)),
            final(self)@ == old(self)@,
    {
        let mut responses: Vec<Response> = Vec::new();
        std::mem::swap(&mut responses, &mut self.responses);
        let ghost all = responses_view(responses@);
        let r = if self.batch {
            let batch = SingleOrBatch::Batch(responses);
            assert(batch@ == BatchView::Batch(all));
            let value = batch.to_value();
            if let SingleOrBatch::Batch(responses) = batch {
                self.responses = responses;
            }
            Some(Message::frame(&value, self.text))
        } else if responses.len() > 0 {
            assert(all[0] == responses@[0]@);
            let value = responses[0].to_value();
            self.responses = responses;
            Some(Message::frame(&value, self.text))
        } else {
            self.responses = responses;
            None
        };
        r
    }
}

/// A reply over HTTP.
#[derive(Debug, PartialEq, Eq)]
pub struct HttpReply {
    /// The status.
    pub status: u16,
    /// The content type.
    pub content_type: &'static str,
    /// The body.
    pub body: Vec<u8>,
}

/// The body of the reply over HTTP to a POST request.
pub open spec fn http_body(reply: Option<FrameView>) -> Seq<u8> {
    match reply {
        Some(m) => payload(m),
        None => Seq::empty(),
    }
}

/// The reply over HTTP to a POST request. Its body is empty where there is no response.
pub fn http_reply(reply: Option<Message>) -> (r: HttpReply)
    ensures
        r.status == 200,
        r.content_type@ == CONTENT_TYPE@,
        r.body@ == match message_view(reply) {
            Some(m) => payload(m),
            None => Seq::empty(),
        },
        r.body@ == http_body(message_view(reply)),
{
    let mut body: Vec<u8> = Vec::new();
    if let Some(message) = reply {
        let bytes = message.as_bytes();
        for i in 0..bytes.len()
            invariant
                body@ == bytes@.take(i as int),
        {
            body.push(bytes[i]);
            assert(body@ =~= bytes@.take(i + 1));
        }
        assert(bytes@.take(bytes@.len() as int) =~= bytes@);
    }
    HttpReply { status: 200, content_type: CONTENT_TYPE, body }
}

/// What is done with a message that a websocket received.
#[derive(Clone, Copy, Debug, PartialEq, Eq, Structural)]
pub enum Received {
    /// Nothing: it is handled by the transport.
    Ignore,
    /// It is answered.
    Answer,
    /// A close message is put into the queue, and no more messages are received.
    Close,
}

/// What is done with a message that comes out of the queue to a client.
#[derive(Clone, Copy, Debug, PartialEq, Eq, Structural)]
pub enum Forwarded {
    /// It is sent.
    Send,
    /// The sink is closed. A close message is not echoed, since this is not permitted.
    CloseSink,
}

/// The connection to a client over websocket.
pub struct WebsocketSession {
    frame_type: Option<FrameType>,
    open: bool,
}

/// What the connection to a client is.
pub struct SessionView {
    /// How notifications are sent to the client.
    pub frame_type: Option<FrameType>,
    /// Whether messages are still received.
    pub open: bool,
}

impl View for WebsocketSession {
    type V = SessionView;

    closed spec fn view(&self) -> SessionView {
        SessionView { frame_type: self.frame_type, open: self.open }
    }
}

/// What is done with a message that a websocket received.
pub open spec fn received(m: FrameView) -> Received {
    match m {
        FrameView::Ping => Received::Ignore,
        FrameView::Pong => Received::Ignore,
        FrameView::Close => Received::Close,
        _ => Received::Answer,
    }
}

/// How notifications are sent to a client that asked for this in its query.
pub open spec fn asked_frame_type(param: Option<Seq<char>>) -> Option<FrameType> {
    match param {
        Some(s) => Some(frame_type_of(s)),
        None => None,
    }
}

/// What an optional text says.
pub open spec fn param_view(param: Option<&str>) -> Option<Seq<char>> {
    match param {
        Some(s) => Some(s@),
        None => None,
    }
}

/// The connection to a client after it received a message.
pub open spec fn after_received(s: SessionView, m: FrameView) -> SessionView {
    SessionView { open: received(m) != Received::Close, ..s }
}

/// What is done with a message that comes out of the queue to a client.
pub open spec fn forwarded(m: FrameView) -> Forwarded {
    if m is Close {
        Forwarded::CloseSink
    } else {
        Forwarded::Send
    }
}

impl WebsocketSession {
    /// A connection is upgraded to websocket.
    ///
    /// # Arguments
    ///
    ///  - `frame`: The parameter `frame` of the query, if it is there.
    pub fn upgrade_to_ws(frame: Option<&str>) -> (r: Self)
        ensures
            r@ == (SessionView {
                frame_type: match frame {
                    Some(s) => Some(frame_type_of(s@)),
                    None => None,
                },
                open: true,
            }),
            r@ == (SessionView { frame_type: asked_frame_type(param_view(frame)), open: true }),
    {
        WebsocketSession { frame_type: requested_frame_type(frame), open: true }
    }

    /// Whether messages are still received.
    pub fn is_open(&self) -> (r: bool)
        ensures
            r == self@.open,
    {
        self.open
    }

    /// Decides what is done with a message that was received. A close message is the last one.
    pub fn receive(&mut self, message: &Message) -> (r: Received)
        requires
            old(self)@.open,
        ensures
            r == received(message@),
            final(self)@ == (SessionView { open: r != Received::Close, ..old(self)@ }),
            final(self)@ == after_received(old(self)@, message@),
    {
        match message {
            Message::Ping => Received::Ignore,
            Message::Pong => Received::Ignore,
            Message::Close => {
                self.open = false;
                Received::Close
            },
            Message::Text(_) => Received::Answer,
            Message::Binary(_) => Received::Answer,
        }
    }

    /// Begins to answer a message.
    pub fn answer(&self, message: &Message) -> (r: Exchange)
        ensures
            r@ == opened(message@, true, self@.frame_type),
    {
        Exchange::open(message, true, self.frame_type)
    }

    /// Decides what is done with a message that comes out of the queue to the client.
    pub fn forward(message: &Message) -> (r: Forwarded)
        ensures
            r == forwarded(message@),
    {
        match message {
            Message::Close => Forwarded::CloseSink,
            _ => Forwarded::Send,
        }
    }
}

/// The frame type that a client asked for in the parameter `frame` of its query, if it did.
pub fn requested_frame_type(param: Option<&str>) -> (r: Option<FrameType>)
    ensures
        match param {
            Some(s) => r == Some(frame_type_of(s@)),
            None => r is None,
        },
        r == asked_frame_type(param_view(param)),
{
    match param {
        Some(s) => Some(FrameType::parse(s)),
        None => None,
    }
}

} // verus!
