//! What holds of the mathematical values that stand for the values of the library: nothing is left
//! out of them and nothing added.

use crate::args::{fault_view, indices_view, slots_view, Bound, BoundView};
use crate::auth::header_view;
use crate::batch::{
    responses_tree, responses_view, BatchView, MessageView, RequestOrResponse, SingleOrBatch,
};
use crate::config::{lists, valid_origin, valid_origins, Origins};
use crate::derive::{
    attribute_note, callable, deprecation_of, deprecation_view, not_named, params_view,
    warning_view, ArgsField, ArgsFieldView, ArgsStruct, Attribute, Deprecation, MatchArm, Param,
    ParamView, ProxyMethod, RpcMethod,
};
use crate::dispatch::{no_params, reply_view, Action, ActionView, Dispatched, EitherCall};
use crate::error::{json_view, text_view, Error, ErrorView, RpcError, RpcErrorView};
use crate::fields::{field_names, ref_view};
use crate::frame::{payload, FrameView, Message};
use crate::http::{Error as HttpError, ErrorView as HttpErrorView};
use crate::json::{
    array_tree, entry_members, lemma_array, readable, reads_as, Fraction, Json, JsonError,
    JsonNumber, JsonObject, Tree,
};
use crate::request::{Request, RequestView};
use crate::response::{error_view, Response, ResponseView};
use crate::server::{message_view, param_view, reply_reads_back, Handled, Step, StepView};
use crate::service::{
    all_callable, forwarder_view, methods_view, rename_option, stream_view, valid_rename,
    without_stream, Method, MethodCall, MethodCallView,
};
use crate::rename::rename_all_of;
use crate::shape::{counts_view, shape_view};
use crate::stream::{StreamAction, StreamActionView, StreamForwarder};
use crate::subscription::{ids_view, SubId, SubscriptionId, SubscriptionMessage};
use crate::text::{strs_view, texts_view};
use crate::websocket::{
    optional_response, Delivery, DeliveryView, Error as ClientError, ErrorView as ClientErrorView,
    ReaderAction, ReaderActionView,
};
use vstd::prelude::*;

verus! {

/// What JSON values say, kind by kind.
pub proof fn lemma_values(
    b: bool,
    n: u64,
    i: i64,
    f: Fraction,
    s: String,
    items: Vec<Json>,
    o: JsonObject,
    entries: Seq<(String, Json)>,
)
    ensures
        Json::Null@ == Tree::Null,
        Json::Bool(b)@ == Tree::Bool(b),
        Json::Number(JsonNumber::PosInt(n))@ == Tree::Int(n as int),
        Json::Number(JsonNumber::NegInt(i))@ == Tree::Int(i as int),
        Json::Number(JsonNumber::Float(f))@ == Tree::Float(f),
        Json::String(s)@ == Tree::String(s@),
        Json::Array(items)@ matches Tree::Array(list) && list.len() == items@.len() && forall|k: int|
            0 <= k < list.len() ==> #[trigger] list[k] == items@[k]@,
        Json::Object(o)@ == Tree::Object(o@),
        entry_members(entries).len() == entries.len(),
        forall|k: int|
            0 <= k < entries.len() ==> #[trigger] entry_members(entries)[k] == (
                entries[k].0@,
                entries[k].1@,
            ),
        array_tree(items@) == Json::Array(items)@,
{
    lemma_array(items);
}

/// What optional values and lists of values say.
pub proof fn lemma_options_and_lists(
    v: Json,
    s: String,
    r: Response,
    e: RpcError,
    m: Message,
    id: SubscriptionId,
    slots: Seq<Option<Json>>,
    order: Seq<usize>,
    texts: Seq<String>,
    strs: Seq<&str>,
    responses: Seq<Response>,
    ids: Seq<SubscriptionId>,
    names: Seq<&'static str>,
    counts: Seq<usize>,
    shape: Seq<Vec<usize>>,
)
    ensures
        json_view(Some(v)) == Some(v@) && json_view(None) is None,
        ref_view(Some(&v)) == Some(v@) && ref_view(None) is None,
        text_view(Some(s)) == Some(s@) && text_view(None) is None,
        fault_view(Some(s)) == Some(s@) && fault_view(None) is None,
        reply_view(Some(r)) == Some(r@) && reply_view(None) is None,
        optional_response(Some(r)) == Some(r@) && optional_response(None) is None,
        error_view(Some(e)) == Some(e@) && error_view(None) is None,
        message_view(Some(m)) == Some(m@) && message_view(None) is None,
        stream_view(Some(id)) == Some(id@) && stream_view(None) is None,
        slots_view(slots).len() == slots.len(),
        forall|i: int| 0 <= i < slots.len() ==> #[trigger] slots_view(slots)[i] == json_view(slots[i]),
        indices_view(order).len() == order.len(),
        forall|i: int| 0 <= i < order.len() ==> #[trigger] indices_view(order)[i] == order[i],
        texts_view(texts).len() == texts.len(),
        forall|i: int| 0 <= i < texts.len() ==> #[trigger] texts_view(texts)[i] == texts[i]@,
        strs_view(strs).len() == strs.len(),
        forall|i: int| 0 <= i < strs.len() ==> #[trigger] strs_view(strs)[i] == strs[i]@,
        responses_view(responses).len() == responses.len(),
        forall|i: int|
            0 <= i < responses.len() ==> #[trigger] responses_view(responses)[i] == responses[i]@,
        ids_view(ids).len() == ids.len(),
        forall|i: int| 0 <= i < ids.len() ==> #[trigger] ids_view(ids)[i] == ids[i]@,
        field_names(names).len() == names.len(),
        forall|i: int| 0 <= i < names.len() ==> #[trigger] field_names(names)[i] == names[i]@,
        counts_view(counts).len() == counts.len(),
        forall|i: int| 0 <= i < counts.len() ==> #[trigger] counts_view(counts)[i] == counts[i],
        shape_view(shape).len() == shape.len(),
        forall|i: int|
            0 <= i < shape.len() ==> #[trigger] shape_view(shape)[i] == counts_view(shape[i]@),
{
}

/// What messages say: each of their fields.
pub proof fn lemma_messages(
    q: Request,
    r: Response,
    e: RpcError,
    s: String,
    d: Vec<u8>,
    n: u64,
    m: SubscriptionMessage<Json>,
    qs: Vec<Request>,
    rs: Vec<Response>,
)
    ensures
        q@ == (RequestView {
            jsonrpc: q.jsonrpc@,
            method: q.method@,
            params: json_view(q.params),
            id: json_view(q.id),
        }),
        r@ == (ResponseView {
            jsonrpc: r.jsonrpc@,
            result: json_view(r.result),
            error: error_view(r.error),
            id: r.id@,
        }),
        e@ == (RpcErrorView {
            code: e.code as int,
            message: text_view(e.message),
            data: json_view(e.data),
        }),
        Message::Text(s)@ == FrameView::Text(s@),
        Message::Binary(d)@ == FrameView::Binary(d@),
        Message::Ping@ == FrameView::Ping,
        Message::Pong@ == FrameView::Pong,
        Message::Close@ == FrameView::Close,
        SubscriptionId::String(s)@ == SubId::String(s@),
        SubscriptionId::Number(n)@ == SubId::Number(n),
        m@.subscription == m.subscription@,
        m@.result == m.result@,
        SingleOrBatch::Single(q)@ == BatchView::Single(q@),
        SingleOrBatch::Single(r)@ == BatchView::Single(r@),
        SingleOrBatch::Batch(qs)@ matches BatchView::Batch(b) && b.len() == qs@.len() && forall|
            i: int,
        |
            0 <= i < b.len() ==> #[trigger] b[i] == qs@[i]@,
        SingleOrBatch::Batch(rs)@ matches BatchView::Batch(b) && b.len() == rs@.len() && forall|
            i: int,
        |
            0 <= i < b.len() ==> #[trigger] b[i] == rs@[i]@,
        RequestOrResponse::Request(q)@ == MessageView::Request(q@),
        RequestOrResponse::Response(r)@ == MessageView::Response(r@),
{
}

/// What errors say.
pub proof fn lemma_errors(e: RpcError, j: JsonError, v: Json, p: Error, expected: usize)
    ensures
        Error::JsonRpc(e)@ == ErrorView::JsonRpc(e@),
        Error::Json(j)@ == ErrorView::Json(j),
        Error::InvalidResponse@ == ErrorView::InvalidResponse,
        Error::InvalidSubscriptionId(v)@ == ErrorView::InvalidSubscriptionId(v@),
        HttpError::JsonRpc(p)@ == HttpErrorView::JsonRpc(p@),
        (HttpError::IdMismatch { expected, got: v })@ == (HttpErrorView::IdMismatch {
            expected,
            got: v@,
        }),
        ClientError::Utf8@ == ClientErrorView::Utf8,
        ClientError::JsonRpc(p)@ == ClientErrorView::JsonRpc(p@),
        ClientError::Json(j)@ == ClientErrorView::Json(j),
        ClientError::ConnectionClosed@ == ClientErrorView::ConnectionClosed,
{
}

/// What is done with messages, and what is decided about requests.
pub proof fn lemma_decisions<R, C: View, N>(
    to: R,
    r: Response,
    id: SubscriptionId,
    v: Json,
    m: SubscriptionMessage<Json>,
    reply: Option<Response>,
    c: C,
    d: Dispatched<C>,
    h: Handled<C, N>,
)
    ensures
        Delivery::<R>::Ignored@ == DeliveryView::<R>::Ignored,
        Delivery::<R>::UnexpectedRequest@ == DeliveryView::<R>::UnexpectedRequest,
        Delivery::<R>::NoParams@ == DeliveryView::<R>::NoParams,
        Delivery::<R>::UnknownStream(id)@ == DeliveryView::<R>::UnknownStream(id@),
        Delivery::<R>::UnknownRequest(v)@ == DeliveryView::<R>::UnknownRequest(v@),
        Delivery::<R>::Notification(m)@ == DeliveryView::<R>::Notification(m@),
        Delivery::Response(to, r)@ == DeliveryView::Response(to, r@),
        Action::<C>::Reply(reply)@ == ActionView::<C::V>::Reply(reply_view(reply)),
        Action::Call(c)@ == ActionView::Call(c@),
        EitherCall::<C, C>::First(c)@ == EitherCall::<C::V, C::V>::First(c@),
        EitherCall::<C, C>::Second(c)@ == EitherCall::<C::V, C::V>::Second(c@),
        d@.warnings == texts_view(d.warnings@),
        d@.action == d.action@,
        h@.warnings == texts_view(h.warnings@),
        h@.stopped == h.stopped@,
        h@.action == h.action@,
{
}

/// What calls and their arguments are.
pub proof fn lemma_calls(c: MethodCall, b: Bound, f: StreamForwarder)
    ensures
        c@ == (MethodCallView {
            method: c.method@,
            args: slots_view(c.args@),
            order: indices_view(c.order@),
            fault: fault_view(c.fault),
            id: json_view(c.id),
            stream: stream_view(c.stream),
            forwarder: forwarder_view(c.forwarder),
        }),
        b@ == (BoundView {
            args: slots_view(b.args@),
            order: indices_view(b.order@),
            fault: fault_view(b.fault),
        }),
        forwarder_view(Some(f)) == Some(f@) && forwarder_view(None) is None,
{
}

/// What the generated parts are: each of their fields.
pub proof fn lemma_generated_parts(
    p: Param,
    f: ArgsField,
    s: ArgsStruct,
    a: MatchArm,
    m: ProxyMethod,
    params: Seq<Param>,
    methods: Seq<RpcMethod>,
    d: Deprecation,
    attr: Attribute,
    name: String,
    note: Option<String>,
)
    ensures
        p@ == (ParamView { ident: p.ident@, ty: p.ty@, optional: p.optional, wire: p.wire@ }),
        f@ == (ArgsFieldView {
            ident: f.ident@,
            ty: f.ty@,
            optional: f.optional,
            rename: text_view(f.rename),
            alias: text_view(f.alias),
        }),
        s@.ident == s.ident@,
        s@.fields.len() == s.fields@.len(),
        forall|i: int| 0 <= i < s.fields@.len() ==> #[trigger] s@.fields[i] == s.fields@[i]@,
        a@.name == a.name@,
        a@.warning == warning_view(a.warning),
        a@.args_struct == a.args_struct@,
        a@.method == a.method@,
        a@.args == texts_view(a.args@),
        a@.stream == a.stream,
        m@.method == m.method@,
        m@.output == m.output@,
        m@.args_struct == m.args_struct@,
        m@.name == m.name@,
        m@.stream == m.stream,
        m@.args.len() == m.args@.len(),
        forall|i: int|
            0 <= i < m.args@.len() ==> #[trigger] m@.args[i] == (m.args@[i].0@, m.args@[i].1@),
        params_view(params).len() == params.len(),
        forall|i: int| 0 <= i < params.len() ==> #[trigger] params_view(params)[i] == params[i]@,
        methods_view(methods).len() == methods.len(),
        forall|i: int| 0 <= i < methods.len() ==> #[trigger] methods_view(methods)[i] == methods[i]@,
        deprecation_view(Some(d)) == Some(text_view(d.note)) && deprecation_view(None) is None,
        warning_view(Some((name, note))) == Some((name@, text_view(note))) && warning_view(
            None,
        ) is None,
        deprecation_of(Some(d), Some(attr)) <==> text_view(d.note) == attribute_note(attr),
        !deprecation_of(None, Some(attr)),
        !deprecation_of(Some(d), None),
        deprecation_of(None, None),
{
}

/// What is asked of the methods of a service, and what is done to them.
pub proof fn lemma_methods(before: Seq<Method>, after: Seq<Method>, name: String)
    ensures
        all_callable(before) <==> forall|i: int|
            0 <= i < before.len() ==> callable((#[trigger] before[i]).sig.inputs@),
        without_stream(before, after) <==> after.len() == before.len() && forall|i: int|
            0 <= i < after.len() ==> (#[trigger] after[i]).sig == before[i].sig && after[i].attrs@
                == not_named(before[i].attrs@, "stream"@),
        valid_rename(Some(name)) <==> rename_all_of(name@) is Some,
        valid_rename(None),
        rename_option(Some(name)) == rename_all_of(name@),
        rename_option(None) is None,
{
}

/// What headers and origins are.
pub proof fn lemma_headers(username: &str, password: &str, texts: Seq<&str>, list: Vec<String>)
    ensures
        header_view(Some((username, password))) == Some((username@, password@)),
        header_view(None) is None,
        valid_origins(texts) <==> forall|i: int|
            0 <= i < texts.len() ==> valid_origin((#[trigger] texts[i])@),
        lists(Origins::List(list), texts) <==> list@.len() == texts.len() && forall|i: int|
            0 <= i < texts.len() ==> (#[trigger] list@[i])@ == texts[i]@,
        !lists(Origins::Any, texts),
        !lists(Origins::Unset, texts),
{
}

/// The parameters of a method without arguments: none, `null`, or an empty list or object.
pub proof fn lemma_parameters_of_methods_without_arguments(t: Tree, s: Seq<Tree>, m: Seq<(Seq<char>, Tree)>)
    ensures
        no_params(None),
        no_params(Some(Tree::Null)),
        no_params(Some(Tree::Array(s))) <==> s.len() == 0,
        no_params(Some(Tree::Object(m))) <==> m.len() == 0,
        t is Bool || t is Int || t is Float || t is String ==> !no_params(Some(t)),
{
}

/// What is done about streams and by readers, and what is done next in an exchange.
pub proof fn lemma_actions<R, C: View, N>(
    m: Message,
    e: Error,
    c: ClientError,
    d: Delivery<R>,
    h: Handled<C, N>,
    reply: Option<Message>,
    param: &str,
)
    ensures
        StreamAction::Send(m)@ == StreamActionView::Send(m@),
        StreamAction::Log(e)@ == StreamActionView::Log(e@),
        StreamAction::Stop@ == StreamActionView::Stop,
        ReaderAction::Deliver(d)@ == ReaderActionView::Deliver(d@),
        ReaderAction::<R>::Log(c)@ == ReaderActionView::<R>::Log(c@),
        ReaderAction::<R>::Continue@ == ReaderActionView::<R>::Continue,
        ReaderAction::<R>::Stop@ == ReaderActionView::<R>::Stop,
        Step::Request(h)@ == StepView::Request(h@),
        Step::<C, N>::Done(reply)@ == StepView::<C::V, N>::Done(message_view(reply)),
        param_view(Some(param)) == Some(param@),
        param_view(None) is None,
{
}

/// When the message with some responses is read back: where there is one, and what it holds can be.
pub proof fn lemma_replies_that_are_read_back(m: Message, b: BatchView<ResponseView>)
    ensures
        reply_reads_back(Some(m), Some(b)) <==> (readable(responses_tree(b), 127) ==> reads_as(
            payload(m@),
            responses_tree(b),
        )),
{
}

} // verus!
