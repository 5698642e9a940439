//! What holds of dispatchers: of services, and of those that are composed from others.

use crate::args::{bound, field_for, field_wire};
use crate::derive::{args_struct, RpcMethodView};
use crate::dispatch::{
    all_deprecated, all_names, allowed, first_match, lemma_first_match, only_allowed,
    rejected, with_dispatcher, ActionView, AllowListDispatcher, Dispatcher, EitherCall,
    EitherDispatcher, ModularDispatcher,
};
use crate::error::RpcErrorView;
use crate::frame::FrameType;
use crate::json::Tree;
use crate::request::RequestView;
use crate::response::ResponseView;
use crate::service::{
    check_reply, first_misfit, lemma_method_for, method_dispatched, method_for, refusal, service_deprecated,
    service_names, MethodCallView, Service,
};
use crate::stream::ForwarderView;
use crate::subscription::SubId;
use vstd::prelude::*;

verus! {

/// The response with an error of the protocol, with its description.
pub open spec fn refused(
    id: Tree,
    code: int,
    message: Seq<char>,
    description: Seq<char>,
) -> ResponseView {
    ResponseView {
        jsonrpc: "2.0"@,
        result: None,
        error: Some(
            RpcErrorView { code, message: Some(message), data: Some(Tree::String(description)) },
        ),
        id,
    }
}

/// A request that is refused is answered with the error, under its own ID; one without an ID is not
/// answered.
pub open spec fn answered_with(
    request: RequestView,
    reply: Option<ResponseView>,
    code: int,
    message: Seq<char>,
    description: Seq<char>,
) -> bool {
    match request.id {
        Some(id) => reply == Some(refused(id, code, message, description)),
        None => reply is None,
    }
}

/// A request for a method that does not exist is answered so, with nothing to be logged.
pub proof fn lemma_rejection<V>(request: RequestView)
    ensures
        rejected::<V>(request).warnings.len() == 0,
        rejected::<V>(request).action matches ActionView::Reply(r) && answered_with(
            request,
            r,
            -32601,
            "Method not found"@,
            "Method does not exist: "@ + request.method,
        ),
{
}

/// A request reaches the method of a service that has the name it asks for, with its own ID and the
/// arguments that its parameters give, and no other method. A method that returns a stream is
/// called with what tells the client of the stream and forwards its items, under the ID that the
/// request was dispatched with.
pub proof fn lemma_request_reaches_its_method(
    service: Service,
    i: int,
    request: RequestView,
    params: Tree,
    notifiable: bool,
    id: u64,
    frame_type: Option<FrameType>,
)
    requires
        0 <= i < service@.len(),
        service@[i].name == request.method,
        forall|j: int| 0 <= j < i ==> (#[trigger] service@[j]).name != request.method,
        request.params == Some(params),
        service@[i].stream ==> notifiable,
    ensures
        ({
            let m = service@[i];
            let b = bound(args_struct(m), params);
            match service.dispatched(request, notifiable, id, frame_type).action {
                ActionView::Call(c) => {
                    &&& b.fault is None || b.order.len() > 0
                    &&& c.method == m.ident
                    &&& c.id == request.id
                    &&& c.args == b.args
                    &&& c.order == b.order
                    &&& c.fault == b.fault
                    &&& !m.stream ==> c.stream is None && c.forwarder is None
                    &&& m.stream ==> c.stream == Some(SubId::Number(id)) && c.forwarder == Some(
                        ForwarderView {
                            id: SubId::Number(id),
                            method: m.name,
                            frame_type,
                            open: true,
                        },
                    )
                },
                ActionView::Reply(r) => b.order.len() == 0 && (b.fault matches Some(fault)
                    && answered_with(request, r, -32602, "Invalid params"@, fault)),
            }
        }),
{
    lemma_method_for(service@, request.method);
    let k = method_for(service@, request.method)->0;
    assert(k == i) by {
        if k < i {
            assert(service@[k].name != request.method);
        }
    }
}

/// A request for a method without parameters is refused, and one for a stream by a client that
/// cannot be notified.
pub proof fn lemma_requests_that_cannot_be_called(
    service: Service,
    i: int,
    request: RequestView,
    notifiable: bool,
    id: u64,
    frame_type: Option<FrameType>,
)
    requires
        0 <= i < service@.len(),
        service@[i].name == request.method,
        forall|j: int| 0 <= j < i ==> (#[trigger] service@[j]).name != request.method,
    ensures
        service@[i].stream && !notifiable ==> (service.dispatched(
            request,
            notifiable,
            id,
            frame_type,
        ).action matches ActionView::Reply(r) && answered_with(
            request,
            r,
            -32603,
            "Internal error"@,
            "Client does not support streams"@,
        )),
        (service@[i].stream ==> notifiable) && request.params is None ==> (service.dispatched(
            request,
            notifiable,
            id,
            frame_type,
        ).action matches ActionView::Reply(r) && answered_with(
            request,
            r,
            -32602,
            "Invalid params"@,
            "Missing request parameters."@,
        )),
{
    lemma_method_for(service@, request.method);
    let k = method_for(service@, request.method)->0;
    assert(k == i) by {
        if k < i {
            assert(service@[k].name != request.method);
        }
    }
}

/// Whether a member of the parameters names an argument otherwise than by its name on the wire.
pub open spec fn names_it_otherwise(m: RpcMethodView, params: Tree) -> bool {
    params matches Tree::Object(o) && exists|k: int, i: int|
        0 <= k < o.len() && #[trigger] field_for(args_struct(m).fields, o[k].0) == Some(i)
            && o[k].0 != field_wire(#[trigger] args_struct(m).fields[i])
}

/// What is logged when a method is dispatched: one line if it is deprecated, with the note if there
/// is one, and one more if it is called with old names of its arguments, of which there may be many.
pub proof fn lemma_what_is_logged(
    m: RpcMethodView,
    request: RequestView,
    notifiable: bool,
    id: u64,
    frame_type: Option<FrameType>,
)
    ensures
        ({
            let warnings = method_dispatched(m, request, notifiable, id, frame_type).warnings;
            let head = "RPC method '"@ + m.name;
            let deprecated = match m.deprecated {
                None => Seq::empty(),
                Some(None) => seq![head + "' is deprecated"@],
                Some(Some(note)) => seq![head + "' is deprecated"@ + ": "@ + note],
            };
            let old_names = (request.params matches Some(params) && names_it_otherwise(m, params))
                && (m.stream ==> notifiable);
            warnings == if old_names {
                deprecated.push(head + "' was called with deprecated parameter names"@)
            } else {
                deprecated
            }
        }),
{
    if let Some(Tree::Object(o)) = request.params {
        let fields = args_struct(m).fields;
        assert(crate::args::uses_old_names(args_struct(m), Tree::Object(o)) <==> names_it_otherwise(
            m,
            Tree::Object(o),
        )) by {
            if names_it_otherwise(m, Tree::Object(o)) {
                let (k, i) = choose|k: int, i: int|
                    0 <= k < o.len() && #[trigger] field_for(fields, o[k].0) == Some(i) && o[k].0
                        != field_wire(#[trigger] fields[i]);
                assert(crate::args::old_name(fields, o[k].0));
            }
            if crate::args::uses_old_names(args_struct(m), Tree::Object(o)) {
                let k = choose|k: int|
                    0 <= k < o.len() && crate::args::old_name(fields, (#[trigger] o[k]).0);
                let i = field_for(fields, o[k].0)->0;
                assert(field_for(fields, o[k].0) == Some(i) && o[k].0 != field_wire(fields[i]));
            }
        }
    }
    let warnings = method_dispatched(m, request, notifiable, id, frame_type).warnings;
    match m.deprecated {
        None => {},
        Some(None) => {
            assert(warnings[0] =~= "RPC method '"@ + m.name + "' is deprecated"@);
        },
        Some(Some(note)) => {},
    }
}

/// A call is refused because of the first argument, in the order in which they are read, that does
/// not fit; and if all fit, because of what is wrong with the parameters as a whole.
pub proof fn lemma_first_fault_counts(
    c: MethodCallView,
    misfits: Seq<Option<String>>,
    i: int,
    e: String,
)
    ensures
        0 <= i < misfits.len() && misfits[i] == Some(e) && (forall|j: int|
            0 <= j < i ==> (#[trigger] misfits[j]) is None) ==> refusal(c, misfits) == Some(e@),
        (forall|j: int| 0 <= j < misfits.len() ==> (#[trigger] misfits[j]) is None) ==> refusal(
            c,
            misfits,
        ) == c.fault,
{
    if 0 <= i < misfits.len() && misfits[i] == Some(e) && (forall|j: int|
        0 <= j < i ==> (#[trigger] misfits[j]) is None) {
        lemma_first_is_found(misfits, i, e);
    }
    if forall|j: int| 0 <= j < misfits.len() ==> (#[trigger] misfits[j]) is None {
        lemma_none_is_found(misfits);
    }
}

/// A call passes the check if all of its arguments fit and nothing else is wrong; else it is answered
/// with what is wrong, under the ID of its request, and without an ID not at all.
pub proof fn lemma_what_a_check_answers(
    c: MethodCallView,
    misfits: Seq<Option<String>>,
    i: int,
    e: String,
)
    ensures
        (forall|j: int| 0 <= j < misfits.len() ==> (#[trigger] misfits[j]) is None) && c.fault is None
            ==> check_reply(c, misfits) is None,
        0 <= i < misfits.len() && misfits[i] == Some(e) && (forall|j: int|
            0 <= j < i ==> (#[trigger] misfits[j]) is None) ==> check_reply(c, misfits) == Some(
            match c.id {
                Some(id) => Some(refused(id, -32602, "Invalid params"@, e@)),
                None => None,
            },
        ),
        (forall|j: int| 0 <= j < misfits.len() ==> (#[trigger] misfits[j]) is None) ==> (
        c.fault matches Some(fault) ==> check_reply(c, misfits) == Some(
            match c.id {
                Some(id) => Some(refused(id, -32602, "Invalid params"@, fault)),
                None => None,
            },
        )),
{
    lemma_first_fault_counts(c, misfits, i, e);
}

proof fn lemma_none_is_found(misfits: Seq<Option<String>>)
    requires
        forall|j: int| 0 <= j < misfits.len() ==> (#[trigger] misfits[j]) is None,
    ensures
        first_misfit(misfits) is None,
    decreases misfits.len(),
{
    if misfits.len() > 0 {
        let before = misfits.drop_last();
        assert forall|j: int| 0 <= j < before.len() implies (#[trigger] before[j]) is None by {
            assert(before[j] == misfits[j]);
        }
        lemma_none_is_found(before);
        assert(misfits[misfits.len() - 1] is None);
    }
}

proof fn lemma_first_is_found(misfits: Seq<Option<String>>, i: int, e: String)
    requires
        0 <= i < misfits.len(),
        misfits[i] == Some(e),
        forall|j: int| 0 <= j < i ==> (#[trigger] misfits[j]) is None,
    ensures
        first_misfit(misfits) == Some(e@),
    decreases misfits.len(),
{
    let before = misfits.drop_last();
    if i == before.len() {
        assert forall|j: int| 0 <= j < before.len() implies (#[trigger] before[j]) is None by {
            assert(before[j] == misfits[j]);
        }
        lemma_none_is_found(before);
    } else {
        assert forall|j: int| 0 <= j < i implies (#[trigger] before[j]) is None by {
            assert(before[j] == misfits[j]);
        }
        lemma_first_is_found(before, i, e);
    }
}

/// A service lists its methods in their order, and of these the deprecated ones.
pub proof fn lemma_service_lists(a: Seq<RpcMethodView>, m: RpcMethodView)
    ensures
        service_names(a).len() == a.len(),
        forall|i: int| 0 <= i < a.len() ==> #[trigger] service_names(a)[i] == a[i].name,
        service_deprecated(a.push(m)) == if m.deprecated is Some {
            service_deprecated(a).push(m.name)
        } else {
            service_deprecated(a)
        },
        service_deprecated(Seq::empty()) == Seq::<Seq<char>>::empty(),
{
    assert(a.push(m).drop_last() =~= a);
}

/// A method that is allowed is dispatched as by the dispatcher underneath. Without a list every
/// method is allowed; with one, those are that it names.
pub proof fn lemma_allowed_is_dispatched<D: Dispatcher>(
    d: AllowListDispatcher<D>,
    request: RequestView,
    notifiable: bool,
    id: u64,
    frame_type: Option<FrameType>,
)
    ensures
        d.method_allowlist is None ==> {
            &&& d.dispatched(request, notifiable, id, frame_type) == d.inner.dispatched(
                request,
                notifiable,
                id,
                frame_type,
            )
            &&& d.matched(request.method) == d.inner.matched(request.method)
        },
        d.method_allowlist matches Some(list) ==> ((exists|i: int|
            0 <= i < list@.len() && (#[trigger] list@[i])@ == request.method) ==> {
            &&& d.dispatched(request, notifiable, id, frame_type) == d.inner.dispatched(
                request,
                notifiable,
                id,
                frame_type,
            )
            &&& d.matched(request.method) == d.inner.matched(request.method)
        }),
        d.method_allowlist matches Some(list) ==> ((forall|i: int|
            0 <= i < list@.len() ==> (#[trigger] list@[i])@ != request.method) ==> {
            &&& d.dispatched(request, notifiable, id, frame_type) == rejected::<
                <D::Call as View>::V,
            >(request)
            &&& !d.matched(request.method)
        }),
{
    lemma_on_the_list(d.method_allowlist, request.method);
}

/// A name is allowed without a list, and else if the list has it.
pub proof fn lemma_on_the_list(list: Option<Vec<String>>, name: Seq<char>)
    ensures
        allowed(None, name),
        list matches Some(list) ==> (allowed(Some(list), name) <==> exists|i: int|
            0 <= i < list@.len() && (#[trigger] list@[i])@ == name),
{
    if let Some(list) = list {
        let texts = crate::text::texts_view(list@);
        if texts.contains(name) {
            let i = choose|i: int| 0 <= i < texts.len() && texts[i] == name;
            assert(list@[i]@ == name);
        }
        if exists|i: int| 0 <= i < list@.len() && (#[trigger] list@[i])@ == name {
            let i = choose|i: int| 0 <= i < list@.len() && (#[trigger] list@[i])@ == name;
            assert(texts[i] == name);
        }
    }
}

/// The allow list keeps the names that it allows in their order, and of a dispatcher without a list
/// all.
pub proof fn lemma_allow_list_keeps_order<D: Dispatcher>(
    d: AllowListDispatcher<D>,
    names: Seq<Seq<char>>,
    name: Seq<char>,
)
    ensures
        only_allowed(d.method_allowlist, Seq::empty()) == Seq::<Seq<char>>::empty(),
        only_allowed(d.method_allowlist, names.push(name)) == if allowed(d.method_allowlist, name) {
            only_allowed(d.method_allowlist, names).push(name)
        } else {
            only_allowed(d.method_allowlist, names)
        },
        d.method_allowlist is None ==> d.names() == d.inner.names() && d.deprecated()
            == d.inner.deprecated(),
        d.names() == only_allowed(d.method_allowlist, d.inner.names()),
        d.deprecated() == only_allowed(d.method_allowlist, d.inner.deprecated()),
{
    assert(names.push(name).drop_last() =~= names);
    if d.method_allowlist is None {
        lemma_all_are_kept(d.inner.names());
        lemma_all_are_kept(d.inner.deprecated());
    }
}

proof fn lemma_all_are_kept(names: Seq<Seq<char>>)
    ensures
        only_allowed(None, names) == names,
    decreases names.len(),
{
    if names.len() > 0 {
        lemma_all_are_kept(names.drop_last());
        assert(names.drop_last().push(names.last()) =~= names);
    } else {
        assert(only_allowed(None, names) =~= names);
    }
}

/// A composition hands a request to the first of its dispatchers that matches the method, and to no
/// other: what comes out is what that dispatcher makes of it, with the place of the dispatcher.
pub proof fn lemma_first_match_is_asked<D: Dispatcher>(
    d: ModularDispatcher<D>,
    i: int,
    request: RequestView,
    notifiable: bool,
    id: u64,
    frame_type: Option<FrameType>,
)
    requires
        0 <= i < d@.len() <= usize::MAX,
        d@[i].matched(request.method),
        forall|j: int| 0 <= j < i ==> !(#[trigger] d@[j]).matched(request.method),
    ensures
        ({
            let inner = d@[i].dispatched(request, notifiable, id, frame_type);
            let outer = d.dispatched(request, notifiable, id, frame_type);
            &&& outer.warnings == inner.warnings
            &&& match inner.action {
                ActionView::Reply(r) => outer.action == ActionView::<
                    (usize, <D::Call as View>::V),
                >::Reply(r),
                ActionView::Call(c) => outer.action matches ActionView::Call((k, x)) && k == i
                    && x == c,
            }
        }),
        d.matched(request.method),
{
    lemma_first_match(d@, request.method);
    let k = first_match(d@, request.method)->0;
    if k < i {
        assert(!d@[k].matched(request.method));
    }
}

/// A composition lists the methods of all of its dispatchers, one dispatcher after the other.
pub proof fn lemma_composition_lists<D: Dispatcher>(s: Seq<D>, d: D)
    ensures
        all_names(Seq::<D>::empty()) == Seq::<Seq<char>>::empty(),
        all_names(s.push(d)) == all_names(s) + d.names(),
        all_deprecated(Seq::<D>::empty()) == Seq::<Seq<char>>::empty(),
        all_deprecated(s.push(d)) == all_deprecated(s) + d.deprecated(),
{
    assert(s.push(d).drop_last() =~= s);
}

/// A composition has the names and the deprecated names of its dispatchers.
pub proof fn lemma_composition_has_all<D: Dispatcher>(d: ModularDispatcher<D>)
    ensures
        d.names() == all_names(d@),
        d.deprecated() == all_deprecated(d@),
{
}

/// A dispatcher of either kind does what the dispatcher does that it is.
pub proof fn lemma_either_is_the_dispatcher<A: Dispatcher, B: Dispatcher>(
    a: A,
    b: B,
    request: RequestView,
    notifiable: bool,
    id: u64,
    frame_type: Option<FrameType>,
)
    ensures
        ({
            let first = EitherDispatcher::<A, B>::First(a);
            let second = EitherDispatcher::<A, B>::Second(b);
            let x = first.dispatched(request, notifiable, id, frame_type);
            let y = second.dispatched(request, notifiable, id, frame_type);
            let inner_a = a.dispatched(request, notifiable, id, frame_type);
            let inner_b = b.dispatched(request, notifiable, id, frame_type);
            &&& x.warnings == inner_a.warnings
            &&& y.warnings == inner_b.warnings
            &&& match inner_a.action {
                ActionView::Reply(r) => x.action matches ActionView::Reply(q) && q == r,
                ActionView::Call(c) => x.action matches ActionView::Call(EitherCall::First(q))
                    && q == c,
            }
            &&& match inner_b.action {
                ActionView::Reply(r) => y.action matches ActionView::Reply(q) && q == r,
                ActionView::Call(c) => y.action matches ActionView::Call(EitherCall::Second(q))
                    && q == c,
            }
            &&& first.names() == a.names() && second.names() == b.names()
            &&& first.deprecated() == a.deprecated() && second.deprecated() == b.deprecated()
            &&& first.matched(request.method) == a.matched(request.method)
            &&& second.matched(request.method) == b.matched(request.method)
        }),
{
}

/// A dispatcher is composed behind those that are there.
pub proof fn lemma_dispatcher_is_added<D: Dispatcher>(s: Seq<D>, d: D)
    ensures
        with_dispatcher(s, d).len() == s.len() + 1,
        with_dispatcher(s, d)[s.len() as int] == d,
        forall|i: int| 0 <= i < s.len() ==> #[trigger] with_dispatcher(s, d)[i] == s[i],
{
}

/// A service lists the names of its methods, and matches just these.
pub proof fn lemma_service_has_its_methods(service: Service, name: Seq<char>)
    ensures
        service.names().len() == service@.len(),
        forall|i: int| 0 <= i < service@.len() ==> #[trigger] service.names()[i] == service@[i].name,
        service.matched(name) <==> exists|i: int|
            0 <= i < service@.len() && (#[trigger] service@[i]).name == name,
        service.deprecated() == service_deprecated(service@),
{
    let names = service.names();
    if names.contains(name) {
        let i = choose|i: int| 0 <= i < names.len() && names[i] == name;
        assert(service@[i].name == name);
    }
    if exists|i: int| 0 <= i < service@.len() && (#[trigger] service@[i]).name == name {
        let i = choose|i: int| 0 <= i < service@.len() && (#[trigger] service@[i]).name == name;
        assert(names[i] == name);
    }
}

} // verus!
