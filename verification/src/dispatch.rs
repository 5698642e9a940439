//! Dispatchers, which decide what is done with a request.

use crate::error::{invalid_params, no_such_method, RpcError, RpcErrorView};
use crate::frame::FrameType;
use crate::json::{Json, Tree};
use crate::request::{Request, RequestView};
use crate::response::{failure, success, Response, ResponseView};
use crate::text::{is_among, strs_view, texts_view};
use vstd::prelude::*;

verus! {

/// What a request comes to.
#[derive(Debug, PartialEq, Eq)]
pub enum Action<C> {
    /// It is answered at once. Nothing is sent to a client that expects no response.
    Reply(Option<Response>),
    /// A method is to be called.
    Call(C),
}

/// What a request comes to.
pub enum ActionView<V> {
    /// It is answered at once.
    Reply(Option<ResponseView>),
    /// A method is to be called.
    Call(V),
}

/// What an optional response says.
pub open spec fn reply_view(r: Option<Response>) -> Option<ResponseView> {
    match r {
        Some(r) => Some(r@),
        None => None,
    }
}

impl<C: View> View for Action<C> {
    type V = ActionView<C::V>;

    open spec fn view(&self) -> ActionView<C::V> {
        match *self {
            Action::Reply(r) => ActionView::Reply(reply_view(r)),
            Action::Call(c) => ActionView::Call(c@),
        }
    }
}

/// What a request comes to, and what is to be logged before.
#[derive(Debug, PartialEq, Eq)]
pub struct Dispatched<C> {
    /// The warnings to be logged.
    pub warnings: Vec<String>,
    /// What is to be done.
    pub action: Action<C>,
}

/// What a request comes to, and what is to be logged before.
#[verifier::ext_equal]
pub struct DispatchedView<V> {
    /// The warnings to be logged.
    pub warnings: Seq<Seq<char>>,
    /// What is to be done.
    pub action: ActionView<V>,
}

impl<C: View> View for Dispatched<C> {
    type V = DispatchedView<C::V>;

    open spec fn view(&self) -> DispatchedView<C::V> {
        DispatchedView { warnings: texts_view(self.warnings@), action: self.action@ }
    }
}

/// The response that tells of an error, if a response is expected.
pub open spec fn error_reply(id: Option<Tree>, e: RpcErrorView) -> Option<ResponseView> {
    match id {
        Some(id) => Some(failure(id, e)),
        None => None,
    }
}

/// There is no method with this name.
pub open spec fn unknown_method(method: Seq<char>) -> RpcErrorView {
    no_such_method(Some("Method does not exist: "@ + method))
}

/// Constructs an error response if necessary (i.e., if the request ID was set).
///
/// # Arguments
///
///  - `id_opt`: The ID field from the request.
///  - `e`: A function that returns the error. This is only called, if we actually can respond with
///    an error.
pub fn error_response<E: FnOnce() -> RpcError>(id_opt: Option<Json>, e: E) -> (r: Option<Response>)
    requires
        call_requires(e, ()),
    ensures
        match id_opt {
            Some(id) => exists|x: RpcError| #[trigger]
                call_ensures(e, (), x) && reply_view(r) == Some(failure(id@, x@)),
            None => r is None,
        },
{
    match id_opt {
        Some(id) => {
            let x = e();
            Some(Response::new_error(id, x))
        },
        None => None,
    }
}

/// Returns an error response for a method that was not found. This returns `None`, if the request
/// doesn't expect a response.
pub fn method_not_found(request: Request) -> (r: Option<Response>)
    ensures
        reply_view(r) == error_reply(request@.id, unknown_method(request@.method)),
{
    let Request { id, method, .. } = request;
    error_response(
        id,
        || -> (e: RpcError)
            ensures
                e@ == unknown_method(method@)
            {
                let mut description = "Method does not exist: ".to_owned();
                description.append(method.as_str());
                RpcError::method_not_found(Some(description))
            },
    )
}

/// What the outcome of a call says: the response, and the handle of the subscription that it opened.
pub open spec fn outcome_view<N>(r: Option<(Response, Option<N>)>) -> Option<
    (ResponseView, Option<N>),
> {
    match r {
        Some((response, handle)) => Some((response@, handle)),
        None => None,
    }
}

/// The response to a request with this ID, if one is expected, and the handle of the subscription that
/// the call opened.
pub open spec fn responded<N>(
    id: Option<Tree>,
    result: Result<(Json, Option<N>), RpcError>,
) -> Option<(ResponseView, Option<N>)> {
    match (id, result) {
        (None, _) => None,
        (Some(id), Ok((value, handle))) => Some((success(id, value@), handle)),
        (Some(id), Err(e)) => Some((failure(id, e@), None)),
    }
}

/// The response to a request for a method without arguments, which must not have parameters.
pub open spec fn responded_without_args<N>(
    request: RequestView,
    result: Result<(Json, Option<N>), RpcError>,
) -> Option<(ResponseView, Option<N>)> {
    if no_params(request.params) {
        responded(request.id, result)
    } else {
        match request.id {
            Some(id) => Some(
                (failure(id, invalid_params(Some("Didn't expect any request parameters"@))), None),
            ),
            None => None,
        }
    }
}

/// Constructs a [`Response`] if necessary (i.e., if the request ID was set). With it comes the
/// handle of the subscription, if the call opened one.
pub fn response<N>(
    id_opt: Option<Json>,
    result: Result<(Json, Option<N>), RpcError>,
) -> (r: Option<(Response, Option<N>)>)
    ensures
        match (id_opt, result) {
            (Some(id), Ok((value, subscription))) => r matches Some((x, n)) && x@ == success(
                id@,
                value@,
            ) && n == subscription,
            (Some(id), Err(e)) => r matches Some((x, n)) && x@ == failure(id@, e@) && n is None,
            (None, _) => r is None,
        },
        outcome_view(r) == responded(crate::error::json_view(id_opt), result),
{
    match (id_opt, result) {
        (Some(id), Ok((value, subscription))) => Some(
            (Response::new_success(id, value), subscription),
        ),
        (Some(id), Err(e)) => Some((Response::new_error(id, e), None)),
        (None, _) => None,
    }
}

/// Whether the parameters are those of a method without arguments: none, or an empty list or
/// object.
pub open spec fn no_params(params: Option<Tree>) -> bool {
    match params {
        None => true,
        Some(Tree::Null) => true,
        Some(Tree::Array(s)) => s.len() == 0,
        Some(Tree::Object(m)) => m.len() == 0,
        _ => false,
    }
}

/// Read the request and decode its parameters, so that a handler function can be called. This
/// variant accepts calls with arguments.
///
/// The call that it comes to has the ID of the request, which goes to [`response`] with the result
/// of the handler function.
pub fn dispatch_method_with_args<P, F: FnOnce(Json) -> Result<P, String>>(
    request: Request,
    decode: F,
) -> (r: Action<(Option<Json>, P)>)
    requires
        forall|v: Json| #[trigger] call_requires(decode, (v,)),
    ensures
        match request.params {
            Some(params) => exists|decoded: Result<P, String>| #[trigger]
                call_ensures(decode, (params,), decoded) && match decoded {
                    Ok(p) => r == Action::Call((request.id, p)),
                    Err(e) => r matches Action::Reply(x) && reply_view(x) == error_reply(
                        request@.id,
                        invalid_params(Some(e@)),
                    ),
                },
            None => r matches Action::Reply(x) && reply_view(x) == error_reply(
                request@.id,
                invalid_params(Some("Missing request parameters."@)),
            ),
        },
{
    let params = match request.params {
        Some(params) => params,
        None => {
            return Action::Reply(
                error_response(
                    request.id,
                    || -> (e: RpcError)
                        ensures
                            e@ == invalid_params(Some("Missing request parameters."@))
                        {
                            RpcError::invalid_params(Some("Missing request parameters.".to_owned()))
                        },
                ),
            );
        },
    };
    match decode(params) {
        Ok(params) => Action::Call((request.id, params)),
        Err(message) => Action::Reply(
            error_response(
                request.id,
                || -> (e: RpcError)
                    ensures
                        e@ == invalid_params(Some(message@))
                    { RpcError::invalid_params(Some(message)) },
            ),
        ),
    }
}

/// Answer a request with the result of a handler function, which was called before. This variant
/// accepts calls without arguments.
pub fn dispatch_method_without_args<N>(
    request: Request,
    result: Result<(Json, Option<N>), RpcError>,
) -> (r: Option<(Response, Option<N>)>)
    ensures
        match (request.id, result) {
            (None, _) => r is None,
            (Some(id), _) if !no_params(request@.params) => r matches Some((x, n)) && x@
                == failure(
                id@,
                invalid_params(Some("Didn't expect any request parameters"@)),
            ) && n is None,
            (Some(id), Ok((value, subscription))) => r matches Some((x, n)) && x@ == success(
                id@,
                value@,
            ) && n == subscription,
            (Some(id), Err(e)) => r matches Some((x, n)) && x@ == failure(id@, e@) && n is None,
        },
        outcome_view(r) == responded_without_args(request@, result),
{
    broadcast use crate::json::lemma_array;

    let fits = match &request.params {
        None => true,
        Some(Json::Null) => true,
        Some(Json::Array(items)) => items.len() == 0,
        Some(Json::Object(o)) => o.len() == 0,
        _ => false,
    };
    if fits {
        response(request.id, result)
    } else {
        match error_response(
            request.id,
            || -> (e: RpcError)
                ensures
                    e@ == invalid_params(Some("Didn't expect any request parameters"@))
                {
                    RpcError::invalid_params(
                        Some("Didn't expect any request parameters".to_owned()),
                    )
                },
        ) {
            Some(x) => Some((x, None)),
            None => None,
        }
    }
}

/// A method dispatcher. These take a request and decide which method is to be called.
pub trait Dispatcher {
    /// What is needed to call a method.
    type Call: View;

    /// The names of all methods matched by this dispatcher.
    spec fn names(&self) -> Seq<Seq<char>>;

    /// The names of the methods that are deprecated.
    spec fn deprecated(&self) -> Seq<Seq<char>>;

    /// Whether a method should be dispatched with this dispatcher.
    spec fn matched(&self, name: Seq<char>) -> bool;

    /// What a request comes to.
    spec fn dispatched(
        &self,
        request: RequestView,
        notifiable: bool,
        id: u64,
        frame_type: Option<FrameType>,
    ) -> DispatchedView<<Self::Call as View>::V>;

    /// Decides what a request comes to: the call of a method with the request parameters, or a
    /// response.
    ///
    /// # Arguments
    ///
    ///  - `request`: The request.
    ///  - `notifiable`: Whether notifications can be sent to the client.
    ///  - `id`: The ID of the stream, where the method returns one.
    ///  - `frame_type`: How notifications are sent to the client.
    fn dispatch(
        &self,
        request: Request,
        notifiable: bool,
        id: u64,
        frame_type: Option<FrameType>,
    ) -> (r: Dispatched<Self::Call>)
        ensures
            r@ == self.dispatched(request@, notifiable, id, frame_type),
    ;

    /// Returns whether a method should be dispatched with this dispatcher.
    ///
    /// # Arguments
    ///
    ///  - `name`: The name of the method to be dispatched.
    ///
    /// # Returns
    ///
    /// `true` if this dispatcher can handle the method, `false` otherwise.
    fn match_method(&self, name: &str) -> (r: bool)
        ensures
            r == self.matched(name@),
    ;

    /// Returns the names of all methods matched by this dispatcher.
    fn method_names(&self) -> (r: Vec<&str>)
        ensures
            strs_view(r@) == self.names(),
    ;

    /// Returns the names of the methods that are deprecated.
    fn deprecated_methods(&self) -> (r: Vec<&str>)
        ensures
            strs_view(r@) == self.deprecated(),
    ;
}

/// A dispatcher, that can be composed from other dispatchers.
pub struct ModularDispatcher<D: Dispatcher> {
    dispatchers: Vec<D>,
}

impl<D: Dispatcher> View for ModularDispatcher<D> {
    type V = Seq<D>;

    closed spec fn view(&self) -> Seq<D> {
        self.dispatchers@
    }
}

/// The first dispatcher that matches a name, if there is one.
pub open spec fn first_match<D: Dispatcher>(s: Seq<D>, name: Seq<char>) -> Option<int>
    decreases s.len(),
{
    if s.len() == 0 {
        None
    } else {
        match first_match(s.drop_last(), name) {
            Some(i) => Some(i),
            None => if s.last().matched(name) {
                Some(s.len() - 1)
            } else {
                None
            },
        }
    }
}

/// The names of the methods of all dispatchers.
pub open spec fn all_names<D: Dispatcher>(s: Seq<D>) -> Seq<Seq<char>>
    decreases s.len(),
{
    if s.len() == 0 {
        Seq::empty()
    } else {
        all_names(s.drop_last()) + s.last().names()
    }
}

/// The names of the deprecated methods of all dispatchers.
pub open spec fn all_deprecated<D: Dispatcher>(s: Seq<D>) -> Seq<Seq<char>>
    decreases s.len(),
{
    if s.len() == 0 {
        Seq::empty()
    } else {
        all_deprecated(s.drop_last()) + s.last().deprecated()
    }
}

/// The answer that a method does not exist.
pub open spec fn rejected<V>(request: RequestView) -> DispatchedView<V> {
    DispatchedView {
        warnings: Seq::empty(),
        action: ActionView::Reply(error_reply(request.id, unknown_method(request.method))),
    }
}

/// The first dispatcher that matches a name is one of them and matches it, and none before it
/// does; and none does, where there is no first.
pub proof fn lemma_first_match<D: Dispatcher>(s: Seq<D>, name: Seq<char>)
    ensures
        match first_match(s, name) {
            Some(i) => 0 <= i < s.len() && s[i].matched(name) && forall|j: int|
                0 <= j < i ==> !(#[trigger] s[j]).matched(name),
            None => forall|j: int| 0 <= j < s.len() ==> !(#[trigger] s[j]).matched(name),
        },
    decreases s.len(),
{
    if s.len() > 0 {
        let rest = s.drop_last();
        lemma_first_match(rest, name);
        assert(forall|j: int| 0 <= j < rest.len() ==> #[trigger] s[j] == rest[j]);
    }
}

/// Dispatchers with one more behind them.
pub open spec fn with_dispatcher<D>(s: Seq<D>, dispatcher: D) -> Seq<D> {
    s.push(dispatcher)
}

impl<D: Dispatcher> ModularDispatcher<D> {
    /// A dispatcher that is composed from none.
    pub fn new() -> (r: Self)
        ensures
            r@ == Seq::<D>::empty(),
    {
        ModularDispatcher { dispatchers: Vec::new() }
    }

    /// Adds a dispatcher.
    pub fn add(&mut self, dispatcher: D)
        ensures
            final(self)@ == old(self)@.push(dispatcher),
            final(self)@ == with_dispatcher(old(self)@, dispatcher),
    {
        self.dispatchers.push(dispatcher);
    }
}

impl<D: Dispatcher> Default for ModularDispatcher<D> {
    fn default() -> (r: Self)
        ensures
            r@ == Seq::<D>::empty(),
    {
        Self::new()
    }
}

impl<D: Dispatcher> Dispatcher for ModularDispatcher<D> {
    type Call = (usize, D::Call);

    open spec fn names(&self) -> Seq<Seq<char>> {
        all_names(self@)
    }

    open spec fn deprecated(&self) -> Seq<Seq<char>> {
        all_deprecated(self@)
    }

    open spec fn matched(&self, name: Seq<char>) -> bool {
        first_match(self@, name) is Some
    }

    open spec fn dispatched(
        &self,
        request: RequestView,
        notifiable: bool,
        id: u64,
        frame_type: Option<FrameType>,
    ) -> DispatchedView<(usize, <D::Call as View>::V)> {
        match first_match(self@, request.method) {
            Some(i) => {
                let inner = self@[i].dispatched(request, notifiable, id, frame_type);
                DispatchedView {
                    warnings: inner.warnings,
                    action: match inner.action {
                        ActionView::Reply(r) => ActionView::Reply(r),
                        ActionView::Call(c) => ActionView::Call((i as usize, c)),
                    },
                }
            },
            None => rejected(request),
        }
    }

    fn dispatch(
        &self,
        request: Request,
        notifiable: bool,
        id: u64,
        frame_type: Option<FrameType>,
    ) -> (r: Dispatched<(usize, D::Call)>) {
        proof {
            lemma_first_match(self@, request@.method);
        }
        let mut i: usize = 0;
        while i < self.dispatchers.len()
            invariant
                i <= self@.len(),
                self@ == self.dispatchers@,
                forall|j: int| 0 <= j < i ==> !(#[trigger] self@[j]).matched(request@.method),
            decreases self@.len() - i,
        {
            if self.dispatchers[i].match_method(request.method.as_str()) {
                proof {
                    lemma_first_match(self@, request@.method);
                }
                let inner = self.dispatchers[i].dispatch(request, notifiable, id, frame_type);
                return Dispatched {
                    warnings: inner.warnings,
                    action: match inner.action {
                        Action::Reply(r) => Action::Reply(r),
                        Action::Call(c) => Action::Call((i, c)),
                    },
                };
            }
            i = i + 1;
        }
        let r = Dispatched { warnings: Vec::new(), action: Action::Reply(method_not_found(request)) };
        assert(r@.warnings =~= Seq::empty());
        r
    }

    fn match_method(&self, name: &str) -> (r: bool) {
        proof {
            lemma_first_match(self@, name@);
        }
        let mut i: usize = 0;
        while i < self.dispatchers.len()
            invariant
                i <= self@.len(),
                self@ == self.dispatchers@,
                forall|j: int| 0 <= j < i ==> !(#[trigger] self@[j]).matched(name@),
            decreases self@.len() - i,
        {
            if self.dispatchers[i].match_method(name) {
                proof {
                    lemma_first_match(self@, name@);
                    assert(self@[i as int].matched(name@));
                }
                return true;
            }
            i = i + 1;
        }
        false
    }

    fn method_names(&self) -> (r: Vec<&str>) {
        let mut names: Vec<&str> = Vec::new();
        for i in 0..self.dispatchers.len()
            invariant
                self@ == self.dispatchers@,
                strs_view(names@) == all_names(self@.take(i as int)),
        {
            let ghost before = names@;
            let mut more = self.dispatchers[i].method_names();
            let ghost added = more@;
            names.append(&mut more);
            proof {
                assert(self@.take(i + 1).drop_last() =~= self@.take(i as int));
                assert(names@ =~= before + added);
                assert(strs_view(names@) =~= strs_view(before) + strs_view(added));
            }
        }
        assert(self@.take(self@.len() as int) =~= self@);
        names
    }

    fn deprecated_methods(&self) -> (r: Vec<&str>) {
        let mut names: Vec<&str> = Vec::new();
        for i in 0..self.dispatchers.len()
            invariant
                self@ == self.dispatchers@,
                strs_view(names@) == all_deprecated(self@.take(i as int)),
        {
            let ghost before = names@;
            let mut more = self.dispatchers[i].deprecated_methods();
            let ghost added = more@;
            names.append(&mut more);
            proof {
                assert(self@.take(i + 1).drop_last() =~= self@.take(i as int));
                assert(names@ =~= before + added);
                assert(strs_view(names@) =~= strs_view(before) + strs_view(added));
            }
        }
        assert(self@.take(self@.len() as int) =~= self@);
        names
    }
}

/// A dispatcher of either of two kinds. With it, dispatchers of different kinds can be composed.
pub enum EitherDispatcher<A: Dispatcher, B: Dispatcher> {
    /// A dispatcher of the first kind.
    First(A),
    /// A dispatcher of the second kind.
    Second(B),
}

/// What is needed to call a method of a dispatcher of either of two kinds.
#[derive(Debug, PartialEq, Eq)]
pub enum EitherCall<A, B> {
    /// The method is one of a dispatcher of the first kind.
    First(A),
    /// The method is one of a dispatcher of the second kind.
    Second(B),
}

impl<A: View, B: View> View for EitherCall<A, B> {
    type V = EitherCall<A::V, B::V>;

    open spec fn view(&self) -> EitherCall<A::V, B::V> {
        match self {
            EitherCall::First(c) => EitherCall::First(c@),
            EitherCall::Second(c) => EitherCall::Second(c@),
        }
    }
}

impl<A: Dispatcher, B: Dispatcher> Dispatcher for EitherDispatcher<A, B> {
    type Call = EitherCall<A::Call, B::Call>;

    open spec fn names(&self) -> Seq<Seq<char>> {
        match self {
            EitherDispatcher::First(d) => d.names(),
            EitherDispatcher::Second(d) => d.names(),
        }
    }

    open spec fn deprecated(&self) -> Seq<Seq<char>> {
        match self {
            EitherDispatcher::First(d) => d.deprecated(),
            EitherDispatcher::Second(d) => d.deprecated(),
        }
    }

    open spec fn matched(&self, name: Seq<char>) -> bool {
        match self {
            EitherDispatcher::First(d) => d.matched(name),
            EitherDispatcher::Second(d) => d.matched(name),
        }
    }

    open spec fn dispatched(
        &self,
        request: RequestView,
        notifiable: bool,
        id: u64,
        frame_type: Option<FrameType>,
    ) -> DispatchedView<EitherCall<<A::Call as View>::V, <B::Call as View>::V>> {
        match self {
            EitherDispatcher::First(d) => {
                let inner = d.dispatched(request, notifiable, id, frame_type);
                DispatchedView {
                    warnings: inner.warnings,
                    action: match inner.action {
                        ActionView::Reply(r) => ActionView::Reply(r),
                        ActionView::Call(c) => ActionView::Call(EitherCall::First(c)),
                    },
                }
            },
            EitherDispatcher::Second(d) => {
                let inner = d.dispatched(request, notifiable, id, frame_type);
                DispatchedView {
                    warnings: inner.warnings,
                    action: match inner.action {
                        ActionView::Reply(r) => ActionView::Reply(r),
                        ActionView::Call(c) => ActionView::Call(EitherCall::Second(c)),
                    },
                }
            },
        }
    }

    fn dispatch(
        &self,
        request: Request,
        notifiable: bool,
        id: u64,
        frame_type: Option<FrameType>,
    ) -> (r: Dispatched<EitherCall<A::Call, B::Call>>) {
        match self {
            EitherDispatcher::First(d) => {
                let inner = d.dispatch(request, notifiable, id, frame_type);
                Dispatched {
                    warnings: inner.warnings,
                    action: match inner.action {
                        Action::Reply(r) => Action::Reply(r),
                        Action::Call(c) => Action::Call(EitherCall::First(c)),
                    },
                }
            },
            EitherDispatcher::Second(d) => {
                let inner = d.dispatch(request, notifiable, id, frame_type);
                Dispatched {
                    warnings: inner.warnings,
                    action: match inner.action {
                        Action::Reply(r) => Action::Reply(r),
                        Action::Call(c) => Action::Call(EitherCall::Second(c)),
                    },
                }
            },
        }
    }

    fn match_method(&self, name: &str) -> (r: bool) {
        match self {
            EitherDispatcher::First(d) => d.match_method(name),
            EitherDispatcher::Second(d) => d.match_method(name),
        }
    }

    fn method_names(&self) -> (r: Vec<&str>) {
        match self {
            EitherDispatcher::First(d) => d.method_names(),
            EitherDispatcher::Second(d) => d.method_names(),
        }
    }

    fn deprecated_methods(&self) -> (r: Vec<&str>) {
        match self {
            EitherDispatcher::First(d) => d.deprecated_methods(),
            EitherDispatcher::Second(d) => d.deprecated_methods(),
        }
    }
}

/// Dispatcher that only allows specified methods.
pub struct AllowListDispatcher<D: Dispatcher> {
    /// The underlying dispatcher.
    pub inner: D,
    /// Allowed methods. If `None`, all methods are allowed.
    pub method_allowlist: Option<Vec<String>>,
}

/// Whether a list allows a name. Without a list, all names are allowed.
pub open spec fn allowed(list: Option<Vec<String>>, name: Seq<char>) -> bool {
    match list {
        Some(list) => texts_view(list@).contains(name),
        None => true,
    }
}

/// Those of the names that a list allows.
pub open spec fn only_allowed(list: Option<Vec<String>>, names: Seq<Seq<char>>) -> Seq<Seq<char>>
    decreases names.len(),
{
    if names.len() == 0 {
        Seq::empty()
    } else if allowed(list, names.last()) {
        only_allowed(list, names.drop_last()).push(names.last())
    } else {
        only_allowed(list, names.drop_last())
    }
}

/// Every name that is left is one of the names, and allowed; and every name that is allowed is
/// left.
pub proof fn lemma_only_allowed(list: Option<Vec<String>>, names: Seq<Seq<char>>, name: Seq<char>)
    ensures
        only_allowed(list, names).contains(name) <==> names.contains(name) && allowed(list, name),
    decreases names.len(),
{
    if names.len() > 0 {
        let rest = names.drop_last();
        lemma_only_allowed(list, rest, name);
        assert(names =~= rest.push(names.last()));
        assert(names.contains(name) <==> rest.contains(name) || name == names.last()) by {
            if rest.contains(name) {
                let j = choose|j: int| 0 <= j < rest.len() && rest[j] == name;
                assert(names[j] == name);
            }
            if name == names.last() {
                assert(names[names.len() - 1] == name);
            }
        }
        let left = only_allowed(list, rest);
        if allowed(list, names.last()) {
            let all = left.push(names.last());
            if left.contains(name) {
                let j = choose|j: int| 0 <= j < left.len() && left[j] == name;
                assert(all[j] == name);
            }
            if name == names.last() {
                assert(all[left.len() as int] == name);
            }
        }
    }
}

impl<D: Dispatcher> AllowListDispatcher<D> {
    /// Creates a new `AllowListDispatcher`.
    ///
    /// # Arguments
    ///
    ///  - `inner`: The underlying dispatcher, which will handle allowed method calls.
    ///  - `method_allowlist`: Names of allowed methods. If `None`, allows all methods.
    pub fn new(inner: D, method_allowlist: Option<Vec<String>>) -> (r: Self)
        ensures
            r.inner == inner,
            r.method_allowlist == method_allowlist,
    {
        AllowListDispatcher { inner, method_allowlist }
    }

    fn is_allowed(&self, method: &str) -> (r: bool)
        ensures
            r == allowed(self.method_allowlist, method@),
    {
        match &self.method_allowlist {
            Some(list) => {
                let r = is_among(list, method);
                proof {
                    let texts = texts_view(list@);
                    if texts.contains(method@) {
                        let i = choose|i: int| 0 <= i < texts.len() && texts[i] == method@;
                        assert(list@[i]@ == method@);
                    }
                    if r {
                        let i = choose|i: int|
                            0 <= i < list@.len() && (#[trigger] list@[i])@ == method@;
                        assert(texts[i] == method@);
                    }
                }
                r
            },
            None => true,
        }
    }
}

/// Those of the names that a dispatcher allows.
fn keep_allowed<'a, D: Dispatcher>(
    dispatcher: &AllowListDispatcher<D>,
    names: Vec<&'a str>,
) -> (r: Vec<&'a str>)
    ensures
        strs_view(r@) == only_allowed(dispatcher.method_allowlist, strs_view(names@)),
{
    let ghost all = strs_view(names@);
    let mut kept: Vec<&'a str> = Vec::new();
    for i in 0..names.len()
        invariant
            all == strs_view(names@),
            strs_view(kept@) == only_allowed(dispatcher.method_allowlist, all.take(i as int)),
    {
        proof {
            assert(all.take(i + 1).drop_last() =~= all.take(i as int));
            assert(all.take(i + 1).last() == names@[i as int]@);
        }
        let ghost before = kept@;
        if dispatcher.is_allowed(names[i]) {
            kept.push(names[i]);
            assert(strs_view(kept@) =~= strs_view(before).push(names@[i as int]@));
        }
    }
    assert(all.take(all.len() as int) =~= all);
    kept
}

impl<D: Dispatcher> Dispatcher for AllowListDispatcher<D> {
    type Call = D::Call;

    open spec fn names(&self) -> Seq<Seq<char>> {
        only_allowed(self.method_allowlist, self.inner.names())
    }

    open spec fn deprecated(&self) -> Seq<Seq<char>> {
        only_allowed(self.method_allowlist, self.inner.deprecated())
    }

    open spec fn matched(&self, name: Seq<char>) -> bool {
        allowed(self.method_allowlist, name) && self.inner.matched(name)
    }

    open spec fn dispatched(
        &self,
        request: RequestView,
        notifiable: bool,
        id: u64,
        frame_type: Option<FrameType>,
    ) -> DispatchedView<<D::Call as View>::V> {
        if allowed(self.method_allowlist, request.method) {
            self.inner.dispatched(request, notifiable, id, frame_type)
        } else {
            rejected(request)
        }
    }

    fn dispatch(
        &self,
        request: Request,
        notifiable: bool,
        id: u64,
        frame_type: Option<FrameType>,
    ) -> (r: Dispatched<D::Call>) {
        if self.is_allowed(request.method.as_str()) {
            self.inner.dispatch(request, notifiable, id, frame_type)
        } else {
            // If the method is not white-listed, pretend it doesn't exist.
            let r = Dispatched {
                warnings: Vec::new(),
                action: Action::Reply(method_not_found(request)),
            };
            assert(r@.warnings =~= Seq::empty());
            r
        }
    }

    fn match_method(&self, name: &str) -> (r: bool) {
        self.is_allowed(name) && self.inner.match_method(name)
    }

    fn method_names(&self) -> (r: Vec<&str>) {
        keep_allowed(self, self.inner.method_names())
    }

    fn deprecated_methods(&self) -> (r: Vec<&str>) {
        keep_allowed(self, self.inner.deprecated_methods())
    }
}

/// Whether a dispatcher matches the methods that it lists, and no others.
pub open spec fn matches_what_it_lists<D: Dispatcher>(d: D) -> bool {
    forall|name: Seq<char>| #[trigger] d.matched(name) == d.names().contains(name)
}

/// Some dispatcher matches a name if and only if their composition does, and the first that does is
/// asked; a composition of none matches nothing.
pub proof fn lemma_composition_matches<D: Dispatcher>(d: ModularDispatcher<D>, name: Seq<char>)
    ensures
        d.matched(name) <==> exists|i: int| 0 <= i < d@.len() && (#[trigger] d@[i]).matched(name),
        d@.len() == 0 ==> !d.matched(name),
        first_match(d@, name) matches Some(i) ==> d@[i].matched(name) && forall|j: int|
            0 <= j < i ==> !(#[trigger] d@[j]).matched(name),
{
    lemma_first_match(d@, name);
}

/// A request for a method that no dispatcher of a composition matches is answered that the method
/// does not exist.
pub proof fn lemma_unmatched_is_rejected<D: Dispatcher>(
    d: ModularDispatcher<D>,
    request: RequestView,
    notifiable: bool,
    id: u64,
    frame_type: Option<FrameType>,
)
    requires
        !d.matched(request.method),
    ensures
        d.dispatched(request, notifiable, id, frame_type) == rejected::<
            (usize, <D::Call as View>::V),
        >(request),
{
}

/// A composition of dispatchers that match the methods they list matches those that it lists.
pub proof fn lemma_composition_matches_what_it_lists<D: Dispatcher>(d: ModularDispatcher<D>)
    requires
        forall|i: int| 0 <= i < d@.len() ==> matches_what_it_lists(#[trigger] d@[i]),
    ensures
        matches_what_it_lists(d),
{
    assert forall|name: Seq<char>| #[trigger] d.matched(name) == d.names().contains(name) by {
        lemma_first_match(d@, name);
        lemma_all_names(d@, name);
        if d.names().contains(name) {
            let i = choose|i: int| 0 <= i < d@.len() && (#[trigger] d@[i]).names().contains(name);
            assert(d@[i].matched(name));
        }
        if d.matched(name) {
            let i = first_match(d@, name)->0;
            assert(d@[i].names().contains(name));
        }
    }
}

/// An allow list over a dispatcher that matches the methods it lists matches those that are left.
pub proof fn lemma_allow_list_matches_what_it_lists<D: Dispatcher>(d: AllowListDispatcher<D>)
    requires
        matches_what_it_lists(d.inner),
    ensures
        matches_what_it_lists(d),
{
    assert forall|name: Seq<char>| #[trigger] d.matched(name) == d.names().contains(name) by {
        lemma_only_allowed(d.method_allowlist, d.inner.names(), name);
        assert(d.inner.matched(name) == d.inner.names().contains(name));
    }
}

/// The names of all dispatchers are those of each.
proof fn lemma_all_names<D: Dispatcher>(s: Seq<D>, name: Seq<char>)
    ensures
        all_names(s).contains(name) <==> exists|i: int|
            0 <= i < s.len() && (#[trigger] s[i]).names().contains(name),
    decreases s.len(),
{
    if s.len() > 0 {
        let rest = s.drop_last();
        lemma_all_names(rest, name);
        let before = all_names(rest);
        let added = s.last().names();
        let all = before + added;
        assert(s.last() == s[s.len() - 1]);
        if before.contains(name) {
            let j = choose|j: int| 0 <= j < before.len() && before[j] == name;
            assert(all[j] == name);
            let i = choose|i: int| 0 <= i < rest.len() && (#[trigger] rest[i]).names().contains(name);
            assert(s[i] == rest[i]);
        }
        if added.contains(name) {
            let j = choose|j: int| 0 <= j < added.len() && added[j] == name;
            assert(all[before.len() + j] == name);
        }
        if exists|i: int| 0 <= i < s.len() && (#[trigger] s[i]).names().contains(name) {
            let i = choose|i: int| 0 <= i < s.len() && (#[trigger] s[i]).names().contains(name);
            if i < rest.len() {
                assert(rest[i] == s[i]);
            }
        }
    }
}

/// A method that is not allowed looks to a client like one that does not exist: it is not matched
/// or listed, and a request for it is answered as by a dispatcher without methods.
pub proof fn lemma_allow_list_hides<D: Dispatcher>(
    d: AllowListDispatcher<D>,
    empty: ModularDispatcher<D>,
    request: RequestView,
    notifiable: bool,
    id: u64,
    frame_type: Option<FrameType>,
)
    requires
        !allowed(d.method_allowlist, request.method),
        empty@ == Seq::<D>::empty(),
    ensures
        !d.matched(request.method),
        !d.names().contains(request.method),
        !d.deprecated().contains(request.method),
        d.dispatched(request, notifiable, id, frame_type).action is Reply,
        d.dispatched(request, notifiable, id, frame_type).action->Reply_0 == empty.dispatched(
            request,
            notifiable,
            id,
            frame_type,
        ).action->Reply_0,
{
    lemma_only_allowed(d.method_allowlist, d.inner.names(), request.method);
    lemma_only_allowed(d.method_allowlist, d.inner.deprecated(), request.method);
}

} // verus!
