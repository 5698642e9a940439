//! Services and proxies: what is generated for them, and how a service dispatches a request.

use crate::args::{
    accepts, bound, fault_view, field_for, field_wire, indices_view, lemma_all_given,
    lemma_field_for, members, slots_view, uses_old_names, Bound,
};
use crate::derive::{
    args_field, args_struct, callable, match_arm, not_named, proxy_method, rpc_method, typed_params,
    ArgsFieldView, ArgsStruct, ArgsStructView, Attribute, FnArg, MatchArm, MatchArmView,
    ProxyMethod, ProxyMethodView, RpcMethod, RpcMethodView, Signature,
};
use crate::dispatch::{
    dispatch_method_with_args, error_reply, error_response, matches_what_it_lists,
    method_not_found, outcome_view, rejected, reply_view, response, Action, ActionView, Dispatched,
    DispatchedView, Dispatcher,
};
use crate::error::{described, internal_error, invalid_params, json_view, RpcError};
use crate::frame::FrameType;
use crate::json::{Json, Tree};
use crate::rename::{rename_all_of, RenameAll};
use crate::request::{Request, RequestView};
use crate::response::{failure, success, Response, ResponseView};
use crate::stream::{connect_stream, ForwarderView, StreamForwarder};
use crate::subscription::{id_tree, SubId, SubscriptionId};
use crate::text::{bare, same, strs_view, texts_view, unraw};
use vstd::prelude::*;

verus! {

/// A method of a service or of its trait.
#[derive(Debug, PartialEq, Eq)]
pub struct Method {
    /// The signature.
    pub sig: Signature,
    /// The attributes.
    pub attrs: Vec<Attribute>,
}

/// The RPC methods that some methods are.
pub open spec fn rpc_methods(
    methods: Seq<Method>,
    args_struct_prefix: Seq<char>,
    rename_all: Option<RenameAll>,
) -> Seq<RpcMethodView> {
    methods.map_values(
        |m: Method| rpc_method(m.sig, args_struct_prefix, m.attrs@, rename_all),
    )
}

/// What RPC methods are.
pub open spec fn methods_view(methods: Seq<RpcMethod>) -> Seq<RpcMethodView> {
    methods.map_values(|m: RpcMethod| m@)
}

/// Whether all methods can be RPC methods.
pub open spec fn all_callable(methods: Seq<Method>) -> bool {
    forall|i: int| 0 <= i < methods.len() ==> callable((#[trigger] methods[i]).sig.inputs@)
}

/// Whether `after` are the methods `before` without their `#[stream]` attributes.
pub open spec fn without_stream(before: Seq<Method>, after: Seq<Method>) -> bool {
    &&& after.len() == before.len()
    &&& forall|i: int|
        0 <= i < after.len() ==> (#[trigger] after[i]).sig == before[i].sig && after[i].attrs@
            == not_named(before[i].attrs@, "stream"@)
}

/// Reads all methods.
fn read_methods(
    methods: Vec<Method>,
    args_struct_prefix: &str,
    rename_all: &Option<RenameAll>,
) -> (r: (Vec<RpcMethod>, Vec<Method>))
    requires
        all_callable(methods@),
    ensures
        methods_view(r.0@) == rpc_methods(methods@, args_struct_prefix@, *rename_all),
        without_stream(methods@, r.1@),
{
    let ghost all = methods@;
    let mut read: Vec<RpcMethod> = Vec::new();
    let mut rest: Vec<Method> = Vec::new();
    for method in it: methods
        invariant
            it.seq() == all,
            all_callable(all),
            read@.len() == it.index(),
            forall|j: int|
                0 <= j < read@.len() ==> (#[trigger] read@[j])@ == rpc_method(
                    all[j].sig,
                    args_struct_prefix@,
                    all[j].attrs@,
                    *rename_all,
                ),
            without_stream(all.take(it.index() as int), rest@),
    {
        let ghost i = it.index() as int;
        assert(callable(all[i].sig.inputs@));
        let Method { sig, attrs } = method;
        let mut attrs = attrs;
        read.push(RpcMethod::new(&sig, args_struct_prefix, &mut attrs, rename_all));
        rest.push(Method { sig, attrs });
        assert(forall|j: int| 0 <= j < i ==> #[trigger] all.take(i + 1)[j] == all.take(i)[j]);
    }
    assert(all.take(all.len() as int) =~= all);
    assert(methods_view(read@) =~= rpc_methods(all, args_struct_prefix@, *rename_all));
    (read, rest)
}

/// What is generated for a service.
#[derive(Debug, PartialEq, Eq)]
pub struct ServiceImpl {
    /// The structs that hold the arguments.
    pub args_structs: Vec<ArgsStruct>,
    /// The arms that call the methods.
    pub match_arms: Vec<MatchArm>,
    /// The names by which the methods are matched.
    pub name_match_arms: Vec<String>,
    /// The names of the methods.
    pub method_names: Vec<String>,
    /// The names of the deprecated methods.
    pub deprecated_methods: Vec<String>,
}

/// The names of the methods.
pub open spec fn service_names(methods: Seq<RpcMethodView>) -> Seq<Seq<char>> {
    methods.map_values(|m: RpcMethodView| m.name)
}

/// The names of the deprecated methods.
pub open spec fn service_deprecated(methods: Seq<RpcMethodView>) -> Seq<Seq<char>>
    decreases methods.len(),
{
    if methods.len() == 0 {
        Seq::empty()
    } else if methods.last().deprecated is Some {
        service_deprecated(methods.drop_last()).push(methods.last().name)
    } else {
        service_deprecated(methods.drop_last())
    }
}

/// The methods that are deprecated are those of the service that are marked so.
pub proof fn lemma_service_deprecated(methods: Seq<RpcMethodView>, name: Seq<char>)
    ensures
        service_deprecated(methods).contains(name) <==> exists|i: int|
            0 <= i < methods.len() && (#[trigger] methods[i]).name == name
                && methods[i].deprecated is Some,
        service_deprecated(methods).contains(name) ==> service_names(methods).contains(name),
    decreases methods.len(),
{
    if methods.len() > 0 {
        let rest = methods.drop_last();
        let last = methods.last();
        lemma_service_deprecated(rest, name);
        let left = service_deprecated(rest);
        let all = service_deprecated(methods);
        assert(last == methods[methods.len() - 1]);
        if left.contains(name) {
            let j = choose|j: int| 0 <= j < left.len() && left[j] == name;
            assert(all[j] == name);
            let i = choose|i: int|
                0 <= i < rest.len() && (#[trigger] rest[i]).name == name
                    && rest[i].deprecated is Some;
            assert(methods[i] == rest[i]);
        }
        if last.deprecated is Some && last.name == name {
            assert(all[left.len() as int] == name);
        }
        if exists|i: int|
            0 <= i < methods.len() && (#[trigger] methods[i]).name == name
                && methods[i].deprecated is Some {
            let i = choose|i: int|
                0 <= i < methods.len() && (#[trigger] methods[i]).name == name
                    && methods[i].deprecated is Some;
            if i < rest.len() {
                assert(rest[i] == methods[i]);
            }
        }
    }
    if service_deprecated(methods).contains(name) {
        let i = choose|i: int|
            0 <= i < methods.len() && (#[trigger] methods[i]).name == name
                && methods[i].deprecated is Some;
        assert(service_names(methods)[i] == name);
    }
}

/// A service: its methods, by which it dispatches requests.
pub struct Service {
    methods: Vec<RpcMethod>,
}

impl View for Service {
    type V = Seq<RpcMethodView>;

    closed spec fn view(&self) -> Seq<RpcMethodView> {
        methods_view(self.methods@)
    }
}

/// The renaming that an optional case name stands for.
pub open spec fn rename_option(name: Option<String>) -> Option<RenameAll> {
    match name {
        Some(name) => rename_all_of(name@),
        None => None,
    }
}

/// Whether an optional case name stands for a renaming, if it is there.
pub open spec fn valid_rename(name: Option<String>) -> bool {
    name is Some ==> rename_option(name) is Some
}

/// The methods of a service.
pub open spec fn service_methods(
    struct_name: Seq<char>,
    rename_all: Option<String>,
    methods: Seq<Method>,
) -> Seq<RpcMethodView> {
    rpc_methods(methods, "ServiceArgs_"@ + struct_name, rename_option(rename_all))
}

/// Reads an optional case name.
fn read_rename(name: &Option<String>) -> (r: Option<RenameAll>)
    requires
        valid_rename(*name),
    ensures
        r == rename_option(*name),
{
    match name {
        Some(name) => match RenameAll::from_str(name.as_str()) {
            Ok(r) => Some(r),
            Err(_) => None,
        },
        None => None,
    }
}

/// The structs for the arguments of some methods.
pub open spec fn all_structs(methods: Seq<RpcMethodView>) -> Seq<ArgsStructView> {
    methods.map_values(|m: RpcMethodView| args_struct(m))
}

/// The arms that call some methods.
pub open spec fn all_arms(methods: Seq<RpcMethodView>) -> Seq<MatchArmView> {
    methods.map_values(|m: RpcMethodView| match_arm(m))
}

/// The methods of a proxy that call some methods.
pub open spec fn all_proxies(methods: Seq<RpcMethodView>) -> Seq<ProxyMethodView> {
    methods.map_values(|m: RpcMethodView| proxy_method(m))
}

impl Service {
    /// Reads the methods of the service `struct_name`. They are returned without their
    /// `#[stream]` attributes.
    ///
    /// # Arguments
    ///
    ///  - `struct_name`: The name of the type that implements the service.
    ///  - `rename_all`: How names are written on the wire, if not as in the code.
    ///  - `methods`: The methods.
    pub fn new(
        struct_name: &str,
        rename_all: &Option<String>,
        methods: Vec<Method>,
    ) -> (r: (Service, Vec<Method>))
        requires
            all_callable(methods@),
            valid_rename(*rename_all),
        ensures
            r.0@ == service_methods(struct_name@, *rename_all, methods@),
            without_stream(methods@, r.1@),
    {
        let mut prefix = "ServiceArgs_".to_owned();
        prefix.append(struct_name);
        let rename_all = read_rename(rename_all);
        let (methods, rest) = read_methods(methods, prefix.as_str(), &rename_all);
        (Service { methods }, rest)
    }

    /// What is generated for the service.
    pub fn generate(&self) -> (r: ServiceImpl)
        ensures
            r.args_structs@.map_values(|x: ArgsStruct| x@) == self@.map_values(
                |m: RpcMethodView| args_struct(m),
            ),
            r.match_arms@.map_values(|x: MatchArm| x@) == self@.map_values(
                |m: RpcMethodView| match_arm(m),
            ),
            texts_view(r.name_match_arms@) == service_names(self@),
            texts_view(r.method_names@) == service_names(self@),
            texts_view(r.deprecated_methods@) == service_deprecated(self@),
            r.args_structs@.map_values(|x: ArgsStruct| x@) == all_structs(self@),
            r.match_arms@.map_values(|x: MatchArm| x@) == all_arms(self@),
    {
        let mut args_structs: Vec<ArgsStruct> = Vec::new();
        let mut match_arms: Vec<MatchArm> = Vec::new();
        let mut name_match_arms: Vec<String> = Vec::new();
        let mut method_names: Vec<String> = Vec::new();
        let mut deprecated_methods: Vec<String> = Vec::new();
        for i in 0..self.methods.len()
            invariant
                self@.len() == self.methods@.len(),
                args_structs@.len() == i,
                match_arms@.len() == i,
                name_match_arms@.len() == i,
                method_names@.len() == i,
                forall|j: int| 0 <= j < i ==> (#[trigger] args_structs@[j])@ == args_struct(self@[j]),
                forall|j: int| 0 <= j < i ==> (#[trigger] match_arms@[j])@ == match_arm(self@[j]),
                forall|j: int| 0 <= j < i ==> (#[trigger] name_match_arms@[j])@ == self@[j].name,
                forall|j: int| 0 <= j < i ==> (#[trigger] method_names@[j])@ == self@[j].name,
                texts_view(deprecated_methods@) == service_deprecated(self@.take(i as int)),
        {
            let method = &self.methods[i];
            proof {
                assert(self@[i as int] == method@);
                assert(self@.take(i + 1).drop_last() =~= self@.take(i as int));
                assert(self@.take(i + 1).last() == self@[i as int]);
            }
            args_structs.push(method.generate_args_struct());
            match_arms.push(method.generate_dispatcher_match_arm());
            name_match_arms.push(method.generate_dispatcher_method_matcher());
            method_names.push(method.method_name().clone());
            if method.is_deprecated() {
                let ghost before = deprecated_methods@;
                deprecated_methods.push(method.method_name().clone());
                assert(texts_view(deprecated_methods@) =~= texts_view(before).push(method@.name));
            }
        }
        assert(self@.take(self@.len() as int) =~= self@);
        assert(args_structs@.map_values(|x: ArgsStruct| x@) =~= self@.map_values(
            |m: RpcMethodView| args_struct(m),
        ));
        assert(match_arms@.map_values(|x: MatchArm| x@) =~= self@.map_values(
            |m: RpcMethodView| match_arm(m),
        ));
        assert(texts_view(name_match_arms@) =~= service_names(self@));
        assert(texts_view(method_names@) =~= service_names(self@));
        ServiceImpl { args_structs, match_arms, name_match_arms, method_names, deprecated_methods }
    }
}

/// What is generated for the service `struct_name`. The methods are returned without their
/// `#[stream]` attributes.
pub fn service_macro(
    struct_name: &str,
    rename_all: &Option<String>,
    methods: Vec<Method>,
) -> (r: (ServiceImpl, Vec<Method>))
    requires
        all_callable(methods@),
        valid_rename(*rename_all),
    ensures
        r.0.args_structs@.map_values(|x: ArgsStruct| x@) == service_methods(
            struct_name@,
            *rename_all,
            methods@,
        ).map_values(|m: RpcMethodView| args_struct(m)),
        r.0.match_arms@.map_values(|x: MatchArm| x@) == service_methods(
            struct_name@,
            *rename_all,
            methods@,
        ).map_values(|m: RpcMethodView| match_arm(m)),
        texts_view(r.0.name_match_arms@) == service_names(
            service_methods(struct_name@, *rename_all, methods@),
        ),
        texts_view(r.0.method_names@) == service_names(
            service_methods(struct_name@, *rename_all, methods@),
        ),
        texts_view(r.0.deprecated_methods@) == service_deprecated(
            service_methods(struct_name@, *rename_all, methods@),
        ),
        without_stream(methods@, r.1@),
        r.0.args_structs@.map_values(|x: ArgsStruct| x@) == all_structs(
            service_methods(struct_name@, *rename_all, methods@),
        ),
        r.0.match_arms@.map_values(|x: MatchArm| x@) == all_arms(
            service_methods(struct_name@, *rename_all, methods@),
        ),
{
    let (service, rest) = Service::new(struct_name, rename_all, methods);
    (service.generate(), rest)
}

/// What is generated for a proxy.
#[derive(Debug, PartialEq, Eq)]
pub struct ProxyImpl {
    /// The name of the proxy.
    pub struct_ident: String,
    /// The structs that hold the arguments.
    pub args_structs: Vec<ArgsStruct>,
    /// The methods.
    pub methods: Vec<ProxyMethod>,
}

/// The name of the proxy of a trait: the given one, or that of the trait with `Proxy` behind it.
pub open spec fn proxy_name(trait_name: Seq<char>, name: Option<String>) -> Seq<char> {
    match name {
        Some(name) => name@,
        None => bare(trait_name) + "Proxy"@,
    }
}

/// The methods of the proxy of a trait.
pub open spec fn proxy_methods(trait_name: Seq<char>, methods: Seq<Method>) -> Seq<RpcMethodView> {
    rpc_methods(methods, "ProxyArgs_"@ + trait_name, None)
}

/// What is generated for the proxy of the trait `trait_name`. The methods are returned without
/// their `#[stream]` attributes.
///
/// # Arguments
///
///  - `trait_name`: The name of the trait.
///  - `name`: The name of the proxy, if it is given.
///  - `methods`: The methods of the trait.
pub fn proxy_macro(
    trait_name: &str,
    name: &Option<String>,
    methods: Vec<Method>,
) -> (r: (ProxyImpl, Vec<Method>))
    requires
        all_callable(methods@),
    ensures
        r.0.struct_ident@ == proxy_name(trait_name@, *name),
        r.0.args_structs@.map_values(|x: ArgsStruct| x@) == proxy_methods(
            trait_name@,
            methods@,
        ).map_values(|m: RpcMethodView| args_struct(m)),
        r.0.methods@.map_values(|x: ProxyMethod| x@) == proxy_methods(
            trait_name@,
            methods@,
        ).map_values(|m: RpcMethodView| proxy_method(m)),
        without_stream(methods@, r.1@),
        r.0.args_structs@.map_values(|x: ArgsStruct| x@) == all_structs(
            proxy_methods(trait_name@, methods@),
        ),
        r.0.methods@.map_values(|x: ProxyMethod| x@) == all_proxies(
            proxy_methods(trait_name@, methods@),
        ),
{
    let struct_ident = match name {
        Some(name) => name.clone(),
        None => {
            let mut ident = unraw(trait_name).to_owned();
            ident.append("Proxy");
            ident
        },
    };
    let mut prefix = "ProxyArgs_".to_owned();
    prefix.append(trait_name);
    let ghost all = proxy_methods(trait_name@, methods@);
    let (read, rest) = read_methods(methods, prefix.as_str(), &None);
    let mut args_structs: Vec<ArgsStruct> = Vec::new();
    let mut proxies: Vec<ProxyMethod> = Vec::new();
    for i in 0..read.len()
        invariant
            all == methods_view(read@),
            args_structs@.len() == i,
            proxies@.len() == i,
            forall|j: int| 0 <= j < i ==> (#[trigger] args_structs@[j])@ == args_struct(all[j]),
            forall|j: int| 0 <= j < i ==> (#[trigger] proxies@[j])@ == proxy_method(all[j]),
    {
        assert(all[i as int] == read@[i as int]@);
        args_structs.push(read[i].generate_args_struct());
        proxies.push(read[i].generate_proxy_method());
    }
    assert(args_structs@.map_values(|x: ArgsStruct| x@) =~= all.map_values(
        |m: RpcMethodView| args_struct(m),
    ));
    assert(proxies@.map_values(|x: ProxyMethod| x@) =~= all.map_values(
        |m: RpcMethodView| proxy_method(m),
    ));
    (ProxyImpl { struct_ident, args_structs, methods: proxies }, rest)
}

/// A call of a method, on behalf of a request.
pub struct MethodCall {
    /// The method to be called.
    pub method: String,
    /// The arguments. One that was left out is `None`.
    pub args: Vec<Option<Json>>,
    /// The arguments that are given, in the order in which they are read.
    pub order: Vec<usize>,
    /// What is found wrong once these are read.
    pub fault: Option<String>,
    /// The ID of the request.
    pub id: Option<Json>,
    /// The ID of the stream that the method returns, if it returns one.
    pub stream: Option<SubscriptionId>,
    /// What forwards the stream that the method returns, if it returns one.
    pub forwarder: Option<StreamForwarder>,
}

/// What a call is.
#[verifier::ext_equal]
pub struct MethodCallView {
    /// The method to be called.
    pub method: Seq<char>,
    /// The arguments.
    pub args: Seq<Option<Tree>>,
    /// The arguments that are given, in the order in which they are read.
    pub order: Seq<int>,
    /// What is found wrong once these are read.
    pub fault: Option<Seq<char>>,
    /// The ID of the request.
    pub id: Option<Tree>,
    /// The ID of the stream that the method returns, if it returns one.
    pub stream: Option<SubId>,
    /// What forwards the stream that the method returns, if it returns one.
    pub forwarder: Option<ForwarderView>,
}

/// The ID of a stream, if there is one.
pub open spec fn stream_view(s: Option<SubscriptionId>) -> Option<SubId> {
    match s {
        Some(id) => Some(id@),
        None => None,
    }
}

/// What forwards a stream, if there is one.
pub open spec fn forwarder_view(f: Option<StreamForwarder>) -> Option<ForwarderView> {
    match f {
        Some(f) => Some(f@),
        None => None,
    }
}

impl View for MethodCall {
    type V = MethodCallView;

    open spec fn view(&self) -> MethodCallView {
        MethodCallView {
            method: self.method@,
            args: slots_view(self.args@),
            order: indices_view(self.order@),
            fault: fault_view(self.fault),
            id: json_view(self.id),
            stream: stream_view(self.stream),
            forwarder: forwarder_view(self.forwarder),
        }
    }
}

/// What a method returned.
pub enum Returned<N> {
    /// A value, which was turned into JSON.
    Value(Json),
    /// A stream, which is forwarded to the client until the handle tells to stop.
    Stream(N),
}

/// How a call is answered that does not pass the check, where it does not: with the error, if a
/// response is expected.
pub open spec fn check_reply(c: MethodCallView, misfits: Seq<Option<String>>) -> Option<
    Option<ResponseView>,
> {
    match refusal(c, misfits) {
        Some(e) => Some(error_reply(c.id, invalid_params(Some(e)))),
        None => None,
    }
}

/// The response to a request once its method returned, and the handle by which a stream is stopped,
/// if the client is told of a stream.
pub open spec fn finished<N>(c: MethodCallView, result: Result<Returned<N>, RpcError>) -> Option<
    (ResponseView, Option<N>),
> {
    match (c.id, result) {
        (None, _) => None,
        (Some(id), Ok(Returned::Value(v))) => Some((success(id, v@), None)),
        (Some(id), Ok(Returned::Stream(handle))) => Some(
            (success(id, id_tree(c.stream->0)), Some(handle)),
        ),
        (Some(id), Err(e)) => Some((failure(id, e@), None)),
    }
}

/// The first text, if there is one.
pub open spec fn first_misfit(misfits: Seq<Option<String>>) -> Option<Seq<char>>
    decreases misfits.len(),
{
    if misfits.len() == 0 {
        None
    } else {
        match first_misfit(misfits.drop_last()) {
            Some(e) => Some(e),
            None => fault_view(misfits.last()),
        }
    }
}

/// Why a call is refused, if it is, where `misfits` says of each argument that is given, in the
/// order in which they are read, why it does not fit its type, if it does not.
pub open spec fn refusal(c: MethodCallView, misfits: Seq<Option<String>>) -> Option<Seq<char>> {
    match first_misfit(misfits) {
        Some(e) => Some(e),
        None => c.fault,
    }
}

impl MethodCall {
    /// Checks the arguments, once they were read. It is the call if all is well, else the response
    /// to the request: the first argument that does not fit its type is the error, and if all fit
    /// it is the fault of the parameters as a whole.
    ///
    /// # Arguments
    ///
    ///  - `misfits`: For each argument that is given, in the order in which they are read, why it
    ///    does not fit its type, if it does not.
    pub fn check(self, misfits: Vec<Option<String>>) -> (r: Result<MethodCall, Option<Response>>)
        requires
            misfits@.len() == self.order@.len(),
        ensures
            match refusal(self@, misfits@) {
                None => r == Ok::<MethodCall, Option<Response>>(self),
                Some(e) => r matches Err(x) && reply_view(x) == error_reply(
                    self@.id,
                    invalid_params(Some(e)),
                ),
            },
            match check_reply(self@, misfits@) {
                None => r == Ok::<MethodCall, Option<Response>>(self),
                Some(reply) => r matches Err(x) && reply_view(x) == reply,
            },
    {
        let ghost all = misfits@;
        for misfit in it: misfits
            invariant
                it.seq() == all,
                first_misfit(all.take(it.index() as int)) is None,
        {
            let ghost i = it.index() as int;
            proof {
                assert(all.take(i + 1).drop_last() =~= all.take(i));
                assert(all.take(i + 1).last() == all[i]);
            }
            if let Some(message) = misfit {
                proof {
                    lemma_first_misfit_stays(all, i + 1);
                }
                return Err(self.refuse(message));
            }
        }
        assert(all.take(all.len() as int) =~= all);
        if self.fault.is_some() {
            let MethodCall { method, args, order, fault, id, stream, forwarder } = self;
            let message = fault.unwrap();
            let call = MethodCall { method, args, order, fault: None, id, stream, forwarder };
            return Err(call.refuse(message));
        }
        Ok(self)
    }

    /// The response to the request, once the method returned. With it comes the handle by which
    /// the stream is stopped, if the client was told of a stream.
    ///
    /// A stream is told of by its ID.
    pub fn finish<N>(self, result: Result<Returned<N>, RpcError>) -> (r: Option<
        (Response, Option<N>),
    >)
        requires
            result matches Ok(Returned::Stream(_)) ==> self.stream is Some,
        ensures
            match (self.id, result) {
                (None, _) => r is None,
                (Some(id), Ok(Returned::Value(v))) => r matches Some((x, n)) && x@ == success(
                    id@,
                    v@,
                ) && n is None,
                (Some(id), Ok(Returned::Stream(handle))) => r matches Some((x, n)) && (
                self@.stream matches Some(stream) && x@ == success(id@, id_tree(stream)))
                    && n == Some(handle),
                (Some(id), Err(e)) => r matches Some((x, n)) && x@ == failure(id@, e@) && n is None,
            },
            outcome_view(r) == finished(self@, result),
    {
        let result = match result {
            Ok(Returned::Value(v)) => Ok((v, None)),
            Ok(Returned::Stream(handle)) => Ok((self.stream.unwrap().to_value(), Some(handle))),
            Err(e) => Err(e),
        };
        response(self.id, result)
    }

    /// The response to the request, if the arguments turn out not to fit.
    fn refuse(self, message: String) -> (r: Option<Response>)
        ensures
            reply_view(r) == error_reply(self@.id, invalid_params(Some(message@))),
    {
        error_response(
            self.id,
            || -> (e: RpcError)
                ensures
                    e@ == invalid_params(Some(message@))
                { RpcError::invalid_params(Some(message)) },
        )
    }
}

/// What is first of some is first of all.
proof fn lemma_first_misfit_stays(misfits: Seq<Option<String>>, k: int)
    requires
        0 <= k <= misfits.len(),
        first_misfit(misfits.take(k)) is Some,
    ensures
        first_misfit(misfits) == first_misfit(misfits.take(k)),
    decreases misfits.len(),
{
    if k == misfits.len() {
        assert(misfits.take(k) =~= misfits);
    } else {
        assert(misfits.drop_last().take(k) =~= misfits.take(k));
        lemma_first_misfit_stays(misfits.drop_last(), k);
    }
}

/// The first method with a name, if there is one.
pub open spec fn method_for(methods: Seq<RpcMethodView>, name: Seq<char>) -> Option<int>
    decreases methods.len(),
{
    if methods.len() == 0 {
        None
    } else {
        match method_for(methods.drop_last(), name) {
            Some(i) => Some(i),
            None => if methods.last().name == name {
                Some(methods.len() - 1)
            } else {
                None
            },
        }
    }
}

/// The first method with a name is one of them and has it, and none before it does; and none
/// does, where there is no first.
pub proof fn lemma_method_for(methods: Seq<RpcMethodView>, name: Seq<char>)
    ensures
        match method_for(methods, name) {
            Some(i) => 0 <= i < methods.len() && methods[i].name == name && forall|j: int|
                0 <= j < i ==> (#[trigger] methods[j]).name != name,
            None => forall|j: int| 0 <= j < methods.len() ==> (#[trigger] methods[j]).name != name,
        },
    decreases methods.len(),
{
    if methods.len() > 0 {
        let rest = methods.drop_last();
        lemma_method_for(rest, name);
        assert(forall|j: int| 0 <= j < rest.len() ==> #[trigger] methods[j] == rest[j]);
    }
}

/// The warning that a deprecated method is called.
pub open spec fn method_warning(name: Seq<char>, note: Option<Seq<char>>) -> Seq<char> {
    let head = "RPC method '"@ + name + "' is deprecated"@;
    match note {
        Some(note) => head + ": "@ + note,
        None => head,
    }
}

/// The warning that a method is called with old names of its arguments.
pub open spec fn names_warning(name: Seq<char>) -> Seq<char> {
    "RPC method '"@ + name + "' was called with deprecated parameter names"@
}

/// Writes the warning that a deprecated method is called.
pub fn log_deprecated(name: &str, note: Option<&str>) -> (r: String)
    ensures
        r@ == method_warning(
            name@,
            match note {
                Some(note) => Some(note@),
                None => None,
            },
        ),
{
    let mut r = "RPC method '".to_owned();
    r.append(name);
    r.append("' is deprecated");
    if let Some(note) = note {
        r.append(": ");
        r.append(note);
    }
    r
}

/// Writes the warning that a method is called with old names of its arguments.
fn log_old_names(name: &str) -> (r: String)
    ensures
        r@ == names_warning(name@),
{
    let mut r = "RPC method '".to_owned();
    r.append(name);
    r.append("' was called with deprecated parameter names");
    r
}

/// What is logged when a method is dispatched.
pub open spec fn deprecation_log(m: RpcMethodView) -> Seq<Seq<char>> {
    match m.deprecated {
        Some(note) => seq![method_warning(m.name, note)],
        None => Seq::empty(),
    }
}

/// What is logged when a method is called with parameters.
pub open spec fn call_log(m: RpcMethodView, params: Tree) -> Seq<Seq<char>> {
    if uses_old_names(args_struct(m), params) {
        deprecation_log(m).push(names_warning(m.name))
    } else {
        deprecation_log(m)
    }
}

/// The ID of the stream that a method returns, if it returns one.
pub open spec fn call_stream(m: RpcMethodView, id: u64) -> Option<SubId> {
    if m.stream {
        Some(SubId::Number(id))
    } else {
        None
    }
}

/// What forwards the stream that a method returns, if it returns one.
pub open spec fn call_forwarder(
    m: RpcMethodView,
    id: u64,
    frame_type: Option<FrameType>,
) -> Option<ForwarderView> {
    if m.stream {
        Some(ForwarderView { id: SubId::Number(id), method: m.name, frame_type, open: true })
    } else {
        None
    }
}

/// What a request for a method comes to. A stream is refused to a client that cannot be notified;
/// parameters that are missing are an error, and so are those that do not fit and give no argument
/// to be read; else the method is called, if its arguments check.
pub open spec fn method_dispatched(
    m: RpcMethodView,
    request: RequestView,
    notifiable: bool,
    id: u64,
    frame_type: Option<FrameType>,
) -> DispatchedView<MethodCallView> {
    if m.stream && !notifiable {
        DispatchedView {
            warnings: deprecation_log(m),
            action: ActionView::Reply(
                error_reply(
                    request.id,
                    internal_error(described(Some("Client does not support streams"@))),
                ),
            ),
        }
    } else {
        match request.params {
            None => DispatchedView {
                warnings: deprecation_log(m),
                action: ActionView::Reply(
                    error_reply(
                        request.id,
                        invalid_params(Some("Missing request parameters."@)),
                    ),
                ),
            },
            Some(params) => DispatchedView {
                warnings: call_log(m, params),
                action: {
                    let b = bound(args_struct(m), params);
                    if b.order.len() == 0 && b.fault is Some {
                        ActionView::Reply(error_reply(request.id, invalid_params(b.fault)))
                    } else {
                        ActionView::Call(
                            MethodCallView {
                                method: m.ident,
                                args: b.args,
                                order: b.order,
                                fault: b.fault,
                                id: request.id,
                                stream: call_stream(m, id),
                                forwarder: call_forwarder(m, id, frame_type),
                            },
                        )
                    }
                },
            },
        }
    }
}

impl Service {
    /// The first method with a name.
    fn method_for(&self, name: &str) -> (r: Option<usize>)
        ensures
            match method_for(self@, name@) {
                Some(i) => r matches Some(k) && k == i && k < self.methods@.len(),
                None => r is None,
            },
    {
        proof {
            lemma_method_for(self@, name@);
        }
        let mut i: usize = 0;
        while i < self.methods.len()
            invariant
                i <= self@.len() == self.methods@.len(),
                forall|j: int| 0 <= j < i ==> (#[trigger] self@[j]).name != name@,
            decreases self@.len() - i,
        {
            assert(self@[i as int] == self.methods@[i as int]@);
            if same(self.methods[i].method_name().as_str(), name) {
                proof {
                    lemma_method_for(self@, name@);
                }
                return Some(i);
            }
            i = i + 1;
        }
        None
    }
}

/// Dispatches a request for a method.
fn dispatch_method(
    method: &RpcMethod,
    request: Request,
    notifiable: bool,
    id: u64,
    frame_type: Option<FrameType>,
) -> (r: Dispatched<MethodCall>)
    ensures
        r@ == method_dispatched(method@, request@, notifiable, id, frame_type),
{
    let arm = method.generate_dispatcher_match_arm();
    let mut warnings: Vec<String> = Vec::new();
    assert(texts_view(warnings@) =~= Seq::empty());
    if let Some((name, note)) = &arm.warning {
        let note = match note {
            Some(note) => Some(note.as_str()),
            None => None,
        };
        warnings.push(log_deprecated(name.as_str(), note));
        assert(texts_view(warnings@) =~= deprecation_log(method@));
    }
    if arm.stream && !notifiable {
        let reply = error_response(
            request.id,
            || -> (e: RpcError)
                ensures
                    e@ == internal_error(described(Some("Client does not support streams"@)))
                {
                    RpcError::internal_from_string(
                        Some("Client does not support streams".to_owned()),
                    )
                },
        );
        return Dispatched { warnings, action: Action::Reply(reply) };
    }
    let args = method.generate_args_struct();
    if let Some(params) = &request.params {
        if args.uses_old_names(params) {
            let ghost before = warnings@;
            warnings.push(log_old_names(arm.name.as_str()));
            assert(texts_view(warnings@) =~= texts_view(before).push(names_warning(method@.name)));
        }
    }
    let decode = |params: Json| -> (d: Result<Bound, String>)
        ensures
            match d {
                Ok(b) => b@ == bound(args@, params@) && (b@.order.len() > 0 || b@.fault is None),
                Err(e) => bound(args@, params@).order.len() == 0 && bound(args@, params@).fault
                    == Some(e@),
            }
        {
            let Bound { args, order, fault } = args.bind(&params);
            match fault {
                Some(e) => if order.len() == 0 {
                    Err(e)
                } else {
                    Ok(Bound { args, order, fault: Some(e) })
                },
                None => Ok(Bound { args, order, fault: None }),
            }
        };
    let action = match dispatch_method_with_args(request, decode) {
        Action::Reply(reply) => Action::Reply(reply),
        Action::Call((request_id, bound)) => {
            let Bound { args, order, fault } = bound;
            let (stream, forwarder) = if arm.stream {
                let (stream, forwarder) = connect_stream(id, arm.name, frame_type);
                (Some(stream), Some(forwarder))
            } else {
                (None, None)
            };
            Action::Call(
                MethodCall {
                    method: arm.method,
                    args,
                    order,
                    fault,
                    id: request_id,
                    stream,
                    forwarder,
                },
            )
        },
    };
    Dispatched { warnings, action }
}

impl Dispatcher for Service {
    type Call = MethodCall;

    open spec fn names(&self) -> Seq<Seq<char>> {
        service_names(self@)
    }

    open spec fn deprecated(&self) -> Seq<Seq<char>> {
        service_deprecated(self@)
    }

    open spec fn matched(&self, name: Seq<char>) -> bool {
        service_names(self@).contains(name)
    }

    open spec fn dispatched(
        &self,
        request: RequestView,
        notifiable: bool,
        id: u64,
        frame_type: Option<FrameType>,
    ) -> DispatchedView<MethodCallView> {
        match method_for(self@, request.method) {
            Some(i) => method_dispatched(self@[i], request, notifiable, id, frame_type),
            None => rejected(request),
        }
    }

    fn dispatch(
        &self,
        request: Request,
        notifiable: bool,
        id: u64,
        frame_type: Option<FrameType>,
    ) -> (r: Dispatched<MethodCall>) {
        match self.method_for(request.method.as_str()) {
            Some(i) => {
                assert(self@[i as int] == self.methods@[i as int]@);
                dispatch_method(&self.methods[i], request, notifiable, id, frame_type)
            },
            None => {
                let r = Dispatched {
                    warnings: Vec::new(),
                    action: Action::Reply(method_not_found(request)),
                };
                assert(r@.warnings =~= Seq::empty());
                r
            },
        }
    }

    fn match_method(&self, name: &str) -> (r: bool) {
        proof {
            lemma_method_for(self@, name@);
            if method_for(self@, name@) is Some {
                assert(service_names(self@)[method_for(self@, name@)->0] == name@);
            } else if service_names(self@).contains(name@) {
                let names = service_names(self@);
                let j = choose|j: int| 0 <= j < names.len() && names[j] == name@;
                assert(self@[j].name == name@);
            }
        }
        self.method_for(name).is_some()
    }

    fn method_names(&self) -> (r: Vec<&str>) {
        let mut names: Vec<&str> = Vec::new();
        for i in 0..self.methods.len()
            invariant
                self@.len() == self.methods@.len(),
                names@.len() == i,
                forall|j: int| 0 <= j < i ==> (#[trigger] names@[j])@ == self@[j].name,
        {
            assert(self@[i as int] == self.methods@[i as int]@);
            names.push(self.methods[i].method_name().as_str());
        }
        assert(strs_view(names@) =~= service_names(self@));
        names
    }

    fn deprecated_methods(&self) -> (r: Vec<&str>) {
        let mut names: Vec<&str> = Vec::new();
        for i in 0..self.methods.len()
            invariant
                self@.len() == self.methods@.len(),
                strs_view(names@) == service_deprecated(self@.take(i as int)),
        {
            proof {
                assert(self@[i as int] == self.methods@[i as int]@);
                assert(self@.take(i + 1).drop_last() =~= self@.take(i as int));
                assert(self@.take(i + 1).last() == self@[i as int]);
            }
            let ghost before = names@;
            if self.methods[i].is_deprecated() {
                names.push(self.methods[i].method_name().as_str());
                assert(strs_view(names@) =~= strs_view(before).push(self@[i as int].name));
            }
        }
        assert(self@.take(self@.len() as int) =~= self@);
        names
    }
}

/// A service matches the methods that it lists, and no others.
pub proof fn lemma_service_matches_what_it_lists(service: Service)
    ensures
        matches_what_it_lists(service),
{
}

/// A request for a method that a service matches is never answered that the method does not
/// exist, unless by the method itself; and one for any other method always is.
pub proof fn lemma_service_knows_its_methods(
    service: Service,
    request: RequestView,
    notifiable: bool,
    id: u64,
    frame_type: Option<FrameType>,
)
    requires
        request.id is Some,
    ensures
        !service.matched(request.method) ==> service.dispatched(
            request,
            notifiable,
            id,
            frame_type,
        ) == rejected::<MethodCallView>(request),
        service.matched(request.method) ==> service.dispatched(
            request,
            notifiable,
            id,
            frame_type,
        ) != rejected::<MethodCallView>(request),
{
    let methods = service@;
    lemma_method_for(methods, request.method);
    let names = service_names(methods);
    match method_for(methods, request.method) {
        Some(i) => {
            assert(names[i] == request.method);
        },
        None => {
            if names.contains(request.method) {
                let j = choose|j: int| 0 <= j < names.len() && names[j] == request.method;
                assert(methods[j].name == request.method);
            }
        },
    }
}

/// A deprecated method is called like any other; only a warning is logged.
pub proof fn lemma_deprecated_methods_still_dispatch(
    m: RpcMethodView,
    request: RequestView,
    notifiable: bool,
    id: u64,
    frame_type: Option<FrameType>,
)
    ensures
        method_dispatched(m, request, notifiable, id, frame_type).action == method_dispatched(
            RpcMethodView { deprecated: None, ..m },
            request,
            notifiable,
            id,
            frame_type,
        ).action,
        m.deprecated matches Some(note) ==> method_dispatched(
            m,
            request,
            notifiable,
            id,
            frame_type,
        ).warnings[0] == method_warning(m.name, note),
{
    let plain = RpcMethodView { deprecated: None, ..m };
    assert(args_struct(m) == args_struct(plain));
}

/// A method is called just with parameters that fit: a call passes the check if and only if nothing
/// is wrong with the parameters as a whole and each argument that is given fits its type. Where
/// there is nothing to be checked, parameters that do not fit are refused at once.
pub proof fn lemma_wrong_parameters_are_refused(
    m: RpcMethodView,
    request: RequestView,
    params: Tree,
    notifiable: bool,
    id: u64,
    frame_type: Option<FrameType>,
    misfits: Seq<Option<String>>,
)
    requires
        request.params == Some(params),
        m.stream ==> notifiable,
    ensures
        ({
            let fault = bound(args_struct(m), params).fault;
            match method_dispatched(m, request, notifiable, id, frame_type).action {
                ActionView::Reply(r) => fault is Some && r == error_reply(
                    request.id,
                    invalid_params(fault),
                ),
                ActionView::Call(c) => refusal(c, misfits) is None <==> fault is None && forall|i: int|
                    0 <= i < misfits.len() ==> #[trigger] misfits[i] is None,
            }
        }),
{
    lemma_first_misfit(misfits);
}

/// There is no first text just where there is none.
proof fn lemma_first_misfit(misfits: Seq<Option<String>>)
    ensures
        first_misfit(misfits) is None <==> forall|i: int|
            0 <= i < misfits.len() ==> #[trigger] misfits[i] is None,
    decreases misfits.len(),
{
    if misfits.len() > 0 {
        let before = misfits.drop_last();
        lemma_first_misfit(before);
        assert(forall|i: int| 0 <= i < before.len() ==> #[trigger] before[i] == misfits[i]);
        assert(misfits.last() == misfits[misfits.len() - 1]);
        if first_misfit(misfits) is None {
            assert forall|i: int| 0 <= i < misfits.len() implies #[trigger] misfits[i] is None by {
                if i < before.len() {
                    assert(before[i] is None);
                }
            }
        }
    }
}

/// The parameters that a proxy sends: an object with the arguments, each under its name on the wire.
pub open spec fn proxy_params(args: ArgsStructView, values: Seq<Tree>) -> Tree {
    Tree::Object(members(args.fields.map_values(|f: ArgsFieldView| field_wire(f)), values))
}

/// What a proxy sends, its service gets. A service that does not rename has the methods under the
/// names that the proxy of their trait calls them by. And whether it renames or not, what the proxy
/// sends for the arguments of a method are the arguments that the method is called with, unless the
/// name of one is also that of another, as it is after renaming.
pub proof fn lemma_proxy_reaches_its_service(
    trait_name: Seq<char>,
    struct_name: Seq<char>,
    rename_all: Option<String>,
    methods: Seq<Method>,
    i: int,
    values: Seq<Tree>,
    request: RequestView,
    notifiable: bool,
    id: u64,
    frame_type: Option<FrameType>,
)
    requires
        0 <= i < methods.len(),
        ({
            let sent = args_struct(proxy_methods(trait_name, methods)[i]);
            let fields = args_struct(service_methods(struct_name, rename_all, methods)[i]).fields;
            &&& values.len() == sent.fields.len()
            &&& forall|j: int, k: int|
                0 <= j < fields.len() && 0 <= k < fields.len() && j != k ==> !accepts(
                    #[trigger] fields[j],
                    field_wire(#[trigger] sent.fields[k]),
                )
            &&& request.params == Some(proxy_params(sent, values))
        }),
        service_methods(struct_name, rename_all, methods)[i].stream ==> notifiable,
    ensures
        ({
            let proxy = proxy_methods(trait_name, methods)[i];
            let method = service_methods(struct_name, rename_all, methods)[i];
            &&& rename_all is None ==> proxy_method(proxy).name == method.name
            &&& proxy_method(proxy).method == method.ident
            &&& proxy_method(proxy).stream == method.stream
            &&& method_dispatched(method, request, notifiable, id, frame_type).action
                == ActionView::Call(
                MethodCallView {
                    method: method.ident,
                    args: values.map_values(|t: Tree| Some(t)),
                    order: Seq::new(values.len(), |k: int| k),
                    fault: None,
                    id: request.id,
                    stream: call_stream(method, id),
                    forwarder: call_forwarder(method, id, frame_type),
                },
            )
        }),
{
    let sig = methods[i].sig;
    let sent = args_struct(proxy_methods(trait_name, methods)[i]);
    let taken = args_struct(service_methods(struct_name, rename_all, methods)[i]);
    let names = sent.fields.map_values(|f: ArgsFieldView| field_wire(f));
    lemma_params_alike(sig.inputs@, None, rename_option(rename_all));
    assert forall|k: int| 0 <= k < names.len() implies field_for(taken.fields, #[trigger] names[k])
        == Some(k) by {
        lemma_field_for(taken.fields, names[k]);
        let p = typed_params(sig.inputs@, None)[k];
        let q = typed_params(sig.inputs@, rename_option(rename_all))[k];
        assert(p.ident == q.ident && p.wire == bare(p.ident));
        assert(sent.fields[k] == args_field(p));
        assert(taken.fields[k] == args_field(q));
        assert(names[k] == bare(p.ident));
        assert(accepts(taken.fields[k], names[k]));
    }
    lemma_all_given(taken, names, values);
}

/// The arguments of a method differ by the renaming in their names on the wire alone. Without one
/// these are their own names.
proof fn lemma_params_alike(inputs: Seq<FnArg>, a: Option<RenameAll>, b: Option<RenameAll>)
    ensures
        typed_params(inputs, a).len() == typed_params(inputs, b).len(),
        forall|k: int|
            0 <= k < typed_params(inputs, a).len() ==> (#[trigger] typed_params(inputs, a)[k]).ident
                == typed_params(inputs, b)[k].ident,
        a is None ==> forall|k: int|
            0 <= k < typed_params(inputs, a).len() ==> (#[trigger] typed_params(inputs, a)[k]).wire
                == bare(typed_params(inputs, a)[k].ident),
    decreases inputs.len(),
{
    if inputs.len() > 0 {
        lemma_params_alike(inputs.drop_last(), a, b);
    }
}

/// A notification is never answered: a service replies to a request without an ID with nothing.
pub proof fn lemma_notifications_get_no_reply(
    service: Service,
    request: RequestView,
    notifiable: bool,
    id: u64,
    frame_type: Option<FrameType>,
)
    requires
        request.id is None,
    ensures
        match service.dispatched(request, notifiable, id, frame_type).action {
            ActionView::Reply(r) => r is None,
            ActionView::Call(c) => c.id is None,
        },
{
}

} // verus!
