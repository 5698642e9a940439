//! What holds of the messages: what is written for them, and what is read for what.

use crate::batch::{
    message_from, message_in, message_of, requests_from, requests_in, requests_tree,
    responses_from, responses_in, responses_tree, BatchView, MessageView,
};
use crate::error::{
    category_name, described, error_text, internal_error, invalid_params, invalid_request,
    json_error_tree, no_such_method, parse_error, reserved_code, rpc_error_for, rpc_error_of, rpc_error_text,
    rpc_error_tree, ErrorView, RpcError, RpcErrorView,
};
use crate::fields::{nullable, record};
use crate::frame::{frame_type_of, framed, payload, FrameType, FrameView};
use crate::http::{http_error_text, ErrorView as HttpErrorView};
use crate::json::{
    distinct_names, find_name, json_debug, json_first, json_parse, json_text, lemma_find_name,
    lemma_lookup_at, lookup, with_member, Category, Json, JsonError, Tree,
};
use crate::request::{
    built, id_debug, new_request, request_from, request_in, request_of, request_tree, verdict,
    verdict_showing, RequestView,
};
use crate::response::{
    failure, made_of, response_from, response_in, response_of, response_tree, success,
    ResponseView,
};
use crate::shape::{outline, shape};
use crate::stream::{after_event, notification, notification_frame, ForwarderView, StreamEvent};
use crate::subscription::{
    id_of, id_text, id_tree, ids_of, subscription_message_of, subscription_message_tree, SubId,
    SubscriptionMessageView,
};
use crate::text::{decimal, signed_decimal};
use crate::websocket::{client_error_text, ErrorView as ClientErrorView};
use vstd::prelude::*;
use vstd::utf8::encode_utf8;

verus! {

/// The value of the only member with a name, if there is one.
pub open spec fn has_member(m: Seq<(Seq<char>, Tree)>, name: Seq<char>, value: Tree) -> bool {
    exists|i: int| 0 <= i < m.len() && #[trigger] m[i] == (name, value)
}

/// Whether no member has a name.
pub open spec fn lacks_member(m: Seq<(Seq<char>, Tree)>, name: Seq<char>) -> bool {
    forall|i: int| 0 <= i < m.len() ==> (#[trigger] m[i]).0 != name
}

/// Whether an optional field is written: with its value where it has one, else not at all.
pub open spec fn writes(m: Seq<(Seq<char>, Tree)>, name: Seq<char>, value: Option<Tree>) -> bool {
    match value {
        Some(value) => has_member(m, name, value),
        None => lacks_member(m, name),
    }
}

/// Whether an optional field is read: with its value where it has one, which is not `null`, and else
/// as nothing.
pub open spec fn reads(m: Seq<(Seq<char>, Tree)>, name: Seq<char>, value: Option<Tree>) -> bool {
    match value {
        Some(value) => value != Tree::Null && has_member(m, name, value),
        None => lacks_member(m, name) || has_member(m, name, Tree::Null),
    }
}

/// The names of all fields of messages differ.
proof fn lemma_names()
    ensures
        "jsonrpc"@ != "method"@,
        "jsonrpc"@ != "params"@,
        "jsonrpc"@ != "id"@,
        "jsonrpc"@ != "result"@,
        "jsonrpc"@ != "error"@,
        "method"@ != "params"@,
        "method"@ != "id"@,
        "params"@ != "id"@,
        "result"@ != "error"@,
        "result"@ != "id"@,
        "error"@ != "id"@,
        "code"@ != "message"@,
        "code"@ != "data"@,
        "message"@ != "data"@,
        "subscription"@ != "result"@,
{
    reveal_strlit("jsonrpc");
    reveal_strlit("method");
    reveal_strlit("params");
    reveal_strlit("id");
    reveal_strlit("result");
    reveal_strlit("error");
    reveal_strlit("code");
    reveal_strlit("message");
    reveal_strlit("data");
    reveal_strlit("subscription");
    assert("jsonrpc"@.len() == 7 && "method"@.len() == 6 && "params"@.len() == 6 && "id"@.len() == 2
        && "result"@.len() == 6 && "error"@.len() == 5 && "subscription"@.len() == 12 && "message"@.len()
        == 7 && "code"@.len() == 4 && "data"@.len() == 4);
    assert("method"@[0] != "params"@[0]);
    assert("code"@[0] != "data"@[0]);
}

/// What is found under a name is the value of the member with that name, where no two members have
/// one name.
proof fn lemma_found(m: Seq<(Seq<char>, Tree)>, name: Seq<char>)
    requires
        distinct_names(m),
    ensures
        match lookup(m, name) {
            Some(t) => has_member(m, name, t) && forall|u: Tree| #[trigger]
                has_member(m, name, u) ==> u == t,
            None => lacks_member(m, name) && forall|u: Tree| !#[trigger] has_member(m, name, u),
        },
{
    lemma_find_name(m, name);
    match find_name(m, name) {
        Some(i) => {
            assert(m[i] == (name, m[i].1));
            assert forall|u: Tree| #[trigger] has_member(m, name, u) implies u == m[i].1 by {
                let j = choose|j: int| 0 <= j < m.len() && #[trigger] m[j] == (name, u);
                if i < j {
                    assert(m[i].0 != m[j].0);
                }
                if j < i {
                    assert(m[j].0 != m[i].0);
                }
            }
        },
        None => {},
    }
}

/// The JSON form of a request is an object with its version and method, and with its parameters and
/// ID where it has them, and with nothing else.
pub proof fn lemma_request_is_written(r: RequestView)
    ensures
        ({
            let t = request_tree(r);
            &&& t is Object
            &&& distinct_names(t->Object_0)
            &&& has_member(t->Object_0, "jsonrpc"@, Tree::String(r.jsonrpc))
            &&& has_member(t->Object_0, "method"@, Tree::String(r.method))
            &&& writes(t->Object_0, "params"@, r.params)
            &&& writes(t->Object_0, "id"@, r.id)
            &&& t->Object_0.len() == 2 + (if r.params is Some {
                1int
            } else {
                0
            }) + (if r.id is Some {
                1int
            } else {
                0
            })
        }),
{
    lemma_names();
    let m = request_tree(r)->Object_0;
    assert(m[0] == ("jsonrpc"@, Tree::String(r.jsonrpc)));
    assert(m[1] == ("method"@, Tree::String(r.method)));
    if r.params is Some {
        assert(m[2] == ("params"@, r.params->0));
    }
    if r.id is Some {
        assert(m[m.len() - 1] == ("id"@, r.id->0));
    }
}

/// The JSON form of a response is an object with its version and ID, and with its result and its
/// error where it has them, and with nothing else.
pub proof fn lemma_response_is_written(r: ResponseView)
    ensures
        ({
            let t = response_tree(r);
            &&& t is Object
            &&& distinct_names(t->Object_0)
            &&& has_member(t->Object_0, "jsonrpc"@, Tree::String(r.jsonrpc))
            &&& has_member(t->Object_0, "id"@, r.id)
            &&& writes(t->Object_0, "result"@, r.result)
            &&& writes(
                t->Object_0,
                "error"@,
                match r.error {
                    Some(e) => Some(rpc_error_tree(e)),
                    None => None,
                },
            )
            &&& t->Object_0.len() == 2 + (if r.result is Some {
                1int
            } else {
                0
            }) + (if r.error is Some {
                1int
            } else {
                0
            })
        }),
{
    lemma_names();
    let m = response_tree(r)->Object_0;
    assert(m[0] == ("jsonrpc"@, Tree::String(r.jsonrpc)));
    assert(m[m.len() - 1] == ("id"@, r.id));
    if r.result is Some {
        assert(m[1] == ("result"@, r.result->0));
    }
    if r.error is Some {
        assert(m[m.len() - 2] == ("error"@, rpc_error_tree(r.error->0)));
    }
}

/// The JSON form of an error object is an object with its code and its message, which is `null`
/// where it has none, and with its data where it has some, and with nothing else.
pub proof fn lemma_error_object_is_written(e: RpcErrorView)
    ensures
        ({
            let t = rpc_error_tree(e);
            &&& t is Object
            &&& distinct_names(t->Object_0)
            &&& has_member(t->Object_0, "code"@, Tree::Int(e.code))
            &&& has_member(
                t->Object_0,
                "message"@,
                match e.message {
                    Some(s) => Tree::String(s),
                    None => Tree::Null,
                },
            )
            &&& writes(t->Object_0, "data"@, e.data)
            &&& t->Object_0.len() == 2 + (if e.data is Some {
                1int
            } else {
                0
            })
        }),
{
    lemma_names();
    let m = rpc_error_tree(e)->Object_0;
    assert(m[0] == ("code"@, Tree::Int(e.code)));
    assert(m[1].0 == "message"@);
    assert(has_member(m, "message"@, m[1].1));
    if e.data is Some {
        assert(m[2] == ("data"@, e.data->0));
    }
}

/// The JSON form of a message to a subscriber is an object with the subscription and the item, and
/// with nothing else.
pub proof fn lemma_item_is_written(m: SubscriptionMessageView)
    ensures
        ({
            let t = subscription_message_tree(m);
            &&& t is Object
            &&& distinct_names(t->Object_0)
            &&& has_member(t->Object_0, "subscription"@, id_tree(m.subscription))
            &&& has_member(t->Object_0, "result"@, m.result)
            &&& t->Object_0.len() == 2
        }),
{
    lemma_names();
    let o = subscription_message_tree(m)->Object_0;
    assert(o[0] == ("subscription"@, id_tree(m.subscription)));
    assert(o[1] == ("result"@, m.result));
}

/// A request is read from an object, wherever its members stand: version and method must be texts,
/// parameters and ID may be anything, where `null` stands for nothing, and there may be no other
/// members.
pub proof fn lemma_request_is_read(m: Seq<(Seq<char>, Tree)>)
    requires
        distinct_names(m),
    ensures
        match request_of(Tree::Object(m)) {
            Some(r) => {
                &&& has_member(m, "jsonrpc"@, Tree::String(r.jsonrpc))
                &&& has_member(m, "method"@, Tree::String(r.method))
                &&& reads(m, "params"@, r.params)
                &&& reads(m, "id"@, r.id)
                &&& forall|i: int|
                    0 <= i < m.len() ==> (#[trigger] m[i]).0 == "jsonrpc"@ || m[i].0 == "method"@
                        || m[i].0 == "params"@ || m[i].0 == "id"@
            },
            None => (exists|i: int|
                0 <= i < m.len() && (#[trigger] m[i]).0 != "jsonrpc"@ && m[i].0 != "method"@
                    && m[i].0 != "params"@ && m[i].0 != "id"@) || (forall|s: Seq<char>|
                !#[trigger] has_member(m, "jsonrpc"@, Tree::String(s))) || (forall|s: Seq<char>|
                !#[trigger] has_member(m, "method"@, Tree::String(s))),
        },
{
    lemma_names();
    lemma_found(m, "jsonrpc"@);
    lemma_found(m, "method"@);
    lemma_found(m, "params"@);
    lemma_found(m, "id"@);
    let names = crate::request::request_fields();
    assert(names[0] == "jsonrpc"@ && names[1] == "method"@ && names[2] == "params"@ && names[3]
        == "id"@);
    match record(Tree::Object(m), names, true) {
        Some(slots) => {
            assert(slots[0] == lookup(m, "jsonrpc"@));
            assert(slots[1] == lookup(m, "method"@));
            assert(slots[2] == lookup(m, "params"@));
            assert(slots[3] == lookup(m, "id"@));
            assert forall|i: int| 0 <= i < m.len() implies (#[trigger] m[i]).0 == "jsonrpc"@
                || m[i].0 == "method"@ || m[i].0 == "params"@ || m[i].0 == "id"@ by {
                assert(names.contains(m[i].0));
            }
        },
        None => {
            let i = choose|i: int| 0 <= i < m.len() && !names.contains((#[trigger] m[i]).0);
            assert(m[i].0 != names[0] && m[i].0 != names[1] && m[i].0 != names[2] && m[i].0
                != names[3]);
        },
    }
}

/// A response is read from an object, wherever its members stand: its version must be a text, its ID
/// must be there, its result may be anything and its error an error object, where `null` stands for
/// nothing, and there may be no other members.
pub proof fn lemma_response_is_read(m: Seq<(Seq<char>, Tree)>)
    requires
        distinct_names(m),
    ensures
        match response_of(Tree::Object(m)) {
            Some(r) => {
                &&& has_member(m, "jsonrpc"@, Tree::String(r.jsonrpc))
                &&& has_member(m, "id"@, r.id)
                &&& reads(m, "result"@, r.result)
                &&& match r.error {
                    Some(e) => exists|t: Tree| #[trigger]
                        has_member(m, "error"@, t) && t != Tree::Null && rpc_error_of(t) == Some(e),
                    None => lacks_member(m, "error"@) || has_member(m, "error"@, Tree::Null),
                }
                &&& forall|i: int|
                    0 <= i < m.len() ==> (#[trigger] m[i]).0 == "jsonrpc"@ || m[i].0 == "result"@
                        || m[i].0 == "error"@ || m[i].0 == "id"@
            },
            None => (exists|i: int|
                0 <= i < m.len() && (#[trigger] m[i]).0 != "jsonrpc"@ && m[i].0 != "result"@
                    && m[i].0 != "error"@ && m[i].0 != "id"@) || (forall|s: Seq<char>|
                !#[trigger] has_member(m, "jsonrpc"@, Tree::String(s))) || lacks_member(m, "id"@)
                || (exists|t: Tree| #[trigger]
                has_member(m, "error"@, t) && t != Tree::Null && rpc_error_of(t) is None),
        },
{
    lemma_names();
    lemma_found(m, "jsonrpc"@);
    lemma_found(m, "result"@);
    lemma_found(m, "error"@);
    lemma_found(m, "id"@);
    let names = crate::response::response_fields();
    assert(names[0] == "jsonrpc"@ && names[1] == "result"@ && names[2] == "error"@ && names[3]
        == "id"@);
    match record(Tree::Object(m), names, true) {
        Some(slots) => {
            assert(slots[0] == lookup(m, "jsonrpc"@));
            assert(slots[1] == lookup(m, "result"@));
            assert(slots[2] == lookup(m, "error"@));
            assert(slots[3] == lookup(m, "id"@));
            assert forall|i: int| 0 <= i < m.len() implies (#[trigger] m[i]).0 == "jsonrpc"@
                || m[i].0 == "result"@ || m[i].0 == "error"@ || m[i].0 == "id"@ by {
                assert(names.contains(m[i].0));
            }
            if let Some(t) = lookup(m, "error"@) {
                assert(has_member(m, "error"@, t));
            }
        },
        None => {
            let i = choose|i: int| 0 <= i < m.len() && !names.contains((#[trigger] m[i]).0);
            assert(m[i].0 != names[0] && m[i].0 != names[1] && m[i].0 != names[2] && m[i].0
                != names[3]);
        },
    }
}

/// An error object is read from an object, wherever its members stand: its code must be a whole
/// number that fits its type, its message a text, its data may be anything, where `null` stands for
/// nothing, and there may be no other members.
pub proof fn lemma_error_object_is_read(m: Seq<(Seq<char>, Tree)>)
    requires
        distinct_names(m),
    ensures
        match rpc_error_of(Tree::Object(m)) {
            Some(e) => {
                &&& has_member(m, "code"@, Tree::Int(e.code))
                &&& i64::MIN <= e.code <= i64::MAX
                &&& reads(
                    m,
                    "message"@,
                    match e.message {
                        Some(s) => Some(Tree::String(s)),
                        None => None,
                    },
                )
                &&& reads(m, "data"@, e.data)
                &&& forall|i: int|
                    0 <= i < m.len() ==> (#[trigger] m[i]).0 == "code"@ || m[i].0 == "message"@
                        || m[i].0 == "data"@
            },
            None => (exists|i: int|
                0 <= i < m.len() && (#[trigger] m[i]).0 != "code"@ && m[i].0 != "message"@ && m[i].0
                    != "data"@) || (forall|n: int|
                i64::MIN <= n <= i64::MAX ==> !#[trigger] has_member(m, "code"@, Tree::Int(n)))
                || (exists|t: Tree| #[trigger]
                has_member(m, "message"@, t) && t != Tree::Null && t !is String),
        },
{
    lemma_names();
    lemma_found(m, "code"@);
    lemma_found(m, "message"@);
    lemma_found(m, "data"@);
    let names = crate::error::rpc_error_fields();
    assert(names[0] == "code"@ && names[1] == "message"@ && names[2] == "data"@);
    match record(Tree::Object(m), names, true) {
        Some(slots) => {
            assert(slots[0] == lookup(m, "code"@));
            assert(slots[1] == lookup(m, "message"@));
            assert(slots[2] == lookup(m, "data"@));
            assert forall|i: int| 0 <= i < m.len() implies (#[trigger] m[i]).0 == "code"@ || m[i].0
                == "message"@ || m[i].0 == "data"@ by {
                assert(names.contains(m[i].0));
            }
            if let Some(t) = lookup(m, "message"@) {
                assert(has_member(m, "message"@, t));
            }
        },
        None => {
            let i = choose|i: int| 0 <= i < m.len() && !names.contains((#[trigger] m[i]).0);
            assert(m[i].0 != names[0] && m[i].0 != names[1] && m[i].0 != names[2]);
        },
    }
}

/// A message to a subscriber is read from an object, wherever its members stand: the subscription
/// must be an ID, the item may be anything, and there may be other members.
pub proof fn lemma_item_is_read(m: Seq<(Seq<char>, Tree)>)
    requires
        distinct_names(m),
    ensures
        match subscription_message_of(Tree::Object(m)) {
            Some(x) => has_member(m, "result"@, x.result) && exists|t: Tree| #[trigger]
                has_member(m, "subscription"@, t) && id_of(t) == Some(x.subscription),
            None => lacks_member(m, "result"@) || lacks_member(m, "subscription"@) || exists|
                t: Tree,
            | #[trigger]
                has_member(m, "subscription"@, t) && id_of(t) is None,
        },
{
    lemma_names();
    lemma_found(m, "subscription"@);
    lemma_found(m, "result"@);
    let names = crate::subscription::subscription_message_fields();
    assert(names[0] == "subscription"@ && names[1] == "result"@);
    let slots = record(Tree::Object(m), names, false)->0;
    assert(slots[0] == lookup(m, "subscription"@));
    assert(slots[1] == lookup(m, "result"@));
    if let Some(t) = lookup(m, "subscription"@) {
        assert(has_member(m, "subscription"@, t));
    }
}

/// A record can also be written as a list of its fields, all of them and in their order; and as
/// nothing but an object or a list.
pub proof fn lemma_records_as_lists(s: Seq<Tree>, t: Tree)
    requires
        t !is Array && t !is Object,
    ensures
        match request_of(Tree::Array(s)) {
            Some(r) => s.len() == 4 && s[0] == Tree::String(r.jsonrpc) && s[1] == Tree::String(r.method)
                && r.params == nullable(Some(s[2])) && r.id == nullable(Some(s[3])),
            None => s.len() != 4 || s[0] !is String || s[1] !is String,
        },
        match response_of(Tree::Array(s)) {
            Some(r) => s.len() == 4 && s[0] == Tree::String(r.jsonrpc) && r.result == nullable(
                Some(s[1]),
            ) && s[3] == r.id && match r.error {
                Some(e) => rpc_error_of(s[2]) == Some(e) && s[2] != Tree::Null,
                None => s[2] == Tree::Null,
            },
            None => s.len() != 4 || s[0] !is String || (s[2] != Tree::Null && rpc_error_of(
                s[2],
            ) is None),
        },
        match rpc_error_of(Tree::Array(s)) {
            Some(e) => s.len() == 3 && s[0] == Tree::Int(e.code) && match e.message {
                Some(text) => s[1] == Tree::String(text),
                None => s[1] == Tree::Null,
            } && e.data == nullable(Some(s[2])),
            None => s.len() != 3 || s[0] !is Int || !(i64::MIN <= s[0]->Int_0 <= i64::MAX) || (s[1]
                != Tree::Null && s[1] !is String),
        },
        match subscription_message_of(Tree::Array(s)) {
            Some(m) => s.len() == 2 && id_of(s[0]) == Some(m.subscription) && s[1] == m.result,
            None => s.len() != 2 || id_of(s[0]) is None,
        },
        request_of(t) is None,
        response_of(t) is None,
        rpc_error_of(t) is None,
        subscription_message_of(t) is None,
        nullable(Some(Tree::Null)) is None,
        t != Tree::Null ==> nullable(Some(t)) == Some(t),
        nullable(None) is None,
{
}

/// An object with a member twice is no record.
pub proof fn lemma_records_have_each_member_once(m: Seq<(Seq<char>, Tree)>, i: int, j: int)
    requires
        0 <= i < j < m.len(),
        m[i].0 == m[j].0,
    ensures
        request_of(Tree::Object(m)) is None,
        response_of(Tree::Object(m)) is None,
        rpc_error_of(Tree::Object(m)) is None,
        subscription_message_of(Tree::Object(m)) is None,
{
}

/// What is both is a request. What is neither is no message.
pub proof fn lemma_request_comes_first(t: Tree, outline: Seq<nat>)
    ensures
        request_of(t) matches Some(r) ==> (message_of(t) matches Some(MessageView::Request(x)) && x
            == r),
        request_of(t) is None ==> (response_of(t) matches Some(r) ==> (message_of(t) matches Some(
            MessageView::Response(x),
        ) && x == r)),
        request_of(t) is None && response_of(t) is None ==> message_of(t) is None,
        request_in(outline, t) matches Some(r) ==> (message_in(outline, t) matches Some(
            MessageView::Request(x),
        ) && x == r),
        request_in(outline, t) is None ==> (response_in(outline, t) matches Some(r) ==> (message_in(
            outline,
            t,
        ) matches Some(MessageView::Response(x)) && x == r)),
        request_in(outline, t) is None && response_in(outline, t) is None ==> message_in(outline, t)
            is None,
        request_in(outline, t) is Some ==> request_in(outline, t) == request_of(t),
        response_in(outline, t) is Some ==> response_in(outline, t) == response_of(t),
{
}

/// Where no member is written twice, a text is read as what its value stands for; where one is, as
/// nothing.
pub proof fn lemma_members_written_twice(m: Seq<(Seq<char>, Tree)>, s: Seq<Tree>, outline: Seq<nat>)
    requires
        m.len() > 0,
    ensures
        outline.len() == m.len() ==> request_in(outline, Tree::Object(m)) == request_of(
            Tree::Object(m),
        ),
        outline.len() != m.len() ==> request_in(outline, Tree::Object(m)) is None && response_in(
            outline,
            Tree::Object(m),
        ) is None,
        outline.len() == s.len() ==> request_in(outline, Tree::Array(s)) == request_of(
            Tree::Array(s),
        ),
        outline.len() == m.len() && distinct_names(m) ==> forall|k: int|
            0 <= k < m.len() && (#[trigger] m[k]).0 == "error"@ ==> response_in(
                outline,
                Tree::Object(m),
            ) == (match m[k].1 {
                Tree::Object(e) => if e.len() == 0 || e.len() == outline[k] {
                    response_of(Tree::Object(m))
                } else {
                    None
                },
                Tree::Array(e) => if e.len() == 0 || e.len() == outline[k] {
                    response_of(Tree::Object(m))
                } else {
                    None
                },
                _ => response_of(Tree::Object(m)),
            }),
        outline.len() == s.len() && s.len() == 4 ==> response_in(outline, Tree::Array(s)) == (
        match s[2] {
            Tree::Object(e) => if e.len() == 0 || e.len() == outline[2] {
                response_of(Tree::Array(s))
            } else {
                None
            },
            Tree::Array(e) => if e.len() == 0 || e.len() == outline[2] {
                response_of(Tree::Array(s))
            } else {
                None
            },
            _ => response_of(Tree::Array(s)),
        }),
        outline.len() == m.len() && lacks_member(m, "error"@) ==> response_in(
            outline,
            Tree::Object(m),
        ) == response_of(Tree::Object(m)),
{
    lemma_find_name(m, "error"@);
    if outline.len() == m.len() && distinct_names(m) {
        assert forall|k: int| 0 <= k < m.len() && (#[trigger] m[k]).0 == "error"@ implies find_name(
            m,
            "error"@,
        ) == Some(k) by {
            lemma_lookup_at(m, k);
        }
    }
}

/// How a text is read that should stand for a request or a response, for requests, or for responses.
/// Where it does not begin with JSON, that is the error. Where it does, but that does not stand for
/// what is asked for, the data are wrong; and where they are right but more follows, that is the
/// error.
pub proof fn lemma_how_a_text_is_read(text: Seq<u8>, t: Tree, e: JsonError, wrong: JsonError)
    requires
        wrong == (JsonError { line: 0, column: 0, category: Category::Data }),
    ensures
        json_first(text) == Err::<Tree, JsonError>(e) ==> {
            &&& message_from(text) == Err::<MessageView, JsonError>(e)
            &&& requests_from(text) == Err::<BatchView<RequestView>, JsonError>(e)
            &&& responses_from(text) == Err::<BatchView<ResponseView>, JsonError>(e)
        },
        json_first(text) == Ok::<Tree, JsonError>(t) ==> {
            &&& message_in(outline(shape(text)), t) is None ==> message_from(text) == Err::<
                MessageView,
                JsonError,
            >(wrong)
            &&& requests_in(shape(text), t) is None ==> requests_from(text) == Err::<
                BatchView<RequestView>,
                JsonError,
            >(wrong)
            &&& responses_in(shape(text), t) is None ==> responses_from(text) == Err::<
                BatchView<ResponseView>,
                JsonError,
            >(wrong)
            &&& json_parse(text) is Ok ==> {
                &&& message_in(outline(shape(text)), t) matches Some(m) ==> message_from(text)
                    == Ok::<MessageView, JsonError>(m)
                &&& requests_in(shape(text), t) matches Some(b) ==> requests_from(text) == Ok::<
                    BatchView<RequestView>,
                    JsonError,
                >(b)
                &&& responses_in(shape(text), t) matches Some(b) ==> responses_from(text) == Ok::<
                    BatchView<ResponseView>,
                    JsonError,
                >(b)
            }
            &&& json_parse(text) == Err::<Tree, JsonError>(e) ==> {
                &&& message_in(outline(shape(text)), t) is Some ==> message_from(text) == Err::<
                    MessageView,
                    JsonError,
                >(e)
                &&& requests_in(shape(text), t) is Some ==> requests_from(text) == Err::<
                    BatchView<RequestView>,
                    JsonError,
                >(e)
                &&& responses_in(shape(text), t) is Some ==> responses_from(text) == Err::<
                    BatchView<ResponseView>,
                    JsonError,
                >(e)
            }
        },
        json_parse(text) == Ok::<Tree, JsonError>(t) ==> request_from(text) == request_in(
            outline(shape(text)),
            t,
        ) && response_from(text) == response_in(outline(shape(text)), t),
        json_parse(text) is Err ==> request_from(text) is None && response_from(text) is None,
{
}

/// A list stands for requests if it stands for no single one and each item stands for one, which are
/// then the requests, in their order; and likewise for responses.
pub proof fn lemma_lists_of_messages(shape: Seq<Seq<nat>>, s: Seq<Tree>, t: Tree)
    requires
        shape.len() == s.len() || s.len() == 0,
        t !is Array,
    ensures
        request_in(outline(shape), Tree::Array(s)) matches Some(r) ==> requests_in(
            shape,
            Tree::Array(s),
        ) == Some(BatchView::Single(r)),
        request_in(outline(shape), Tree::Array(s)) is None ==> match requests_in(
            shape,
            Tree::Array(s),
        ) {
            Some(BatchView::Batch(b)) => b.len() == s.len() && forall|i: int|
                0 <= i < s.len() ==> request_in(shape[i], s[i]) == Some(#[trigger] b[i]),
            Some(BatchView::Single(_)) => false,
            None => exists|i: int|
                0 <= i < s.len() && request_in(shape[i], #[trigger] s[i]) is None,
        },
        response_in(outline(shape), Tree::Array(s)) matches Some(r) ==> responses_in(
            shape,
            Tree::Array(s),
        ) == Some(BatchView::Single(r)),
        response_in(outline(shape), Tree::Array(s)) is None ==> match responses_in(
            shape,
            Tree::Array(s),
        ) {
            Some(BatchView::Batch(b)) => b.len() == s.len() && forall|i: int|
                0 <= i < s.len() ==> response_in(shape[i], s[i]) == Some(#[trigger] b[i]),
            Some(BatchView::Single(_)) => false,
            None => exists|i: int|
                0 <= i < s.len() && response_in(shape[i], #[trigger] s[i]) is None,
        },
        requests_in(shape, t) == match request_in(outline(shape), t) {
            Some(r) => Some(BatchView::Single(r)),
            None => None,
        },
        responses_in(shape, t) == match response_in(outline(shape), t) {
            Some(r) => Some(BatchView::Single(r)),
            None => None,
        },
{
    if let Some(BatchView::Batch(b)) = requests_in(shape, Tree::Array(s)) {
        assert forall|i: int| 0 <= i < s.len() implies request_in(shape[i], s[i]) == Some(
            #[trigger] b[i],
        ) by {
            assert(request_in(shape[i], s[i]) is Some);
        }
    }
    if let Some(BatchView::Batch(b)) = responses_in(shape, Tree::Array(s)) {
        assert forall|i: int| 0 <= i < s.len() implies response_in(shape[i], s[i]) == Some(
            #[trigger] b[i],
        ) by {
            assert(response_in(shape[i], s[i]) is Some);
        }
    }
}

/// A list of messages is written as the list of their JSON forms, in their order, and a single one as
/// its JSON form.
pub proof fn lemma_lists_are_written(
    q: RequestView,
    qs: Seq<RequestView>,
    r: ResponseView,
    rs: Seq<ResponseView>,
)
    ensures
        requests_tree(BatchView::Single(q)) == request_tree(q),
        responses_tree(BatchView::Single(r)) == response_tree(r),
        requests_tree(BatchView::Batch(qs)) matches Tree::Array(s) && s.len() == qs.len() && forall|
            i: int,
        |
            0 <= i < qs.len() ==> #[trigger] s[i] == request_tree(qs[i]),
        responses_tree(BatchView::Batch(rs)) matches Tree::Array(s) && s.len() == rs.len()
            && forall|i: int| 0 <= i < rs.len() ==> #[trigger] s[i] == response_tree(rs[i]),
{
}

/// What requests and responses are made of.
pub proof fn lemma_how_messages_are_made(
    method: Seq<char>,
    params: Option<Tree>,
    id: Option<Tree>,
    to: Tree,
    result: Tree,
    error: RpcErrorView,
)
    ensures
        new_request(method, params, id) == (RequestView { jsonrpc: "2.0"@, method, params, id }),
        success(to, result) == (ResponseView {
            jsonrpc: "2.0"@,
            result: Some(result),
            error: None,
            id: to,
        }),
        failure(to, error) == (ResponseView {
            jsonrpc: "2.0"@,
            result: None,
            error: Some(error),
            id: to,
        }),
{
}

/// The error objects of the protocol have their codes and messages, and tell what they are told.
pub proof fn lemma_errors_of_the_protocol(s: Seq<char>, data: Option<Tree>)
    ensures
        parse_error(Some(s)) == (RpcErrorView {
            code: -32700,
            message: Some("Parse error"@),
            data: Some(Tree::String(s)),
        }),
        invalid_request(Some(s)) == (RpcErrorView {
            code: -32600,
            message: Some("Invalid Request"@),
            data: Some(Tree::String(s)),
        }),
        no_such_method(Some(s)) == (RpcErrorView {
            code: -32601,
            message: Some("Method not found"@),
            data: Some(Tree::String(s)),
        }),
        invalid_params(Some(s)) == (RpcErrorView {
            code: -32602,
            message: Some("Invalid params"@),
            data: Some(Tree::String(s)),
        }),
        internal_error(data) == (RpcErrorView {
            code: -32603,
            message: Some("Internal error"@),
            data,
        }),
        parse_error(None) == (RpcErrorView { data: None, ..parse_error(Some(s)) }),
        invalid_request(None) == (RpcErrorView { data: None, ..invalid_request(Some(s)) }),
        no_such_method(None) == (RpcErrorView { data: None, ..no_such_method(Some(s)) }),
        invalid_params(None) == (RpcErrorView { data: None, ..invalid_params(Some(s)) }),
        described(Some(s)) == Some(Tree::String(s)),
        described(None) is None,
        forall|code: int| #[trigger] reserved_code(code) <==> -32768 <= code <= -32000,
{
}

/// What a client is told of an error: the error object itself, where there is one, else an internal
/// error with where and why JSON could not be read, or with the value that is no ID.
pub proof fn lemma_what_is_told_of_an_error(e: RpcErrorView, j: JsonError, id: Tree)
    ensures
        rpc_error_for(ErrorView::JsonRpc(e)) == Some(e),
        rpc_error_for(ErrorView::InvalidResponse) is None,
        rpc_error_for(ErrorView::InvalidSubscriptionId(id)) == Some(
            RpcErrorView { code: -32603, message: Some("Internal error"@), data: Some(id) },
        ),
        rpc_error_for(ErrorView::Json(j)) matches Some(x) && x.code == -32603 && x.message == Some(
            "Internal error"@,
        ) && (x.data matches Some(Tree::Object(m)) && m.len() == 3 && has_member(
            m,
            "line"@,
            Tree::Int(j.line as int),
        ) && has_member(m, "column"@, Tree::Int(j.column as int)) && has_member(
            m,
            "classify"@,
            Tree::String(
                match j.category {
                    Category::Io => "Io"@,
                    Category::Syntax => "Syntax"@,
                    Category::Data => "Data"@,
                    Category::Eof => "Eof"@,
                },
            ),
        )),
{
    let m = json_error_tree(j)->Object_0;
    assert(m[0] == ("line"@, Tree::Int(j.line as int)));
    assert(m[1] == ("column"@, Tree::Int(j.column as int)));
    assert(m[2] == ("classify"@, Tree::String(category_name(j.category))));
}

/// A request is correct just if its version is that of the protocol and its ID a text or a whole
/// number. Else the error says what is wrong, of several things the version.
pub proof fn lemma_which_requests_are_correct(r: RequestView)
    ensures
        verdict(r) is Ok <==> r.jsonrpc == "2.0"@ && (r.id matches Some(id) && (id is String
            || id is Int)),
        r.jsonrpc != "2.0"@ ==> (verdict(r) matches Err(e) && e == (RpcErrorView {
            code: -32600,
            message: Some("Invalid Request"@),
            data: Some(
                Tree::String("Field 'jsonrpc' must be '2.0', but was '"@ + r.jsonrpc + "'"@),
            ),
        })),
        r.jsonrpc == "2.0"@ && r.id is None ==> (verdict(r) matches Err(e) && e == (RpcErrorView {
            code: -32600,
            message: Some("Invalid Request"@),
            data: Some(Tree::String("Invalid type in field 'id': "@ + "None"@)),
        })),
        r.jsonrpc == "2.0"@ ==> (r.id matches Some(id) ==> {
            &&& id is Float ==> (verdict(r) matches Err(e) && e == (RpcErrorView {
                code: -32600,
                message: Some("Invalid Request"@),
                data: Some(
                    Tree::String(
                        "Field 'id' is a number, but should not be fractional: "@ + ("Some("@
                            + json_debug(id) + ")"@),
                    ),
                ),
            }))
            &&& id !is Float && id !is String && id !is Int ==> (verdict(r) matches Err(e) && e == (
            RpcErrorView {
                code: -32600,
                message: Some("Invalid Request"@),
                data: Some(
                    Tree::String(
                        "Invalid type in field 'id': "@ + ("Some("@ + json_debug(id) + ")"@),
                    ),
                ),
            }))
        }),
        verdict(r) == verdict_showing(r, id_debug(r.id)),
{
}

/// An ID is a text, or a whole number that is not negative and fits its type; it is written as that
/// text or number. A list of IDs is a list in which each item is one.
pub proof fn lemma_which_values_are_ids(t: Tree, list: Seq<Tree>, s: Seq<char>, n: u64)
    ensures
        id_of(Tree::String(s)) == Some(SubId::String(s)),
        id_of(Tree::Int(n as int)) == Some(SubId::Number(n)),
        t !is String && t !is Int ==> id_of(t) is None,
        t matches Tree::Int(k) ==> (k < 0 || k > u64::MAX ==> id_of(t) is None),
        id_tree(SubId::String(s)) == Tree::String(s),
        id_tree(SubId::Number(n)) == Tree::Int(n as int),
        id_text(SubId::String(s)) == s,
        id_text(SubId::Number(n)) == decimal(n as nat),
        t !is Array ==> ids_of(t) is None,
        match ids_of(Tree::Array(list)) {
            Some(ids) => ids.len() == list.len() && forall|i: int|
                0 <= i < list.len() ==> id_of(list[i]) == Some(#[trigger] ids[i]),
            None => exists|i: int| 0 <= i < list.len() && id_of(#[trigger] list[i]) is None,
        },
{
    if let Some(ids) = ids_of(Tree::Array(list)) {
        assert forall|i: int| 0 <= i < list.len() implies id_of(list[i]) == Some(
            #[trigger] ids[i],
        ) by {
            assert(id_of(list[i]) is Some);
        }
    }
}

/// A notification is a request without an ID, for the method that opened the stream, whose parameters
/// are the subscription and the item. It is sent as text just if the client asked for text.
pub proof fn lemma_what_a_notification_is(
    id: SubId,
    method: Seq<char>,
    item: Tree,
    frame_type: Option<FrameType>,
)
    ensures
        ({
            let n = notification(id, method, item);
            &&& n.jsonrpc == "2.0"@
            &&& n.method == method
            &&& n.id is None
            &&& n.params == Some(
                subscription_message_tree(SubscriptionMessageView { subscription: id, result: item }),
            )
            &&& notification_frame(id, method, frame_type, item) == if frame_type == Some(
                FrameType::Text,
            ) {
                FrameView::Text(json_text(request_tree(n)))
            } else {
                FrameView::Binary(encode_utf8(json_text(request_tree(n))))
            }
        }),
{
}

/// A stream goes on after an item, and stops after anything else; it keeps its ID, its method and how
/// its items are sent.
pub proof fn lemma_what_stops_a_stream(f: ForwarderView, event: StreamEvent)
    ensures
        event is Item ==> after_event(f, event) == f,
        event !is Item ==> after_event(f, event) == (ForwarderView { open: false, ..f }),
{
}

/// What is framed is the JSON text, as text or as its bytes in UTF-8. A client gets text by asking
/// for `text`, and by asking for anything else binary data.
pub proof fn lemma_how_messages_are_framed(t: Tree, s: Seq<char>, d: Seq<u8>)
    ensures
        framed(t, true) == FrameView::Text(json_text(t)),
        framed(t, false) == FrameView::Binary(encode_utf8(json_text(t))),
        payload(FrameView::Text(s)) == encode_utf8(s),
        payload(FrameView::Binary(d)) == d,
        payload(FrameView::Ping).len() == 0,
        payload(FrameView::Pong).len() == 0,
        payload(FrameView::Close).len() == 0,
        frame_type_of(s) == if s == "text"@ {
            FrameType::Text
        } else {
            FrameType::Binary
        },
{
}

/// What the errors say in one line.
pub proof fn lemma_lines_of_errors(
    code: int,
    message: Seq<char>,
    data: Option<Tree>,
    j: JsonError,
    id: Tree,
    expected: usize,
)
    ensures
        ({
            let silent = RpcErrorView { code, message: None, data };
            let told = RpcErrorView { code, message: Some(message), data };
            let line = "JSON-RPC error: code="@ + signed_decimal(code);
            &&& rpc_error_text(silent) == line
            &&& rpc_error_text(told) == line + ": "@ + message
            &&& error_text(ErrorView::JsonRpc(silent)) == Some(
                "The server responded with an error: "@ + line,
            )
            &&& error_text(ErrorView::JsonRpc(told)) == Some(
                "The server responded with an error: "@ + (line + ": "@ + message),
            )
        }),
        error_text(ErrorView::Json(j)) is None,
        error_text(ErrorView::InvalidResponse) == Some("Received invalid response"@),
        error_text(ErrorView::InvalidSubscriptionId(id)) == Some(
            "Invalid subscription ID: "@ + json_debug(id),
        ),
        http_error_text(HttpErrorView::JsonRpc(ErrorView::InvalidResponse)) == Some(
            "Received invalid response"@,
        ),
        http_error_text(HttpErrorView::JsonRpc(ErrorView::InvalidSubscriptionId(id)))
            == error_text(ErrorView::InvalidSubscriptionId(id)),
        http_error_text(HttpErrorView::IdMismatch { expected, got: id }) == Some(
            "Response ID doesn't match request ID: expected "@ + decimal(expected as nat)
                + ", but got "@ + json_debug(id),
        ),
        client_error_text(ClientErrorView::ConnectionClosed) == Some(
            "The websocket connection is closed"@,
        ),
        client_error_text(ClientErrorView::JsonRpc(ErrorView::InvalidResponse)) == Some(
            "JSON-RPC protocol error: "@ + "Received invalid response"@,
        ),
        client_error_text(ClientErrorView::JsonRpc(ErrorView::InvalidSubscriptionId(id))) == Some(
            "JSON-RPC protocol error: "@ + ("Invalid subscription ID: "@ + json_debug(id)),
        ),
        client_error_text(ClientErrorView::Utf8) is None,
        client_error_text(ClientErrorView::Json(j)) is None,
{
}

/// A member that is given a value has that value, and the others are as they were, in their order.
pub proof fn lemma_member_is_set(
    m: Seq<(Seq<char>, Tree)>,
    name: Seq<char>,
    value: Tree,
    other: Seq<char>,
)
    requires
        distinct_names(m),
    ensures
        ({
            let n = with_member(m, name, value);
            &&& distinct_names(n)
            &&& lookup(n, name) == Some(value)
            &&& other != name ==> lookup(n, other) == lookup(m, other)
            &&& lacks_member(m, name) ==> n == m.push((name, value))
            &&& forall|i: int| 0 <= i < m.len() ==> (#[trigger] n[i]).0 == m[i].0
            &&& forall|i: int| 0 <= i < m.len() && m[i].0 != name ==> #[trigger] n[i] == m[i]
        }),
{
    lemma_find_name(m, name);
    let n = with_member(m, name, value);
    assert(distinct_names(n)) by {
        assert forall|i: int, j: int| 0 <= i < j < n.len() implies n[i].0 != n[j].0 by {
            if j < m.len() {
                assert(m[i].0 != m[j].0);
            }
        }
    }
    match find_name(m, name) {
        Some(i) => {
            lemma_lookup_at(n, i);
        },
        None => {
            lemma_lookup_at(n, m.len() as int);
        },
    }
    if other != name {
        lemma_find_name(m, other);
        lemma_find_name(n, other);
        match find_name(m, other) {
            Some(k) => {
                assert(n[k] == m[k]);
                lemma_lookup_at(n, k);
            },
            None => {
                if let Some(k) = find_name(n, other) {
                    assert(n[k].0 == other);
                    if k < m.len() {
                        assert(m[k].0 != other);
                    }
                }
            },
        }
    }
}

/// A request is built of what its parameters and its ID were turned into; where that failed, the
/// failure is told, of two that of the parameters. And a response of what its result was turned into.
pub proof fn lemma_how_messages_are_built(
    method: Seq<char>,
    p: Json,
    i: Json,
    e: JsonError,
    f: JsonError,
    other: Option<Result<Json, JsonError>>,
    id: Tree,
    error: RpcError,
)
    ensures
        built(method, Some(Err(e)), other) == Err::<RequestView, JsonError>(e),
        built(method, None, Some(Err(f))) == Err::<RequestView, JsonError>(f),
        built(method, Some(Ok(p)), Some(Err(f))) == Err::<RequestView, JsonError>(f),
        ({
            let with = |params: Option<Tree>, id: Option<Tree>|
                Ok::<RequestView, JsonError>(RequestView { jsonrpc: "2.0"@, method, params, id });
            &&& built(method, Some(Ok(p)), Some(Ok(i))) == with(Some(p@), Some(i@))
            &&& built(method, Some(Ok(p)), None) == with(Some(p@), None)
            &&& built(method, None, Some(Ok(i))) == with(None, Some(i@))
            &&& built(method, None, None) == with(None, None)
        }),
        made_of(id, Ok(Ok(p))) == Ok::<ResponseView, JsonError>(
            ResponseView { jsonrpc: "2.0"@, result: Some(p@), error: None, id },
        ),
        made_of(id, Ok(Err(e))) == Err::<ResponseView, JsonError>(e),
        made_of(id, Err(error)) == Ok::<ResponseView, JsonError>(
            ResponseView { jsonrpc: "2.0"@, result: None, error: Some(error@), id },
        ),
{
}

} // verus!
