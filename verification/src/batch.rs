//! Messages that are a single object or a list of them, and messages of either kind.

use crate::error::{data_error, formed, Error, ErrorView};
use crate::fields::record;
use crate::json::{
    array_tree, lemma_array, lemma_find_name, lookup, reading, reads_as, Json, JsonError, Tree,
};
use crate::request::{
    lemma_request_round_trip, request_fields, request_in, request_of, request_tree,
    request_without_nulls, Request, RequestView,
};
use crate::response::{
    code_fits, lemma_response_round_trip, response_in, response_of, response_tree,
    response_without_nulls, Response, ResponseView,
};
use crate::shape::{
    counts_view, inner_once, is_outer_once, outer_once, outline, part, part_once, read_outline,
    read_shape, shape, shape_view,
};
use vstd::prelude::*;
use vstd::utf8::encode_utf8;

verus! {

/// A JSON-RPC request or response can either be a single request or response, or a list of the
/// former.
#[derive(Debug, PartialEq, Eq)]
pub enum SingleOrBatch<T> {
    /// A single one.
    Single(T),
    /// A list.
    Batch(Vec<T>),
}

/// What a message says that is a single object or a list of them.
#[verifier::ext_equal]
pub enum BatchView<T> {
    /// A single one.
    Single(T),
    /// A list.
    Batch(Seq<T>),
}

/// What a list of responses says.
pub open spec fn responses_view(s: Seq<Response>) -> Seq<ResponseView> {
    s.map_values(|r: Response| r@)
}

impl<T: View> View for SingleOrBatch<T> {
    type V = BatchView<T::V>;

    open spec fn view(&self) -> BatchView<T::V> {
        match *self {
            SingleOrBatch::Single(x) => BatchView::Single(x@),
            SingleOrBatch::Batch(s) => BatchView::Batch(s@.map_values(|x: T| x@)),
        }
    }
}

/// The requests that a text with this shape, of the value `t`, stands for: a single one where it
/// stands for one, else a list where each item stands for one. A member that is written twice is
/// refused.
pub open spec fn requests_in(shape: Seq<Seq<nat>>, t: Tree) -> Option<BatchView<RequestView>> {
    match request_in(outline(shape), t) {
        Some(r) => Some(BatchView::Single(r)),
        None => match t {
            Tree::Array(s) => if outer_once(outline(shape), t) && forall|i: int|
                0 <= i < s.len() ==> request_in(shape[i], #[trigger] s[i]) is Some {
                Some(BatchView::Batch(s.map_values(|t: Tree| request_of(t)->0)))
            } else {
                None
            },
            _ => None,
        },
    }
}

/// The responses that a text with this shape, of the value `t`, stands for: a single one where it
/// stands for one, else a list where each item stands for one. A member that is written twice is
/// refused.
pub open spec fn responses_in(shape: Seq<Seq<nat>>, t: Tree) -> Option<BatchView<ResponseView>> {
    match response_in(outline(shape), t) {
        Some(r) => Some(BatchView::Single(r)),
        None => match t {
            Tree::Array(s) => if outer_once(outline(shape), t) && forall|i: int|
                0 <= i < s.len() ==> response_in(shape[i], #[trigger] s[i]) is Some {
                Some(BatchView::Batch(s.map_values(|t: Tree| response_of(t)->0)))
            } else {
                None
            },
            _ => None,
        },
    }
}

/// The JSON form of a request or of a list of them.
pub open spec fn requests_tree(b: BatchView<RequestView>) -> Tree {
    match b {
        BatchView::Single(r) => request_tree(r),
        BatchView::Batch(s) => Tree::Array(s.map_values(|r: RequestView| request_tree(r))),
    }
}

/// The JSON form of a response or of a list of them.
pub open spec fn responses_tree(b: BatchView<ResponseView>) -> Tree {
    match b {
        BatchView::Single(r) => response_tree(r),
        BatchView::Batch(s) => Tree::Array(s.map_values(|r: ResponseView| response_tree(r))),
    }
}

/// The requests that a text stands for, or why it stands for none.
pub open spec fn requests_from(text: Seq<u8>) -> Result<BatchView<RequestView>, JsonError> {
    match reading(text) {
        Ok((t, rest)) => formed(requests_in(shape(text), t), rest),
        Err(e) => Err(e),
    }
}

/// The responses that a text stands for, or why it stands for none.
pub open spec fn responses_from(text: Seq<u8>) -> Result<BatchView<ResponseView>, JsonError> {
    match reading(text) {
        Ok((t, rest)) => formed(responses_in(shape(text), t), rest),
        Err(e) => Err(e),
    }
}

/// A list of requests is read back from any text that is read as its JSON form, where `null` as parameters or ID
/// stands for their absence.
pub proof fn lemma_requests_read_back(s: Seq<RequestView>, text: Seq<u8>)
    requires
        reads_as(text, requests_tree(BatchView::Batch(s))),
    ensures
        requests_from(text) == Ok::<BatchView<RequestView>, JsonError>(
            BatchView::Batch(s.map_values(|r: RequestView| request_without_nulls(r))),
        ),
{
    let t = requests_tree(BatchView::Batch(s));
    let items = t->Array_0;
    let shape = shape(text);
    assert forall|i: int| 0 <= i < items.len() implies request_in(shape[i], #[trigger] items[i])
        == Some(request_without_nulls(s[i])) && request_of(items[i]) == Some(
        request_without_nulls(s[i]),
    ) by {
        lemma_request_round_trip(s[i]);
        assert(part(t, i) == items[i]);
        assert(part_once(outline(shape), t, i));
        assert(inner_once(shape, t, i));
    }
    assert(request_of(t) is None) by {
        if items.len() == 4 {
            assert(items[0] == request_tree(s[0]));
        }
    }
    assert(items.map_values(|t: Tree| request_of(t)->0) =~= s.map_values(
        |r: RequestView| request_without_nulls(r),
    ));
}

/// A list of responses is read back from any text that is read as its JSON form, where `null` as result
/// or as data of an error stands for their absence.
pub proof fn lemma_responses_read_back(s: Seq<ResponseView>, text: Seq<u8>)
    requires
        reads_as(text, responses_tree(BatchView::Batch(s))),
        forall|i: int| 0 <= i < s.len() ==> code_fits(#[trigger] s[i]),
    ensures
        responses_from(text) == Ok::<BatchView<ResponseView>, JsonError>(
            BatchView::Batch(s.map_values(|r: ResponseView| response_without_nulls(r))),
        ),
{
    let t = responses_tree(BatchView::Batch(s));
    let items = t->Array_0;
    let shape = shape(text);
    assert forall|i: int| 0 <= i < items.len() implies response_in(shape[i], #[trigger] items[i])
        == Some(response_without_nulls(s[i])) && response_of(items[i]) == Some(
        response_without_nulls(s[i]),
    ) by {
        assert(code_fits(s[i]));
        lemma_response_round_trip(s[i]);
        assert(part(t, i) == items[i]);
        assert(part_once(outline(shape), t, i));
        assert(inner_once(shape, t, i));
        assert(forall|j: int| #[trigger] part_once(shape[i], items[i], j));
    }
    assert(response_of(t) is None) by {
        if items.len() == 4 {
            assert(items[0] == response_tree(s[0]));
        }
    }
    assert(items.map_values(|t: Tree| response_of(t)->0) =~= s.map_values(
        |r: ResponseView| response_without_nulls(r),
    ));
}

impl SingleOrBatch<Request> {
    /// Reads a request, or a list of requests, from a text with this shape, of the value `v`.
    pub fn read(shape: &Vec<Vec<usize>>, v: &Json) -> (r: Option<Self>)
        ensures
            match requests_in(shape_view(shape@), v@) {
                Some(b) => r matches Some(x) && x@ == b,
                None => r is None,
            },
    {
        broadcast use lemma_array;

        let outlined = read_outline(shape);
        if let Some(request) = Request::read(&outlined, v) {
            return Some(SingleOrBatch::Single(request));
        }
        let items = match v {
            Json::Array(items) => items,
            _ => return None,
        };
        if !is_outer_once(&outlined, v) {
            return None;
        }
        let mut requests: Vec<Request> = Vec::new();
        for i in 0..items.len()
            invariant
                v@ == array_tree(items@),
                items@.len() <= shape@.len(),
                request_in(outline(shape_view(shape@)), v@) is None,
                requests@.len() == i,
                forall|j: int|
                    0 <= j < i ==> request_in(shape_view(shape@)[j], items@[j]@) == Some(
                        (#[trigger] requests@[j])@,
                    ),
        {
            assert(shape_view(shape@)[i as int] == counts_view(shape@[i as int]@));
            match Request::read(&shape[i], &items[i]) {
                Some(request) => requests.push(request),
                None => {
                    assert(request_in(shape_view(shape@)[i as int], v@->Array_0[i as int]) is None);
                    return None;
                },
            }
        }
        let r = SingleOrBatch::Batch(requests);
        assert forall|i: int| 0 <= i < items@.len() implies request_in(
            shape_view(shape@)[i],
            #[trigger] v@->Array_0[i],
        ) == Some(requests@[i]@) by {
            assert(request_in(shape_view(shape@)[i], items@[i]@) == Some(requests@[i]@));
        }
        assert(r@->Batch_0 =~= requests_in(shape_view(shape@), v@)->0->Batch_0);
        Some(r)
    }

    /// Reads the text of a request, or of a list of requests. That the form is wrong is told before
    /// what is wrong behind it, without a line and a column.
    pub fn from_slice(d: &[u8]) -> (r: Result<Self, JsonError>)
        ensures
            match requests_from(d@) {
                Ok(b) => r matches Ok(x) && x@ == b,
                Err(e) => r == Err::<Self, JsonError>(e),
            },
    {
        match Json::read(d) {
            Ok((v, rest)) => JsonError::formed(Self::read(&read_shape(d), &v), rest),
            Err(e) => Err(e),
        }
    }

    /// The JSON form of the request, or of the list of requests.
    pub fn to_value(&self) -> (r: Json)
        ensures
            r@ == requests_tree(self@),
    {
        broadcast use lemma_array;

        match self {
            SingleOrBatch::Single(r) => r.to_value().unwrap(),
            SingleOrBatch::Batch(s) => {
                let mut items: Vec<Json> = Vec::new();
                for i in 0..s.len()
                    invariant
                        items@.len() == i,
                        forall|j: int|
                            0 <= j < i ==> (#[trigger] items@[j])@ == request_tree(s@[j]@),
                {
                    items.push(s[i].to_value().unwrap());
                }
                let r = Json::Array(items);
                assert(r@->Array_0 =~= requests_tree(self@)->Array_0);
                r
            },
        }
    }
}

impl SingleOrBatch<Response> {
    /// Reads a response, or a list of responses, from a text with this shape, of the value `v`.
    pub fn read(shape: &Vec<Vec<usize>>, v: &Json) -> (r: Option<Self>)
        ensures
            match responses_in(shape_view(shape@), v@) {
                Some(b) => r matches Some(x) && x@ == b,
                None => r is None,
            },
    {
        broadcast use lemma_array;

        let outlined = read_outline(shape);
        if let Some(response) = Response::read(&outlined, v) {
            return Some(SingleOrBatch::Single(response));
        }
        let items = match v {
            Json::Array(items) => items,
            _ => return None,
        };
        if !is_outer_once(&outlined, v) {
            return None;
        }
        let mut responses: Vec<Response> = Vec::new();
        for i in 0..items.len()
            invariant
                v@ == array_tree(items@),
                items@.len() <= shape@.len(),
                response_in(outline(shape_view(shape@)), v@) is None,
                responses@.len() == i,
                forall|j: int|
                    0 <= j < i ==> response_in(shape_view(shape@)[j], items@[j]@) == Some(
                        (#[trigger] responses@[j])@,
                    ),
        {
            assert(shape_view(shape@)[i as int] == counts_view(shape@[i as int]@));
            match Response::read(&shape[i], &items[i]) {
                Some(response) => responses.push(response),
                None => {
                    assert(response_in(shape_view(shape@)[i as int], v@->Array_0[i as int]) is None);
                    return None;
                },
            }
        }
        let r = SingleOrBatch::Batch(responses);
        assert forall|i: int| 0 <= i < items@.len() implies response_in(
            shape_view(shape@)[i],
            #[trigger] v@->Array_0[i],
        ) == Some(responses@[i]@) by {
            assert(response_in(shape_view(shape@)[i], items@[i]@) == Some(responses@[i]@));
        }
        assert(r@->Batch_0 =~= responses_in(shape_view(shape@), v@)->0->Batch_0);
        Some(r)
    }

    /// Reads the text of a response, or of a list of responses. That the form is wrong is told before
    /// what is wrong behind it, without a line and a column.
    pub fn from_slice(d: &[u8]) -> (r: Result<Self, JsonError>)
        ensures
            match responses_from(d@) {
                Ok(b) => r matches Ok(x) && x@ == b,
                Err(e) => r == Err::<Self, JsonError>(e),
            },
    {
        match Json::read(d) {
            Ok((v, rest)) => JsonError::formed(Self::read(&read_shape(d), &v), rest),
            Err(e) => Err(e),
        }
    }

    /// The JSON form of the response, or of the list of responses.
    pub fn to_value(&self) -> (r: Json)
        ensures
            r@ == responses_tree(self@),
    {
        broadcast use lemma_array;

        match self {
            SingleOrBatch::Single(r) => r.to_value(),
            SingleOrBatch::Batch(s) => {
                let mut items: Vec<Json> = Vec::new();
                for i in 0..s.len()
                    invariant
                        items@.len() == i,
                        forall|j: int|
                            0 <= j < i ==> (#[trigger] items@[j])@ == response_tree(s@[j]@),
                {
                    items.push(s[i].to_value());
                }
                let r = Json::Array(items);
                assert(r@->Array_0 =~= responses_tree(self@)->Array_0);
                r
            },
        }
    }
}

/// Enum that is either a request or response object.
#[derive(Debug, PartialEq, Eq)]
pub enum RequestOrResponse {
    /// A request.
    Request(Request),
    /// A response.
    Response(Response),
}

/// What a message says that is either a request or a response.
pub enum MessageView {
    /// A request.
    Request(RequestView),
    /// A response.
    Response(ResponseView),
}

impl View for RequestOrResponse {
    type V = MessageView;

    open spec fn view(&self) -> MessageView {
        match *self {
            RequestOrResponse::Request(r) => MessageView::Request(r@),
            RequestOrResponse::Response(r) => MessageView::Response(r@),
        }
    }
}

/// The request or response that a JSON value stands for, if it stands for one. Where it could be
/// either, it is a request.
pub open spec fn message_of(t: Tree) -> Option<MessageView> {
    match request_of(t) {
        Some(r) => Some(MessageView::Request(r)),
        None => match response_of(t) {
            Some(r) => Some(MessageView::Response(r)),
            None => None,
        },
    }
}

/// The request or response that a text with this outline, of the value `t`, stands for, if it stands
/// for one. A member that is written twice is refused.
pub open spec fn message_in(outline: Seq<nat>, t: Tree) -> Option<MessageView> {
    match request_in(outline, t) {
        Some(r) => Some(MessageView::Request(r)),
        None => match response_in(outline, t) {
            Some(r) => Some(MessageView::Response(r)),
            None => None,
        },
    }
}

/// The request or response that a text stands for, or why it stands for none.
pub open spec fn message_from(text: Seq<u8>) -> Result<MessageView, JsonError> {
    match reading(text) {
        Ok((t, rest)) => formed(message_in(outline(shape(text)), t), rest),
        Err(e) => Err(e),
    }
}

impl RequestOrResponse {
    /// Reads a request or a response.
    pub fn from_value(v: Json) -> (r: Result<Self, Error>)
        ensures
            match message_of(v@) {
                Some(m) => r matches Ok(x) && x@ == m,
                None => r matches Err(x) && x@ == ErrorView::Json(data_error()),
            },
    {
        if let Ok(request) = Request::from_value(&v) {
            return Ok(RequestOrResponse::Request(request));
        }
        match Response::from_value(&v) {
            Ok(response) => Ok(RequestOrResponse::Response(response)),
            Err(e) => Err(e),
        }
    }

    /// Reads the text of a request or a response. That the form is wrong is told before what is wrong
    /// behind it, without a line and a column.
    pub fn from_slice(d: &[u8]) -> (r: Result<Self, Error>)
        ensures
            match message_from(d@) {
                Ok(m) => r matches Ok(x) && x@ == m,
                Err(e) => r matches Err(x) && x@ == ErrorView::Json(e),
            },
    {
        let (v, rest) = match Json::read(d) {
            Ok(x) => x,
            Err(e) => return Err(Error::Json(e)),
        };
        let outline = read_outline(&read_shape(d));
        let message = match Request::read(&outline, &v) {
            Some(request) => Some(RequestOrResponse::Request(request)),
            None => match Response::read(&outline, &v) {
                Some(response) => Some(RequestOrResponse::Response(response)),
                None => None,
            },
        };
        match JsonError::formed(message, rest) {
            Ok(message) => Ok(message),
            Err(e) => Err(Error::Json(e)),
        }
    }

    /// Reads the text of a request or a response.
    pub fn from_str(s: &str) -> (r: Result<Self, Error>)
        ensures
            match message_from(encode_utf8(s@)) {
                Ok(m) => r matches Ok(x) && x@ == m,
                Err(e) => r matches Err(x) && x@ == ErrorView::Json(e),
            },
    {
        Self::from_slice(s.as_bytes())
    }
}

/// A message is not mistaken: what was written as a request is read as that request, and what was
/// written as a response is read as that response, where `null` stands for absence.
pub proof fn lemma_kinds_are_told_apart(q: RequestView, r: ResponseView)
    requires
        code_fits(r),
    ensures
        message_of(request_tree(q)) == Some(MessageView::Request(request_without_nulls(q))),
        message_of(response_tree(r)) == Some(MessageView::Response(response_without_nulls(r))),
{
    lemma_request_round_trip(q);
    lemma_response_round_trip(r);
    let m = response_tree(r)->Object_0;
    reveal_strlit("jsonrpc");
    reveal_strlit("method");
    reveal_strlit("result");
    reveal_strlit("error");
    reveal_strlit("id");
    assert("method"@[0] != "result"@[0]);
    assert("method"@.len() == 6 && "jsonrpc"@.len() == 7 && "error"@.len() == 5 && "id"@.len()
        == 2);
    lemma_find_name(m, "method"@);
    assert(lookup(m, "method"@) is None);
    if record(response_tree(r), request_fields(), true) is Some {
        assert(record(response_tree(r), request_fields(), true)->0[1] == lookup(m, "method"@));
    }
}

} // verus!
