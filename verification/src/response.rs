//! Responses.

use crate::error::{
    copy_json, data_error, json_view, lemma_rpc_error_round_trip, rpc_error_of, rpc_error_tree,
    rpc_error_without_nulls, Error, ErrorView, RpcError, RpcErrorView,
};
use crate::fields::{field_names, nullable, read_nullable, read_record, read_text, record, ref_view};
use crate::json::{
    distinct_names, entry_members, find_name, json_parse, lemma_find_name, lemma_lookup_at,
    reads_as, Json, JsonError, JsonObject, Tree,
};
use crate::request::{member_if, JSONRPC_VERSION};
use crate::shape::{
    counts_view, is_outer_once, is_part_once, outer_once, outline, part_once, read_outline,
    read_shape, shape,
};
use vstd::prelude::*;

verus! {

/// A single JSON-RPC response object.
#[derive(Debug, PartialEq, Eq)]
pub struct Response {
    /// The version of the protocol. Must be `"2.0"`. See [`JSONRPC_VERSION`].
    pub jsonrpc: String,
    /// The result of the function call that is returned to the client. This is `None`, if there
    /// was an error. This might also be `None`, if the call at the server returned `null`.
    pub result: Option<Json>,
    /// The error triggered by a request, if present.
    pub error: Option<RpcError>,
    /// The ID of the request to which this response belongs. This is `null`, if the response is an
    /// error that was triggered when trying to parse the request.
    pub id: Json,
}

/// What a response says.
#[verifier::ext_equal]
pub struct ResponseView {
    /// The version of the protocol.
    pub jsonrpc: Seq<char>,
    /// The result.
    pub result: Option<Tree>,
    /// The error.
    pub error: Option<RpcErrorView>,
    /// The ID of the request.
    pub id: Tree,
}

/// What an optional error object says.
pub open spec fn error_view(e: Option<RpcError>) -> Option<RpcErrorView> {
    match e {
        Some(e) => Some(e@),
        None => None,
    }
}

impl View for Response {
    type V = ResponseView;

    open spec fn view(&self) -> ResponseView {
        ResponseView {
            jsonrpc: self.jsonrpc@,
            result: json_view(self.result),
            error: error_view(self.error),
            id: self.id@,
        }
    }
}

/// The response with a result.
pub open spec fn success(id: Tree, result: Tree) -> ResponseView {
    ResponseView { jsonrpc: JSONRPC_VERSION@, result: Some(result), error: None, id }
}

/// The response with an error.
pub open spec fn failure(id: Tree, error: RpcErrorView) -> ResponseView {
    ResponseView { jsonrpc: JSONRPC_VERSION@, result: None, error: Some(error), id }
}

/// The fields of a response.
pub open spec fn response_fields() -> Seq<Seq<char>> {
    seq!["jsonrpc"@, "result"@, "error"@, "id"@]
}

/// The JSON form of an optional error object.
pub open spec fn error_tree(e: Option<RpcErrorView>) -> Option<Tree> {
    match e {
        Some(e) => Some(rpc_error_tree(e)),
        None => None,
    }
}

/// The JSON form of a response. Result and error are there only where the response has them.
pub open spec fn response_tree(r: ResponseView) -> Tree {
    Tree::Object(
        seq![("jsonrpc"@, Tree::String(r.jsonrpc))] + member_if("result"@, r.result) + member_if(
            "error"@,
            error_tree(r.error),
        ) + seq![("id"@, r.id)],
    )
}

/// The response that a JSON value stands for, if it stands for one.
pub open spec fn response_of(t: Tree) -> Option<ResponseView> {
    match record(t, response_fields(), true) {
        Some(slots) => match (slots[0], nullable(slots[2]), slots[3]) {
            (Some(Tree::String(jsonrpc)), None, Some(id)) => Some(
                ResponseView { jsonrpc, result: nullable(slots[1]), error: None, id },
            ),
            (Some(Tree::String(jsonrpc)), Some(error), Some(id)) => match rpc_error_of(error) {
                Some(error) => Some(
                    ResponseView { jsonrpc, result: nullable(slots[1]), error: Some(error), id },
                ),
                None => None,
            },
            _ => None,
        },
        None => None,
    }
}

/// Whether no member of the error object is written twice.
pub open spec fn error_once(outline: Seq<nat>, t: Tree) -> bool {
    match t {
        Tree::Object(m) => find_name(m, "error"@) matches Some(k) ==> part_once(outline, t, k),
        Tree::Array(s) => s.len() > 2 ==> part_once(outline, t, 2),
        _ => true,
    }
}

/// The response that a text with this outline, of the value `t`, stands for, if it stands for one. A
/// member that is written twice is refused.
pub open spec fn response_in(outline: Seq<nat>, t: Tree) -> Option<ResponseView> {
    if outer_once(outline, t) && error_once(outline, t) {
        response_of(t)
    } else {
        None
    }
}

/// The response that a text stands for, if it stands for one.
pub open spec fn response_from(text: Seq<u8>) -> Option<ResponseView> {
    match json_parse(text) {
        Ok(t) => response_in(outline(shape(text)), t),
        Err(_) => None,
    }
}

/// What a response holds: its result or its error, where it holds just one of them.
pub open spec fn outcome(r: ResponseView) -> Result<Tree, ErrorView> {
    match (r.result, r.error) {
        (Some(result), None) => Ok(result),
        (None, Some(error)) => Err(ErrorView::JsonRpc(error)),
        _ => Err(ErrorView::InvalidResponse),
    }
}

/// The names of the fields differ.
proof fn lemma_response_names()
    ensures
        "jsonrpc"@ != "result"@,
        "jsonrpc"@ != "error"@,
        "jsonrpc"@ != "id"@,
        "result"@ != "error"@,
        "result"@ != "id"@,
        "error"@ != "id"@,
{
    reveal_strlit("jsonrpc");
    reveal_strlit("result");
    reveal_strlit("error");
    reveal_strlit("id");
    assert("jsonrpc"@.len() == 7 && "result"@.len() == 6 && "error"@.len() == 5 && "id"@.len()
        == 2);
}

/// A response without a result and data of its error that are `null`, which stands for their
/// absence.
pub open spec fn response_without_nulls(r: ResponseView) -> ResponseView {
    ResponseView {
        result: nullable(r.result),
        error: match r.error {
            Some(e) => Some(rpc_error_without_nulls(e)),
            None => None,
        },
        ..r
    }
}

/// Whether the code of the error of a response fits its type, if there is one.
pub open spec fn code_fits(r: ResponseView) -> bool {
    r.error matches Some(e) ==> i64::MIN <= e.code <= i64::MAX
}

/// A response is read back from its JSON form, where `null` as result or as data of its error
/// stands for their absence.
pub proof fn lemma_response_round_trip(r: ResponseView)
    requires
        code_fits(r),
    ensures
        response_of(response_tree(r)) == Some(response_without_nulls(r)),
{
    lemma_response_names();
    let m = response_tree(r)->Object_0;
    assert(distinct_names(m));
    lemma_lookup_at(m, 0);
    lemma_lookup_at(m, m.len() - 1);
    lemma_find_name(m, "result"@);
    lemma_find_name(m, "error"@);
    if r.result is Some {
        lemma_lookup_at(m, 1);
    }
    if r.error is Some {
        lemma_lookup_at(m, m.len() - 2);
        lemma_rpc_error_round_trip(r.error->0);
    }
    let names = response_fields();
    assert(names[0] == "jsonrpc"@ && names[1] == "result"@ && names[2] == "error"@ && names[3]
        == "id"@);
    assert forall|i: int| 0 <= i < m.len() implies names.contains((#[trigger] m[i]).0) by {}
    assert(record(response_tree(r), names, true) is Some);
}

/// A response is read back from any text that is read as its JSON form, where `null` as result or
/// as data of its error stands for their absence.
pub proof fn lemma_response_read_back(r: ResponseView, text: Seq<u8>)
    requires
        code_fits(r),
        reads_as(text, response_tree(r)),
    ensures
        response_from(text) == Some(response_without_nulls(r)),
{
    lemma_response_round_trip(r);
}

/// A client gets out of a response what the server put into it: the result, or the error.
pub proof fn lemma_outcome(id: Tree, result: Tree, error: RpcErrorView)
    ensures
        outcome(success(id, result)) == Ok::<Tree, ErrorView>(result),
        outcome(failure(id, error)) == Err::<Tree, ErrorView>(ErrorView::JsonRpc(error)),
{
}

/// The response with the result of a call, which was turned into JSON, or why that failed.
pub open spec fn made_of(id: Tree, result: Result<Result<Json, JsonError>, RpcError>) -> Result<
    ResponseView,
    JsonError,
> {
    match result {
        Ok(Ok(v)) => Ok(success(id, v@)),
        Ok(Err(e)) => Err(e),
        Err(e) => Ok(failure(id, e@)),
    }
}

impl Clone for Response {
    fn clone(&self) -> (r: Self)
        ensures
            r@ == self@,
    {
        Response {
            jsonrpc: self.jsonrpc.clone(),
            result: copy_json(&self.result),
            error: match &self.error {
                Some(error) => Some(error.clone()),
                None => None,
            },
            id: self.id.clone(),
        }
    }
}

impl Response {
    /// Creates a new successful response.
    pub fn new_success(id: Json, result: Json) -> (r: Self)
        ensures
            r@ == success(id@, result@),
    {
        Response { jsonrpc: JSONRPC_VERSION.to_owned(), result: Some(result), error: None, id }
    }

    /// Creates a new error response.
    pub fn new_error(id: Json, error: RpcError) -> (r: Self)
        ensures
            r@ == failure(id@, error@),
    {
        Response { jsonrpc: JSONRPC_VERSION.to_owned(), result: None, error: Some(error), id }
    }

    /// Creates a response object from the result of a call, which was turned into JSON. Where that
    /// failed, the failure is passed on.
    pub fn from_result(id: Json, result: Result<Result<Json, JsonError>, RpcError>) -> (r: Result<
        Self,
        Error,
    >)
        ensures
            match result {
                Ok(Ok(v)) => r matches Ok(x) && x@ == success(id@, v@),
                Ok(Err(e)) => r matches Err(x) && x@ == ErrorView::Json(e),
                Err(e) => r matches Ok(x) && x@ == failure(id@, e@),
            },
            match made_of(id@, result) {
                Ok(q) => r matches Ok(x) && x@ == q,
                Err(e) => r matches Err(x) && x@ == ErrorView::Json(e),
            },
    {
        match result {
            Ok(Ok(result)) => Ok(Self::new_success(id, result)),
            Ok(Err(e)) => Err(Error::Json(e)),
            Err(e) => Ok(Self::new_error(id, e)),
        }
    }

    /// Converts the response object to a result, which is still JSON.
    pub fn into_result(self) -> (r: Result<Json, Error>)
        ensures
            match outcome(self@) {
                Ok(t) => r matches Ok(v) && v@ == t,
                Err(e) => r matches Err(x) && x@ == e,
            },
    {
        match (self.result, self.error) {
            (Some(result), None) => Ok(result),
            (None, Some(error)) => Err(Error::JsonRpc(error)),
            _ => Err(Error::InvalidResponse),
        }
    }

    /// Reads a response.
    pub fn from_value(v: &Json) -> (r: Result<Self, Error>)
        ensures
            match response_of(v@) {
                Some(q) => r matches Ok(x) && x@ == q,
                None => r matches Err(x) && x@ == ErrorView::Json(data_error()),
            },
    {
        let names: Vec<&'static str> = vec!["jsonrpc", "result", "error", "id"];
        assert(field_names(names@) =~= response_fields());
        let slots = match read_record(v, &names, true) {
            Some(slots) => slots,
            None => return Err(Error::Json(JsonError::data())),
        };
        assert(ref_view(slots@[0]) == record(v@, response_fields(), true)->0[0]);
        assert(ref_view(slots@[1]) == record(v@, response_fields(), true)->0[1]);
        assert(ref_view(slots@[2]) == record(v@, response_fields(), true)->0[2]);
        assert(ref_view(slots@[3]) == record(v@, response_fields(), true)->0[3]);
        let error = match read_nullable(slots[2]) {
            Some(error) => match RpcError::from_value(&error) {
                Ok(error) => Some(error),
                Err(_) => return Err(Error::Json(JsonError::data())),
            },
            None => None,
        };
        match (read_text(slots[0]), slots[3]) {
            (Some(jsonrpc), Some(id)) => Ok(
                Response { jsonrpc, result: read_nullable(slots[1]), error, id: id.clone() },
            ),
            _ => Err(Error::Json(JsonError::data())),
        }
    }

    /// Reads a response from a text with this outline, of the value `v`.
    pub fn read(outline: &Vec<usize>, v: &Json) -> (r: Option<Self>)
        ensures
            match response_in(counts_view(outline@), v@) {
                Some(q) => r matches Some(x) && x@ == q,
                None => r is None,
            },
    {
        broadcast use crate::json::lemma_array;

        if !is_outer_once(outline, v) {
            return None;
        }
        match v {
            Json::Object(o) => {
                if let Some(k) = o.position("error") {
                    if !is_part_once(outline, o.value_at(k), k) {
                        return None;
                    }
                }
            },
            Json::Array(items) => {
                if items.len() > 2 && !is_part_once(outline, &items[2], 2) {
                    return None;
                }
            },
            _ => {},
        }
        match Self::from_value(v) {
            Ok(r) => Some(r),
            Err(_) => None,
        }
    }

    /// Reads the text of a response.
    ///
    /// Where and why a text is not that of a record with typed fields is known only to a reader that
    /// reads these fields one by one, through `serde::Deserialize`. It comes from the caller, who can
    /// have such a record.
    ///
    /// # Arguments
    ///
    ///  - `d`: The text.
    ///  - `misread`: Where and why the record cannot be read from the text, if it cannot.
    pub fn from_slice(d: &[u8], misread: JsonError) -> (r: Result<Self, Error>)
        ensures
            match response_from(d@) {
                Some(q) => r matches Ok(x) && x@ == q,
                None => r matches Err(x) && x@ == ErrorView::Json(misread),
            },
    {
        let v = match Json::parse(d) {
            Ok(v) => v,
            Err(_) => return Err(Error::Json(misread)),
        };
        match Self::read(&read_outline(&read_shape(d)), &v) {
            Some(r) => Ok(r),
            None => Err(Error::Json(misread)),
        }
    }

    /// The JSON form of the response.
    pub fn to_value(&self) -> (r: Json)
        ensures
            r@ == response_tree(self@),
    {
        proof {
            lemma_response_names();
        }
        let mut entries: Vec<(String, Json)> = Vec::new();
        entries.push(("jsonrpc".to_owned(), Json::String(self.jsonrpc.clone())));
        if let Some(result) = &self.result {
            entries.push(("result".to_owned(), result.clone()));
        }
        if let Some(error) = &self.error {
            entries.push(("error".to_owned(), error.to_value()));
        }
        entries.push(("id".to_owned(), self.id.clone()));
        assert(entry_members(entries@) =~= response_tree(self@)->Object_0);
        Json::Object(JsonObject::from_entries(entries))
    }
}

} // verus!
