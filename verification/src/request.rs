//! Requests and notifications.

use crate::error::{
    copy_json, data_error, invalid_request, json_view, Error, ErrorView, RpcError, RpcErrorView,
};
use crate::fields::{field_names, nullable, read_nullable, read_record, read_text, record, ref_view};
use crate::json::{
    distinct_names, entry_members, json_debug, json_parse, lemma_find_name, lemma_lookup_at,
    reads_as, Json, JsonError, JsonNumber, JsonObject, Tree,
};
use crate::shape::{
    counts_view, is_outer_once, outer_once, outline, read_outline, read_shape, shape,
};
use crate::text::same;
use vstd::prelude::*;

verus! {

/// The version of the protocol.
pub const JSONRPC_VERSION: &'static str = "2.0";

/// A single JSON-RPC request object. Without an ID it is a notification, which gets no response.
#[derive(Debug, PartialEq, Eq)]
pub struct Request {
    /// The version of the protocol. Must be `"2.0"`. See [`JSONRPC_VERSION`].
    pub jsonrpc: String,
    /// Name of the method to be called.
    pub method: String,
    /// The parameters for the function call.
    pub params: Option<Json>,
    /// Identifier sent by client to match to responses.
    pub id: Option<Json>,
}

/// What a request says.
#[verifier::ext_equal]
pub struct RequestView {
    /// The version of the protocol.
    pub jsonrpc: Seq<char>,
    /// Name of the method to be called.
    pub method: Seq<char>,
    /// The parameters for the function call.
    pub params: Option<Tree>,
    /// The identifier.
    pub id: Option<Tree>,
}

impl View for Request {
    type V = RequestView;

    open spec fn view(&self) -> RequestView {
        RequestView {
            jsonrpc: self.jsonrpc@,
            method: self.method@,
            params: json_view(self.params),
            id: json_view(self.id),
        }
    }
}

/// A request of this version of the protocol.
pub open spec fn new_request(method: Seq<char>, params: Option<Tree>, id: Option<Tree>) -> RequestView {
    RequestView { jsonrpc: JSONRPC_VERSION@, method, params, id }
}

/// The fields of a request.
pub open spec fn request_fields() -> Seq<Seq<char>> {
    seq!["jsonrpc"@, "method"@, "params"@, "id"@]
}

/// The member `name` with the value `t`, where there is one.
pub open spec fn member_if(name: Seq<char>, t: Option<Tree>) -> Seq<(Seq<char>, Tree)> {
    match t {
        Some(t) => seq![(name, t)],
        None => Seq::empty(),
    }
}

/// The JSON form of a request. Parameters and ID are there only where the request has them.
pub open spec fn request_tree(r: RequestView) -> Tree {
    Tree::Object(
        seq![("jsonrpc"@, Tree::String(r.jsonrpc)), ("method"@, Tree::String(r.method))]
            + member_if("params"@, r.params) + member_if("id"@, r.id),
    )
}

/// The request that a JSON value stands for, if it stands for one.
pub open spec fn request_of(t: Tree) -> Option<RequestView> {
    match record(t, request_fields(), true) {
        Some(slots) => match (slots[0], slots[1]) {
            (Some(Tree::String(jsonrpc)), Some(Tree::String(method))) => Some(
                RequestView {
                    jsonrpc,
                    method,
                    params: nullable(slots[2]),
                    id: nullable(slots[3]),
                },
            ),
            _ => None,
        },
        None => None,
    }
}

/// The request that a text with this outline, of the value `t`, stands for, if it stands for one. A
/// member that is written twice is refused.
pub open spec fn request_in(outline: Seq<nat>, t: Tree) -> Option<RequestView> {
    if outer_once(outline, t) {
        request_of(t)
    } else {
        None
    }
}

/// The request that a text stands for, if it stands for one.
pub open spec fn request_from(text: Seq<u8>) -> Option<RequestView> {
    match json_parse(text) {
        Ok(t) => request_in(outline(shape(text)), t),
        Err(_) => None,
    }
}

/// An optional ID as it is formatted with `{:?}`.
pub open spec fn id_debug(id: Option<Tree>) -> Seq<char> {
    match id {
        Some(id) => "Some("@ + json_debug(id) + ")"@,
        None => "None"@,
    }
}

/// Formats an optional ID with `{:?}`.
fn debug_id(id: &Option<Json>) -> (r: String)
    ensures
        r@ == id_debug(json_view(*id)),
{
    match id {
        Some(id) => {
            let mut r = "Some(".to_owned();
            r.append(id.to_debug().as_str());
            r.append(")");
            r
        },
        None => "None".to_owned(),
    }
}

/// The verdict on a request: its version must be this one, and its ID a text or a whole number. An
/// error shows the ID as `id_text`.
pub open spec fn verdict_showing(r: RequestView, id_text: Seq<char>) -> Result<(), RpcErrorView> {
    if r.jsonrpc != JSONRPC_VERSION@ {
        Err(
            invalid_request(
                Some("Field 'jsonrpc' must be '2.0', but was '"@ + r.jsonrpc + "'"@),
            ),
        )
    } else {
        match r.id {
            Some(Tree::String(_)) => Ok(()),
            Some(Tree::Int(_)) => Ok(()),
            Some(Tree::Float(_)) => Err(
                invalid_request(
                    Some("Field 'id' is a number, but should not be fractional: "@ + id_text),
                ),
            ),
            _ => Err(invalid_request(Some("Invalid type in field 'id': "@ + id_text))),
        }
    }
}

/// The verdict on a request, where an error shows the ID as it is formatted with `{:?}`.
pub open spec fn verdict(r: RequestView) -> Result<(), RpcErrorView> {
    verdict_showing(r, id_debug(r.id))
}

/// The names of the fields differ.
proof fn lemma_request_names()
    ensures
        "jsonrpc"@ != "method"@,
        "jsonrpc"@ != "params"@,
        "jsonrpc"@ != "id"@,
        "method"@ != "params"@,
        "method"@ != "id"@,
        "params"@ != "id"@,
{
    reveal_strlit("jsonrpc");
    reveal_strlit("method");
    reveal_strlit("params");
    reveal_strlit("id");
    assert("jsonrpc"@.len() == 7 && "method"@.len() == 6 && "params"@.len() == 6 && "id"@.len()
        == 2);
    assert("method"@[0] != "params"@[0]);
}

/// A request without parameters and ID that are `null`, which stands for their absence.
pub open spec fn request_without_nulls(r: RequestView) -> RequestView {
    RequestView { params: nullable(r.params), id: nullable(r.id), ..r }
}

/// A request is read back from its JSON form, where `null` as parameters or ID stands for their
/// absence.
pub proof fn lemma_request_round_trip(r: RequestView)
    ensures
        request_of(request_tree(r)) == Some(request_without_nulls(r)),
{
    lemma_request_names();
    let m = request_tree(r)->Object_0;
    assert(distinct_names(m));
    lemma_lookup_at(m, 0);
    lemma_lookup_at(m, 1);
    lemma_find_name(m, "params"@);
    lemma_find_name(m, "id"@);
    if r.params is Some {
        lemma_lookup_at(m, 2);
    }
    if r.id is Some {
        lemma_lookup_at(m, m.len() - 1);
    }
    let names = request_fields();
    assert(names[0] == "jsonrpc"@ && names[1] == "method"@ && names[2] == "params"@ && names[3]
        == "id"@);
    assert forall|i: int| 0 <= i < m.len() implies names.contains((#[trigger] m[i]).0) by {}
    assert(record(request_tree(r), names, true) is Some);
}

/// A request is read back from any text that is read as its JSON form, where `null` as parameters
/// or ID stands for their absence.
pub proof fn lemma_request_read_back(r: RequestView, text: Seq<u8>)
    requires
        reads_as(text, request_tree(r)),
    ensures
        request_from(text) == Some(request_without_nulls(r)),
{
    lemma_request_round_trip(r);
}

/// What is built of parameters and ID that were turned into JSON, or why that failed.
pub open spec fn built(
    method: Seq<char>,
    params: Option<Result<Json, JsonError>>,
    id: Option<Result<Json, JsonError>>,
) -> Result<RequestView, JsonError> {
    match (params, id) {
        (Some(Err(e)), _) => Err(e),
        (_, Some(Err(e))) => Err(e),
        (Some(Ok(p)), Some(Ok(i))) => Ok(new_request(method, Some(p@), Some(i@))),
        (Some(Ok(p)), None) => Ok(new_request(method, Some(p@), None)),
        (None, Some(Ok(i))) => Ok(new_request(method, None, Some(i@))),
        (None, None) => Ok(new_request(method, None, None)),
    }
}

impl Clone for Request {
    fn clone(&self) -> (r: Self)
        ensures
            r@ == self@,
    {
        Request {
            jsonrpc: self.jsonrpc.clone(),
            method: self.method.clone(),
            params: copy_json(&self.params),
            id: copy_json(&self.id),
        }
    }
}

/// Turns an optional result around.
fn transpose(v: Option<Result<Json, JsonError>>) -> (r: Result<Option<Json>, JsonError>)
    ensures
        match v {
            Some(Ok(v)) => r == Ok::<Option<Json>, JsonError>(Some(v)),
            Some(Err(e)) => r == Err::<Option<Json>, JsonError>(e),
            None => r == Ok::<Option<Json>, JsonError>(None),
        },
{
    match v {
        Some(Ok(v)) => Ok(Some(v)),
        Some(Err(e)) => Err(e),
        None => Ok(None),
    }
}

impl Request {
    /// Creates a new request object.
    pub fn new(method: String, params: Option<Json>, id: Option<Json>) -> (r: Self)
        ensures
            r@ == new_request(method@, json_view(params), json_view(id)),
    {
        Request { jsonrpc: JSONRPC_VERSION.to_owned(), method, params, id }
    }

    /// Creates a new request object from parameters and an ID that were turned into JSON. Where
    /// one of them could not be, its failure is passed on, that of the parameters first.
    pub fn build(
        method: String,
        params_opt: Option<Result<Json, JsonError>>,
        id_opt: Option<Result<Json, JsonError>>,
    ) -> (r: Result<Self, Error>)
        ensures
            match (params_opt, id_opt) {
                (Some(Err(e)), _) => r matches Err(x) && x@ == ErrorView::Json(e),
                (_, Some(Err(e))) => r matches Err(x) && x@ == ErrorView::Json(e),
                _ => r matches Ok(x) && x@ == new_request(
                    method@,
                    match params_opt {
                        Some(Ok(v)) => Some(v@),
                        _ => None,
                    },
                    match id_opt {
                        Some(Ok(v)) => Some(v@),
                        _ => None,
                    },
                ),
            },
            match built(method@, params_opt, id_opt) {
                Ok(q) => r matches Ok(x) && x@ == q,
                Err(e) => r matches Err(x) && x@ == ErrorView::Json(e),
            },
    {
        let params = match transpose(params_opt) {
            Ok(params) => params,
            Err(e) => return Err(Error::Json(e)),
        };
        let id = match transpose(id_opt) {
            Ok(id) => id,
            Err(e) => return Err(Error::Json(e)),
        };
        Ok(Self::new(method, params, id))
    }

    /// Verifies the correctness of the request and either returns nothing if the request was
    /// correct, or the appropriate error to reply with.
    pub fn verify(&self) -> (r: Result<(), RpcError>)
        ensures
            match verdict(self@) {
                Ok(_) => r is Ok,
                Err(e) => r matches Err(x) && x@ == e,
            },
    {
        self.verify_showing(debug_id(&self.id).as_str())
    }

    /// Verifies the correctness of the request. An error shows the ID as `id_text`.
    pub fn verify_showing(&self, id_text: &str) -> (r: Result<(), RpcError>)
        ensures
            match verdict_showing(self@, id_text@) {
                Ok(_) => r is Ok,
                Err(e) => r matches Err(x) && x@ == e,
            },
    {
        if !same(self.jsonrpc.as_str(), JSONRPC_VERSION) {
            let mut text = "Field 'jsonrpc' must be '2.0', but was '".to_owned();
            text.append(self.jsonrpc.as_str());
            text.append("'");
            return Err(RpcError::invalid_request(Some(text)));
        }
        let mut text = match &self.id {
            Some(Json::String(_)) => return Ok(()),
            Some(Json::Number(JsonNumber::PosInt(_))) => return Ok(()),
            Some(Json::Number(JsonNumber::NegInt(_))) => return Ok(()),
            Some(Json::Number(JsonNumber::Float(_))) => {
                "Field 'id' is a number, but should not be fractional: ".to_owned()
            },
            _ => "Invalid type in field 'id': ".to_owned(),
        };
        text.append(id_text);
        Err(RpcError::invalid_request(Some(text)))
    }

    /// Reads a request.
    pub fn from_value(v: &Json) -> (r: Result<Self, Error>)
        ensures
            match request_of(v@) {
                Some(q) => r matches Ok(x) && x@ == q,
                None => r matches Err(x) && x@ == ErrorView::Json(data_error()),
            },
    {
        let names: Vec<&'static str> = vec!["jsonrpc", "method", "params", "id"];
        assert(field_names(names@) =~= request_fields());
        let slots = match read_record(v, &names, true) {
            Some(slots) => slots,
            None => return Err(Error::Json(JsonError::data())),
        };
        assert(ref_view(slots@[0]) == record(v@, request_fields(), true)->0[0]);
        assert(ref_view(slots@[1]) == record(v@, request_fields(), true)->0[1]);
        assert(ref_view(slots@[2]) == record(v@, request_fields(), true)->0[2]);
        assert(ref_view(slots@[3]) == record(v@, request_fields(), true)->0[3]);
        match (read_text(slots[0]), read_text(slots[1])) {
            (Some(jsonrpc), Some(method)) => Ok(
                Request {
                    jsonrpc,
                    method,
                    params: read_nullable(slots[2]),
                    id: read_nullable(slots[3]),
                },
            ),
            _ => Err(Error::Json(JsonError::data())),
        }
    }

    /// Reads a request from a text with this outline, of the value `v`.
    pub fn read(outline: &Vec<usize>, v: &Json) -> (r: Option<Self>)
        ensures
            match request_in(counts_view(outline@), v@) {
                Some(q) => r matches Some(x) && x@ == q,
                None => r is None,
            },
    {
        if !is_outer_once(outline, v) {
            return None;
        }
        match Self::from_value(v) {
            Ok(r) => Some(r),
            Err(_) => None,
        }
    }

    /// Reads the text of a request.
    ///
    /// Where and why a text is not that of a record with typed fields is known only to a reader that
    /// reads these fields one by one, through `serde::Deserialize`. It comes from the caller, who can
    /// have such a record.
    ///
    /// # Arguments
    ///
    ///  - `d`: The text.
    ///  - `misread`: Where and why the record cannot be read from the text, if it cannot.
    pub fn from_slice(d: &[u8], misread: JsonError) -> (r: Result<Self, Error>)
        ensures
            match request_from(d@) {
                Some(q) => r matches Ok(x) && x@ == q,
                None => r matches Err(x) && x@ == ErrorView::Json(misread),
            },
    {
        let v = match Json::parse(d) {
            Ok(v) => v,
            Err(_) => return Err(Error::Json(misread)),
        };
        match Self::read(&read_outline(&read_shape(d)), &v) {
            Some(r) => Ok(r),
            None => Err(Error::Json(misread)),
        }
    }

    /// The JSON form of the request.
    pub fn to_value(&self) -> (r: Result<Json, Error>)
        ensures
            r matches Ok(v) && v@ == request_tree(self@),
    {
        proof {
            lemma_request_names();
        }
        let mut entries: Vec<(String, Json)> = Vec::new();
        entries.push(("jsonrpc".to_owned(), Json::String(self.jsonrpc.clone())));
        entries.push(("method".to_owned(), Json::String(self.method.clone())));
        if let Some(params) = &self.params {
            entries.push(("params".to_owned(), params.clone()));
        }
        if let Some(id) = &self.id {
            entries.push(("id".to_owned(), id.clone()));
        }
        assert(entry_members(entries@) =~= request_tree(self@)->Object_0);
        Ok(Json::Object(JsonObject::from_entries(entries)))
    }
}

} // verus!
