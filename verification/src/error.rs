//! Errors: the error objects of the protocol, and what else can go wrong with a message.

use crate::fields::{field_names, nullable, read_nullable, read_record, record, ref_view};
use crate::json::{
    distinct_names, entry_members, json_debug, lemma_find_name, lemma_lookup_at, Category, Json,
    JsonError,
    JsonNumber, JsonObject, Tree,
};
use crate::text::{signed_decimal, to_signed_decimal};
use vstd::prelude::*;

verus! {

/// Numeric error code used in error objects.
pub type ErrorCode = i64;

/// The first and the last of the error codes that the protocol reserves for itself.
pub const JSONRPC_RESERVED_ERROR_CODES: (i64, i64) = (-32768, -32000);

/// Whether the protocol reserves an error code for itself.
pub open spec fn reserved_code(code: int) -> bool {
    JSONRPC_RESERVED_ERROR_CODES.0 <= code <= JSONRPC_RESERVED_ERROR_CODES.1
}

/// Whether the protocol reserves an error code for itself.
pub fn is_reserved_code(code: ErrorCode) -> (r: bool)
    ensures
        r == (-32768 <= code <= -32000),
        r == reserved_code(code as int),
{
    JSONRPC_RESERVED_ERROR_CODES.0 <= code && code <= JSONRPC_RESERVED_ERROR_CODES.1
}

/// An error object that can be returned by the server.
#[derive(Debug, PartialEq, Eq)]
pub struct RpcError {
    /// The error code.
    pub code: ErrorCode,
    /// An optional error message.
    pub message: Option<String>,
    /// Optional data attached to the error object by the server.
    pub data: Option<Json>,
}

/// What an error object says.
#[verifier::ext_equal]
pub struct RpcErrorView {
    /// The error code.
    pub code: int,
    /// The message.
    pub message: Option<Seq<char>>,
    /// The data.
    pub data: Option<Tree>,
}

/// What an optional text says.
pub open spec fn text_view(s: Option<String>) -> Option<Seq<char>> {
    match s {
        Some(s) => Some(s@),
        None => None,
    }
}

/// What an optional value says.
pub open spec fn json_view(v: Option<Json>) -> Option<Tree> {
    match v {
        Some(v) => Some(v@),
        None => None,
    }
}

/// An optional text as an optional value.
pub open spec fn described(s: Option<Seq<char>>) -> Option<Tree> {
    match s {
        Some(s) => Some(Tree::String(s)),
        None => None,
    }
}

impl View for RpcError {
    type V = RpcErrorView;

    open spec fn view(&self) -> RpcErrorView {
        RpcErrorView {
            code: self.code as int,
            message: text_view(self.message),
            data: json_view(self.data),
        }
    }
}

/// An error of a reserved kind.
pub open spec fn reserved_error(code: int, message: Seq<char>, data: Option<Tree>) -> RpcErrorView {
    RpcErrorView { code, message: Some(message), data }
}

/// The text was not JSON.
pub open spec fn parse_error(description: Option<Seq<char>>) -> RpcErrorView {
    reserved_error(-32700, "Parse error"@, described(description))
}

/// The JSON was not a request.
pub open spec fn invalid_request(description: Option<Seq<char>>) -> RpcErrorView {
    reserved_error(-32600, "Invalid Request"@, described(description))
}

/// There is no such method.
pub open spec fn no_such_method(description: Option<Seq<char>>) -> RpcErrorView {
    reserved_error(-32601, "Method not found"@, described(description))
}

/// The parameters do not fit the method.
pub open spec fn invalid_params(description: Option<Seq<char>>) -> RpcErrorView {
    reserved_error(-32602, "Invalid params"@, described(description))
}

/// Something else went wrong.
pub open spec fn internal_error(data: Option<Tree>) -> RpcErrorView {
    reserved_error(-32603, "Internal error"@, data)
}

impl RpcError {
    fn new_reserved(code: ErrorCode, message: &'static str, data: Option<Json>) -> (r: Self)
        ensures
            r@ == reserved_error(code as int, message@, json_view(data)),
    {
        RpcError { code, message: Some(message.to_owned()), data }
    }

    fn new_reserved_with_description(
        code: ErrorCode,
        message: &'static str,
        description: Option<String>,
    ) -> (r: Self)
        ensures
            r@ == reserved_error(code as int, message@, described(text_view(description))),
    {
        let data = match description {
            Some(s) => Some(Json::String(s)),
            None => None,
        };
        RpcError { code, message: Some(message.to_owned()), data }
    }

    /// The text was not JSON.
    pub fn parse_error(description: Option<String>) -> (r: Self)
        ensures
            r@ == parse_error(text_view(description)),
    {
        Self::new_reserved_with_description(-32700, "Parse error", description)
    }

    /// The JSON was not a request.
    pub fn invalid_request(description: Option<String>) -> (r: Self)
        ensures
            r@ == invalid_request(text_view(description)),
    {
        Self::new_reserved_with_description(-32600, "Invalid Request", description)
    }

    /// There is no such method.
    pub fn method_not_found(description: Option<String>) -> (r: Self)
        ensures
            r@ == no_such_method(text_view(description)),
    {
        Self::new_reserved_with_description(-32601, "Method not found", description)
    }

    /// The parameters do not fit the method.
    pub fn invalid_params(description: Option<String>) -> (r: Self)
        ensures
            r@ == invalid_params(text_view(description)),
    {
        Self::new_reserved_with_description(-32602, "Invalid params", description)
    }

    /// Something else went wrong; `data` may say more.
    pub fn internal_error(data: Option<Json>) -> (r: Self)
        ensures
            r@ == internal_error(json_view(data)),
    {
        Self::new_reserved(-32603, "Internal error", data)
    }

    /// Something else went wrong; `description` may say more.
    pub fn internal_from_string(description: Option<String>) -> (r: Self)
        ensures
            r@ == internal_error(described(text_view(description))),
    {
        Self::new_reserved_with_description(-32603, "Internal error", description)
    }

    /// The error in one line.
    pub fn to_text(&self) -> (r: String)
        ensures
            r@ == rpc_error_text(self@),
    {
        let mut r = "JSON-RPC error: code=".to_owned();
        r.append(to_signed_decimal(self.code).as_str());
        if let Some(message) = &self.message {
            r.append(": ");
            r.append(message.as_str());
        }
        r
    }
}

/// The codes of the errors that the protocol defines are among those that it reserves for itself.
pub proof fn lemma_defined_codes_are_reserved(description: Option<Seq<char>>, data: Option<Tree>)
    ensures
        reserved_code(parse_error(description).code),
        reserved_code(invalid_request(description).code),
        reserved_code(no_such_method(description).code),
        reserved_code(invalid_params(description).code),
        reserved_code(internal_error(data).code),
{
}

/// An error in one line.
pub open spec fn rpc_error_text(e: RpcErrorView) -> Seq<char> {
    let head = "JSON-RPC error: code="@ + signed_decimal(e.code);
    match e.message {
        Some(message) => head + ": "@ + message,
        None => head,
    }
}

/// Copies an optional value.
pub fn copy_json(v: &Option<Json>) -> (r: Option<Json>)
    ensures
        json_view(r) == json_view(*v),
{
    match v {
        Some(v) => Some(v.clone()),
        None => None,
    }
}

/// Copies an optional text.
pub fn copy_text(s: &Option<String>) -> (r: Option<String>)
    ensures
        text_view(r) == text_view(*s),
{
    match s {
        Some(s) => Some(s.clone()),
        None => None,
    }
}

impl Clone for RpcError {
    fn clone(&self) -> (r: Self)
        ensures
            r@ == self@,
    {
        RpcError {
            code: self.code,
            message: copy_text(&self.message),
            data: copy_json(&self.data),
        }
    }
}

impl Default for RpcError {
    fn default() -> (r: Self)
        ensures
            r@ == internal_error(None),
    {
        Self::internal_error(None)
    }
}

impl From<()> for RpcError {
    fn from(_nothing: ()) -> (r: Self)
        ensures
            r@ == internal_error(None),
    {
        Self::internal_error(None)
    }
}

impl vstd::std_specs::convert::FromSpecImpl<()> for RpcError {
    open spec fn obeys_from_spec() -> bool {
        false
    }

    open spec fn from_spec(v: ()) -> Self {
        arbitrary()
    }
}

/// The fields of an error object.
pub open spec fn rpc_error_fields() -> Seq<Seq<char>> {
    seq!["code"@, "message"@, "data"@]
}

/// The JSON form of an error object. The message is always there; the data only where there are
/// some.
pub open spec fn rpc_error_tree(e: RpcErrorView) -> Tree {
    let message = match e.message {
        Some(s) => Tree::String(s),
        None => Tree::Null,
    };
    let head = seq![("code"@, Tree::Int(e.code)), ("message"@, message)];
    Tree::Object(
        match e.data {
            Some(data) => head.push(("data"@, data)),
            None => head,
        },
    )
}

/// The error object that a JSON value stands for, if it stands for one.
pub open spec fn rpc_error_of(t: Tree) -> Option<RpcErrorView> {
    match record(t, rpc_error_fields(), true) {
        Some(slots) => match (slots[0], nullable(slots[1])) {
            (Some(Tree::Int(code)), None) if i64::MIN <= code <= i64::MAX => Some(
                RpcErrorView { code, message: None, data: nullable(slots[2]) },
            ),
            (Some(Tree::Int(code)), Some(Tree::String(message))) if i64::MIN <= code
                <= i64::MAX => Some(
                RpcErrorView { code, message: Some(message), data: nullable(slots[2]) },
            ),
            _ => None,
        },
        None => None,
    }
}

/// The names of the fields differ.
proof fn lemma_rpc_error_names()
    ensures
        "code"@ != "message"@,
        "code"@ != "data"@,
        "message"@ != "data"@,
{
    reveal_strlit("code");
    reveal_strlit("message");
    reveal_strlit("data");
    assert("code"@[0] != "data"@[0]);
}

/// An error object without data that are `null`, which stands for their absence.
pub open spec fn rpc_error_without_nulls(e: RpcErrorView) -> RpcErrorView {
    RpcErrorView { data: nullable(e.data), ..e }
}

/// An error object is read back from its JSON form, where `null` as data stands for their absence.
pub proof fn lemma_rpc_error_round_trip(e: RpcErrorView)
    requires
        i64::MIN <= e.code <= i64::MAX,
    ensures
        rpc_error_of(rpc_error_tree(e)) == Some(rpc_error_without_nulls(e)),
{
    lemma_rpc_error_names();
    let m = rpc_error_tree(e)->Object_0;
    assert(distinct_names(m));
    lemma_lookup_at(m, 0);
    lemma_lookup_at(m, 1);
    if e.data is Some {
        lemma_lookup_at(m, 2);
    } else {
        lemma_find_name(m, "data"@);
    }
    let names = rpc_error_fields();
    assert(names[0] == "code"@ && names[1] == "message"@ && names[2] == "data"@);
    assert forall|i: int| 0 <= i < m.len() implies names.contains((#[trigger] m[i]).0) by {
        assert(m[i].0 == names[i]);
    }
}

impl RpcError {
    /// The JSON form of the error object.
    pub fn to_value(&self) -> (r: Json)
        ensures
            r@ == rpc_error_tree(self@),
    {
        proof {
            lemma_rpc_error_names();
        }
        let message = match &self.message {
            Some(s) => Json::String(s.clone()),
            None => Json::Null,
        };
        let mut entries: Vec<(String, Json)> = Vec::new();
        entries.push(("code".to_owned(), Json::Number(JsonNumber::NegInt(self.code))));
        entries.push(("message".to_owned(), message));
        if let Some(data) = &self.data {
            entries.push(("data".to_owned(), data.clone()));
        }
        assert(entry_members(entries@) =~= rpc_error_tree(self@)->Object_0);
        Json::Object(JsonObject::from_entries(entries))
    }

    /// Reads an error object.
    pub fn from_value(v: &Json) -> (r: Result<RpcError, Error>)
        ensures
            match rpc_error_of(v@) {
                Some(e) => r matches Ok(x) && x@ == e,
                None => r matches Err(x) && x@ == ErrorView::Json(data_error()),
            },
    {
        let names: Vec<&'static str> = vec!["code", "message", "data"];
        assert(field_names(names@) =~= rpc_error_fields());
        let slots = match read_record(v, &names, true) {
            Some(slots) => slots,
            None => return Err(Error::Json(JsonError::data())),
        };
        assert(ref_view(slots@[0]) == record(v@, rpc_error_fields(), true)->0[0]);
        assert(ref_view(slots@[1]) == record(v@, rpc_error_fields(), true)->0[1]);
        assert(ref_view(slots@[2]) == record(v@, rpc_error_fields(), true)->0[2]);
        let code = match slots[0] {
            Some(v) => match v.as_i64() {
                Some(code) => code,
                None => return Err(Error::Json(JsonError::data())),
            },
            None => return Err(Error::Json(JsonError::data())),
        };
        let message = match read_nullable(slots[1]) {
            None => None,
            Some(Json::String(s)) => Some(s),
            Some(_) => return Err(Error::Json(JsonError::data())),
        };
        Ok(RpcError { code, message, data: read_nullable(slots[2]) })
    }
}

/// An error of this JSON-RPC implementation. This can be either an error object returned by the
/// server, or any other error that might be triggered in the server or client.
#[derive(Debug, PartialEq, Eq)]
pub enum Error {
    /// An error object sent by the server.
    JsonRpc(RpcError),
    /// JSON parsing error.
    Json(JsonError),
    /// The response holds neither a result nor an error, or both.
    InvalidResponse,
    /// The value cannot be a subscription ID.
    InvalidSubscriptionId(Json),
}

/// What an error says.
pub enum ErrorView {
    /// An error object sent by the server.
    JsonRpc(RpcErrorView),
    /// JSON parsing error.
    Json(JsonError),
    /// The response holds neither a result nor an error, or both.
    InvalidResponse,
    /// The value cannot be a subscription ID.
    InvalidSubscriptionId(Tree),
}

impl View for Error {
    type V = ErrorView;

    open spec fn view(&self) -> ErrorView {
        match *self {
            Error::JsonRpc(e) => ErrorView::JsonRpc(e@),
            Error::Json(e) => ErrorView::Json(e),
            Error::InvalidResponse => ErrorView::InvalidResponse,
            Error::InvalidSubscriptionId(v) => ErrorView::InvalidSubscriptionId(v@),
        }
    }
}

/// The failure to read a value that is JSON, but not of the expected form.
pub open spec fn data_error() -> JsonError {
    JsonError { line: 0, column: 0, category: Category::Data }
}

/// What is read for a value that is expected to be of some form: what it stands for, if it is of
/// that form and nothing is wrong with what follows it in the text.
pub open spec fn formed<T>(value: Option<T>, rest: Option<JsonError>) -> Result<T, JsonError> {
    match (value, rest) {
        (None, _) => Err(data_error()),
        (Some(_), Some(e)) => Err(e),
        (Some(x), None) => Ok(x),
    }
}

/// The name of a kind of failure.
pub open spec fn category_name(c: Category) -> Seq<char> {
    match c {
        Category::Io => "Io"@,
        Category::Syntax => "Syntax"@,
        Category::Data => "Data"@,
        Category::Eof => "Eof"@,
    }
}

/// Where and why reading a JSON text failed, in JSON.
pub open spec fn json_error_tree(e: JsonError) -> Tree {
    Tree::Object(
        seq![
            ("line"@, Tree::Int(e.line as int)),
            ("column"@, Tree::Int(e.column as int)),
            ("classify"@, Tree::String(category_name(e.category))),
        ],
    )
}

/// An error in one line. Where reading JSON failed, the line is that of the reader.
pub open spec fn error_text(e: ErrorView) -> Option<Seq<char>> {
    match e {
        ErrorView::JsonRpc(e) => Some("The server responded with an error: "@ + rpc_error_text(e)),
        ErrorView::Json(_) => None,
        ErrorView::InvalidResponse => Some("Received invalid response"@),
        ErrorView::InvalidSubscriptionId(id) => Some(
            "Invalid subscription ID: "@ + json_debug(id),
        ),
    }
}

/// The error object that tells of an error, if there is one.
pub open spec fn rpc_error_for(e: ErrorView) -> Option<RpcErrorView> {
    match e {
        ErrorView::JsonRpc(e) => Some(e),
        ErrorView::Json(e) => Some(internal_error(Some(json_error_tree(e)))),
        ErrorView::InvalidResponse => None,
        ErrorView::InvalidSubscriptionId(id) => Some(internal_error(Some(id))),
    }
}

impl Error {
    /// The error in one line. Where reading JSON failed, the line is that of the reader, and there is
    /// none here.
    pub fn to_text(&self) -> (r: Option<String>)
        ensures
            text_view(r) == error_text(self@),
    {
        match self {
            Error::JsonRpc(e) => {
                let mut r = "The server responded with an error: ".to_owned();
                r.append(e.to_text().as_str());
                Some(r)
            },
            Error::Json(_) => None,
            Error::InvalidResponse => Some("Received invalid response".to_owned()),
            Error::InvalidSubscriptionId(id) => {
                let mut r = "Invalid subscription ID: ".to_owned();
                r.append(id.to_debug().as_str());
                Some(r)
            },
        }
    }
}

impl JsonError {
    /// The failure to read a value that is JSON, but not of the expected form.
    pub fn data() -> (r: JsonError)
        ensures
            r == data_error(),
    {
        JsonError { line: 0, column: 0, category: Category::Data }
    }

    /// What is read for a value that is expected to be of some form.
    ///
    /// # Arguments
    ///
    ///  - `value`: What the value stands for, if it is of that form.
    ///  - `rest`: What is wrong with what follows it in the text, if something is.
    pub fn formed<T>(value: Option<T>, rest: Option<JsonError>) -> (r: Result<T, JsonError>)
        ensures
            r == formed(value, rest),
    {
        match value {
            None => Err(Self::data()),
            Some(x) => match rest {
                Some(e) => Err(e),
                None => Ok(x),
            },
        }
    }

    /// The error object that tells of a failure to read JSON.
    pub fn into_rpc_error(self) -> (r: RpcError)
        ensures
            r@ == internal_error(Some(json_error_tree(self))),
    {
        proof {
            reveal_strlit("line");
            reveal_strlit("column");
            reveal_strlit("classify");
            assert("line"@.len() == 4 && "column"@.len() == 6 && "classify"@.len() == 8);
        }
        let classify = match self.category {
            Category::Io => "Io",
            Category::Syntax => "Syntax",
            Category::Data => "Data",
            Category::Eof => "Eof",
        };
        let mut entries: Vec<(String, Json)> = Vec::new();
        entries.push(("line".to_owned(), Json::Number(JsonNumber::PosInt(self.line as u64))));
        entries.push(("column".to_owned(), Json::Number(JsonNumber::PosInt(self.column as u64))));
        entries.push(("classify".to_owned(), Json::String(classify.to_owned())));
        assert(entry_members(entries@) =~= json_error_tree(self)->Object_0);
        RpcError::internal_error(Some(Json::Object(JsonObject::from_entries(entries))))
    }
}

impl Error {
    /// Tries to convert this error to an error object of the protocol.
    pub fn into_rpc_error(self) -> (r: Option<RpcError>)
        ensures
            match rpc_error_for(self@) {
                Some(e) => r matches Some(x) && x@ == e,
                None => r is None,
            },
    {
        match self {
            Error::JsonRpc(e) => Some(e),
            Error::Json(e) => Some(e.into_rpc_error()),
            Error::InvalidResponse => None,
            Error::InvalidSubscriptionId(id) => Some(RpcError::internal_error(Some(id))),
        }
    }
}

} // verus!
