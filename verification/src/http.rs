//! The state of a client that sends its requests over HTTP.

use crate::credentials::Credentials;
use crate::error::{error_text, text_view, Error as ProtocolError, ErrorView as ProtocolErrorView};
use crate::json::{json_debug, Json, JsonNumber, Tree};
use crate::request::{Request, RequestView};
use crate::response::{outcome, Response, ResponseView};
use crate::text::{decimal, to_decimal};
use crate::websocket::client_request;
use vstd::prelude::*;

verus! {

/// Error that might be returned by the http client.
#[derive(Debug, PartialEq, Eq)]
pub enum Error {
    /// The server replied with an error object.
    JsonRpc(ProtocolError),
    /// Request and response ID mismatched.
    IdMismatch {
        /// The expected ID that was expected.
        expected: usize,
        /// The ID that the server replied with.
        got: Json,
    },
}

/// What an error says.
pub enum ErrorView {
    /// The server replied with an error object.
    JsonRpc(ProtocolErrorView),
    /// Request and response ID mismatched.
    IdMismatch {
        /// The expected ID that was expected.
        expected: usize,
        /// The ID that the server replied with.
        got: Tree,
    },
}

impl View for Error {
    type V = ErrorView;

    open spec fn view(&self) -> ErrorView {
        match *self {
            Error::JsonRpc(e) => ErrorView::JsonRpc(e@),
            Error::IdMismatch { expected, got } => ErrorView::IdMismatch { expected, got: got@ },
        }
    }
}

/// An error in one line. Where reading JSON failed, the line is that of the reader.
pub open spec fn http_error_text(e: ErrorView) -> Option<Seq<char>> {
    match e {
        ErrorView::JsonRpc(e) => error_text(e),
        ErrorView::IdMismatch { expected, got } => Some(
            "Response ID doesn't match request ID: expected "@ + decimal(expected as nat)
                + ", but got "@ + json_debug(got),
        ),
    }
}

impl Error {
    /// The error in one line. Where reading JSON failed, the line is that of the reader, and there is
    /// none here.
    pub fn to_text(&self) -> (r: Option<String>)
        ensures
            text_view(r) == http_error_text(self@),
    {
        match self {
            Error::JsonRpc(e) => e.to_text(),
            Error::IdMismatch { expected, got } => {
                let mut r = "Response ID doesn't match request ID: expected ".to_owned();
                r.append(to_decimal(*expected as u64).as_str());
                r.append(", but got ");
                r.append(got.to_debug().as_str());
                Some(r)
            },
        }
    }
}

/// A JSON-HTTP client that sends the request via HTTP POST.
pub struct HttpClient {
    next_id: usize,
    basic_auth: Option<Credentials>,
}

impl HttpClient {
    /// The ID that the next request gets.
    pub closed spec fn next(&self) -> usize {
        self.next_id
    }

    /// The credentials for HTTP basic authentication, if there are some.
    pub closed spec fn credentials(&self) -> Option<Credentials> {
        self.basic_auth
    }
}

/// What a client hands to its caller for the response to the request with the ID `expected`.
pub open spec fn http_result(expected: usize, response: ResponseView) -> Result<Tree, ErrorView> {
    if response.id != Tree::Int(expected as int) {
        Err(ErrorView::IdMismatch { expected, got: response.id })
    } else {
        match outcome(response) {
            Ok(t) => Ok(t),
            Err(e) => Err(ErrorView::JsonRpc(e)),
        }
    }
}

/// What comes of sending a request, where `next` is the next ID: its ID, the request, and the ID of the
/// request after it.
pub open spec fn http_sent(next: usize, method: Seq<char>, params: Tree) -> (
    usize,
    RequestView,
    usize,
) {
    (next, client_request(method, params, next as int), (next + 1) as usize)
}

impl HttpClient {
    /// Creates a new HTTP client.
    ///
    /// # Arguments
    ///
    ///  - `basic_auth`: Credentials used for HTTP Basic Authentication (optional).
    pub fn new(basic_auth: Option<Credentials>) -> (r: Self)
        ensures
            r.next() == 1,
            r.credentials() == basic_auth,
    {
        HttpClient { next_id: 1, basic_auth }
    }

    /// The credentials for HTTP basic authentication, if there are some.
    pub fn basic_auth(&self) -> (r: &Option<Credentials>)
        ensures
            *r == self.credentials(),
    {
        &self.basic_auth
    }

    /// Whether there is an ID left for another request.
    pub fn can_send(&self) -> (r: bool)
        ensures
            r == (self.next() < usize::MAX),
    {
        self.next_id < usize::MAX
    }

    /// Begins to send a request: returns its ID, and the request.
    pub fn send_request(&mut self, method: &str, params: Json) -> (r: (usize, Request))
        requires
            old(self).next() < usize::MAX,
        ensures
            r.0 == old(self).next(),
            r.1@ == client_request(method@, params@, r.0 as int),
            final(self).next() == old(self).next() + 1,
            final(self).credentials() == old(self).credentials(),
            (r.0, r.1@, final(self).next()) == http_sent(old(self).next(), method@, params@),
    {
        let request_id: usize = self.next_id;
        self.next_id = request_id + 1;
        let id = Json::Number(JsonNumber::PosInt(request_id as u64));
        (request_id, Request::new(method.to_owned(), Some(params), Some(id)))
    }

    /// What is handed to the caller for the response to the request with the ID `request_id`.
    pub fn finish_request(request_id: usize, response: Response) -> (r: Result<Json, Error>)
        ensures
            match http_result(request_id, response@) {
                Ok(t) => r matches Ok(v) && v@ == t,
                Err(e) => r matches Err(x) && x@ == e,
            },
    {
        let matches_id = match response.id.as_u64() {
            Some(id) => id == request_id as u64,
            None => false,
        };
        if !matches_id {
            return Err(Error::IdMismatch { expected: request_id, got: response.id });
        }
        match response.into_result() {
            Ok(v) => Ok(v),
            Err(e) => Err(Error::JsonRpc(e)),
        }
    }
}

} // verus!
