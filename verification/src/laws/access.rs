//! What holds of access to a server: who gets in, and where to.

use crate::auth::{
    access, blake2b_hash, credentials, filtered, rejection_reply, Access, Credentials, Rejection,
    Unauthorized,
};
use crate::client::{authorization, base64_text};
use crate::config::{endpoint, header_char, ip_allowed, routed, valid_origin, Config, Endpoint, IpAddr};
use vstd::prelude::*;
use vstd::utf8::encode_utf8;

verus! {

/// A request gets to what is served at its path if its address is allowed and its authorization
/// fits; `/` is the endpoint for POST requests, `/ws` that for websocket if it is enabled, and there
/// is no other. Else it is answered with a status: 403 for the address, then 404 for the path, then
/// 401 for the authorization.
pub proof fn lemma_what_a_request_gets_to(
    c: Config,
    ip: IpAddr,
    path: Seq<char>,
    header: Option<(Seq<char>, Seq<char>)>,
)
    ensures
        ({
            let known = c.ip_whitelist matches Some(list) ==> list@.contains(ip);
            let fits = c.basic_auth matches Some(expected) ==> (header matches Some((u, p))
                && expected@.username == u && expected@.password_blake2b == blake2b_hash(
                encode_utf8(p),
            ));
            let served = path == "/"@ || (path == "/ws"@ && c.enable_websocket);
            &&& routed(c, ip, path, header) == Ok::<Endpoint, u16>(Endpoint::Http) <==> known && fits
                && path == "/"@
            &&& routed(c, ip, path, header) == Ok::<Endpoint, u16>(Endpoint::Websocket) <==> known
                && fits && path == "/ws"@ && c.enable_websocket
            &&& routed(c, ip, path, header) == Err::<Endpoint, u16>(403) <==> !known
            &&& routed(c, ip, path, header) == Err::<Endpoint, u16>(404) <==> known && !served
            &&& routed(c, ip, path, header) == Err::<Endpoint, u16>(401) <==> known && served
                && !fits
            &&& ip_allowed(c, ip) <==> known
            &&& access(c.basic_auth, header) == Access::Granted <==> fits
        }),
        endpoint(c, path) matches Some(Endpoint::Http) <==> path == "/"@,
        endpoint(c, path) matches Some(Endpoint::Websocket) <==> path == "/ws"@
            && c.enable_websocket,
{
    reveal_strlit("/");
    reveal_strlit("/ws");
    assert("/"@.len() == 1 && "/ws"@.len() == 3);
}

/// Without credentials anybody gets in. With some, who gives their username and a password with
/// their hash does, and nobody else.
pub proof fn lemma_who_gets_in(
    expected: Credentials,
    header: Option<(Seq<char>, Seq<char>)>,
    username: Seq<char>,
    password: Seq<char>,
)
    ensures
        access(None, header) == Access::Granted,
        access(Some(expected), None) == Access::Unauthorized,
        access(Some(expected), Some((username, password))) == Access::Granted <==> expected@.username
            == username && expected@.password_blake2b == blake2b_hash(encode_utf8(password)),
        credentials(username, password).username == username,
        credentials(username, password).password_blake2b == blake2b_hash(encode_utf8(password)),
{
}

/// A client authorizes itself with username and password, with a colon between them, in base64.
pub proof fn lemma_how_a_client_authorizes_itself(username: Seq<char>, password: Seq<char>)
    ensures
        authorization(username, password) == "Basic "@ + base64_text(
            encode_utf8(username + ":"@ + password),
        ),
{
}

/// An origin can be allowed if it is no wildcard and has no control characters but tabs.
pub proof fn lemma_which_origins_can_be_allowed(s: Seq<char>, c: char)
    ensures
        valid_origin(s) <==> s != "*"@ && forall|i: int|
            0 <= i < s.len() ==> header_char(#[trigger] s[i]),
        header_char(c) <==> (c as u32 == 9 || (c as u32 >= 32 && c as u32 != 127)),
{
}

/// How a rejected request is answered.
pub proof fn lemma_how_a_rejection_is_answered<H>(error: Unauthorized, realm: Seq<char>, header: H)
    ensures
        rejection_reply(Rejection::NotFound) == (404u16, None::<Seq<char>>),
        rejection_reply(Rejection::Unauthorized(error)) == (
            401u16,
            Some("Basic realm = \""@ + error.realm@ + "\""@),
        ),
        rejection_reply(Rejection::Other) == (500u16, None::<Seq<char>>),
        filtered(realm, Some(header)) == Ok::<H, Seq<char>>(header),
        filtered(realm, None::<H>) == Err::<H, Seq<char>>(realm),
{
}

} // verus!
