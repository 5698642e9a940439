//! The credentials that a client authorizes itself with.

use crate::auth::Sensitive;
use vstd::prelude::*;
use vstd::utf8::encode_utf8;

verus! {

/// Some bytes in base64, with the standard alphabet and padding.
pub uninterp spec fn base64_text(bytes: Seq<u8>) -> Seq<char>;

/// Calls `Engine::encode` of `base64` with `BASE64_STANDARD`, whose result depends on the bytes
/// alone.
#[verifier::external_body]
fn base64(bytes: &[u8]) -> (r: String)
    ensures
        r@ == base64_text(bytes@),
{
    base64::Engine::encode(&base64::prelude::BASE64_STANDARD, bytes)
}

/// Basic auth credentials, containing username and password.
pub struct Credentials {
    /// Username.
    pub username: String,
    /// Password.
    pub password: Sensitive<String>,
}

/// The value of the `Authorization` header for a username and a password.
pub open spec fn authorization(username: Seq<char>, password: Seq<char>) -> Seq<char> {
    "Basic "@ + base64_text(encode_utf8(username + ":"@ + password))
}

impl Credentials {
    /// Create basic auth credentials from username and password.
    pub fn new(username: &str, password: &str) -> (r: Credentials)
        ensures
            r.username@ == username@,
            r.password.0@ == password@,
    {
        Credentials { username: username.to_owned(), password: Sensitive(password.to_owned()) }
    }

    /// The value of the `Authorization` header.
    pub fn authorization(&self) -> (r: String)
        ensures
            r@ == authorization(self.username@, self.password.0@),
    {
        let mut pair = self.username.clone();
        pair.append(":");
        pair.append(self.password.0.as_str());
        let encoded = base64(pair.as_str().as_bytes());
        header_value(encoded.as_str())
    }
}

/// The value of the `Authorization` header, with the pair of username and password in base64.
pub fn header_value(encoded: &str) -> (r: String)
    ensures
        r@ == "Basic "@ + encoded@,
{
    let mut header = "Basic ".to_owned();
    header.append(encoded);
    header
}

} // verus!
