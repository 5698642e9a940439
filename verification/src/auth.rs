//! HTTP basic authentication: the credentials that a server expects, and what it answers.

use crate::text::lemma_utf8_injective;
use blake2::{digest::consts::U32, Blake2b, Digest};
use vstd::prelude::*;
use vstd::utf8::encode_utf8;

verus! {

/// A value that is not meant to be shown.
pub struct Sensitive<T>(pub T);

/// The Blake2b hash of some bytes, with a size of 32 bytes.
pub uninterp spec fn blake2b_hash(bytes: Seq<u8>) -> Seq<u8>;

/// Calls `Digest::digest` of `blake2::Blake2b<U32>`, whose result depends on the bytes alone.
#[verifier::external_body]
fn blake2b(bytes: &[u8]) -> (r: [u8; 32])
    ensures
        r@ == blake2b_hash(bytes@),
{
    *Blake2b::<U32>::digest(bytes).as_ref()
}

/// Calls `ConstantTimeEq::ct_eq` of `subtle` on slices of bytes, which says whether they are equal.
#[verifier::external_body]
fn ct_eq(a: &[u8], b: &[u8]) -> (r: bool)
    ensures
        r == (a@ == b@),
{
    bool::from(subtle::ConstantTimeEq::ct_eq(a, b))
}

/// Basic auth credentials, containing username and password.
pub struct Credentials {
    username: String,
    password_blake2b: Sensitive<[u8; 32]>,
}

/// Invalid username or password was passed to [`Credentials::verify`].
#[derive(Debug, PartialEq, Eq)]
pub struct CredentialsVerificationError(());

impl CredentialsVerificationError {
    /// The error in words.
    pub fn to_text(&self) -> (r: String)
        ensures
            r@ == "invalid username or password"@,
    {
        "invalid username or password".to_owned()
    }
}

/// What credentials say.
#[verifier::ext_equal]
pub struct CredentialsView {
    /// The username.
    pub username: Seq<char>,
    /// The Blake2b hash of the password.
    pub password_blake2b: Seq<u8>,
}

impl View for Credentials {
    type V = CredentialsView;

    closed spec fn view(&self) -> CredentialsView {
        CredentialsView { username: self.username@, password_blake2b: self.password_blake2b.0@ }
    }
}

/// The credentials with a username and a password.
pub open spec fn credentials(username: Seq<char>, password: Seq<char>) -> CredentialsView {
    CredentialsView { username, password_blake2b: blake2b_hash(encode_utf8(password)) }
}

impl Credentials {
    /// Create basic auth credentials from username and password.
    pub fn new(username: &str, password: &str) -> (r: Credentials)
        ensures
            r@ == credentials(username@, password@),
    {
        Credentials::new_from_blake2b(username, blake2b(password.as_bytes()))
    }

    /// Create basic auth credentials from username and Blake2b hash of the password.
    pub fn new_from_blake2b(username: &str, password_blake2b: [u8; 32]) -> (r: Credentials)
        ensures
            r@ == (CredentialsView {
                username: username@,
                password_blake2b: password_blake2b@,
            }),
    {
        Credentials {
            username: username.to_owned(),
            password_blake2b: Sensitive(password_blake2b),
        }
    }

    /// Verifies basic auth credentials against username and password in constant time.
    pub fn verify(&self, username: &str, password: &str) -> (r: Result<
        (),
        CredentialsVerificationError,
    >)
        ensures
            r is Ok <==> self@ == credentials(username@, password@),
    {
        self.verify_blake2b(username, blake2b(password.as_bytes()))
    }

    /// Verifies basic auth credentials against username and Blake2b hash of the password in
    /// constant time.
    pub fn verify_blake2b(&self, username: &str, password_blake2b: [u8; 32]) -> (r: Result<
        (),
        CredentialsVerificationError,
    >)
        ensures
            r is Ok <==> self@ == (CredentialsView {
                username: username@,
                password_blake2b: password_blake2b@,
            }),
    {
        let expected = self.username.as_str().as_bytes();
        let given = username.as_bytes();
        proof {
            if encode_utf8(self.username@) == encode_utf8(username@) {
                lemma_utf8_injective(self.username@, username@);
            }
        }
        let same_username = ct_eq(expected, given);
        let same_password = ct_eq(
            self.password_blake2b.0.as_slice(),
            password_blake2b.as_slice(),
        );
        if same_username && same_password {
            Ok(())
        } else {
            Err(CredentialsVerificationError(()))
        }
    }
}

/// Whether a request may pass.
#[derive(Clone, Copy, Debug, PartialEq, Eq, Structural)]
pub enum Access {
    /// It may.
    Granted,
    /// It is answered with the status 401.
    Unauthorized,
}

/// Whether a request with this authorization may pass: where no credentials are configured, any
/// may; else the one with fitting username and password.
pub open spec fn access(
    basic_auth: Option<Credentials>,
    header: Option<(Seq<char>, Seq<char>)>,
) -> Access {
    match (basic_auth, header) {
        (None, _) => Access::Granted,
        (Some(expected), Some((username, password))) => if expected@ == credentials(
            username,
            password,
        ) {
            Access::Granted
        } else {
            Access::Unauthorized
        },
        (Some(_), None) => Access::Unauthorized,
    }
}

/// Credentials let pass who gives the username and password that they were made from, and nobody
/// who gives no authorization, another username, or a password with another hash.
pub proof fn lemma_credentials_fit(c: Credentials, username: Seq<char>, password: Seq<char>)
    requires
        c@ == credentials(username, password),
    ensures
        access(Some(c), Some((username, password))) == Access::Granted,
        access(Some(c), None) == Access::Unauthorized,
        forall|u: Seq<char>, p: Seq<char>|
            u != username || blake2b_hash(encode_utf8(p)) != blake2b_hash(encode_utf8(password))
                ==> #[trigger] access(Some(c), Some((u, p))) == Access::Unauthorized,
{
}

/// What the authorization of a request says: username and password.
pub open spec fn header_view(header: Option<(&str, &str)>) -> Option<(Seq<char>, Seq<char>)> {
    match header {
        Some((username, password)) => Some((username@, password@)),
        None => None,
    }
}

/// Decides whether a request may pass.
///
/// # Arguments
///
///  - `basic_auth`: The credentials that are configured, if any are.
///  - `header`: Username and password of the `Authorization` header, if it is there and is that of
///    basic auth.
pub fn basic_auth_middleware(
    basic_auth: &Option<Credentials>,
    header: Option<(&str, &str)>,
) -> (r: Access)
    ensures
        r == access(*basic_auth, header_view(header)),
{
    let expected = match basic_auth {
        Some(expected) => expected,
        // No basic auth is configured
        None => return Access::Granted,
    };
    let (username, password) = match header {
        Some(header) => header,
        // Basic auth is configured but Authorization header is not (correctly) provided
        None => return Access::Unauthorized,
    };
    match expected.verify(username, password) {
        // Everything checks out, access granted
        Ok(_) => Access::Granted,
        // Invalid username and/or password provided
        Err(_) => Access::Unauthorized,
    }
}

/// Custom reject reason when the authorization header is wrong or is not found.
#[derive(Debug, PartialEq, Eq)]
pub struct Unauthorized {
    /// The realm that the client is asked to authorize itself for.
    pub realm: String,
}

/// Why a request is rejected.
#[derive(Debug, PartialEq, Eq)]
pub enum Rejection {
    /// There is nothing at the path.
    NotFound,
    /// The authorization header is wrong or is not found.
    Unauthorized(Unauthorized),
    /// Anything else.
    Other,
}

/// The reply to a rejected request. Its body is empty.
#[derive(Debug, PartialEq, Eq)]
pub struct RejectionReply {
    /// The status.
    pub status: u16,
    /// The `WWW-Authenticate` header, if there is one.
    pub www_authenticate: Option<String>,
}

/// The status and the `WWW-Authenticate` header of the reply to a rejected request.
pub open spec fn rejection_reply(err: Rejection) -> (u16, Option<Seq<char>>) {
    match err {
        Rejection::NotFound => (404, None),
        Rejection::Unauthorized(error) => (
            401,
            Some("Basic realm = \""@ + error.realm@ + "\""@),
        ),
        Rejection::Other => (500, None),
    }
}

/// Handles a rejection, to return a 401 Unauthorized status where the authorization is at fault.
pub fn handle_auth_rejection(err: &Rejection) -> (r: RejectionReply)
    ensures
        match *err {
            Rejection::NotFound => r.status == 404 && r.www_authenticate is None,
            Rejection::Unauthorized(error) => r.status == 401 && (r.www_authenticate matches Some(h)
                && h@ == "Basic realm = \""@ + error.realm@ + "\""@),
            Rejection::Other => r.status == 500 && r.www_authenticate is None,
        },
        (r.status, crate::error::text_view(r.www_authenticate)) == rejection_reply(*err),
{
    match err {
        Rejection::NotFound => RejectionReply { status: 404, www_authenticate: None },
        Rejection::Unauthorized(error) => {
            let mut header = "Basic realm = \"".to_owned();
            header.append(error.realm.as_str());
            header.append("\"");
            RejectionReply { status: 401, www_authenticate: Some(header) }
        },
        Rejection::Other => RejectionReply { status: 500, www_authenticate: None },
    }
}

/// The authorization of a request, or the realm that the client is asked to authorize itself for.
pub open spec fn filtered<H>(realm: Seq<char>, header: Option<H>) -> Result<H, Seq<char>> {
    match header {
        Some(header) => Ok(header),
        None => Err(realm),
    }
}

/// Takes the HTTP basic authentication header of a request. If none was sent by the client, the
/// request is rejected.
pub fn basic_auth_filter<H>(realm: &str, header: Option<H>) -> (r: Result<H, Unauthorized>)
    ensures
        match header {
            Some(header) => r == Ok::<H, Unauthorized>(header),
            None => r matches Err(e) && e.realm@ == realm@,
        },
        match filtered(realm@, header) {
            Ok(h) => r == Ok::<H, Unauthorized>(h),
            Err(s) => r matches Err(e) && e.realm@ == s,
        },
{
    match header {
        Some(header) => Ok(header),
        None => Err(Unauthorized { realm: realm.to_owned() }),
    }
}

} // verus!
