//! The configuration of a server, and which requests it lets pass.

use crate::auth::{access, basic_auth_middleware, header_view, Access, Credentials};
use crate::text::same;
use vstd::prelude::*;

verus! {

/// The address of a host.
#[derive(Clone, Copy, Debug, PartialEq, Eq, Structural)]
pub enum IpAddr {
    /// An IPv4 address.
    V4(u32),
    /// An IPv6 address.
    V6(u128),
}

/// The address of a host, and a port.
#[derive(Clone, Copy, Debug, PartialEq, Eq, Structural)]
pub struct SocketAddr {
    /// The address of the host.
    pub ip: IpAddr,
    /// The port.
    pub port: u16,
}

/// The largest body of a request that is accepted, in bytes: 1MB.
pub const BODY_LIMIT: usize = 1048576;

/// The content type of a response.
pub const CONTENT_TYPE: &'static str = "application/json";

/// The origins that Cross-Origin Resource Sharing allows.
#[derive(Debug, PartialEq, Eq)]
pub enum Origins {
    /// None was configured.
    Unset,
    /// Only these.
    List(Vec<String>),
    /// Every origin.
    Any,
}

/// CORS configuration
#[derive(Debug, PartialEq, Eq)]
pub struct Cors {
    /// The header that is allowed.
    pub header: &'static str,
    /// The method that is allowed.
    pub method: &'static str,
    /// The origins that are allowed.
    pub origins: Origins,
}

/// Whether a character may stand in the value of a header.
pub open spec fn header_char(c: char) -> bool {
    32 <= c as u32 && c as u32 != 127 || c == '\t'
}

/// Whether a text can be an allowed origin: it can be the value of a header, and is no wildcard.
pub open spec fn valid_origin(s: Seq<char>) -> bool {
    &&& s != "*"@
    &&& forall|i: int| 0 <= i < s.len() ==> header_char(#[trigger] s[i])
}

/// Whether all texts can be allowed origins.
pub open spec fn valid_origins(origins: Seq<&str>) -> bool {
    forall|i: int| 0 <= i < origins.len() ==> valid_origin((#[trigger] origins[i])@)
}

/// Tells whether a text can be an allowed origin.
pub fn is_valid_origin(s: &str) -> (r: bool)
    ensures
        r == valid_origin(s@),
{
    if same(s, "*") {
        return false;
    }
    let n: usize = s.unicode_len();
    let mut i: usize = 0;
    while i < n
        invariant
            i <= n == s@.len(),
            s@ != "*"@,
            forall|j: int| 0 <= j < i ==> header_char(#[trigger] s@[j]),
        decreases n - i,
    {
        let c = s.get_char(i);
        if !(' ' <= c && c != '\u{7f}' || c == '\t') {
            assert(!header_char(s@[i as int]));
            return false;
        }
        i = i + 1;
    }
    true
}

/// What the configured origins are: none, some, or every one.
pub open spec fn lists(o: Origins, texts: Seq<&str>) -> bool {
    o matches Origins::List(list) && list@.len() == texts.len() && forall|i: int|
        0 <= i < texts.len() ==> (#[trigger] list@[i])@ == texts[i]@
}

impl Cors {
    /// Create a new instance with `Content-Type` as mandatory header and `POST` as mandatory
    /// method.
    pub fn new() -> (r: Self)
        ensures
            r.header@ == "content-type"@,
            r.method@ == "POST"@,
            r.origins is Unset,
    {
        Cors { header: "content-type", method: "POST", origins: Origins::Unset }
    }

    /// Configure CORS to only allow specific origins.
    /// Note that multiple calls to this method will override any previous origin-related calls.
    pub fn with_origins(self, origins: Vec<&str>) -> (r: Self)
        requires
            valid_origins(origins@),
        ensures
            r.header == self.header,
            r.method == self.method,
            lists(r.origins, origins@),
    {
        let mut list: Vec<String> = Vec::new();
        for i in 0..origins.len()
            invariant
                list@.len() == i,
                forall|j: int| 0 <= j < i ==> (#[trigger] list@[j])@ == origins@[j]@,
        {
            list.push(origins[i].to_owned());
        }
        Cors { header: self.header, method: self.method, origins: Origins::List(list) }
    }

    /// Configure CORS to allow every origin. Also known as the `*` wildcard.
    /// Note that multiple calls to this method will override any previous origin-related calls.
    pub fn with_any_origin(self) -> (r: Self)
        ensures
            r.header == self.header,
            r.method == self.method,
            r.origins is Any,
    {
        Cors { header: self.header, method: self.method, origins: Origins::Any }
    }
}

impl Default for Cors {
    fn default() -> (r: Self)
        ensures
            r.header@ == "content-type"@,
            r.method@ == "POST"@,
            r.origins is Unset,
    {
        Self::new()
    }
}

/// The server configuration
pub struct Config {
    /// Bind server to specified hostname and port.
    pub bind_to: SocketAddr,
    /// Enable JSON-RPC over websocket at `/ws`.
    pub enable_websocket: bool,
    /// Allowed IPs. If `None`, all source IPs are allowed.
    pub ip_whitelist: Option<Vec<IpAddr>>,
    /// Username and password for HTTP basic authentication.
    pub basic_auth: Option<Credentials>,
    /// Cross-Origin Resource Sharing configuration
    pub cors: Option<Cors>,
}

impl Default for Config {
    fn default() -> (r: Self)
        ensures
            r.bind_to == (SocketAddr { ip: IpAddr::V4(0x7f000001), port: 8000 }),
            r.enable_websocket,
            r.ip_whitelist is None,
            r.basic_auth is None,
            r.cors is None,
    {
        Config {
            bind_to: SocketAddr { ip: IpAddr::V4(0x7f000001), port: 8000 },
            enable_websocket: true,
            ip_whitelist: None,
            basic_auth: None,
            cors: None,
        }
    }
}

/// What is served at a path.
#[derive(Clone, Copy, Debug, PartialEq, Eq, Structural)]
pub enum Endpoint {
    /// JSON-RPC over POST requests.
    Http,
    /// JSON-RPC over websocket.
    Websocket,
}

/// Whether requests from `ip` are allowed.
pub open spec fn ip_allowed(c: Config, ip: IpAddr) -> bool {
    match c.ip_whitelist {
        Some(list) => list@.contains(ip),
        None => true,
    }
}

/// What is served at `path`, if anything is.
pub open spec fn endpoint(c: Config, path: Seq<char>) -> Option<Endpoint> {
    if path == "/"@ {
        Some(Endpoint::Http)
    } else if path == "/ws"@ && c.enable_websocket {
        Some(Endpoint::Websocket)
    } else {
        None
    }
}

/// What a request reaches, or the status that it is answered with: 403 from an address that is not
/// allowed, 404 where nothing is served, 401 without the authorization that is asked for.
pub open spec fn routed(
    c: Config,
    ip: IpAddr,
    path: Seq<char>,
    header: Option<(Seq<char>, Seq<char>)>,
) -> Result<Endpoint, u16> {
    if !ip_allowed(c, ip) {
        Err(403)
    } else {
        match endpoint(c, path) {
            Some(e) => if access(c.basic_auth, header) is Granted {
                Ok(e)
            } else {
                Err(401)
            },
            None => Err(404),
        }
    }
}

/// Without a whitelist every address is allowed; with one, a request is answered with 403 just if
/// its address is not on it.
pub proof fn lemma_whitelist(
    c: Config,
    ip: IpAddr,
    path: Seq<char>,
    header: Option<(Seq<char>, Seq<char>)>,
)
    ensures
        routed(c, ip, path, header) == Err::<Endpoint, u16>(403) <==> (c.ip_whitelist matches Some(
            list,
        ) && !list@.contains(ip)),
{
}

/// The websocket endpoint is there just if it is enabled, and the other whether it is or not.
pub proof fn lemma_websocket_switch(c: Config, d: Config)
    requires
        c.enable_websocket,
        !d.enable_websocket,
    ensures
        endpoint(c, "/ws"@) == Some(Endpoint::Websocket),
        endpoint(d, "/ws"@) is None,
        endpoint(c, "/"@) == Some(Endpoint::Http),
        endpoint(d, "/"@) == Some(Endpoint::Http),
{
    reveal_strlit("/");
    reveal_strlit("/ws");
    assert("/"@.len() == 1 && "/ws"@.len() == 3);
}

impl Config {
    /// Whether requests from `ip` are allowed.
    pub fn allows_ip(&self, ip: IpAddr) -> (r: bool)
        ensures
            r == ip_allowed(*self, ip),
    {
        let list = match &self.ip_whitelist {
            Some(list) => list,
            None => return true,
        };
        for i in 0..list.len()
            invariant
                self.ip_whitelist == Some(*list),
                forall|j: int| 0 <= j < i ==> list@[j] != ip,
        {
            if list[i] == ip {
                assert(list@[i as int] == ip);
                return true;
            }
        }
        false
    }

    /// What is served at `path`, if anything is.
    pub fn endpoint(&self, path: &str) -> (r: Option<Endpoint>)
        ensures
            r == endpoint(*self, path@),
    {
        if same(path, "/") {
            Some(Endpoint::Http)
        } else if same(path, "/ws") && self.enable_websocket {
            Some(Endpoint::Websocket)
        } else {
            None
        }
    }

    /// Decides what a request reaches, or the status that it is answered with.
    ///
    /// # Arguments
    ///
    ///  - `ip`: The address that the request comes from.
    ///  - `path`: The path that is requested.
    ///  - `header`: Username and password of the `Authorization` header, if it is there and is
    ///    that of basic auth.
    pub fn route(&self, ip: IpAddr, path: &str, header: Option<(&str, &str)>) -> (r: Result<
        Endpoint,
        u16,
    >)
        ensures
            r == routed(*self, ip, path@, header_view(header)),
    {
        if !self.allows_ip(ip) {
            return Err(403);
        }
        match self.endpoint(path) {
            Some(e) => match basic_auth_middleware(&self.basic_auth, header) {
                Access::Granted => Ok(e),
                Access::Unauthorized => Err(401),
            },
            None => Err(404),
        }
    }
}

} // verus!
