//! HTTP proxy core: the error-reply framer, the request parser (request
//! line, version check, CONNECT handling, host and port derivation), and the
//! per-connection plan the handler follows once the request is classified.
//! The caller reads the header block from the client stream; every protocol
//! decision is made here.
use crate::host::{spec_dec, spec_dial_target, Host, HostSpec};
use crate::traffic_diversion::TrafficStreamRule;
use crate::types::{NodeInfo, ResponseCode};
use vstd::prelude::*;
use vstd::string::StringSliceAdditionalSpecFns;
use vstd::string::StrSliceExecFns;

verus! {

/// Error reply sent to the HTTP client: status line with the taxonomy code,
/// a plain-text content type, and the fixed body `Proxy Error`.
pub open spec fn spec_http_reply(status: ResponseCode) -> Seq<u8> {
    "HTTP/1.1 ".spec_bytes() + spec_dec(status.spec_http_code() as nat)
        + " Proxy Error\r\nContent-Type: text/plain\r\nContent-Length: 11\r\n\r\nProxy Error".spec_bytes()
}

/// Reply frame sent to the HTTP client when a connection fails.
pub struct HttpReply {
    buf: Vec<u8>,
}

impl View for HttpReply {
    type V = Seq<u8>;

    closed spec fn view(&self) -> Seq<u8> {
        self.buf@
    }
}

impl HttpReply {
    pub fn new(status: ResponseCode) -> (r: Self)
        ensures
            r@ == spec_http_reply(status),
    {
        let mut buf = "HTTP/1.1 ".as_bytes_vec();
        let mut code = crate::host::dec_u16(status.http_code());
        buf.append(&mut code);
        let mut rest =
            " Proxy Error\r\nContent-Type: text/plain\r\nContent-Length: 11\r\n\r\nProxy Error".as_bytes_vec();
        buf.append(&mut rest);
        assert(buf@ =~= spec_http_reply(status));
        HttpReply { buf }
    }

    /// The framed bytes, ready to be written to the client stream.
    pub fn buf(&self) -> (b: &Vec<u8>)
        ensures
            b@ == self@,
    {
        &self.buf
    }
}

/// Failure of the HTTP request parser.
#[derive(Clone, Copy, Debug, PartialEq, Eq, Structural)]
pub enum HttpParseError {
    /// The request line is malformed, the target does not parse as a URL, or
    /// the target has no host.
    InvalidRequest,
    /// The version token is neither `HTTP/1.0` nor `HTTP/1.1`.
    UnsupportedVersion,
}

impl HttpParseError {
    /// Reply code sent to the client for this failure.
    pub open spec fn spec_response_code(self) -> ResponseCode {
        ResponseCode::GeneralFailure
    }

    pub fn response_code(&self) -> (c: ResponseCode)
        ensures
            c == self.spec_response_code(),
    {
        ResponseCode::GeneralFailure
    }
}

/// Whitespace that separates request-line tokens.
pub open spec fn is_ws(b: u8) -> bool {
    b == 32 || b == 9 || b == 13 || b == 10
}

/// Index of the first line feed at or after `from`, if any.
pub open spec fn spec_find_nl(s: Seq<u8>, from: int) -> Option<int>
    recommends
        0 <= from,
    decreases s.len() - from,
{
    if from >= s.len() {
        None
    } else if s[from] == 10 {
        Some(from)
    } else {
        spec_find_nl(s, from + 1)
    }
}

/// Index of the first non-whitespace byte at or after `from` (the length
/// when there is none).
pub open spec fn spec_skip_ws(s: Seq<u8>, from: int) -> int
    recommends
        0 <= from,
    decreases s.len() - from,
{
    if from >= s.len() {
        s.len() as int
    } else if is_ws(s[from]) {
        spec_skip_ws(s, from + 1)
    } else {
        from
    }
}

/// Index of the first whitespace byte at or after `from` (the length when
/// there is none); with `from` at a token start, this is the token's end.
pub open spec fn spec_token_end(s: Seq<u8>, from: int) -> int
    recommends
        0 <= from,
    decreases s.len() - from,
{
    if from >= s.len() {
        s.len() as int
    } else if is_ws(s[from]) {
        from
    } else {
        spec_token_end(s, from + 1)
    }
}

/// Index of the first line feed at or after `from`, if any.
fn find_nl(s: &[u8], from: usize) -> (r: Option<usize>)
    requires
        from <= s@.len(),
    ensures
        match r {
            Some(j) => spec_find_nl(s@, from as int) == Some(j as int) && from <= j < s@.len(),
            None => spec_find_nl(s@, from as int) is None,
        },
{
    let n = s.len();
    let mut i = from;
    while i < n
        invariant
            from <= i <= n,
            n == s@.len(),
            spec_find_nl(s@, from as int) == spec_find_nl(s@, i as int),
        decreases n - i,
    {
        if s[i] == 10 {
            return Some(i);
        }
        i = i + 1;
    }
    None
}

/// Index of the first non-whitespace byte at or after `from`.
fn skip_ws(s: &[u8], from: usize) -> (j: usize)
    requires
        from <= s@.len(),
    ensures
        j as int == spec_skip_ws(s@, from as int),
        from <= j <= s@.len(),
{
    let n = s.len();
    let mut i = from;
    while i < n
        invariant
            from <= i <= n,
            n == s@.len(),
            spec_skip_ws(s@, from as int) == spec_skip_ws(s@, i as int),
        decreases n - i,
    {
        if !(s[i] == 32 || s[i] == 9 || s[i] == 13 || s[i] == 10) {
            return i;
        }
        i = i + 1;
    }
    n
}

/// Index of the first whitespace byte at or after `from`.
fn token_end(s: &[u8], from: usize) -> (j: usize)
    requires
        from <= s@.len(),
    ensures
        j as int == spec_token_end(s@, from as int),
        from <= j <= s@.len(),
{
    let n = s.len();
    let mut i = from;
    while i < n
        invariant
            from <= i <= n,
            n == s@.len(),
            spec_token_end(s@, from as int) == spec_token_end(s@, i as int),
        decreases n - i,
    {
        if s[i] == 32 || s[i] == 9 || s[i] == 13 || s[i] == 10 {
            return i;
        }
        i = i + 1;
    }
    n
}

/// Whether two byte strings hold the same bytes.
fn bytes_eq(a: &[u8], b: &[u8]) -> (r: bool)
    ensures
        r <==> a@ == b@,
{
    let n = a.len();
    if n != b.len() {
        assert(a@ !~= b@);
        return false;
    }
    let mut i: usize = 0;
    while i < n
        invariant
            i <= n,
            n == a@.len(),
            n == b@.len(),
            forall|k: int| 0 <= k < i ==> a@[k] == b@[k],
        decreases n - i,
    {
        if a[i] != b[i] {
            assert(a@ != b@);
            return false;
        }
        i = i + 1;
    }
    assert(a@ =~= b@);
    true
}

/// Host and explicit port that the URL parser reports for an absolute-form
/// target, written as UTF-8 bytes: `None` when the text does not parse as a
/// URL; otherwise the host (which can itself be absent, for host-less
/// schemes) and the port, absent when the text carries none or carries the
/// scheme's default.
pub uninterp spec fn url_target_of(s: Seq<u8>) -> Option<(Option<HostSpec>, Option<u16>)>;

/// Relies on url::Url::parse and on url::Url::{host, port}: the host and
/// the explicit port of an absolute-form URL are functions of its text
/// alone, and the port is reported as absent when it equals the scheme's
/// default.
#[verifier::external_body]
fn parse_target_url(s: &Vec<u8>) -> (r: Option<(Option<Host>, Option<u16>)>)
    ensures
        match r {
            None => url_target_of(s@) is None,
            Some((hopt, p)) => url_target_of(s@) matches Some((hs, ps)) && ps == p && match hopt {
                None => hs is None,
                Some(h) => hs == Some(h@),
            },
        },
{
    let url = url::Url::parse(std::str::from_utf8(s.as_slice()).ok()?).ok()?;
    let host = match url.host() {
        None => None,
        Some(url::Host::Domain(d)) => Some(Host::Domain { name: d.as_bytes().to_vec() }),
        Some(url::Host::Ipv4(a)) => {
            let o = a.octets();
            Some(Host::Ipv4 { a: o[0], b: o[1], c: o[2], d: o[3] })
        },
        Some(url::Host::Ipv6(a)) => Some(Host::Ipv6 { groups: a.segments() }),
    };
    Some((host, url.port()))
}

/// Mathematical image of a parsed HTTP request.
#[verifier::ext_equal]
pub struct HttpReqSpec {
    pub method: Seq<u8>,
    pub host: HostSpec,
    pub port: u16,
    pub readed_buffer: Seq<u8>,
    pub version: Seq<u8>,
}

/// Parse of a header block: the first line is split on whitespace into
/// method, target and version; the version must be `HTTP/1.0` or
/// `HTTP/1.1`; a CONNECT target gets an `http://` prefix so host and port
/// derivation is uniform; the port defaults to 80 when the URL carries
/// none; a target without a host is an error. The record keeps the whole
/// block exactly as read, for verbatim forwarding.
pub open spec fn spec_parse_http(s: Seq<u8>) -> Result<HttpReqSpec, HttpParseError> {
    match spec_find_nl(s, 0) {
        None => Err(HttpParseError::InvalidRequest),
        Some(nl) => {
            let line = s.subrange(0, nl + 1);
            let a0 = spec_skip_ws(line, 0);
            let b0 = spec_token_end(line, a0);
            let a1 = spec_skip_ws(line, b0);
            let b1 = spec_token_end(line, a1);
            let a2 = spec_skip_ws(line, b1);
            let b2 = spec_token_end(line, a2);
            if !(a0 < b0 && a1 < b1 && a2 < b2) {
                Err(HttpParseError::InvalidRequest)
            } else {
                let method = line.subrange(a0, b0);
                let path = line.subrange(a1, b1);
                let version = line.subrange(a2, b2);
                if version != "HTTP/1.1".spec_bytes() && version != "HTTP/1.0".spec_bytes() {
                    Err(HttpParseError::UnsupportedVersion)
                } else {
                    let target = if method == "CONNECT".spec_bytes() {
                        "http://".spec_bytes() + path
                    } else {
                        path
                    };
                    match url_target_of(target) {
                        None => Err(HttpParseError::InvalidRequest),
                        Some((None, _)) => Err(HttpParseError::InvalidRequest),
                        Some((Some(h), p)) => Ok(
                            HttpReqSpec {
                                method,
                                host: h,
                                port: match p {
                                    Some(q) => q,
                                    None => 80,
                                },
                                readed_buffer: s,
                                version,
                            },
                        ),
                    }
                }
            }
        },
    }
}

/// One parsed HTTP request: method, destination, and the exact header
/// octets consumed from the client.
#[derive(Debug, PartialEq, Eq)]
pub struct HttpReq {
    pub method: Vec<u8>,
    pub host: Host,
    pub port: u16,
    pub readed_buffer: Vec<u8>,
    pub version: Vec<u8>,
}

impl View for HttpReq {
    type V = HttpReqSpec;

    open spec fn view(&self) -> HttpReqSpec {
        HttpReqSpec {
            method: self.method@,
            host: self.host@,
            port: self.port,
            readed_buffer: self.readed_buffer@,
            version: self.version@,
        }
    }
}

impl HttpReq {
    /// Parse a header block read from the client.
    pub fn parse(buf: &Vec<u8>) -> (r: Result<HttpReq, HttpParseError>)
        ensures
            match r {
                Ok(req) => spec_parse_http(buf@) matches Ok(m) && req@ == m,
                Err(e) => spec_parse_http(buf@) == Err::<HttpReqSpec, HttpParseError>(e),
            },
    {
        let s = buf.as_slice();
        let blen = buf.len();
        assert(s@.len() == blen);
        let nl = match find_nl(s, 0) {
            None => {
                return Err(HttpParseError::InvalidRequest);
            },
            Some(j) => j,
        };
        let line = vstd::slice::slice_subrange(s, 0, nl + 1);
        let a0 = skip_ws(line, 0);
        let b0 = token_end(line, a0);
        let a1 = skip_ws(line, b0);
        let b1 = token_end(line, a1);
        let a2 = skip_ws(line, b1);
        let b2 = token_end(line, a2);
        if !(a0 < b0 && a1 < b1 && a2 < b2) {
            return Err(HttpParseError::InvalidRequest);
        }
        let method = vstd::slice::slice_subrange(line, a0, b0);
        let path = vstd::slice::slice_subrange(line, a1, b1);
        let version = vstd::slice::slice_subrange(line, a2, b2);
        if !(bytes_eq(version, "HTTP/1.1".as_bytes()) || bytes_eq(version, "HTTP/1.0".as_bytes())) {
            return Err(HttpParseError::UnsupportedVersion);
        }
        let is_connect = bytes_eq(method, "CONNECT".as_bytes());
        let mut target: Vec<u8> = if is_connect {
            "http://".as_bytes_vec()
        } else {
            Vec::new()
        };
        let mut path_bytes = vstd::slice::slice_to_vec(path);
        target.append(&mut path_bytes);
        proof {
            if is_connect {
                assert(target@ =~= "http://".spec_bytes() + line@.subrange(a1 as int, b1 as int));
            } else {
                assert(target@ =~= line@.subrange(a1 as int, b1 as int));
            }
        }
        match parse_target_url(&target) {
            None => Err(HttpParseError::InvalidRequest),
            Some((None, _)) => Err(HttpParseError::InvalidRequest),
            Some((Some(host), popt)) => {
                let port = match popt {
                    Some(q) => q,
                    None => 80,
                };
                let req = HttpReq {
                    method: vstd::slice::slice_to_vec(method),
                    host,
                    port,
                    readed_buffer: vstd::slice::slice_to_vec(s),
                    version: vstd::slice::slice_to_vec(version),
                };
                proof {
                    let m = spec_parse_http(buf@)->Ok_0;
                    assert(req@ =~~= m);
                }
                Ok(req)
            },
        }
    }
}

/// Reply written to the client after a successful direct CONNECT dial: the
/// client's own version token, then `200 Connection established` and an
/// empty header block.
pub open spec fn spec_established_reply(version: Seq<u8>) -> Seq<u8> {
    version + " 200 Connection established\r\n\r\n".spec_bytes()
}

/// Bytes written to the client after the dial succeeds: the CONNECT success
/// reply in a direct tunnel, nothing otherwise.
pub open spec fn spec_http_client_preamble(req: HttpReqSpec, rule: TrafficStreamRule) -> Seq<u8> {
    if rule is Direct && req.method == "CONNECT".spec_bytes() {
        spec_established_reply(req.version)
    } else {
        Seq::empty()
    }
}

/// Bytes written to the target before the relay starts: nothing in a direct
/// CONNECT tunnel (the client's subsequent bytes are the payload), the
/// captured header block verbatim in every other served mode.
pub open spec fn spec_http_target_preamble(req: HttpReqSpec, rule: TrafficStreamRule) -> Seq<u8> {
    if rule is Reject {
        Seq::empty()
    } else if rule is Direct && req.method == "CONNECT".spec_bytes() {
        Seq::empty()
    } else {
        req.readed_buffer
    }
}

/// Everything the target receives: the plan's target preamble, then the
/// client's own bytes, which the relay copies verbatim.
pub open spec fn spec_target_rx(target_preamble: Seq<u8>, client_payload: Seq<u8>) -> Seq<u8> {
    target_preamble + client_payload
}

/// After a successful direct CONNECT handshake the tunnel is transparent:
/// nothing precedes the client's bytes on the target stream, so the target
/// receives them verbatim and byte for byte.
pub proof fn lemma_connect_direct_tunnel_verbatim(req: HttpReqSpec, client_payload: Seq<u8>)
    requires
        req.method == "CONNECT".spec_bytes(),
    ensures
        spec_target_rx(
            spec_http_target_preamble(req, TrafficStreamRule::Direct),
            client_payload,
        ) == client_payload,
{
    assert(spec_target_rx(
        spec_http_target_preamble(req, TrafficStreamRule::Direct),
        client_payload,
    ) =~= client_payload);
}

/// What the HTTP handler does, once the request is parsed and the
/// destination classified.
#[derive(Debug, PartialEq, Eq)]
pub struct HttpPlan {
    /// The `host:port` text to dial; absent exactly when the rule said
    /// reject, which causes no outbound I/O at all.
    pub dial_addr: Option<Vec<u8>>,
    /// Bytes owed to the client right after the dial succeeds.
    pub client_preamble: Vec<u8>,
    /// Bytes owed to the target before the relay starts.
    pub target_preamble: Vec<u8>,
}

/// Decide what to do with one parsed HTTP request: a rejected destination
/// causes no outbound dial; a direct CONNECT answers the client and tunnels;
/// every other served mode forwards the captured header block verbatim.
pub fn plan_http(req: &HttpReq, rule: TrafficStreamRule, node: Option<&NodeInfo>) -> (p: HttpPlan)
    requires
        rule is Proxy ==> node is Some,
    ensures
        (p.dial_addr is None) <==> rule is Reject,
        rule is Direct ==> (p.dial_addr matches Some(a) && a@ == spec_dial_target(
            req.host@,
            req.port,
        )),
        rule is Proxy ==> (node matches Some(nd) && (p.dial_addr matches Some(a) && a@
            == nd.socket_addr@)),
        p.client_preamble@ == spec_http_client_preamble(req@, rule),
        p.target_preamble@ == spec_http_target_preamble(req@, rule),
{
    match rule {
        TrafficStreamRule::Reject => HttpPlan {
            dial_addr: None,
            client_preamble: Vec::new(),
            target_preamble: Vec::new(),
        },
        TrafficStreamRule::Direct => {
            if bytes_eq(req.method.as_slice(), "CONNECT".as_bytes()) {
                let mut reply = vstd::slice::slice_to_vec(req.version.as_slice());
                let mut tail = " 200 Connection established\r\n\r\n".as_bytes_vec();
                reply.append(&mut tail);
                HttpPlan {
                    dial_addr: Some(req.host.dial_target_bytes(req.port)),
                    client_preamble: reply,
                    target_preamble: Vec::new(),
                }
            } else {
                HttpPlan {
                    dial_addr: Some(req.host.dial_target_bytes(req.port)),
                    client_preamble: Vec::new(),
                    target_preamble: vstd::slice::slice_to_vec(req.readed_buffer.as_slice()),
                }
            }
        },
        TrafficStreamRule::Proxy => {
            let nd = node.unwrap();
            HttpPlan {
                dial_addr: Some(vstd::slice::slice_to_vec(nd.socket_addr.as_slice())),
                client_preamble: Vec::new(),
                target_preamble: vstd::slice::slice_to_vec(req.readed_buffer.as_slice()),
            }
        },
    }
}

/// A header line that is exactly CRLF starts at `p`: `p` is a line start
/// and carries a carriage return and a line feed.
pub open spec fn is_empty_line_at(s: Seq<u8>, p: int) -> bool {
    &&& 0 <= p
    &&& p + 2 <= s.len()
    &&& (p == 0 || s[p - 1] == 10)
    &&& s[p] == 13
    &&& s[p + 1] == 10
}

/// Length of the complete header block, if the bytes read so far hold one:
/// everything up to and including the first header line that is exactly
/// CRLF. The caller reads more bytes until this returns a length, then
/// hands the block to the parser.
pub fn headers_end(buf: &Vec<u8>) -> (r: Option<usize>)
    ensures
        match r {
            Some(e) => 2 <= e <= buf@.len() && is_empty_line_at(buf@, e - 2) && forall|p: int|
                0 <= p < e - 2 ==> !is_empty_line_at(buf@, p),
            None => forall|p: int| !is_empty_line_at(buf@, p),
        },
{
    let n = buf.len();
    if n < 2 {
        return None;
    }
    let mut i: usize = 0;
    while i <= n - 2
        invariant
            2 <= n,
            i <= n - 1,
            n == buf@.len(),
            forall|p: int| 0 <= p < i ==> !is_empty_line_at(buf@, p),
        decreases n - i,
    {
        if buf[i] == 13 && buf[i + 1] == 10 && (i == 0 || buf[i - 1] == 10) {
            return Some(i + 2);
        }
        i = i + 1;
    }
    assert forall|p: int| !is_empty_line_at(buf@, p) by {
        if 0 <= p && p + 2 <= n {
            assert(p < i);
        }
    }
    None
}

/// Dial timeout the HTTP handler applies, in milliseconds: the configured
/// one, or one thousand when none is configured.
pub fn effective_timeout_ms(configured: Option<u64>) -> (t: u64)
    ensures
        t == match configured {
            Some(ms) => ms,
            None => 1000u64,
        },
{
    match configured {
        Some(ms) => ms,
        None => 1000,
    }
}

/// Configuration and serving state of the HTTP listener. The listener state
/// machine only moves forward: created, then serving, then stopped; a
/// stopped listener is not restarted.
pub struct HttpProxy {
    ip: String,
    port: u16,
    timeout_ms: Option<u64>,
    is_serve: bool,
}

impl HttpProxy {
    /// The configured listening address text.
    pub closed spec fn spec_ip(self) -> Seq<char> {
        self.ip@
    }

    /// The configured listening port.
    pub closed spec fn spec_port(self) -> u16 {
        self.port
    }

    /// The configured dial timeout, in milliseconds.
    pub closed spec fn spec_timeout_ms(self) -> Option<u64> {
        self.timeout_ms
    }

    /// Whether the accept loop has been started.
    pub closed spec fn spec_is_serving(self) -> bool {
        self.is_serve
    }

    /// Describe a listener on `ip:port` with an optional dial timeout, in
    /// milliseconds. Nothing is bound yet and nothing is served yet.
    pub fn new(ip: &str, port: u16, timeout_ms: Option<u64>) -> (p: Self)
        ensures
            p.spec_ip() == ip@,
            p.spec_port() == port,
            p.spec_timeout_ms() == timeout_ms,
            !p.spec_is_serving(),
    {
        HttpProxy { ip: ip.to_owned(), port, timeout_ms, is_serve: false }
    }

    /// The configured listening address text.
    pub fn ip(&self) -> (r: &String)
        ensures
            r@ == self.spec_ip(),
    {
        &self.ip
    }

    /// The configured listening port.
    pub fn port(&self) -> (r: u16)
        ensures
            r == self.spec_port(),
    {
        self.port
    }

    /// The configured dial timeout, in milliseconds.
    pub fn timeout_ms(&self) -> (r: Option<u64>)
        ensures
            r == self.spec_timeout_ms(),
    {
        self.timeout_ms
    }

    /// Record that the accept loop is running.
    pub fn begin_serve(&mut self)
        ensures
            final(self).spec_is_serving(),
            final(self).spec_ip() == old(self).spec_ip(),
            final(self).spec_port() == old(self).spec_port(),
            final(self).spec_timeout_ms() == old(self).spec_timeout_ms(),
    {
        self.is_serve = true;
    }

    /// Whether the accept loop has been started.
    pub fn is_serving(&self) -> (r: bool)
        ensures
            r == self.spec_is_serving(),
    {
        self.is_serve
    }
}

} // verus!
