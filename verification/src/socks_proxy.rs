//! SOCKS5 protocol core: the fixed reply framer, the two-phase handshake
//! (greeting and request) as pure functions over the bytes read so far, and
//! the per-connection plan the handler follows once the request is parsed
//! and classified. The caller reads from and writes to the client stream;
//! every protocol decision is made here.
use crate::host::{spec_dial_target, Host, HostSpec};
use crate::traffic_diversion::TrafficStreamRule;
use crate::types::{NodeInfo, ResponseCode};
use vstd::prelude::*;

verus! {

/// Version byte of SOCKS5.
pub const SOCKS_VERSION: u8 = 5;

/// Reserved byte in requests and replies.
pub const RESERVED: u8 = 0;

/// The fixed ten-byte reply: `VER REP RSV ATYP` followed by a zero
/// `BND.ADDR` and a zero `BND.PORT`. A forward proxy has no meaningful bound
/// address, so ATYP is IPv4 and the address and port are all zero.
pub open spec fn spec_socks_reply(status: ResponseCode) -> Seq<u8> {
    seq![5u8, status.spec_socks_rep(), 0u8, 1u8, 0u8, 0u8, 0u8, 0u8, 0u8, 0u8]
}

/// Reply frame sent to the SOCKS client, for errors and for the success
/// answer after a direct CONNECT.
pub struct SocksReply {
    buf: Vec<u8>,
}

impl View for SocksReply {
    type V = Seq<u8>;

    closed spec fn view(&self) -> Seq<u8> {
        self.buf@
    }
}

impl SocksReply {
    pub fn new(status: ResponseCode) -> (r: Self)
        ensures
            r@ == spec_socks_reply(status),
    {
        let mut buf: Vec<u8> = Vec::new();
        buf.push(SOCKS_VERSION);
        buf.push(status.socks_rep());
        buf.push(RESERVED);
        buf.push(1);
        buf.push(0);
        buf.push(0);
        buf.push(0);
        buf.push(0);
        buf.push(0);
        buf.push(0);
        assert(buf@ =~= spec_socks_reply(status));
        SocksReply { buf }
    }

    /// The framed bytes, ready to be written to the client stream.
    pub fn buf(&self) -> (b: &Vec<u8>)
        ensures
            b@ == self@,
    {
        &self.buf
    }
}

/// DST.ADDR variant types.
#[derive(Clone, Copy, Debug, PartialEq, Eq, Structural)]
pub enum AddrType {
    /// IPv4 address, wire code 1.
    V4,
    /// Domain name, wire code 3.
    Domain,
    /// IPv6 address, wire code 4.
    V6,
}

impl AddrType {
    /// Address type for a wire code.
    pub open spec fn spec_from(n: usize) -> Option<AddrType> {
        if n == 1 {
            Some(AddrType::V4)
        } else if n == 3 {
            Some(AddrType::Domain)
        } else if n == 4 {
            Some(AddrType::V6)
        } else {
            None
        }
    }

    /// Parse a wire code into an address type.
    pub fn from(n: usize) -> (r: Option<AddrType>)
        ensures
            r == Self::spec_from(n),
    {
        if n == 1 {
            Some(AddrType::V4)
        } else if n == 3 {
            Some(AddrType::Domain)
        } else if n == 4 {
            Some(AddrType::V6)
        } else {
            None
        }
    }
}

/// SOCKS5 command carried in the request frame.
#[derive(Clone, Copy, Debug, PartialEq, Eq, Structural)]
pub enum SockCommand {
    /// CONNECT, wire code 1. The only command served downstream.
    Connect,
    /// BIND, wire code 2. Parsed, then refused by the handler.
    Bind,
    /// UDP ASSOCIATE, wire code 3. Parsed, then refused by the handler.
    UdpAssociate,
}

impl SockCommand {
    /// Command for a wire code.
    pub open spec fn spec_from(n: usize) -> Option<SockCommand> {
        if n == 1 {
            Some(SockCommand::Connect)
        } else if n == 2 {
            Some(SockCommand::Bind)
        } else if n == 3 {
            Some(SockCommand::UdpAssociate)
        } else {
            None
        }
    }

    /// Parse a wire code into a command.
    pub fn from(n: usize) -> (r: Option<SockCommand>)
        ensures
            r == Self::spec_from(n),
    {
        if n == 1 {
            Some(SockCommand::Connect)
        } else if n == 2 {
            Some(SockCommand::Bind)
        } else if n == 3 {
            Some(SockCommand::UdpAssociate)
        } else {
            None
        }
    }
}

/// Method-selection values this proxy uses.
#[derive(Clone, Copy, Debug, PartialEq, Eq, Structural)]
pub enum AuthMethod {
    /// No authentication, wire code 0.
    NoAuth,
    /// No acceptable method, wire code 255.
    NoMethod,
}

impl AuthMethod {
    /// The wire code of this method.
    pub open spec fn spec_code(self) -> u8 {
        match self {
            AuthMethod::NoAuth => 0x00,
            AuthMethod::NoMethod => 0xFF,
        }
    }

    pub fn code(&self) -> (c: u8)
        ensures
            c == self.spec_code(),
    {
        match self {
            AuthMethod::NoAuth => 0x00,
            AuthMethod::NoMethod => 0xFF,
        }
    }
}

/// Progress of the greeting (method negotiation) phase over the bytes read
/// so far.
#[derive(Clone, Copy, Debug, PartialEq, Eq, Structural)]
pub enum GreetingOutcome {
    /// This many more bytes must be read before the phase can finish.
    Need(usize),
    /// The version byte is not 5: shut the stream without a reply.
    BadVersion,
    /// No offered method is acceptable: reply `05 FF`, then shut.
    Refused,
    /// No-auth was offered: reply `05 00` and go on to the request phase.
    /// The greeting occupies this many bytes.
    Accepted(usize),
}

/// The greeting phase over the bytes read so far: two header bytes
/// `VER NMETHODS`, then NMETHODS method codes. The greeting is acceptable
/// exactly when the no-auth method (code 0) is among the offered ones.
pub open spec fn spec_greeting(s: Seq<u8>) -> GreetingOutcome {
    if s.len() < 2 {
        GreetingOutcome::Need((2 - s.len()) as usize)
    } else if s[0] != 5 {
        GreetingOutcome::BadVersion
    } else if s.len() < 2 + s[1] {
        GreetingOutcome::Need((2 + s[1] - s.len()) as usize)
    } else if s.subrange(2, 2 + s[1]).contains(0) {
        GreetingOutcome::Accepted((2 + s[1]) as usize)
    } else {
        GreetingOutcome::Refused
    }
}

/// Drive the greeting phase over the bytes read so far.
pub fn scan_greeting(buf: &Vec<u8>) -> (r: GreetingOutcome)
    ensures
        r == spec_greeting(buf@),
{
    let len = buf.len();
    if len < 2 {
        return GreetingOutcome::Need(2 - len);
    }
    if buf[0] != SOCKS_VERSION {
        return GreetingOutcome::BadVersion;
    }
    let n = buf[1] as usize;
    if len < 2 + n {
        return GreetingOutcome::Need(2 + n - len);
    }
    let mut i: usize = 2;
    while i < 2 + n
        invariant
            2 <= i <= 2 + n,
            buf@.len() >= 2 + n,
            n == buf@[1],
            buf@[0] == 5,
            forall|k: int| 2 <= k < i ==> buf@[k] != 0,
        decreases 2 + n - i,
    {
        if buf[i] == 0 {
            proof {
                assert(buf@.subrange(2, 2 + n as int)[i - 2] == 0);
            }
            return GreetingOutcome::Accepted(2 + n);
        }
        i = i + 1;
    }
    proof {
        assert forall|k: int| 0 <= k < n implies #[trigger] buf@.subrange(2, 2 + n as int)[k]
            != 0 by {
            assert(buf@.subrange(2, 2 + n as int)[k] == buf@[k + 2]);
        }
    }
    GreetingOutcome::Refused
}

/// Host carried in a DST.ADDR payload: four octets for IPv4, eight
/// big-endian 16-bit groups for IPv6, the raw label bytes for a domain.
pub open spec fn spec_addr_host(addr_type: AddrType, addr: Seq<u8>) -> HostSpec {
    match addr_type {
        AddrType::V4 => HostSpec::Ipv4 { a: addr[0], b: addr[1], c: addr[2], d: addr[3] },
        AddrType::V6 => HostSpec::Ipv6 {
            groups: Seq::new(8, |i: int| (addr[2 * i] * 256 + addr[2 * i + 1]) as u16),
        },
        AddrType::Domain => HostSpec::Domain { name: addr },
    }
}

/// Build the destination host out of a DST.ADDR payload.
pub fn addr_to_host(addr_type: &AddrType, addr: &[u8]) -> (h: Host)
    requires
        *addr_type is V4 ==> addr@.len() == 4,
        *addr_type is V6 ==> addr@.len() == 16,
    ensures
        h@ == spec_addr_host(*addr_type, addr@),
{
    match addr_type {
        AddrType::V4 => Host::Ipv4 { a: addr[0], b: addr[1], c: addr[2], d: addr[3] },
        AddrType::V6 => {
            let g0 = (addr[0] as u16) * 256 + (addr[1] as u16);
            let g1 = (addr[2] as u16) * 256 + (addr[3] as u16);
            let g2 = (addr[4] as u16) * 256 + (addr[5] as u16);
            let g3 = (addr[6] as u16) * 256 + (addr[7] as u16);
            let g4 = (addr[8] as u16) * 256 + (addr[9] as u16);
            let g5 = (addr[10] as u16) * 256 + (addr[11] as u16);
            let g6 = (addr[12] as u16) * 256 + (addr[13] as u16);
            let g7 = (addr[14] as u16) * 256 + (addr[15] as u16);
            let groups: [u16; 8] = [g0, g1, g2, g3, g4, g5, g6, g7];
            let h = Host::Ipv6 { groups };
            proof {
                assert(h@->groups =~= spec_addr_host(*addr_type, addr@)->groups);
            }
            h
        },
        AddrType::Domain => Host::Domain { name: vstd::slice::slice_to_vec(addr) },
    }
}

/// Bytes still missing before the request frame can be parsed, over the
/// bytes read so far: four header bytes `VER CMD RSV ATYP`, the address
/// payload that ATYP announces, and the two port bytes. Zero when the frame
/// is complete, and also when the header is already known bad.
pub open spec fn spec_request_needed(s: Seq<u8>) -> int {
    if s.len() < 4 {
        4 - s.len()
    } else if s[0] != 5 {
        0
    } else if s[1] != 1 && s[1] != 2 && s[1] != 3 {
        0
    } else if s[3] == 1 {
        if s.len() < 10 {
            10 - s.len()
        } else {
            0
        }
    } else if s[3] == 4 {
        if s.len() < 22 {
            22 - s.len()
        } else {
            0
        }
    } else if s[3] == 3 {
        if s.len() < 5 {
            5 - s.len()
        } else if s.len() < 7 + s[4] {
            7 + s[4] - s.len()
        } else {
            0
        }
    } else {
        0
    }
}

/// Number of bytes a complete, well-headed request frame occupies.
pub open spec fn spec_request_len(s: Seq<u8>) -> int
    recommends
        s.len() >= 5,
{
    if s[3] == 1 {
        10
    } else if s[3] == 4 {
        22
    } else {
        7 + s[4]
    }
}

/// Mathematical image of a parsed SOCKS request.
#[verifier::ext_equal]
pub struct SocksReqSpec {
    pub version: u8,
    pub command: SockCommand,
    pub host: HostSpec,
    pub port: u16,
    pub readed_buffer: Seq<u8>,
}

/// Parse of a complete request frame. `g` is the greeting captured in phase
/// one; the record keeps it, together with the request octets, so the
/// handler can replay the whole negotiation to an upstream node.
pub open spec fn spec_parse_request(g: Seq<u8>, s: Seq<u8>) -> Result<SocksReqSpec, ResponseCode>
    recommends
        spec_request_needed(s) == 0,
{
    if s[0] != 5 {
        Err(ResponseCode::GeneralFailure)
    } else if s[1] != 1 && s[1] != 2 && s[1] != 3 {
        Err(ResponseCode::CommandNotSupported)
    } else if s[3] != 1 && s[3] != 3 && s[3] != 4 {
        Err(ResponseCode::AddrTypeNotSupported)
    } else {
        let n = spec_request_len(s);
        let atyp = if s[3] == 1 {
            AddrType::V4
        } else if s[3] == 4 {
            AddrType::V6
        } else {
            AddrType::Domain
        };
        let addr = if s[3] == 3 {
            s.subrange(5, n - 2)
        } else {
            s.subrange(4, n - 2)
        };
        Ok(
            SocksReqSpec {
                version: 5,
                command: SockCommand::spec_from(s[1] as usize)->Some_0,
                host: spec_addr_host(atyp, addr),
                port: (s[n - 2] * 256 + s[n - 1]) as u16,
                readed_buffer: g + s.subrange(0, n),
            },
        )
    }
}

/// One parsed SOCKS request: protocol version, command, destination, and the
/// exact greeting and request octets consumed from the client.
#[derive(Debug, PartialEq, Eq)]
pub struct SOCKSReq {
    pub version: u8,
    pub command: SockCommand,
    pub host: Host,
    pub port: u16,
    pub readed_buffer: Vec<u8>,
}

impl View for SOCKSReq {
    type V = SocksReqSpec;

    open spec fn view(&self) -> SocksReqSpec {
        SocksReqSpec {
            version: self.version,
            command: self.command,
            host: self.host@,
            port: self.port,
            readed_buffer: self.readed_buffer@,
        }
    }
}

/// Step result of driving the request phase.
#[derive(Debug, PartialEq, Eq)]
pub enum RequestStep {
    /// This many more bytes must be read before the frame can be parsed.
    Need(usize),
    /// The request parsed.
    Done(SOCKSReq),
    /// The frame is invalid: answer with this code, then shut the stream.
    Reject(ResponseCode),
}

impl SOCKSReq {
    /// Drive the request phase over `request`, the bytes read so far after
    /// the greeting; `greeting` is the whole greeting captured in phase one.
    pub fn parse_step(greeting: &Vec<u8>, request: &Vec<u8>) -> (r: RequestStep)
        ensures
            spec_request_needed(request@) > 0 ==> r == RequestStep::Need(
                spec_request_needed(request@) as usize,
            ),
            spec_request_needed(request@) == 0 ==> match spec_parse_request(
                greeting@,
                request@,
            ) {
                Ok(m) => r matches RequestStep::Done(req) && req@ == m,
                Err(code) => r == RequestStep::Reject(code),
            },
    {
        let len = request.len();
        if len < 4 {
            return RequestStep::Need(4 - len);
        }
        if request[0] != SOCKS_VERSION {
            return RequestStep::Reject(ResponseCode::GeneralFailure);
        }
        let cmdb = request[1];
        if !(cmdb == 1 || cmdb == 2 || cmdb == 3) {
            return RequestStep::Reject(ResponseCode::CommandNotSupported);
        }
        let atypb = request[3];
        if atypb == 1 {
            if len < 10 {
                return RequestStep::Need(10 - len);
            }
        } else if atypb == 4 {
            if len < 22 {
                return RequestStep::Need(22 - len);
            }
        } else if atypb == 3 {
            if len < 5 {
                return RequestStep::Need(5 - len);
            }
            let dlen = request[4] as usize;
            if len < 7 + dlen {
                return RequestStep::Need(7 + dlen - len);
            }
        } else {
            return RequestStep::Reject(ResponseCode::AddrTypeNotSupported);
        }
        let total: usize = if atypb == 1 {
            10
        } else if atypb == 4 {
            22
        } else {
            7 + request[4] as usize
        };
        let atyp = if atypb == 1 {
            AddrType::V4
        } else if atypb == 4 {
            AddrType::V6
        } else {
            AddrType::Domain
        };
        let addr: &[u8] = if atypb == 3 {
            vstd::slice::slice_subrange(request.as_slice(), 5, total - 2)
        } else {
            vstd::slice::slice_subrange(request.as_slice(), 4, total - 2)
        };
        let host = addr_to_host(&atyp, addr);
        let port = (request[total - 2] as u16) * 256 + (request[total - 1] as u16);
        let command = if cmdb == 1 {
            SockCommand::Connect
        } else if cmdb == 2 {
            SockCommand::Bind
        } else {
            SockCommand::UdpAssociate
        };
        let mut readed_buffer = vstd::slice::slice_to_vec(greeting.as_slice());
        let mut request_part = vstd::slice::slice_to_vec(
            vstd::slice::slice_subrange(request.as_slice(), 0, total),
        );
        readed_buffer.append(&mut request_part);
        let req = SOCKSReq { version: SOCKS_VERSION, command, host, port, readed_buffer };
        proof {
            let m = spec_parse_request(greeting@, request@)->Ok_0;
            assert(req@.readed_buffer =~= m.readed_buffer);
            assert(req@ =~~= m);
        }
        RequestStep::Done(req)
    }
}

/// Round trip: a record produced by the parser serializes as its captured
/// bytes, and those bytes, split at the greeting boundary that they
/// themselves announce and parsed again, give back a structurally equal
/// record.
pub proof fn lemma_socks_round_trip(g: Seq<u8>, s: Seq<u8>)
    requires
        g.len() <= usize::MAX,
        spec_greeting(g) == GreetingOutcome::Accepted(g.len() as usize),
        spec_request_needed(s) == 0,
        spec_parse_request(g, s) is Ok,
    ensures
        ({
            let req = spec_parse_request(g, s)->Ok_0;
            let raw = req.readed_buffer;
            let cut = 2 + raw[1] as int;
            &&& raw.len() >= 2
            &&& cut == g.len()
            &&& spec_greeting(raw.subrange(0, cut)) == GreetingOutcome::Accepted(g.len() as usize)
            &&& spec_request_needed(raw.subrange(cut, raw.len() as int)) == 0
            &&& spec_parse_request(
                raw.subrange(0, cut),
                raw.subrange(cut, raw.len() as int),
            ) == spec_parse_request(g, s)
        }),
{
    let req = spec_parse_request(g, s)->Ok_0;
    let raw = req.readed_buffer;
    let n = spec_request_len(s);
    assert(raw =~= g + s.subrange(0, n));
    assert(g.len() == 2 + g[1]);
    let cut = 2 + raw[1] as int;
    assert(raw[1] == g[1]);
    let g2 = raw.subrange(0, cut);
    let s2 = raw.subrange(cut, raw.len() as int);
    assert(g2 =~= g);
    assert(s2 =~= s.subrange(0, n));
    assert(s2.len() == n);
    assert(spec_request_needed(s2) == 0);
    assert(spec_request_len(s2) == n);
    let m2 = spec_parse_request(g2, s2)->Ok_0;
    assert(s2.subrange(0, n) =~= s2);
    if s[3] == 3 {
        assert(s2.subrange(5, n - 2) =~= s.subrange(5, n - 2));
    } else {
        assert(s2.subrange(4, n - 2) =~= s.subrange(4, n - 2));
    }
    assert(m2.host == req.host) by {
        if s[3] == 4 {
            assert(m2.host->groups =~= req.host->groups);
        }
    }
    assert(m2.readed_buffer =~= req.readed_buffer);
    assert(m2 =~~= req);
}

/// What the SOCKS handler does, once the request is parsed and the
/// destination classified.
#[derive(Debug, PartialEq, Eq)]
pub struct SocksPlan {
    /// The `host:port` text to dial.
    pub dial_addr: Vec<u8>,
    /// Reply owed to the client right after the dial succeeds.
    pub client_reply: Vec<u8>,
    /// Captured greeting and request bytes to replay to the upstream node.
    pub target_preamble: Vec<u8>,
    /// Whether a two-byte method-selection answer from the upstream node
    /// must be read and discarded before the relay starts.
    pub discard_upstream_ack: bool,
}

/// Verdict of the SOCKS handler for one parsed request.
#[derive(Debug, PartialEq, Eq)]
pub enum SocksDecision {
    /// The command is not CONNECT: answer with this code, then shut.
    Refuse(ResponseCode),
    /// The rule said reject: shut the client with no outbound I/O and report
    /// zero bytes transferred.
    Drop,
    /// Dial and relay.
    Go(SocksPlan),
}

/// Decide what to do with one parsed SOCKS request. Only CONNECT is served;
/// a rejected destination causes no outbound dial; a direct connection is
/// answered with the success reply once the dial went through; a proxied
/// connection replays the captured negotiation to the chosen node and
/// swallows that node's own two-byte method answer before relaying.
pub fn plan_socks(req: &SOCKSReq, rule: TrafficStreamRule, node: Option<&NodeInfo>) -> (d:
    SocksDecision)
    requires
        req.command is Connect && rule is Proxy ==> node is Some,
    ensures
        !(req.command is Connect) ==> d == SocksDecision::Refuse(
            ResponseCode::CommandNotSupported,
        ),
        req.command is Connect && rule is Reject ==> d == SocksDecision::Drop,
        req.command is Connect && rule is Direct ==> (d matches SocksDecision::Go(p)
            && p.dial_addr@ == spec_dial_target(req.host@, req.port) && p.client_reply@
            == spec_socks_reply(ResponseCode::Success) && p.target_preamble@ == Seq::<u8>::empty()
            && !p.discard_upstream_ack),
        req.command is Connect && rule is Proxy ==> (node matches Some(nd) && (d
            matches SocksDecision::Go(p) && p.dial_addr@ == nd.socket_addr@ && p.client_reply@
            == Seq::<u8>::empty() && p.target_preamble@ == req.readed_buffer@
            && p.discard_upstream_ack)),
{
    match req.command {
        SockCommand::Connect => {},
        SockCommand::Bind => {
            return SocksDecision::Refuse(ResponseCode::CommandNotSupported);
        },
        SockCommand::UdpAssociate => {
            return SocksDecision::Refuse(ResponseCode::CommandNotSupported);
        },
    }
    match rule {
        TrafficStreamRule::Reject => SocksDecision::Drop,
        TrafficStreamRule::Direct => {
            let reply = SocksReply::new(ResponseCode::Success);
            SocksDecision::Go(
                SocksPlan {
                    dial_addr: req.host.dial_target_bytes(req.port),
                    client_reply: vstd::slice::slice_to_vec(reply.buf().as_slice()),
                    target_preamble: Vec::new(),
                    discard_upstream_ack: false,
                },
            )
        },
        TrafficStreamRule::Proxy => {
            let nd = node.unwrap();
            SocksDecision::Go(
                SocksPlan {
                    dial_addr: vstd::slice::slice_to_vec(nd.socket_addr.as_slice()),
                    client_reply: Vec::new(),
                    target_preamble: vstd::slice::slice_to_vec(req.readed_buffer.as_slice()),
                    discard_upstream_ack: true,
                },
            )
        },
    }
}

/// Dial timeout the SOCKS handler applies, in milliseconds: the configured
/// one, or five hundred when none is configured.
pub fn effective_timeout_ms(configured: Option<u64>) -> (t: u64)
    ensures
        t == match configured {
            Some(ms) => ms,
            None => 500u64,
        },
{
    match configured {
        Some(ms) => ms,
        None => 500,
    }
}

/// Method-selection reply sent to the client after the greeting: `05 00`
/// when no-auth was offered, `05 FF` when nothing offered is acceptable.
pub fn method_selection_reply(accepted: bool) -> (v: Vec<u8>)
    ensures
        accepted ==> v@ == seq![5u8, 0u8],
        !accepted ==> v@ == seq![5u8, 255u8],
{
    let mut v: Vec<u8> = Vec::new();
    v.push(SOCKS_VERSION);
    if accepted {
        v.push(0x00);
        assert(v@ =~= seq![5u8, 0u8]);
    } else {
        v.push(0xFF);
        assert(v@ =~= seq![5u8, 255u8]);
    }
    v
}

} // verus!
