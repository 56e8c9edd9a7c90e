//! Shared value types of the proxy core: the reply taxonomy, the error type
//! carried between parsers and handlers, the classification of outbound dial
//! failures, and the settlement of a finished relay.
use vstd::multiset::Multiset;
use vstd::prelude::*;

verus! {

/// Reply taxonomy shared by the HTTP and the SOCKS framer. Each variant has a
/// decimal status for HTTP error replies and a one-byte REP field for SOCKS
/// replies.
#[derive(Clone, Copy, Debug, PartialEq, Eq, Structural)]
pub enum ResponseCode {
    Success,
    GeneralFailure,
    ConnectionNotAllowed,
    NetworkUnreachable,
    HostUnreachable,
    ConnectionRefused,
    TtlExpired,
    CommandNotSupported,
    AddrTypeNotSupported,
}

impl ResponseCode {
    /// Status code placed in the HTTP error reply built for this variant.
    pub open spec fn spec_http_code(self) -> u16 {
        match self {
            ResponseCode::Success => 200,
            ResponseCode::GeneralFailure => 500,
            ResponseCode::ConnectionNotAllowed => 403,
            ResponseCode::NetworkUnreachable => 502,
            ResponseCode::HostUnreachable => 502,
            ResponseCode::ConnectionRefused => 502,
            ResponseCode::TtlExpired => 502,
            ResponseCode::CommandNotSupported => 502,
            ResponseCode::AddrTypeNotSupported => 502,
        }
    }

    /// REP byte placed in the SOCKS reply built for this variant.
    pub open spec fn spec_socks_rep(self) -> u8 {
        match self {
            ResponseCode::Success => 0x00,
            ResponseCode::GeneralFailure => 0x01,
            ResponseCode::ConnectionNotAllowed => 0x02,
            ResponseCode::NetworkUnreachable => 0x03,
            ResponseCode::HostUnreachable => 0x04,
            ResponseCode::ConnectionRefused => 0x05,
            ResponseCode::TtlExpired => 0x06,
            ResponseCode::CommandNotSupported => 0x07,
            ResponseCode::AddrTypeNotSupported => 0x08,
        }
    }

    pub fn http_code(&self) -> (c: u16)
        ensures
            c == self.spec_http_code(),
    {
        match self {
            ResponseCode::Success => 200,
            ResponseCode::GeneralFailure => 500,
            ResponseCode::ConnectionNotAllowed => 403,
            ResponseCode::NetworkUnreachable => 502,
            ResponseCode::HostUnreachable => 502,
            ResponseCode::ConnectionRefused => 502,
            ResponseCode::TtlExpired => 502,
            ResponseCode::CommandNotSupported => 502,
            ResponseCode::AddrTypeNotSupported => 502,
        }
    }

    pub fn socks_rep(&self) -> (r: u8)
        ensures
            r == self.spec_socks_rep(),
    {
        match self {
            ResponseCode::Success => 0x00,
            ResponseCode::GeneralFailure => 0x01,
            ResponseCode::ConnectionNotAllowed => 0x02,
            ResponseCode::NetworkUnreachable => 0x03,
            ResponseCode::HostUnreachable => 0x04,
            ResponseCode::ConnectionRefused => 0x05,
            ResponseCode::TtlExpired => 0x06,
            ResponseCode::CommandNotSupported => 0x07,
            ResponseCode::AddrTypeNotSupported => 0x08,
        }
    }
}

/// How a failed stream operation is classified by the caller that observed
/// it. Only the distinction that the relay policy needs is kept: a peer that
/// was already gone when the relay wound down, against everything else.
#[derive(Clone, Copy, Debug, PartialEq, Eq, Structural)]
pub enum StreamErrorKind {
    NotConnected,
    Other,
}

/// Error carried from a parser or a dial step to the handler that must answer
/// the client.
#[derive(Clone, Copy, Debug, PartialEq, Eq, Structural)]
pub enum KittyProxyError {
    Proxy(ResponseCode),
    Io(StreamErrorKind),
}

impl KittyProxyError {
    /// Reply code that the handler sends to the client for this error.
    pub open spec fn spec_response_code(self) -> ResponseCode {
        match self {
            KittyProxyError::Proxy(code) => code,
            KittyProxyError::Io(_) => ResponseCode::GeneralFailure,
        }
    }

    pub fn response_code(&self) -> (c: ResponseCode)
        ensures
            c == self.spec_response_code(),
    {
        match self {
            KittyProxyError::Proxy(code) => *code,
            KittyProxyError::Io(_) => ResponseCode::GeneralFailure,
        }
    }
}

/// Outcome of an outbound dial attempt, as observed at the socket boundary.
#[derive(Clone, Copy, Debug, PartialEq, Eq, Structural)]
pub enum DialError {
    /// The dial did not finish within the configured timeout.
    TimedOut,
    /// The peer refused the connection.
    Refused,
    /// No route to the network.
    NoRoute,
    /// The host exists but is unreachable.
    HostDown,
    /// Any other failure.
    Other,
}

/// Reply code owed to the client when an outbound dial fails. A timeout is
/// reported exactly as a refused connection.
pub open spec fn spec_dial_error_code(e: DialError) -> ResponseCode {
    match e {
        DialError::TimedOut => ResponseCode::ConnectionRefused,
        DialError::Refused => ResponseCode::ConnectionRefused,
        DialError::NoRoute => ResponseCode::NetworkUnreachable,
        DialError::HostDown => ResponseCode::HostUnreachable,
        DialError::Other => ResponseCode::GeneralFailure,
    }
}

pub fn dial_error_code(e: DialError) -> (c: ResponseCode)
    ensures
        c == spec_dial_error_code(e),
{
    match e {
        DialError::TimedOut => ResponseCode::ConnectionRefused,
        DialError::Refused => ResponseCode::ConnectionRefused,
        DialError::NoRoute => ResponseCode::NetworkUnreachable,
        DialError::HostDown => ResponseCode::HostUnreachable,
        DialError::Other => ResponseCode::GeneralFailure,
    }
}

/// What the full-duplex relay reported when it returned.
#[derive(Clone, Copy, Debug, PartialEq, Eq, Structural)]
pub enum RelayOutcome {
    /// Both directions wound down; bytes copied client-to-target and
    /// target-to-client.
    Done { sent: usize, received: usize },
    /// One direction failed with the given kind of error.
    Failed(StreamErrorKind),
}

/// Value a handler returns for a finished relay: the target-to-client byte
/// count on a clean close, a clean zero when the peer was already gone while
/// winding down, and an error for every other failure.
pub open spec fn spec_settle_relay(o: RelayOutcome) -> Result<usize, KittyProxyError> {
    match o {
        RelayOutcome::Done { sent, received } => Ok(received),
        RelayOutcome::Failed(StreamErrorKind::NotConnected) => Ok(0),
        RelayOutcome::Failed(kind) => Err(KittyProxyError::Io(kind)),
    }
}

pub fn settle_relay(o: RelayOutcome) -> (r: Result<usize, KittyProxyError>)
    ensures
        r == spec_settle_relay(o),
{
    match o {
        RelayOutcome::Done { sent: _, received } => Ok(received),
        RelayOutcome::Failed(StreamErrorKind::NotConnected) => Ok(0),
        RelayOutcome::Failed(kind) => Err(KittyProxyError::Io(kind)),
    }
}

/// Mathematical image of a `NodeInfo`.
pub struct NodeInfoSpec {
    pub id: u64,
    pub socket_addr: Seq<u8>,
}

/// One configured upstream proxy node: an identifier and the `host:port`
/// text of its listening address, immutable after configuration.
#[derive(Debug, Clone, PartialEq, Eq)]
pub struct NodeInfo {
    pub id: u64,
    pub socket_addr: Vec<u8>,
}

impl View for NodeInfo {
    type V = NodeInfoSpec;

    open spec fn view(&self) -> NodeInfoSpec {
        NodeInfoSpec { id: self.id, socket_addr: self.socket_addr@ }
    }
}

impl NodeInfo {
    /// A copy of this node description.
    pub fn duplicate(&self) -> (n: NodeInfo)
        ensures
            n@ == self@,
    {
        NodeInfo {
            id: self.id,
            socket_addr: vstd::slice::slice_to_vec(self.socket_addr.as_slice()),
        }
    }
}

/// Per-node concurrent-connection counters for the configured upstream
/// nodes. The pool is shared by every handler task; a proxied connection
/// raises its chosen node's counter before the outbound dial and lowers it
/// exactly once when its relay terminates, whatever the outcome.
pub struct NodeStatistics {
    nodes: Vec<NodeInfo>,
    counts: Vec<u64>,
}

impl NodeStatistics {
    /// The configured nodes, in configured order.
    pub closed spec fn spec_nodes(self) -> Seq<NodeInfoSpec> {
        self.nodes@.map_values(|n: NodeInfo| n@)
    }

    /// The per-node counters, in configured order.
    pub closed spec fn spec_counts(self) -> Seq<u64> {
        self.counts@
    }

    /// Number of configured nodes.
    pub open spec fn node_count(self) -> nat {
        self.spec_nodes().len()
    }

    /// Well-formed pool: one counter per node, node identifiers distinct.
    pub open spec fn wf(self) -> bool {
        &&& self.spec_counts().len() == self.spec_nodes().len()
        &&& forall|i: int, j: int|
            #![trigger self.spec_nodes()[i], self.spec_nodes()[j]]
            0 <= i < j < self.spec_nodes().len() ==> self.spec_nodes()[i].id
                != self.spec_nodes()[j].id
    }

    /// Whether some configured node carries this identifier.
    pub open spec fn spec_has_id(self, id: u64) -> bool {
        exists|i: int|
            0 <= i < self.spec_nodes().len() && #[trigger] self.spec_nodes()[i].id == id
    }

    /// Index of the node carrying this identifier.
    pub open spec fn spec_index_of(self, id: u64) -> int {
        choose|i: int|
            0 <= i < self.spec_nodes().len() && #[trigger] self.spec_nodes()[i].id == id
    }

    /// Counter of the node carrying this identifier.
    pub open spec fn count_of(self, id: u64) -> u64 {
        self.spec_counts()[self.spec_index_of(id)]
    }

    /// `i` is the first index whose counter is minimal over the whole pool.
    pub open spec fn is_least_loaded_index(self, i: int) -> bool {
        &&& 0 <= i < self.node_count()
        &&& forall|j: int|
            0 <= j < self.node_count() ==> self.spec_counts()[i] <= #[trigger] self.spec_counts()[j]
        &&& forall|j: int| 0 <= j < i ==> self.spec_counts()[i] < #[trigger] self.spec_counts()[j]
    }

    /// Two indices carrying the same identifier are the same index.
    pub proof fn lemma_id_index_unique(self, i: int, j: int)
        requires
            self.wf(),
            0 <= i < self.node_count(),
            0 <= j < self.node_count(),
            self.spec_nodes()[i].id == self.spec_nodes()[j].id,
        ensures
            i == j,
    {
        if i < j {
            assert(self.spec_nodes()[i].id != self.spec_nodes()[j].id);
        }
        if j < i {
            assert(self.spec_nodes()[j].id != self.spec_nodes()[i].id);
        }
    }

    /// Build the pool over the configured nodes, every counter zero.
    pub fn from_vec(nodes: Vec<NodeInfo>) -> (s: NodeStatistics)
        requires
            forall|i: int, j: int|
                #![trigger nodes@[i], nodes@[j]]
                0 <= i < j < nodes@.len() ==> nodes@[i].id != nodes@[j].id,
        ensures
            s.wf(),
            s.spec_nodes() == nodes@.map_values(|n: NodeInfo| n@),
            s.spec_counts() == Seq::new(nodes@.len(), |i: int| 0u64),
    {
        let n = nodes.len();
        let mut counts: Vec<u64> = Vec::new();
        let mut i: usize = 0;
        while i < n
            invariant
                i <= n,
                counts@ == Seq::new(i as nat, |k: int| 0u64),
            decreases n - i,
        {
            counts.push(0);
            assert(counts@ =~= Seq::new((i + 1) as nat, |k: int| 0u64));
            i = i + 1;
        }
        let s = NodeStatistics { nodes, counts };
        assert forall|a: int, b: int|
            #![trigger s.spec_nodes()[a], s.spec_nodes()[b]]
            0 <= a < b < s.spec_nodes().len() implies s.spec_nodes()[a].id
            != s.spec_nodes()[b].id by {
            assert(s.spec_nodes()[a] == s.nodes@[a]@);
            assert(s.spec_nodes()[b] == s.nodes@[b]@);
        }
        s
    }

    /// First index whose counter is minimal.
    fn least_loaded_index(&self) -> (i: usize)
        requires
            self.wf(),
            self.node_count() > 0,
        ensures
            self.is_least_loaded_index(i as int),
    {
        let n = self.nodes.len();
        let mut best: usize = 0;
        let mut j: usize = 1;
        while j < n
            invariant
                self.wf(),
                n == self.node_count(),
                (best as int) < (j as int),
                j <= n,
                1 <= n,
                forall|k: int|
                    0 <= k < j ==> self.spec_counts()[best as int] <= #[trigger] self.spec_counts()[k],
                forall|k: int|
                    0 <= k < best ==> self.spec_counts()[best as int] < #[trigger] self.spec_counts()[k],
            decreases n - j,
        {
            if self.counts[j] < self.counts[best] {
                best = j;
            }
            j = j + 1;
        }
        best
    }

    /// Index of the node that carries this identifier.
    fn index_of_id(&self, id: u64) -> (i: usize)
        requires
            self.wf(),
            self.spec_has_id(id),
        ensures
            i as int == self.spec_index_of(id),
            0 <= i < self.node_count(),
            self.spec_nodes()[i as int].id == id,
    {
        let n = self.nodes.len();
        let mut i: usize = 0;
        while i < n
            invariant
                self.wf(),
                self.spec_has_id(id),
                n == self.node_count(),
                i <= n,
                forall|k: int| 0 <= k < i ==> #[trigger] self.spec_nodes()[k].id != id,
            decreases n - i,
        {
            if self.nodes[i].id == id {
                proof {
                    assert(self.spec_nodes()[i as int] == self.nodes@[i as int]@);
                    let w = self.spec_index_of(id);
                    assert(0 <= w < self.node_count() && self.spec_nodes()[w].id == id);
                    self.lemma_id_index_unique(i as int, w);
                }
                return i;
            }
            assert(self.spec_nodes()[i as int] == self.nodes@[i as int]@);
            i = i + 1;
        }
        proof {
            let w = choose|w: int|
                0 <= w < self.spec_nodes().len() && #[trigger] self.spec_nodes()[w].id == id;
            assert(self.spec_nodes()[w].id != id);
        }
        0
    }

    /// A node whose current counter is minimal; ties resolve to the first
    /// such node in configured order.
    pub fn get_least_connected_node(&self) -> (n: NodeInfo)
        requires
            self.wf(),
            self.node_count() > 0,
        ensures
            exists|i: int|
                #[trigger] self.is_least_loaded_index(i) && n@ == self.spec_nodes()[i],
            self.spec_has_id(n@.id),
            forall|j: int|
                0 <= j < self.node_count() ==> self.count_of(n@.id) <= #[trigger] self.spec_counts()[j],
    {
        let i = self.least_loaded_index();
        let n = self.nodes[i].duplicate();
        proof {
            assert(self.spec_nodes()[i as int] == self.nodes@[i as int]@);
            assert(self.spec_has_id(n@.id));
            let w = self.spec_index_of(n@.id);
            assert(0 <= w < self.node_count() && self.spec_nodes()[w].id == n@.id);
            self.lemma_id_index_unique(i as int, w);
        }
        n
    }

    /// Raise this node's counter by one.
    pub fn incre_count_by_node_info(&mut self, node: &NodeInfo)
        requires
            old(self).wf(),
            old(self).spec_has_id(node@.id),
            old(self).count_of(node@.id) < u64::MAX,
        ensures
            final(self).wf(),
            final(self).spec_nodes() == old(self).spec_nodes(),
            final(self).spec_counts() == old(self).spec_counts().update(
                old(self).spec_index_of(node@.id),
                (old(self).count_of(node@.id) + 1) as u64,
            ),
    {
        let i = self.index_of_id(node.id);
        let c = self.counts[i];
        self.counts.set(i, c + 1);
    }

    /// Lower this node's counter by one.
    pub fn decre_count_by_node_info(&mut self, node: &NodeInfo)
        requires
            old(self).wf(),
            old(self).spec_has_id(node@.id),
            old(self).count_of(node@.id) > 0,
        ensures
            final(self).wf(),
            final(self).spec_nodes() == old(self).spec_nodes(),
            final(self).spec_counts() == old(self).spec_counts().update(
                old(self).spec_index_of(node@.id),
                (old(self).count_of(node@.id) - 1) as u64,
            ),
    {
        let i = self.index_of_id(node.id);
        let c = self.counts[i];
        self.counts.set(i, c - 1);
    }

    /// Number of configured nodes.
    pub fn num_nodes(&self) -> (n: usize)
        ensures
            n == self.node_count(),
    {
        self.nodes.len()
    }

    /// Current counter of this node, if it is configured.
    pub fn get_count(&self, node: &NodeInfo) -> (c: Option<u64>)
        requires
            self.wf(),
        ensures
            self.spec_has_id(node@.id) ==> c == Some(self.count_of(node@.id)),
            !self.spec_has_id(node@.id) ==> c is None,
    {
        let n = self.nodes.len();
        let mut i: usize = 0;
        while i < n
            invariant
                self.wf(),
                n == self.node_count(),
                i <= n,
                forall|k: int| 0 <= k < i ==> #[trigger] self.spec_nodes()[k].id != node@.id,
            decreases n - i,
        {
            if self.nodes[i].id == node.id {
                proof {
                    assert(self.spec_nodes()[i as int] == self.nodes@[i as int]@);
                    assert(self.spec_nodes()[i as int].id == node@.id);
                    assert(self.spec_has_id(node@.id));
                    let w = self.spec_index_of(node@.id);
                    assert(0 <= w < self.node_count() && self.spec_nodes()[w].id == node@.id);
                    self.lemma_id_index_unique(i as int, w);
                }
                return Some(self.counts[i]);
            }
            assert(self.spec_nodes()[i as int] == self.nodes@[i as int]@);
            i = i + 1;
        }
        proof {
            if self.spec_has_id(node@.id) {
                let w = choose|w: int|
                    0 <= w < self.spec_nodes().len() && #[trigger] self.spec_nodes()[w].id
                        == node@.id;
                assert(self.spec_nodes()[w].id != node@.id);
            }
        }
        None
    }

    /// Pick the least-loaded node and raise its counter, as one step. The
    /// pool is designed to sit behind one short critical section, so callers
    /// that hold it across this call observe the pick and the increment as an
    /// atomic pair and never select a node against a stale counter.
    pub fn pick_and_increment(&mut self) -> (n: NodeInfo)
        requires
            old(self).wf(),
            old(self).node_count() > 0,
            exists|j: int|
                0 <= j < old(self).node_count() && #[trigger] old(self).spec_counts()[j]
                    < u64::MAX,
        ensures
            final(self).wf(),
            final(self).spec_nodes() == old(self).spec_nodes(),
            exists|i: int|
                #[trigger] old(self).is_least_loaded_index(i) && n@ == old(self).spec_nodes()[i]
                    && final(self).spec_counts() == old(self).spec_counts().update(
                    i,
                    (old(self).spec_counts()[i] + 1) as u64,
                ),
            old(self).spec_has_id(n@.id),
            forall|j: int|
                0 <= j < old(self).node_count() ==> old(self).count_of(n@.id)
                    <= #[trigger] old(self).spec_counts()[j],
    {
        let i = self.least_loaded_index();
        let n = self.nodes[i].duplicate();
        let c = self.counts[i];
        proof {
            let ghost w = choose|j: int|
                0 <= j < self.node_count() && #[trigger] self.spec_counts()[j] < u64::MAX;
            assert(self.spec_counts()[i as int] <= self.spec_counts()[w]);
        }
        self.counts.set(i, c + 1);
        proof {
            let prior = *old(self);
            assert(prior.spec_nodes()[i as int] == prior.nodes@[i as int]@);
            assert(prior.spec_has_id(n@.id));
            let w = prior.spec_index_of(n@.id);
            assert(0 <= w < prior.node_count() && prior.spec_nodes()[w].id == n@.id);
            prior.lemma_id_index_unique(i as int, w);
        }
        n
    }
}

/// The configured node list with duplicate identifiers dropped: of several
/// nodes carrying one identifier, the first in configured order is kept.
pub open spec fn spec_dedup_nodes(nodes: Seq<NodeInfoSpec>) -> Seq<NodeInfoSpec>
    decreases nodes.len(),
{
    if nodes.len() == 0 {
        Seq::empty()
    } else {
        let prefix = spec_dedup_nodes(nodes.drop_last());
        if exists|i: int|
            0 <= i < nodes.len() - 1 && #[trigger] nodes[i].id == nodes.last().id {
            prefix
        } else {
            prefix + seq![nodes.last()]
        }
    }
}

/// Every node that the deduplication keeps appears in the input.
pub proof fn lemma_dedup_nodes_ids_from_input(nodes: Seq<NodeInfoSpec>, id: u64)
    requires
        exists|i: int|
            0 <= i < spec_dedup_nodes(nodes).len() && #[trigger] spec_dedup_nodes(nodes)[i].id
                == id,
    ensures
        exists|i: int| 0 <= i < nodes.len() && #[trigger] nodes[i].id == id,
    decreases nodes.len(),
{
    let out = spec_dedup_nodes(nodes);
    let w = choose|i: int| 0 <= i < out.len() && #[trigger] out[i].id == id;
    if nodes.len() > 0 {
        let prefix = spec_dedup_nodes(nodes.drop_last());
        if w < prefix.len() {
            assert(prefix[w].id == id);
            lemma_dedup_nodes_ids_from_input(nodes.drop_last(), id);
            let v = choose|i: int|
                0 <= i < nodes.drop_last().len() && #[trigger] nodes.drop_last()[i].id == id;
            assert(nodes[v].id == id);
        } else {
            assert(out[w] == nodes.last());
            assert(nodes[nodes.len() - 1].id == id);
        }
    }
}

/// The deduplicated list carries each identifier at most once.
pub proof fn lemma_dedup_nodes_distinct(nodes: Seq<NodeInfoSpec>)
    ensures
        forall|i: int, j: int|
            #![trigger spec_dedup_nodes(nodes)[i], spec_dedup_nodes(nodes)[j]]
            0 <= i < j < spec_dedup_nodes(nodes).len() ==> spec_dedup_nodes(nodes)[i].id
                != spec_dedup_nodes(nodes)[j].id,
    decreases nodes.len(),
{
    let out = spec_dedup_nodes(nodes);
    if nodes.len() > 0 {
        lemma_dedup_nodes_distinct(nodes.drop_last());
        let prefix = spec_dedup_nodes(nodes.drop_last());
        assert forall|i: int, j: int|
            #![trigger out[i], out[j]]
            0 <= i < j < out.len() implies out[i].id != out[j].id by {
            if j < prefix.len() {
                assert(prefix[i].id != prefix[j].id);
            } else if j < out.len() && out.len() > prefix.len() {
                assert(out[j] == nodes.last());
                assert(out[i] == prefix[i]);
                if out[i].id == nodes.last().id {
                    lemma_dedup_nodes_ids_from_input(nodes.drop_last(), nodes.last().id);
                    let v = choose|k: int|
                        0 <= k < nodes.drop_last().len() && #[trigger] nodes.drop_last()[k].id
                            == nodes.last().id;
                    assert(nodes[v].id == nodes.last().id);
                }
            }
        }
    }
}

/// Whether an identifier occurs in a list of seen identifiers.
fn id_seen(seen: &Vec<u64>, id: u64) -> (r: bool)
    ensures
        r == seen@.contains(id),
{
    let n = seen.len();
    let mut i: usize = 0;
    while i < n
        invariant
            i <= n,
            n == seen@.len(),
            forall|k: int| 0 <= k < i ==> seen@[k] != id,
        decreases n - i,
    {
        if seen[i] == id {
            return true;
        }
        i = i + 1;
    }
    assert(!seen@.contains(id));
    false
}

/// Drop configured nodes whose identifier was already used by an earlier
/// node, so the pool can be built over distinct identifiers.
pub fn dedup_nodes(nodes: Vec<NodeInfo>) -> (out: Vec<NodeInfo>)
    ensures
        out@.map_values(|n: NodeInfo| n@) == spec_dedup_nodes(nodes@.map_values(|n: NodeInfo| n@)),
        forall|i: int, j: int|
            #![trigger out@[i], out@[j]]
            0 <= i < j < out@.len() ==> out@[i].id != out@[j].id,
{
    let ghost all = nodes@.map_values(|n: NodeInfo| n@);
    let n = nodes.len();
    let mut seen: Vec<u64> = Vec::new();
    let mut out: Vec<NodeInfo> = Vec::new();
    let mut i: usize = 0;
    while i < n
        invariant
            i <= n,
            n == nodes@.len(),
            all == nodes@.map_values(|n2: NodeInfo| n2@),
            out@.map_values(|n2: NodeInfo| n2@) == spec_dedup_nodes(all.subrange(0, i as int)),
            forall|id: u64|
                #[trigger] seen@.contains(id) <==> exists|k: int|
                    0 <= k < i && #[trigger] all[k].id == id,
        decreases n - i,
    {
        let node = &nodes[i];
        let kept = !id_seen(&seen, node.id);
        let ghost seen0 = seen@;
        let ghost out0 = out@;
        let ghost sub1 = all.subrange(0, i + 1);
        proof {
            assert(sub1.drop_last() =~= all.subrange(0, i as int));
            assert(sub1.last() == all[i as int]);
            assert(all[i as int] == node@);
        }
        if kept {
            seen.push(node.id);
            out.push(node.duplicate());
            proof {
                assert forall|k: int| 0 <= k < i implies #[trigger] sub1[k].id
                    != sub1.last().id by {
                    assert(sub1[k] == all[k]);
                    assert(all[k].id != node@.id);
                }
                assert(out@.map_values(|n2: NodeInfo| n2@) =~= spec_dedup_nodes(sub1));
                assert(sub1 =~= all.subrange(0, (i + 1) as int));
                assert forall|id: u64| #[trigger] seen@.contains(id) implies exists|k: int|
                    0 <= k < i + 1 && #[trigger] all[k].id == id by {
                    let w = choose|w: int| 0 <= w < seen@.len() && seen@[w] == id;
                    if w < seen0.len() {
                        assert(seen0[w] == id);
                        assert(seen0.contains(id));
                    } else {
                        assert(id == node@.id);
                        assert(all[i as int].id == id);
                    }
                }
                assert forall|id: u64|
                    (exists|k: int| 0 <= k < i + 1 && #[trigger] all[k].id == id) implies #[
                    trigger] seen@.contains(id) by {
                    let k = choose|k: int| 0 <= k < i + 1 && #[trigger] all[k].id == id;
                    if k < i {
                        assert(seen0.contains(id));
                        let w = choose|w: int| 0 <= w < seen0.len() && seen0[w] == id;
                        assert(seen@[w] == id);
                    } else {
                        assert(seen@[seen0.len() as int] == id);
                    }
                }
            }
        } else {
            proof {
                assert(seen0.contains(node@.id));
                let k0 = choose|k: int| 0 <= k < i && #[trigger] all[k].id == node@.id;
                assert(sub1[k0].id == sub1.last().id);
                assert(out@.map_values(|n2: NodeInfo| n2@) =~= spec_dedup_nodes(sub1));
                assert(sub1 =~= all.subrange(0, (i + 1) as int));
                assert forall|id: u64|
                    (exists|k: int| 0 <= k < i + 1 && #[trigger] all[k].id == id) implies #[
                    trigger] seen@.contains(id) by {
                    let k = choose|k: int| 0 <= k < i + 1 && #[trigger] all[k].id == id;
                    if k == i {
                        assert(all[k0].id == id);
                    }
                }
            }
        }
        i = i + 1;
    }
    proof {
        assert(all.subrange(0, n as int) =~= all);
        lemma_dedup_nodes_distinct(all);
        assert forall|i2: int, j2: int|
            #![trigger out@[i2], out@[j2]]
            0 <= i2 < j2 < out@.len() implies out@[i2].id != out@[j2].id by {
            assert(out@.map_values(|n2: NodeInfo| n2@)[i2] == out@[i2]@);
            assert(out@.map_values(|n2: NodeInfo| n2@)[j2] == out@[j2]@);
        }
    }
    out
}

/// Counters against in-flight relays: every configured node's counter is the
/// number of in-flight proxied relays pinned to it, and no relay is pinned to
/// an unknown node.
pub open spec fn counts_match_inflight(s: NodeStatistics, inflight: Multiset<u64>) -> bool {
    &&& s.wf()
    &&& forall|id: u64| #[trigger] s.spec_has_id(id) ==> s.count_of(id) == inflight.count(id)
    &&& forall|id: u64| !(#[trigger] s.spec_has_id(id)) ==> inflight.count(id) == 0
}

/// A freshly built pool matches an empty set of in-flight relays: every
/// counter is zero.
pub proof fn lemma_fresh_pool_matches_no_inflight(s: NodeStatistics)
    requires
        s.wf(),
        s.spec_counts() == Seq::new(s.node_count(), |i: int| 0u64),
    ensures
        counts_match_inflight(s, Multiset::empty()),
{
    broadcast use vstd::multiset::group_multiset_axioms;

    assert forall|id: u64| #[trigger] s.spec_has_id(id) implies s.count_of(id)
        == Multiset::<u64>::empty().count(id) by {
        let w = s.spec_index_of(id);
        assert(0 <= w < s.node_count() && s.spec_nodes()[w].id == id);
        assert(s.spec_counts()[w] == 0);
    }
}

/// Raising a node's counter keeps the pool matched with one more in-flight
/// relay pinned to that node.
pub proof fn lemma_increment_matches_inflight(
    s: NodeStatistics,
    s2: NodeStatistics,
    inflight: Multiset<u64>,
    id: u64,
)
    requires
        counts_match_inflight(s, inflight),
        s.spec_has_id(id),
        s.count_of(id) < u64::MAX,
        s2.wf(),
        s2.spec_nodes() == s.spec_nodes(),
        s2.spec_counts() == s.spec_counts().update(
            s.spec_index_of(id),
            (s.count_of(id) + 1) as u64,
        ),
    ensures
        counts_match_inflight(s2, inflight.insert(id)),
{
    broadcast use vstd::multiset::group_multiset_axioms;

    let i = s.spec_index_of(id);
    assert(0 <= i < s.node_count() && s.spec_nodes()[i].id == id);
    assert forall|id2: u64| #[trigger] s2.spec_has_id(id2) implies s2.count_of(id2)
        == inflight.insert(id).count(id2) by {
        let k2 = s2.spec_index_of(id2);
        assert(0 <= k2 < s2.node_count() && s2.spec_nodes()[k2].id == id2);
        assert(s.spec_has_id(id2));
        let k = s.spec_index_of(id2);
        assert(0 <= k < s.node_count() && s.spec_nodes()[k].id == id2);
        s2.lemma_id_index_unique(k2, k);
        if id2 == id {
            s.lemma_id_index_unique(k, i);
            assert(s2.count_of(id2) == s.count_of(id) + 1);
        } else {
            assert(s.spec_nodes()[k].id != s.spec_nodes()[i].id);
            assert(k != i);
            assert(s2.count_of(id2) == s.count_of(id2));
        }
    }
    assert forall|id2: u64| !(#[trigger] s2.spec_has_id(id2)) implies inflight.insert(id).count(
        id2,
    ) == 0 by {
        assert(!s.spec_has_id(id2));
        assert(id2 != id);
    }
}

/// The combined pick-and-increment keeps the pool matched with one more
/// in-flight relay pinned to the picked node.
pub proof fn lemma_pick_matches_inflight(
    s: NodeStatistics,
    s2: NodeStatistics,
    inflight: Multiset<u64>,
    i: int,
)
    requires
        counts_match_inflight(s, inflight),
        0 <= i < s.node_count(),
        s.spec_counts()[i] < u64::MAX,
        s2.wf(),
        s2.spec_nodes() == s.spec_nodes(),
        s2.spec_counts() == s.spec_counts().update(i, (s.spec_counts()[i] + 1) as u64),
    ensures
        counts_match_inflight(s2, inflight.insert(s.spec_nodes()[i].id)),
{
    let id = s.spec_nodes()[i].id;
    assert(s.spec_has_id(id));
    let w = s.spec_index_of(id);
    assert(0 <= w < s.node_count() && s.spec_nodes()[w].id == id);
    s.lemma_id_index_unique(i, w);
    lemma_increment_matches_inflight(s, s2, inflight, id);
}

/// Lowering a node's counter keeps the pool matched with one fewer in-flight
/// relay pinned to that node.
pub proof fn lemma_decrement_matches_inflight(
    s: NodeStatistics,
    s2: NodeStatistics,
    inflight: Multiset<u64>,
    id: u64,
)
    requires
        counts_match_inflight(s, inflight),
        s.spec_has_id(id),
        s.count_of(id) > 0,
        s2.wf(),
        s2.spec_nodes() == s.spec_nodes(),
        s2.spec_counts() == s.spec_counts().update(
            s.spec_index_of(id),
            (s.count_of(id) - 1) as u64,
        ),
    ensures
        counts_match_inflight(s2, inflight.remove(id)),
{
    broadcast use vstd::multiset::group_multiset_axioms;

    let i = s.spec_index_of(id);
    assert(0 <= i < s.node_count() && s.spec_nodes()[i].id == id);
    assert forall|id2: u64| #[trigger] s2.spec_has_id(id2) implies s2.count_of(id2)
        == inflight.remove(id).count(id2) by {
        let k2 = s2.spec_index_of(id2);
        assert(0 <= k2 < s2.node_count() && s2.spec_nodes()[k2].id == id2);
        assert(s.spec_has_id(id2));
        let k = s.spec_index_of(id2);
        assert(0 <= k < s.node_count() && s.spec_nodes()[k].id == id2);
        s2.lemma_id_index_unique(k2, k);
        if id2 == id {
            s.lemma_id_index_unique(k, i);
            assert(s2.count_of(id2) == s.count_of(id) - 1);
        } else {
            assert(s.spec_nodes()[k].id != s.spec_nodes()[i].id);
            assert(k != i);
            assert(s2.count_of(id2) == s.count_of(id2));
        }
    }
    assert forall|id2: u64| !(#[trigger] s2.spec_has_id(id2)) implies inflight.remove(id).count(
        id2,
    ) == 0 by {
        assert(!s.spec_has_id(id2));
        assert(id2 != id);
    }
}

/// Over one whole proxied connection the chosen node's counter comes back to
/// where it began: the increment taken before the dial and the decrement
/// taken when the relay returns cancel, and no other counter moves.
pub proof fn lemma_relay_counter_net_zero(
    before: NodeStatistics,
    during: NodeStatistics,
    after: NodeStatistics,
    id: u64,
)
    requires
        before.wf(),
        during.wf(),
        after.wf(),
        before.spec_has_id(id),
        before.count_of(id) < u64::MAX,
        during.spec_nodes() == before.spec_nodes(),
        during.spec_counts() == before.spec_counts().update(
            before.spec_index_of(id),
            (before.count_of(id) + 1) as u64,
        ),
        after.spec_nodes() == during.spec_nodes(),
        after.spec_counts() == during.spec_counts().update(
            during.spec_index_of(id),
            (during.count_of(id) - 1) as u64,
        ),
    ensures
        after.spec_nodes() == before.spec_nodes(),
        after.spec_counts() == before.spec_counts(),
{
    let i = before.spec_index_of(id);
    assert(0 <= i < before.node_count() && before.spec_nodes()[i].id == id);
    assert(during.spec_has_id(id));
    let j = during.spec_index_of(id);
    assert(0 <= j < during.node_count() && during.spec_nodes()[j].id == id);
    during.lemma_id_index_unique(i, j);
    assert(during.count_of(id) == before.count_of(id) + 1);
    assert(after.spec_counts() =~= before.spec_counts());
}

} // verus!
