//! Verdict of the traffic classifier. The classifier itself (rule databases,
//! geo lookups) is an outside collaborator; the core only consumes its
//! verdict, exactly once per accepted connection.
use vstd::prelude::*;

verus! {

/// How one destination host is to be served.
#[derive(Clone, Copy, Debug, PartialEq, Eq, Structural)]
pub enum TrafficStreamRule {
    /// Dial the requested destination and relay.
    Direct,
    /// Forward through a configured upstream node.
    Proxy,
    /// Shut the client connection with no outbound I/O.
    Reject,
}

} // verus!
