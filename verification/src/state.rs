//! The in-memory connection state and the values the host hands back
//! from external calls.

use vstd::prelude::*;

verus! {

/// Whether a tunnel is currently up.
#[derive(Debug, Clone, Copy, PartialEq, Eq, Structural)]
pub enum ConnSt {
    Connected,
    Disconnected,
}

/// The connection state owned by the controller. Exactly one instance
/// exists per process; every mutation happens inside one serialized
/// critical section of the host.
#[derive(Debug, Clone)]
pub struct ConnState {
    /// Whether a tunnel is up.
    pub conn_st: ConnSt,
    /// The name of the active profile, present exactly when connected.
    pub current: Option<String>,
    /// The last public IP observed, absent when the lookup failed.
    pub pub_ip: Option<String>,
}

impl ConnState {
    /// The state invariant: connected exactly when a profile is active.
    pub open spec fn wf(self) -> bool {
        self.conn_st == ConnSt::Connected <==> self.current is Some
    }

    /// The active profile name as a sequence of characters.
    pub open spec fn current_name(self) -> Option<Seq<char>> {
        match self.current {
            Option::Some(s) => Option::Some(s@),
            Option::None => Option::None,
        }
    }

    /// A disconnected state with no active profile.
    pub fn disconnected(pub_ip: Option<String>) -> (r: ConnState)
        ensures
            r.wf(),
            r.conn_st == ConnSt::Disconnected,
            r.current is None,
            r.pub_ip == pub_ip,
    {
        ConnState { conn_st: ConnSt::Disconnected, current: None, pub_ip }
    }
}

/// What the external toggle command reported: exit code zero, or a
/// nonzero exit with its captured diagnostic output.
#[derive(Debug, Clone, PartialEq, Eq)]
pub enum ToggleOutcome {
    Completed,
    Failed(String),
}

/// The body of a successful public-IP lookup: the origin address
/// reported by the echo service.
#[derive(Debug, Clone, PartialEq, Eq)]
pub struct IpPayload {
    pub origin: String,
}

impl IpPayload {
    /// The address a successful lookup contributes to the state.
    pub fn into_ip(self) -> (r: Option<String>)
        ensures
            (r matches Some(ip) && ip == self.origin),
    {
        Some(self.origin)
    }
}

} // verus!
