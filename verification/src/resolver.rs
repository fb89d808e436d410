//! The socket-ownership resolver: given the host's open sockets, find
//! the user and processes behind a local port. Enumerating the sockets
//! is the surrounding application's part; the matching rule lives here.

use vstd::prelude::*;

use crate::flow::TransProtocol;

verus! {

/// Which transport families a lookup covers.
#[derive(Clone, Copy, PartialEq, Eq, Structural, Debug)]
pub enum TransportQuery {
    Tcp,
    Udp,
    Both,
}

/// One open socket as the host reports it.
#[derive(Clone, PartialEq, Eq, Debug)]
pub struct SocketEntry {
    /// TCP or UDP.
    pub transport: TransProtocol,
    pub local_port: u16,
    pub uid: u32,
    pub pids: Vec<u32>,
}

/// Whether a lookup covers a socket's transport family.
pub open spec fn query_covers(q: TransportQuery, t: TransProtocol) -> bool {
    match q {
        TransportQuery::Tcp => t is TCP,
        TransportQuery::Udp => t is UDP,
        TransportQuery::Both => t is TCP || t is UDP,
    }
}

/// Whether a socket answers a lookup: covered family and equal local
/// port.
pub open spec fn entry_matches(q: TransportQuery, port: u16, e: SocketEntry) -> bool {
    query_covers(q, e.transport) && e.local_port == port
}

fn covers(q: TransportQuery, t: TransProtocol) -> (r: bool)
    ensures
        r == query_covers(q, t),
{
    match q {
        TransportQuery::Tcp => matches!(t, TransProtocol::TCP),
        TransportQuery::Udp => matches!(t, TransProtocol::UDP),
        TransportQuery::Both => matches!(t, TransProtocol::TCP)
            || matches!(t, TransProtocol::UDP),
    }
}

/// The first socket answering the lookup, by position. `None` exactly
/// when no socket answers; absence of an owner is not an error.
pub fn resolve_owner(entries: &Vec<SocketEntry>, query: TransportQuery, port: u16)
    -> (r: Option<usize>)
    ensures
        match r {
            Some(i) => i < entries@.len() && entry_matches(query, port, entries@[i as int])
                && forall|j: int| 0 <= j < i ==> !entry_matches(query, port, entries@[j]),
            None => forall|j: int| 0 <= j < entries@.len()
                ==> !entry_matches(query, port, entries@[j]),
        },
{
    let mut i: usize = 0;
    while i < entries.len()
        invariant
            i <= entries@.len(),
            forall|j: int| 0 <= j < i ==> !entry_matches(query, port, entries@[j]),
        decreases entries@.len() - i,
    {
        if covers(query, entries[i].transport) && entries[i].local_port == port {
            return Some(i);
        }
        i += 1;
    }
    None
}

} // verus!
