//! The port each client host held last, so that a client that reconnects
//! gets its old forward port back when it is still free.

use std::collections::HashMap;
use vstd::prelude::*;

verus! {

/// A client's IP address, as plain numbers.
#[derive(Clone, Copy, Debug, PartialEq, Eq, Structural, Hash)]
pub enum HostAddr {
    /// An IPv4 address, its four octets read big-endian.
    V4(u32),
    /// An IPv6 address, its sixteen octets read big-endian.
    V6(u128),
}

/// The forward port last assigned to each client host.
pub struct LastPortTable {
    v4: HashMap<u32, u16>,
    v6: HashMap<u128, u16>,
}

impl View for LastPortTable {
    type V = Map<HostAddr, u16>;

    closed spec fn view(&self) -> Map<HostAddr, u16> {
        Map::new(
            |h: HostAddr|
                match h {
                    HostAddr::V4(a) => self.v4@.contains_key(a),
                    HostAddr::V6(a) => self.v6@.contains_key(a),
                },
            |h: HostAddr|
                match h {
                    HostAddr::V4(a) => self.v4@[a],
                    HostAddr::V6(a) => self.v6@[a],
                },
        )
    }
}

impl LastPortTable {
    /// A table that knows no host.
    pub fn new() -> (t: LastPortTable)
        ensures
            t@ == Map::<HostAddr, u16>::empty(),
    {
        let t = LastPortTable { v4: HashMap::new(), v6: HashMap::new() };
        assert(t@ =~= Map::<HostAddr, u16>::empty());
        t
    }

    /// The port last assigned to `host`, if any.
    pub fn last_port(&self, host: HostAddr) -> (r: Option<u16>)
        ensures
            r == (if self@.contains_key(host) {
                Some(self@[host])
            } else {
                None
            }),
    {
        match host {
            HostAddr::V4(a) => match self.v4.get(&a) {
                Some(p) => Some(*p),
                None => None,
            },
            HostAddr::V6(a) => match self.v6.get(&a) {
                Some(p) => Some(*p),
                None => None,
            },
        }
    }

    /// Records `port` as the one last assigned to `host`.
    pub fn remember(&mut self, host: HostAddr, port: u16)
        ensures
            final(self)@ == old(self)@.insert(host, port),
    {
        match host {
            HostAddr::V4(a) => {
                self.v4.insert(a, port);
            },
            HostAddr::V6(a) => {
                self.v6.insert(a, port);
            },
        }
        assert(self@ =~= old(self)@.insert(host, port));
    }
}

} // verus!
