//! How the server picks the port on which it forwards users to a client.
//!
//! The port the client held last time is tried first. After that the search
//! walks upwards from a random start in `[min, max)`, wrapping from `max` back
//! to `min`, and gives up when it comes round to the start again; the start
//! itself is never tried. A port found by the walk is remembered for the
//! client, a reused last port is not remembered again.

use rand::Rng;
use vstd::prelude::*;

verus! {

/// What the search asks for next.
#[derive(Clone, Copy, Debug, PartialEq, Eq, Structural)]
pub enum PortProbe {
    /// Try to listen on this port.
    Bind(u16),
    /// Every candidate has been tried and refused.
    Exhausted,
}

/// Where the search stands.
#[derive(Clone, Copy, Debug, PartialEq, Eq, Structural)]
pub enum SearchPhase {
    /// The client's last port is being tried.
    LastPort,
    /// A port of the walk is being tried.
    Scanning,
    /// The walk came round to its start.
    Exhausted,
}

/// The `k`-th port of the walk that starts at `start` in `[min, max)`.
pub open spec fn scan_port(min: u16, max: u16, start: u16, k: int) -> int {
    if start + k < max {
        start + k
    } else {
        start + k - (max - min)
    }
}

/// The number of ports in `[min, max)`; the walk offers all but one of them.
pub open spec fn range_size(min: u16, max: u16) -> int {
    max - min
}

/// The probe that follows `k` steps of the walk: the `k`-th port while
/// ports remain, and the end of the search once the walk is back at its
/// start.
pub open spec fn scan_probe(min: u16, max: u16, start: u16, k: int) -> PortProbe {
    if k < range_size(min, max) {
        PortProbe::Bind(scan_port(min, max, start, k) as u16)
    } else {
        PortProbe::Exhausted
    }
}

/// The phase after `k` steps of the walk.
pub open spec fn scan_phase(min: u16, max: u16, k: int) -> SearchPhase {
    if k < range_size(min, max) {
        SearchPhase::Scanning
    } else {
        SearchPhase::Exhausted
    }
}

/// The search for a free forward port, one refused bind at a time.
pub struct ForwardPortSearch {
    min: u16,
    max: u16,
    start: u16,
    current: u16,
    scanned: u16,
    phase: SearchPhase,
}

/// A uniformly drawn port in `[low, high)`.
#[verifier::external_body]
fn random_port_between(low: u16, high: u16) -> (port: u16)
    requires
        low < high,
    ensures
        low <= port < high,
{
    rand::rng().random_range(low..high)
}

impl ForwardPortSearch {
    #[verifier::type_invariant]
    spec fn inv(&self) -> bool {
        &&& self.min <= self.start < self.max
        &&& self.scanned <= self.max - self.min
        &&& match self.phase {
            SearchPhase::LastPort => self.scanned == 0 && self.current == self.start,
            SearchPhase::Scanning => {
                &&& 1 <= self.scanned < self.max - self.min
                &&& self.current == scan_port(self.min, self.max, self.start, self.scanned as int)
            },
            SearchPhase::Exhausted => self.scanned == self.max - self.min,
        }
    }

    /// Lower end of the range, included.
    pub closed spec fn lowest(&self) -> u16 {
        self.min
    }

    /// Upper end of the range, excluded.
    pub closed spec fn highest(&self) -> u16 {
        self.max
    }

    /// The random start of the walk.
    pub closed spec fn start_port(&self) -> u16 {
        self.start
    }

    /// How many ports of the walk have been offered so far.
    pub closed spec fn steps(&self) -> int {
        self.scanned as int
    }

    /// Where the search stands.
    pub closed spec fn phase(&self) -> SearchPhase {
        self.phase
    }

    /// Whether the search is the one for `[min, max)` from `start` after `k`
    /// steps of the walk, in the phase that follows them.
    pub open spec fn walked(&self, min: u16, max: u16, start: u16, k: int) -> bool {
        &&& self.lowest() == min
        &&& self.highest() == max
        &&& self.start_port() == start
        &&& self.steps() == k
        &&& self.phase() == scan_phase(min, max, k)
    }

    /// One step of the walk.
    fn advance(&mut self) -> (probe: PortProbe)
        requires
            old(self).phase() != SearchPhase::Exhausted,
        ensures
            final(self).walked(
                old(self).lowest(),
                old(self).highest(),
                old(self).start_port(),
                old(self).steps() + 1,
            ),
            probe == scan_probe(
                old(self).lowest(),
                old(self).highest(),
                old(self).start_port(),
                old(self).steps() + 1,
            ),
    {
        proof {
            use_type_invariant(&*self);
        }
        let next = if self.current + 1 >= self.max {
            self.min
        } else {
            self.current + 1
        };
        let k = self.scanned + 1;
        assert(next == scan_port(self.min, self.max, self.start, k as int));
        if next == self.start {
            *self = ForwardPortSearch {
                min: self.min,
                max: self.max,
                start: self.start,
                current: next,
                scanned: k,
                phase: SearchPhase::Exhausted,
            };
            PortProbe::Exhausted
        } else {
            *self = ForwardPortSearch {
                min: self.min,
                max: self.max,
                start: self.start,
                current: next,
                scanned: k,
                phase: SearchPhase::Scanning,
            };
            PortProbe::Bind(next)
        }
    }

    /// Starts the search in `[min, max)` with the walk beginning at `start`:
    /// the client's last port first when it has one, else the first port of
    /// the walk.
    pub fn new(last_port: Option<u16>, min: u16, max: u16, start: u16) -> (r: (
        ForwardPortSearch,
        PortProbe,
    ))
        requires
            min <= start < max,
        ensures
            last_port matches Some(p) ==> {
                &&& r.1 == PortProbe::Bind(p)
                &&& r.0.lowest() == min && r.0.highest() == max && r.0.start_port() == start
                &&& r.0.steps() == 0 && r.0.phase() == SearchPhase::LastPort
            },
            last_port is None ==> {
                &&& r.0.walked(min, max, start, 1)
                &&& r.1 == scan_probe(min, max, start, 1)
            },
    {
        let mut search = ForwardPortSearch {
            min,
            max,
            start,
            current: start,
            scanned: 0,
            phase: SearchPhase::LastPort,
        };
        match last_port {
            Some(p) => (search, PortProbe::Bind(p)),
            None => {
                let probe = search.advance();
                (search, probe)
            },
        }
    }

    /// Starts the search in `[min, max)` from a start drawn at random.
    pub fn begin(last_port: Option<u16>, min: u16, max: u16) -> (r: (ForwardPortSearch, PortProbe))
        requires
            min < max,
        ensures
            min <= r.0.start_port() < max,
            last_port matches Some(p) ==> {
                &&& r.1 == PortProbe::Bind(p)
                &&& r.0.lowest() == min && r.0.highest() == max
                &&& r.0.steps() == 0 && r.0.phase() == SearchPhase::LastPort
            },
            last_port is None ==> {
                &&& r.0.walked(min, max, r.0.start_port(), 1)
                &&& r.1 == scan_probe(min, max, r.0.start_port(), 1)
            },
    {
        let start = random_port_between(min, max);
        ForwardPortSearch::new(last_port, min, max, start)
    }

    /// The port last offered could not be bound: the next probe.
    pub fn bind_failed(&mut self) -> (probe: PortProbe)
        ensures
            old(self).phase() == SearchPhase::Exhausted ==> {
                &&& probe == PortProbe::Exhausted
                &&& final(self).walked(
                    old(self).lowest(),
                    old(self).highest(),
                    old(self).start_port(),
                    old(self).steps(),
                )
            },
            old(self).phase() != SearchPhase::Exhausted ==> {
                &&& probe == scan_probe(
                    old(self).lowest(),
                    old(self).highest(),
                    old(self).start_port(),
                    old(self).steps() + 1,
                )
                &&& final(self).walked(
                    old(self).lowest(),
                    old(self).highest(),
                    old(self).start_port(),
                    old(self).steps() + 1,
                )
            },
    {
        proof {
            use_type_invariant(&*self);
        }
        if self.phase == SearchPhase::Exhausted {
            PortProbe::Exhausted
        } else {
            self.advance()
        }
    }

    /// Whether the port just bound is to be remembered for the client: it is
    /// when the walk found it, not when it was the client's last port.
    pub fn remember_bound(&self) -> (r: bool)
        ensures
            r == (self.phase() == SearchPhase::Scanning),
    {
        self.phase == SearchPhase::Scanning
    }
}

/// Every port the walk offers lies in `[min, max)` and is not the start.
pub proof fn lemma_scan_port_in_range(min: u16, max: u16, start: u16, k: int)
    requires
        min <= start < max,
        1 <= k < range_size(min, max),
    ensures
        min <= scan_port(min, max, start, k) < max,
        scan_port(min, max, start, k) != start,
{
}

/// The walk never offers a port twice.
pub proof fn lemma_scan_ports_distinct(min: u16, max: u16, start: u16, i: int, j: int)
    requires
        min <= start < max,
        1 <= i < j < range_size(min, max),
    ensures
        scan_port(min, max, start, i) != scan_port(min, max, start, j),
{
}

/// The step at which the walk from `start` offers `port`.
pub open spec fn scan_step_of(min: u16, max: u16, start: u16, port: u16) -> int {
    if port > start {
        port - start
    } else {
        port - start + range_size(min, max)
    }
}

/// The walk offers every port of `[min, max)` but its start, and it does so
/// before it gives up.
pub proof fn lemma_scan_covers_range(min: u16, max: u16, start: u16, port: u16)
    requires
        min <= start < max,
        min <= port < max,
        port != start,
    ensures
        1 <= scan_step_of(min, max, start, port) < range_size(min, max),
        scan_port(min, max, start, scan_step_of(min, max, start, port)) == port,
{
}

} // verus!
