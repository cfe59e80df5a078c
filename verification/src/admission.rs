//! Admission of new connections: the per-address limit and the cap on
//! concurrent sessions.

use vstd::prelude::*;
use vstd::string::*;
use crate::config::Config;
use crate::ratelimit::{IpKey, IpRateLimiter, LimiterView};

verus! {

/// What becomes of a new connection.
#[derive(Debug, PartialEq, Eq)]
pub enum Verdict {
    /// It goes on to a session.
    Accept,
    /// It is answered with this line and closed.
    Refuse(String),
}

/// The line that refuses a connection from an address over its limit.
pub open spec fn refusal_line() -> Seq<char> {
    "421 4.7.0 Too many connections from your IP"@
}

/// The admission controller: the limiter, and whether it is consulted.
pub struct Admission {
    limiter: IpRateLimiter,
    enabled: bool,
}

impl Admission {
    /// The limiter.
    pub closed spec fn limiter(&self) -> LimiterView {
        self.limiter@
    }

    /// Whether the limiter is consulted.
    pub closed spec fn enabled(&self) -> bool {
        self.enabled
    }

    /// The invariant of the limiter holds.
    pub open spec fn wf(&self) -> bool {
        self.limiter().wf()
    }

    /// The controller that a configuration asks for. A limit of zero
    /// connections per address switches the limiter off.
    pub fn new(config: &Config) -> (r: Self)
        ensures
            r.wf(),
            r.enabled() == (config.max_connections_per_ip > 0),
            r.limiter() == (LimiterView {
                v4: Map::empty(),
                v6: Map::empty(),
                max_per_ip: config.max_connections_per_ip,
            }),
    {
        Admission {
            limiter: IpRateLimiter::new(config.max_connections_per_ip),
            enabled: config.max_connections_per_ip > 0,
        }
    }

    /// Decides on a connection from `ip` at `now`.
    ///
    /// With the limiter off, every connection is admitted and nothing is
    /// recorded. With it on, the connection is recorded, and refused when the
    /// address is over its limit.
    pub fn decide(&mut self, ip: IpKey, now: u64) -> (r: Verdict)
        requires
            old(self).wf(),
        ensures
            final(self).wf(),
            final(self).enabled() == old(self).enabled(),
            !old(self).enabled() ==> r is Accept && final(self).limiter() == old(self).limiter(),
            old(self).enabled() ==> {
                let (next, ok) = old(self).limiter().step(ip, now);
                &&& final(self).limiter() == next
                &&& ok ==> r is Accept
                &&& !ok ==> (r matches Verdict::Refuse(line) && line@ == refusal_line())
            },
    {
        if !self.enabled {
            return Verdict::Accept;
        }
        if self.limiter.check_and_increment(ip, now) {
            Verdict::Accept
        } else {
            Verdict::Refuse("421 4.7.0 Too many connections from your IP".to_owned())
        }
    }
}

/// The number of sessions that may run at once: `None` when a cap of zero
/// asks for no bound.
pub fn session_permits(config: &Config) -> (r: Option<usize>)
    ensures
        r == (if config.max_connections > 0 {
            Some(config.max_connections)
        } else {
            None
        }),
{
    if config.max_connections > 0 {
        Some(config.max_connections)
    } else {
        None
    }
}

} // verus!
