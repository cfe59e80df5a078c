//! The per-address connection limiter: a fixed window of sixty seconds per
//! address, with a cap on the connections that are admitted in it.
//!
//! Time is a count of nanoseconds on a clock that the caller reads; the limiter
//! itself never looks at a clock.

use std::collections::HashMap;
use std::hash::Hash;
use vstd::prelude::*;
use vstd::std_specs::hash::obeys_key_model;

verus! {

broadcast use vstd::std_specs::hash::group_hash_axioms;

/// The length of a window, in nanoseconds.
pub const WINDOW_NANOS: u64 = 60_000_000_000;

/// The number of tracked addresses beyond which stale windows are evicted.
pub const CLEANUP_THRESHOLD: usize = 10_000;

/// A peer address: an IPv4 address as a 32-bit number, or an IPv6 address as
/// a 128-bit number.
#[derive(Clone, Copy, Debug, PartialEq, Eq, Structural)]
pub enum IpKey {
    V4(u32),
    V6(u128),
}

/// The window of one address: the connections admitted in it, and when it
/// started.
#[derive(Clone, Copy, Debug, PartialEq, Eq, Structural)]
pub struct Window {
    pub count: u32,
    pub started: u64,
}

/// The time from `started` to `now`; zero when `now` is the earlier one.
pub open spec fn elapsed(now: u64, started: u64) -> int {
    if now >= started {
        now - started
    } else {
        0
    }
}

/// A window is stale when it started a full window length ago, or longer.
pub open spec fn is_stale(w: Window, now: u64) -> bool {
    elapsed(now, w.started) >= WINDOW_NANOS
}

/// The entries of a table whose windows are not stale.
pub open spec fn fresh_part<K>(m: Map<K, Window>, now: u64) -> Map<K, Window> {
    Map::new(|k: K| m.contains_key(k) && !is_stale(m[k], now), |k: K| m[k])
}

/// The window that a connection at `now` falls into: the one on record if it
/// is not stale, a new one otherwise.
pub open spec fn window_at<K>(m: Map<K, Window>, key: K, now: u64) -> Window {
    if m.contains_key(key) && !is_stale(m[key], now) {
        m[key]
    } else {
        Window { count: 0, started: now }
    }
}

/// One connection from `key` at `now`: it is admitted, and counted, when its
/// window holds fewer than `max` connections. The window is put on record
/// either way.
pub open spec fn touched<K>(m: Map<K, Window>, key: K, max: u32, now: u64) -> (Map<K, Window>, bool) {
    let w = window_at(m, key, now);
    if w.count >= max {
        (m.insert(key, w), false)
    } else {
        (m.insert(key, Window { count: (w.count + 1) as u32, started: w.started }), true)
    }
}

/// The limiter as plain values: one table per address family, and the cap.
#[verifier::ext_equal]
pub struct LimiterView {
    pub v4: Map<u32, Window>,
    pub v6: Map<u128, Window>,
    pub max_per_ip: u32,
}

impl LimiterView {
    /// The window on record for an address.
    pub open spec fn get(self, ip: IpKey) -> Option<Window> {
        match ip {
            IpKey::V4(a) => if self.v4.contains_key(a) {
                Some(self.v4[a])
            } else {
                None
            },
            IpKey::V6(a) => if self.v6.contains_key(a) {
                Some(self.v6[a])
            } else {
                None
            },
        }
    }

    /// The number of addresses on record.
    pub open spec fn size(self) -> nat {
        self.v4.dom().len() + self.v6.dom().len()
    }

    /// Both tables are finite, and no window holds more connections than the
    /// cap.
    pub open spec fn wf(self) -> bool {
        &&& self.v4.dom().finite()
        &&& self.v6.dom().finite()
        &&& forall|a: u32| self.v4.contains_key(a) ==> (#[trigger] self.v4[a]).count <= self.max_per_ip
        &&& forall|a: u128| self.v6.contains_key(a) ==> (#[trigger] self.v6[a]).count <= self.max_per_ip
    }

    /// The limiter after the eviction that precedes a connection at `now`:
    /// when more addresses than the threshold are on record, the stale windows
    /// go.
    pub open spec fn swept(self, now: u64) -> LimiterView {
        if self.size() > CLEANUP_THRESHOLD {
            LimiterView { v4: fresh_part(self.v4, now), v6: fresh_part(self.v6, now), ..self }
        } else {
            self
        }
    }

    /// One connection from `ip` at `now`: the limiter afterwards, and whether
    /// the connection is admitted.
    pub open spec fn step(self, ip: IpKey, now: u64) -> (LimiterView, bool) {
        let s = self.swept(now);
        match ip {
            IpKey::V4(a) => {
                let (m, ok) = touched(s.v4, a, s.max_per_ip, now);
                (LimiterView { v4: m, ..s }, ok)
            },
            IpKey::V6(a) => {
                let (m, ok) = touched(s.v6, a, s.max_per_ip, now);
                (LimiterView { v6: m, ..s }, ok)
            },
        }
    }
}

/// Tracks connections per address.
pub struct IpRateLimiter {
    v4: HashMap<u32, Window>,
    v6: HashMap<u128, Window>,
    max_per_ip: u32,
}

impl View for IpRateLimiter {
    type V = LimiterView;

    closed spec fn view(&self) -> LimiterView {
        LimiterView { v4: self.v4@, v6: self.v6@, max_per_ip: self.max_per_ip }
    }
}

/// Whether a window is stale at `now`.
fn window_is_stale(w: &Window, now: u64) -> (r: bool)
    ensures
        r == is_stale(*w, now),
{
    if now >= w.started {
        now - w.started >= WINDOW_NANOS
    } else {
        false
    }
}

/// The keys of a table whose windows are stale.
fn stale_keys<K: Copy + Eq + Hash>(map: &HashMap<K, Window>, now: u64) -> (keys: Vec<K>)
    requires
        obeys_key_model::<K>(),
    ensures
        forall|k: K| keys@.contains(k) <==> map@.contains_key(k) && is_stale(map@[k], now),
{
    let mut out: Vec<K> = Vec::new();
    for k in it: map.keys()
        invariant
            obeys_key_model::<K>(),
            it.seq().unref().to_set() == map@.dom(),
            forall|x: K| out@.contains(x) ==> map@.contains_key(x) && is_stale(map@[x], now),
            forall|j: int|
                0 <= j < it.index() && is_stale(map@[*it.seq()[j]], now) ==> out@.contains(
                    *#[trigger] it.seq()[j],
                ),
    {
        assert(map@.contains_key(*k)) by {
            let i = it.index() as int;
            assert(it.seq().unref()[i] == *k);
            assert(it.seq().unref().to_set().contains(*k));
        }
        let ghost before = out@;
        match map.get(k) {
            Some(w) => {
                if window_is_stale(w, now) {
                    out.push(*k);
                    assert(out@[out@.len() - 1] == *k);
                    assert forall|x: K| out@.contains(x) implies map@.contains_key(x) && is_stale(
                        map@[x],
                        now,
                    ) by {
                        if !before.contains(x) {
                            let j = choose|j: int| 0 <= j < out@.len() && out@[j] == x;
                            if j < before.len() {
                                assert(before[j] == x);
                            }
                        }
                    }
                    assert forall|j: int|
                        0 <= j <= it.index() && is_stale(
                            map@[*it.seq()[j]],
                            now,
                        ) implies out@.contains(*#[trigger] it.seq()[j]) by {
                        if j < it.index() {
                            let x = *it.seq()[j];
                            assert(before.contains(x));
                            let i = choose|i: int| 0 <= i < before.len() && before[i] == x;
                            assert(out@[i] == x);
                        }
                    }
                }
            },
            None => {},
        }
    }
    out
}

/// Removes the stale windows from a table.
fn evict<K: Copy + Eq + Hash>(map: &mut HashMap<K, Window>, now: u64)
    requires
        obeys_key_model::<K>(),
    ensures
        final(map)@ == fresh_part(old(map)@, now),
{
    let keys = stale_keys(map, now);
    let mut i: usize = 0;
    while i < keys.len()
        invariant
            obeys_key_model::<K>(),
            i <= keys.len(),
            forall|k: K| keys@.contains(k) <==> old(map)@.contains_key(k) && is_stale(old(map)@[k], now),
            forall|k: K|
                map@.contains_key(k) <==> old(map)@.contains_key(k) && !keys@.subrange(
                    0,
                    i as int,
                ).contains(k),
            forall|k: K| map@.contains_key(k) ==> map@[k] == old(map)@[k],
        decreases keys.len() - i,
    {
        let key = keys[i];
        let ghost before = map@;
        map.remove(&key);
        assert(map@ == before.remove(key));
        assert forall|k: K|
            map@.contains_key(k) <==> old(map)@.contains_key(k) && !keys@.subrange(
                0,
                i + 1,
            ).contains(k) by {
            let s0 = keys@.subrange(0, i as int);
            let s1 = keys@.subrange(0, i + 1);
            assert(s1 =~= s0.push(key));
            if s1.contains(k) {
                let j = choose|j: int| 0 <= j < s1.len() && s1[j] == k;
                if j < s0.len() {
                    assert(s0[j] == k);
                    assert(s0.contains(k));
                }
            }
            if s0.contains(k) {
                let j = choose|j: int| 0 <= j < s0.len() && s0[j] == k;
                assert(s1[j] == k);
            }
            if k == key {
                assert(s1[i as int] == k);
            }
        }
        i = i + 1;
    }
    assert(keys@.subrange(0, i as int) =~= keys@);
    assert(map@ =~= fresh_part(old(map)@, now));
}

/// Records one connection in a table and says whether it is admitted.
fn touch<K: Copy + Eq + Hash>(map: &mut HashMap<K, Window>, key: K, max: u32, now: u64) -> (r: bool)
    requires
        obeys_key_model::<K>(),
    ensures
        (final(map)@, r) == touched(old(map)@, key, max, now),
{
    let current = match map.get(&key) {
        Some(w) => {
            if window_is_stale(w, now) {
                Window { count: 0, started: now }
            } else {
                *w
            }
        },
        None => Window { count: 0, started: now },
    };
    if current.count >= max {
        map.insert(key, current);
        false
    } else {
        map.insert(key, Window { count: current.count + 1, started: current.started });
        true
    }
}

impl IpRateLimiter {
    /// A limiter with nothing on record.
    pub fn new(max_per_ip: u32) -> (r: Self)
        ensures
            r@.wf(),
            r@ == (LimiterView { v4: Map::empty(), v6: Map::empty(), max_per_ip }),
    {
        IpRateLimiter { v4: HashMap::new(), v6: HashMap::new(), max_per_ip }
    }

    /// The cap on connections per address and window.
    pub fn max_per_ip(&self) -> (r: u32)
        ensures
            r == self@.max_per_ip,
    {
        self.max_per_ip
    }

    /// Records a connection from `ip` at `now` and returns whether it is
    /// admitted: `true` if the address is within its cap, `false` if it is
    /// limited.
    pub fn check_and_increment(&mut self, ip: IpKey, now: u64) -> (r: bool)
        requires
            old(self)@.wf(),
        ensures
            final(self)@.wf(),
            (final(self)@, r) == old(self)@.step(ip, now),
    {
        proof {
            lemma_step_keeps_wf(self@, ip, now);
        }
        let n4: usize = self.v4.len();
        let n6: usize = self.v6.len();
        if n4 > CLEANUP_THRESHOLD || n6 > CLEANUP_THRESHOLD - n4 {
            evict(&mut self.v4, now);
            evict(&mut self.v6, now);
        }
        match ip {
            IpKey::V4(a) => touch(&mut self.v4, a, self.max_per_ip, now),
            IpKey::V6(a) => touch(&mut self.v6, a, self.max_per_ip, now),
        }
    }
}

/// The fresh part of a finite table is finite.
proof fn lemma_fresh_part_finite<K>(m: Map<K, Window>, now: u64)
    requires
        m.dom().finite(),
    ensures
        fresh_part(m, now).dom().finite(),
{
    assert(fresh_part(m, now).dom().subset_of(m.dom()));
    vstd::set_lib::lemma_len_subset(fresh_part(m, now).dom(), m.dom());
}

/// Every connection keeps the invariant of the limiter.
pub proof fn lemma_step_keeps_wf(l: LimiterView, ip: IpKey, now: u64)
    requires
        l.wf(),
    ensures
        l.step(ip, now).0.wf(),
        l.step(ip, now).0.max_per_ip == l.max_per_ip,
{
    lemma_fresh_part_finite(l.v4, now);
    lemma_fresh_part_finite(l.v6, now);
}

/// One connection, as it is put to the limiter.
pub struct Call {
    pub ip: IpKey,
    pub now: u64,
}

/// The number of connections from `ip` that a sequence of connections admits.
pub open spec fn grants(l: LimiterView, calls: Seq<Call>, ip: IpKey) -> nat
    decreases calls.len(),
{
    if calls.len() == 0 {
        0
    } else {
        let (next, ok) = l.step(calls[0].ip, calls[0].now);
        let here: nat = if ok && calls[0].ip == ip {
            1
        } else {
            0
        };
        here + grants(next, calls.subrange(1, calls.len() as int), ip)
    }
}

/// Whether every connection of a sequence is made within the window that
/// starts at `start`.
pub open spec fn all_within(calls: Seq<Call>, start: u64) -> bool {
    forall|i: int| 0 <= i < calls.len() ==> start <= (#[trigger] calls[i]).now < start + WINDOW_NANOS
}

/// Within one window of an address, the connections admitted from it never
/// exceed the cap: while the window that started at `start` is on record and
/// all connections are made within it, what it has counted and what is
/// admitted from then on stay within the cap together.
pub proof fn lemma_window_cap(l: LimiterView, calls: Seq<Call>, ip: IpKey, start: u64)
    requires
        l.wf(),
        l.get(ip) matches Some(w) && w.started == start,
        all_within(calls, start),
    ensures
        (l.get(ip)->0).count + grants(l, calls, ip) <= l.max_per_ip,
    decreases calls.len(),
{
    if calls.len() > 0 {
        let c = calls[0];
        let rest = calls.subrange(1, calls.len() as int);
        let (next, ok) = l.step(c.ip, c.now);
        lemma_step_keeps_wf(l, c.ip, c.now);
        let w = l.get(ip)->0;
        assert(!is_stale(w, c.now));
        assert(l.swept(c.now).get(ip) == Some(w));
        assert(next.get(ip) matches Some(n) && n.started == start && n.count == w.count + (if ok
            && c.ip == ip {
            1int
        } else {
            0int
        }));
        assert forall|i: int| 0 <= i < rest.len() implies start <= (#[trigger] rest[i]).now < start
            + WINDOW_NANOS by {
            assert(rest[i] == calls[i + 1]);
        }
        lemma_window_cap(next, rest, ip, start);
    }
}

/// A window that starts with a connection admits no more than the cap: when
/// the first connection of a sequence comes from an address with no window on
/// record, or only a stale one, and the others are made within a window
/// length of it, the connections admitted from that address stay within the
/// cap.
pub proof fn lemma_new_window_cap(l: LimiterView, calls: Seq<Call>)
    requires
        l.wf(),
        calls.len() > 0,
        l.get(calls[0].ip) matches Some(w) ==> is_stale(w, calls[0].now),
        all_within(calls, calls[0].now),
    ensures
        grants(l, calls, calls[0].ip) <= l.max_per_ip,
{
    let c = calls[0];
    let rest = calls.subrange(1, calls.len() as int);
    let (next, ok) = l.step(c.ip, c.now);
    lemma_step_keeps_wf(l, c.ip, c.now);
    assert(l.swept(c.now).get(c.ip) matches Some(w) ==> is_stale(w, c.now));
    assert(next.get(c.ip) matches Some(n) && n.started == c.now && n.count == (if ok {
        1int
    } else {
        0int
    }));
    assert forall|i: int| 0 <= i < rest.len() implies c.now <= (#[trigger] rest[i]).now < c.now
        + WINDOW_NANOS by {
        assert(rest[i] == calls[i + 1]);
    }
    lemma_window_cap(next, rest, c.ip, c.now);
}

} // verus!
