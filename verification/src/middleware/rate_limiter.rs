//! A rate limiter middleware.
//!
//! Limits the number of requests from an IP address based on the token number
//! and token refill time. This is the one place the core holds mutable state
//! across requests.

use vstd::map::*;
use vstd::prelude::*;

use crate::request::{Request, RequestView};
use crate::response::status_code::StatusCode;
use crate::response::{Response, ResponseView};
use crate::server::route_handler::HandlerResult;

verus! {

/// The map described by an association sequence of per-IP entries; later
/// entries win.
pub open spec fn ip_map_of(s: Seq<(u128, (u64, u16))>) -> Map<u128, (u64, u16)>
    decreases s.len(),
{
    if s.len() == 0 {
        Map::empty()
    } else {
        ip_map_of(s.drop_last()).insert(s.last().0, s.last().1)
    }
}

/// Each IP occurs at most once.
pub open spec fn ip_keys_unique(s: Seq<(u128, (u64, u16))>) -> bool {
    forall|i: int, j: int| 0 <= i < j < s.len() ==> (#[trigger] s[i].0) != (#[trigger] s[j].0)
}

proof fn lemma_ip_map_of_entries(s: Seq<(u128, (u64, u16))>)
    requires
        ip_keys_unique(s),
    ensures
        forall|k: u128|
            ip_map_of(s).contains_key(k) <==> exists|i: int|
                0 <= i < s.len() && (#[trigger] s[i].0) == k,
        forall|i: int|
            0 <= i < s.len() ==> ip_map_of(s).contains_key(#[trigger] s[i].0) && ip_map_of(
                s,
            )[s[i].0] == s[i].1,
    decreases s.len(),
{
    if s.len() > 0 {
        let d = s.drop_last();
        assert(forall|i: int| 0 <= i < d.len() ==> (#[trigger] d[i]) == s[i]);
        assert(ip_keys_unique(d));
        lemma_ip_map_of_entries(d);
        assert forall|i: int|
            0 <= i < s.len() implies ip_map_of(s).contains_key(#[trigger] s[i].0) && ip_map_of(
            s,
        )[s[i].0] == s[i].1 by {
            if i < s.len() - 1 {
                assert(s[i].0 != s.last().0);
                assert(ip_map_of(d).contains_key(d[i].0) && ip_map_of(d)[d[i].0] == d[i].1);
            }
        }
        assert forall|k: u128| ip_map_of(s).contains_key(k) implies exists|i: int|
            0 <= i < s.len() && (#[trigger] s[i].0) == k by {
            if k == s.last().0 {
                assert(s[s.len() - 1].0 == k);
            } else {
                assert(ip_map_of(d).contains_key(k));
                let i = choose|i: int| 0 <= i < d.len() && (#[trigger] d[i].0) == k;
                assert(s[i].0 == k);
            }
        }
        assert forall|k: u128|
            (exists|i: int| 0 <= i < s.len() && (#[trigger] s[i].0) == k) implies ip_map_of(
            s,
        ).contains_key(k) by {
            let i = choose|i: int| 0 <= i < s.len() && (#[trigger] s[i].0) == k;
            if i < s.len() - 1 {
                assert(d[i].0 == k);
                assert(ip_map_of(d).contains_key(k));
            }
        }
    }
}

/// The per-IP request log: for each address, when its tokens were last
/// refilled and how many are left.
#[derive(Debug, Clone)]
struct IpMap {
    entries: Vec<(u128, (u64, u16))>,
}

impl View for IpMap {
    type V = Map<u128, (u64, u16)>;

    closed spec fn view(&self) -> Map<u128, (u64, u16)> {
        ip_map_of(self.entries@)
    }
}

impl IpMap {
    spec fn wf(&self) -> bool {
        ip_keys_unique(self.entries@)
    }

    fn new() -> (r: IpMap)
        ensures
            r@ == Map::<u128, (u64, u16)>::empty(),
            r.wf(),
    {
        IpMap { entries: Vec::new() }
    }

    /// Looks an address up.
    fn get(&self, ip: u128) -> (r: Option<(u64, u16)>)
        requires
            self.wf(),
        ensures
            match r {
                Some(v) => self@.contains_key(ip) && v == self@[ip],
                None => !self@.contains_key(ip),
            },
    {
        proof {
            lemma_ip_map_of_entries(self.entries@);
        }
        let n = self.entries.len();
        let mut i: usize = 0;
        while i < n
            invariant
                self.wf(),
                n == self.entries@.len(),
                0 <= i <= n,
                forall|j: int| 0 <= j < i ==> (#[trigger] self.entries@[j].0) != ip,
                forall|k: u128|
                    self@.contains_key(k) <==> exists|j: int|
                        0 <= j < n && (#[trigger] self.entries@[j].0) == k,
                forall|j: int|
                    0 <= j < n ==> self@.contains_key(#[trigger] self.entries@[j].0) && self@[
                        self.entries@[j].0
                    ] == self.entries@[j].1,
            decreases n - i,
        {
            if self.entries[i].0 == ip {
                return Some(self.entries[i].1);
            }
            i = i + 1;
        }
        None
    }

    /// Inserts or updates an address's entry.
    fn set(&mut self, ip: u128, value: (u64, u16))
        requires
            old(self).wf(),
        ensures
            final(self).wf(),
            final(self)@ == old(self)@.insert(ip, value),
    {
        proof {
            lemma_ip_map_of_entries(self.entries@);
        }
        let n = self.entries.len();
        let mut i: usize = 0;
        while i < n
            invariant
                self.wf(),
                self.entries@ == old(self).entries@,
                n == self.entries@.len(),
                0 <= i <= n,
                forall|j: int| 0 <= j < i ==> (#[trigger] self.entries@[j].0) != ip,
            decreases n - i,
        {
            if self.entries[i].0 == ip {
                let ghost old_entries = self.entries@;
                self.entries[i] = (ip, value);
                proof {
                    lemma_ip_set_update(self.entries@, old_entries, i as int, ip, value);
                }
                return ;
            }
            i = i + 1;
        }
        let ghost old_entries = self.entries@;
        self.entries.push((ip, value));
        proof {
            assert(self.entries@.drop_last() =~= old_entries);
            assert(forall|j: int|
                0 <= j < old_entries.len() ==> (#[trigger] self.entries@[j]) == old_entries[j]);
            assert(self.entries@.last() == (ip, value));
            assert(ip_map_of(self.entries@) == ip_map_of(self.entries@.drop_last()).insert(
                self.entries@.last().0,
                self.entries@.last().1,
            ));
            assert forall|a: int, b: int|
                0 <= a < b < self.entries@.len() implies (#[trigger] self.entries@[a].0) != (
            #[trigger] self.entries@[b].0) by {
                if b == self.entries@.len() - 1 {
                    assert(old_entries[a].0 != ip);
                }
            }
        }
    }
}

proof fn lemma_ip_set_update(
    s2: Seq<(u128, (u64, u16))>,
    old_entries: Seq<(u128, (u64, u16))>,
    i: int,
    ip: u128,
    value: (u64, u16),
)
    requires
        ip_keys_unique(old_entries),
        0 <= i < old_entries.len(),
        old_entries[i].0 == ip,
        s2 == old_entries.update(i, (ip, value)),
    ensures
        ip_keys_unique(s2),
        ip_map_of(s2) == ip_map_of(old_entries).insert(ip, value),
{
    assert forall|a: int, b: int| 0 <= a < b < s2.len() implies (#[trigger] s2[a].0) != (
    #[trigger] s2[b].0) by {
        assert(s2[a].0 == old_entries[a].0);
        assert(s2[b].0 == old_entries[b].0);
    }
    lemma_ip_map_of_entries(old_entries);
    lemma_ip_map_of_entries(s2);
    assert_maps_equal!(ip_map_of(s2), ip_map_of(old_entries).insert(ip, value), k => {
        if ip_map_of(s2).contains_key(k) {
            let j = choose|j: int| 0 <= j < s2.len() && (#[trigger] s2[j].0) == k;
            if j != i {
                assert(old_entries[j].0 == k);
            }
            assert(ip_map_of(old_entries).insert(ip, value).contains_key(k));
        }
        if ip_map_of(old_entries).insert(ip, value).contains_key(k) {
            if k == ip {
                assert(s2[i].0 == k);
                assert(ip_map_of(s2)[k] == s2[i].1);
            } else {
                assert(ip_map_of(old_entries).contains_key(k));
                let j = choose|j: int|
                    0 <= j < old_entries.len() && (#[trigger] old_entries[j].0) == k;
                assert(j != i);
                assert(s2[j].0 == k);
                assert(ip_map_of(s2)[k] == s2[j].1);
                assert(ip_map_of(old_entries)[k] == old_entries[j].1);
            }
        }
    });
}

/// A rate limiter middleware.
///
/// Limits the number of requests from an IP address based on the token number
/// and the token refill time. A limiter created with zero tokens refills to
/// zero tokens, so it blocks every request once its refill period is over
/// too.
#[derive(Debug, Clone)]
pub struct RateLimiter {
    token_number: u16,
    token_refill_ms: u64,
    requests: IpMap,
}

/// One step of the token-bucket: the address's entry (fresh entries start
/// with a full bucket) is refilled when the period has passed, else a token
/// is taken when one is left, else the request is blocked.
pub open spec fn limiter_step(
    tn: u16,
    refill: u64,
    m: Map<u128, (u64, u16)>,
    ip: u128,
    now: u64,
) -> (Map<u128, (u64, u16)>, bool) {
    let entry = if m.contains_key(ip) {
        m[ip]
    } else {
        (now, tn)
    };
    let elapsed = if now >= entry.0 {
        now - entry.0
    } else {
        0
    };
    if elapsed >= refill {
        (
            m.insert(
                ip,
                (
                    now,
                    if tn > 0 {
                        (tn - 1) as u16
                    } else {
                        0u16
                    },
                ),
            ),
            true,
        )
    } else if entry.1 > 0 {
        (m.insert(ip, (entry.0, (entry.1 - 1) as u16)), true)
    } else {
        (m.insert(ip, entry), false)
    }
}

impl RateLimiter {
    /// The limiter's configuration and per-IP state as the contracts see
    /// them.
    pub closed spec fn spec_tokens(&self) -> u16 {
        self.token_number
    }

    /// The refill period in milliseconds.
    pub closed spec fn spec_refill_ms(&self) -> u64 {
        self.token_refill_ms
    }

    /// The per-IP entries.
    pub closed spec fn spec_requests(&self) -> Map<u128, (u64, u16)> {
        self.requests@
    }

    /// The representation invariant.
    pub closed spec fn wf(&self) -> bool {
        self.requests.wf()
    }

    /// Creates a new instance of RateLimiter allowing `token_number` requests
    /// per address every `token_refill_ms` milliseconds.
    pub fn new(token_number: u16, token_refill_ms: u64) -> (r: RateLimiter)
        ensures
            r.wf(),
            r.spec_tokens() == token_number,
            r.spec_refill_ms() == token_refill_ms,
            r.spec_requests() == Map::<u128, (u64, u16)>::empty(),
    {
        RateLimiter { token_number, token_refill_ms, requests: IpMap::new() }
    }

    /// Takes one token for the address at the given time; returns whether the
    /// request is allowed.
    pub fn check(&mut self, ip: u128, now_ms: u64) -> (r: bool)
        requires
            old(self).wf(),
        ensures
            final(self).wf(),
            final(self).spec_tokens() == old(self).spec_tokens(),
            final(self).spec_refill_ms() == old(self).spec_refill_ms(),
            (final(self).spec_requests(), r) == limiter_step(
                old(self).spec_tokens(),
                old(self).spec_refill_ms(),
                old(self).spec_requests(),
                ip,
                now_ms,
            ),
    {
        let entry: (u64, u16) = match self.requests.get(ip) {
            Some(e) => e,
            None => (now_ms, self.token_number),
        };
        let elapsed: u64 = if now_ms >= entry.0 {
            now_ms - entry.0
        } else {
            0
        };
        if elapsed >= self.token_refill_ms {
            let tokens: u16 = if self.token_number > 0 {
                self.token_number - 1
            } else {
                0
            };
            self.requests.set(ip, (now_ms, tokens));
            true
        } else if entry.1 > 0 {
            self.requests.set(ip, (entry.0, entry.1 - 1));
            true
        } else {
            self.requests.set(ip, entry);
            false
        }
    }

    /// What the rate limiter does in a chain: blocked requests get status 429
    /// and end the chain; allowed ones pass through.
    pub open spec fn limiter_mw_step(
        tn: u16,
        refill: u64,
        m: Map<u128, (u64, u16)>,
        req: RequestView,
        res: ResponseView,
        now: u64,
    ) -> (Map<u128, (u64, u16)>, ResponseView, HandlerResult) {
        let (m2, allowed) = limiter_step(tn, refill, m, req.peer_addr.ip, now);
        if allowed {
            (m2, res, HandlerResult::Next)
        } else {
            (m2, ResponseView { status_code: StatusCode::TooManyRequests, ..res }, HandlerResult::End)
        }
    }

    /// Blocks or passes a request by the token bucket of its peer address.
    pub fn middleware(&mut self, request: &Request, response: &mut Response, now_ms: u64) -> (r:
        HandlerResult)
        requires
            old(self).wf(),
            request.wf(),
            old(response).wf(),
        ensures
            final(self).wf(),
            final(response).wf(),
            final(self).spec_tokens() == old(self).spec_tokens(),
            final(self).spec_refill_ms() == old(self).spec_refill_ms(),
            (final(self).spec_requests(), final(response)@, r) == Self::limiter_mw_step(
                old(self).spec_tokens(),
                old(self).spec_refill_ms(),
                old(self).spec_requests(),
                request@,
                old(response)@,
                now_ms,
            ),
    {
        let allowed = self.check(request.get_peer_addr().ip, now_ms);
        if allowed {
            HandlerResult::Next
        } else {
            response.status(StatusCode::TooManyRequests);
            HandlerResult::End
        }
    }
}

} // verus!
