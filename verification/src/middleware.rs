//! The middleware catalog and the chain runner.
//!
//! Middleware is a closed set of kinds behind a tagged variant: the gzip
//! encoder, the rate limiter and a header writer. A chain runs them in
//! registration order and stops at the first `End`.

use vstd::prelude::*;

use crate::middleware::gzip::{gzip_step, GzipEncoder};
use crate::middleware::rate_limiter::RateLimiter;
use crate::request::{Request, RequestView};
use crate::response::{Response, ResponseView};
use crate::server::route_handler::HandlerResult;

pub mod gzip;
pub mod helmet;
pub mod rate_limiter;
pub mod statics;

verus! {

/// Relies on std::time::SystemTime::now and duration_since(UNIX_EPOCH): a
/// wall-clock timestamp in milliseconds. Nothing is assumed of the value.
#[verifier::external_body]
pub fn now_millis() -> u64 {
    match std::time::SystemTime::now().duration_since(std::time::UNIX_EPOCH) {
        Ok(d) => d.as_millis() as u64,
        Err(_) => 0,
    }
}

/// A unit of request/response processing that runs before a controller and
/// can short-circuit the chain. The catalog is closed: the gzip encoder, the
/// rate limiter, and a plain header writer (the building block of the
/// security-header middlewares).
#[derive(Clone)]
pub enum Middleware {
    /// Compresses the response body when the request accepts gzip.
    Gzip(GzipEncoder),
    /// Blocks requests whose address has run out of tokens.
    RateLimit(RateLimiter),
    /// Writes one fixed response header.
    SetHeader(String, String),
    /// Removes one response header.
    RemoveHeader(String),
}

/// A middleware as the contracts see it: its kind and its state.
pub enum MwView {
    /// The gzip encoder, which is stateless.
    Gzip,
    /// The rate limiter: its token count, refill period, and per-IP entries.
    RateLimit(u16, u64, Map<u128, (u64, u16)>),
    /// A header writer: the header name and value.
    SetHeader(Seq<char>, Seq<char>),
    /// A header remover: the header name.
    RemoveHeader(Seq<char>),
}

impl View for Middleware {
    type V = MwView;

    open spec fn view(&self) -> MwView {
        match self {
            Middleware::Gzip(_) => MwView::Gzip,
            Middleware::RateLimit(rl) => MwView::RateLimit(
                rl.spec_tokens(),
                rl.spec_refill_ms(),
                rl.spec_requests(),
            ),
            Middleware::SetHeader(k, v) => MwView::SetHeader(k@, v@),
            Middleware::RemoveHeader(k) => MwView::RemoveHeader(k@),
        }
    }
}

/// The representation invariant of a middleware.
pub open spec fn mw_wf(m: &Middleware) -> bool {
    match m {
        Middleware::RateLimit(rl) => rl.wf(),
        _ => true,
    }
}

/// What one middleware does: its new state, the new response, and whether the
/// chain goes on.
pub open spec fn mw_step(m: MwView, req: RequestView, res: ResponseView, now: u64) -> (
    MwView,
    ResponseView,
    HandlerResult,
) {
    match m {
        MwView::Gzip => (m, gzip_step(req, res), HandlerResult::Next),
        MwView::RateLimit(tn, refill, entries) => {
            let stepped = RateLimiter::limiter_mw_step(tn, refill, entries, req, res, now);
            (MwView::RateLimit(tn, refill, stepped.0), stepped.1, stepped.2)
        },
        MwView::SetHeader(k, v) => (
            m,
            ResponseView { headers: res.headers.insert(k, v), ..res },
            HandlerResult::Next,
        ),
        MwView::RemoveHeader(k) => (
            m,
            ResponseView { headers: res.headers.remove(k), ..res },
            HandlerResult::Next,
        ),
    }
}

/// The views of a sequence of middleware.
pub open spec fn mws_view(s: Seq<Middleware>) -> Seq<MwView> {
    s.map_values(|m: Middleware| m@)
}

/// The representation invariant of a sequence of middleware.
pub open spec fn mws_wf(s: Seq<Middleware>) -> bool {
    forall|i: int| 0 <= i < s.len() ==> mw_wf(#[trigger] &s[i])
}

/// Running a chain of middleware in order at one instant: each gets the
/// response the previous one left; the first `End` stops the chain, leaving
/// the rest of the middleware untouched.
pub open spec fn chain_spec(ms: Seq<MwView>, req: RequestView, res: ResponseView, now: u64) -> (
    Seq<MwView>,
    ResponseView,
    HandlerResult,
)
    decreases ms.len(),
{
    if ms.len() == 0 {
        (ms, res, HandlerResult::Next)
    } else {
        let stepped = mw_step(ms[0], req, res, now);
        if stepped.2 is End {
            (seq![stepped.0] + ms.drop_first(), stepped.1, HandlerResult::End)
        } else {
            let rest = chain_spec(ms.drop_first(), req, stepped.1, now);
            (seq![stepped.0] + rest.0, rest.1, rest.2)
        }
    }
}

impl Middleware {
    /// Runs this middleware once, at the given instant.
    pub fn middleware(&mut self, request: &Request, response: &mut Response, now_ms: u64) -> (r:
        HandlerResult)
        requires
            mw_wf(old(self)),
            request.wf(),
            old(response).wf(),
        ensures
            mw_wf(final(self)),
            final(response).wf(),
            (final(self)@, final(response)@, r) == mw_step(
                old(self)@,
                request@,
                old(response)@,
                now_ms,
            ),
    {
        match self {
            Middleware::Gzip(g) => g.middleware(request, response),
            Middleware::RateLimit(rl) => rl.middleware(request, response, now_ms),
            Middleware::SetHeader(k, v) => {
                let key = k.clone();
                let value = v.clone();
                response.set_header(key.as_str(), value.as_str());
                HandlerResult::Next
            },
            Middleware::RemoveHeader(k) => {
                let key = k.clone();
                response.remove_header(key.as_str());
                HandlerResult::Next
            },
        }
    }
}

/// Runs a chain of middleware in registration order, stopping at the first
/// `End` and leaving later middleware untouched.
pub fn run_chain(
    middlewares: &mut Vec<Middleware>,
    request: &Request,
    response: &mut Response,
    now_ms: u64,
) -> (r: HandlerResult)
    requires
        mws_wf(old(middlewares)@),
        request.wf(),
        old(response).wf(),
    ensures
        mws_wf(final(middlewares)@),
        final(response).wf(),
        final(middlewares)@.len() == old(middlewares)@.len(),
        (mws_view(final(middlewares)@), final(response)@, r) == chain_spec(
            mws_view(old(middlewares)@),
            request@,
            old(response)@,
            now_ms,
        ),
{
    let ghost orig = mws_view(old(middlewares)@);
    let n = middlewares.len();
    let mut i: usize = 0;
    proof {
        assert(middlewares@.skip(0) =~= middlewares@);
        assert(mws_view(middlewares@.skip(0)) =~= orig);
        assert(mws_view(middlewares@.take(0)) =~= Seq::<MwView>::empty());
        assert(Seq::<MwView>::empty() + chain_spec(orig, request@, response@, now_ms).0
            =~= chain_spec(orig, request@, response@, now_ms).0);
    }
    while i < n
        invariant
            n == middlewares@.len(),
            n == old(middlewares)@.len(),
            0 <= i <= n,
            mws_wf(middlewares@),
            request.wf(),
            response.wf(),
            forall|j: int| i <= j < n ==> middlewares@[j] == old(middlewares)@[j],
            orig == mws_view(old(middlewares)@),
            ({
                let rest = chain_spec(
                    mws_view(middlewares@.skip(i as int)),
                    request@,
                    response@,
                    now_ms,
                );
                chain_spec(orig, request@, old(response)@, now_ms) == (
                    mws_view(middlewares@.take(i as int)) + rest.0,
                    rest.1,
                    rest.2,
                )
            }),
        decreases n - i,
    {
        let ghost pre_mids = middlewares@;
        let ghost pre_res = response@;
        proof {
            assert(mws_view(pre_mids.skip(i as int)).len() == n - i);
            assert(mws_view(pre_mids.skip(i as int))[0] == pre_mids[i as int]@);
            assert(mws_view(pre_mids.skip(i as int)).drop_first() =~= mws_view(
                pre_mids.skip(i + 1),
            ));
        }
        let m = &mut middlewares[i];
        let hr = m.middleware(request, response, now_ms);
        proof {
            assert(middlewares@ =~= pre_mids.update(i as int, middlewares@[i as int]));
            assert(forall|j: int| 0 <= j < n && j != i ==> middlewares@[j] == pre_mids[j]);
            assert(mws_wf(middlewares@)) by {
                assert(forall|j: int|
                    0 <= j < n ==> mw_wf(#[trigger] &middlewares@[j]) == (if j == i {
                        mw_wf(&middlewares@[i as int])
                    } else {
                        mw_wf(&pre_mids[j])
                    }));
            }
            assert(middlewares@.skip(i + 1) =~= pre_mids.skip(i + 1));
        }
        if matches!(hr, HandlerResult::End) {
            proof {
                let stepped = mw_step(pre_mids[i as int]@, request@, pre_res, now_ms);
                assert(chain_spec(mws_view(pre_mids.skip(i as int)), request@, pre_res, now_ms)
                    == (
                    seq![stepped.0] + mws_view(pre_mids.skip(i + 1)),
                    stepped.1,
                    HandlerResult::End,
                ));
                assert(mws_view(middlewares@) =~= mws_view(pre_mids.take(i as int)) + (
                seq![stepped.0] + mws_view(pre_mids.skip(i + 1))));
                assert(mws_view(middlewares@.take(i as int)) =~= mws_view(pre_mids.take(i as int)));
            }
            return HandlerResult::End;
        }
        proof {
            let stepped = mw_step(pre_mids[i as int]@, request@, pre_res, now_ms);
            assert(middlewares@.take(i + 1) =~= pre_mids.take(i as int).push(
                middlewares@[i as int],
            ));
            assert(mws_view(middlewares@.take(i + 1)) =~= mws_view(pre_mids.take(i as int)).push(
                stepped.0,
            ));
            assert(mws_view(pre_mids.take(i as int)) + (seq![stepped.0] + chain_spec(
                mws_view(middlewares@.skip(i + 1)),
                request@,
                response@,
                now_ms,
            ).0) =~= mws_view(middlewares@.take(i + 1)) + chain_spec(
                mws_view(middlewares@.skip(i + 1)),
                request@,
                response@,
                now_ms,
            ).0);
            assert(mws_view(middlewares@.take(i as int)) =~= mws_view(pre_mids.take(i as int)));
        }
        i = i + 1;
    }
    proof {
        assert(middlewares@.skip(n as int) =~= Seq::<Middleware>::empty());
        assert(mws_view(middlewares@.skip(n as int)) =~= Seq::<MwView>::empty());
        assert(middlewares@.take(n as int) =~= middlewares@);
        let rest = chain_spec(Seq::<MwView>::empty(), request@, response@, now_ms);
        assert(mws_view(middlewares@) + rest.0 =~= mws_view(middlewares@));
    }
    HandlerResult::Next
}

/// The short-circuit law: when the chain reaches a middleware that returns
/// `End` (the ones before it all returned `Next`), the chain's outcome is
/// exactly the state after that middleware — no later middleware runs or
/// changes, and the response reflects only the mutations made up to and
/// including the terminating one.
pub proof fn lemma_chain_short_circuit(
    ms: Seq<MwView>,
    req: RequestView,
    res: ResponseView,
    now: u64,
    k: int,
)
    requires
        0 <= k < ms.len(),
        chain_spec(ms.take(k), req, res, now).2 is Next,
        mw_step(ms[k], req, chain_spec(ms.take(k), req, res, now).1, now).2 is End,
    ensures
        ({
            let prefix = chain_spec(ms.take(k), req, res, now);
            let stepped = mw_step(ms[k], req, prefix.1, now);
            chain_spec(ms, req, res, now) == (
                prefix.0 + seq![stepped.0] + ms.skip(k + 1),
                stepped.1,
                HandlerResult::End,
            )
        }),
    decreases k,
{
    if k == 0 {
        assert(ms.take(0) =~= Seq::<MwView>::empty());
        let stepped = mw_step(ms[0], req, res, now);
        assert(chain_spec(ms, req, res, now) == (
            seq![stepped.0] + ms.drop_first(),
            stepped.1,
            HandlerResult::End,
        ));
        assert(ms.drop_first() =~= ms.skip(1));
        assert(Seq::<MwView>::empty() + seq![stepped.0] + ms.skip(1) =~= seq![stepped.0] + ms.skip(
            1,
        ));
    } else {
        let pre = ms.take(k);
        let step0 = mw_step(ms[0], req, res, now);
        assert(pre[0] == ms[0]);
        assert(pre.drop_first() =~= ms.drop_first().take(k - 1));
        if step0.2 is End {
            assert(chain_spec(pre, req, res, now).2 is End);
            assert(false);
        }
        let tail = ms.drop_first();
        assert(ms[k] == tail[k - 1]);
        lemma_chain_short_circuit(tail, req, step0.1, now, k - 1);
        let tprefix = chain_spec(tail.take(k - 1), req, step0.1, now);
        let prefix = chain_spec(pre, req, res, now);
        assert(prefix == (seq![step0.0] + tprefix.0, tprefix.1, tprefix.2));
        let stepped = mw_step(ms[k], req, prefix.1, now);
        assert(chain_spec(tail, req, step0.1, now) == (
            tprefix.0 + seq![stepped.0] + tail.skip(k),
            stepped.1,
            HandlerResult::End,
        ));
        assert(chain_spec(ms, req, res, now) == (
            seq![step0.0] + (tprefix.0 + seq![stepped.0] + tail.skip(k)),
            stepped.1,
            HandlerResult::End,
        ));
        assert(tail.skip(k) =~= ms.skip(k + 1));
        assert(seq![step0.0] + (tprefix.0 + seq![stepped.0] + ms.skip(k + 1)) =~= (seq![step0.0]
            + tprefix.0) + seq![stepped.0] + ms.skip(k + 1));
    }
}

} // verus!
