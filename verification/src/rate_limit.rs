//! In-memory rate limiter: a window of one second per token.

use crate::textmap::TextMap;
use vstd::prelude::*;

verus! {

/// Nanoseconds in a window.
pub const WINDOW_NANOS: u128 = 1_000_000_000;

/// `std::time::Instant`, a point in time of a clock that never runs backwards.
#[verifier::external_type_specification]
#[verifier::external_body]
pub struct ExInstant(std::time::Instant);

/// The present moment (`std::time::Instant::now`). Nothing is known of it.
#[verifier::external_body]
fn instant_now() -> (r: std::time::Instant) {
    std::time::Instant::now()
}

/// The nanoseconds since an earlier moment (`std::time::Instant::elapsed`). They
/// depend on the clock, so nothing is stated of them.
#[verifier::external_body]
fn nanos_since(start: &std::time::Instant) -> (r: u128) {
    start.elapsed().as_nanos()
}

/// When a token's window began, in nanoseconds, and the requests that it let through.
#[derive(Clone, Copy)]
pub struct Window {
    /// The beginning, on the limiter's own clock.
    pub start: u128,
    /// Requests let through in this window.
    pub count: u32,
}

/// The window in force for a request at `now`: the token's own, or a new empty one.
pub open spec fn window_at(windows: Map<Seq<char>, Window>, token: Seq<char>, now: u128) -> Window {
    if windows.dom().contains(token) {
        windows[token]
    } else {
        Window { start: now, count: 0 }
    }
}

/// The window ended before `now`.
pub open spec fn expired(w: Window, now: u128) -> bool {
    now >= w.start + WINDOW_NANOS
}

/// Whether a request at `now` passes: the limit admits any at all, and the request opens a
/// new window, or the count is below the limit.
pub open spec fn passes(w: Window, limit: u32, now: u128) -> bool {
    limit > 0 && (expired(w, now) || w.count < limit)
}

/// The window after a request at `now`.
pub open spec fn advanced(w: Window, limit: u32, now: u128) -> Window {
    if !passes(w, limit, now) {
        w
    } else if expired(w, now) {
        Window { start: now, count: 1 }
    } else {
        Window { start: w.start, count: (w.count + 1) as u32 }
    }
}

/// A limiter on requests per second, keyed by token id.
pub struct RateLimiter {
    started: std::time::Instant,
    windows: TextMap<Window>,
}

impl View for RateLimiter {
    type V = Map<Seq<char>, Window>;

    closed spec fn view(&self) -> Map<Seq<char>, Window> {
        self.windows@
    }
}

impl RateLimiter {
    /// A limiter that has seen no request.
    pub fn new() -> (r: Self)
        ensures
            r@ == Map::<Seq<char>, Window>::empty(),
    {
        RateLimiter { started: instant_now(), windows: TextMap::new() }
    }

    /// Whether a request passes, at `now` nanoseconds of the limiter's clock. Only the
    /// window of this token changes.
    pub fn check_at(&mut self, token_id: &str, max_ops_per_sec: u32, now: u128) -> (r: bool)
        ensures
            r == passes(window_at(old(self)@, token_id@, now), max_ops_per_sec, now),
            final(self)@ == old(self)@.insert(
                token_id@,
                advanced(window_at(old(self)@, token_id@, now), max_ops_per_sec, now),
            ),
    {
        let w: Window = match self.windows.get(token_id) {
            Some(x) => *x,
            None => Window { start: now, count: 0 },
        };
        let old_window = w.start <= now && now - w.start >= WINDOW_NANOS;
        if max_ops_per_sec == 0 {
            self.windows.insert(token_id, w);
            false
        } else if old_window {
            self.windows.insert(token_id, Window { start: now, count: 1 });
            true
        } else if w.count < max_ops_per_sec {
            self.windows.insert(token_id, Window { start: w.start, count: w.count + 1 });
            true
        } else {
            self.windows.insert(token_id, w);
            false
        }
    }

    /// Whether a request passes now, for a limit in operations per second. The result
    /// is that of [`RateLimiter::check_at`] at the present moment.
    pub fn check(&mut self, token_id: &str, max_ops_per_sec: u32) -> (r: bool)
        ensures
            exists|now: u128|
                {
                    &&& r == #[trigger] passes(
                        window_at(old(self)@, token_id@, now),
                        max_ops_per_sec,
                        now,
                    )
                    &&& final(self)@ == old(self)@.insert(
                        token_id@,
                        advanced(window_at(old(self)@, token_id@, now), max_ops_per_sec, now),
                    )
                },
    {
        let now: u128 = nanos_since(&self.started);
        self.check_at(token_id, max_ops_per_sec, now)
    }
}

impl Default for RateLimiter {
    fn default() -> (r: Self)
        ensures
            r@ == Map::<Seq<char>, Window>::empty(),
    {
        RateLimiter::new()
    }
}

/// How many of a token's requests at these moments pass, from a window on.
pub open spec fn passed(w: Window, limit: u32, moments: Seq<u128>) -> nat
    decreases moments.len(),
{
    if moments.len() == 0 {
        0
    } else {
        let rest = passed(advanced(w, limit, moments[0]), limit, moments.skip(1));
        if passes(w, limit, moments[0]) {
            rest + 1
        } else {
            rest
        }
    }
}

/// Of the requests that fall in one window, those pass that the limit has room for, and
/// no more.
pub proof fn law_a_window_passes_its_limit(w: Window, limit: u32, moments: Seq<u128>)
    requires
        w.count <= limit,
        forall|i: int| 0 <= i < moments.len() ==> !expired(w, #[trigger] moments[i]),
    ensures
        passed(w, limit, moments) == if moments.len() <= limit - w.count {
            moments.len() as int
        } else {
            limit - w.count
        },
    decreases moments.len(),
{
    if moments.len() > 0 {
        let next = advanced(w, limit, moments[0]);
        assert(!expired(w, moments[0]));
        assert(next.start == w.start);
        let rest = moments.skip(1);
        assert forall|i: int| 0 <= i < rest.len() implies !expired(next, #[trigger] rest[i]) by {
            assert(rest[i] == moments[i + 1]);
        }
        law_a_window_passes_its_limit(next, limit, rest);
    }
}

/// The window after the first `n` of a token's requests at these moments.
pub open spec fn window_after(w: Window, limit: u32, moments: Seq<u128>, n: nat) -> Window
    decreases n,
{
    if n == 0 {
        w
    } else {
        let before = window_after(w, limit, moments, (n - 1) as nat);
        advanced(before, limit, moments[n - 1])
    }
}

/// Of the requests that fall in one window, the first pass, as many as the limit has room
/// for, and none after them.
pub proof fn law_the_first_requests_pass(w: Window, limit: u32, moments: Seq<u128>, n: nat)
    requires
        w.count <= limit,
        n < moments.len(),
        forall|i: int| 0 <= i < moments.len() ==> !expired(w, #[trigger] moments[i]),
    ensures
        passes(window_after(w, limit, moments, n), limit, moments[n as int]) <==> n < limit
            - w.count,
{
    lemma_window_fills(w, limit, moments, n);
}

proof fn lemma_window_fills(w: Window, limit: u32, moments: Seq<u128>, n: nat)
    requires
        w.count <= limit,
        n <= moments.len(),
        forall|i: int| 0 <= i < moments.len() ==> !expired(w, #[trigger] moments[i]),
    ensures
        window_after(w, limit, moments, n).start == w.start,
        window_after(w, limit, moments, n).count == if n < limit - w.count {
            w.count + n
        } else {
            limit as int
        },
    decreases n,
{
    if n > 0 {
        lemma_window_fills(w, limit, moments, (n - 1) as nat);
        assert(!expired(w, moments[n - 1]));
    }
}

/// A limit of nothing admits nothing, in every state and at every moment.
pub proof fn law_no_limit_admits_nothing(w: Window, now: u128)
    ensures
        !passes(w, 0, now),
{
}

/// How a limiter takes a request. Within a second of the beginning of a token's window it
/// passes exactly while fewer than the limit have passed in it, and only what passes is
/// counted; from a second on, and for a token that was not seen before, it opens a new window,
/// which it is the first in. A limit of nothing passes nothing.
pub proof fn law_how_a_request_is_counted(
    windows: Map<Seq<char>, Window>,
    token: Seq<char>,
    limit: u32,
    now: u128,
)
    ensures
        ({
            let w = window_at(windows, token, now);
            let after = advanced(w, limit, now);
            let seen = windows.dom().contains(token);
            &&& seen && now - windows[token].start < 1_000_000_000 ==> (passes(w, limit, now)
                <==> windows[token].count < limit) && after.start == windows[token].start
                && after.count == windows[token].count + if windows[token].count < limit {
                1int
            } else {
                0
            }
            &&& seen && now - windows[token].start >= 1_000_000_000 && limit > 0 ==> passes(
                w,
                limit,
                now,
            ) && after == (Window { start: now, count: 1 })
            &&& !seen && limit > 0 ==> passes(w, limit, now) && after == (Window {
                start: now,
                count: 1,
            })
        }),
{
}

} // verus!
