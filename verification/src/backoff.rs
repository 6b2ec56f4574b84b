//! When the client dials the proxy again.
use vstd::arithmetic::power2::pow2;
use vstd::prelude::*;

verus! {

/// The longest wait between two attempts, in seconds.
pub const MAX_DELAY: u64 = 60;

/// No more than [`MAX_DELAY`].
pub open spec fn capped(seconds: int) -> int {
    if seconds <= MAX_DELAY {
        seconds
    } else {
        MAX_DELAY as int
    }
}

/// How the last tunnel came to its end.
#[derive(Debug, Clone, Copy, PartialEq, Eq, Structural)]
pub enum TunnelEnd {
    /// It was closed in an orderly way.
    Closed,
    /// It could not be set up, or broke.
    Failed,
}

/// The waits of a client that reconnects.
#[derive(Debug)]
pub struct Backoff {
    base: u64,
    delay: u64,
}

/// How long a client waits: after the first failure in a row, and after the next.
pub struct BackoffView {
    pub base: int,
    pub delay: int,
}

/// How long the client waits after a tunnel has come to its end: not at all after
/// an orderly close, and the delay that is due after a failure.
pub open spec fn wait_after(state: BackoffView, end: TunnelEnd) -> int {
    match end {
        TunnelEnd::Closed => 0,
        TunnelEnd::Failed => state.delay,
    }
}

/// The delay that is due next: the first one again after an orderly close, and
/// twice as long a one after a failure.
pub open spec fn backoff_next(state: BackoffView, end: TunnelEnd) -> BackoffView {
    BackoffView {
        base: state.base,
        delay: match end {
            TunnelEnd::Closed => state.base,
            TunnelEnd::Failed => capped(state.delay * 2),
        },
    }
}

/// The delay of a client that has just started, or just lost a tunnel in an
/// orderly way.
pub open spec fn backoff_start(reconnect_delay: u64) -> BackoffView {
    BackoffView { base: capped(reconnect_delay as int), delay: capped(reconnect_delay as int) }
}

impl View for Backoff {
    type V = BackoffView;

    closed spec fn view(&self) -> BackoffView {
        BackoffView { base: self.base as int, delay: self.delay as int }
    }
}

impl Backoff {
    /// Both delays keep to the longest one.
    #[verifier::type_invariant]
    spec fn wf(self) -> bool {
        self.base <= MAX_DELAY && self.delay <= MAX_DELAY
    }

    /// The waits of a client whose first one is to be `reconnect_delay` seconds.
    pub fn new(reconnect_delay: u64) -> (res: Self)
        ensures
            res@ == backoff_start(reconnect_delay),
    {
        let first: u64 = if reconnect_delay <= MAX_DELAY {
            reconnect_delay
        } else {
            MAX_DELAY
        };
        Backoff { base: first, delay: first }
    }

    /// How many seconds to wait before the next attempt.
    pub fn wait(&mut self, end: TunnelEnd) -> (seconds: u64)
        ensures
            seconds == wait_after(old(self)@, end),
            final(self)@ == backoff_next(old(self)@, end),
    {
        proof {
            use_type_invariant(&*self);
        }
        match end {
            TunnelEnd::Closed => {
                self.delay = self.base;
                0
            },
            TunnelEnd::Failed => {
                let seconds: u64 = self.delay;
                let doubled: u64 = seconds * 2;
                self.delay = if doubled <= MAX_DELAY {
                    doubled
                } else {
                    MAX_DELAY
                };
                seconds
            },
        }
    }
}

/// The state after tunnels have come to their ends in this order.
pub open spec fn backoff_after(state: BackoffView, ends: Seq<TunnelEnd>) -> BackoffView
    decreases ends.len(),
{
    if ends.len() == 0 {
        state
    } else {
        backoff_next(backoff_after(state, ends.drop_last()), ends.last())
    }
}

/// Whatever has happened, no wait is longer than the longest one.
pub proof fn waits_are_bounded(reconnect_delay: u64, ends: Seq<TunnelEnd>, end: TunnelEnd)
    ensures
        0 <= wait_after(backoff_after(backoff_start(reconnect_delay), ends), end) <= MAX_DELAY,
        backoff_after(backoff_start(reconnect_delay), ends).base == backoff_start(
            reconnect_delay,
        ).base,
    decreases ends.len(),
{
    if ends.len() > 0 {
        waits_are_bounded(reconnect_delay, ends.drop_last(), TunnelEnd::Failed);
    }
}

/// `n` failures in a row.
pub open spec fn failures(n: nat) -> Seq<TunnelEnd> {
    Seq::new(n, |i: int| TunnelEnd::Failed)
}

/// The backoff is exponential, up to its limit: after `n` failures in a row the
/// wait is the first one doubled `n` times, or the longest one.
pub proof fn backoff_is_exponential(reconnect_delay: u64, n: nat)
    ensures
        wait_after(
            backoff_after(backoff_start(reconnect_delay), failures(n)),
            TunnelEnd::Failed,
        ) == capped(reconnect_delay * pow2(n)),
    decreases n,
{
    if n == 0 {
        vstd::arithmetic::power2::lemma2_to64();
        assert(reconnect_delay * pow2(0) == reconnect_delay) by (nonlinear_arith)
            requires
                pow2(0) == 1,
        ;
    } else {
        let m = (n - 1) as nat;
        backoff_is_exponential(reconnect_delay, m);
        assert(failures(n).drop_last() =~= failures(m));
        vstd::arithmetic::power2::lemma_pow2_unfold(n);
        let d = reconnect_delay as int;
        let p = pow2(m) as int;
        assert(d * (2 * p) == 2 * (d * p)) by (nonlinear_arith);
        assert(0 <= d * p) by (nonlinear_arith)
            requires
                0 <= d,
                0 <= p,
        ;
        assert(reconnect_delay * pow2(n) == d * (2 * p));
        assert(reconnect_delay * pow2(m) == d * p);
    }
}

/// After an orderly close the client dials again at once, and the waits after the
/// failures that follow begin anew, whatever has happened before.
pub proof fn close_starts_anew(reconnect_delay: u64, ends: Seq<TunnelEnd>)
    ensures
        wait_after(
            backoff_after(backoff_start(reconnect_delay), ends),
            TunnelEnd::Closed,
        ) == 0,
        backoff_after(backoff_start(reconnect_delay), ends.push(TunnelEnd::Closed))
            == backoff_start(reconnect_delay),
{
    waits_are_bounded(reconnect_delay, ends, TunnelEnd::Closed);
    assert(ends.push(TunnelEnd::Closed).drop_last() =~= ends);
}

} // verus!
