//! Reconnection logic: when to try again, and for how long.
//!
//! How long to wait before an attempt follows from the number of the attempt, which is given
//! out here.

use vstd::prelude::*;

verus! {

/// Counts the attempts that a growing delay is computed from.
#[derive(Debug, Clone, Copy, PartialEq, Eq, Structural)]
pub struct Backoff {
    pub attempt: u32,
}

impl Backoff {
    /// The attempt that follows `n`; the count stops at its largest value.
    pub open spec fn following(n: u32) -> u32 {
        if n < u32::MAX {
            (n + 1) as u32
        } else {
            n
        }
    }

    /// Creates a count without attempts.
    pub fn new() -> (r: Backoff)
        ensures
            r.attempt == 0,
    {
        Backoff { attempt: 0 }
    }

    /// Gives out the attempt that the next delay is computed from, and counts it.
    pub fn next_attempt(&mut self) -> (r: u32)
        ensures
            r == old(self).attempt,
            final(self).attempt == Backoff::following(r),
    {
        let n: u32 = self.attempt;
        if n < u32::MAX {
            self.attempt = n + 1;
        }
        n
    }

    /// Starts anew, after a successful connection.
    pub fn reset(&mut self)
        ensures
            final(self).attempt == 0,
    {
        self.attempt = 0;
    }

    /// The number of attempts so far.
    pub fn attempts(&self) -> (r: u32)
        ensures
            r == self.attempt,
    {
        self.attempt
    }
}

/// Reconnection state.
#[derive(Debug, Clone, Copy, PartialEq, Eq, Structural)]
pub enum ReconnectState {
    /// Initial connection attempt.
    Connecting,
    /// Connected and running.
    Connected,
    /// Waiting before reconnection.
    Backoff,
    /// Reconnecting after failure.
    Reconnecting,
    /// Permanently failed (too many attempts).
    Failed,
}

/// Reconnection manager.
#[derive(Debug, Clone, Copy, PartialEq, Eq, Structural)]
pub struct ReconnectManager {
    pub backoff: Backoff,
    pub current: ReconnectState,
    /// Attempts after which to give up; without a bound, never.
    pub max_attempts: Option<u32>,
}

impl ReconnectManager {
    /// Whether another failure is the last.
    pub open spec fn exhausted(&self) -> bool {
        self.max_attempts matches Some(max) && self.backoff.attempt >= max
    }

    /// Creates a manager for a first connection.
    pub fn new(max_attempts: Option<u32>) -> (r: ReconnectManager)
        ensures
            r == (ReconnectManager {
                backoff: Backoff { attempt: 0 },
                current: ReconnectState::Connecting,
                max_attempts,
            }),
    {
        ReconnectManager {
            backoff: Backoff::new(),
            current: ReconnectState::Connecting,
            max_attempts,
        }
    }

    /// Marks the connection as successful.
    pub fn on_connected(&mut self)
        ensures
            *final(self) == (ReconnectManager {
                backoff: Backoff { attempt: 0 },
                current: ReconnectState::Connected,
                ..*old(self)
            }),
    {
        self.backoff.reset();
        self.current = ReconnectState::Connected;
    }

    /// Handles a failed connection: the attempt that the delay is computed from, or `None`
    /// where it is time to give up.
    pub fn on_disconnected(&mut self) -> (r: Option<u32>)
        ensures
            old(self).exhausted() ==> r is None && *final(self) == (ReconnectManager {
                current: ReconnectState::Failed,
                ..*old(self)
            }),
            !old(self).exhausted() ==> r == Some(old(self).backoff.attempt) && *final(self) == (
            ReconnectManager {
                backoff: Backoff { attempt: Backoff::following(old(self).backoff.attempt) },
                current: ReconnectState::Backoff,
                ..*old(self)
            }),
    {
        if let Some(max) = self.max_attempts {
            if self.backoff.attempts() >= max {
                self.current = ReconnectState::Failed;
                return None;
            }
        }
        self.current = ReconnectState::Backoff;
        let attempt: u32 = self.backoff.next_attempt();
        Some(attempt)
    }

    /// Marks the manager as reconnecting, after the wait.
    pub fn start_reconnect(&mut self)
        ensures
            *final(self) == (ReconnectManager {
                current: ReconnectState::Reconnecting,
                ..*old(self)
            }),
    {
        self.current = ReconnectState::Reconnecting;
    }

    /// The current state.
    pub fn state(&self) -> (r: ReconnectState)
        ensures
            r == self.current,
    {
        self.current
    }

    /// Whether to continue trying.
    pub fn should_retry(&self) -> (r: bool)
        ensures
            r == (self.current != ReconnectState::Failed),
    {
        self.current != ReconnectState::Failed
    }
}

/// A manager after `n` failures in a row.
pub open spec fn after_failures(manager: ReconnectManager, n: nat) -> ReconnectManager
    decreases n,
{
    if n == 0 {
        manager
    } else {
        let before = after_failures(manager, (n - 1) as nat);
        if before.exhausted() {
            ReconnectManager { current: ReconnectState::Failed, ..before }
        } else {
            ReconnectManager {
                backoff: Backoff { attempt: Backoff::following(before.backoff.attempt) },
                current: ReconnectState::Backoff,
                ..before
            }
        }
    }
}

/// With a bound of `max` attempts, `max` failures in a row are retried, and the next is not.
pub proof fn law_gives_up_after_the_bound(max: u32, n: nat)
    ensures
        ({
            let m = ReconnectManager {
                backoff: Backoff { attempt: 0 },
                current: ReconnectState::Connecting,
                max_attempts: Some(max),
            };
            &&& after_failures(m, n).current == ReconnectState::Failed <==> n > max
            &&& n <= max ==> after_failures(m, n).backoff.attempt == n
        }),
    decreases n,
{
    if n > 0 {
        law_gives_up_after_the_bound(max, (n - 1) as nat);
        let m = ReconnectManager {
            backoff: Backoff { attempt: 0 },
            current: ReconnectState::Connecting,
            max_attempts: Some(max),
        };
        lemma_attempts(m, max, (n - 1) as nat);
    }
}

proof fn lemma_attempts(m: ReconnectManager, max: u32, n: nat)
    requires
        m.max_attempts == Some(max),
        m.backoff.attempt == 0,
    ensures
        after_failures(m, n).max_attempts == Some(max),
        after_failures(m, n).backoff.attempt == (if n <= max {
            n
        } else {
            max as nat
        }),
    decreases n,
{
    if n > 0 {
        lemma_attempts(m, max, (n - 1) as nat);
    }
}

/// Without a bound, no number of failures is the last.
pub proof fn law_never_gives_up_without_a_bound(manager: ReconnectManager, n: nat)
    requires
        manager.max_attempts is None,
        manager.current != ReconnectState::Failed,
    ensures
        after_failures(manager, n).current != ReconnectState::Failed,
        after_failures(manager, n).max_attempts is None,
    decreases n,
{
    if n > 0 {
        law_never_gives_up_without_a_bound(manager, (n - 1) as nat);
    }
}

/// A manager whose count starts anew, as after its creation or a connection, retries failures in
/// a row up to its bound: where `k` were retried, the next is refused where the bound is `k` or
/// less, which leaves the manager failed; else it is retried, from attempt `k` on, and the
/// manager waits.
pub proof fn law_failures_are_retried_up_to_the_bound(manager: ReconnectManager, k: nat)
    requires
        manager.backoff.attempt == 0,
        k < u32::MAX,
        manager.max_attempts matches Some(max) ==> k <= max,
    ensures
        after_failures(manager, k).backoff.attempt == k,
        after_failures(manager, k).exhausted() <==> (manager.max_attempts matches Some(max) && k
            >= max),
        after_failures(manager, k + 1).current == (if manager.max_attempts matches Some(max) && k
            >= max {
            ReconnectState::Failed
        } else {
            ReconnectState::Backoff
        }),
        after_failures(manager, k).max_attempts == manager.max_attempts,
    decreases k,
{
    if k > 0 {
        law_failures_are_retried_up_to_the_bound(manager, (k - 1) as nat);
    }
}

/// A failure is retried from the attempt that is next, which is then counted, until the bound is
/// reached; then the manager has failed, and does not try again. A connection starts the count anew.
pub proof fn law_failure_is_retried_or_final(
    bound: Option<u32>,
    fresh: ReconnectManager,
    manager: &mut ReconnectManager,
    r: Option<u32>,
    retries: bool,
    connected: &mut ReconnectManager,
    trying: &mut ReconnectManager,
)
    requires
        call_ensures(ReconnectManager::new, (bound,), fresh),
        call_ensures(ReconnectManager::on_disconnected, (manager,), r),
        call_ensures(ReconnectManager::should_retry, (&*final(manager),), retries),
        call_ensures(ReconnectManager::on_connected, (connected,), ()),
        call_ensures(ReconnectManager::start_reconnect, (trying,), ()),
    ensures
        fresh.backoff.attempt == 0 && fresh.max_attempts == bound && fresh.current
            == ReconnectState::Connecting,
        r is None <==> old(manager).max_attempts is Some && old(manager).backoff.attempt
            >= old(manager).max_attempts->0,
        retries <==> r is Some,
        r is Some ==> r->0 == old(manager).backoff.attempt && final(manager).current
            == ReconnectState::Backoff,
        r is Some && old(manager).backoff.attempt < u32::MAX ==> final(manager).backoff.attempt
            == old(manager).backoff.attempt + 1,
        r is None ==> final(manager).current == ReconnectState::Failed,
        final(manager).max_attempts == old(manager).max_attempts,
        final(connected).backoff.attempt == 0 && final(connected).current
            == ReconnectState::Connected,
        final(trying).current == ReconnectState::Reconnecting && final(trying).backoff
            == old(trying).backoff,
{
}

/// Attempts are given out in turn, from zero, and start anew where the count is reset.
pub proof fn law_attempts_are_counted(
    fresh: Backoff,
    backoff: &mut Backoff,
    r: u32,
    after: u32,
    anew: &mut Backoff,
)
    requires
        call_ensures(Backoff::new, (), fresh),
        old(backoff).attempt < u32::MAX,
        call_ensures(Backoff::next_attempt, (backoff,), r),
        call_ensures(Backoff::attempts, (&*final(backoff),), after),
        call_ensures(Backoff::reset, (anew,), ()),
    ensures
        fresh.attempt == 0,
        r == old(backoff).attempt,
        after == r + 1,
        final(anew).attempt == 0,
{
}

} // verus!
