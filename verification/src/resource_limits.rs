//! How many sessions a server carries at once.

use vstd::prelude::*;

use crate::config::LimitsConfig;
use crate::error::TunnelError;

verus! {

/// The sessions that a server may still take on, and the bounds on each of them.
#[derive(Debug, Clone, Copy, PartialEq, Eq, Structural)]
pub struct ServerResourceLimits {
    pub max_sessions: usize,
    pub active_sessions: usize,
    pub max_streams_per_session: usize,
    pub max_inflight_frames: usize,
}

impl ServerResourceLimits {
    /// Whether no more sessions are active than may be.
    pub open spec fn wf(&self) -> bool {
        self.active_sessions <= self.max_sessions
    }

    /// Creates limits for a server without sessions.
    pub fn new(max_sessions: usize, max_streams_per_session: usize, max_inflight_frames: usize) -> (r:
        ServerResourceLimits)
        ensures
            r.wf(),
            r == (ServerResourceLimits {
                max_sessions,
                active_sessions: 0,
                max_streams_per_session,
                max_inflight_frames,
            }),
    {
        ServerResourceLimits {
            max_sessions,
            active_sessions: 0,
            max_streams_per_session,
            max_inflight_frames,
        }
    }

    /// Creates limits from the shared configuration.
    pub fn from_limits(limits: &LimitsConfig) -> (r: ServerResourceLimits)
        ensures
            r.wf(),
            r == (ServerResourceLimits {
                max_sessions: limits.max_sessions,
                active_sessions: 0,
                max_streams_per_session: limits.max_streams_per_session,
                max_inflight_frames: limits.max_inflight_frames,
            }),
    {
        ServerResourceLimits::new(
            limits.max_sessions,
            limits.max_streams_per_session,
            limits.max_inflight_frames,
        )
    }

    /// The number of sessions that may still be taken on.
    pub fn available_sessions(&self) -> (r: usize)
        requires
            self.wf(),
        ensures
            r == self.max_sessions - self.active_sessions,
    {
        self.max_sessions - self.active_sessions
    }

    /// Takes on a session, unless as many are active as may be.
    pub fn try_acquire_session(&mut self) -> (r: Result<(), TunnelError>)
        requires
            old(self).wf(),
        ensures
            final(self).wf(),
            r is Ok <==> old(self).active_sessions < old(self).max_sessions,
            r is Ok ==> *final(self) == (ServerResourceLimits {
                active_sessions: (old(self).active_sessions + 1) as usize,
                ..*old(self)
            }),
            r matches Err(e) ==> e is ServiceUnavailable && e.text() == "session limit reached"@
                && *final(self) == *old(self),
    {
        if self.active_sessions >= self.max_sessions {
            return Err(TunnelError::ServiceUnavailable("session limit reached".to_owned()));
        }
        self.active_sessions = self.active_sessions + 1;
        Ok(())
    }

    /// Gives up a session that was taken on.
    pub fn release_session(&mut self)
        requires
            old(self).wf(),
            old(self).active_sessions > 0,
        ensures
            final(self).wf(),
            *final(self) == (ServerResourceLimits {
                active_sessions: (old(self).active_sessions - 1) as usize,
                ..*old(self)
            }),
    {
        self.active_sessions = self.active_sessions - 1;
    }
}

impl Default for ServerResourceLimits {
    fn default() -> (r: ServerResourceLimits)
        ensures
            r.wf(),
            r == (ServerResourceLimits {
                max_sessions: 1000,
                active_sessions: 0,
                max_streams_per_session: 100,
                max_inflight_frames: 100,
            }),
    {
        let limits = LimitsConfig::default();
        ServerResourceLimits::from_limits(&limits)
    }
}

/// A server takes on sessions up to its maximum, each one less that it may still take on, and one
/// more again for each that it gives up; beyond the maximum it refuses.
pub proof fn law_sessions_are_counted(
    max_sessions: usize,
    streams: usize,
    frames: usize,
    fresh: ServerResourceLimits,
    limits: &mut ServerResourceLimits,
    before: usize,
    r: Result<(), TunnelError>,
    after: usize,
    giving: &mut ServerResourceLimits,
    regained: usize,
)
    requires
        call_ensures(ServerResourceLimits::new, (max_sessions, streams, frames), fresh),
        old(limits).active_sessions <= old(limits).max_sessions,
        call_ensures(ServerResourceLimits::available_sessions, (&*old(limits),), before),
        call_ensures(ServerResourceLimits::try_acquire_session, (limits,), r),
        call_ensures(ServerResourceLimits::available_sessions, (&*final(limits),), after),
        r is Ok ==> *old(giving) == *final(limits) && call_ensures(
            ServerResourceLimits::release_session,
            (giving,),
            (),
        ) && call_ensures(ServerResourceLimits::available_sessions, (&*final(giving),), regained),
    ensures
        fresh.active_sessions == 0 && fresh.max_sessions == max_sessions,
        fresh.max_streams_per_session == streams && fresh.max_inflight_frames == frames,
        r is Ok <==> before > 0,
        r is Ok ==> after == before - 1 && regained == before,
        r matches Err(e) ==> after == before && e is ServiceUnavailable,
{
}

/// The limits of a server are the configured ones.
pub proof fn law_server_limits_are_the_configured_ones(
    limits: &LimitsConfig,
    r: ServerResourceLimits,
    usual: ServerResourceLimits,
)
    requires
        call_ensures(ServerResourceLimits::from_limits, (limits,), r),
        call_ensures(ServerResourceLimits::default, (), usual),
    ensures
        r.max_sessions == limits.max_sessions,
        r.active_sessions == 0,
        r.max_streams_per_session == limits.max_streams_per_session,
        r.max_inflight_frames == limits.max_inflight_frames,
        usual.max_sessions == 1000,
        usual.max_streams_per_session == 100,
{
}

} // verus!
