//! Whether metrics are collected.

use vstd::prelude::*;

verus! {

/// How far metrics have come: they are registered at most once.
#[derive(Debug, Clone, Copy, PartialEq, Eq, Structural)]
pub enum MetricsState {
    /// Nothing was tried.
    Untried,
    /// They are registered and collected.
    Enabled,
    /// Registering them failed, and is not tried again.
    Failed,
}

impl Default for MetricsState {
    fn default() -> (r: MetricsState)
        ensures
            r == MetricsState::Untried,
    {
        MetricsState::Untried
    }
}

/// Initializes metrics, where that was not tried before; `registered` says whether registering
/// them succeeds. Later calls change nothing.
pub fn init_metrics(state: &mut MetricsState, registered: bool)
    ensures
        *final(state) == metrics_after_init(*old(state), registered),
{
    match *state {
        MetricsState::Untried => {
            *state = if registered {
                MetricsState::Enabled
            } else {
                MetricsState::Failed
            };
        },
        _ => {},
    }
}

/// The state after metrics were initialized.
pub open spec fn metrics_after_init(state: MetricsState, registered: bool) -> MetricsState {
    if state == MetricsState::Untried {
        if registered {
            MetricsState::Enabled
        } else {
            MetricsState::Failed
        }
    } else {
        state
    }
}

/// Whether metrics are collected.
pub fn metrics_enabled(state: &MetricsState) -> (r: bool)
    ensures
        r == (*state == MetricsState::Enabled),
{
    *state == MetricsState::Enabled
}

/// Initializing metrics a second time changes nothing.
pub proof fn law_init_metrics_is_idempotent(state: MetricsState, first: bool, second: bool)
    ensures
        metrics_after_init(metrics_after_init(state, first), second) == metrics_after_init(
            state,
            first,
        ),
{
}

/// Metrics are collected exactly where the first try to register them succeeded, whatever later
/// tries bring.
pub proof fn law_first_try_decides(
    first: &mut MetricsState,
    registered: bool,
    later: &mut MetricsState,
    again: bool,
    fresh: MetricsState,
    before: bool,
    after: bool,
    r: bool,
)
    requires
        call_ensures(MetricsState::default, (), fresh),
        *old(first) == fresh,
        call_ensures(init_metrics, (first, registered), ()),
        *old(later) == *final(first),
        call_ensures(init_metrics, (later, again), ()),
        call_ensures(metrics_enabled, (&fresh,), before),
        call_ensures(metrics_enabled, (&*final(first),), after),
        call_ensures(metrics_enabled, (&*final(later),), r),
    ensures
        !before,
        after == registered,
        r == registered,
{
}

} // verus!
