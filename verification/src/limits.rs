//! Validation of resource limits, shared by the client, the server and the builders.

use vstd::prelude::*;

use crate::config::LimitsConfig;
use crate::constants::MAX_FRAME_SIZE;
use crate::error::TunnelError;

verus! {

/// The complaint about the first offending field, in the order in which fields are checked.
pub open spec fn limits_complaint(limits: LimitsConfig) -> Option<Seq<char>> {
    if limits.max_frame_bytes == 0 {
        Some("limits.max_frame_bytes must be greater than zero"@)
    } else if limits.max_frame_bytes > MAX_FRAME_SIZE {
        Some("limits.max_frame_bytes must not exceed 16777216 bytes"@)
    } else if limits.max_sessions == 0 {
        Some("limits.max_sessions must be greater than zero"@)
    } else if limits.max_streams_per_session == 0 {
        Some("limits.max_streams_per_session must be greater than zero"@)
    } else if limits.max_inflight_frames == 0 {
        Some("limits.max_inflight_frames must be greater than zero"@)
    } else {
        None
    }
}

/// Limits that every codec constructor and every semaphore accepts.
pub open spec fn limits_valid(limits: LimitsConfig) -> bool {
    &&& 1 <= limits.max_frame_bytes <= MAX_FRAME_SIZE
    &&& limits.max_sessions > 0
    &&& limits.max_streams_per_session > 0
    &&& limits.max_inflight_frames > 0
}

/// Validates resource limits before they are used to build codecs and semaphores.
///
/// Fails with [`TunnelError::Config`] describing the first offending field.
pub fn validate_limits(limits: &LimitsConfig) -> (r: Result<(), TunnelError>)
    ensures
        r is Ok <==> limits_valid(*limits),
        r is Ok <==> limits_complaint(*limits) is None,
        r matches Err(e) ==> e is Config && limits_complaint(*limits) == Some(e.text()),
{
    if limits.max_frame_bytes == 0 {
        return Err(
            TunnelError::Config("limits.max_frame_bytes must be greater than zero".to_owned()),
        );
    }
    if limits.max_frame_bytes > MAX_FRAME_SIZE as u64 {
        return Err(
            TunnelError::Config("limits.max_frame_bytes must not exceed 16777216 bytes".to_owned()),
        );
    }
    if limits.max_sessions == 0 {
        return Err(TunnelError::Config("limits.max_sessions must be greater than zero".to_owned()));
    }
    if limits.max_streams_per_session == 0 {
        return Err(
            TunnelError::Config(
                "limits.max_streams_per_session must be greater than zero".to_owned(),
            ),
        );
    }
    if limits.max_inflight_frames == 0 {
        return Err(
            TunnelError::Config("limits.max_inflight_frames must be greater than zero".to_owned()),
        );
    }
    Ok(())
}

/// Limits are accepted exactly where a frame may have from 1 byte to 16 MiB and there may be
/// sessions, streams and frames in flight; the first that is wrong is named.
pub proof fn law_usable_limits_are_accepted(limits: &LimitsConfig, r: Result<(), TunnelError>)
    requires
        call_ensures(validate_limits, (limits,), r),
    ensures
        r is Ok <==> 1 <= limits.max_frame_bytes <= 16 * 1024 * 1024 && limits.max_sessions >= 1
            && limits.max_streams_per_session >= 1 && limits.max_inflight_frames >= 1,
        r matches Err(e) ==> e is Config,
        limits.max_frame_bytes == 0 ==> r is Err && r->Err_0->Config_0@
            == "limits.max_frame_bytes must be greater than zero"@,
        limits.max_frame_bytes > 16 * 1024 * 1024 ==> r is Err && r->Err_0->Config_0@
            == "limits.max_frame_bytes must not exceed 16777216 bytes"@,
{
}

} // verus!
