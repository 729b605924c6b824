//! Resource limits.

use ferrotunnel::codec::TunnelCodec;
use ferrotunnel::config::LimitsConfig;
use ferrotunnel::constants::MAX_FRAME_SIZE;
use ferrotunnel::limits::validate_limits;

#[test]
fn accepts_default_limits() {
    assert!(validate_limits(&LimitsConfig::default()).is_ok());
}

#[test]
fn rejects_zero_frame_bytes() {
    let limits = LimitsConfig { max_frame_bytes: 0, ..Default::default() };
    assert!(validate_limits(&limits).is_err());
}

#[test]
fn rejects_frame_bytes_above_ceiling() {
    let limits =
        LimitsConfig { max_frame_bytes: u64::from(MAX_FRAME_SIZE) + 1, ..Default::default() };
    assert!(validate_limits(&limits).is_err());
}

#[test]
fn rejects_zero_sessions() {
    let limits = LimitsConfig { max_sessions: 0, ..Default::default() };
    assert!(validate_limits(&limits).is_err());
}

#[test]
fn rejects_zero_streams_per_session() {
    let limits = LimitsConfig { max_streams_per_session: 0, ..Default::default() };
    assert!(validate_limits(&limits).is_err());
}

#[test]
fn rejects_zero_inflight_frames() {
    let limits = LimitsConfig { max_inflight_frames: 0, ..Default::default() };
    assert!(validate_limits(&limits).is_err());
}

#[test]
fn limits_that_pass_suit_the_codec() {
    let limits = LimitsConfig { max_frame_bytes: u64::from(MAX_FRAME_SIZE), ..Default::default() };
    assert!(validate_limits(&limits).is_ok());
    assert_eq!(TunnelCodec::from_limits(&limits).max_frame_size(), 16_777_216);
}
