//! Configuration types shared by client and server.

use vstd::prelude::*;

verus! {

/// TLS configuration. Paths are kept as text.
#[derive(Debug, Clone)]
pub struct TlsConfig {
    /// Enable TLS.
    pub enabled: bool,
    /// Path to the CA certificate (for client verification or server trust).
    pub ca_cert_path: Option<String>,
    /// Path to the certificate file.
    pub cert_path: Option<String>,
    /// Path to the private key file.
    pub key_path: Option<String>,
    /// Server name for SNI (client side).
    pub server_name: Option<String>,
    /// Require client certificate authentication.
    pub client_auth: bool,
    /// Skip certificate verification. Leaves connections unauthenticated, so it is off
    /// unless a configuration asks for it.
    pub skip_verify: bool,
}

impl Default for TlsConfig {
    fn default() -> (r: TlsConfig)
        ensures
            !r.enabled,
            r.ca_cert_path is None,
            r.cert_path is None,
            r.key_path is None,
            r.server_name is None,
            !r.client_auth,
            !r.skip_verify,
    {
        TlsConfig {
            enabled: false,
            ca_cert_path: None,
            cert_path: None,
            key_path: None,
            server_name: None,
            client_auth: false,
            skip_verify: false,
        }
    }
}

/// Resource limits configuration.
#[derive(Debug, Clone, Copy, PartialEq, Eq, Structural)]
pub struct LimitsConfig {
    /// Maximum frame size in bytes.
    pub max_frame_bytes: u64,
    /// Maximum concurrent sessions per server.
    pub max_sessions: usize,
    /// Maximum streams per session.
    pub max_streams_per_session: usize,
    /// Maximum in-flight frames per session.
    pub max_inflight_frames: usize,
    /// Maximum token length in bytes.
    pub max_token_len: usize,
    /// Maximum number of capabilities.
    pub max_capabilities: usize,
    /// Maximum capability string length in bytes.
    pub max_capability_len: usize,
}

impl LimitsConfig {
    /// The limits that hold unless configured otherwise.
    pub open spec fn defaults() -> LimitsConfig {
        LimitsConfig {
            max_frame_bytes: 16_777_216,
            max_sessions: 1000,
            max_streams_per_session: 100,
            max_inflight_frames: 100,
            max_token_len: 256,
            max_capabilities: 32,
            max_capability_len: 64,
        }
    }
}

impl Default for LimitsConfig {
    fn default() -> (r: LimitsConfig)
        ensures
            r == LimitsConfig::defaults(),
    {
        LimitsConfig {
            max_frame_bytes: 16_777_216,
            max_sessions: 1000,
            max_streams_per_session: 100,
            max_inflight_frames: 100,
            max_token_len: 256,
            max_capabilities: 32,
            max_capability_len: 64,
        }
    }
}

/// Rate limiting configuration.
#[derive(Debug, Clone, Copy, PartialEq, Eq, Structural)]
pub struct RateLimitConfig {
    /// Maximum new streams per second per session.
    pub streams_per_sec: u32,
    /// Maximum bytes per second per session.
    pub bytes_per_sec: u64,
    /// Burst allowance multiplier applied to the per-second rates; zero counts as one.
    pub burst_factor: u32,
}

impl Default for RateLimitConfig {
    fn default() -> (r: RateLimitConfig)
        ensures
            r == (RateLimitConfig {
                streams_per_sec: 100,
                bytes_per_sec: 10_485_760,
                burst_factor: 2,
            }),
    {
        RateLimitConfig { streams_per_sec: 100, bytes_per_sec: 10_485_760, burst_factor: 2 }
    }
}

/// QUIC transport configuration. Paths are kept as text.
#[derive(Debug, Clone)]
pub struct QuicConfig {
    /// Enable the QUIC transport.
    pub enabled: bool,
    /// Path to the certificate file (QUIC mandates TLS 1.3).
    pub cert_path: Option<String>,
    /// Path to the private key file.
    pub key_path: Option<String>,
    /// Path to the CA certificate (for peer verification).
    pub ca_cert_path: Option<String>,
    /// Server name for SNI (client side).
    pub server_name: Option<String>,
    /// Request 0-RTT on reconnect.
    pub enable_0rtt: bool,
    /// Maximum idle timeout in seconds.
    pub max_idle_timeout_secs: Option<u64>,
    /// Keep-alive interval in seconds.
    pub keep_alive_interval_secs: Option<u64>,
    /// Skip certificate verification. Leaves connections unauthenticated, so it is off
    /// unless a configuration asks for it.
    pub skip_verify: bool,
}

impl Default for QuicConfig {
    fn default() -> (r: QuicConfig)
        ensures
            !r.enabled,
            r.cert_path is None,
            r.key_path is None,
            r.ca_cert_path is None,
            r.server_name is None,
            !r.enable_0rtt,
            r.max_idle_timeout_secs is None,
            r.keep_alive_interval_secs is None,
            !r.skip_verify,
    {
        QuicConfig {
            enabled: false,
            cert_path: None,
            key_path: None,
            ca_cert_path: None,
            server_name: None,
            enable_0rtt: false,
            max_idle_timeout_secs: None,
            keep_alive_interval_secs: None,
            skip_verify: false,
        }
    }
}

/// Unless configured, a frame has up to 16 MiB, a server 1000 sessions of 100 streams and 100 frames
/// in flight, and a session 100 streams and 10 MiB per second with twice as much at once; neither TLS
/// nor QUIC is used, and neither skips verification.
pub proof fn law_defaults(
    limits: LimitsConfig,
    rates: RateLimitConfig,
    tls: TlsConfig,
    quic: QuicConfig,
)
    requires
        call_ensures(LimitsConfig::default, (), limits),
        call_ensures(RateLimitConfig::default, (), rates),
        call_ensures(TlsConfig::default, (), tls),
        call_ensures(QuicConfig::default, (), quic),
    ensures
        limits.max_frame_bytes == 16 * 1024 * 1024,
        limits.max_sessions == 1000,
        limits.max_streams_per_session == 100,
        limits.max_inflight_frames == 100,
        limits.max_token_len == 256,
        limits.max_capabilities == 32,
        limits.max_capability_len == 64,
        rates.streams_per_sec == 100,
        rates.bytes_per_sec == 10 * 1024 * 1024,
        rates.burst_factor == 2,
        !tls.enabled && !tls.skip_verify && !tls.client_auth,
        !quic.enabled && !quic.skip_verify && !quic.enable_0rtt,
{
}

} // verus!
