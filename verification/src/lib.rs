//! A reverse tunnel: the wire protocol, the session and stream bookkeeping, the
//! ingress rules and the configuration of client and server, as verified code.

pub mod config;
pub mod constants;
pub mod error;
pub mod limits;
pub mod frame;
pub mod text;
pub mod validation;
pub mod wire;
pub mod codec;
pub mod rate_limit;
pub mod net;
pub mod session;
pub mod sharded;
pub mod auth;
pub mod multiplexer;
pub mod virtual_stream;
pub mod batched_sender;
pub mod rate_limited;
pub mod quic_multiplexer;
pub mod reconnect;
pub mod accept_backoff;
pub mod transport;
pub mod resource_limits;
pub mod handshake;
pub mod tunnel_server;
pub mod http;
pub mod ingress;
pub mod http3_ingress;
pub mod pool;
pub mod plugin;
pub mod tcp_ingress;
pub mod dashboard;
pub mod capture;
pub mod metrics;
pub mod tunnel_config;
pub mod client;
pub mod server;
pub mod cli_client;
pub mod cli_server;
