//! Transports: what their configuration means, and how a frame is pushed to one.

use vstd::prelude::*;

use crate::config::{QuicConfig, TlsConfig};
use crate::error::TunnelError;
use crate::text::{find_char, first_at, number_outgrows, number_value, opt_text, outgrows,
    parse_number, rsplit_once, split_last};

verus! {

/// Idle timeout of QUIC connections in seconds, unless configured.
pub const DEFAULT_MAX_IDLE_TIMEOUT_SECS: u64 = 30;

/// Keep-alive interval of QUIC connections in seconds, unless configured.
pub const DEFAULT_KEEP_ALIVE_INTERVAL_SECS: u64 = 10;

/// TLS transport configuration. An empty path is none.
#[derive(Debug, Clone)]
pub struct TlsTransportConfig {
    pub ca_cert_path: Option<String>,
    pub cert_path: String,
    pub key_path: String,
    pub server_name: Option<String>,
    pub client_auth: bool,
    /// Skip certificate verification (insecure, for self-signed certificates).
    pub skip_verify: bool,
}

impl Default for TlsTransportConfig {
    fn default() -> (r: TlsTransportConfig)
        ensures
            r.ca_cert_path is None,
            r.cert_path@.len() == 0,
            r.key_path@.len() == 0,
            r.server_name is None,
            !r.client_auth,
            !r.skip_verify,
    {
        TlsTransportConfig {
            ca_cert_path: None,
            cert_path: String::new(),
            key_path: String::new(),
            server_name: None,
            client_auth: false,
            skip_verify: false,
        }
    }
}

fn copy_text(s: &Option<String>) -> (r: Option<String>)
    ensures
        opt_text(r) == opt_text(*s),
{
    match s {
        Some(t) => Some(t.clone()),
        None => None,
    }
}

/// The text itself, or an empty one in the place of none.
pub open spec fn text_or_empty(s: Option<String>) -> Seq<char> {
    match s {
        Some(t) => t@,
        None => Seq::empty(),
    }
}

fn copy_or_empty(s: &Option<String>) -> (r: String)
    ensures
        r@ == text_or_empty(*s),
{
    match s {
        Some(t) => t.clone(),
        None => String::new(),
    }
}

impl TlsTransportConfig {
    /// Whether this is what a shared configuration says.
    pub open spec fn says(self, config: TlsConfig) -> bool {
        &&& opt_text(self.ca_cert_path) == opt_text(config.ca_cert_path)
        &&& self.cert_path@ == text_or_empty(config.cert_path)
        &&& self.key_path@ == text_or_empty(config.key_path)
        &&& opt_text(self.server_name) == opt_text(config.server_name)
        &&& self.client_auth == config.client_auth
        &&& self.skip_verify == config.skip_verify
    }

    /// Builds from the shared configuration when TLS is enabled.
    pub fn from_common(config: &TlsConfig) -> (r: Option<TlsTransportConfig>)
        ensures
            r is Some <==> config.enabled,
            r matches Some(t) ==> t.says(*config),
    {
        if !config.enabled {
            return None;
        }
        Some(
            TlsTransportConfig {
                ca_cert_path: copy_text(&config.ca_cert_path),
                cert_path: copy_or_empty(&config.cert_path),
                key_path: copy_or_empty(&config.key_path),
                server_name: copy_text(&config.server_name),
                client_auth: config.client_auth,
                skip_verify: config.skip_verify,
            },
        )
    }
}

/// How a client authenticates the server.
#[derive(Debug, Clone)]
pub enum ServerVerification {
    /// Not at all.
    Skipped,
    /// By the certificates in this file.
    Roots(String),
}

/// What a client's TLS configuration is built from.
#[derive(Debug, Clone)]
pub struct ClientTlsPlan {
    pub verification: ServerVerification,
    /// The files of the client's certificate and key, where it presents one.
    pub identity: Option<(String, String)>,
}

/// Decides what a client's TLS configuration is built from.
///
/// The server is authenticated by a CA certificate, which is required unless verification is
/// skipped. The client presents a certificate where both of its files are configured.
pub fn client_tls_plan(config: &TlsTransportConfig) -> (r: Result<ClientTlsPlan, TunnelError>)
    ensures
        r is Err <==> !config.skip_verify && config.ca_cert_path is None,
        r matches Err(e) ==> e is Io && e.text()
            == "CA certificate path required for TLS (or use --tls-skip-verify)"@,
        r matches Ok(plan) ==> {
            &&& plan.verification is Skipped <==> config.skip_verify
            &&& plan.verification matches ServerVerification::Roots(p) ==> opt_text(
                config.ca_cert_path,
            ) == Some(p@)
            &&& plan.identity is Some <==> config.cert_path@.len() > 0 && config.key_path@.len() > 0
            &&& plan.identity matches Some((c, k)) ==> c@ == config.cert_path@ && k@
                == config.key_path@
        },
{
    let verification = if config.skip_verify {
        ServerVerification::Skipped
    } else {
        match &config.ca_cert_path {
            Some(path) => ServerVerification::Roots(path.clone()),
            None => {
                return Err(
                    TunnelError::Io(
                        "CA certificate path required for TLS (or use --tls-skip-verify)".to_owned(),
                    ),
                );
            },
        }
    };
    let identity: Option<(String, String)> = if !config.cert_path.as_str().is_empty()
        && !config.key_path.as_str().is_empty() {
        Some((config.cert_path.clone(), config.key_path.clone()))
    } else {
        None
    };
    Ok(ClientTlsPlan { verification, identity })
}

/// Decides which CA certificate a server authenticates its clients with, where it does.
pub fn server_client_ca(config: &TlsTransportConfig) -> (r: Result<Option<String>, TunnelError>)
    ensures
        r is Err <==> config.client_auth && config.ca_cert_path is None,
        r matches Err(e) ==> e is Io && e.text()
            == "CA certificate path required for client authentication"@,
        r matches Ok(ca) ==> opt_text(ca) == (if config.client_auth {
            opt_text(config.ca_cert_path)
        } else {
            None
        }),
{
    if !config.client_auth {
        return Ok(None);
    }
    match &config.ca_cert_path {
        Some(path) => Ok(Some(path.clone())),
        None => Err(
            TunnelError::Io("CA certificate path required for client authentication".to_owned()),
        ),
    }
}

/// The part of an address before its first colon.
pub open spec fn host_part(addr: Seq<char>) -> Seq<char> {
    match first_at(addr, ':', 0) {
        Some(i) => addr.take(i),
        None => addr,
    }
}

/// The name that the server must present: the configured one, or else the host of the
/// address.
pub fn tls_server_name(config: &TlsTransportConfig, addr: &str) -> (r: String)
    ensures
        r@ == match config.server_name {
            Some(name) => name@,
            None => host_part(addr@),
        },
{
    match &config.server_name {
        Some(name) => name.clone(),
        None => match find_char(addr, ':', 0) {
            Some(i) => {
                let host = addr.substring_char(0, i);
                proof {
                    assert(host@ =~= addr@.take(i as int));
                }
                host.to_owned()
            },
            None => addr.to_owned(),
        },
    }
}

/// QUIC transport configuration. An empty path is none.
#[derive(Debug, Clone)]
pub struct QuicTransportConfig {
    pub cert_path: String,
    pub key_path: String,
    pub ca_cert_path: Option<String>,
    pub server_name: Option<String>,
    pub skip_verify: bool,
    pub client_auth: bool,
    pub enable_0rtt: bool,
    /// Idle timeout in seconds.
    pub max_idle_timeout_secs: u64,
    /// Keep-alive interval in seconds.
    pub keep_alive_interval_secs: u64,
}

impl Default for QuicTransportConfig {
    fn default() -> (r: QuicTransportConfig)
        ensures
            r.cert_path@.len() == 0,
            r.key_path@.len() == 0,
            r.ca_cert_path is None,
            r.server_name is None,
            !r.skip_verify,
            !r.client_auth,
            !r.enable_0rtt,
            r.max_idle_timeout_secs == 30,
            r.keep_alive_interval_secs == 10,
    {
        QuicTransportConfig {
            cert_path: String::new(),
            key_path: String::new(),
            ca_cert_path: None,
            server_name: None,
            skip_verify: false,
            client_auth: false,
            enable_0rtt: false,
            max_idle_timeout_secs: DEFAULT_MAX_IDLE_TIMEOUT_SECS,
            keep_alive_interval_secs: DEFAULT_KEEP_ALIVE_INTERVAL_SECS,
        }
    }
}

fn or_default(n: Option<u64>, default: u64) -> (r: u64)
    ensures
        r == (match n {
            Some(v) => v,
            None => default,
        }),
{
    match n {
        Some(v) => v,
        None => default,
    }
}

impl QuicTransportConfig {
    /// Whether this is what a shared configuration says; times that it does not give are the
    /// defaults.
    pub open spec fn says(self, config: QuicConfig) -> bool {
        &&& self.cert_path@ == text_or_empty(config.cert_path)
        &&& self.key_path@ == text_or_empty(config.key_path)
        &&& opt_text(self.ca_cert_path) == opt_text(config.ca_cert_path)
        &&& opt_text(self.server_name) == opt_text(config.server_name)
        &&& self.skip_verify == config.skip_verify
        &&& !self.client_auth
        &&& self.enable_0rtt == config.enable_0rtt
        &&& self.max_idle_timeout_secs == (match config.max_idle_timeout_secs {
            Some(n) => n,
            None => 30,
        })
        &&& self.keep_alive_interval_secs == (match config.keep_alive_interval_secs {
            Some(n) => n,
            None => 10,
        })
    }

    /// Builds from the shared configuration when QUIC is enabled.
    pub fn from_common(config: &QuicConfig) -> (r: Option<QuicTransportConfig>)
        ensures
            r is Some <==> config.enabled,
            r matches Some(t) ==> t.says(*config),
    {
        if !config.enabled {
            return None;
        }
        Some(
            QuicTransportConfig {
                cert_path: copy_or_empty(&config.cert_path),
                key_path: copy_or_empty(&config.key_path),
                ca_cert_path: copy_text(&config.ca_cert_path),
                server_name: copy_text(&config.server_name),
                skip_verify: config.skip_verify,
                client_auth: false,
                enable_0rtt: config.enable_0rtt,
                max_idle_timeout_secs: or_default(
                    config.max_idle_timeout_secs,
                    DEFAULT_MAX_IDLE_TIMEOUT_SECS,
                ),
                keep_alive_interval_secs: or_default(
                    config.keep_alive_interval_secs,
                    DEFAULT_KEEP_ALIVE_INTERVAL_SECS,
                ),
            },
        )
    }

    /// The TLS configuration of a client over QUIC: without client authentication.
    pub fn client_tls(&self) -> (r: TlsTransportConfig)
        ensures
            opt_text(r.ca_cert_path) == opt_text(self.ca_cert_path),
            r.cert_path@ == self.cert_path@,
            r.key_path@ == self.key_path@,
            opt_text(r.server_name) == opt_text(self.server_name),
            !r.client_auth,
            r.skip_verify == self.skip_verify,
    {
        TlsTransportConfig {
            ca_cert_path: copy_text(&self.ca_cert_path),
            cert_path: self.cert_path.clone(),
            key_path: self.key_path.clone(),
            server_name: copy_text(&self.server_name),
            client_auth: false,
            skip_verify: self.skip_verify,
        }
    }

    /// The TLS configuration of a server over QUIC: verification is never skipped.
    pub fn server_tls(&self) -> (r: TlsTransportConfig)
        ensures
            opt_text(r.ca_cert_path) == opt_text(self.ca_cert_path),
            r.cert_path@ == self.cert_path@,
            r.key_path@ == self.key_path@,
            opt_text(r.server_name) == opt_text(self.server_name),
            r.client_auth == self.client_auth,
            !r.skip_verify,
    {
        TlsTransportConfig {
            ca_cert_path: copy_text(&self.ca_cert_path),
            cert_path: self.cert_path.clone(),
            key_path: self.key_path.clone(),
            server_name: copy_text(&self.server_name),
            client_auth: self.client_auth,
            skip_verify: false,
        }
    }
}

/// Transport selection for the control connection.
#[derive(Debug, Clone)]
pub enum TransportConfig {
    Tcp,
    Tls(TlsTransportConfig),
    Quic(QuicTransportConfig),
}

impl Default for TransportConfig {
    fn default() -> (r: TransportConfig)
        ensures
            r is Tcp,
    {
        TransportConfig::Tcp
    }
}

/// The two halves of a text that holds `]:`, around the first place of it.
pub open spec fn split_bracket(s: Seq<char>, from: int) -> Option<(Seq<char>, Seq<char>)>
    decreases s.len() - from,
{
    if from < 0 || from + 1 >= s.len() {
        None
    } else if s[from] == ']' && s[from + 1] == ':' {
        Some((s.take(from), s.skip(from + 2)))
    } else {
        split_bracket(s, from + 1)
    }
}

fn bracket_split<'a>(s: &'a str) -> (r: Option<(&'a str, &'a str)>)
    ensures
        match r {
            Some((a, b)) => split_bracket(s@, 0) == Some((a@, b@)),
            None => split_bracket(s@, 0) is None,
        },
{
    let n: usize = s.unicode_len();
    let mut i: usize = 0;
    while n >= 2 && i < n - 1
        invariant
            n == s@.len(),
            i <= n,
            split_bracket(s@, 0) == split_bracket(s@, i as int),
        decreases n - i,
    {
        if s.get_char(i) == ']' && s.get_char(i + 1) == ':' {
            let a = s.substring_char(0, i);
            let b = s.substring_char(i + 2, n);
            proof {
                assert(a@ =~= s@.take(i as int));
                assert(b@ =~= s@.skip(i + 2));
            }
            return Some((a, b));
        }
        i += 1;
    }
    None
}

/// Host and port of an address that is no literal socket address: a host in brackets, or all
/// that stands before the last colon.
pub open spec fn named_host_port(addr: Seq<char>) -> Option<(Seq<char>, nat)> {
    match address_halves(addr) {
        Some((host, port)) => match number_value(port, u16::MAX as nat) {
            Some(n) => Some((host, n)),
            None => None,
        },
        None => None,
    }
}

/// Why a text is no port.
pub open spec fn port_complaint(port: Seq<char>) -> Seq<char> {
    if port.len() == 0 {
        "cannot parse integer from empty string"@
    } else if outgrows(port, u16::MAX as nat) {
        "number too large to fit in target type"@
    } else {
        "invalid digit found in string"@
    }
}

fn explain_port(port: &str) -> (r: &'static str)
    ensures
        r@ == port_complaint(port@),
{
    if port.unicode_len() == 0 {
        "cannot parse integer from empty string"
    } else if number_outgrows(port, u16::MAX as u64) {
        "number too large to fit in target type"
    } else {
        "invalid digit found in string"
    }
}

/// What stands before and behind the colon of the port, where there is one: behind the closing
/// bracket of a host in brackets, else the last of all colons.
pub open spec fn address_halves(addr: Seq<char>) -> Option<(Seq<char>, Seq<char>)> {
    if addr.len() > 0 && addr[0] == '[' {
        split_bracket(addr.skip(1), 0)
    } else {
        split_last(addr, ':')
    }
}

/// Splits an address into host and port. `literal` is what the address says as a literal
/// socket address, where it is one.
pub fn split_host_port(addr: &str, literal: Option<(String, u16)>) -> (r: Result<
    (String, u16),
    TunnelError,
>)
    ensures
        literal matches Some((host, port)) ==> r is Ok && r->Ok_0 == (host, port),
        literal is None ==> match r {
            Ok((host, port)) => named_host_port(addr@) == Some((host@, port as nat)),
            Err(e) => named_host_port(addr@) is None && e is Io && e.text() == (
            match address_halves(addr@) {
                None => if addr@.len() > 0 && addr@[0] == '[' {
                    "invalid bracketed address: "@ + addr@
                } else {
                    "missing port in address: "@ + addr@
                },
                Some((_, port)) => "invalid port in address: "@ + port_complaint(port),
            }),
        },
{
    if let Some(parts) = literal {
        return Ok(parts);
    }
    let n: usize = addr.unicode_len();
    let bracketed: bool = n > 0 && addr.get_char(0) == '[';
    let halves = if bracketed {
        let rest = addr.substring_char(1, n);
        proof {
            assert(rest@ =~= addr@.skip(1));
        }
        bracket_split(rest)
    } else {
        rsplit_once(addr, ':')
    };
    match halves {
        Some((host, port)) => match parse_number(port, u16::MAX as u64) {
            Some(number) => Ok((host.to_owned(), number as u16)),
            None => {
                let mut text = "invalid port in address: ".to_owned();
                text.append(explain_port(port));
                Err(TunnelError::Io(text))
            },
        },
        None => {
            let mut text = if bracketed {
                "invalid bracketed address: ".to_owned()
            } else {
                "missing port in address: ".to_owned()
            };
            text.append(addr);
            Err(TunnelError::Io(text))
        },
    }
}

/// How an attempt to push a frame to the wire channel ended.
#[derive(Debug, Clone, PartialEq, Eq)]
pub enum PushOutcome {
    /// The frame was queued.
    Sent,
    /// The channel is full.
    Full,
    /// The channel is closed; it says so in these words.
    Closed(String),
}

/// What follows an attempt to push a frame.
#[derive(Debug, PartialEq)]
pub enum PushStep {
    /// The frame was sent.
    Done,
    /// Try again after this many milliseconds.
    Retry(u64),
    /// Give up.
    Fail(TunnelError),
}

/// Retries of a push, with delays in milliseconds that double up to ten.
#[derive(Debug, Clone, Copy, PartialEq, Eq, Structural)]
pub struct PushRetry {
    /// The moment after which a full channel is a failure, in milliseconds.
    pub deadline: u64,
    /// The delay before the next attempt.
    pub backoff: u64,
}

/// Milliseconds after which a push to a full channel fails.
pub const PUSH_TIMEOUT_MILLIS: u64 = 5000;

impl PushRetry {
    /// Whether the delay is one that retries have.
    pub open spec fn wf(&self) -> bool {
        1 <= self.backoff <= 10
    }

    /// Starts to push at the moment `now`.
    pub fn start(now: u64) -> (r: PushRetry)
        requires
            now <= u64::MAX - 5000,
        ensures
            r.wf(),
            r.deadline == now + 5000,
            r.backoff == 1,
    {
        PushRetry { deadline: now + PUSH_TIMEOUT_MILLIS, backoff: 1 }
    }

    /// Decides what follows an attempt that ended at the moment `now`. A delay never reaches
    /// beyond the deadline.
    pub fn step(&mut self, outcome: PushOutcome, now: u64) -> (r: PushStep)
        requires
            old(self).wf(),
        ensures
            final(self).wf(),
            final(self).deadline == old(self).deadline,
            outcome == PushOutcome::Sent ==> r == PushStep::Done,
            outcome matches PushOutcome::Closed(why) ==> r == PushStep::Fail(TunnelError::Protocol(why)),
            outcome == PushOutcome::Full && now >= old(self).deadline ==> (r matches PushStep::Fail(
                e,
            ) && e is Protocol && e.text() == "timed out sending frame to wire channel"@),
            outcome == PushOutcome::Full && now < old(self).deadline ==> (r matches PushStep::Retry(
                wait,
            ) && wait == (if old(self).backoff <= old(self).deadline - now {
                old(self).backoff as int
            } else {
                old(self).deadline - now
            }) && final(self).backoff == (if 2 * old(self).backoff <= 10 {
                2 * old(self).backoff
            } else {
                10
            })),
    {
        match outcome {
            PushOutcome::Sent => PushStep::Done,
            PushOutcome::Closed(why) => PushStep::Fail(TunnelError::Protocol(why)),
            PushOutcome::Full => {
                if now >= self.deadline {
                    return PushStep::Fail(
                        TunnelError::Protocol(
                            "timed out sending frame to wire channel".to_owned(),
                        ),
                    );
                }
                let left: u64 = self.deadline - now;
                let wait: u64 = if self.backoff <= left {
                    self.backoff
                } else {
                    left
                };
                let doubled: u64 = 2 * self.backoff;
                self.backoff = if doubled <= 10 {
                    doubled
                } else {
                    10
                };
                PushStep::Retry(wait)
            },
        }
    }
}

/// A client verifies the server by the configured CA certificate, cannot do without one unless it is
/// told to skip verification, and presents its own certificate exactly where it has both of its
/// files.
pub proof fn law_client_verifies_the_server(
    config: &TlsTransportConfig,
    r: Result<ClientTlsPlan, TunnelError>,
)
    requires
        call_ensures(client_tls_plan, (config,), r),
    ensures
        config.skip_verify ==> r is Ok && r->Ok_0.verification is Skipped,
        !config.skip_verify && config.ca_cert_path is None ==> r is Err,
        !config.skip_verify && config.ca_cert_path is Some ==> r is Ok && r->Ok_0.verification
            is Roots && r->Ok_0.verification->Roots_0@ == (config.ca_cert_path->0)@,
        r matches Ok(plan) ==> {
            &&& plan.identity is Some <==> config.cert_path@.len() > 0 && config.key_path@.len() > 0
            &&& plan.identity matches Some((c, k)) ==> c@ == config.cert_path@ && k@
                == config.key_path@
        },
{
}

/// A server that asks for client certificates verifies them by the configured CA certificate, and
/// cannot do without one; one that does not ask needs none.
pub proof fn law_server_verifies_its_clients(
    config: &TlsTransportConfig,
    r: Result<Option<String>, TunnelError>,
)
    requires
        call_ensures(server_client_ca, (config,), r),
    ensures
        !config.client_auth ==> r is Ok && r->Ok_0 is None,
        config.client_auth && config.ca_cert_path is None ==> r is Err,
        config.client_auth && config.ca_cert_path is Some ==> r is Ok && r->Ok_0 is Some && (
        r->Ok_0->0)@ == (config.ca_cert_path->0)@,
{
}

/// The server must present the configured name, and without one the host of its address, which is
/// what stands before the colon.
pub proof fn law_server_name_is_the_host(
    config: &TlsTransportConfig,
    addr: &str,
    host: Seq<char>,
    rest: Seq<char>,
    r: String,
)
    requires
        call_ensures(tls_server_name, (config, addr), r),
    ensures
        config.server_name matches Some(name) ==> r@ == name@,
        config.server_name is None && !host.contains(':') && addr@ == host.push(':') + rest ==> r@
            == host,
        config.server_name is None && !addr@.contains(':') ==> r@ == addr@,
{
    crate::text::lemma_first_at(addr@, ':', 0);
    if !host.contains(':') && addr@ == host.push(':') + rest {
        assert(addr@[host.len() as int] == ':');
        if let Some(i) = first_at(addr@, ':', 0) {
            if i < host.len() {
                assert(host.contains(host[i]));
            }
            assert(addr@.take(i) =~= host);
        }
    }
    if let Some(i) = first_at(addr@, ':', 0) {
        assert(addr@.contains(addr@[i]));
    }
}

/// TLS and QUIC are configured exactly where they are enabled, each as the shared configuration
/// says.
pub proof fn law_transports_follow_the_configuration(
    tls: &TlsConfig,
    tls_r: Option<TlsTransportConfig>,
    quic: &QuicConfig,
    quic_r: Option<QuicTransportConfig>,
)
    requires
        call_ensures(TlsTransportConfig::from_common, (tls,), tls_r),
        call_ensures(QuicTransportConfig::from_common, (quic,), quic_r),
    ensures
        tls_r is Some <==> tls.enabled,
        tls_r matches Some(t) ==> {
            &&& t.skip_verify == tls.skip_verify
            &&& t.client_auth == tls.client_auth
            &&& t.ca_cert_path is Some <==> tls.ca_cert_path is Some
            &&& t.ca_cert_path is Some ==> (t.ca_cert_path->0)@ == (tls.ca_cert_path->0)@
            &&& tls.cert_path is Some ==> t.cert_path@ == (tls.cert_path->0)@
            &&& tls.cert_path is None ==> t.cert_path@.len() == 0
            &&& tls.key_path is Some ==> t.key_path@ == (tls.key_path->0)@
            &&& tls.server_name is Some ==> t.server_name is Some && (t.server_name->0)@
                == (tls.server_name->0)@
        },
        quic_r is Some <==> quic.enabled,
        quic_r matches Some(q) ==> {
            &&& q.skip_verify == quic.skip_verify
            &&& q.enable_0rtt == quic.enable_0rtt
            &&& !q.client_auth
            &&& q.ca_cert_path is Some <==> quic.ca_cert_path is Some
            &&& q.ca_cert_path is Some ==> (q.ca_cert_path->0)@ == (quic.ca_cert_path->0)@
            &&& quic.cert_path is Some ==> q.cert_path@ == (quic.cert_path->0)@
            &&& quic.key_path is Some ==> q.key_path@ == (quic.key_path->0)@
            &&& quic.max_idle_timeout_secs is None ==> q.max_idle_timeout_secs == 30
            &&& quic.max_idle_timeout_secs matches Some(n) ==> q.max_idle_timeout_secs == n
            &&& quic.keep_alive_interval_secs is None ==> q.keep_alive_interval_secs == 10
            &&& quic.keep_alive_interval_secs matches Some(n) ==> q.keep_alive_interval_secs == n
        },
{
}

/// Over QUIC a server never skips verification, and a client exactly where it is told to; both use
/// the configured files.
pub proof fn law_quic_uses_tls_as_configured(
    config: &QuicTransportConfig,
    client: TlsTransportConfig,
    server: TlsTransportConfig,
)
    requires
        call_ensures(QuicTransportConfig::client_tls, (config,), client),
        call_ensures(QuicTransportConfig::server_tls, (config,), server),
    ensures
        !server.skip_verify,
        client.skip_verify == config.skip_verify,
        server.client_auth == config.client_auth,
        !client.client_auth,
        client.cert_path@ == config.cert_path@ && server.cert_path@ == config.cert_path@,
        client.key_path@ == config.key_path@ && server.key_path@ == config.key_path@,
        client.ca_cert_path is Some <==> config.ca_cert_path is Some,
        client.ca_cert_path is Some ==> (client.ca_cert_path->0)@ == (config.ca_cert_path->0)@,
        server.ca_cert_path is Some <==> config.ca_cert_path is Some,
        server.ca_cert_path is Some ==> (server.ca_cert_path->0)@ == (config.ca_cert_path->0)@,
{
}

/// An address is its host and the number of its port: what stands before and behind its last colon,
/// or in brackets and behind them and a colon. A port that is no number up to 65535 is refused, and
/// so is an address without one. What is a literal address is taken as such.
pub proof fn law_address_is_host_and_port(
    addr: &str,
    host: Seq<char>,
    port: &str,
    number: Option<u64>,
    r: Result<(String, u16), TunnelError>,
    literal: (String, u16),
    given: Result<(String, u16), TunnelError>,
)
    requires
        call_ensures(split_host_port, (addr, None), r),
        call_ensures(split_host_port, (addr, Some(literal)), given),
        call_ensures(parse_number, (port, 65535), number),
        !port@.contains(':'),
        !host.contains(']'),
    ensures
        given is Ok && given->Ok_0 == literal,
        addr@ == host.push(':') + port@ && (host.len() == 0 || host[0] != '[') ==> {
            &&& number matches Some(n) ==> r is Ok && r->Ok_0.0@ == host && r->Ok_0.1 == n
            &&& number is None ==> r is Err && r->Err_0 is Io
        },
        addr@ == seq!['['] + host + seq![']', ':'] + port@ ==> {
            &&& number matches Some(n) ==> r is Ok && r->Ok_0.0@ == host && r->Ok_0.1 == n
            &&& number is None ==> r is Err && r->Err_0 is Io
        },
        !addr@.contains(':') ==> r is Err && r->Err_0 is Io,
{
    crate::text::lemma_last_before(addr@, ':', addr@.len() as int);
    if addr@ == host.push(':') + port@ && (host.len() == 0 || host[0] != '[') {
        assert(addr@[host.len() as int] == ':');
        assert(addr@[0] != '[') by {
            if host.len() > 0 {
                assert(addr@[0] == host[0]);
            }
        }
        let i = crate::text::last_before(addr@, ':', addr@.len() as int)->0;
        if i > host.len() {
            assert(port@.contains(port@[i - host.len() - 1]));
        }
        assert(i == host.len());
        assert(addr@.take(i) =~= host);
        assert(addr@.skip(i + 1) =~= port@);
    }
    if addr@ == seq!['['] + host + seq![']', ':'] + port@ {
        let inner = addr@.skip(1);
        assert(inner =~= host + seq![']', ':'] + port@);
        lemma_split_bracket(inner, host, port@, 0);
    }
    if !addr@.contains(':') {
        if let Some(i) = crate::text::last_before(addr@, ':', addr@.len() as int) {
            assert(addr@.contains(addr@[i]));
        }
        if addr@.len() > 0 && addr@[0] == '[' {
            lemma_no_bracket(addr@.skip(1), 0);
        }
    }
}

proof fn lemma_split_bracket(s: Seq<char>, host: Seq<char>, port: Seq<char>, from: int)
    requires
        s == host + seq![']', ':'] + port,
        !host.contains(']'),
        0 <= from <= host.len(),
    ensures
        split_bracket(s, from) == Some((host, port)),
    decreases host.len() - from,
{
    if from < host.len() {
        assert(host.contains(host[from]));
        assert(s[from] == host[from]);
        lemma_split_bracket(s, host, port, from + 1);
    } else {
        assert(s[from] == ']' && s[from + 1] == ':');
        assert(s.take(from) =~= host);
        assert(s.skip(from + 2) =~= port);
    }
}

proof fn lemma_no_bracket(s: Seq<char>, from: int)
    requires
        0 <= from,
        forall|i: int| 0 <= i < s.len() ==> s[i] != ':',
    ensures
        split_bracket(s, from) is None,
    decreases s.len() - from,
{
    if from + 1 < s.len() {
        lemma_no_bracket(s, from + 1);
    }
}

/// A push is tried again while the channel is full, after 1, 2, 4, 8 and then always 10
/// milliseconds, but never beyond five seconds in all; a closed channel fails at once.
pub proof fn law_pushes_are_tried_for_five_seconds(
    start: u64,
    fresh: PushRetry,
    retry: &mut PushRetry,
    outcome: PushOutcome,
    now: u64,
    r: PushStep,
)
    requires
        start <= u64::MAX - 5000,
        call_ensures(PushRetry::start, (start,), fresh),
        1 <= old(retry).backoff <= 10,
        call_ensures(PushRetry::step, (retry, outcome, now), r),
    ensures
        fresh.deadline == start + 5 * 1000 && fresh.backoff == 1,
        r == PushStep::Done <==> outcome == PushOutcome::Sent,
        outcome is Closed ==> r is Fail,
        outcome == PushOutcome::Full && now >= old(retry).deadline ==> r is Fail,
        outcome == PushOutcome::Full && now < old(retry).deadline ==> {
            &&& r is Retry
            &&& 0 < r->Retry_0 <= old(retry).backoff
            &&& now + r->Retry_0 <= old(retry).deadline
            &&& now + old(retry).backoff <= old(retry).deadline ==> r->Retry_0 == old(retry).backoff
            &&& old(retry).backoff <= 5 ==> final(retry).backoff == 2 * old(retry).backoff
            &&& old(retry).backoff > 5 ==> final(retry).backoff == 10
        },
        final(retry).deadline == old(retry).deadline,
{
}

} // verus!
