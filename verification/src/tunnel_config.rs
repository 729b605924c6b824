//! Configuration of the embeddable client and server. Durations are in milliseconds.

use vstd::prelude::*;

use crate::config::{LimitsConfig, RateLimitConfig};
use crate::constants::{DEFAULT_HTTP_PORT, DEFAULT_TUNNEL_PORT};
use crate::error::TunnelError;
use crate::limits::{limits_complaint, limits_valid, validate_limits};
use crate::net::{IpAddr, SocketAddr, append_hex, hex_text};
use crate::text::{append_decimal, decimal_text, opt_text};

verus! {

/// What stands in the place of a secret.
pub open spec fn redacted() -> Seq<char> {
    "<redacted>"@
}

/// A truth value in words.
pub open spec fn bool_text(b: bool) -> Seq<char> {
    if b {
        "true"@
    } else {
        "false"@
    }
}

fn append_bool(out: &mut String, b: bool)
    ensures
        final(out)@ == old(out)@ + bool_text(b),
{
    if b {
        out.append("true");
    } else {
        out.append("false");
    }
}

/// How a character beyond ASCII is printed for debugging.
pub uninterp spec fn escaped_char(c: char) -> Seq<char>;

/// Escapes a character beyond ASCII: `char::escape_debug`. The result is [`escaped_char`].
#[verifier::external_body]
fn escape_char(c: char) -> (r: String)
    requires
        c as u32 >= 128,
    ensures
        r@ == escaped_char(c),
{
    format!("{}", c.escape_debug())
}

/// How a character of a text is printed: quotes, backslashes and control characters are
/// escaped.
pub open spec fn escaped(c: char) -> Seq<char> {
    if c == '\0' {
        "\\0"@
    } else if c == '\t' {
        "\\t"@
    } else if c == '\n' {
        "\\n"@
    } else if c == '\r' {
        "\\r"@
    } else if c == '"' {
        "\\\""@
    } else if c == '\\' {
        "\\\\"@
    } else if (c as u32) < 32 || c as u32 == 127 {
        "\\u{"@ + hex_text(c as u16) + "}"@
    } else if (c as u32) < 128 {
        seq![c]
    } else {
        escaped_char(c)
    }
}

/// How the characters of a text are printed.
pub open spec fn escaped_text(s: Seq<char>) -> Seq<char>
    decreases s.len(),
{
    if s.len() == 0 {
        Seq::empty()
    } else {
        escaped_text(s.drop_last()) + escaped(s.last())
    }
}

/// A text in quotes.
pub open spec fn quoted(s: Seq<char>) -> Seq<char> {
    "\""@ + escaped_text(s) + "\""@
}

fn append_escaped(out: &mut String, c: char)
    ensures
        final(out)@ == old(out)@ + escaped(c),
{
    let ghost before = out@;
    if c == '\0' {
        out.append("\\0");
    } else if c == '\t' {
        out.append("\\t");
    } else if c == '\n' {
        out.append("\\n");
    } else if c == '\r' {
        out.append("\\r");
    } else if c == '"' {
        out.append("\\\"");
    } else if c == '\\' {
        out.append("\\\\");
    } else if (c as u32) < 32 || c as u32 == 127 {
        out.append("\\u{");
        append_hex(out, c as u16);
        out.append("}");
    } else if (c as u32) < 128 {
        out.push(c);
    } else {
        out.append(escape_char(c).as_str());
    }
    proof {
        assert(out@ =~= before + escaped(c));
    }
}

fn append_quoted(out: &mut String, s: &str)
    ensures
        final(out)@ == old(out)@ + quoted(s@),
{
    let ghost before = out@;
    let n: usize = s.unicode_len();
    out.append("\"");
    let mut i: usize = 0;
    proof {
        assert(s@.take(0) =~= Seq::empty());
        assert(out@ =~= before + "\""@ + escaped_text(s@.take(0)));
    }
    while i < n
        invariant
            n == s@.len(),
            i <= n,
            out@ == before + "\""@ + escaped_text(s@.take(i as int)),
        decreases n - i,
    {
        append_escaped(out, s.get_char(i));
        proof {
            assert(s@.take(i + 1).drop_last() =~= s@.take(i as int));
            assert(out@ =~= before + "\""@ + escaped_text(s@.take(i + 1)));
        }
        i += 1;
    }
    out.append("\"");
    proof {
        assert(s@.take(n as int) =~= s@);
        assert(out@ =~= before + quoted(s@));
    }
}

/// What is printed of something optional.
pub open spec fn option_text(s: Option<Seq<char>>) -> Seq<char> {
    match s {
        Some(t) => "Some("@ + t + ")"@,
        None => "None"@,
    }
}

/// What is printed of an optional text.
pub open spec fn quoted_option(s: Option<String>) -> Seq<char> {
    option_text(
        match s {
            Some(t) => Some(quoted(t@)),
            None => None,
        },
    )
}

fn append_quoted_option(out: &mut String, s: &Option<String>)
    ensures
        final(out)@ == old(out)@ + quoted_option(*s),
{
    let ghost before = out@;
    match s {
        Some(t) => {
            out.append("Some(");
            append_quoted(out, t.as_str());
            out.append(")");
            proof {
                assert(out@ =~= before + ("Some("@ + quoted(t@) + ")"@));
            }
        },
        None => {
            out.append("None");
        },
    }
}

/// Thousandths behind a point, without zeros at the end; nothing where there are none.
pub open spec fn fraction_text(thousandths: u64) -> Seq<char> {
    if thousandths == 0 {
        Seq::empty()
    } else if thousandths % 100 == 0 {
        "."@ + decimal_text((thousandths / 100) as nat)
    } else if thousandths % 10 == 0 {
        "."@ + decimal_text((thousandths / 100) as nat) + decimal_text(
            (thousandths / 10 % 10) as nat,
        )
    } else {
        "."@ + decimal_text((thousandths / 100) as nat) + decimal_text(
            (thousandths / 10 % 10) as nat,
        ) + decimal_text((thousandths % 10) as nat)
    }
}

/// What is printed of a duration: seconds from one second on, milliseconds below.
pub open spec fn duration_text(millis: u64) -> Seq<char> {
    if millis == 0 {
        "0ns"@
    } else if millis < 1000 {
        decimal_text(millis as nat) + "ms"@
    } else {
        decimal_text((millis / 1000) as nat) + fraction_text(millis % 1000) + "s"@
    }
}

fn append_fraction(out: &mut String, thousandths: u64)
    ensures
        final(out)@ == old(out)@ + fraction_text(thousandths),
{
    let ghost before = out@;
    if thousandths != 0 {
        out.append(".");
        append_decimal(out, thousandths / 100);
        if thousandths % 100 != 0 {
            append_decimal(out, thousandths / 10 % 10);
            if thousandths % 10 != 0 {
                append_decimal(out, thousandths % 10);
            }
        }
    }
    proof {
        assert(out@ =~= before + fraction_text(thousandths));
    }
}

fn append_duration(out: &mut String, millis: u64)
    ensures
        final(out)@ == old(out)@ + duration_text(millis),
{
    let ghost before = out@;
    if millis == 0 {
        out.append("0ns");
    } else if millis < 1000 {
        append_decimal(out, millis);
        out.append("ms");
    } else {
        append_decimal(out, millis / 1000);
        append_fraction(out, millis % 1000);
        out.append("s");
    }
    proof {
        assert(out@ =~= before + duration_text(millis));
    }
}

/// What is printed of resource limits.
pub open spec fn limits_text(limits: LimitsConfig) -> Seq<char> {
    "LimitsConfig { max_frame_bytes: "@ + decimal_text(limits.max_frame_bytes as nat)
        + ", max_sessions: "@ + decimal_text(limits.max_sessions as nat)
        + ", max_streams_per_session: "@ + decimal_text(limits.max_streams_per_session as nat)
        + ", max_inflight_frames: "@ + decimal_text(limits.max_inflight_frames as nat)
        + ", max_token_len: "@ + decimal_text(limits.max_token_len as nat)
        + ", max_capabilities: "@ + decimal_text(limits.max_capabilities as nat)
        + ", max_capability_len: "@ + decimal_text(limits.max_capability_len as nat) + " }"@
}

fn limits_words(limits: &LimitsConfig) -> (r: String)
    ensures
        r@ == limits_text(*limits),
{
    let mut text = "LimitsConfig { max_frame_bytes: ".to_owned();
    append_decimal(&mut text, limits.max_frame_bytes);
    text.append(", max_sessions: ");
    append_decimal(&mut text, limits.max_sessions as u64);
    text.append(", max_streams_per_session: ");
    append_decimal(&mut text, limits.max_streams_per_session as u64);
    text.append(", max_inflight_frames: ");
    append_decimal(&mut text, limits.max_inflight_frames as u64);
    text.append(", max_token_len: ");
    append_decimal(&mut text, limits.max_token_len as u64);
    text.append(", max_capabilities: ");
    append_decimal(&mut text, limits.max_capabilities as u64);
    text.append(", max_capability_len: ");
    append_decimal(&mut text, limits.max_capability_len as u64);
    text.append(" }");
    text
}

/// What is printed of rate limits.
pub open spec fn rates_text(rates: RateLimitConfig) -> Seq<char> {
    "RateLimitConfig { streams_per_sec: "@ + decimal_text(rates.streams_per_sec as nat)
        + ", bytes_per_sec: "@ + decimal_text(rates.bytes_per_sec as nat) + ", burst_factor: "@
        + decimal_text(rates.burst_factor as nat) + " }"@
}

fn rates_words(rates: &RateLimitConfig) -> (r: String)
    ensures
        r@ == rates_text(*rates),
{
    let mut text = "RateLimitConfig { streams_per_sec: ".to_owned();
    append_decimal(&mut text, rates.streams_per_sec as u64);
    text.append(", bytes_per_sec: ");
    append_decimal(&mut text, rates.bytes_per_sec);
    text.append(", burst_factor: ");
    append_decimal(&mut text, rates.burst_factor as u64);
    text.append(" }");
    text
}

/// Configuration for the tunnel client.
#[derive(Clone)]
pub struct ClientConfig {
    /// Server address to connect to (host:port).
    pub server_addr: String,
    /// Authentication token.
    pub token: String,
    /// Local address to forward traffic to.
    pub local_addr: String,
    /// Tunnel id used for HTTP routing (matched against the Host header).
    pub tunnel_id: Option<String>,
    /// Enable automatic reconnection on disconnect.
    pub auto_reconnect: bool,
    /// Delay between reconnection attempts.
    pub reconnect_delay: u64,
    /// Maximum time to wait for the initial connection; `None` waits indefinitely.
    pub startup_timeout: Option<u64>,
    /// Resource limits for protocol framing and connection handling.
    pub limits: LimitsConfig,
}

impl Default for ClientConfig {
    fn default() -> (r: ClientConfig)
        ensures
            r.server_addr@.len() == 0,
            r.token@.len() == 0,
            r.local_addr@ == "127.0.0.1:8080"@,
            r.tunnel_id is None,
            r.auto_reconnect,
            r.reconnect_delay == 5_000,
            r.startup_timeout == Some(30_000u64),
            r.limits == LimitsConfig::defaults(),
    {
        ClientConfig {
            server_addr: String::new(),
            token: String::new(),
            local_addr: "127.0.0.1:8080".to_owned(),
            tunnel_id: None,
            auto_reconnect: true,
            reconnect_delay: 5_000,
            startup_timeout: Some(30_000),
            limits: LimitsConfig::default(),
        }
    }
}

/// The complaint about a client configuration, in the order in which it is checked.
pub open spec fn client_complaint(config: ClientConfig) -> Option<Seq<char>> {
    if config.server_addr@.len() == 0 {
        Some("server_addr is required"@)
    } else if config.token@.len() == 0 {
        Some("token is required"@)
    } else if config.local_addr@.len() == 0 {
        Some("local_addr is required"@)
    } else {
        limits_complaint(config.limits)
    }
}

impl ClientConfig {
    /// The configuration in words, with the token redacted.
    pub open spec fn summary(&self) -> Seq<char> {
        "ClientConfig { server_addr: "@ + quoted(self.server_addr@) + ", token: "@ + quoted(
            redacted(),
        ) + ", local_addr: "@ + quoted(self.local_addr@) + ", tunnel_id: "@ + quoted_option(
            self.tunnel_id,
        ) + ", auto_reconnect: "@ + bool_text(self.auto_reconnect) + ", reconnect_delay: "@
            + duration_text(self.reconnect_delay) + ", startup_timeout: "@ + option_text(
            match self.startup_timeout {
                Some(t) => Some(duration_text(t)),
                None => None,
            },
        ) + ", limits: "@ + limits_text(self.limits) + " }"@
    }

    /// Validates the configuration.
    pub fn validate(&self) -> (r: Result<(), TunnelError>)
        ensures
            r is Ok <==> client_complaint(*self) is None,
            r matches Err(e) ==> e is Config && client_complaint(*self) == Some(e.text()),
            r is Ok ==> limits_valid(self.limits),
    {
        if self.server_addr.as_str().is_empty() {
            return Err(TunnelError::Config("server_addr is required".to_owned()));
        }
        if self.token.as_str().is_empty() {
            return Err(TunnelError::Config("token is required".to_owned()));
        }
        if self.local_addr.as_str().is_empty() {
            return Err(TunnelError::Config("local_addr is required".to_owned()));
        }
        validate_limits(&self.limits)
    }

    /// Server address the client connects to (`host:port`).
    pub fn server_addr(&self) -> (r: &str)
        ensures
            r@ == self.server_addr@,
    {
        self.server_addr.as_str()
    }

    /// Authentication token presented to the server.
    pub fn token(&self) -> (r: &str)
        ensures
            r@ == self.token@,
    {
        self.token.as_str()
    }

    /// Local address traffic is forwarded to.
    pub fn local_addr(&self) -> (r: &str)
        ensures
            r@ == self.local_addr@,
    {
        self.local_addr.as_str()
    }

    /// Tunnel id used for HTTP routing, if set.
    pub fn tunnel_id(&self) -> (r: Option<&str>)
        ensures
            match r {
                Some(t) => opt_text(self.tunnel_id) == Some(t@),
                None => self.tunnel_id is None,
            },
    {
        match &self.tunnel_id {
            Some(t) => Some(t.as_str()),
            None => None,
        }
    }

    /// Whether automatic reconnection is enabled.
    pub fn auto_reconnect(&self) -> (r: bool)
        ensures
            r == self.auto_reconnect,
    {
        self.auto_reconnect
    }

    /// Delay between reconnection attempts.
    pub fn reconnect_delay(&self) -> (r: u64)
        ensures
            r == self.reconnect_delay,
    {
        self.reconnect_delay
    }

    /// Maximum time to wait for the initial connection; `None` waits indefinitely.
    pub fn startup_timeout(&self) -> (r: Option<u64>)
        ensures
            r == self.startup_timeout,
    {
        self.startup_timeout
    }

    /// Resource limits for protocol framing and connection handling.
    pub fn limits(&self) -> (r: &LimitsConfig)
        ensures
            *r == self.limits,
    {
        &self.limits
    }

    /// The configuration in words, with the token redacted.
    pub fn debug_text(&self) -> (r: String)
        ensures
            r@ == self.summary(),
    {
        let mut text = "ClientConfig { server_addr: ".to_owned();
        append_quoted(&mut text, self.server_addr.as_str());
        text.append(", token: ");
        append_quoted(&mut text, "<redacted>");
        text.append(", local_addr: ");
        append_quoted(&mut text, self.local_addr.as_str());
        text.append(", tunnel_id: ");
        append_quoted_option(&mut text, &self.tunnel_id);
        text.append(", auto_reconnect: ");
        append_bool(&mut text, self.auto_reconnect);
        text.append(", reconnect_delay: ");
        append_duration(&mut text, self.reconnect_delay);
        text.append(", startup_timeout: ");
        let ghost before = text@;
        match self.startup_timeout {
            Some(t) => {
                text.append("Some(");
                append_duration(&mut text, t);
                text.append(")");
                proof {
                    assert(text@ =~= before + ("Some("@ + duration_text(t) + ")"@));
                }
            },
            None => {
                text.append("None");
            },
        }
        text.append(", limits: ");
        text.append(limits_words(&self.limits).as_str());
        text.append(" }");
        text
    }
}

/// Two client configurations that differ in nothing but their tokens cannot be told apart by
/// what is printed of them.
pub proof fn law_client_token_is_never_printed(a: ClientConfig, b: ClientConfig)
    requires
        a == (ClientConfig { token: a.token, ..b }),
    ensures
        a.summary() == b.summary(),
{
}

/// Configuration for the tunnel server.
#[derive(Clone)]
pub struct ServerConfig {
    /// Address to bind the tunnel control plane to.
    pub bind_addr: SocketAddr,
    /// Address to bind the HTTP ingress to.
    pub http_bind_addr: SocketAddr,
    /// Address to bind the HTTP/3 ingress to (UDP).
    pub http3_bind_addr: Option<SocketAddr>,
    /// Path to the certificate file for the HTTP/3 ingress.
    pub http3_cert_path: Option<String>,
    /// Path to the private key file for the HTTP/3 ingress.
    pub http3_key_path: Option<String>,
    /// Authentication token that clients must provide.
    pub token: String,
    /// Resource limits for protocol framing and connection handling.
    pub limits: LimitsConfig,
    /// Rate limits of each session.
    pub rate_limits: RateLimitConfig,
    /// Upstream response timeout of the HTTP and HTTP/3 ingress.
    pub http_response_timeout: u64,
}

impl Default for ServerConfig {
    fn default() -> (r: ServerConfig)
        ensures
            r.bind_addr == (SocketAddr { ip: IpAddr::V4(0, 0, 0, 0), port: 7835 }),
            r.http_bind_addr == (SocketAddr { ip: IpAddr::V4(0, 0, 0, 0), port: 8080 }),
            r.http3_bind_addr is None,
            r.http3_cert_path is None,
            r.http3_key_path is None,
            r.token@.len() == 0,
            r.limits == LimitsConfig::defaults(),
            r.rate_limits == (RateLimitConfig {
                streams_per_sec: 100,
                bytes_per_sec: 10_485_760,
                burst_factor: 2,
            }),
            r.http_response_timeout == 60_000,
    {
        ServerConfig {
            bind_addr: SocketAddr::new(IpAddr::V4(0, 0, 0, 0), DEFAULT_TUNNEL_PORT),
            http_bind_addr: SocketAddr::new(IpAddr::V4(0, 0, 0, 0), DEFAULT_HTTP_PORT),
            http3_bind_addr: None,
            http3_cert_path: None,
            http3_key_path: None,
            token: String::new(),
            limits: LimitsConfig::default(),
            rate_limits: RateLimitConfig::default(),
            http_response_timeout: 60_000,
        }
    }
}

/// The complaint about a server configuration, in the order in which it is checked.
pub open spec fn server_complaint(config: ServerConfig) -> Option<Seq<char>> {
    if config.token@.len() == 0 {
        Some("token is required"@)
    } else if limits_complaint(config.limits) is Some {
        limits_complaint(config.limits)
    } else if config.http_response_timeout == 0 {
        Some("http_response_timeout must be greater than zero"@)
    } else if config.http3_bind_addr is Some && (config.http3_cert_path is None
        || config.http3_key_path is None) {
        Some("HTTP/3 ingress requires certificate and key paths"@)
    } else {
        None
    }
}

impl ServerConfig {
    /// The configuration in words, with the token redacted.
    pub open spec fn summary(&self) -> Seq<char> {
        "ServerConfig { bind_addr: "@ + self.bind_addr.text() + ", http_bind_addr: "@
            + self.http_bind_addr.text() + ", http3_bind_addr: "@ + option_text(
            match self.http3_bind_addr {
                Some(a) => Some(a.text()),
                None => None,
            },
        ) + ", http3_cert_path: "@ + quoted_option(self.http3_cert_path) + ", http3_key_path: "@
            + quoted_option(self.http3_key_path) + ", token: "@ + quoted(redacted())
            + ", limits: "@ + limits_text(self.limits) + ", rate_limits: "@ + rates_text(
            self.rate_limits,
        ) + ", http_response_timeout: "@ + duration_text(self.http_response_timeout) + " }"@
    }

    /// Validates the configuration.
    pub fn validate(&self) -> (r: Result<(), TunnelError>)
        ensures
            r is Ok <==> server_complaint(*self) is None,
            r matches Err(e) ==> e is Config && server_complaint(*self) == Some(e.text()),
            r is Ok ==> limits_valid(self.limits),
    {
        if self.token.as_str().is_empty() {
            return Err(TunnelError::Config("token is required".to_owned()));
        }
        if let Err(e) = validate_limits(&self.limits) {
            return Err(e);
        }
        if self.http_response_timeout == 0 {
            return Err(
                TunnelError::Config("http_response_timeout must be greater than zero".to_owned()),
            );
        }
        if self.http3_bind_addr.is_some() && (self.http3_cert_path.is_none()
            || self.http3_key_path.is_none()) {
            return Err(
                TunnelError::Config("HTTP/3 ingress requires certificate and key paths".to_owned()),
            );
        }
        Ok(())
    }

    /// Address the tunnel control plane binds to.
    pub fn bind_addr(&self) -> (r: SocketAddr)
        ensures
            r == self.bind_addr,
    {
        self.bind_addr
    }

    /// Address the HTTP ingress binds to.
    pub fn http_bind_addr(&self) -> (r: SocketAddr)
        ensures
            r == self.http_bind_addr,
    {
        self.http_bind_addr
    }

    /// Address the HTTP/3 ingress binds to, if configured.
    pub fn http3_bind_addr(&self) -> (r: Option<SocketAddr>)
        ensures
            r == self.http3_bind_addr,
    {
        self.http3_bind_addr
    }

    /// Certificate path for the HTTP/3 ingress, if configured.
    pub fn http3_cert_path(&self) -> (r: Option<&str>)
        ensures
            match r {
                Some(t) => opt_text(self.http3_cert_path) == Some(t@),
                None => self.http3_cert_path is None,
            },
    {
        match &self.http3_cert_path {
            Some(t) => Some(t.as_str()),
            None => None,
        }
    }

    /// Private key path for the HTTP/3 ingress, if configured.
    pub fn http3_key_path(&self) -> (r: Option<&str>)
        ensures
            match r {
                Some(t) => opt_text(self.http3_key_path) == Some(t@),
                None => self.http3_key_path is None,
            },
    {
        match &self.http3_key_path {
            Some(t) => Some(t.as_str()),
            None => None,
        }
    }

    /// Authentication token clients must present.
    pub fn token(&self) -> (r: &str)
        ensures
            r@ == self.token@,
    {
        self.token.as_str()
    }

    /// Resource limits for protocol framing and connection handling.
    pub fn limits(&self) -> (r: &LimitsConfig)
        ensures
            *r == self.limits,
    {
        &self.limits
    }

    /// Rate limits of each session.
    pub fn rate_limits(&self) -> (r: &RateLimitConfig)
        ensures
            *r == self.rate_limits,
    {
        &self.rate_limits
    }

    /// Upstream response timeout of the HTTP and HTTP/3 ingress.
    pub fn http_response_timeout(&self) -> (r: u64)
        ensures
            r == self.http_response_timeout,
    {
        self.http_response_timeout
    }

    /// The configuration in words, with the token redacted.
    pub fn debug_text(&self) -> (r: String)
        ensures
            r@ == self.summary(),
    {
        let mut text = "ServerConfig { bind_addr: ".to_owned();
        text.append(self.bind_addr.words().as_str());
        text.append(", http_bind_addr: ");
        text.append(self.http_bind_addr.words().as_str());
        text.append(", http3_bind_addr: ");
        let ghost before = text@;
        match self.http3_bind_addr {
            Some(a) => {
                text.append("Some(");
                text.append(a.words().as_str());
                text.append(")");
                proof {
                    assert(text@ =~= before + ("Some("@ + a.text() + ")"@));
                }
            },
            None => {
                text.append("None");
            },
        }
        text.append(", http3_cert_path: ");
        append_quoted_option(&mut text, &self.http3_cert_path);
        text.append(", http3_key_path: ");
        append_quoted_option(&mut text, &self.http3_key_path);
        text.append(", token: ");
        append_quoted(&mut text, "<redacted>");
        text.append(", limits: ");
        text.append(limits_words(&self.limits).as_str());
        text.append(", rate_limits: ");
        text.append(rates_words(&self.rate_limits).as_str());
        text.append(", http_response_timeout: ");
        append_duration(&mut text, self.http_response_timeout);
        text.append(" }");
        text
    }
}

/// Two server configurations that differ in nothing but their tokens cannot be told apart by
/// what is printed of them.
pub proof fn law_server_token_is_never_printed(a: ServerConfig, b: ServerConfig)
    requires
        a == (ServerConfig { token: a.token, ..b }),
    ensures
        a.summary() == b.summary(),
{
}

/// Information about an established tunnel connection.
#[derive(Debug, Clone)]
pub struct TunnelInfo {
    /// The session id assigned by the server.
    pub session_id: Option<u128>,
    /// Reserved for the public URL where the tunnel is reachable.
    pub public_url: Option<String>,
}

impl TunnelInfo {
    /// The session id of the established tunnel, if assigned.
    pub fn session_id(&self) -> (r: Option<u128>)
        ensures
            r == self.session_id,
    {
        self.session_id
    }

    /// The public URL where the tunnel is reachable.
    pub fn public_url(&self) -> (r: Option<&str>)
        ensures
            match r {
                Some(t) => opt_text(self.public_url) == Some(t@),
                None => self.public_url is None,
            },
    {
        match &self.public_url {
            Some(t) => Some(t.as_str()),
            None => None,
        }
    }
}

/// A client configuration is accepted exactly where server, token and local address are given and the
/// limits are usable; the first that is missing is named.
pub proof fn law_client_needs_server_token_and_service(
    config: &ClientConfig,
    limits: &LimitsConfig,
    limits_r: Result<(), TunnelError>,
    r: Result<(), TunnelError>,
)
    requires
        call_ensures(ClientConfig::validate, (config,), r),
        *limits == config.limits,
        call_ensures(validate_limits, (limits,), limits_r),
    ensures
        r is Ok <==> config.server_addr@.len() > 0 && config.token@.len() > 0
            && config.local_addr@.len() > 0 && limits_r is Ok,
        r matches Err(e) ==> e is Config,
        config.server_addr@.len() == 0 ==> r is Err && r->Err_0->Config_0@
            == "server_addr is required"@,
        config.server_addr@.len() > 0 && config.token@.len() == 0 ==> r is Err
            && r->Err_0->Config_0@ == "token is required"@,
        config.server_addr@.len() > 0 && config.token@.len() > 0 && config.local_addr@.len() == 0
            ==> r is Err && r->Err_0->Config_0@ == "local_addr is required"@,
{
}

/// A server configuration is accepted exactly where the token is given, the limits are usable, a
/// response has time, and an HTTP/3 ingress has certificate and key.
pub proof fn law_server_needs_token_and_certificates(
    config: &ServerConfig,
    limits: &LimitsConfig,
    limits_r: Result<(), TunnelError>,
    r: Result<(), TunnelError>,
)
    requires
        call_ensures(ServerConfig::validate, (config,), r),
        *limits == config.limits,
        call_ensures(validate_limits, (limits,), limits_r),
    ensures
        r is Ok <==> config.token@.len() > 0 && limits_r is Ok && config.http_response_timeout > 0
            && (config.http3_bind_addr is Some ==> config.http3_cert_path is Some
            && config.http3_key_path is Some),
        r matches Err(e) ==> e is Config,
        config.token@.len() == 0 ==> r is Err && r->Err_0->Config_0@ == "token is required"@,
{
}

/// What is printed of configurations that differ in nothing but their tokens is the same, so that no
/// token is ever printed.
pub proof fn law_printing_hides_the_token(
    a: &ClientConfig,
    b: &ClientConfig,
    a_text: String,
    b_text: String,
    c: &ServerConfig,
    d: &ServerConfig,
    c_text: String,
    d_text: String,
)
    requires
        *a == (ClientConfig { token: a.token, ..*b }),
        call_ensures(ClientConfig::debug_text, (a,), a_text),
        call_ensures(ClientConfig::debug_text, (b,), b_text),
        *c == (ServerConfig { token: c.token, ..*d }),
        call_ensures(ServerConfig::debug_text, (c,), c_text),
        call_ensures(ServerConfig::debug_text, (d,), d_text),
    ensures
        a_text@ == b_text@,
        c_text@ == d_text@,
{
}

/// What is read of a client configuration is what it holds.
pub proof fn law_client_configuration_is_read_as_it_is(
    config: &ClientConfig,
    server: &str,
    token: &str,
    local: &str,
    id: Option<&str>,
    auto: bool,
    delay: u64,
    startup: Option<u64>,
    limits: &LimitsConfig,
)
    requires
        call_ensures(ClientConfig::server_addr, (config,), server),
        call_ensures(ClientConfig::token, (config,), token),
        call_ensures(ClientConfig::local_addr, (config,), local),
        call_ensures(ClientConfig::tunnel_id, (config,), id),
        call_ensures(ClientConfig::auto_reconnect, (config,), auto),
        call_ensures(ClientConfig::reconnect_delay, (config,), delay),
        call_ensures(ClientConfig::startup_timeout, (config,), startup),
        call_ensures(ClientConfig::limits, (config,), limits),
    ensures
        server@ == config.server_addr@,
        token@ == config.token@,
        local@ == config.local_addr@,
        id is Some <==> config.tunnel_id is Some,
        id is Some ==> (id->0)@ == (config.tunnel_id->0)@,
        auto == config.auto_reconnect,
        delay == config.reconnect_delay,
        startup == config.startup_timeout,
        *limits == config.limits,
{
}

/// What is read of a server configuration is what it holds.
pub proof fn law_server_configuration_is_read_as_it_is(
    config: &ServerConfig,
    bind: SocketAddr,
    http: SocketAddr,
    http3: Option<SocketAddr>,
    token: &str,
    limits: &LimitsConfig,
    rates: &RateLimitConfig,
    timeout: u64,
)
    requires
        call_ensures(ServerConfig::bind_addr, (config,), bind),
        call_ensures(ServerConfig::http_bind_addr, (config,), http),
        call_ensures(ServerConfig::http3_bind_addr, (config,), http3),
        call_ensures(ServerConfig::token, (config,), token),
        call_ensures(ServerConfig::limits, (config,), limits),
        call_ensures(ServerConfig::rate_limits, (config,), rates),
        call_ensures(ServerConfig::http_response_timeout, (config,), timeout),
    ensures
        bind == config.bind_addr,
        http == config.http_bind_addr,
        http3 == config.http3_bind_addr,
        token@ == config.token@,
        *limits == config.limits,
        *rates == config.rate_limits,
        timeout == config.http_response_timeout,
{
}

} // verus!
