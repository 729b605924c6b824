//! Rate limiting for tunnel sessions.

use std::sync::Arc;

use vstd::prelude::*;

use crate::config::RateLimitConfig;
use crate::error::TunnelError;

verus! {

/// Session rate limiter configuration; each number is at least one.
#[derive(Debug, Clone, Copy, PartialEq, Eq, Structural)]
pub struct RateLimiterConfig {
    /// Maximum streams opened per second.
    pub streams_per_sec: u32,
    /// Maximum bytes per second.
    pub bytes_per_sec: u32,
    /// Burst multiplier.
    pub burst_factor: u32,
}

impl RateLimiterConfig {
    /// Whether every number is at least one.
    pub open spec fn wf(&self) -> bool {
        self.streams_per_sec > 0 && self.bytes_per_sec > 0 && self.burst_factor > 0
    }

    /// What a shared configuration means for the limiter: zero counts as one, and a byte rate
    /// beyond 32 bits as the largest.
    pub open spec fn of_config(config: RateLimitConfig) -> RateLimiterConfig {
        RateLimiterConfig {
            streams_per_sec: at_least_one(config.streams_per_sec),
            bytes_per_sec: at_least_one(clamp_u32(config.bytes_per_sec as nat)),
            burst_factor: at_least_one(config.burst_factor),
        }
    }
}

impl Default for RateLimiterConfig {
    fn default() -> (r: RateLimiterConfig)
        ensures
            r.wf(),
            r == (RateLimiterConfig {
                streams_per_sec: 100,
                bytes_per_sec: 10_485_760,
                burst_factor: 2,
            }),
    {
        RateLimiterConfig { streams_per_sec: 100, bytes_per_sec: 10_485_760, burst_factor: 2 }
    }
}

/// The number itself, or one in place of zero.
pub open spec fn at_least_one(n: u32) -> u32 {
    if n == 0 {
        1
    } else {
        n
    }
}

/// The number itself, or the largest 32-bit number where it exceeds that.
pub open spec fn clamp_u32(n: nat) -> u32 {
    if n <= u32::MAX {
        n as u32
    } else {
        u32::MAX
    }
}

fn one_for_zero(n: u32) -> (r: u32)
    ensures
        r == at_least_one(n),
{
    if n == 0 {
        1
    } else {
        n
    }
}

impl From<RateLimitConfig> for RateLimiterConfig {
    fn from(config: RateLimitConfig) -> (r: RateLimiterConfig) {
        let bytes_per_sec: u32 = if config.bytes_per_sec <= u32::MAX as u64 {
            config.bytes_per_sec as u32
        } else {
            u32::MAX
        };
        RateLimiterConfig {
            streams_per_sec: one_for_zero(config.streams_per_sec),
            bytes_per_sec: one_for_zero(bytes_per_sec),
            burst_factor: one_for_zero(config.burst_factor),
        }
    }
}

impl vstd::std_specs::convert::FromSpecImpl<RateLimitConfig> for RateLimiterConfig {
    open spec fn obeys_from_spec() -> bool {
        true
    }

    open spec fn from_spec(config: RateLimitConfig) -> RateLimiterConfig {
        RateLimiterConfig::of_config(config)
    }
}

/// Every shared configuration yields a usable limiter configuration.
pub proof fn law_any_config_is_usable(config: RateLimitConfig)
    ensures
        RateLimiterConfig::of_config(config).wf(),
{
}

/// The burst capacity for a per-second rate: the rate times the factor, within 32 bits.
pub open spec fn burst(rate: u32, burst_factor: u32) -> u32 {
    clamp_u32((rate as nat) * (burst_factor as nat))
}

/// Computes an absolute burst capacity from a per-second rate and a multiplier.
pub fn scaled_burst(rate: u32, burst_factor: u32) -> (r: u32)
    ensures
        r == burst(rate, burst_factor),
        rate > 0 && burst_factor > 0 ==> r >= rate && r >= burst_factor,
{
    proof {
        assert((rate as nat) * (burst_factor as nat) <= u32::MAX as nat * u32::MAX as nat)
            by (nonlinear_arith)
            requires
                rate <= u32::MAX,
                burst_factor <= u32::MAX,
        ;
        if rate > 0 && burst_factor > 0 {
            assert((rate as nat) * (burst_factor as nat) >= rate) by (nonlinear_arith)
                requires
                    burst_factor >= 1,
            ;
            assert((rate as nat) * (burst_factor as nat) >= burst_factor) by (nonlinear_arith)
                requires
                    rate >= 1,
            ;
        }
    }
    let product: u64 = (rate as u64) * (burst_factor as u64);
    if product <= u32::MAX as u64 {
        product as u32
    } else {
        u32::MAX
    }
}

/// A `governor` rate limiter without keys, on the default clock.
#[verifier::external_body]
pub struct Limiter {
    inner: governor::DefaultDirectRateLimiter,
}

/// The burst capacity that a limiter was made with.
pub uninterp spec fn limiter_burst(limiter: Limiter) -> nat;

/// The number of cells per second that a limiter was made to admit.
pub uninterp spec fn limiter_rate(limiter: Limiter) -> nat;

/// Whether a limiter, asked at some moment to let one cell pass, answers so.
pub uninterp spec fn limiter_answers(limiter: Limiter, answer: Admission) -> bool;

/// Whether a limiter, asked at some moment to let so many cells pass, answers so.
pub uninterp spec fn limiter_answers_n(limiter: Limiter, n: u32, answer: Admission) -> bool;

/// Whether cells may pass.
#[derive(Debug, Clone, Copy, PartialEq, Eq, Structural)]
pub enum Admission {
    /// They pass, and were accounted for.
    Admitted,
    /// They do not pass now, but may later.
    NotYet,
    /// They exceed the burst capacity and never pass.
    NeverFits,
}

/// Makes a limiter.
///
/// Calls `governor::RateLimiter::direct` with the quota of `rate` cells per second and an
/// absolute burst capacity of `burst` cells.
#[verifier::external_body]
fn new_limiter(rate: u32, burst: u32) -> (r: Limiter)
    requires
        rate > 0,
        burst > 0,
    ensures
        limiter_rate(r) == rate,
        limiter_burst(r) == burst,
{
    let rate = std::num::NonZeroU32::new(rate).unwrap();
    let burst = std::num::NonZeroU32::new(burst).unwrap();
    let quota = governor::Quota::per_second(rate).allow_burst(burst);
    Limiter { inner: governor::RateLimiter::direct(quota) }
}

/// Asks a limiter to let one cell pass.
///
/// Calls `governor::RateLimiter::check`. The answer is one that this limiter gives. Which one
/// depends on the time; a single cell never exceeds the burst capacity.
#[verifier::external_body]
fn limiter_check(limiter: &Limiter) -> (r: Admission)
    ensures
        limiter_answers(*limiter, r),
        r != Admission::NeverFits,
{
    match limiter.inner.check() {
        Ok(()) => Admission::Admitted,
        Err(_) => Admission::NotYet,
    }
}

/// Asks a limiter to let `n` cells pass, all or none.
///
/// Calls `governor::RateLimiter::check_n`. The answer is one that this limiter gives for `n`
/// cells: insufficient capacity exactly where `n` exceeds the burst capacity; within it the
/// answer depends on the time.
#[verifier::external_body]
fn limiter_check_n(limiter: &Limiter, n: u32) -> (r: Admission)
    requires
        n > 0,
    ensures
        limiter_answers_n(*limiter, n, r),
        r == Admission::NeverFits <==> n > limiter_burst(*limiter),
{
    match limiter.inner.check_n(std::num::NonZeroU32::new(n).unwrap()) {
        Ok(Ok(())) => Admission::Admitted,
        Ok(Err(_)) => Admission::NotYet,
        Err(_) => Admission::NeverFits,
    }
}

/// Rate limiter for a single session. Clones share their budget.
pub struct SessionRateLimiter {
    stream_limiter: Arc<Limiter>,
    bytes_limiter: Arc<Limiter>,
}

impl Clone for SessionRateLimiter {
    fn clone(&self) -> (r: SessionRateLimiter)
        ensures
            r == *self,
    {
        SessionRateLimiter {
            stream_limiter: self.stream_limiter.clone(),
            bytes_limiter: self.bytes_limiter.clone(),
        }
    }
}

/// Rate limit errors.
#[derive(Debug, Clone, Copy, PartialEq, Eq, Structural)]
pub enum RateLimitError {
    StreamRateLimited,
    BytesRateLimited,
}

impl RateLimitError {
    /// The error as a message.
    pub open spec fn text(self) -> Seq<char> {
        match self {
            RateLimitError::StreamRateLimited => "stream open rate limited"@,
            RateLimitError::BytesRateLimited => "data transfer rate limited"@,
        }
    }

    /// The error as a message.
    pub fn message(self) -> (r: String)
        ensures
            r@ == self.text(),
    {
        match self {
            RateLimitError::StreamRateLimited => "stream open rate limited".to_owned(),
            RateLimitError::BytesRateLimited => "data transfer rate limited".to_owned(),
        }
    }

    /// The error as the tunnel reports it.
    pub fn into_tunnel_error(self) -> (r: TunnelError)
        ensures
            r is ServiceUnavailable,
            r.text() == self.text(),
    {
        TunnelError::ServiceUnavailable(self.message())
    }
}

/// What a limiter's answer means for a stream that is to be opened.
pub fn stream_admission(answer: Admission) -> (r: Result<(), RateLimitError>)
    ensures
        r is Ok <==> answer == Admission::Admitted,
        r matches Err(e) ==> e == RateLimitError::StreamRateLimited,
{
    match answer {
        Admission::Admitted => Ok(()),
        _ => Err(RateLimitError::StreamRateLimited),
    }
}

/// What a limiter's answer means for data that is to be sent: anything but admission fails
/// closed.
pub fn data_admission(answer: Admission) -> (r: Result<(), RateLimitError>)
    ensures
        r is Ok <==> answer == Admission::Admitted,
        r matches Err(e) ==> e == RateLimitError::BytesRateLimited,
{
    match answer {
        Admission::Admitted => Ok(()),
        _ => Err(RateLimitError::BytesRateLimited),
    }
}

/// The number of cells that a payload of `bytes` bytes takes: one for each byte, within 32
/// bits.
pub fn data_cells(bytes: usize) -> (r: u32)
    ensures
        r == clamp_u32(bytes as nat),
{
    if bytes as u64 <= u32::MAX as u64 {
        bytes as u32
    } else {
        u32::MAX
    }
}

impl SessionRateLimiter {
    /// The number of streams that may be opened at once.
    pub closed spec fn stream_burst(&self) -> nat {
        limiter_burst(*self.stream_limiter)
    }

    /// The number of bytes that may be sent at once.
    pub closed spec fn bytes_burst(&self) -> nat {
        limiter_burst(*self.bytes_limiter)
    }

    /// The number of streams that may be opened per second.
    pub closed spec fn stream_rate(&self) -> nat {
        limiter_rate(*self.stream_limiter)
    }

    /// The number of bytes that may be sent per second.
    pub closed spec fn bytes_rate(&self) -> nat {
        limiter_rate(*self.bytes_limiter)
    }

    /// Whether the limiter of stream openings, asked about one, answers so.
    pub closed spec fn answers_opening(&self, answer: Admission) -> bool {
        limiter_answers(*self.stream_limiter, answer)
    }

    /// Whether the limiter of bytes, asked about so many, answers so.
    pub closed spec fn answers_bytes(&self, bytes: u32, answer: Admission) -> bool {
        limiter_answers_n(*self.bytes_limiter, bytes, answer)
    }

    /// Whether a stream may be admitted, or refused, by what the limiter of stream openings
    /// answers.
    pub open spec fn may_open(&self, admitted: bool) -> bool {
        exists|answer: Admission| #[trigger]
            self.answers_opening(answer) && admitted == (answer == Admission::Admitted)
    }

    /// Whether data may be admitted, or refused, by what the limiter of bytes answers. Empty
    /// data is not asked about, and data beyond the burst capacity is refused.
    pub open spec fn may_send(&self, bytes: nat, admitted: bool) -> bool {
        if bytes == 0 {
            admitted
        } else {
            &&& clamp_u32(bytes) > self.bytes_burst() ==> !admitted
            &&& exists|answer: Admission| #[trigger]
                self.answers_bytes(clamp_u32(bytes), answer) && admitted == (answer
                    == Admission::Admitted)
        }
    }

    /// Creates a new session rate limiter.
    ///
    /// The burst capacity is absolute, in cells. The byte limiter takes one cell per byte, so
    /// its capacity scales with the rate.
    pub fn new(config: &RateLimiterConfig) -> (r: SessionRateLimiter)
        requires
            config.wf(),
        ensures
            r.stream_rate() == config.streams_per_sec,
            r.bytes_rate() == config.bytes_per_sec,
            r.stream_burst() == burst(config.streams_per_sec, config.burst_factor),
            r.bytes_burst() == burst(config.bytes_per_sec, config.burst_factor),
    {
        let stream_burst: u32 = scaled_burst(config.streams_per_sec, config.burst_factor);
        let bytes_burst: u32 = scaled_burst(config.bytes_per_sec, config.burst_factor);
        SessionRateLimiter {
            stream_limiter: Arc::new(new_limiter(config.streams_per_sec, stream_burst)),
            bytes_limiter: Arc::new(new_limiter(config.bytes_per_sec, bytes_burst)),
        }
    }

    /// Checks whether a new stream can be opened.
    pub fn check_stream_open(&self) -> (r: Result<(), RateLimitError>)
        ensures
            self.may_open(r is Ok),
            r matches Err(e) ==> e == RateLimitError::StreamRateLimited,
    {
        let answer = limiter_check(&self.stream_limiter);
        proof {
            assert(self.answers_opening(answer));
        }
        stream_admission(answer)
    }

    /// Checks whether `bytes` of data can be sent, accounting for the actual payload size.
    ///
    /// An empty payload is always allowed; one beyond the burst capacity never is.
    pub fn check_data(&self, bytes: usize) -> (r: Result<(), RateLimitError>)
        ensures
            self.may_send(bytes as nat, r is Ok),
            r matches Err(e) ==> e == RateLimitError::BytesRateLimited,
    {
        let cells: u32 = data_cells(bytes);
        if cells == 0 {
            return Ok(());
        }
        let answer = limiter_check_n(&self.bytes_limiter, cells);
        proof {
            assert(self.answers_bytes(cells, answer));
        }
        data_admission(answer)
    }
}

/// The burst capacity always covers one second at the configured rate, so a payload of a
/// second's worth of bytes can conform.
pub proof fn law_burst_covers_one_second(rate: u32, burst_factor: u32)
    requires
        rate > 0,
        burst_factor > 0,
    ensures
        burst(rate, burst_factor) >= rate,
{
    assert((rate as nat) * (burst_factor as nat) >= rate) by (nonlinear_arith)
        requires
            burst_factor >= 1,
    ;
}

/// A session may open and send as much per second as is configured, and at once as much as the burst
/// factor multiplies that to, within 32 bits; a zero counts as one.
pub proof fn law_limiter_follows_its_configuration(
    config: RateLimitConfig,
    usable: RateLimiterConfig,
    limiter: SessionRateLimiter,
)
    requires
        call_ensures(<RateLimiterConfig as From<RateLimitConfig>>::from, (config,), usable),
        call_ensures(SessionRateLimiter::new, (&usable,), limiter),
    ensures
        ({
            let streams = if config.streams_per_sec == 0 {
                1int
            } else {
                config.streams_per_sec as int
            };
            let bytes = if config.bytes_per_sec == 0 {
                1int
            } else if config.bytes_per_sec > u32::MAX {
                u32::MAX as int
            } else {
                config.bytes_per_sec as int
            };
            let factor = if config.burst_factor == 0 {
                1int
            } else {
                config.burst_factor as int
            };
            &&& limiter.stream_rate() == streams
            &&& limiter.bytes_rate() == bytes
            &&& limiter.stream_burst() == (if streams * factor <= u32::MAX {
                streams * factor
            } else {
                u32::MAX as int
            })
            &&& limiter.bytes_burst() == (if bytes * factor <= u32::MAX {
                bytes * factor
            } else {
                u32::MAX as int
            })
        }),
{
    assert(usable == RateLimiterConfig::of_config(config));
}

/// A burst is the product of rate and factor, within 32 bits.
pub proof fn law_burst_is_the_product(rate: u32, factor: u32, r: u32)
    requires
        call_ensures(scaled_burst, (rate, factor), r),
    ensures
        rate as int * factor as int <= u32::MAX ==> r as int == rate as int * factor as int,
        rate as int * factor as int > u32::MAX ==> r == u32::MAX,
{
    assert(rate as int * factor as int == (rate as nat) * (factor as nat)) by (nonlinear_arith);
}

/// A payload takes one cell for each byte, and within 32 bits; what is not admitted is refused, as
/// the kind of limit that it is.
pub proof fn law_only_what_is_admitted_passes(
    bytes: usize,
    cells: u32,
    answer: Admission,
    stream: Result<(), RateLimitError>,
    data: Result<(), RateLimitError>,
)
    requires
        call_ensures(data_cells, (bytes,), cells),
        call_ensures(stream_admission, (answer,), stream),
        call_ensures(data_admission, (answer,), data),
    ensures
        bytes <= u32::MAX ==> cells == bytes,
        bytes > u32::MAX ==> cells == u32::MAX,
        stream is Ok <==> answer == Admission::Admitted,
        data is Ok <==> answer == Admission::Admitted,
        stream is Err ==> stream->Err_0 == RateLimitError::StreamRateLimited,
        data is Err ==> data->Err_0 == RateLimitError::BytesRateLimited,
{
}

/// An opening passes exactly as the limiter of openings answers, and data as that of bytes answers
/// for its length; empty data always passes, and data beyond the burst never does. What is refused is
/// told apart, openings from data, to the session and to the tunnel.
pub proof fn law_limits_hold_for_data(
    limiter: &SessionRateLimiter,
    bytes: usize,
    data: Result<(), RateLimitError>,
    open: Result<(), RateLimitError>,
    error: RateLimitError,
    reported: TunnelError,
)
    requires
        call_ensures(SessionRateLimiter::check_data, (limiter, bytes), data),
        call_ensures(SessionRateLimiter::check_stream_open, (limiter,), open),
        call_ensures(RateLimitError::into_tunnel_error, (error,), reported),
    ensures
        bytes == 0 ==> data is Ok,
        bytes <= u32::MAX && bytes > limiter.bytes_burst() ==> data is Err,
        exists|answer: Admission| #[trigger]
            limiter.answers_opening(answer) && (open is Ok <==> answer == Admission::Admitted),
        0 < bytes <= u32::MAX ==> exists|answer: Admission| #[trigger]
            limiter.answers_bytes(bytes as u32, answer) && (data is Ok <==> answer
                == Admission::Admitted),
        data is Err ==> data->Err_0 == RateLimitError::BytesRateLimited,
        open is Err ==> open->Err_0 == RateLimitError::StreamRateLimited,
        reported is ServiceUnavailable,
        error == RateLimitError::StreamRateLimited ==> reported->ServiceUnavailable_0@
            == "stream open rate limited"@,
        error == RateLimitError::BytesRateLimited ==> reported->ServiceUnavailable_0@
            == "data transfer rate limited"@,
{
}

} // verus!
