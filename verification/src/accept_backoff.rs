//! Accept loops: which errors to retry after a delay, and which failures to log.

use vstd::prelude::*;

use crate::reconnect::Backoff;

verus! {

/// The kinds of I/O error that accept loops meet.
#[derive(Debug, Clone, Copy, PartialEq, Eq, Structural)]
pub enum IoErrorKind {
    Interrupted,
    WouldBlock,
    ConnectionAborted,
    ConnectionReset,
    AddrNotAvailable,
    InvalidInput,
    PermissionDenied,
    Other,
}

/// An I/O error: its kind, and the operating system's code where it has one.
#[derive(Debug, Clone, Copy, PartialEq, Eq, Structural)]
pub struct IoError {
    pub kind: IoErrorKind,
    pub raw_os_error: Option<i32>,
}

/// Whether errors of a kind pass by themselves.
pub open spec fn transient_kind(kind: IoErrorKind) -> bool {
    kind == IoErrorKind::Interrupted || kind == IoErrorKind::WouldBlock || kind
        == IoErrorKind::ConnectionAborted || kind == IoErrorKind::ConnectionReset
}

/// The code of a process that has too many files open: `libc::EMFILE`. Its value depends on
/// the operating system.
#[verifier::external_body]
fn too_many_open_files() -> (r: i32) {
    libc::EMFILE
}

/// The code of a system that has too many files open: `libc::ENFILE`. Its value depends on
/// the operating system.
#[verifier::external_body]
fn file_table_overflow() -> (r: i32) {
    libc::ENFILE
}

/// Whether an accept error passes by itself, given the system's codes for the exhaustion of
/// file descriptors, which passes when others are closed.
pub fn is_transient_with_codes(error: &IoError, emfile: i32, enfile: i32) -> (r: bool)
    ensures
        r == (transient_kind(error.kind) || error.raw_os_error == Some(emfile)
            || error.raw_os_error == Some(enfile)),
{
    let by_kind: bool = match error.kind {
        IoErrorKind::Interrupted
        | IoErrorKind::WouldBlock
        | IoErrorKind::ConnectionAborted
        | IoErrorKind::ConnectionReset => true,
        _ => false,
    };
    by_kind || is_fd_exhaustion_with_codes(error, emfile, enfile)
}

/// Whether an error is one of the two given codes.
pub fn is_fd_exhaustion_with_codes(error: &IoError, emfile: i32, enfile: i32) -> (r: bool)
    ensures
        r == (error.raw_os_error == Some(emfile) || error.raw_os_error == Some(enfile)),
{
    match error.raw_os_error {
        Some(code) => code == emfile || code == enfile,
        None => false,
    }
}

/// Whether an error says that file descriptors are used up.
pub fn is_fd_exhaustion(error: &IoError) -> (r: bool)
    ensures
        error.raw_os_error is None ==> !r,
{
    is_fd_exhaustion_with_codes(error, too_many_open_files(), file_table_overflow())
}

/// Whether an accept error is transient and worth retrying after a delay.
pub fn is_transient_accept_error(error: &IoError) -> (r: bool)
    ensures
        transient_kind(error.kind) ==> r,
        !transient_kind(error.kind) && error.raw_os_error is None ==> !r,
{
    is_transient_with_codes(error, too_many_open_files(), file_table_overflow())
}

/// The failures of an accept loop since it last succeeded.
#[derive(Debug, Clone, Copy, PartialEq, Eq, Structural)]
pub struct AcceptBackoff {
    pub backoff: Backoff,
    pub consecutive: u64,
}

impl Default for AcceptBackoff {
    fn default() -> (r: AcceptBackoff)
        ensures
            r.backoff.attempt == 0,
            r.consecutive == 0,
    {
        AcceptBackoff { backoff: Backoff::new(), consecutive: 0 }
    }
}

impl AcceptBackoff {
    /// Starts anew after a successful accept.
    pub fn reset(&mut self)
        ensures
            final(self).backoff.attempt == 0,
            final(self).consecutive == 0,
    {
        self.backoff.reset();
        self.consecutive = 0;
    }

    /// Records a transient failure. Returns the attempt that the delay is computed from, and
    /// whether to log: the first of a row is logged, and then each fiftieth.
    pub fn record_failure(&mut self) -> (r: (u32, bool))
        requires
            old(self).consecutive < u64::MAX,
        ensures
            r.0 == old(self).backoff.attempt,
            final(self).backoff.attempt == Backoff::following(r.0),
            final(self).consecutive == old(self).consecutive + 1,
            r.1 == (final(self).consecutive == 1 || final(self).consecutive % 50 == 0),
    {
        self.consecutive = self.consecutive + 1;
        let should_log: bool = self.consecutive == 1 || self.consecutive % 50 == 0;
        let attempt: u32 = self.backoff.next_attempt();
        (attempt, should_log)
    }
}

/// The number of log lines that a row of `n` failures yields.
pub open spec fn log_lines(n: nat) -> nat
    decreases n,
{
    if n == 0 {
        0
    } else {
        log_lines((n - 1) as nat) + if n == 1 || n % 50 == 0 {
            1nat
        } else {
            0nat
        }
    }
}

/// A row of failures is logged once, and once more for every fifty of them.
pub proof fn law_logging_is_rate_limited(n: nat)
    requires
        n > 0,
    ensures
        log_lines(n) == 1 + n / 50,
    decreases n,
{
    if n > 1 {
        law_logging_is_rate_limited((n - 1) as nat);
    } else {
        assert(log_lines(0) == 0);
    }
}

/// Errors of four kinds pass by themselves, and so does the exhaustion of file descriptors; others do
/// not.
pub proof fn law_passing_errors_are_told_apart(
    error: &IoError,
    emfile: i32,
    enfile: i32,
    r: bool,
    exhausted: bool,
    here: bool,
)
    requires
        call_ensures(is_transient_with_codes, (error, emfile, enfile), r),
        call_ensures(is_fd_exhaustion_with_codes, (error, emfile, enfile), exhausted),
        call_ensures(is_transient_accept_error, (error,), here),
    ensures
        exhausted <==> error.raw_os_error == Some(emfile) || error.raw_os_error == Some(enfile),
        error.kind == IoErrorKind::Interrupted || error.kind == IoErrorKind::WouldBlock
            || error.kind == IoErrorKind::ConnectionAborted || error.kind
            == IoErrorKind::ConnectionReset ==> r && here,
        error.kind == IoErrorKind::AddrNotAvailable || error.kind == IoErrorKind::InvalidInput
            || error.kind == IoErrorKind::PermissionDenied || error.kind == IoErrorKind::Other ==> (
        r <==> exhausted) && (error.raw_os_error is None ==> !here),
{
}

/// In a row of failures each is retried from the attempt that is next, and the first is logged, and
/// then each fiftieth; a success starts the row anew.
pub proof fn law_rows_of_failures_are_counted(
    fresh: AcceptBackoff,
    backoff: &mut AcceptBackoff,
    r: (u32, bool),
    anew: &mut AcceptBackoff,
)
    requires
        call_ensures(AcceptBackoff::default, (), fresh),
        old(backoff).consecutive < u64::MAX,
        old(backoff).backoff.attempt < u32::MAX,
        call_ensures(AcceptBackoff::record_failure, (backoff,), r),
        call_ensures(AcceptBackoff::reset, (anew,), ()),
    ensures
        fresh.consecutive == 0 && fresh.backoff.attempt == 0,
        r.0 == old(backoff).backoff.attempt,
        final(backoff).backoff.attempt == old(backoff).backoff.attempt + 1,
        final(backoff).consecutive == old(backoff).consecutive + 1,
        r.1 <==> old(backoff).consecutive == 0 || (old(backoff).consecutive + 1) % 50 == 0,
        final(anew).consecutive == 0 && final(anew).backoff.attempt == 0,
{
}

} // verus!
