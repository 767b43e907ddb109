//! Transport policy: which failures are worth another try, and when to
//! stop trying.

use crate::errors::{DomainError, ErrorKind};
use vstd::prelude::*;

verus! {

/// What is known of a failed request, as plain facts.
#[derive(Clone, Copy, Debug, PartialEq, Eq, Structural)]
pub struct TransportFailure {
    /// The per-request timer fired.
    pub timeout: bool,
    /// The connection could not be made.
    pub connect: bool,
    /// A redirect loop, or too many redirects.
    pub redirect: bool,
    /// The body could not be decoded.
    pub decode: bool,
    /// The request or response body failed.
    pub body: bool,
    /// The request could not be sent.
    pub request: bool,
    /// The request could not be built.
    pub builder: bool,
    /// The status code of the response, if one arrived.
    pub status: Option<u16>,
}

/// The class of a failed request. The first fact that applies decides, in
/// the order timeout, connect, redirect, body, request, status.
pub open spec fn kind_of(f: TransportFailure) -> ErrorKind {
    if f.timeout {
        ErrorKind::NetworkTimeout
    } else if f.connect {
        ErrorKind::NetworkConnect
    } else if f.redirect {
        ErrorKind::Network
    } else if f.decode || f.body {
        ErrorKind::NetworkBody
    } else if f.request || f.builder {
        ErrorKind::Network
    } else {
        match f.status {
            Some(code) => ErrorKind::NetworkStatus(code),
            None => ErrorKind::Network,
        }
    }
}

/// Whether a failure of this class may go away by itself: a connection
/// error, a timeout, or a server error (status 500 to 599).
pub open spec fn transient(kind: ErrorKind) -> bool {
    match kind {
        ErrorKind::NetworkConnect => true,
        ErrorKind::NetworkTimeout => true,
        ErrorKind::NetworkStatus(code) => 500 <= code <= 599,
        _ => false,
    }
}

/// The class of a failed request.
pub fn classify(f: &TransportFailure) -> (kind: ErrorKind)
    ensures
        kind == kind_of(*f),
{
    if f.timeout {
        ErrorKind::NetworkTimeout
    } else if f.connect {
        ErrorKind::NetworkConnect
    } else if f.redirect {
        ErrorKind::Network
    } else if f.decode || f.body {
        ErrorKind::NetworkBody
    } else if f.request || f.builder {
        ErrorKind::Network
    } else {
        match f.status {
            Some(code) => ErrorKind::NetworkStatus(code),
            None => ErrorKind::Network,
        }
    }
}

/// Whether a failure of this class is worth another try.
pub fn is_transient(kind: ErrorKind) -> (b: bool)
    ensures
        b == transient(kind),
{
    match kind {
        ErrorKind::NetworkConnect => true,
        ErrorKind::NetworkTimeout => true,
        ErrorKind::NetworkStatus(code) => 500 <= code && code <= 599,
        _ => false,
    }
}

/// The error reported for a failed request: one of the class of the
/// failure, which keeps the status code where there is one.
pub fn map_err(f: &TransportFailure) -> (e: DomainError)
    ensures
        e.spec_kind() == kind_of(*f),
        match kind_of(*f) {
            ErrorKind::NetworkTimeout => e is NetworkTimeoutError,
            ErrorKind::NetworkConnect => e is NetworkConnectError,
            ErrorKind::NetworkStatus(code) => e is NetworkStatusError,
            ErrorKind::NetworkBody => e is NetworkBodyError,
            _ => e is NetworkError,
        },
{
    match classify(f) {
        ErrorKind::NetworkTimeout => DomainError::NetworkTimeoutError(
            "Download request timeout, can't fetch file from server.".to_owned(),
        ),
        ErrorKind::NetworkConnect => DomainError::NetworkConnectError(
            "Can't connect to server, check your URL and your internet connection.".to_owned(),
        ),
        ErrorKind::NetworkBody => DomainError::NetworkBodyError(
            "Network error, can't read the response body.".to_owned(),
        ),
        ErrorKind::NetworkStatus(code) => if 400 <= code && code <= 499 {
            DomainError::NetworkStatusError(
                code,
                "Client error, check your request parameters and configuration.".to_owned(),
            )
        } else if 500 <= code && code <= 599 {
            DomainError::NetworkStatusError(
                code,
                "Server error, the error came from the server.".to_owned(),
            )
        } else {
            DomainError::NetworkStatusError(code, "Network error, unexpected status.".to_owned())
        },
        _ => DomainError::NetworkError("Network error, unable to download file.".to_owned()),
    }
}

/// Whether an error is worth another try: a connection error, a timeout,
/// or a server error.
pub fn can_retry(err: &DomainError) -> (b: bool)
    ensures
        b == transient(err.spec_kind()),
{
    is_transient(err.kind())
}

/// How often and how patiently a request is tried again.
#[derive(Clone, Copy, Debug, PartialEq, Eq, Structural)]
pub struct RetryConfig {
    pub max_no_retries: usize,
    pub retry_delay_secs: usize,
}

impl RetryConfig {
    /// A policy of at most `max_no_retries` retries, with waits of up to
    /// `retry_delay_secs` seconds.
    pub fn new(max_no_retries: usize, retry_delay_secs: usize) -> (c: RetryConfig)
        ensures
            c.max_no_retries == max_no_retries,
            c.retry_delay_secs == retry_delay_secs,
    {
        RetryConfig { max_no_retries, retry_delay_secs }
    }

    /// The largest number of retries.
    pub fn max_no_retries(&self) -> (n: usize)
        ensures
            n == self.max_no_retries,
    {
        self.max_no_retries
    }

    /// The longest wait, in seconds, as configured.
    pub fn retry_delay_secs(&self) -> (n: usize)
        ensures
            n == self.retry_delay_secs,
    {
        self.retry_delay_secs
    }

    /// The bounds of the wait between two tries, in seconds: from one second
    /// to the configured delay, which counts as two seconds at least.
    pub fn retry_bounds(&self) -> (bounds: (u64, u64))
        ensures
            bounds.0 == 1,
            bounds.1 == if self.retry_delay_secs >= 2 {
                self.retry_delay_secs as int
            } else {
                2
            },
            bounds.0 < bounds.1,
    {
        let upper: usize = if self.retry_delay_secs >= 2 {
            self.retry_delay_secs
        } else {
            2
        };
        (1, upper as u64)
    }
}

impl Default for RetryConfig {
    /// Ten retries, ten seconds.
    fn default() -> (c: RetryConfig)
        ensures
            c.max_no_retries == 10,
            c.retry_delay_secs == 10,
    {
        RetryConfig { max_no_retries: 10, retry_delay_secs: 10 }
    }
}

/// What to do after a failed try.
#[derive(Clone, Copy, Debug, PartialEq, Eq, Structural)]
pub enum RetryDecision {
    /// Wait and try again.
    Again,
    /// The failure will not go away: hand it to the caller.
    Surface,
    /// The budget of retries is spent.
    Exhausted,
}

/// What to do after a failed try of class `kind`, when `retries_made`
/// retries of at most `max_no_retries` have been made.
pub open spec fn decision(kind: ErrorKind, retries_made: int, max_no_retries: int) -> RetryDecision {
    if !transient(kind) {
        RetryDecision::Surface
    } else if retries_made >= max_no_retries {
        RetryDecision::Exhausted
    } else {
        RetryDecision::Again
    }
}

/// The retries made for one request.
#[derive(Clone, Copy, Debug)]
pub struct RetryState {
    config: RetryConfig,
    retries_made: usize,
}

/// What a `RetryState` holds.
pub struct RetryView {
    pub max_no_retries: int,
    pub retry_delay_secs: int,
    pub retries_made: int,
}

impl View for RetryState {
    type V = RetryView;

    closed spec fn view(&self) -> RetryView {
        RetryView {
            max_no_retries: self.config.max_no_retries as int,
            retry_delay_secs: self.config.retry_delay_secs as int,
            retries_made: self.retries_made as int,
        }
    }
}

impl RetryState {
    /// No more retries are made than the policy allows.
    pub open spec fn wf(&self) -> bool {
        0 <= self@.retries_made <= self@.max_no_retries
    }

    /// The state before the first try.
    pub fn new(config: RetryConfig) -> (s: RetryState)
        ensures
            s.wf(),
            s@.max_no_retries == config.max_no_retries,
            s@.retry_delay_secs == config.retry_delay_secs,
            s@.retries_made == 0,
    {
        RetryState { config, retries_made: 0 }
    }

    /// The policy that the retries follow.
    pub fn config(&self) -> (c: RetryConfig)
        ensures
            c.max_no_retries == self@.max_no_retries,
            c.retry_delay_secs == self@.retry_delay_secs,
    {
        self.config
    }

    /// Retries made so far.
    pub fn retries_made(&self) -> (n: usize)
        ensures
            n == self@.retries_made,
    {
        self.retries_made
    }

    /// Decides what follows a failed try, and counts the retry if there is
    /// to be one.
    pub fn on_failure(&mut self, kind: ErrorKind) -> (d: RetryDecision)
        requires
            old(self).wf(),
        ensures
            final(self).wf(),
            d == decision(kind, old(self)@.retries_made, old(self)@.max_no_retries),
            final(self)@.max_no_retries == old(self)@.max_no_retries,
            final(self)@.retry_delay_secs == old(self)@.retry_delay_secs,
            final(self)@.retries_made == old(self)@.retries_made + if d == RetryDecision::Again {
                1int
            } else {
                0int
            },
    {
        if !is_transient(kind) {
            RetryDecision::Surface
        } else if self.retries_made >= self.config.max_no_retries {
            RetryDecision::Exhausted
        } else {
            self.retries_made = self.retries_made + 1;
            RetryDecision::Again
        }
    }
}

/// Whether a status code reports success: 200 to 299.
pub open spec fn is_success(code: u16) -> bool {
    200 <= code <= 299
}

/// What a final response with status `code` amounts to: nothing to report
/// for a code from 200 to 299, and for every other code a failure that
/// carries it.
pub fn status_failure(code: u16) -> (f: Option<TransportFailure>)
    ensures
        match f {
            None => is_success(code),
            Some(failure) => !is_success(code) && failure == (TransportFailure {
                timeout: false,
                connect: false,
                redirect: false,
                decode: false,
                body: false,
                request: false,
                builder: false,
                status: Some(code),
            }) && kind_of(failure) == ErrorKind::NetworkStatus(code),
        },
{
    if 200 <= code && code <= 299 {
        None
    } else {
        Some(
            TransportFailure {
                timeout: false,
                connect: false,
                redirect: false,
                decode: false,
                body: false,
                request: false,
                builder: false,
                status: Some(code),
            },
        )
    }
}

} // verus!
