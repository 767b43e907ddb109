use cliant::errors::{DomainError, ErrorKind};
use cliant::transport::{
    can_retry, classify, is_transient, map_err, status_failure, RetryConfig, RetryDecision,
    RetryState, TransportFailure,
};

fn failure() -> TransportFailure {
    TransportFailure {
        timeout: false,
        connect: false,
        redirect: false,
        decode: false,
        body: false,
        request: false,
        builder: false,
        status: None,
    }
}

#[test]
fn failures_are_classified_by_their_first_fact() {
    assert_eq!(classify(&TransportFailure { timeout: true, connect: true, ..failure() }), ErrorKind::NetworkTimeout);
    assert_eq!(classify(&TransportFailure { connect: true, status: Some(503), ..failure() }), ErrorKind::NetworkConnect);
    assert_eq!(classify(&TransportFailure { redirect: true, ..failure() }), ErrorKind::Network);
    assert_eq!(classify(&TransportFailure { decode: true, ..failure() }), ErrorKind::NetworkBody);
    assert_eq!(classify(&TransportFailure { body: true, ..failure() }), ErrorKind::NetworkBody);
    assert_eq!(classify(&TransportFailure { builder: true, ..failure() }), ErrorKind::Network);
    assert_eq!(classify(&TransportFailure { status: Some(404), ..failure() }), ErrorKind::NetworkStatus(404));
    assert_eq!(classify(&failure()), ErrorKind::Network);
}

#[test]
fn connect_timeout_and_server_errors_are_transient() {
    assert!(is_transient(ErrorKind::NetworkConnect));
    assert!(is_transient(ErrorKind::NetworkTimeout));
    assert!(is_transient(ErrorKind::NetworkStatus(500)));
    assert!(is_transient(ErrorKind::NetworkStatus(503)));
    assert!(is_transient(ErrorKind::NetworkStatus(599)));
    for kind in [
        ErrorKind::NetworkStatus(404),
        ErrorKind::NetworkStatus(499),
        ErrorKind::NetworkStatus(600),
        ErrorKind::NetworkStatus(301),
        ErrorKind::NetworkBody,
        ErrorKind::Network,
        ErrorKind::Storage,
        ErrorKind::Parse,
        ErrorKind::Validate,
        ErrorKind::Cancelled,
        ErrorKind::Other,
    ] {
        assert!(!is_transient(kind));
    }
}

#[test]
fn errors_keep_their_class() {
    assert!(matches!(map_err(&TransportFailure { timeout: true, ..failure() }), DomainError::NetworkTimeoutError(_)));
    assert!(matches!(map_err(&TransportFailure { connect: true, ..failure() }), DomainError::NetworkConnectError(_)));
    assert!(matches!(map_err(&TransportFailure { status: Some(404), ..failure() }), DomainError::NetworkStatusError(404, _)));
    assert!(matches!(map_err(&TransportFailure { status: Some(503), ..failure() }), DomainError::NetworkStatusError(503, _)));
    assert!(matches!(map_err(&TransportFailure { body: true, ..failure() }), DomainError::NetworkBodyError(_)));
    assert!(matches!(map_err(&TransportFailure { redirect: true, ..failure() }), DomainError::NetworkError(_)));
    assert!(matches!(map_err(&failure()), DomainError::NetworkError(_)));
    for f in [
        failure(),
        TransportFailure { timeout: true, ..failure() },
        TransportFailure { connect: true, status: Some(500), ..failure() },
        TransportFailure { decode: true, ..failure() },
        TransportFailure { status: Some(418), ..failure() },
    ] {
        assert_eq!(map_err(&f).kind(), classify(&f));
    }
    assert_eq!(DomainError::StorageError("x".to_string()).kind(), ErrorKind::Storage);
    assert_eq!(DomainError::ParseError("x".to_string()).kind(), ErrorKind::Parse);
    assert_eq!(DomainError::ValidateError("x".to_string()).kind(), ErrorKind::Validate);
    assert_eq!(DomainError::Cancelled.kind(), ErrorKind::Cancelled);
    assert_eq!(DomainError::NetworkError("x".to_string()).kind(), ErrorKind::Network);
    assert_eq!(DomainError::NetworkBodyError("x".to_string()).kind(), ErrorKind::NetworkBody);
}

#[test]
fn connection_errors_timeouts_and_server_errors_are_retried() {
    assert!(can_retry(&DomainError::NetworkConnectError("x".to_string())));
    assert!(can_retry(&DomainError::NetworkTimeoutError("x".to_string())));
    assert!(can_retry(&DomainError::NetworkStatusError(503, "x".to_string())));
    assert!(can_retry(&map_err(&TransportFailure { status: Some(500), ..failure() })));
    assert!(!can_retry(&DomainError::NetworkStatusError(404, "x".to_string())));
    assert!(!can_retry(&DomainError::NetworkError("x".to_string())));
    assert!(!can_retry(&DomainError::NetworkBodyError("x".to_string())));
    assert!(!can_retry(&DomainError::StorageError("x".to_string())));
    assert!(!can_retry(&DomainError::Other { message: "x".to_string() }));
}

#[test]
fn two_server_errors_then_success_stay_inside_the_budget() {
    let mut state = RetryState::new(RetryConfig::default());
    assert_eq!(state.on_failure(ErrorKind::NetworkStatus(503)), RetryDecision::Again);
    assert_eq!(state.on_failure(ErrorKind::NetworkStatus(503)), RetryDecision::Again);
    assert_eq!(state.retries_made(), 2);
    assert_eq!(state.config(), RetryConfig::new(10, 10));
}

#[test]
fn the_budget_of_retries_runs_out() {
    let mut state = RetryState::new(RetryConfig::new(2, 1));
    assert_eq!(state.on_failure(ErrorKind::NetworkTimeout), RetryDecision::Again);
    assert_eq!(state.on_failure(ErrorKind::NetworkConnect), RetryDecision::Again);
    assert_eq!(state.on_failure(ErrorKind::NetworkConnect), RetryDecision::Exhausted);
    assert_eq!(state.retries_made(), 2);
    assert_eq!(state.on_failure(ErrorKind::NetworkStatus(404)), RetryDecision::Surface);
    let mut none = RetryState::new(RetryConfig::new(0, 1));
    assert_eq!(none.on_failure(ErrorKind::NetworkTimeout), RetryDecision::Exhausted);
}

#[test]
fn the_wait_lies_between_one_second_and_the_delay() {
    assert_eq!(RetryConfig::default().retry_bounds(), (1, 10));
    assert_eq!(RetryConfig::new(3, 0).retry_bounds(), (1, 2));
    assert_eq!(RetryConfig::new(3, 1).retry_bounds(), (1, 2));
    assert_eq!(RetryConfig::new(3, 2).retry_bounds(), (1, 2));
    assert_eq!(RetryConfig::new(3, 60).retry_bounds(), (1, 60));
    assert_eq!(RetryConfig::new(1, 1).max_no_retries(), 1);
    assert_eq!(RetryConfig::new(1, 7).retry_delay_secs(), 7);
}

#[test]
fn only_a_status_from_200_to_299_is_no_error() {
    for code in [200u16, 204, 206, 299] {
        assert_eq!(status_failure(code), None);
    }
    for code in [0u16, 100, 199, 300, 301, 304, 404, 500, 503, 599, 600, u16::MAX] {
        let f = status_failure(code).unwrap();
        assert_eq!(f, TransportFailure { status: Some(code), ..failure() });
        assert_eq!(classify(&f), ErrorKind::NetworkStatus(code));
        assert!(matches!(map_err(&f), DomainError::NetworkStatusError(c, _) if c == code));
    }
}
