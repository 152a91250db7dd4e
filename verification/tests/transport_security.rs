use ga4gh_sdk::transport::HttpFailure;
use ga4gh_sdk::transport::SecurityMode;
use ga4gh_sdk::transport::TlsVerifierResponse;
use ga4gh_sdk::transport::TransportError;
use ga4gh_sdk::transport::evaluate_tls_verdict;
use ga4gh_sdk::transport::normalize_endpoint;
use ga4gh_sdk::transport::parse_security_mode;
use ga4gh_sdk::transport::process_tls_verdict;
use ga4gh_sdk::transport::response_outcome;
use ga4gh_sdk::transport::status_is_success;

fn failing_response(message: Option<&str>) -> TlsVerifierResponse {
    TlsVerifierResponse {
        message: message.map(|m| m.to_string()),
        // "hello" in base64
        certificate: "aGVsbG8=".to_string(),
        verification_result: false,
    }
}

fn passing_response() -> TlsVerifierResponse {
    TlsVerifierResponse {
        message: None,
        certificate: "aGVsbG8=".to_string(),
        verification_result: true,
    }
}

#[test]
fn enforce_mode_failure_blocks_construction() {
    let response = failing_response(Some("untrusted quote"));
    let result = process_tls_verdict(&response, Some("enforce"));
    match result {
        Err(TransportError::VerificationFailed(message)) => {
            assert_eq!(message, "untrusted quote");
        },
        _ => panic!("enforce mode must refuse a failed verdict"),
    }
}

#[test]
fn enforce_mode_failure_uses_default_message() {
    let response = failing_response(None);
    let result = process_tls_verdict(&response, Some("enforce"));
    match result {
        Err(TransportError::VerificationFailed(message)) => {
            assert_eq!(message, "TLS verification failed");
        },
        _ => panic!("enforce mode must refuse a failed verdict"),
    }
}

#[test]
fn permissive_mode_failure_still_trusts_the_certificate() {
    let response = failing_response(Some("ignored"));
    let result = process_tls_verdict(&response, Some("permissive"));
    assert_eq!(result.unwrap(), b"hello".to_vec());
}

#[test]
fn unrecognized_security_mode_is_a_configuration_error() {
    let failed = process_tls_verdict(&failing_response(None), Some("lenient"));
    assert!(matches!(failed, Err(TransportError::InvalidSecurityMode)));
    let passed = process_tls_verdict(&passing_response(), Some("lenient"));
    assert!(matches!(passed, Err(TransportError::InvalidSecurityMode)));
}

#[test]
fn missing_security_mode_defaults_to_enforce() {
    assert!(matches!(parse_security_mode(None), Ok(SecurityMode::Enforce)));
    let result = process_tls_verdict(&failing_response(None), None);
    assert!(matches!(result, Err(TransportError::VerificationFailed(_))));
}

#[test]
fn accepted_verdict_decodes_the_certificate() {
    let result = process_tls_verdict(&passing_response(), Some("enforce"));
    assert_eq!(result.unwrap(), b"hello".to_vec());
}

#[test]
fn invalid_base64_certificate_is_rejected() {
    let response = TlsVerifierResponse {
        message: None,
        certificate: "not base64 !!".to_string(),
        verification_result: true,
    };
    let result = evaluate_tls_verdict(&response, SecurityMode::Enforce);
    assert!(matches!(result, Err(TransportError::InvalidCertificate)));
}

#[test]
fn response_outcome_splits_on_the_success_range() {
    assert_eq!(response_outcome(200, "body".to_string()).unwrap(), "body");
    assert_eq!(response_outcome(299, "ok".to_string()).unwrap(), "ok");
    let failure: HttpFailure = response_outcome(404, "missing".to_string()).unwrap_err();
    assert_eq!(failure.status, 404);
    assert_eq!(failure.body, "missing");
    assert!(response_outcome(301, String::new()).is_err());
    assert!(response_outcome(199, String::new()).is_err());
    assert!(status_is_success(204));
    assert!(!status_is_success(500));
}

#[test]
fn normalize_endpoint_strips_leading_slashes() {
    assert_eq!(normalize_endpoint("/tasks"), "tasks");
    assert_eq!(normalize_endpoint("///tasks/sub"), "tasks/sub");
    assert_eq!(normalize_endpoint("tasks"), "tasks");
    assert_eq!(normalize_endpoint(""), "");
    assert_eq!(normalize_endpoint("///"), "");
}
