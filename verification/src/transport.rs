//! Transport-side logic: how TLS-verifier extension verdicts gate
//! client construction, and how HTTP responses are classified.
//!
//! At client construction time every provider of the `tls-verifier`
//! capability is called; its JSON reply carries an optional message, a
//! base64-encoded PEM certificate and a verification verdict.  The
//! extension's own configuration selects a security mode: under
//! `enforce` (the default) a failed verdict aborts construction, under
//! `permissive` it does not; in both modes the supplied certificate
//! joins the client's trusted roots.  Any other mode is a
//! configuration error, whatever the verdict says.

use vstd::prelude::*;
use crate::strutil::str_eq;

verus! {

/// How a TLS-verifier extension's verdict is treated: whether a
/// failed verification stops client construction.
#[derive(Clone, Copy, PartialEq, Eq, Structural)]
pub enum SecurityMode {
    /// A failed verdict aborts client construction; the default.
    Enforce,
    /// A failed verdict is tolerated; the certificate is still trusted.
    Permissive,
}

/// A TLS-verifier extension's reply, already decoded from JSON.
#[derive(Debug)]
pub struct TlsVerifierResponse {
    /// Optional explanation, reported when verification failed.
    pub message: Option<String>,
    /// Base64-encoded PEM certificate to add to the trusted roots.
    pub certificate: String,
    /// The extension's verdict on the server's certificate.
    pub verification_result: bool,
}

/// Why client construction was refused.
#[derive(Debug)]
pub enum TransportError {
    /// The extension's `security-mode` is neither `enforce` nor
    /// `permissive`.
    InvalidSecurityMode,
    /// An enforce-mode extension reported failed verification; carries
    /// the extension's message, or a default.
    VerificationFailed(String),
    /// The certificate the extension supplied is not valid base64.
    InvalidCertificate,
}

/// The security mode a configuration text selects: absent means
/// `enforce`, anything but the two known names is rejected.
pub open spec fn security_mode_spec(raw: Option<Seq<char>>) -> Option<SecurityMode> {
    match raw {
        Option::None => Option::Some(SecurityMode::Enforce),
        Option::Some(s) => if s == "enforce"@ {
            Option::Some(SecurityMode::Enforce)
        } else if s == "permissive"@ {
            Option::Some(SecurityMode::Permissive)
        } else {
            Option::None
        },
    }
}

/// View of an optional string slice.
pub open spec fn opt_str_view(s: Option<&str>) -> Option<Seq<char>> {
    match s {
        Option::None => Option::None,
        Option::Some(t) => Option::Some(t@),
    }
}

/// The message a failed verification reports: the extension's own
/// message when it sent one, a default otherwise.
pub open spec fn failure_message_spec(message: Option<Seq<char>>) -> Seq<char> {
    match message {
        Option::Some(m) => m,
        Option::None => "TLS verification failed"@,
    }
}

/// View of the optional message field.
pub open spec fn opt_string_view(s: Option<String>) -> Option<Seq<char>> {
    match s {
        Option::None => Option::None,
        Option::Some(t) => Option::Some(t@),
    }
}

/// Parses the `security-mode` value of an extension's configuration.
/// An absent value selects `enforce`; an unrecognized one is a
/// configuration error.
pub fn parse_security_mode(raw: Option<&str>) -> (r: Result<SecurityMode, TransportError>)
    ensures
        match security_mode_spec(opt_str_view(raw)) {
            Option::Some(mode) => r matches Ok(m) && m == mode,
            Option::None => r matches Err(e) && e is InvalidSecurityMode,
        },
{
    match raw {
        Option::None => Ok(SecurityMode::Enforce),
        Option::Some(s) => {
            if str_eq(s, "enforce") {
                Ok(SecurityMode::Enforce)
            } else if str_eq(s, "permissive") {
                Ok(SecurityMode::Permissive)
            } else {
                Err(TransportError::InvalidSecurityMode)
            }
        },
    }
}

/// What base64's standard-alphabet engine decodes a text to: the
/// decoded bytes, or nothing when the text is not valid base64.
pub uninterp spec fn base64_decode_of(s: Seq<char>) -> Option<Seq<u8>>;

/// Relies on base64's `STANDARD` engine: decoding is a function of
/// the input text alone, yielding bytes exactly when the text is
/// valid standard base64.
#[verifier::external_body]
fn decode_base64(s: &str) -> (r: Option<Vec<u8>>)
    ensures
        match r {
            Option::Some(v) => base64_decode_of(s@) == Option::Some(v@),
            Option::None => base64_decode_of(s@) is None,
        },
{
    match base64::Engine::decode(&base64::engine::general_purpose::STANDARD, s) {
        Ok(v) => Some(v),
        Err(_) => None,
    }
}

/// Folds one TLS-verifier reply into a client-construction decision
/// under the given security mode: a failed verdict is fatal only
/// under `enforce`, and an accepted reply hands back the PEM bytes to
/// add to the trusted roots.
pub fn evaluate_tls_verdict(response: &TlsVerifierResponse, mode: SecurityMode) -> (r: Result<Vec<u8>, TransportError>)
    ensures
        (mode == SecurityMode::Enforce && !response.verification_result) ==> (
            r matches Err(e) && (e matches TransportError::VerificationFailed(m)
                && m@ == failure_message_spec(opt_string_view(response.message)))
        ),
        (mode == SecurityMode::Permissive || response.verification_result) ==> (
            match base64_decode_of(response.certificate@) {
                Option::Some(b) => r matches Ok(v) && v@ == b,
                Option::None => r matches Err(e) && e is InvalidCertificate,
            }
        ),
{
    if mode == SecurityMode::Enforce && !response.verification_result {
        let message = match &response.message {
            Option::Some(m) => m.clone(),
            Option::None => "TLS verification failed".to_owned(),
        };
        return Err(TransportError::VerificationFailed(message));
    }
    match decode_base64(response.certificate.as_str()) {
        Option::Some(pem) => Ok(pem),
        Option::None => Err(TransportError::InvalidCertificate),
    }
}

/// Processes one TLS-verifier reply together with the extension's
/// raw `security-mode` setting: an unrecognized mode is rejected
/// before the verdict is even looked at; otherwise the verdict is
/// evaluated under the parsed mode.
pub fn process_tls_verdict(response: &TlsVerifierResponse, security_mode_raw: Option<&str>) -> (r: Result<Vec<u8>, TransportError>)
    ensures
        security_mode_spec(opt_str_view(security_mode_raw)) is None ==> (
            r matches Err(e) && e is InvalidSecurityMode
        ),
        (security_mode_spec(opt_str_view(security_mode_raw)) == Option::Some(SecurityMode::Enforce)
            && !response.verification_result) ==> (
            r matches Err(e) && (e matches TransportError::VerificationFailed(m)
                && m@ == failure_message_spec(opt_string_view(response.message)))
        ),
        (security_mode_spec(opt_str_view(security_mode_raw)) == Option::Some(SecurityMode::Permissive)
            || (security_mode_spec(opt_str_view(security_mode_raw)) == Option::Some(SecurityMode::Enforce)
                && response.verification_result)) ==> (
            match base64_decode_of(response.certificate@) {
                Option::Some(b) => r matches Ok(v) && v@ == b,
                Option::None => r matches Err(e) && e is InvalidCertificate,
            }
        ),
{
    let mode = match parse_security_mode(security_mode_raw) {
        Ok(m) => m,
        Err(e) => {
            return Err(e);
        },
    };
    evaluate_tls_verdict(response, mode)
}

/// An HTTP response that does not count as success: its status code
/// and the body that came with it.
#[derive(Debug)]
pub struct HttpFailure {
    /// The response's status code.
    pub status: u16,
    /// The response's body text.
    pub body: String,
}

/// Reports whether an HTTP status code counts as a success.
pub fn status_is_success(status: u16) -> (r: bool)
    ensures
        r == (200 <= status < 300),
{
    200 <= status && status < 300
}

/// Classifies an HTTP response: a status in the success range yields
/// the body, any other status is a failure carrying both.
pub fn response_outcome(status: u16, content: String) -> (r: Result<String, HttpFailure>)
    ensures
        (200 <= status < 300) ==> (r matches Ok(c) && c@ == content@),
        !(200 <= status < 300) ==> (r matches Err(f) && (f.status == status && f.body@ == content@)),
{
    if 200 <= status && status < 300 {
        Ok(content)
    } else {
        Err(HttpFailure { status, body: content })
    }
}

/// Strips the leading slashes off an endpoint before it is joined
/// onto the base path.
pub fn normalize_endpoint(endpoint: &str) -> (r: String)
    ensures
        r@ == crate::strutil::trim_leading_char(endpoint@, '/'),
{
    let n = endpoint.unicode_len();
    let mut i: usize = 0;
    while i < n && endpoint.get_char(i) == '/'
        invariant
            n == endpoint@.len(),
            i <= n,
            forall|k: int| 0 <= k < i ==> endpoint@[k] == '/',
        decreases n - i,
    {
        i = i + 1;
    }
    proof {
        crate::strutil::lemma_trim_leading_char(endpoint@, '/', i as int);
    }
    let rest = endpoint.substring_char(i, n);
    rest.to_owned()
}

} // verus!
