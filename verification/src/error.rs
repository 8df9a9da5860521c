//! The ways in which authenticating and choosing a mechanism can fail.

use vstd::prelude::*;

verus! {

/// A failure of the SMTP client logic.
#[derive(Debug, PartialEq, Eq)]
pub enum SmtpError {
    /// The credential cannot be encoded for the chosen mechanism.
    UnsupportedAuth,
    /// A `LOGIN` encoding did not hold the separator between its two parts.
    InvalidEncodeFormat,
    /// The server rejected the credentials (reply code 535).
    FailedCredentials,
    /// The server does not offer `STARTTLS`.
    StartTlsNotSupported,
    /// The server did not answer `STARTTLS` with reply code 220.
    TlsNotReady,
    /// The server offers no authentication mechanism.
    NoAuthMechanism,
    /// The chosen number, as typed, is not a number.
    InvalidChoice(String),
    /// The chosen number is past the last mechanism, whose number this holds.
    ChoiceOutOfRange(usize),
    /// No credential can be asked for this mechanism, whose name this holds.
    UnknownMechanism(String),
}

} // verus!
