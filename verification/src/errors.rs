//! The closed error taxonomy of the ceremony core, with the pure mapping
//! from each error to the transport status code that reports it.

use vstd::prelude::*;

use crate::engine;
use webauthn_rs::prelude::WebauthnError;

verus! {

/// Everything that can go wrong while orchestrating a ceremony.
///
/// - `UserFoundButNoPasskeys` is a data-integrity fault: the directory
///   exposed an identity that owns no usable credential.
/// - `AuthNotStarted` and `AuthStateInvalid` are sequencing faults: a
///   completion call arrived with no pending ceremony, or with a pending
///   ceremony of the other kind.
/// - `InvalidUsername` rejects a malformed username before any lookup.
/// - `CeremonyFailed` carries a per-request engine rejection (signature,
///   challenge or origin mismatch); `Configuration` carries the engine's
///   misconfiguration fault.
pub enum Error {
    UserFoundButNoPasskeys,
    AuthNotStarted,
    AuthStateInvalid,
    InvalidUsername,
    CeremonyFailed(WebauthnError),
    Configuration(WebauthnError),
}

/// The transport status code reporting each error: client errors are 400,
/// server-side faults (data integrity, engine misconfiguration) are 500.
pub open spec fn status_code_spec(error: Error) -> u16 {
    match error {
        Error::UserFoundButNoPasskeys => 500,
        Error::AuthNotStarted => 400,
        Error::AuthStateInvalid => 400,
        Error::InvalidUsername => 400,
        Error::CeremonyFailed(_) => 400,
        Error::Configuration(_) => 500,
    }
}

impl Error {
    /// The status code that reports this error, exactly `status_code_spec`.
    pub fn status_code(&self) -> (code: u16)
        ensures
            code == status_code_spec(*self),
    {
        match self {
            Error::UserFoundButNoPasskeys => 500,
            Error::AuthNotStarted => 400,
            Error::AuthStateInvalid => 400,
            Error::InvalidUsername => 400,
            Error::CeremonyFailed(_) => 400,
            Error::Configuration(_) => 500,
        }
    }

    /// Classifies an engine error: the configuration fault becomes
    /// `Configuration`, every per-request rejection becomes `CeremonyFailed`;
    /// either way the engine's error is carried along unchanged.
    pub fn from_webauthn(error: WebauthnError) -> (e: Error)
        ensures
            e == Error::Configuration(error) || e == Error::CeremonyFailed(error),
    {
        if engine::is_configuration_error(&error) {
            Error::Configuration(error)
        } else {
            Error::CeremonyFailed(error)
        }
    }
}

} // verus!
