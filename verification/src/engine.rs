//! Trusted boundary to the cryptographic ceremony engine of `webauthn_rs`.
//!
//! The engine is stateless: it turns a user identity into a registration
//! challenge plus a server-side context, turns a credential set into an
//! authentication challenge plus a context, and checks a client's signed
//! response against such a context.  Challenges contain fresh randomness and
//! the checked responses carry signatures, so nothing useful can be stated
//! about the values themselves; every caller in this crate therefore states
//! what holds of its own state whatever the engine returns.

use vstd::prelude::*;

use webauthn_rs::prelude::{
    AuthenticationResult, CreationChallengeResponse, Passkey, PasskeyAuthentication,
    PasskeyRegistration, PublicKeyCredential, RegisterPublicKeyCredential,
    RequestChallengeResponse, Uuid, WebauthnError,
};
use webauthn_rs::Webauthn;

verus! {

#[verifier::external_type_specification]
#[verifier::external_body]
pub struct ExWebauthn(Webauthn);

#[verifier::external_type_specification]
#[verifier::external_body]
pub struct ExWebauthnError(WebauthnError);

#[verifier::external_type_specification]
#[verifier::external_body]
pub struct ExPasskey(Passkey);

#[verifier::external_type_specification]
#[verifier::external_body]
pub struct ExPasskeyRegistration(PasskeyRegistration);

#[verifier::external_type_specification]
#[verifier::external_body]
pub struct ExPasskeyAuthentication(PasskeyAuthentication);

#[verifier::external_type_specification]
#[verifier::external_body]
pub struct ExCreationChallengeResponse(CreationChallengeResponse);

#[verifier::external_type_specification]
#[verifier::external_body]
pub struct ExRequestChallengeResponse(RequestChallengeResponse);

#[verifier::external_type_specification]
#[verifier::external_body]
pub struct ExRegisterPublicKeyCredential(RegisterPublicKeyCredential);

#[verifier::external_type_specification]
#[verifier::external_body]
pub struct ExPublicKeyCredential(PublicKeyCredential);

#[verifier::external_type_specification]
#[verifier::external_body]
pub struct ExAuthenticationResult(AuthenticationResult);

/// Relies on `Uuid::new_v4`: draws a fresh random 128-bit user identity.
/// The result is random, so nothing is promised of it.
#[verifier::external_body]
pub(crate) fn fresh_user_id() -> u128 {
    Uuid::new_v4().as_u128()
}

/// Relies on `Webauthn::start_passkey_registration`: builds a registration
/// challenge and its server-side context for the given identity.  The
/// challenge holds fresh randomness, so nothing is promised of the result.
#[verifier::external_body]
pub(crate) fn begin_registration(
    webauthn: &Webauthn,
    user_id: u128,
    username: &String,
) -> Result<(CreationChallengeResponse, PasskeyRegistration), WebauthnError> {
    webauthn.start_passkey_registration(
        Uuid::from_u128(user_id),
        username.as_str(),
        username.as_str(),
        None,
    )
}

/// Relies on `Webauthn::start_passkey_authentication`: builds an
/// authentication challenge and its server-side context for the given
/// credential set.  The challenge holds fresh randomness, so nothing is
/// promised of the result.
#[verifier::external_body]
pub(crate) fn begin_authentication(
    webauthn: &Webauthn,
    passkeys: &Vec<Passkey>,
) -> Result<(RequestChallengeResponse, PasskeyAuthentication), WebauthnError> {
    webauthn.start_passkey_authentication(passkeys.as_slice())
}

/// Relies on `Webauthn::finish_passkey_registration`: checks the client's
/// signed registration response against the pending context and, when it
/// verifies, yields the newly registered credential.  Whether it verifies
/// depends on the signature, so nothing is promised of the outcome.
#[verifier::external_body]
pub(crate) fn finish_registration(
    webauthn: &Webauthn,
    response: &RegisterPublicKeyCredential,
    context: &PasskeyRegistration,
) -> Result<Passkey, WebauthnError> {
    webauthn.finish_passkey_registration(response, context)
}

/// Relies on `Webauthn::finish_passkey_authentication`: checks the client's
/// signed authentication response against the pending context and, when it
/// verifies, yields the bookkeeping update for the used credential.
#[verifier::external_body]
pub(crate) fn finish_authentication(
    webauthn: &Webauthn,
    response: &PublicKeyCredential,
    context: &PasskeyAuthentication,
) -> Result<AuthenticationResult, WebauthnError> {
    webauthn.finish_passkey_authentication(response, context)
}

/// Relies on `Passkey::update_credential`: applies the counter and backup
/// bookkeeping of an authentication result to a stored credential, in place,
/// when the credential identifiers match.
#[verifier::external_body]
pub(crate) fn update_credential(
    passkey: &mut Passkey,
    update: &AuthenticationResult,
) -> Option<bool> {
    passkey.update_credential(update)
}

/// Relies on the variants of `WebauthnError`: tells the configuration fault
/// apart from every per-request ceremony failure.
#[verifier::external_body]
pub(crate) fn is_configuration_error(error: &WebauthnError) -> bool {
    matches!(error, WebauthnError::Configuration)
}

} // verus!
