//! The ceremony orchestrator: a per-session state machine that starts
//! registration or authentication ceremonies and consumes their single-use
//! pending state.
//!
//! A session is `Idle` (no pending ceremony), `RegistrationPending` or
//! `AuthenticationPending`; `start` decides the kind from the directory and
//! issues a challenge, `register` and `login` consume the pending state
//! exactly once, successfully or not, and `username` reports the identity
//! bound by the last completed ceremony.

use vstd::prelude::*;

use crate::directory::{creds_after_put, Directory};
use crate::engine;
use crate::errors::Error;
use webauthn_rs::prelude::{
    CreationChallengeResponse, Passkey, PasskeyAuthentication, PasskeyRegistration,
    PublicKeyCredential, RegisterPublicKeyCredential, RequestChallengeResponse,
};
use webauthn_rs::Webauthn;

verus! {

/// The challenge handed back by `start`: either a registration challenge for
/// a new identity or an authentication challenge for an existing one.
pub enum ChallengeResponse {
    Registration(CreationChallengeResponse),
    Authentication(RequestChallengeResponse),
}

/// The pending ceremony of a session: the user identity and username the
/// ceremony is for, and the engine context the completion is checked
/// against.  At most one exists per session; it is created by `start` and
/// consumed, read-once, by `register` or `login`.
pub enum AuthState {
    Registration(u128, String, PasskeyRegistration),
    Authentication(u128, String, PasskeyAuthentication),
}

/// The request body of `start`.
pub struct UsernameRequestPayload {
    pub username: String,
}

/// Everything bound to one client session: the username authenticated by the
/// last completed ceremony, if any, and the pending ceremony, if one is in
/// flight.
pub struct SessionRecord {
    pub username: Option<String>,
    pub auth_state: Option<AuthState>,
}

impl SessionRecord {
    /// A fresh session: nobody authenticated, no ceremony pending.
    pub fn new() -> (s: SessionRecord)
        ensures
            s.username is None,
            s.auth_state is None,
    {
        SessionRecord { username: None, auth_state: None }
    }
}

/// A word character: a letter, a digit or an underscore.
pub open spec fn is_word_char(c: char) -> bool {
    ||| 'a' <= c <= 'z'
    ||| 'A' <= c <= 'Z'
    ||| '0' <= c <= '9'
    ||| c == '_'
}

/// A valid username: 1 to 64 characters, each a word character or a hyphen.
pub open spec fn valid_username(name: Seq<char>) -> bool {
    &&& 1 <= name.len() <= 64
    &&& forall|i: int| 0 <= i < name.len() ==> is_word_char(#[trigger] name[i]) || name[i] == '-'
}

fn is_word_char_exec(c: char) -> (b: bool)
    ensures
        b == is_word_char(c),
{
    ('a' <= c && c <= 'z') || ('A' <= c && c <= 'Z') || ('0' <= c && c <= '9') || c == '_'
}

/// Checks a username against the validation rule, exactly `valid_username`.
pub fn validate_username(name: &str) -> (b: bool)
    ensures
        b == valid_username(name@),
{
    let len = name.unicode_len();
    if len < 1 || len > 64 {
        return false;
    }
    let mut i: usize = 0;
    while i < len
        invariant
            len == name@.len(),
            i <= len,
            forall|k: int| 0 <= k < i ==> is_word_char(#[trigger] name@[k]) || name@[k] == '-',
        decreases len - i,
    {
        let c = name.get_char(i);
        if !(is_word_char_exec(c) || c == '-') {
            return false;
        }
        i += 1;
    }
    true
}

/// What `start` decides for a username against a directory, before any
/// engine call: reject the name, register a new identity, authenticate an
/// existing one, or report the data-integrity fault of an identity without
/// usable credentials.
pub enum StartDecision {
    Invalid,
    Register,
    Authenticate,
    NoPasskeys,
}

/// An identity the directory can authenticate: it owns at least one
/// credential.
pub open spec fn has_usable_credentials(directory: Directory, user_id: u128) -> bool {
    directory.creds_map().contains_key(user_id) && directory.creds_map()[user_id].len() > 0
}

/// The decision `start` takes for a username against a directory.
pub open spec fn start_decision(directory: Directory, name: Seq<char>) -> StartDecision {
    if !valid_username(name) {
        StartDecision::Invalid
    } else if !directory.names_map().contains_key(name) {
        StartDecision::Register
    } else if has_usable_credentials(directory, directory.names_map()[name]) {
        StartDecision::Authenticate
    } else {
        StartDecision::NoPasskeys
    }
}

/// The username bound to this session by the last completed ceremony, if
/// any.  A pure read: no state changes.
pub fn username(session: &SessionRecord) -> (r: Option<String>)
    ensures
        r == session.username,
{
    match &session.username {
        Some(name) => Some(name.clone()),
        None => None,
    }
}

/// Starts a ceremony for the given username.
///
/// A malformed username is rejected with no state change.  A username the
/// directory does not know gets a fresh identity and a registration
/// challenge; one that resolves to an identity with credentials gets an
/// authentication challenge; an identity without usable credentials is the
/// directory's fault and is reported with no state change.  On a challenge
/// the session's pending state is replaced — a ceremony already in flight is
/// discarded; on any error it is left as it was.  Only the engine's own
/// failure can keep the decided challenge from being issued.
pub fn start(
    session: &mut SessionRecord,
    directory: &Directory,
    webauthn: &Webauthn,
    payload: UsernameRequestPayload,
) -> (r: Result<ChallengeResponse, Error>)
    requires
        directory.wf(),
    ensures
        final(session).username == old(session).username,
        ({
            let name = payload.username@;
            let decision = start_decision(*directory, name);
            &&& (decision is Invalid ==> r == Err::<ChallengeResponse, Error>(
                Error::InvalidUsername,
            ) && final(session).auth_state == old(session).auth_state)
            &&& (decision is NoPasskeys ==> r == Err::<ChallengeResponse, Error>(
                Error::UserFoundButNoPasskeys,
            ) && final(session).auth_state == old(session).auth_state)
            &&& (decision is Register ==> match r {
                Ok(challenge) => challenge is Registration
                    && (final(session).auth_state matches Some(
                    AuthState::Registration(_, pending_name, _),
                ) && pending_name@ == name),
                Err(e) => (e is CeremonyFailed || e is Configuration) && final(session).auth_state
                    == old(session).auth_state,
            })
            &&& (decision is Authenticate ==> match r {
                Ok(challenge) => challenge is Authentication
                    && (final(session).auth_state matches Some(
                    AuthState::Authentication(pending_id, pending_name, _),
                ) && pending_name@ == name && pending_id == directory.names_map()[name]),
                Err(e) => (e is CeremonyFailed || e is Configuration) && final(session).auth_state
                    == old(session).auth_state,
            })
        }),
{
    let name = payload.username;
    if !validate_username(name.as_str()) {
        return Err(Error::InvalidUsername);
    }
    match directory.lookup_user_id(&name) {
        Some(user_id) => {
            match directory.credentials_for(user_id) {
                Some(passkeys) => {
                    if passkeys.len() == 0 {
                        return Err(Error::UserFoundButNoPasskeys);
                    }
                    match engine::begin_authentication(webauthn, passkeys) {
                        Ok((challenge, context)) => {
                            session.auth_state = Some(
                                AuthState::Authentication(user_id, name, context),
                            );
                            Ok(ChallengeResponse::Authentication(challenge))
                        },
                        Err(error) => Err(Error::from_webauthn(error)),
                    }
                },
                None => Err(Error::UserFoundButNoPasskeys),
            }
        },
        None => {
            let user_id = engine::fresh_user_id();
            match engine::begin_registration(webauthn, user_id, &name) {
                Ok((challenge, context)) => {
                    session.auth_state = Some(AuthState::Registration(user_id, name, context));
                    Ok(ChallengeResponse::Registration(challenge))
                },
                Err(error) => Err(Error::from_webauthn(error)),
            }
        },
    }
}

/// Completes a registration ceremony.
///
/// The pending state is consumed exactly once: whatever the outcome, the
/// session ends with no pending ceremony.  Without a pending ceremony the
/// call fails with `AuthNotStarted`; with a pending authentication it fails
/// with `AuthStateInvalid`.  When the engine accepts the response, the new
/// credential is stored under the pending identity, the username is bound to
/// that identity in the directory, and the session's authenticated username
/// becomes the pending one; when the engine rejects it, its error is
/// forwarded and neither the directory nor the bound username changes.
pub fn register(
    session: &mut SessionRecord,
    directory: &mut Directory,
    webauthn: &Webauthn,
    response: &RegisterPublicKeyCredential,
) -> (r: Result<(), Error>)
    requires
        old(directory).wf(),
    ensures
        final(directory).wf(),
        final(session).auth_state is None,
        match old(session).auth_state {
            None => {
                &&& r == Err::<(), Error>(Error::AuthNotStarted)
                &&& final(session).username == old(session).username
                &&& final(directory).names_map() == old(directory).names_map()
                &&& final(directory).creds_map() == old(directory).creds_map()
            },
            Some(AuthState::Authentication(_, _, _)) => {
                &&& r == Err::<(), Error>(Error::AuthStateInvalid)
                &&& final(session).username == old(session).username
                &&& final(directory).names_map() == old(directory).names_map()
                &&& final(directory).creds_map() == old(directory).creds_map()
            },
            Some(AuthState::Registration(user_id, pending_name, _)) => match r {
                Ok(_) => {
                    &&& final(directory).names_map() == old(directory).names_map().insert(
                        pending_name@,
                        user_id,
                    )
                    &&& exists|pk: Passkey|
                        final(directory).creds_map() == creds_after_put(
                            old(directory).creds_map(),
                            user_id,
                            pk,
                        )
                    &&& has_usable_credentials(*final(directory), user_id)
                    &&& final(session).username == Some(pending_name)
                },
                Err(e) => {
                    &&& (e is CeremonyFailed || e is Configuration)
                    &&& final(session).username == old(session).username
                    &&& final(directory).names_map() == old(directory).names_map()
                    &&& final(directory).creds_map() == old(directory).creds_map()
                },
            },
        },
{
    let pending = session.auth_state.take();
    match pending {
        None => Err(Error::AuthNotStarted),
        Some(AuthState::Authentication(_, _, _)) => Err(Error::AuthStateInvalid),
        Some(AuthState::Registration(user_id, pending_name, context)) => {
            match engine::finish_registration(webauthn, response, &context) {
                Ok(passkey) => {
                    directory.bind_username(pending_name.clone(), user_id);
                    directory.put_credential(user_id, passkey);
                    session.username = Some(pending_name);
                    Ok(())
                },
                Err(error) => Err(Error::from_webauthn(error)),
            }
        },
    }
}

/// Completes an authentication ceremony.
///
/// The pending state is consumed exactly once: whatever the outcome, the
/// session ends with no pending ceremony.  Without a pending ceremony the
/// call fails with `AuthNotStarted`; with a pending registration it fails
/// with `AuthStateInvalid`.  When the engine accepts the response, its
/// bookkeeping update is applied to the pending identity's stored
/// credentials — their number unchanged — and the session's authenticated
/// username becomes the pending one; when the engine rejects it, its error
/// is forwarded and nothing else changes.  An identity whose credentials
/// vanished between the two round trips is reported as `AuthStateInvalid`.
pub fn login(
    session: &mut SessionRecord,
    directory: &mut Directory,
    webauthn: &Webauthn,
    response: &PublicKeyCredential,
) -> (r: Result<(), Error>)
    requires
        old(directory).wf(),
    ensures
        final(directory).wf(),
        final(session).auth_state is None,
        match old(session).auth_state {
            None => {
                &&& r == Err::<(), Error>(Error::AuthNotStarted)
                &&& final(session).username == old(session).username
                &&& final(directory).names_map() == old(directory).names_map()
                &&& final(directory).creds_map() == old(directory).creds_map()
            },
            Some(AuthState::Registration(_, _, _)) => {
                &&& r == Err::<(), Error>(Error::AuthStateInvalid)
                &&& final(session).username == old(session).username
                &&& final(directory).names_map() == old(directory).names_map()
                &&& final(directory).creds_map() == old(directory).creds_map()
            },
            Some(AuthState::Authentication(user_id, pending_name, _)) => match r {
                Ok(_) => {
                    &&& old(directory).creds_map().contains_key(user_id)
                    &&& final(directory).names_map() == old(directory).names_map()
                    &&& final(directory).creds_map() == old(directory).creds_map().insert(
                        user_id,
                        final(directory).creds_map()[user_id],
                    )
                    &&& final(directory).creds_map().contains_key(user_id)
                    &&& final(directory).creds_map()[user_id].len()
                        == old(directory).creds_map()[user_id].len()
                    &&& final(session).username == Some(pending_name)
                },
                Err(e) => {
                    &&& (e is CeremonyFailed || e is Configuration || e
                        == Error::AuthStateInvalid)
                    &&& (e == Error::AuthStateInvalid ==> !old(directory).creds_map().contains_key(
                        user_id,
                    ))
                    &&& final(session).username == old(session).username
                    &&& final(directory).names_map() == old(directory).names_map()
                    &&& final(directory).creds_map() == old(directory).creds_map()
                },
            },
        },
{
    let pending = session.auth_state.take();
    match pending {
        None => Err(Error::AuthNotStarted),
        Some(AuthState::Registration(_, _, _)) => Err(Error::AuthStateInvalid),
        Some(AuthState::Authentication(user_id, pending_name, context)) => {
            match engine::finish_authentication(webauthn, response, &context) {
                Err(error) => Err(Error::from_webauthn(error)),
                Ok(update) => {
                    match directory.take_credentials(user_id) {
                        None => Err(Error::AuthStateInvalid),
                        Some(mut passkeys) => {
                            let ghost count = passkeys@.len();
                            let n = passkeys.len();
                            let mut i: usize = 0;
                            while i < n
                                invariant
                                    n == passkeys@.len(),
                                    i <= n,
                                decreases n - i,
                            {
                                let _ = engine::update_credential(&mut passkeys[i], &update);
                                i += 1;
                            }
                            directory.set_credentials(user_id, passkeys);
                            session.username = Some(pending_name);
                            Ok(())
                        },
                    }
                },
            }
        },
    }
}

/// A username the directory has never seen can only lead to a registration
/// ceremony, never an authentication.
pub proof fn lemma_unseen_username_registers(directory: Directory, name: Seq<char>)
    requires
        valid_username(name),
        !directory.names_map().contains_key(name),
    ensures
        start_decision(directory, name) == StartDecision::Register,
{
}

/// A username whose identity owns at least one stored credential can only
/// lead to an authentication ceremony.
pub proof fn lemma_known_username_authenticates(directory: Directory, name: Seq<char>)
    requires
        valid_username(name),
        directory.names_map().contains_key(name),
        has_usable_credentials(directory, directory.names_map()[name]),
    ensures
        start_decision(directory, name) == StartDecision::Authenticate,
{
}

/// A username whose identity owns no usable credential can only lead to the
/// data-integrity failure, never a challenge.
pub proof fn lemma_username_without_passkeys_fails(directory: Directory, name: Seq<char>)
    requires
        valid_username(name),
        directory.names_map().contains_key(name),
        !has_usable_credentials(directory, directory.names_map()[name]),
    ensures
        start_decision(directory, name) == StartDecision::NoPasskeys,
{
}

/// Round trip: the directory state a successful registration leaves behind
/// — the username bound to the registered identity and that identity owning
/// the new credential — makes the next `start` for the same username an
/// authentication, never a second registration.
pub proof fn lemma_registration_round_trip(
    before: Directory,
    after: Directory,
    user_id: u128,
    name: Seq<char>,
    passkey: Passkey,
)
    requires
        valid_username(name),
        after.names_map() == before.names_map().insert(name, user_id),
        after.creds_map() == creds_after_put(before.creds_map(), user_id, passkey),
    ensures
        after.names_map().contains_key(name),
        after.names_map()[name] == user_id,
        has_usable_credentials(after, user_id),
        start_decision(after, name) == StartDecision::Authenticate,
{
    assert(after.creds_map().contains_key(user_id));
    if before.creds_map().contains_key(user_id) {
        assert(after.creds_map()[user_id].len() == before.creds_map()[user_id].len() + 1);
    } else {
        assert(after.creds_map()[user_id] == seq![passkey]);
    }
}

/// A completed authentication keeps the identity authenticatable: its
/// credential set keeps its size, so a further `start` for the same
/// username again decides authentication.
pub proof fn lemma_authentication_keeps_identity(
    before: Directory,
    after: Directory,
    user_id: u128,
    name: Seq<char>,
)
    requires
        valid_username(name),
        before.names_map().contains_key(name),
        before.names_map()[name] == user_id,
        has_usable_credentials(before, user_id),
        after.names_map() == before.names_map(),
        after.creds_map() == before.creds_map().insert(user_id, after.creds_map()[user_id]),
        after.creds_map().contains_key(user_id),
        after.creds_map()[user_id].len() == before.creds_map()[user_id].len(),
    ensures
        start_decision(after, name) == StartDecision::Authenticate,
{
}

/// Username validation rejects the empty string, any string over 64
/// characters, and any string holding a character outside the word
/// characters and the hyphen.
pub proof fn lemma_username_validation_rejects(name: Seq<char>)
    ensures
        name.len() == 0 ==> !valid_username(name),
        name.len() > 64 ==> !valid_username(name),
        (exists|i: int|
            0 <= i < name.len() && !is_word_char(name[i]) && name[i] != '-') ==> !valid_username(
            name,
        ),
{
    if exists|i: int| 0 <= i < name.len() && !is_word_char(name[i]) && name[i] != '-' {
        let i = choose|i: int| 0 <= i < name.len() && !is_word_char(name[i]) && name[i] != '-';
        assert(valid_username(name) ==> is_word_char(name[i]) || name[i] == '-');
    }
}

} // verus!
