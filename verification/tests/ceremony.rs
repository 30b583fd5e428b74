use passkey_auth::auth::{
    login, register, start, username, AuthState, ChallengeResponse, SessionRecord,
    UsernameRequestPayload,
};
use passkey_auth::directory::Directory;
use passkey_auth::errors::Error;
use webauthn_rs::prelude::{
    Passkey, PublicKeyCredential, RegisterPublicKeyCredential, Url, WebauthnError,
};
use webauthn_rs::{Webauthn, WebauthnBuilder};

fn test_engine() -> Webauthn {
    let origin = Url::parse("http://localhost:3000").expect("static origin");
    WebauthnBuilder::new("localhost", &origin)
        .expect("static relying party")
        .build()
        .expect("static configuration")
}

fn start_for(
    session: &mut SessionRecord,
    directory: &Directory,
    engine: &Webauthn,
    name: &str,
) -> Result<ChallengeResponse, Error> {
    start(
        session,
        directory,
        engine,
        UsernameRequestPayload { username: name.to_string() },
    )
}

/// A syntactically well-formed registration response whose payload is
/// garbage, so the engine always rejects it.
fn garbage_register_response() -> RegisterPublicKeyCredential {
    serde_json::from_str(
        r#"{
            "id": "q83vEjRWeJA",
            "rawId": "q83vEjRWeJA",
            "response": {
                "attestationObject": "q83vEjRWeJA",
                "clientDataJSON": "q83vEjRWeJA"
            },
            "type": "public-key"
        }"#,
    )
    .expect("static registration response")
}

/// A syntactically well-formed authentication response whose payload is
/// garbage, so the engine always rejects it.
fn garbage_login_response() -> PublicKeyCredential {
    serde_json::from_str(
        r#"{
            "id": "q83vEjRWeJA",
            "rawId": "q83vEjRWeJA",
            "response": {
                "authenticatorData": "q83vEjRWeJA",
                "clientDataJSON": "q83vEjRWeJA",
                "signature": "q83vEjRWeJA",
                "userHandle": null
            },
            "type": "public-key"
        }"#,
    )
    .expect("static authentication response")
}

/// A structurally valid stored credential, good enough for the directory and
/// for issuing authentication challenges.
fn sample_passkey() -> Passkey {
    serde_json::from_str(
        r#"{
            "cred": {
                "cred_id": "q83vEjRWeJA",
                "cred": {
                    "type_": "ES256",
                    "key": {
                        "EC_EC2": {
                            "curve": "SECP256R1",
                            "x": "AAAAAAAAAAAAAAAAAAAAAAAAAAAAAAAAAAAAAAAAAAA",
                            "y": "AAAAAAAAAAAAAAAAAAAAAAAAAAAAAAAAAAAAAAAAAAA"
                        }
                    }
                },
                "counter": 1,
                "transports": null,
                "user_verified": true,
                "backup_eligible": false,
                "backup_state": false,
                "registration_policy": "required",
                "extensions": {},
                "attestation": { "data": "None", "metadata": "None" },
                "attestation_format": "none"
            }
        }"#,
    )
    .expect("static stored credential")
}

#[test]
fn whoami_on_fresh_session_is_none() {
    let session = SessionRecord::new();
    assert!(username(&session).is_none());
}

#[test]
fn start_for_unseen_username_returns_registration() {
    let engine = test_engine();
    let directory = Directory::new();
    let mut session = SessionRecord::new();
    let r = start_for(&mut session, &directory, &engine, "alice");
    assert!(matches!(r, Ok(ChallengeResponse::Registration(_))));
    assert!(matches!(
        session.auth_state,
        Some(AuthState::Registration(_, ref name, _)) if name == "alice"
    ));
    assert!(username(&session).is_none());
}

#[test]
fn start_with_invalid_username_rejects_without_state_change() {
    let engine = test_engine();
    let directory = Directory::new();
    let mut session = SessionRecord::new();
    let r = start_for(&mut session, &directory, &engine, "not a name!");
    match r {
        Err(e) => {
            assert!(matches!(e, Error::InvalidUsername));
            assert_eq!(e.status_code(), 400);
        }
        Ok(_) => panic!("malformed username must be rejected"),
    }
    assert!(session.auth_state.is_none());
}

#[test]
fn start_for_identity_without_passkeys_is_server_error() {
    let engine = test_engine();
    let mut directory = Directory::new();
    directory.bind_username("bob".to_string(), 7);
    let mut session = SessionRecord::new();
    let r = start_for(&mut session, &directory, &engine, "bob");
    match r {
        Err(e) => {
            assert!(matches!(e, Error::UserFoundButNoPasskeys));
            assert_eq!(e.status_code(), 500);
        }
        Ok(_) => panic!("an identity without credentials must not get a challenge"),
    }
    assert!(session.auth_state.is_none());
}

#[test]
fn start_for_identity_with_passkey_returns_authentication() {
    let engine = test_engine();
    let mut directory = Directory::new();
    directory.bind_username("bob".to_string(), 7);
    directory.put_credential(7, sample_passkey());
    let mut session = SessionRecord::new();
    let r = start_for(&mut session, &directory, &engine, "bob");
    assert!(matches!(r, Ok(ChallengeResponse::Authentication(_))));
    assert!(matches!(
        session.auth_state,
        Some(AuthState::Authentication(7, ref name, _)) if name == "bob"
    ));
}

#[test]
fn register_without_start_fails_with_auth_not_started() {
    let engine = test_engine();
    let mut directory = Directory::new();
    let mut session = SessionRecord::new();
    let r = register(&mut session, &mut directory, &engine, &garbage_register_response());
    assert!(matches!(r, Err(Error::AuthNotStarted)));
    assert!(session.auth_state.is_none());
}

#[test]
fn login_without_start_fails_with_auth_not_started() {
    let engine = test_engine();
    let mut directory = Directory::new();
    let mut session = SessionRecord::new();
    let r = login(&mut session, &mut directory, &engine, &garbage_login_response());
    assert!(matches!(r, Err(Error::AuthNotStarted)));
    assert!(session.auth_state.is_none());
}

#[test]
fn login_with_registration_pending_fails_with_auth_state_invalid() {
    let engine = test_engine();
    let mut directory = Directory::new();
    let mut session = SessionRecord::new();
    let r = start_for(&mut session, &directory, &engine, "alice");
    assert!(r.is_ok());
    let r = login(&mut session, &mut directory, &engine, &garbage_login_response());
    assert!(matches!(r, Err(Error::AuthStateInvalid)));
    assert!(session.auth_state.is_none());
    let r = login(&mut session, &mut directory, &engine, &garbage_login_response());
    assert!(matches!(r, Err(Error::AuthNotStarted)));
}

#[test]
fn register_with_authentication_pending_fails_with_auth_state_invalid() {
    let engine = test_engine();
    let mut directory = Directory::new();
    directory.bind_username("bob".to_string(), 7);
    directory.put_credential(7, sample_passkey());
    let mut session = SessionRecord::new();
    let r = start_for(&mut session, &directory, &engine, "bob");
    assert!(r.is_ok());
    let r = register(&mut session, &mut directory, &engine, &garbage_register_response());
    assert!(matches!(r, Err(Error::AuthStateInvalid)));
    assert!(session.auth_state.is_none());
    let r = register(&mut session, &mut directory, &engine, &garbage_register_response());
    assert!(matches!(r, Err(Error::AuthNotStarted)));
}

#[test]
fn failed_register_consumes_pending_state_and_keeps_directory() {
    let engine = test_engine();
    let mut directory = Directory::new();
    let mut session = SessionRecord::new();
    let r = start_for(&mut session, &directory, &engine, "alice");
    assert!(r.is_ok());
    let r = register(&mut session, &mut directory, &engine, &garbage_register_response());
    match r {
        Err(e) => {
            assert!(matches!(e, Error::CeremonyFailed(_)));
            assert_eq!(e.status_code(), 400);
        }
        Ok(_) => panic!("a garbage response must not register"),
    }
    assert!(session.auth_state.is_none());
    assert!(username(&session).is_none());
    assert!(directory.lookup_user_id(&"alice".to_string()).is_none());
    let r = register(&mut session, &mut directory, &engine, &garbage_register_response());
    assert!(matches!(r, Err(Error::AuthNotStarted)));
}

#[test]
fn failed_login_consumes_pending_state() {
    let engine = test_engine();
    let mut directory = Directory::new();
    directory.bind_username("bob".to_string(), 7);
    directory.put_credential(7, sample_passkey());
    let mut session = SessionRecord::new();
    let r = start_for(&mut session, &directory, &engine, "bob");
    assert!(r.is_ok());
    let r = login(&mut session, &mut directory, &engine, &garbage_login_response());
    assert!(matches!(r, Err(Error::CeremonyFailed(_))));
    assert!(session.auth_state.is_none());
    assert!(username(&session).is_none());
    let r = login(&mut session, &mut directory, &engine, &garbage_login_response());
    assert!(matches!(r, Err(Error::AuthNotStarted)));
}

#[test]
fn new_start_discards_pending_ceremony() {
    let engine = test_engine();
    let directory = Directory::new();
    let mut session = SessionRecord::new();
    let r = start_for(&mut session, &directory, &engine, "alice");
    assert!(r.is_ok());
    let r = start_for(&mut session, &directory, &engine, "carol");
    assert!(r.is_ok());
    assert!(matches!(
        session.auth_state,
        Some(AuthState::Registration(_, ref name, _)) if name == "carol"
    ));
    let mut directory = directory;
    let r = login(&mut session, &mut directory, &engine, &garbage_login_response());
    assert!(matches!(r, Err(Error::AuthStateInvalid)));
    assert!(session.auth_state.is_none());
}

#[test]
fn status_codes_follow_the_error_taxonomy() {
    assert_eq!(Error::UserFoundButNoPasskeys.status_code(), 500);
    assert_eq!(Error::AuthNotStarted.status_code(), 400);
    assert_eq!(Error::AuthStateInvalid.status_code(), 400);
    assert_eq!(Error::InvalidUsername.status_code(), 400);
    assert_eq!(Error::CeremonyFailed(WebauthnError::UserNotPresent).status_code(), 400);
    assert_eq!(Error::Configuration(WebauthnError::Configuration).status_code(), 500);
}

#[test]
fn directory_lookup_of_unknown_username_is_none() {
    let directory = Directory::new();
    assert!(directory.lookup_user_id(&"nobody".to_string()).is_none());
}

#[test]
fn directory_bind_then_lookup_returns_identity() {
    let mut directory = Directory::new();
    directory.bind_username("alice".to_string(), 11);
    directory.bind_username("bob".to_string(), 22);
    assert_eq!(directory.lookup_user_id(&"alice".to_string()), Some(11));
    assert_eq!(directory.lookup_user_id(&"bob".to_string()), Some(22));
}

#[test]
fn directory_rebind_overwrites_previous_identity() {
    let mut directory = Directory::new();
    directory.bind_username("alice".to_string(), 11);
    directory.bind_username("alice".to_string(), 33);
    assert_eq!(directory.lookup_user_id(&"alice".to_string()), Some(33));
}

#[test]
fn directory_put_credential_appends() {
    let mut directory = Directory::new();
    assert!(directory.credentials_for(7).is_none());
    directory.put_credential(7, sample_passkey());
    assert_eq!(directory.credentials_for(7).map(|v| v.len()), Some(1));
    directory.put_credential(7, sample_passkey());
    assert_eq!(directory.credentials_for(7).map(|v| v.len()), Some(2));
}

#[test]
fn directory_take_credentials_removes_entry() {
    let mut directory = Directory::new();
    directory.put_credential(7, sample_passkey());
    let taken = directory.take_credentials(7);
    assert_eq!(taken.map(|v| v.len()), Some(1));
    assert!(directory.credentials_for(7).is_none());
    assert!(directory.take_credentials(7).is_none());
}

#[test]
fn directory_set_credentials_replaces_entry() {
    let mut directory = Directory::new();
    directory.put_credential(7, sample_passkey());
    directory.set_credentials(7, vec![sample_passkey(), sample_passkey()]);
    assert_eq!(directory.credentials_for(7).map(|v| v.len()), Some(2));
}
