//! Passwordless authentication core: the session-bound ceremony state machine
//! that decides, per request, whether a username registers a new passkey or
//! authenticates with an existing one, and that issues and consumes the
//! single-use pending ceremony state across the two round trips.

pub mod auth;
pub mod directory;
pub mod engine;
pub mod errors;
