//! Verified core of a newsletter subscription backend.
//!
//! The library models the subscriber lifecycle: untrusted form input is
//! validated into domain values, subscribers are persisted with a
//! pending/confirmed status, confirmation tokens are issued and consumed,
//! and a newsletter broadcast fans out to confirmed subscribers behind an
//! authentication gate.  Everything that decides — validation, the store's
//! state machine, the retry policy, the broadcast report, the credential
//! check — is verified; the process edges (HTTP, SQL, SMTP) stay outside
//! and hand the library plain values.

pub mod domain;
pub mod form;
pub mod store;
pub mod ids;
pub mod clock;
pub mod issue;
pub mod notify;
pub mod broadcast;
pub mod auth;
pub mod requests;
