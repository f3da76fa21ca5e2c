//! Appointment scheduling between patients and doctors: account registration,
//! credential checking, session tokens, slot booking under a per-doctor daily
//! quota, an appointment lifecycle state machine, and a role-based
//! authorization gate. The store, the admission rule, the lifecycle and the
//! gate are verified; password hashing, token signing and date parsing are
//! called through narrow trusted wrappers.

pub mod api;
pub mod auth;
pub mod credential;
pub mod dates;
pub mod model;
pub mod schedule;
pub mod session;
pub mod store;
