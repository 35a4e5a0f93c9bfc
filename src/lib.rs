//! An authenticated data-access gateway for a personal watch list.
//!
//! The library holds the validated, side-effect-free part of the gateway:
//! text sanitization, field validation, the session state machine and the
//! decisions taken around each storage round trip. The storage calls
//! themselves are performed by the caller, which hands their outcomes back.

pub mod text;
pub mod sanitize;
pub mod model;
pub mod validate;
pub mod connection;
pub mod session;
pub mod gateway;
