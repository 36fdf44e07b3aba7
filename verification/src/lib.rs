//! A minimal per-page comment board core: a verified comment store with
//! monotonically increasing ids, a fixed-offset timestamp formatter, and a
//! best-effort push-notification payload builder whose outcome never alters
//! an insert's reported result.

pub mod comment;
pub mod config;
pub mod cors;
pub mod service;
pub mod store;
pub mod json;
pub mod notify;
pub mod timestamp;
