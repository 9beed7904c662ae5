//! Privileged authentication-and-orchestration core of a graphical login
//! manager.
//!
//! The crate models the security-sensitive decisions of the login manager as
//! verified functions: the PAM-backed login/session state machine, the
//! request/reply correlation protocol between the privileged process and the
//! untrusted renderer, the child-process wait protocol, the session launch
//! plan, and the parsers for desktop entries and configuration values.
//! The process, channel and credential primitives themselves are performed by
//! the surrounding program, which feeds their outcomes into these functions.

pub mod auth;
pub mod convenience;
pub mod display;
pub mod freedesktop;
pub mod identity;
pub mod launcher;
pub mod kv;
pub mod message;
pub mod orchestrator;
pub mod parameterization;
pub mod sessions;
pub mod supervisor;
pub mod text;
pub mod uri_policy;
