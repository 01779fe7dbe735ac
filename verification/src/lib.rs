//! Per-session settings, text mangling and task delegation for a coding agent.
//!
//! - [`mangle`] hides sensitive words from the provider and restores them in its replies;
//!   [`mangle_laws`] says what that promises, on top of [`replace`].
//! - [`session_config`] keeps flags of sessions and names projects.
//! - [`session_delegate_config`] keeps the delegation settings of sessions.
//! - [`delegate`] runs a delegation, step by step, over the requests and events of [`protocol`];
//!   [`configure_delegate`] changes and shows its settings.
//! - [`config`], [`message`], [`json`] and [`text`] hold what these share.

pub mod config;
pub mod configure_delegate;
pub mod delegate;
pub mod json;
pub mod mangle;
pub mod mangle_laws;
pub mod message;
pub mod protocol;
pub mod replace;
pub mod session_config;
pub mod session_delegate_config;
pub mod text;
