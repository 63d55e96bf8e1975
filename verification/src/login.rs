//! Login-session state: the change monitor and the session model.

pub mod monitor;
pub mod session;
