//! Order execution at the broker.

pub mod config;
pub mod dates;
pub mod execution;
pub mod gatekeeper;
pub mod http;
pub mod reports;
pub mod rules;
pub mod session;
pub mod validator;
pub mod wash;
pub mod websocket;
