//! The broker's REST interface: errors, wire models, and the words of the wire.

pub mod client;
pub mod error;
pub mod models;
pub mod parse;
