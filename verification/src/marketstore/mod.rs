//! Market data from the time-series store.

pub mod config;
pub mod data;
pub mod decode;
pub mod query;
pub mod rows;
pub mod rpc;
pub mod stream;
pub mod subscriptions;
pub mod symbology;
