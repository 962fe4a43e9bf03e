//! Verified decision logic for two trading adapters: order execution at a US-equity broker and
//! market data from a columnar time-series store.

pub mod alpaca;
pub mod decimal;
pub mod fixed;
pub mod marketstore;
pub mod model;
pub mod text;
