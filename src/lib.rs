//! Normalization of exchange market-data messages into one canonical schema.
pub mod bitmex;
pub mod huobi_linear;
pub mod json;
pub mod mexc;
pub mod model;
pub mod text;
