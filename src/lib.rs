//! A client library for a cryptocurrency exchange's REST API: it signs
//! private requests, decodes the exchange's responses by their shape, splits
//! a range of candle history into the windows one request can fetch, and
//! sequences those requests under the exchange's rate limit.

pub mod api;
pub mod endpoints;
pub mod history;
pub mod instant;
pub mod json;
pub mod planner;
pub mod signer;
pub mod text;
