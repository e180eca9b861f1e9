//! A small synchronous HTTP client core: request construction, chunked
//! transmission, single-hop redirects, bounded body reading and decoding.

pub mod decimal;
pub mod error;
pub mod exchange;
pub mod extension;
pub mod fields;
pub mod json;
pub mod kitsu;
pub mod request;
pub mod response;
pub mod url;
