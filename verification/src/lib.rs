//! A client library for the Alipay open-platform RPC protocol.
//!
//! The heart of the protocol is deterministic: a bag of key/value parameters
//! is merged with per-call fields, sorted by key, joined into a canonical
//! `key=value&...` string, and signed with the application's RSA private key.
//! That pipeline is implemented and specified here; the network transport is
//! left to the embedding application.

pub mod builder;
pub mod canonical;
pub mod client;
pub mod config;
pub mod cert;
pub mod crypto;
pub mod error;
pub mod merge;
pub mod params;
pub mod text;
pub mod util;
pub mod value;

pub use builder::ClientBuilder;
pub use client::Client;
pub use client::ClientWithParams;
pub use config::Config;
pub use config::ConfigBuilder;
pub use crypto::Sign;
pub use error::AlipayError;
pub use error::AlipayResult;
pub use params::RequestParam;
pub use util::datetime;
pub use value::ParamValue;
