use vstd::prelude::*;

pub mod text;
pub mod words;
pub mod codec;
pub mod json;
pub mod routes;
pub mod error;
pub mod limiter;
pub mod fingerprint;
pub mod protobuf;
pub mod ops;
pub mod auditor;
pub mod crypto;
pub mod vault;
pub mod purge;
pub mod export;
pub mod catalogue;
pub mod gdpr;
pub mod actions;
pub mod auth;
pub mod qr;
pub mod cache;
pub mod janitor;
pub mod forensics;

verus! {

} // verus!
