use vstd::prelude::*;

pub mod text;
pub mod range;
pub mod concat;
pub mod filename;
pub mod status;
pub mod upload;
pub mod lifecycle;
pub mod codec;
pub mod metadata;
pub mod protocol;
pub mod net;
pub mod throttle;
pub mod context;
pub mod session;
pub mod sso;
pub mod accounts;
pub mod webhook;
pub mod config;
pub mod processing;
pub mod storage;
pub mod context_admin;
pub mod settings;
pub mod dashboard;
pub mod web;
pub mod s3;
pub mod maintenance;

verus! {
} // verus!
