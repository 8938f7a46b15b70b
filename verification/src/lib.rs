//! Verified core of Fubun: domain rules, discovery, protocol framing, adapter
//! selection, storage decisions and execution planning.

pub mod adapter;
pub mod cli;
pub mod clock;
pub mod digest;
pub mod event;
pub mod execution;
pub mod ids;
pub mod intake;
pub mod json;
pub mod laws;
pub mod lifecycle;
pub mod linux;
pub mod mining;
pub mod native_host;
pub mod order;
pub mod paths;
pub mod policy;
pub mod preview;
pub mod protocol;
pub mod resource;
pub mod ritual;
pub mod runner;
pub mod server;
pub mod storage;
pub mod text;
pub mod url;
