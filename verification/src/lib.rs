//! Profile management core of a proxy-profile server: subscription and
//! share-link decoding, the JSON model of outbound configurations, and the
//! bookkeeping rules of groups, nodes and runtime values.

pub mod cli;
pub mod codec;
pub mod data;
pub mod json;
pub mod manager;
pub mod outbound;
pub mod profile;
pub mod serialize;
pub mod server;
pub mod shadowsocks;
pub mod text;
pub mod trojan;
