//! Decoding of OVSDB's tagged JSON encoding and of the per-row old/new
//! differences that a `monitor` request and its `update` notifications carry.

pub mod json;
pub mod atom;
pub mod encode;
pub mod row;
pub mod diff;
pub mod session;
pub mod rpc;
pub mod laws;
