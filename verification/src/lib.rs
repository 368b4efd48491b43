//! Core logic of the APUS peer-to-peer update and mesh-chat engine.

pub mod text;
pub mod digest;
pub mod p2p;
pub mod discovery;
pub mod routing;
pub mod corp;
pub mod triggers;
pub mod compress;
pub mod manifest;
pub mod nat_traversal;
pub mod network;
pub mod hardware;
pub mod mesh;
pub mod store;
