//! Codec and device logic of an RFID tag server for libraries.
//!
//! The crate turns item records of the Danish tag data model into raw byte
//! frames and back, and it holds the decisions behind reader
//! handling: capability descriptors, connection recovery, read collection and
//! the write policy. Talking to the hardware is left to the caller.

pub mod config;
pub mod crc;
pub mod devices;
pub mod frame_laws;
pub mod hex;
pub mod rfid_items;
pub mod routes;
pub mod text;
