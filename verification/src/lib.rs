//! Client-side core of a chunk-addressed content distribution network:
//! manifest decoding, chunk decryption and decompression, edge-server
//! selection, and the request plumbing that binds them together.

pub mod chunk;
pub mod client;
pub mod codec;
pub mod crypto;
pub mod depot;
pub mod download;
pub mod error;
pub mod file;
pub mod kv;
pub mod manifest;
pub mod pool;
pub mod reader;
