//! Content-addressed image upload service core.
//!
//! The library holds the verified logic of the service: the nonce clock,
//! the keyed-signature codec, the image format sniffer, and the upload
//! pipeline decisions. File and network I/O live outside, in the thin
//! application layer that drives these functions.

pub mod codec;
pub mod crypto;
pub mod error;
pub mod sniff;
pub mod store;
pub mod nonce;
pub mod pipeline;
