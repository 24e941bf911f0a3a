//! Client-side protocol layer of a classic voxel game: the byte-level packet
//! codec, the packet catalog, the framing accumulator, the decisions of the
//! handshake and of the connection worker, and the block volume they fill.

pub mod client;
pub mod codec;
pub mod io;
pub mod packets;
pub mod world;
