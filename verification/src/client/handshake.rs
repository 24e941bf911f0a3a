//! The handshake: the identification that opens it, and the world transfer
//! that ends it. The transfer is a state that takes the server's packets one
//! by one; whoever owns the connection reads them and hands them in.

use flate2::read::GzDecoder;
use vstd::prelude::*;
use vstd::string::*;
use crate::client::packet::{
    ClientPlayPacket, ClientPlayPacketView, LevelDataChunk, PlayerIdentification,
    PlayerIdentificationView, ServerLoginPacket, ServerWorldPacket, ServerWorldPacketView,
};
use crate::io::append_bytes;
use crate::io::sequence::BYTE_ARRAY_LENGTH;
use crate::world::World;

verus! {

/// The protocol version that the client announces.
pub const PROTOCOL_VERSION: u8 = 23;

/// What the handshake hands to the game: the world as the server sent it.
pub struct ServerDataPackage {
    pub world: World,
}

impl ServerDataPackage {
    pub fn new(world: World) -> (package: Self)
        ensures
            package.world == world,
    {
        Self { world }
    }
}

/// Why a world transfer failed.
#[derive(Debug, Clone, Copy, PartialEq, Eq, Structural)]
pub enum HandshakeError {
    /// A data chunk that declares a length below 0 or above 1024.
    ChunkLength(i16),
    /// The chunks together are no gzip stream.
    Inflate,
}

/// What a gzip stream holds: the bytes that `data` decompresses to, where
/// `data` is a stream that the decoder reads to its end without error.
pub uninterp spec fn gzip_inflated(data: Seq<u8>) -> Option<Seq<u8>>;

/// `flate2::read::GzDecoder` over `data`, read to its end: the decompressed
/// bytes, or nothing where the decoder reports an error.
#[verifier::external_body]
fn gunzip(data: &[u8]) -> (r: Option<Vec<u8>>)
    ensures
        r is Some <==> gzip_inflated(data@) is Some,
        r is Some ==> r->Some_0@ == gzip_inflated(data@)->Some_0,
{
    let mut decoder = GzDecoder::new(std::io::Cursor::new(data));
    let mut output = Vec::new();
    match std::io::Read::read_to_end(&mut decoder, &mut output) {
        Ok(_) => Some(output),
        Err(_) => None,
    }
}

/// The packet that opens the handshake for the player `username`.
pub fn identification(username: String) -> (packet: ClientPlayPacket)
    ensures
        packet.deep_view() == ClientPlayPacketView::PlayerIdentification(
            PlayerIdentificationView {
                protocol_version: PROTOCOL_VERSION,
                username: username@,
                verification_key: Seq::empty(),
                unused: 0,
            },
        ),
{
    ClientPlayPacket::PlayerIdentification(
        PlayerIdentification {
            protocol_version: PROTOCOL_VERSION,
            username,
            verification_key: String::new(),
            unused: 0,
        },
    )
}

/// Whether `package` holds the world of the given dimensions over `data`.
pub open spec fn holds_world(
    package: ServerDataPackage,
    data: Seq<u8>,
    x_size: i16,
    y_size: i16,
    z_size: i16,
) -> bool {
    &&& package.world.contents() == data
    &&& package.world.width() == x_size as usize
    &&& package.world.height() == y_size as usize
    &&& package.world.length() == z_size as usize
}

/// What the transfer ends in, given what the chunks decompressed to.
pub open spec fn finished(
    r: Result<ServerDataPackage, HandshakeError>,
    inflated: Option<Seq<u8>>,
    x_size: i16,
    y_size: i16,
    z_size: i16,
) -> bool {
    match inflated {
        Some(data) => r is Ok && holds_world(r->Ok_0, data, x_size, y_size, z_size),
        None => r is Err && r->Err_0 == HandshakeError::Inflate,
    }
}

/// Ends the transfer: the world of the given dimensions over the
/// decompressed bytes, or the failure where there are none. The dimensions
/// are taken as the server gave them.
pub fn finish(inflated: Option<Vec<u8>>, x_size: i16, y_size: i16, z_size: i16) -> (r: Result<
    ServerDataPackage,
    HandshakeError,
>)
    ensures
        finished(
            r,
            match inflated {
                Some(data) => Some(data@),
                None => None,
            },
            x_size,
            y_size,
            z_size,
        ),
{
    match inflated {
        Some(data) => Ok(ServerDataPackage::new(World::from_data(data, x_size, y_size, z_size))),
        None => Err(HandshakeError::Inflate),
    }
}

/// The part of a data chunk that counts, where its declared length is one.
pub open spec fn chunk_payload(chunk_length: i16, chunk_data: Seq<u8>) -> Option<Seq<u8>> {
    if 0 <= chunk_length <= BYTE_ARRAY_LENGTH {
        Some(chunk_data.take(chunk_length as int))
    } else {
        None
    }
}

/// A world transfer in progress: the compressed bytes received so far.
pub struct WorldTransfer {
    staged: Vec<u8>,
}

impl WorldTransfer {
    /// The compressed bytes received so far.
    pub closed spec fn staged(&self) -> Seq<u8> {
        self.staged@
    }

    /// The transfer that follows the server's answer to the identification.
    /// Nothing has been received yet.
    pub fn begin(login: &ServerLoginPacket) -> (transfer: Self)
        ensures
            transfer.staged() == Seq::<u8>::empty(),
    {
        WorldTransfer { staged: Vec::new() }
    }

    /// Puts the payload of `chunk` behind the bytes received so far.
    fn stage(&mut self, chunk: &LevelDataChunk) -> (r: Result<(), HandshakeError>)
        ensures
            match chunk_payload(chunk.chunk_length, chunk.chunk_data.deep_view()) {
                Some(payload) => {
                    &&& r is Ok
                    &&& final(self).staged() == old(self).staged() + payload
                },
                None => {
                    &&& r == Err::<(), HandshakeError>(
                        HandshakeError::ChunkLength(chunk.chunk_length),
                    )
                    &&& final(self).staged() == old(self).staged()
                },
            },
    {
        if chunk.chunk_length < 0 || chunk.chunk_length > 1024 {
            return Err(HandshakeError::ChunkLength(chunk.chunk_length));
        }
        let length = chunk.chunk_length as usize;
        let payload = vstd::slice::slice_subrange(chunk.chunk_data.0.as_slice(), 0, length);
        append_bytes(&mut self.staged, payload);
        Ok(())
    }

    /// Takes the next packet of the transfer. An initialize packet changes
    /// nothing. A data chunk adds its payload to the bytes received. The
    /// finalize packet ends the transfer: the result is then the world, made
    /// of what the received bytes decompress to and of the packet's
    /// dimensions. Until then the result is `Ok(None)`.
    pub fn receive(&mut self, packet: ServerWorldPacket) -> (r: Result<
        Option<ServerDataPackage>,
        HandshakeError,
    >)
        ensures
            match packet.deep_view() {
                ServerWorldPacketView::LevelInitialize(_) => {
                    &&& r is Ok && r->Ok_0 is None
                    &&& final(self).staged() == old(self).staged()
                },
                ServerWorldPacketView::LevelDataChunk(chunk) => match chunk_payload(
                    chunk.chunk_length,
                    chunk.chunk_data,
                ) {
                    Some(payload) => {
                        &&& r is Ok && r->Ok_0 is None
                        &&& final(self).staged() == old(self).staged() + payload
                    },
                    None => {
                        &&& r is Err
                        &&& r->Err_0 == HandshakeError::ChunkLength(chunk.chunk_length)
                        &&& final(self).staged() == old(self).staged()
                    },
                },
                ServerWorldPacketView::LevelFinalize(sizes) => {
                    &&& final(self).staged() == old(self).staged()
                    &&& match gzip_inflated(old(self).staged()) {
                        Some(data) => r is Ok && r->Ok_0 is Some && holds_world(
                            r->Ok_0->Some_0,
                            data,
                            sizes.x_size,
                            sizes.y_size,
                            sizes.z_size,
                        ),
                        None => r is Err && r->Err_0 == HandshakeError::Inflate,
                    }
                },
            },
    {
        match packet {
            ServerWorldPacket::LevelInitialize(_) => Ok(None),
            ServerWorldPacket::LevelDataChunk(chunk) => {
                self.stage(&chunk)?;
                Ok(None)
            },
            ServerWorldPacket::LevelFinalize(sizes) => {
                let inflated = gunzip(self.staged.as_slice());
                let package = finish(inflated, sizes.x_size, sizes.y_size, sizes.z_size)?;
                Ok(Some(package))
            },
        }
    }
}

} // verus!
