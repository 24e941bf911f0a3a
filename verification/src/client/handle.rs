//! What a packet from the server means for the game.

use vstd::prelude::*;
use crate::client::packet::{ServerPlayPacket, ServerPlayPacketView};
use crate::world::{Block, BlockPosition};

verus! {

/// The player id that stands for the local player.
pub const LOCAL_PLAYER_ID: i8 = -1;

/// The number of wire units in one block: coordinates on the wire are in
/// thirty-seconds of a block.
pub const UNITS_PER_BLOCK: i16 = 32;

/// What the game is to do about a packet.
pub enum PacketEffect {
    /// Nothing.
    Nothing,
    /// Show a chat message.
    ShowMessage(String),
    /// Move the camera to a place given in wire units.
    MoveCamera { x: i16, y: i16, z: i16 },
    /// Put a block into the world.
    SetBlock(Block),
}

/// What the game is to do about `packet`: a message is shown, a teleport of
/// the local player moves the camera, a block change puts the block; all
/// else has no effect.
pub fn handle_packet(packet: ServerPlayPacket) -> (effect: PacketEffect)
    ensures
        match packet.deep_view() {
            ServerPlayPacketView::Ping(_) => effect is Nothing,
            ServerPlayPacketView::SpawnPlayer(_) => effect is Nothing,
            ServerPlayPacketView::Message(m) => effect is ShowMessage && effect->ShowMessage_0@
                == m.message,
            ServerPlayPacketView::PlayerTeleport(t) => if t.player_id == LOCAL_PLAYER_ID {
                effect == (PacketEffect::MoveCamera { x: t.x, y: t.y, z: t.z })
            } else {
                effect is Nothing
            },
            ServerPlayPacketView::SetBlock(b) => {
                &&& effect is SetBlock
                &&& effect->SetBlock_0 == (Block {
                    id: b.block_type,
                    position: BlockPosition { x: b.x as i32, y: b.y as i32, z: b.z as i32 },
                })
            },
        },
{
    match packet {
        ServerPlayPacket::Ping(_) => PacketEffect::Nothing,
        ServerPlayPacket::Message(p) => PacketEffect::ShowMessage(p.message),
        ServerPlayPacket::SpawnPlayer(_) => PacketEffect::Nothing,
        ServerPlayPacket::PlayerTeleport(p) => {
            if p.player_id == LOCAL_PLAYER_ID {
                PacketEffect::MoveCamera { x: p.x, y: p.y, z: p.z }
            } else {
                PacketEffect::Nothing
            }
        },
        ServerPlayPacket::SetBlock(p) => PacketEffect::SetBlock(
            Block::new(p.block_type, BlockPosition::new(p.x as i32, p.y as i32, p.z as i32)),
        ),
    }
}

} // verus!
