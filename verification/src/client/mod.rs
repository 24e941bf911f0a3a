//! The client's side of a connection.

use vstd::prelude::*;
use crate::client::packet::{
    ClientPlayPacket, ClientPlayPacketView, PositionAndOrientation, PositionAndOrientationView,
};

pub mod handle;
pub mod handshake;
pub mod packet;
pub mod worker;

verus! {

/// The player id under which the client reports its own position.
pub const OWN_PLAYER_ID: u8 = 255;

/// The packet that reports the client's position, given in wire units, and
/// where it looks.
pub fn position_update(x: i16, y: i16, z: i16, yaw: u8, pitch: u8) -> (packet: ClientPlayPacket)
    ensures
        packet.deep_view() == ClientPlayPacketView::PositionAndOrientation(
            PositionAndOrientationView { player_id: OWN_PLAYER_ID, x, y, z, yaw, pitch },
        ),
{
    ClientPlayPacket::PositionAndOrientation(
        PositionAndOrientation { player_id: OWN_PLAYER_ID, x, y, z, yaw, pitch },
    )
}

} // verus!
