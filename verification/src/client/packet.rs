//! The packet catalog: the packets, and for each phase of the protocol the
//! union of the packets that may arrive or leave in it, each behind its
//! discriminator byte.
//!
//! A packet is its fields in the order of their declaration. That order is
//! written down once for each packet, as the type of its row of fields: a
//! pair of the first field and the row of the others.

use vstd::prelude::*;
use vstd::string::*;
use crate::io::sequence::ByteArray;
use crate::io::{lemma_skip_skip, write_field, Cursor, Error, Readable, WireValue, Writeable};
use crate::packets::VariantOf;

verus! {

/// The client's first packet: who it is and which protocol it speaks.
#[derive(Debug, Clone, PartialEq, Eq)]
pub struct PlayerIdentification {
    pub protocol_version: u8,
    pub username: String,
    pub verification_key: String,
    pub unused: u8,
}

/// What a `PlayerIdentification` holds.
pub ghost struct PlayerIdentificationView {
    pub protocol_version: u8,
    pub username: Seq<char>,
    pub verification_key: Seq<char>,
    pub unused: u8,
}

/// The fields of a `PlayerIdentification` in their order on the wire.
pub type PlayerIdentificationRow = (u8, (String, (String, u8)));

impl PlayerIdentificationView {
    /// The fields as a row.
    pub open spec fn row(self) -> <PlayerIdentificationRow as DeepView>::V {
        (self.protocol_version, (self.username, (self.verification_key, self.unused)))
    }

    /// The packet that holds the fields of `row`.
    pub open spec fn of_row(row: <PlayerIdentificationRow as DeepView>::V) -> Self {
        PlayerIdentificationView {
            protocol_version: row.0,
            username: row.1.0,
            verification_key: row.1.1.0,
            unused: row.1.1.1,
        }
    }
}

impl DeepView for PlayerIdentification {
    type V = PlayerIdentificationView;

    open spec fn deep_view(&self) -> PlayerIdentificationView {
        PlayerIdentificationView {
            protocol_version: self.protocol_version.deep_view(),
            username: self.username.deep_view(),
            verification_key: self.verification_key.deep_view(),
            unused: self.unused.deep_view(),
        }
    }
}

impl Readable for PlayerIdentification {
    open spec fn parse(bytes: Seq<u8>) -> Result<(PlayerIdentificationView, nat), Error> {
        match PlayerIdentificationRow::parse(bytes) {
            Ok((row, n)) => Ok((PlayerIdentificationView::of_row(row), n)),
            Err(e) => Err(e),
        }
    }

    fn read(buffer: &mut Cursor<'_>) -> (r: Result<Self, Error>) {
        let (protocol_version, (username, (verification_key, unused))) =
            PlayerIdentificationRow::read(buffer)?;
        Ok(PlayerIdentification { protocol_version, username, verification_key, unused })
    }
}

impl Writeable for PlayerIdentification {
    open spec fn wire(v: PlayerIdentificationView) -> Seq<u8> {
        PlayerIdentificationRow::wire(v.row())
    }

    open spec fn write_error(v: PlayerIdentificationView) -> Option<Error> {
        PlayerIdentificationRow::write_error(v.row())
    }

    fn write(&self, buffer: &mut Vec<u8>) -> (r: Result<(), Error>) {
        let row = (
            &self.protocol_version,
            (&self.username, (&self.verification_key, &self.unused)),
        );
        row.write(buffer)
    }
}

impl WireValue for PlayerIdentification {
    open spec fn canonical(v: PlayerIdentificationView) -> bool {
        PlayerIdentificationRow::canonical(v.row())
    }

    proof fn lemma_canonical_writes(v: PlayerIdentificationView) {
        PlayerIdentificationRow::lemma_canonical_writes(v.row());
    }

    proof fn lemma_round_trip(v: PlayerIdentificationView, rest: Seq<u8>) {
        PlayerIdentificationRow::lemma_round_trip(v.row(), rest);
    }

    proof fn lemma_prefix_incomplete(v: PlayerIdentificationView, k: int) {
        PlayerIdentificationRow::lemma_prefix_incomplete(v.row(), k);
    }
}

/// Where the player stands and looks, in fixed point.
#[derive(Debug, Clone, PartialEq, Eq)]
pub struct PositionAndOrientation {
    pub player_id: u8,
    pub x: i16,
    pub y: i16,
    pub z: i16,
    pub yaw: u8,
    pub pitch: u8,
}

/// What a `PositionAndOrientation` holds.
pub ghost struct PositionAndOrientationView {
    pub player_id: u8,
    pub x: i16,
    pub y: i16,
    pub z: i16,
    pub yaw: u8,
    pub pitch: u8,
}

/// The fields of a `PositionAndOrientation` in their order on the wire.
pub type PositionAndOrientationRow = (u8, (i16, (i16, (i16, (u8, u8)))));

impl PositionAndOrientationView {
    /// The fields as a row.
    pub open spec fn row(self) -> <PositionAndOrientationRow as DeepView>::V {
        (self.player_id, (self.x, (self.y, (self.z, (self.yaw, self.pitch)))))
    }

    /// The packet that holds the fields of `row`.
    pub open spec fn of_row(row: <PositionAndOrientationRow as DeepView>::V) -> Self {
        PositionAndOrientationView {
            player_id: row.0,
            x: row.1.0,
            y: row.1.1.0,
            z: row.1.1.1.0,
            yaw: row.1.1.1.1.0,
            pitch: row.1.1.1.1.1,
        }
    }
}

impl DeepView for PositionAndOrientation {
    type V = PositionAndOrientationView;

    open spec fn deep_view(&self) -> PositionAndOrientationView {
        PositionAndOrientationView {
            player_id: self.player_id.deep_view(),
            x: self.x.deep_view(),
            y: self.y.deep_view(),
            z: self.z.deep_view(),
            yaw: self.yaw.deep_view(),
            pitch: self.pitch.deep_view(),
        }
    }
}

impl Readable for PositionAndOrientation {
    open spec fn parse(bytes: Seq<u8>) -> Result<(PositionAndOrientationView, nat), Error> {
        match PositionAndOrientationRow::parse(bytes) {
            Ok((row, n)) => Ok((PositionAndOrientationView::of_row(row), n)),
            Err(e) => Err(e),
        }
    }

    fn read(buffer: &mut Cursor<'_>) -> (r: Result<Self, Error>) {
        let (player_id, (x, (y, (z, (yaw, pitch))))) = PositionAndOrientationRow::read(buffer)?;
        Ok(PositionAndOrientation { player_id, x, y, z, yaw, pitch })
    }
}

impl Writeable for PositionAndOrientation {
    open spec fn wire(v: PositionAndOrientationView) -> Seq<u8> {
        PositionAndOrientationRow::wire(v.row())
    }

    open spec fn write_error(v: PositionAndOrientationView) -> Option<Error> {
        PositionAndOrientationRow::write_error(v.row())
    }

    fn write(&self, buffer: &mut Vec<u8>) -> (r: Result<(), Error>) {
        let row = (&self.player_id, (&self.x, (&self.y, (&self.z, (&self.yaw, &self.pitch)))));
        row.write(buffer)
    }
}

impl WireValue for PositionAndOrientation {
    open spec fn canonical(v: PositionAndOrientationView) -> bool {
        PositionAndOrientationRow::canonical(v.row())
    }

    proof fn lemma_canonical_writes(v: PositionAndOrientationView) {
        PositionAndOrientationRow::lemma_canonical_writes(v.row());
    }

    proof fn lemma_round_trip(v: PositionAndOrientationView, rest: Seq<u8>) {
        PositionAndOrientationRow::lemma_round_trip(v.row(), rest);
    }

    proof fn lemma_prefix_incomplete(v: PositionAndOrientationView, k: int) {
        PositionAndOrientationRow::lemma_prefix_incomplete(v.row(), k);
    }
}

/// The server's answer to the identification.
#[derive(Debug, Clone, PartialEq, Eq)]
pub struct ServerIdentification {
    pub protocol_version: u8,
    pub server_name: String,
    pub server_motd: String,
    pub user_type: u8,
}

/// What a `ServerIdentification` holds.
pub ghost struct ServerIdentificationView {
    pub protocol_version: u8,
    pub server_name: Seq<char>,
    pub server_motd: Seq<char>,
    pub user_type: u8,
}

/// The fields of a `ServerIdentification` in their order on the wire.
pub type ServerIdentificationRow = (u8, (String, (String, u8)));

impl ServerIdentificationView {
    /// The fields as a row.
    pub open spec fn row(self) -> <ServerIdentificationRow as DeepView>::V {
        (self.protocol_version, (self.server_name, (self.server_motd, self.user_type)))
    }

    /// The packet that holds the fields of `row`.
    pub open spec fn of_row(row: <ServerIdentificationRow as DeepView>::V) -> Self {
        ServerIdentificationView {
            protocol_version: row.0,
            server_name: row.1.0,
            server_motd: row.1.1.0,
            user_type: row.1.1.1,
        }
    }
}

impl DeepView for ServerIdentification {
    type V = ServerIdentificationView;

    open spec fn deep_view(&self) -> ServerIdentificationView {
        ServerIdentificationView {
            protocol_version: self.protocol_version.deep_view(),
            server_name: self.server_name.deep_view(),
            server_motd: self.server_motd.deep_view(),
            user_type: self.user_type.deep_view(),
        }
    }
}

impl Readable for ServerIdentification {
    open spec fn parse(bytes: Seq<u8>) -> Result<(ServerIdentificationView, nat), Error> {
        match ServerIdentificationRow::parse(bytes) {
            Ok((row, n)) => Ok((ServerIdentificationView::of_row(row), n)),
            Err(e) => Err(e),
        }
    }

    fn read(buffer: &mut Cursor<'_>) -> (r: Result<Self, Error>) {
        let (protocol_version, (server_name, (server_motd, user_type))) =
            ServerIdentificationRow::read(buffer)?;
        Ok(ServerIdentification { protocol_version, server_name, server_motd, user_type })
    }
}

impl Writeable for ServerIdentification {
    open spec fn wire(v: ServerIdentificationView) -> Seq<u8> {
        ServerIdentificationRow::wire(v.row())
    }

    open spec fn write_error(v: ServerIdentificationView) -> Option<Error> {
        ServerIdentificationRow::write_error(v.row())
    }

    fn write(&self, buffer: &mut Vec<u8>) -> (r: Result<(), Error>) {
        let row = (
            &self.protocol_version,
            (&self.server_name, (&self.server_motd, &self.user_type)),
        );
        row.write(buffer)
    }
}

impl WireValue for ServerIdentification {
    open spec fn canonical(v: ServerIdentificationView) -> bool {
        ServerIdentificationRow::canonical(v.row())
    }

    proof fn lemma_canonical_writes(v: ServerIdentificationView) {
        ServerIdentificationRow::lemma_canonical_writes(v.row());
    }

    proof fn lemma_round_trip(v: ServerIdentificationView, rest: Seq<u8>) {
        ServerIdentificationRow::lemma_round_trip(v.row(), rest);
    }

    proof fn lemma_prefix_incomplete(v: ServerIdentificationView, k: int) {
        ServerIdentificationRow::lemma_prefix_incomplete(v.row(), k);
    }
}

/// The world transfer begins.
#[derive(Debug, Clone, PartialEq, Eq)]
pub struct LevelInitialize {}

/// What a `LevelInitialize` holds.
pub ghost struct LevelInitializeView {}

impl DeepView for LevelInitialize {
    type V = LevelInitializeView;

    open spec fn deep_view(&self) -> LevelInitializeView {
        LevelInitializeView {}
    }
}

impl Readable for LevelInitialize {
    open spec fn parse(bytes: Seq<u8>) -> Result<(LevelInitializeView, nat), Error> {
        Ok((LevelInitializeView {}, 0))
    }

    fn read(buffer: &mut Cursor<'_>) -> (r: Result<Self, Error>) {
        Ok(LevelInitialize {})
    }
}

impl Writeable for LevelInitialize {
    open spec fn wire(v: LevelInitializeView) -> Seq<u8> {
        Seq::empty()
    }

    open spec fn write_error(v: LevelInitializeView) -> Option<Error> {
        None
    }

    fn write(&self, buffer: &mut Vec<u8>) -> (r: Result<(), Error>) {
        Ok(())
    }
}

impl WireValue for LevelInitialize {
    open spec fn canonical(v: LevelInitializeView) -> bool {
        true
    }

    proof fn lemma_canonical_writes(v: LevelInitializeView) {
    }

    proof fn lemma_round_trip(v: LevelInitializeView, rest: Seq<u8>) {
    }

    proof fn lemma_prefix_incomplete(v: LevelInitializeView, k: int) {
    }
}

/// A keep-alive without content.
#[derive(Debug, Clone, PartialEq, Eq)]
pub struct Ping {}

/// What a `Ping` holds.
pub ghost struct PingView {}

impl DeepView for Ping {
    type V = PingView;

    open spec fn deep_view(&self) -> PingView {
        PingView {}
    }
}

impl Readable for Ping {
    open spec fn parse(bytes: Seq<u8>) -> Result<(PingView, nat), Error> {
        Ok((PingView {}, 0))
    }

    fn read(buffer: &mut Cursor<'_>) -> (r: Result<Self, Error>) {
        Ok(Ping {})
    }
}

impl Writeable for Ping {
    open spec fn wire(v: PingView) -> Seq<u8> {
        Seq::empty()
    }

    open spec fn write_error(v: PingView) -> Option<Error> {
        None
    }

    fn write(&self, buffer: &mut Vec<u8>) -> (r: Result<(), Error>) {
        Ok(())
    }
}

impl WireValue for Ping {
    open spec fn canonical(v: PingView) -> bool {
        true
    }

    proof fn lemma_canonical_writes(v: PingView) {
    }

    proof fn lemma_round_trip(v: PingView, rest: Seq<u8>) {
    }

    proof fn lemma_prefix_incomplete(v: PingView, k: int) {
    }
}

/// A piece of the compressed world; only the first `chunk_length` bytes of
/// `chunk_data` count.
#[derive(Debug, Clone, PartialEq, Eq)]
pub struct LevelDataChunk {
    pub chunk_length: i16,
    pub chunk_data: ByteArray,
    pub percent_complete: u8,
}

/// What a `LevelDataChunk` holds.
pub ghost struct LevelDataChunkView {
    pub chunk_length: i16,
    pub chunk_data: Seq<u8>,
    pub percent_complete: u8,
}

/// The fields of a `LevelDataChunk` in their order on the wire.
pub type LevelDataChunkRow = (i16, (ByteArray, u8));

impl LevelDataChunkView {
    /// The fields as a row.
    pub open spec fn row(self) -> <LevelDataChunkRow as DeepView>::V {
        (self.chunk_length, (self.chunk_data, self.percent_complete))
    }

    /// The packet that holds the fields of `row`.
    pub open spec fn of_row(row: <LevelDataChunkRow as DeepView>::V) -> Self {
        LevelDataChunkView { chunk_length: row.0, chunk_data: row.1.0, percent_complete: row.1.1 }
    }
}

impl DeepView for LevelDataChunk {
    type V = LevelDataChunkView;

    open spec fn deep_view(&self) -> LevelDataChunkView {
        LevelDataChunkView {
            chunk_length: self.chunk_length.deep_view(),
            chunk_data: self.chunk_data.deep_view(),
            percent_complete: self.percent_complete.deep_view(),
        }
    }
}

impl Readable for LevelDataChunk {
    open spec fn parse(bytes: Seq<u8>) -> Result<(LevelDataChunkView, nat), Error> {
        match LevelDataChunkRow::parse(bytes) {
            Ok((row, n)) => Ok((LevelDataChunkView::of_row(row), n)),
            Err(e) => Err(e),
        }
    }

    fn read(buffer: &mut Cursor<'_>) -> (r: Result<Self, Error>) {
        let (chunk_length, (chunk_data, percent_complete)) = LevelDataChunkRow::read(buffer)?;
        Ok(LevelDataChunk { chunk_length, chunk_data, percent_complete })
    }
}

impl Writeable for LevelDataChunk {
    open spec fn wire(v: LevelDataChunkView) -> Seq<u8> {
        LevelDataChunkRow::wire(v.row())
    }

    open spec fn write_error(v: LevelDataChunkView) -> Option<Error> {
        LevelDataChunkRow::write_error(v.row())
    }

    fn write(&self, buffer: &mut Vec<u8>) -> (r: Result<(), Error>) {
        let row = (&self.chunk_length, (&self.chunk_data, &self.percent_complete));
        row.write(buffer)
    }
}

impl WireValue for LevelDataChunk {
    open spec fn canonical(v: LevelDataChunkView) -> bool {
        LevelDataChunkRow::canonical(v.row())
    }

    proof fn lemma_canonical_writes(v: LevelDataChunkView) {
        LevelDataChunkRow::lemma_canonical_writes(v.row());
    }

    proof fn lemma_round_trip(v: LevelDataChunkView, rest: Seq<u8>) {
        LevelDataChunkRow::lemma_round_trip(v.row(), rest);
    }

    proof fn lemma_prefix_incomplete(v: LevelDataChunkView, k: int) {
        LevelDataChunkRow::lemma_prefix_incomplete(v.row(), k);
    }
}

/// The world transfer ends; the dimensions of the world.
#[derive(Debug, Clone, PartialEq, Eq)]
pub struct LevelFinalize {
    pub x_size: i16,
    pub y_size: i16,
    pub z_size: i16,
}

/// What a `LevelFinalize` holds.
pub ghost struct LevelFinalizeView {
    pub x_size: i16,
    pub y_size: i16,
    pub z_size: i16,
}

/// The fields of a `LevelFinalize` in their order on the wire.
pub type LevelFinalizeRow = (i16, (i16, i16));

impl LevelFinalizeView {
    /// The fields as a row.
    pub open spec fn row(self) -> <LevelFinalizeRow as DeepView>::V {
        (self.x_size, (self.y_size, self.z_size))
    }

    /// The packet that holds the fields of `row`.
    pub open spec fn of_row(row: <LevelFinalizeRow as DeepView>::V) -> Self {
        LevelFinalizeView { x_size: row.0, y_size: row.1.0, z_size: row.1.1 }
    }
}

impl DeepView for LevelFinalize {
    type V = LevelFinalizeView;

    open spec fn deep_view(&self) -> LevelFinalizeView {
        LevelFinalizeView {
            x_size: self.x_size.deep_view(),
            y_size: self.y_size.deep_view(),
            z_size: self.z_size.deep_view(),
        }
    }
}

impl Readable for LevelFinalize {
    open spec fn parse(bytes: Seq<u8>) -> Result<(LevelFinalizeView, nat), Error> {
        match LevelFinalizeRow::parse(bytes) {
            Ok((row, n)) => Ok((LevelFinalizeView::of_row(row), n)),
            Err(e) => Err(e),
        }
    }

    fn read(buffer: &mut Cursor<'_>) -> (r: Result<Self, Error>) {
        let (x_size, (y_size, z_size)) = LevelFinalizeRow::read(buffer)?;
        Ok(LevelFinalize { x_size, y_size, z_size })
    }
}

impl Writeable for LevelFinalize {
    open spec fn wire(v: LevelFinalizeView) -> Seq<u8> {
        LevelFinalizeRow::wire(v.row())
    }

    open spec fn write_error(v: LevelFinalizeView) -> Option<Error> {
        LevelFinalizeRow::write_error(v.row())
    }

    fn write(&self, buffer: &mut Vec<u8>) -> (r: Result<(), Error>) {
        let row = (&self.x_size, (&self.y_size, &self.z_size));
        row.write(buffer)
    }
}

impl WireValue for LevelFinalize {
    open spec fn canonical(v: LevelFinalizeView) -> bool {
        LevelFinalizeRow::canonical(v.row())
    }

    proof fn lemma_canonical_writes(v: LevelFinalizeView) {
        LevelFinalizeRow::lemma_canonical_writes(v.row());
    }

    proof fn lemma_round_trip(v: LevelFinalizeView, rest: Seq<u8>) {
        LevelFinalizeRow::lemma_round_trip(v.row(), rest);
    }

    proof fn lemma_prefix_incomplete(v: LevelFinalizeView, k: int) {
        LevelFinalizeRow::lemma_prefix_incomplete(v.row(), k);
    }
}

/// A chat message.
#[derive(Debug, Clone, PartialEq, Eq)]
pub struct Message {
    pub player_id: i8,
    pub message: String,
}

/// What a `Message` holds.
pub ghost struct MessageView {
    pub player_id: i8,
    pub message: Seq<char>,
}

/// The fields of a `Message` in their order on the wire.
pub type MessageRow = (i8, String);

impl MessageView {
    /// The fields as a row.
    pub open spec fn row(self) -> <MessageRow as DeepView>::V {
        (self.player_id, self.message)
    }

    /// The packet that holds the fields of `row`.
    pub open spec fn of_row(row: <MessageRow as DeepView>::V) -> Self {
        MessageView { player_id: row.0, message: row.1 }
    }
}

impl DeepView for Message {
    type V = MessageView;

    open spec fn deep_view(&self) -> MessageView {
        MessageView { player_id: self.player_id.deep_view(), message: self.message.deep_view() }
    }
}

impl Readable for Message {
    open spec fn parse(bytes: Seq<u8>) -> Result<(MessageView, nat), Error> {
        match MessageRow::parse(bytes) {
            Ok((row, n)) => Ok((MessageView::of_row(row), n)),
            Err(e) => Err(e),
        }
    }

    fn read(buffer: &mut Cursor<'_>) -> (r: Result<Self, Error>) {
        let (player_id, message) = MessageRow::read(buffer)?;
        Ok(Message { player_id, message })
    }
}

impl Writeable for Message {
    open spec fn wire(v: MessageView) -> Seq<u8> {
        MessageRow::wire(v.row())
    }

    open spec fn write_error(v: MessageView) -> Option<Error> {
        MessageRow::write_error(v.row())
    }

    fn write(&self, buffer: &mut Vec<u8>) -> (r: Result<(), Error>) {
        let row = (&self.player_id, &self.message);
        row.write(buffer)
    }
}

impl WireValue for Message {
    open spec fn canonical(v: MessageView) -> bool {
        MessageRow::canonical(v.row())
    }

    proof fn lemma_canonical_writes(v: MessageView) {
        MessageRow::lemma_canonical_writes(v.row());
    }

    proof fn lemma_round_trip(v: MessageView, rest: Seq<u8>) {
        MessageRow::lemma_round_trip(v.row(), rest);
    }

    proof fn lemma_prefix_incomplete(v: MessageView, k: int) {
        MessageRow::lemma_prefix_incomplete(v.row(), k);
    }
}

/// A player appears.
#[derive(Debug, Clone, PartialEq, Eq)]
pub struct SpawnPlayer {
    pub player_id: i8,
    pub player_name: String,
    pub x: i16,
    pub y: i16,
    pub z: i16,
    pub yaw: i8,
    pub pitch: i8,
}

/// What a `SpawnPlayer` holds.
pub ghost struct SpawnPlayerView {
    pub player_id: i8,
    pub player_name: Seq<char>,
    pub x: i16,
    pub y: i16,
    pub z: i16,
    pub yaw: i8,
    pub pitch: i8,
}

/// The fields of a `SpawnPlayer` in their order on the wire.
pub type SpawnPlayerRow = (i8, (String, (i16, (i16, (i16, (i8, i8))))));

impl SpawnPlayerView {
    /// The fields as a row.
    pub open spec fn row(self) -> <SpawnPlayerRow as DeepView>::V {
        (self.player_id, (self.player_name, (self.x, (self.y, (self.z, (self.yaw, self.pitch))))))
    }

    /// The packet that holds the fields of `row`.
    pub open spec fn of_row(row: <SpawnPlayerRow as DeepView>::V) -> Self {
        SpawnPlayerView {
            player_id: row.0,
            player_name: row.1.0,
            x: row.1.1.0,
            y: row.1.1.1.0,
            z: row.1.1.1.1.0,
            yaw: row.1.1.1.1.1.0,
            pitch: row.1.1.1.1.1.1,
        }
    }
}

impl DeepView for SpawnPlayer {
    type V = SpawnPlayerView;

    open spec fn deep_view(&self) -> SpawnPlayerView {
        SpawnPlayerView {
            player_id: self.player_id.deep_view(),
            player_name: self.player_name.deep_view(),
            x: self.x.deep_view(),
            y: self.y.deep_view(),
            z: self.z.deep_view(),
            yaw: self.yaw.deep_view(),
            pitch: self.pitch.deep_view(),
        }
    }
}

impl Readable for SpawnPlayer {
    open spec fn parse(bytes: Seq<u8>) -> Result<(SpawnPlayerView, nat), Error> {
        match SpawnPlayerRow::parse(bytes) {
            Ok((row, n)) => Ok((SpawnPlayerView::of_row(row), n)),
            Err(e) => Err(e),
        }
    }

    fn read(buffer: &mut Cursor<'_>) -> (r: Result<Self, Error>) {
        let (player_id, (player_name, (x, (y, (z, (yaw, pitch)))))) = SpawnPlayerRow::read(buffer)?;
        Ok(SpawnPlayer { player_id, player_name, x, y, z, yaw, pitch })
    }
}

impl Writeable for SpawnPlayer {
    open spec fn wire(v: SpawnPlayerView) -> Seq<u8> {
        SpawnPlayerRow::wire(v.row())
    }

    open spec fn write_error(v: SpawnPlayerView) -> Option<Error> {
        SpawnPlayerRow::write_error(v.row())
    }

    fn write(&self, buffer: &mut Vec<u8>) -> (r: Result<(), Error>) {
        let row = (
            &self.player_id,
            (&self.player_name, (&self.x, (&self.y, (&self.z, (&self.yaw, &self.pitch))))),
        );
        row.write(buffer)
    }
}

impl WireValue for SpawnPlayer {
    open spec fn canonical(v: SpawnPlayerView) -> bool {
        SpawnPlayerRow::canonical(v.row())
    }

    proof fn lemma_canonical_writes(v: SpawnPlayerView) {
        SpawnPlayerRow::lemma_canonical_writes(v.row());
    }

    proof fn lemma_round_trip(v: SpawnPlayerView, rest: Seq<u8>) {
        SpawnPlayerRow::lemma_round_trip(v.row(), rest);
    }

    proof fn lemma_prefix_incomplete(v: SpawnPlayerView, k: int) {
        SpawnPlayerRow::lemma_prefix_incomplete(v.row(), k);
    }
}

/// A player is moved; `player_id` -1 is the local player.
#[derive(Debug, Clone, PartialEq, Eq)]
pub struct PlayerTeleport {
    pub player_id: i8,
    pub x: i16,
    pub y: i16,
    pub z: i16,
    pub yaw: i8,
    pub pitch: i8,
}

/// What a `PlayerTeleport` holds.
pub ghost struct PlayerTeleportView {
    pub player_id: i8,
    pub x: i16,
    pub y: i16,
    pub z: i16,
    pub yaw: i8,
    pub pitch: i8,
}

/// The fields of a `PlayerTeleport` in their order on the wire.
pub type PlayerTeleportRow = (i8, (i16, (i16, (i16, (i8, i8)))));

impl PlayerTeleportView {
    /// The fields as a row.
    pub open spec fn row(self) -> <PlayerTeleportRow as DeepView>::V {
        (self.player_id, (self.x, (self.y, (self.z, (self.yaw, self.pitch)))))
    }

    /// The packet that holds the fields of `row`.
    pub open spec fn of_row(row: <PlayerTeleportRow as DeepView>::V) -> Self {
        PlayerTeleportView {
            player_id: row.0,
            x: row.1.0,
            y: row.1.1.0,
            z: row.1.1.1.0,
            yaw: row.1.1.1.1.0,
            pitch: row.1.1.1.1.1,
        }
    }
}

impl DeepView for PlayerTeleport {
    type V = PlayerTeleportView;

    open spec fn deep_view(&self) -> PlayerTeleportView {
        PlayerTeleportView {
            player_id: self.player_id.deep_view(),
            x: self.x.deep_view(),
            y: self.y.deep_view(),
            z: self.z.deep_view(),
            yaw: self.yaw.deep_view(),
            pitch: self.pitch.deep_view(),
        }
    }
}

impl Readable for PlayerTeleport {
    open spec fn parse(bytes: Seq<u8>) -> Result<(PlayerTeleportView, nat), Error> {
        match PlayerTeleportRow::parse(bytes) {
            Ok((row, n)) => Ok((PlayerTeleportView::of_row(row), n)),
            Err(e) => Err(e),
        }
    }

    fn read(buffer: &mut Cursor<'_>) -> (r: Result<Self, Error>) {
        let (player_id, (x, (y, (z, (yaw, pitch))))) = PlayerTeleportRow::read(buffer)?;
        Ok(PlayerTeleport { player_id, x, y, z, yaw, pitch })
    }
}

impl Writeable for PlayerTeleport {
    open spec fn wire(v: PlayerTeleportView) -> Seq<u8> {
        PlayerTeleportRow::wire(v.row())
    }

    open spec fn write_error(v: PlayerTeleportView) -> Option<Error> {
        PlayerTeleportRow::write_error(v.row())
    }

    fn write(&self, buffer: &mut Vec<u8>) -> (r: Result<(), Error>) {
        let row = (&self.player_id, (&self.x, (&self.y, (&self.z, (&self.yaw, &self.pitch)))));
        row.write(buffer)
    }
}

impl WireValue for PlayerTeleport {
    open spec fn canonical(v: PlayerTeleportView) -> bool {
        PlayerTeleportRow::canonical(v.row())
    }

    proof fn lemma_canonical_writes(v: PlayerTeleportView) {
        PlayerTeleportRow::lemma_canonical_writes(v.row());
    }

    proof fn lemma_round_trip(v: PlayerTeleportView, rest: Seq<u8>) {
        PlayerTeleportRow::lemma_round_trip(v.row(), rest);
    }

    proof fn lemma_prefix_incomplete(v: PlayerTeleportView, k: int) {
        PlayerTeleportRow::lemma_prefix_incomplete(v.row(), k);
    }
}

/// A block changes.
#[derive(Debug, Clone, PartialEq, Eq)]
pub struct SetBlock {
    pub x: i16,
    pub y: i16,
    pub z: i16,
    pub block_type: u8,
}

/// What a `SetBlock` holds.
pub ghost struct SetBlockView {
    pub x: i16,
    pub y: i16,
    pub z: i16,
    pub block_type: u8,
}

/// The fields of a `SetBlock` in their order on the wire.
pub type SetBlockRow = (i16, (i16, (i16, u8)));

impl SetBlockView {
    /// The fields as a row.
    pub open spec fn row(self) -> <SetBlockRow as DeepView>::V {
        (self.x, (self.y, (self.z, self.block_type)))
    }

    /// The packet that holds the fields of `row`.
    pub open spec fn of_row(row: <SetBlockRow as DeepView>::V) -> Self {
        SetBlockView { x: row.0, y: row.1.0, z: row.1.1.0, block_type: row.1.1.1 }
    }
}

impl DeepView for SetBlock {
    type V = SetBlockView;

    open spec fn deep_view(&self) -> SetBlockView {
        SetBlockView {
            x: self.x.deep_view(),
            y: self.y.deep_view(),
            z: self.z.deep_view(),
            block_type: self.block_type.deep_view(),
        }
    }
}

impl Readable for SetBlock {
    open spec fn parse(bytes: Seq<u8>) -> Result<(SetBlockView, nat), Error> {
        match SetBlockRow::parse(bytes) {
            Ok((row, n)) => Ok((SetBlockView::of_row(row), n)),
            Err(e) => Err(e),
        }
    }

    fn read(buffer: &mut Cursor<'_>) -> (r: Result<Self, Error>) {
        let (x, (y, (z, block_type))) = SetBlockRow::read(buffer)?;
        Ok(SetBlock { x, y, z, block_type })
    }
}

impl Writeable for SetBlock {
    open spec fn wire(v: SetBlockView) -> Seq<u8> {
        SetBlockRow::wire(v.row())
    }

    open spec fn write_error(v: SetBlockView) -> Option<Error> {
        SetBlockRow::write_error(v.row())
    }

    fn write(&self, buffer: &mut Vec<u8>) -> (r: Result<(), Error>) {
        let row = (&self.x, (&self.y, (&self.z, &self.block_type)));
        row.write(buffer)
    }
}

impl WireValue for SetBlock {
    open spec fn canonical(v: SetBlockView) -> bool {
        SetBlockRow::canonical(v.row())
    }

    proof fn lemma_canonical_writes(v: SetBlockView) {
        SetBlockRow::lemma_canonical_writes(v.row());
    }

    proof fn lemma_round_trip(v: SetBlockView, rest: Seq<u8>) {
        SetBlockRow::lemma_round_trip(v.row(), rest);
    }

    proof fn lemma_prefix_incomplete(v: SetBlockView, k: int) {
        SetBlockRow::lemma_prefix_incomplete(v.row(), k);
    }
}

/// What the client sends.
#[derive(Debug, Clone, PartialEq, Eq)]
pub enum ClientPlayPacket {
    PlayerIdentification(PlayerIdentification),
    PositionAndOrientation(PositionAndOrientation),
}

/// What a `ClientPlayPacket` holds.
pub ghost enum ClientPlayPacketView {
    PlayerIdentification(PlayerIdentificationView),
    PositionAndOrientation(PositionAndOrientationView),
}

impl DeepView for ClientPlayPacket {
    type V = ClientPlayPacketView;

    open spec fn deep_view(&self) -> ClientPlayPacketView {
        match self {
            ClientPlayPacket::PlayerIdentification(p) =>
                ClientPlayPacketView::PlayerIdentification(p.deep_view()),
            ClientPlayPacket::PositionAndOrientation(p) =>
                ClientPlayPacketView::PositionAndOrientation(p.deep_view()),
        }
    }
}

impl ClientPlayPacket {
    /// Whether `id` is the discriminator of a packet of this union.
    pub open spec fn known_id(id: u8) -> bool {
        id == 0x00 || id == 0x08
    }

    /// The discriminator of the packet `v`.
    pub open spec fn id_of(v: ClientPlayPacketView) -> u8 {
        match v {
            ClientPlayPacketView::PlayerIdentification(_) => 0x00,
            ClientPlayPacketView::PositionAndOrientation(_) => 0x08,
        }
    }

    /// The name of the packet `v`.
    pub open spec fn name_of(v: ClientPlayPacketView) -> Seq<char> {
        match v {
            ClientPlayPacketView::PlayerIdentification(_) => "PlayerIdentification"@,
            ClientPlayPacketView::PositionAndOrientation(_) => "PositionAndOrientation"@,
        }
    }

    /// The bytes of the packet `v` behind its discriminator.
    pub open spec fn body_of(v: ClientPlayPacketView) -> Seq<u8> {
        match v {
            ClientPlayPacketView::PlayerIdentification(p) => PlayerIdentification::wire(p),
            ClientPlayPacketView::PositionAndOrientation(p) => PositionAndOrientation::wire(p),
        }
    }

    /// Returns the packet ID of this packet.
    pub fn id(&self) -> (id: u8)
        ensures
            id == Self::id_of(self.deep_view()),
            Self::known_id(id),
    {
        match self {
            ClientPlayPacket::PlayerIdentification(_) => 0x00,
            ClientPlayPacket::PositionAndOrientation(_) => 0x08,
        }
    }

    /// Returns the name of this packet.
    pub fn name(&self) -> (name: String)
        ensures
            name@ == Self::name_of(self.deep_view()),
    {
        match self {
            ClientPlayPacket::PlayerIdentification(_) => String::from_str("PlayerIdentification"),
            ClientPlayPacket::PositionAndOrientation(_) =>
                String::from_str("PositionAndOrientation"),
        }
    }

    /// A discriminator that the union does not list is refused as such,
    /// whatever follows it.
    pub proof fn lemma_unknown_id_rejected(bytes: Seq<u8>)
        requires
            bytes.len() >= 1,
            !Self::known_id(bytes[0]),
        ensures
            Self::parse(bytes) == Err::<(ClientPlayPacketView, nat), Error>(
                Error::UnknownPacketId(bytes[0]),
            ),
    {
    }
}

impl Readable for ClientPlayPacket {
    open spec fn parse(bytes: Seq<u8>) -> Result<(ClientPlayPacketView, nat), Error> {
        match u8::parse(bytes) {
            Err(e) => Err(e),
            Ok((id, n)) => {
                let rest = bytes.skip(n as int);
                if id == 0x00 {
                    match PlayerIdentification::parse(rest) {
                        Ok((p, m)) => Ok((ClientPlayPacketView::PlayerIdentification(p), n + m)),
                        Err(e) => Err(e),
                    }
                } else if id == 0x08 {
                    match PositionAndOrientation::parse(rest) {
                        Ok((p, m)) => Ok((ClientPlayPacketView::PositionAndOrientation(p), n + m)),
                        Err(e) => Err(e),
                    }
                } else {
                    Err(Error::UnknownPacketId(id))
                }
            },
        }
    }

    fn read(buffer: &mut Cursor<'_>) -> (r: Result<Self, Error>) {
        let packet_id = u8::read(buffer)?;
        let packet = match packet_id {
            0x00 => ClientPlayPacket::PlayerIdentification(PlayerIdentification::read(buffer)?),
            0x08 => ClientPlayPacket::PositionAndOrientation(PositionAndOrientation::read(buffer)?),
            _ => {
                return Err(Error::UnknownPacketId(packet_id));
            },
        };
        proof {
            buffer.lemma_in_bounds();
            old(buffer).lemma_in_bounds();
            lemma_skip_skip(
                old(buffer).remaining(),
                1,
                buffer.consumed() - old(buffer).consumed() - 1,
            );
        }
        Ok(packet)
    }
}

impl Writeable for ClientPlayPacket {
    open spec fn wire(v: ClientPlayPacketView) -> Seq<u8> {
        seq![Self::id_of(v)] + Self::body_of(v)
    }

    open spec fn write_error(v: ClientPlayPacketView) -> Option<Error> {
        match v {
            ClientPlayPacketView::PlayerIdentification(p) => PlayerIdentification::write_error(p),
            ClientPlayPacketView::PositionAndOrientation(p) =>
                PositionAndOrientation::write_error(p),
        }
    }

    fn write(&self, buffer: &mut Vec<u8>) -> (r: Result<(), Error>) {
        let start = buffer.len();
        buffer.push(self.id());
        match self {
            ClientPlayPacket::PlayerIdentification(packet) => write_field(packet, buffer, start)?,
            ClientPlayPacket::PositionAndOrientation(packet) => write_field(packet, buffer, start)?,
        }
        Ok(())
    }
}

impl WireValue for ClientPlayPacket {
    open spec fn canonical(v: ClientPlayPacketView) -> bool {
        match v {
            ClientPlayPacketView::PlayerIdentification(p) => PlayerIdentification::canonical(p),
            ClientPlayPacketView::PositionAndOrientation(p) => PositionAndOrientation::canonical(p),
        }
    }

    proof fn lemma_canonical_writes(v: ClientPlayPacketView) {
        match v {
            ClientPlayPacketView::PlayerIdentification(p) =>
                PlayerIdentification::lemma_canonical_writes(p),
            ClientPlayPacketView::PositionAndOrientation(p) =>
                PositionAndOrientation::lemma_canonical_writes(p),
        }
    }

    proof fn lemma_round_trip(v: ClientPlayPacketView, rest: Seq<u8>) {
        let all = Self::wire(v) + rest;
        assert(all.skip(1) == Self::body_of(v) + rest);
        match v {
            ClientPlayPacketView::PlayerIdentification(p) =>
                PlayerIdentification::lemma_round_trip(p, rest),
            ClientPlayPacketView::PositionAndOrientation(p) =>
                PositionAndOrientation::lemma_round_trip(p, rest),
        }
    }

    proof fn lemma_prefix_incomplete(v: ClientPlayPacketView, k: int) {
        let cut = Self::wire(v).take(k);
        if 1 <= k < Self::wire(v).len() {
            assert(cut.skip(1) == Self::body_of(v).take(k - 1));
            match v {
                ClientPlayPacketView::PlayerIdentification(p) =>
                    PlayerIdentification::lemma_prefix_incomplete(p, k - 1),
                ClientPlayPacketView::PositionAndOrientation(p) =>
                    PositionAndOrientation::lemma_prefix_incomplete(p, k - 1),
            }
        }
    }
}

impl VariantOf<ClientPlayPacket> for PlayerIdentification {
    open spec fn spec_discriminant_id() -> u8 {
        0x00
    }

    open spec fn spec_destructure(e: ClientPlayPacket) -> Option<Self> {
        match e {
            ClientPlayPacket::PlayerIdentification(p) => Some(p),
            _ => None,
        }
    }

    fn discriminant_id() -> (id: u8) {
        0x00
    }

    fn destructure(e: ClientPlayPacket) -> (r: Option<Self>) {
        match e {
            ClientPlayPacket::PlayerIdentification(p) => Some(p),
            _ => None,
        }
    }
}

impl From<PlayerIdentification> for ClientPlayPacket {
    fn from(packet: PlayerIdentification) -> (r: Self) {
        ClientPlayPacket::PlayerIdentification(packet)
    }
}

impl vstd::std_specs::convert::FromSpecImpl<PlayerIdentification> for ClientPlayPacket {
    open spec fn obeys_from_spec() -> bool {
        true
    }

    open spec fn from_spec(packet: PlayerIdentification) -> Self {
        ClientPlayPacket::PlayerIdentification(packet)
    }
}

impl VariantOf<ClientPlayPacket> for PositionAndOrientation {
    open spec fn spec_discriminant_id() -> u8 {
        0x08
    }

    open spec fn spec_destructure(e: ClientPlayPacket) -> Option<Self> {
        match e {
            ClientPlayPacket::PositionAndOrientation(p) => Some(p),
            _ => None,
        }
    }

    fn discriminant_id() -> (id: u8) {
        0x08
    }

    fn destructure(e: ClientPlayPacket) -> (r: Option<Self>) {
        match e {
            ClientPlayPacket::PositionAndOrientation(p) => Some(p),
            _ => None,
        }
    }
}

impl From<PositionAndOrientation> for ClientPlayPacket {
    fn from(packet: PositionAndOrientation) -> (r: Self) {
        ClientPlayPacket::PositionAndOrientation(packet)
    }
}

impl vstd::std_specs::convert::FromSpecImpl<PositionAndOrientation> for ClientPlayPacket {
    open spec fn obeys_from_spec() -> bool {
        true
    }

    open spec fn from_spec(packet: PositionAndOrientation) -> Self {
        ClientPlayPacket::PositionAndOrientation(packet)
    }
}

/// What the server sends during play.
#[derive(Debug, Clone, PartialEq, Eq)]
pub enum ServerPlayPacket {
    Ping(Ping),
    Message(Message),
    SpawnPlayer(SpawnPlayer),
    PlayerTeleport(PlayerTeleport),
    SetBlock(SetBlock),
}

/// What a `ServerPlayPacket` holds.
pub ghost enum ServerPlayPacketView {
    Ping(PingView),
    Message(MessageView),
    SpawnPlayer(SpawnPlayerView),
    PlayerTeleport(PlayerTeleportView),
    SetBlock(SetBlockView),
}

impl DeepView for ServerPlayPacket {
    type V = ServerPlayPacketView;

    open spec fn deep_view(&self) -> ServerPlayPacketView {
        match self {
            ServerPlayPacket::Ping(p) => ServerPlayPacketView::Ping(p.deep_view()),
            ServerPlayPacket::Message(p) => ServerPlayPacketView::Message(p.deep_view()),
            ServerPlayPacket::SpawnPlayer(p) => ServerPlayPacketView::SpawnPlayer(p.deep_view()),
            ServerPlayPacket::PlayerTeleport(p) =>
                ServerPlayPacketView::PlayerTeleport(p.deep_view()),
            ServerPlayPacket::SetBlock(p) => ServerPlayPacketView::SetBlock(p.deep_view()),
        }
    }
}

impl ServerPlayPacket {
    /// Whether `id` is the discriminator of a packet of this union.
    pub open spec fn known_id(id: u8) -> bool {
        id == 0x01 || id == 0x0d || id == 0x07 || id == 0x08 || id == 0x06
    }

    /// The discriminator of the packet `v`.
    pub open spec fn id_of(v: ServerPlayPacketView) -> u8 {
        match v {
            ServerPlayPacketView::Ping(_) => 0x01,
            ServerPlayPacketView::Message(_) => 0x0d,
            ServerPlayPacketView::SpawnPlayer(_) => 0x07,
            ServerPlayPacketView::PlayerTeleport(_) => 0x08,
            ServerPlayPacketView::SetBlock(_) => 0x06,
        }
    }

    /// The name of the packet `v`.
    pub open spec fn name_of(v: ServerPlayPacketView) -> Seq<char> {
        match v {
            ServerPlayPacketView::Ping(_) => "Ping"@,
            ServerPlayPacketView::Message(_) => "Message"@,
            ServerPlayPacketView::SpawnPlayer(_) => "SpawnPlayer"@,
            ServerPlayPacketView::PlayerTeleport(_) => "PlayerTeleport"@,
            ServerPlayPacketView::SetBlock(_) => "SetBlock"@,
        }
    }

    /// The bytes of the packet `v` behind its discriminator.
    pub open spec fn body_of(v: ServerPlayPacketView) -> Seq<u8> {
        match v {
            ServerPlayPacketView::Ping(p) => Ping::wire(p),
            ServerPlayPacketView::Message(p) => Message::wire(p),
            ServerPlayPacketView::SpawnPlayer(p) => SpawnPlayer::wire(p),
            ServerPlayPacketView::PlayerTeleport(p) => PlayerTeleport::wire(p),
            ServerPlayPacketView::SetBlock(p) => SetBlock::wire(p),
        }
    }

    /// Returns the packet ID of this packet.
    pub fn id(&self) -> (id: u8)
        ensures
            id == Self::id_of(self.deep_view()),
            Self::known_id(id),
    {
        match self {
            ServerPlayPacket::Ping(_) => 0x01,
            ServerPlayPacket::Message(_) => 0x0d,
            ServerPlayPacket::SpawnPlayer(_) => 0x07,
            ServerPlayPacket::PlayerTeleport(_) => 0x08,
            ServerPlayPacket::SetBlock(_) => 0x06,
        }
    }

    /// Returns the name of this packet.
    pub fn name(&self) -> (name: String)
        ensures
            name@ == Self::name_of(self.deep_view()),
    {
        match self {
            ServerPlayPacket::Ping(_) => String::from_str("Ping"),
            ServerPlayPacket::Message(_) => String::from_str("Message"),
            ServerPlayPacket::SpawnPlayer(_) => String::from_str("SpawnPlayer"),
            ServerPlayPacket::PlayerTeleport(_) => String::from_str("PlayerTeleport"),
            ServerPlayPacket::SetBlock(_) => String::from_str("SetBlock"),
        }
    }

    /// A discriminator that the union does not list is refused as such,
    /// whatever follows it.
    pub proof fn lemma_unknown_id_rejected(bytes: Seq<u8>)
        requires
            bytes.len() >= 1,
            !Self::known_id(bytes[0]),
        ensures
            Self::parse(bytes) == Err::<(ServerPlayPacketView, nat), Error>(
                Error::UnknownPacketId(bytes[0]),
            ),
    {
    }
}

impl Readable for ServerPlayPacket {
    open spec fn parse(bytes: Seq<u8>) -> Result<(ServerPlayPacketView, nat), Error> {
        match u8::parse(bytes) {
            Err(e) => Err(e),
            Ok((id, n)) => {
                let rest = bytes.skip(n as int);
                if id == 0x01 {
                    match Ping::parse(rest) {
                        Ok((p, m)) => Ok((ServerPlayPacketView::Ping(p), n + m)),
                        Err(e) => Err(e),
                    }
                } else if id == 0x0d {
                    match Message::parse(rest) {
                        Ok((p, m)) => Ok((ServerPlayPacketView::Message(p), n + m)),
                        Err(e) => Err(e),
                    }
                } else if id == 0x07 {
                    match SpawnPlayer::parse(rest) {
                        Ok((p, m)) => Ok((ServerPlayPacketView::SpawnPlayer(p), n + m)),
                        Err(e) => Err(e),
                    }
                } else if id == 0x08 {
                    match PlayerTeleport::parse(rest) {
                        Ok((p, m)) => Ok((ServerPlayPacketView::PlayerTeleport(p), n + m)),
                        Err(e) => Err(e),
                    }
                } else if id == 0x06 {
                    match SetBlock::parse(rest) {
                        Ok((p, m)) => Ok((ServerPlayPacketView::SetBlock(p), n + m)),
                        Err(e) => Err(e),
                    }
                } else {
                    Err(Error::UnknownPacketId(id))
                }
            },
        }
    }

    fn read(buffer: &mut Cursor<'_>) -> (r: Result<Self, Error>) {
        let packet_id = u8::read(buffer)?;
        let packet = match packet_id {
            0x01 => ServerPlayPacket::Ping(Ping::read(buffer)?),
            0x0d => ServerPlayPacket::Message(Message::read(buffer)?),
            0x07 => ServerPlayPacket::SpawnPlayer(SpawnPlayer::read(buffer)?),
            0x08 => ServerPlayPacket::PlayerTeleport(PlayerTeleport::read(buffer)?),
            0x06 => ServerPlayPacket::SetBlock(SetBlock::read(buffer)?),
            _ => {
                return Err(Error::UnknownPacketId(packet_id));
            },
        };
        proof {
            buffer.lemma_in_bounds();
            old(buffer).lemma_in_bounds();
            lemma_skip_skip(
                old(buffer).remaining(),
                1,
                buffer.consumed() - old(buffer).consumed() - 1,
            );
        }
        Ok(packet)
    }
}

impl Writeable for ServerPlayPacket {
    open spec fn wire(v: ServerPlayPacketView) -> Seq<u8> {
        seq![Self::id_of(v)] + Self::body_of(v)
    }

    open spec fn write_error(v: ServerPlayPacketView) -> Option<Error> {
        match v {
            ServerPlayPacketView::Ping(p) => Ping::write_error(p),
            ServerPlayPacketView::Message(p) => Message::write_error(p),
            ServerPlayPacketView::SpawnPlayer(p) => SpawnPlayer::write_error(p),
            ServerPlayPacketView::PlayerTeleport(p) => PlayerTeleport::write_error(p),
            ServerPlayPacketView::SetBlock(p) => SetBlock::write_error(p),
        }
    }

    fn write(&self, buffer: &mut Vec<u8>) -> (r: Result<(), Error>) {
        let start = buffer.len();
        buffer.push(self.id());
        match self {
            ServerPlayPacket::Ping(packet) => write_field(packet, buffer, start)?,
            ServerPlayPacket::Message(packet) => write_field(packet, buffer, start)?,
            ServerPlayPacket::SpawnPlayer(packet) => write_field(packet, buffer, start)?,
            ServerPlayPacket::PlayerTeleport(packet) => write_field(packet, buffer, start)?,
            ServerPlayPacket::SetBlock(packet) => write_field(packet, buffer, start)?,
        }
        Ok(())
    }
}

impl WireValue for ServerPlayPacket {
    open spec fn canonical(v: ServerPlayPacketView) -> bool {
        match v {
            ServerPlayPacketView::Ping(p) => Ping::canonical(p),
            ServerPlayPacketView::Message(p) => Message::canonical(p),
            ServerPlayPacketView::SpawnPlayer(p) => SpawnPlayer::canonical(p),
            ServerPlayPacketView::PlayerTeleport(p) => PlayerTeleport::canonical(p),
            ServerPlayPacketView::SetBlock(p) => SetBlock::canonical(p),
        }
    }

    proof fn lemma_canonical_writes(v: ServerPlayPacketView) {
        match v {
            ServerPlayPacketView::Ping(p) => Ping::lemma_canonical_writes(p),
            ServerPlayPacketView::Message(p) => Message::lemma_canonical_writes(p),
            ServerPlayPacketView::SpawnPlayer(p) => SpawnPlayer::lemma_canonical_writes(p),
            ServerPlayPacketView::PlayerTeleport(p) => PlayerTeleport::lemma_canonical_writes(p),
            ServerPlayPacketView::SetBlock(p) => SetBlock::lemma_canonical_writes(p),
        }
    }

    proof fn lemma_round_trip(v: ServerPlayPacketView, rest: Seq<u8>) {
        let all = Self::wire(v) + rest;
        assert(all.skip(1) == Self::body_of(v) + rest);
        match v {
            ServerPlayPacketView::Ping(p) => Ping::lemma_round_trip(p, rest),
            ServerPlayPacketView::Message(p) => Message::lemma_round_trip(p, rest),
            ServerPlayPacketView::SpawnPlayer(p) => SpawnPlayer::lemma_round_trip(p, rest),
            ServerPlayPacketView::PlayerTeleport(p) => PlayerTeleport::lemma_round_trip(p, rest),
            ServerPlayPacketView::SetBlock(p) => SetBlock::lemma_round_trip(p, rest),
        }
    }

    proof fn lemma_prefix_incomplete(v: ServerPlayPacketView, k: int) {
        let cut = Self::wire(v).take(k);
        if 1 <= k < Self::wire(v).len() {
            assert(cut.skip(1) == Self::body_of(v).take(k - 1));
            match v {
                ServerPlayPacketView::Ping(p) => Ping::lemma_prefix_incomplete(p, k - 1),
                ServerPlayPacketView::Message(p) => Message::lemma_prefix_incomplete(p, k - 1),
                ServerPlayPacketView::SpawnPlayer(p) =>
                    SpawnPlayer::lemma_prefix_incomplete(p, k - 1),
                ServerPlayPacketView::PlayerTeleport(p) =>
                    PlayerTeleport::lemma_prefix_incomplete(p, k - 1),
                ServerPlayPacketView::SetBlock(p) => SetBlock::lemma_prefix_incomplete(p, k - 1),
            }
        }
    }
}

impl VariantOf<ServerPlayPacket> for Ping {
    open spec fn spec_discriminant_id() -> u8 {
        0x01
    }

    open spec fn spec_destructure(e: ServerPlayPacket) -> Option<Self> {
        match e {
            ServerPlayPacket::Ping(p) => Some(p),
            _ => None,
        }
    }

    fn discriminant_id() -> (id: u8) {
        0x01
    }

    fn destructure(e: ServerPlayPacket) -> (r: Option<Self>) {
        match e {
            ServerPlayPacket::Ping(p) => Some(p),
            _ => None,
        }
    }
}

impl From<Ping> for ServerPlayPacket {
    fn from(packet: Ping) -> (r: Self) {
        ServerPlayPacket::Ping(packet)
    }
}

impl vstd::std_specs::convert::FromSpecImpl<Ping> for ServerPlayPacket {
    open spec fn obeys_from_spec() -> bool {
        true
    }

    open spec fn from_spec(packet: Ping) -> Self {
        ServerPlayPacket::Ping(packet)
    }
}

impl VariantOf<ServerPlayPacket> for Message {
    open spec fn spec_discriminant_id() -> u8 {
        0x0d
    }

    open spec fn spec_destructure(e: ServerPlayPacket) -> Option<Self> {
        match e {
            ServerPlayPacket::Message(p) => Some(p),
            _ => None,
        }
    }

    fn discriminant_id() -> (id: u8) {
        0x0d
    }

    fn destructure(e: ServerPlayPacket) -> (r: Option<Self>) {
        match e {
            ServerPlayPacket::Message(p) => Some(p),
            _ => None,
        }
    }
}

impl From<Message> for ServerPlayPacket {
    fn from(packet: Message) -> (r: Self) {
        ServerPlayPacket::Message(packet)
    }
}

impl vstd::std_specs::convert::FromSpecImpl<Message> for ServerPlayPacket {
    open spec fn obeys_from_spec() -> bool {
        true
    }

    open spec fn from_spec(packet: Message) -> Self {
        ServerPlayPacket::Message(packet)
    }
}

impl VariantOf<ServerPlayPacket> for SpawnPlayer {
    open spec fn spec_discriminant_id() -> u8 {
        0x07
    }

    open spec fn spec_destructure(e: ServerPlayPacket) -> Option<Self> {
        match e {
            ServerPlayPacket::SpawnPlayer(p) => Some(p),
            _ => None,
        }
    }

    fn discriminant_id() -> (id: u8) {
        0x07
    }

    fn destructure(e: ServerPlayPacket) -> (r: Option<Self>) {
        match e {
            ServerPlayPacket::SpawnPlayer(p) => Some(p),
            _ => None,
        }
    }
}

impl From<SpawnPlayer> for ServerPlayPacket {
    fn from(packet: SpawnPlayer) -> (r: Self) {
        ServerPlayPacket::SpawnPlayer(packet)
    }
}

impl vstd::std_specs::convert::FromSpecImpl<SpawnPlayer> for ServerPlayPacket {
    open spec fn obeys_from_spec() -> bool {
        true
    }

    open spec fn from_spec(packet: SpawnPlayer) -> Self {
        ServerPlayPacket::SpawnPlayer(packet)
    }
}

impl VariantOf<ServerPlayPacket> for PlayerTeleport {
    open spec fn spec_discriminant_id() -> u8 {
        0x08
    }

    open spec fn spec_destructure(e: ServerPlayPacket) -> Option<Self> {
        match e {
            ServerPlayPacket::PlayerTeleport(p) => Some(p),
            _ => None,
        }
    }

    fn discriminant_id() -> (id: u8) {
        0x08
    }

    fn destructure(e: ServerPlayPacket) -> (r: Option<Self>) {
        match e {
            ServerPlayPacket::PlayerTeleport(p) => Some(p),
            _ => None,
        }
    }
}

impl From<PlayerTeleport> for ServerPlayPacket {
    fn from(packet: PlayerTeleport) -> (r: Self) {
        ServerPlayPacket::PlayerTeleport(packet)
    }
}

impl vstd::std_specs::convert::FromSpecImpl<PlayerTeleport> for ServerPlayPacket {
    open spec fn obeys_from_spec() -> bool {
        true
    }

    open spec fn from_spec(packet: PlayerTeleport) -> Self {
        ServerPlayPacket::PlayerTeleport(packet)
    }
}

impl VariantOf<ServerPlayPacket> for SetBlock {
    open spec fn spec_discriminant_id() -> u8 {
        0x06
    }

    open spec fn spec_destructure(e: ServerPlayPacket) -> Option<Self> {
        match e {
            ServerPlayPacket::SetBlock(p) => Some(p),
            _ => None,
        }
    }

    fn discriminant_id() -> (id: u8) {
        0x06
    }

    fn destructure(e: ServerPlayPacket) -> (r: Option<Self>) {
        match e {
            ServerPlayPacket::SetBlock(p) => Some(p),
            _ => None,
        }
    }
}

impl From<SetBlock> for ServerPlayPacket {
    fn from(packet: SetBlock) -> (r: Self) {
        ServerPlayPacket::SetBlock(packet)
    }
}

impl vstd::std_specs::convert::FromSpecImpl<SetBlock> for ServerPlayPacket {
    open spec fn obeys_from_spec() -> bool {
        true
    }

    open spec fn from_spec(packet: SetBlock) -> Self {
        ServerPlayPacket::SetBlock(packet)
    }
}

/// What the server sends in answer to the identification.
#[derive(Debug, Clone, PartialEq, Eq)]
pub enum ServerLoginPacket {
    ServerIdentification(ServerIdentification),
}

/// What a `ServerLoginPacket` holds.
pub ghost enum ServerLoginPacketView {
    ServerIdentification(ServerIdentificationView),
}

impl DeepView for ServerLoginPacket {
    type V = ServerLoginPacketView;

    open spec fn deep_view(&self) -> ServerLoginPacketView {
        match self {
            ServerLoginPacket::ServerIdentification(p) =>
                ServerLoginPacketView::ServerIdentification(p.deep_view()),
        }
    }
}

impl ServerLoginPacket {
    /// Whether `id` is the discriminator of a packet of this union.
    pub open spec fn known_id(id: u8) -> bool {
        id == 0x00
    }

    /// The discriminator of the packet `v`.
    pub open spec fn id_of(v: ServerLoginPacketView) -> u8 {
        match v {
            ServerLoginPacketView::ServerIdentification(_) => 0x00,
        }
    }

    /// The name of the packet `v`.
    pub open spec fn name_of(v: ServerLoginPacketView) -> Seq<char> {
        match v {
            ServerLoginPacketView::ServerIdentification(_) => "ServerIdentification"@,
        }
    }

    /// The bytes of the packet `v` behind its discriminator.
    pub open spec fn body_of(v: ServerLoginPacketView) -> Seq<u8> {
        match v {
            ServerLoginPacketView::ServerIdentification(p) => ServerIdentification::wire(p),
        }
    }

    /// Returns the packet ID of this packet.
    pub fn id(&self) -> (id: u8)
        ensures
            id == Self::id_of(self.deep_view()),
            Self::known_id(id),
    {
        match self {
            ServerLoginPacket::ServerIdentification(_) => 0x00,
        }
    }

    /// Returns the name of this packet.
    pub fn name(&self) -> (name: String)
        ensures
            name@ == Self::name_of(self.deep_view()),
    {
        match self {
            ServerLoginPacket::ServerIdentification(_) => String::from_str("ServerIdentification"),
        }
    }

    /// A discriminator that the union does not list is refused as such,
    /// whatever follows it.
    pub proof fn lemma_unknown_id_rejected(bytes: Seq<u8>)
        requires
            bytes.len() >= 1,
            !Self::known_id(bytes[0]),
        ensures
            Self::parse(bytes) == Err::<(ServerLoginPacketView, nat), Error>(
                Error::UnknownPacketId(bytes[0]),
            ),
    {
    }
}

impl Readable for ServerLoginPacket {
    open spec fn parse(bytes: Seq<u8>) -> Result<(ServerLoginPacketView, nat), Error> {
        match u8::parse(bytes) {
            Err(e) => Err(e),
            Ok((id, n)) => {
                let rest = bytes.skip(n as int);
                if id == 0x00 {
                    match ServerIdentification::parse(rest) {
                        Ok((p, m)) => Ok((ServerLoginPacketView::ServerIdentification(p), n + m)),
                        Err(e) => Err(e),
                    }
                } else {
                    Err(Error::UnknownPacketId(id))
                }
            },
        }
    }

    fn read(buffer: &mut Cursor<'_>) -> (r: Result<Self, Error>) {
        let packet_id = u8::read(buffer)?;
        let packet = match packet_id {
            0x00 => ServerLoginPacket::ServerIdentification(ServerIdentification::read(buffer)?),
            _ => {
                return Err(Error::UnknownPacketId(packet_id));
            },
        };
        proof {
            buffer.lemma_in_bounds();
            old(buffer).lemma_in_bounds();
            lemma_skip_skip(
                old(buffer).remaining(),
                1,
                buffer.consumed() - old(buffer).consumed() - 1,
            );
        }
        Ok(packet)
    }
}

impl Writeable for ServerLoginPacket {
    open spec fn wire(v: ServerLoginPacketView) -> Seq<u8> {
        seq![Self::id_of(v)] + Self::body_of(v)
    }

    open spec fn write_error(v: ServerLoginPacketView) -> Option<Error> {
        match v {
            ServerLoginPacketView::ServerIdentification(p) => ServerIdentification::write_error(p),
        }
    }

    fn write(&self, buffer: &mut Vec<u8>) -> (r: Result<(), Error>) {
        let start = buffer.len();
        buffer.push(self.id());
        match self {
            ServerLoginPacket::ServerIdentification(packet) => write_field(packet, buffer, start)?,
        }
        Ok(())
    }
}

impl WireValue for ServerLoginPacket {
    open spec fn canonical(v: ServerLoginPacketView) -> bool {
        match v {
            ServerLoginPacketView::ServerIdentification(p) => ServerIdentification::canonical(p),
        }
    }

    proof fn lemma_canonical_writes(v: ServerLoginPacketView) {
        match v {
            ServerLoginPacketView::ServerIdentification(p) =>
                ServerIdentification::lemma_canonical_writes(p),
        }
    }

    proof fn lemma_round_trip(v: ServerLoginPacketView, rest: Seq<u8>) {
        let all = Self::wire(v) + rest;
        assert(all.skip(1) == Self::body_of(v) + rest);
        match v {
            ServerLoginPacketView::ServerIdentification(p) =>
                ServerIdentification::lemma_round_trip(p, rest),
        }
    }

    proof fn lemma_prefix_incomplete(v: ServerLoginPacketView, k: int) {
        let cut = Self::wire(v).take(k);
        if 1 <= k < Self::wire(v).len() {
            assert(cut.skip(1) == Self::body_of(v).take(k - 1));
            match v {
                ServerLoginPacketView::ServerIdentification(p) =>
                    ServerIdentification::lemma_prefix_incomplete(p, k - 1),
            }
        }
    }
}

impl VariantOf<ServerLoginPacket> for ServerIdentification {
    open spec fn spec_discriminant_id() -> u8 {
        0x00
    }

    open spec fn spec_destructure(e: ServerLoginPacket) -> Option<Self> {
        match e {
            ServerLoginPacket::ServerIdentification(p) => Some(p),
        }
    }

    fn discriminant_id() -> (id: u8) {
        0x00
    }

    fn destructure(e: ServerLoginPacket) -> (r: Option<Self>) {
        match e {
            ServerLoginPacket::ServerIdentification(p) => Some(p),
        }
    }
}

impl From<ServerIdentification> for ServerLoginPacket {
    fn from(packet: ServerIdentification) -> (r: Self) {
        ServerLoginPacket::ServerIdentification(packet)
    }
}

impl vstd::std_specs::convert::FromSpecImpl<ServerIdentification> for ServerLoginPacket {
    open spec fn obeys_from_spec() -> bool {
        true
    }

    open spec fn from_spec(packet: ServerIdentification) -> Self {
        ServerLoginPacket::ServerIdentification(packet)
    }
}

/// What the server sends while it transfers the world.
#[derive(Debug, Clone, PartialEq, Eq)]
pub enum ServerWorldPacket {
    LevelInitialize(LevelInitialize),
    LevelDataChunk(LevelDataChunk),
    LevelFinalize(LevelFinalize),
}

/// What a `ServerWorldPacket` holds.
pub ghost enum ServerWorldPacketView {
    LevelInitialize(LevelInitializeView),
    LevelDataChunk(LevelDataChunkView),
    LevelFinalize(LevelFinalizeView),
}

impl DeepView for ServerWorldPacket {
    type V = ServerWorldPacketView;

    open spec fn deep_view(&self) -> ServerWorldPacketView {
        match self {
            ServerWorldPacket::LevelInitialize(p) =>
                ServerWorldPacketView::LevelInitialize(p.deep_view()),
            ServerWorldPacket::LevelDataChunk(p) =>
                ServerWorldPacketView::LevelDataChunk(p.deep_view()),
            ServerWorldPacket::LevelFinalize(p) =>
                ServerWorldPacketView::LevelFinalize(p.deep_view()),
        }
    }
}

impl ServerWorldPacket {
    /// Whether `id` is the discriminator of a packet of this union.
    pub open spec fn known_id(id: u8) -> bool {
        id == 0x02 || id == 0x03 || id == 0x04
    }

    /// The discriminator of the packet `v`.
    pub open spec fn id_of(v: ServerWorldPacketView) -> u8 {
        match v {
            ServerWorldPacketView::LevelInitialize(_) => 0x02,
            ServerWorldPacketView::LevelDataChunk(_) => 0x03,
            ServerWorldPacketView::LevelFinalize(_) => 0x04,
        }
    }

    /// The name of the packet `v`.
    pub open spec fn name_of(v: ServerWorldPacketView) -> Seq<char> {
        match v {
            ServerWorldPacketView::LevelInitialize(_) => "LevelInitialize"@,
            ServerWorldPacketView::LevelDataChunk(_) => "LevelDataChunk"@,
            ServerWorldPacketView::LevelFinalize(_) => "LevelFinalize"@,
        }
    }

    /// The bytes of the packet `v` behind its discriminator.
    pub open spec fn body_of(v: ServerWorldPacketView) -> Seq<u8> {
        match v {
            ServerWorldPacketView::LevelInitialize(p) => LevelInitialize::wire(p),
            ServerWorldPacketView::LevelDataChunk(p) => LevelDataChunk::wire(p),
            ServerWorldPacketView::LevelFinalize(p) => LevelFinalize::wire(p),
        }
    }

    /// Returns the packet ID of this packet.
    pub fn id(&self) -> (id: u8)
        ensures
            id == Self::id_of(self.deep_view()),
            Self::known_id(id),
    {
        match self {
            ServerWorldPacket::LevelInitialize(_) => 0x02,
            ServerWorldPacket::LevelDataChunk(_) => 0x03,
            ServerWorldPacket::LevelFinalize(_) => 0x04,
        }
    }

    /// Returns the name of this packet.
    pub fn name(&self) -> (name: String)
        ensures
            name@ == Self::name_of(self.deep_view()),
    {
        match self {
            ServerWorldPacket::LevelInitialize(_) => String::from_str("LevelInitialize"),
            ServerWorldPacket::LevelDataChunk(_) => String::from_str("LevelDataChunk"),
            ServerWorldPacket::LevelFinalize(_) => String::from_str("LevelFinalize"),
        }
    }

    /// A discriminator that the union does not list is refused as such,
    /// whatever follows it.
    pub proof fn lemma_unknown_id_rejected(bytes: Seq<u8>)
        requires
            bytes.len() >= 1,
            !Self::known_id(bytes[0]),
        ensures
            Self::parse(bytes) == Err::<(ServerWorldPacketView, nat), Error>(
                Error::UnknownPacketId(bytes[0]),
            ),
    {
    }
}

impl Readable for ServerWorldPacket {
    open spec fn parse(bytes: Seq<u8>) -> Result<(ServerWorldPacketView, nat), Error> {
        match u8::parse(bytes) {
            Err(e) => Err(e),
            Ok((id, n)) => {
                let rest = bytes.skip(n as int);
                if id == 0x02 {
                    match LevelInitialize::parse(rest) {
                        Ok((p, m)) => Ok((ServerWorldPacketView::LevelInitialize(p), n + m)),
                        Err(e) => Err(e),
                    }
                } else if id == 0x03 {
                    match LevelDataChunk::parse(rest) {
                        Ok((p, m)) => Ok((ServerWorldPacketView::LevelDataChunk(p), n + m)),
                        Err(e) => Err(e),
                    }
                } else if id == 0x04 {
                    match LevelFinalize::parse(rest) {
                        Ok((p, m)) => Ok((ServerWorldPacketView::LevelFinalize(p), n + m)),
                        Err(e) => Err(e),
                    }
                } else {
                    Err(Error::UnknownPacketId(id))
                }
            },
        }
    }

    fn read(buffer: &mut Cursor<'_>) -> (r: Result<Self, Error>) {
        let packet_id = u8::read(buffer)?;
        let packet = match packet_id {
            0x02 => ServerWorldPacket::LevelInitialize(LevelInitialize::read(buffer)?),
            0x03 => ServerWorldPacket::LevelDataChunk(LevelDataChunk::read(buffer)?),
            0x04 => ServerWorldPacket::LevelFinalize(LevelFinalize::read(buffer)?),
            _ => {
                return Err(Error::UnknownPacketId(packet_id));
            },
        };
        proof {
            buffer.lemma_in_bounds();
            old(buffer).lemma_in_bounds();
            lemma_skip_skip(
                old(buffer).remaining(),
                1,
                buffer.consumed() - old(buffer).consumed() - 1,
            );
        }
        Ok(packet)
    }
}

impl Writeable for ServerWorldPacket {
    open spec fn wire(v: ServerWorldPacketView) -> Seq<u8> {
        seq![Self::id_of(v)] + Self::body_of(v)
    }

    open spec fn write_error(v: ServerWorldPacketView) -> Option<Error> {
        match v {
            ServerWorldPacketView::LevelInitialize(p) => LevelInitialize::write_error(p),
            ServerWorldPacketView::LevelDataChunk(p) => LevelDataChunk::write_error(p),
            ServerWorldPacketView::LevelFinalize(p) => LevelFinalize::write_error(p),
        }
    }

    fn write(&self, buffer: &mut Vec<u8>) -> (r: Result<(), Error>) {
        let start = buffer.len();
        buffer.push(self.id());
        match self {
            ServerWorldPacket::LevelInitialize(packet) => write_field(packet, buffer, start)?,
            ServerWorldPacket::LevelDataChunk(packet) => write_field(packet, buffer, start)?,
            ServerWorldPacket::LevelFinalize(packet) => write_field(packet, buffer, start)?,
        }
        Ok(())
    }
}

impl WireValue for ServerWorldPacket {
    open spec fn canonical(v: ServerWorldPacketView) -> bool {
        match v {
            ServerWorldPacketView::LevelInitialize(p) => LevelInitialize::canonical(p),
            ServerWorldPacketView::LevelDataChunk(p) => LevelDataChunk::canonical(p),
            ServerWorldPacketView::LevelFinalize(p) => LevelFinalize::canonical(p),
        }
    }

    proof fn lemma_canonical_writes(v: ServerWorldPacketView) {
        match v {
            ServerWorldPacketView::LevelInitialize(p) => LevelInitialize::lemma_canonical_writes(p),
            ServerWorldPacketView::LevelDataChunk(p) => LevelDataChunk::lemma_canonical_writes(p),
            ServerWorldPacketView::LevelFinalize(p) => LevelFinalize::lemma_canonical_writes(p),
        }
    }

    proof fn lemma_round_trip(v: ServerWorldPacketView, rest: Seq<u8>) {
        let all = Self::wire(v) + rest;
        assert(all.skip(1) == Self::body_of(v) + rest);
        match v {
            ServerWorldPacketView::LevelInitialize(p) => LevelInitialize::lemma_round_trip(p, rest),
            ServerWorldPacketView::LevelDataChunk(p) => LevelDataChunk::lemma_round_trip(p, rest),
            ServerWorldPacketView::LevelFinalize(p) => LevelFinalize::lemma_round_trip(p, rest),
        }
    }

    proof fn lemma_prefix_incomplete(v: ServerWorldPacketView, k: int) {
        let cut = Self::wire(v).take(k);
        if 1 <= k < Self::wire(v).len() {
            assert(cut.skip(1) == Self::body_of(v).take(k - 1));
            match v {
                ServerWorldPacketView::LevelInitialize(p) =>
                    LevelInitialize::lemma_prefix_incomplete(p, k - 1),
                ServerWorldPacketView::LevelDataChunk(p) =>
                    LevelDataChunk::lemma_prefix_incomplete(p, k - 1),
                ServerWorldPacketView::LevelFinalize(p) =>
                    LevelFinalize::lemma_prefix_incomplete(p, k - 1),
            }
        }
    }
}

impl VariantOf<ServerWorldPacket> for LevelInitialize {
    open spec fn spec_discriminant_id() -> u8 {
        0x02
    }

    open spec fn spec_destructure(e: ServerWorldPacket) -> Option<Self> {
        match e {
            ServerWorldPacket::LevelInitialize(p) => Some(p),
            _ => None,
        }
    }

    fn discriminant_id() -> (id: u8) {
        0x02
    }

    fn destructure(e: ServerWorldPacket) -> (r: Option<Self>) {
        match e {
            ServerWorldPacket::LevelInitialize(p) => Some(p),
            _ => None,
        }
    }
}

impl From<LevelInitialize> for ServerWorldPacket {
    fn from(packet: LevelInitialize) -> (r: Self) {
        ServerWorldPacket::LevelInitialize(packet)
    }
}

impl vstd::std_specs::convert::FromSpecImpl<LevelInitialize> for ServerWorldPacket {
    open spec fn obeys_from_spec() -> bool {
        true
    }

    open spec fn from_spec(packet: LevelInitialize) -> Self {
        ServerWorldPacket::LevelInitialize(packet)
    }
}

impl VariantOf<ServerWorldPacket> for LevelDataChunk {
    open spec fn spec_discriminant_id() -> u8 {
        0x03
    }

    open spec fn spec_destructure(e: ServerWorldPacket) -> Option<Self> {
        match e {
            ServerWorldPacket::LevelDataChunk(p) => Some(p),
            _ => None,
        }
    }

    fn discriminant_id() -> (id: u8) {
        0x03
    }

    fn destructure(e: ServerWorldPacket) -> (r: Option<Self>) {
        match e {
            ServerWorldPacket::LevelDataChunk(p) => Some(p),
            _ => None,
        }
    }
}

impl From<LevelDataChunk> for ServerWorldPacket {
    fn from(packet: LevelDataChunk) -> (r: Self) {
        ServerWorldPacket::LevelDataChunk(packet)
    }
}

impl vstd::std_specs::convert::FromSpecImpl<LevelDataChunk> for ServerWorldPacket {
    open spec fn obeys_from_spec() -> bool {
        true
    }

    open spec fn from_spec(packet: LevelDataChunk) -> Self {
        ServerWorldPacket::LevelDataChunk(packet)
    }
}

impl VariantOf<ServerWorldPacket> for LevelFinalize {
    open spec fn spec_discriminant_id() -> u8 {
        0x04
    }

    open spec fn spec_destructure(e: ServerWorldPacket) -> Option<Self> {
        match e {
            ServerWorldPacket::LevelFinalize(p) => Some(p),
            _ => None,
        }
    }

    fn discriminant_id() -> (id: u8) {
        0x04
    }

    fn destructure(e: ServerWorldPacket) -> (r: Option<Self>) {
        match e {
            ServerWorldPacket::LevelFinalize(p) => Some(p),
            _ => None,
        }
    }
}

impl From<LevelFinalize> for ServerWorldPacket {
    fn from(packet: LevelFinalize) -> (r: Self) {
        ServerWorldPacket::LevelFinalize(packet)
    }
}

impl vstd::std_specs::convert::FromSpecImpl<LevelFinalize> for ServerWorldPacket {
    open spec fn obeys_from_spec() -> bool {
        true
    }

    open spec fn from_spec(packet: LevelFinalize) -> Self {
        ServerWorldPacket::LevelFinalize(packet)
    }
}

} // verus!
