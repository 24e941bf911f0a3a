use cube_protocol::client::handle::{handle_packet, PacketEffect, LOCAL_PLAYER_ID, UNITS_PER_BLOCK};
use cube_protocol::client::handshake::{
    finish, HandshakeError, ServerDataPackage, WorldTransfer, PROTOCOL_VERSION,
};
use cube_protocol::client::packet::{
    LevelDataChunk, LevelFinalize, LevelInitialize, Message, Ping, PlayerTeleport,
    ServerIdentification, ServerLoginPacket, ServerPlayPacket, ServerWorldPacket, SetBlock,
    SpawnPlayer,
};
use cube_protocol::io::sequence::ByteArray;
use cube_protocol::world::World;
use flate2::write::GzEncoder;
use flate2::Compression;
use std::io::Write;

fn gzip(data: &[u8]) -> Vec<u8> {
    let mut encoder = GzEncoder::new(Vec::new(), Compression::default());
    encoder.write_all(data).unwrap();
    encoder.finish().unwrap()
}

fn login() -> ServerLoginPacket {
    ServerLoginPacket::ServerIdentification(ServerIdentification {
        protocol_version: 7,
        server_name: String::from("server"),
        server_motd: String::from("motd"),
        user_type: 0,
    })
}

fn chunk(payload: &[u8], percent: u8) -> ServerWorldPacket {
    let mut data = [0xeeu8; 1024];
    data[..payload.len()].copy_from_slice(payload);
    ServerWorldPacket::LevelDataChunk(LevelDataChunk {
        chunk_length: payload.len() as i16,
        chunk_data: ByteArray(data),
        percent_complete: percent,
    })
}

fn level(width: usize, height: usize, length: usize) -> Vec<u8> {
    let size = width * height * length;
    let mut data = (size as u32).to_be_bytes().to_vec();
    data.extend((0..size).map(|i| (i % 50) as u8));
    data
}

fn world_of(result: Result<Option<ServerDataPackage>, HandshakeError>) -> World {
    match result {
        Ok(Some(package)) => package.world,
        Ok(None) => panic!("the transfer has not ended"),
        Err(e) => panic!("the transfer failed: {:?}", e),
    }
}

#[test]
fn a_world_arrives_in_chunks() {
    let data = level(16, 4, 8);
    let compressed = gzip(&data);
    assert_ne!(compressed, data);
    let mut transfer = WorldTransfer::begin(&login());
    assert!(matches!(
        transfer.receive(ServerWorldPacket::LevelInitialize(LevelInitialize {})),
        Ok(None)
    ));
    let pieces: Vec<&[u8]> = compressed.chunks(100).collect();
    for (i, piece) in pieces.iter().enumerate() {
        let percent = (i * 100 / pieces.len()) as u8;
        assert!(matches!(transfer.receive(chunk(piece, percent)), Ok(None)));
    }
    let world = world_of(transfer.receive(ServerWorldPacket::LevelFinalize(LevelFinalize {
        x_size: 16,
        y_size: 4,
        z_size: 8,
    })));
    assert_eq!(world.data, data);
    assert_eq!(world.width(), 16);
    assert_eq!(world.height(), 4);
    assert_eq!(world.length(), 8);
    assert_eq!(&world.data[..4], &[0, 0, 2, 0]);
}

#[test]
fn only_the_declared_part_of_a_chunk_counts() {
    let data = level(2, 2, 2);
    let compressed = gzip(&data);
    let (head, tail) = compressed.split_at(compressed.len() / 2);
    let mut transfer = WorldTransfer::begin(&login());
    assert!(matches!(transfer.receive(chunk(head, 10)), Ok(None)));
    assert!(matches!(transfer.receive(chunk(&[], 50)), Ok(None)));
    assert!(matches!(transfer.receive(chunk(tail, 90)), Ok(None)));
    let world = world_of(transfer.receive(ServerWorldPacket::LevelFinalize(LevelFinalize {
        x_size: 2,
        y_size: 2,
        z_size: 2,
    })));
    assert_eq!(world.data, data);
}

#[test]
fn a_full_chunk_counts_whole() {
    let data: Vec<u8> = (0..200_000u32).map(|i| (i.wrapping_mul(2654435761) >> 24) as u8).collect();
    let compressed = gzip(&data);
    assert!(compressed.len() > 2048);
    let mut transfer = WorldTransfer::begin(&login());
    for piece in compressed.chunks(1024) {
        assert!(matches!(transfer.receive(chunk(piece, 0)), Ok(None)));
    }
    let world = world_of(transfer.receive(ServerWorldPacket::LevelFinalize(LevelFinalize {
        x_size: 1,
        y_size: 1,
        z_size: 1,
    })));
    assert_eq!(world.data, data);
}

#[test]
fn a_chunk_length_out_of_range_fails_the_transfer() {
    for bad in [-1i16, 1025, i16::MIN, i16::MAX] {
        let mut transfer = WorldTransfer::begin(&login());
        let packet = ServerWorldPacket::LevelDataChunk(LevelDataChunk {
            chunk_length: bad,
            chunk_data: ByteArray([0; 1024]),
            percent_complete: 0,
        });
        assert!(matches!(transfer.receive(packet), Err(HandshakeError::ChunkLength(l)) if l == bad));
    }
}

#[test]
fn what_is_no_gzip_stream_fails_the_transfer() {
    let mut transfer = WorldTransfer::begin(&login());
    assert!(matches!(transfer.receive(chunk(b"this is not gzip", 100)), Ok(None)));
    let end = ServerWorldPacket::LevelFinalize(LevelFinalize { x_size: 1, y_size: 1, z_size: 1 });
    assert!(matches!(transfer.receive(end), Err(HandshakeError::Inflate)));

    let mut transfer = WorldTransfer::begin(&login());
    let end = ServerWorldPacket::LevelFinalize(LevelFinalize { x_size: 1, y_size: 1, z_size: 1 });
    assert!(matches!(transfer.receive(end), Err(HandshakeError::Inflate)));

    let compressed = gzip(&level(4, 4, 4));
    let mut transfer = WorldTransfer::begin(&login());
    assert!(matches!(transfer.receive(chunk(&compressed[..compressed.len() - 6], 100)), Ok(None)));
    let end = ServerWorldPacket::LevelFinalize(LevelFinalize { x_size: 4, y_size: 4, z_size: 4 });
    assert!(matches!(transfer.receive(end), Err(HandshakeError::Inflate)));
}

#[test]
fn finish_builds_the_world_or_fails() {
    let package = finish(Some(vec![0, 0, 0, 1, 9]), 1, 1, 1).unwrap();
    assert_eq!(package.world.data, vec![0, 0, 0, 1, 9]);
    assert_eq!(package.world.width(), 1);
    assert!(matches!(finish(None, 1, 1, 1), Err(HandshakeError::Inflate)));
    let package = finish(Some(vec![]), -1, 2, 3).unwrap();
    assert_eq!(package.world.width(), usize::MAX);
    assert_eq!(package.world.height(), 2);
    assert_eq!(package.world.length(), 3);
    let package = ServerDataPackage::new(World::from_data(vec![1, 2], 3, 4, 5));
    assert_eq!(package.world.data, vec![1, 2]);
    assert_eq!(PROTOCOL_VERSION, 23);
}

#[test]
fn packets_and_their_effects() {
    assert!(matches!(handle_packet(ServerPlayPacket::Ping(Ping {})), PacketEffect::Nothing));
    let spawn = ServerPlayPacket::SpawnPlayer(SpawnPlayer {
        player_id: -1,
        player_name: String::from("me"),
        x: 1,
        y: 2,
        z: 3,
        yaw: 0,
        pitch: 0,
    });
    assert!(matches!(handle_packet(spawn), PacketEffect::Nothing));
    let message = ServerPlayPacket::Message(Message { player_id: 2, message: String::from("hi") });
    assert!(matches!(handle_packet(message), PacketEffect::ShowMessage(text) if text == "hi"));
    let own = ServerPlayPacket::PlayerTeleport(PlayerTeleport {
        player_id: -1,
        x: 32,
        y: -64,
        z: 96,
        yaw: 1,
        pitch: 2,
    });
    assert!(matches!(handle_packet(own), PacketEffect::MoveCamera { x: 32, y: -64, z: 96 }));
    let other = ServerPlayPacket::PlayerTeleport(PlayerTeleport {
        player_id: 0,
        x: 32,
        y: 64,
        z: 96,
        yaw: 1,
        pitch: 2,
    });
    assert!(matches!(handle_packet(other), PacketEffect::Nothing));
    let set = ServerPlayPacket::SetBlock(SetBlock { x: 3, y: -1, z: 5, block_type: 49 });
    match handle_packet(set) {
        PacketEffect::SetBlock(block) => {
            assert_eq!(block.id, 49);
            assert_eq!(
                (block.position.x, block.position.y, block.position.z),
                (3, -1, 5)
            );
        },
        _ => panic!("a block change must put a block"),
    }
    assert_eq!(LOCAL_PLAYER_ID, -1);
    assert_eq!(UNITS_PER_BLOCK, 32);
    assert_eq!(32.0f32 / UNITS_PER_BLOCK as f32, 1.0);
}
