use cube_protocol::client::handshake::identification;
use cube_protocol::client::packet::{
    ClientPlayPacket, LevelDataChunk, LevelFinalize, LevelInitialize, Message, Ping,
    PlayerIdentification, PlayerTeleport, PositionAndOrientation, ServerIdentification,
    ServerLoginPacket, ServerPlayPacket, ServerWorldPacket, SetBlock, SpawnPlayer,
};
use cube_protocol::client::position_update;
use cube_protocol::io::sequence::ByteArray;
use cube_protocol::io::{Cursor, Error, Readable, Writeable};
use cube_protocol::packets::VariantOf;

fn wire_of<W: Writeable>(value: &W) -> Vec<u8> {
    let mut buffer = Vec::new();
    value.write(&mut buffer).unwrap();
    buffer
}

fn decode<R: Readable>(bytes: &[u8]) -> Result<(R, usize), Error> {
    let mut cursor = Cursor::new(bytes);
    let value = R::read(&mut cursor)?;
    Ok((value, cursor.position()))
}

fn padded(text: &str) -> Vec<u8> {
    let mut bytes = text.as_bytes().to_vec();
    bytes.resize(64, b' ');
    bytes
}

fn sample_chunk() -> LevelDataChunk {
    let mut data = [0u8; 1024];
    for (i, byte) in data.iter_mut().enumerate() {
        *byte = (i * 7 % 256) as u8;
    }
    LevelDataChunk { chunk_length: 1000, chunk_data: ByteArray(data), percent_complete: 42 }
}

#[test]
fn end_to_end_identification() {
    let packet = identification(String::from("Exo"));
    let bytes = wire_of(&packet);
    let mut expected = vec![0x00, 23];
    expected.extend_from_slice(b"Exo");
    expected.extend(std::iter::repeat(b' ').take(61));
    expected.extend(std::iter::repeat(b' ').take(64));
    expected.push(0x00);
    assert_eq!(bytes, expected);
    assert_eq!(bytes.len(), 1 + 1 + 64 + 64 + 1);

    let mut answer = vec![0x00, 7];
    answer.extend(padded("A server"));
    answer.extend(padded("Welcome!"));
    answer.push(0x64);
    let (login, used) = decode::<ServerLoginPacket>(&answer).unwrap();
    assert_eq!(used, answer.len());
    assert_eq!(
        login,
        ServerLoginPacket::ServerIdentification(ServerIdentification {
            protocol_version: 7,
            server_name: String::from("A server"),
            server_motd: String::from("Welcome!"),
            user_type: 0x64,
        })
    );
}

#[test]
fn identification_fields() {
    match identification(String::from("Steve")) {
        ClientPlayPacket::PlayerIdentification(p) => {
            assert_eq!(p.protocol_version, 23);
            assert_eq!(p.username, "Steve");
            assert_eq!(p.verification_key, "");
            assert_eq!(p.unused, 0);
        },
        other => panic!("unexpected packet {:?}", other),
    }
}

#[test]
fn fixed_point_position_update() {
    let (x, y, z) = (1.0f32, 2.0f32, 3.0f32);
    let packet = position_update(
        ((x * 2.) * 32.) as i16,
        ((y * 2.) * 32.) as i16,
        ((z * 2.) * 32.) as i16,
        0,
        0,
    );
    assert_eq!(
        packet,
        ClientPlayPacket::PositionAndOrientation(PositionAndOrientation {
            player_id: 255,
            x: 64,
            y: 128,
            z: 192,
            yaw: 0,
            pitch: 0,
        })
    );
    assert_eq!(wire_of(&packet), vec![0x08, 255, 0, 64, 0, 128, 0, 192, 0, 0]);
}

#[test]
fn position_and_orientation_layout() {
    let packet = ClientPlayPacket::PositionAndOrientation(PositionAndOrientation {
        player_id: 1,
        x: -1,
        y: 0x0102,
        z: i16::MIN,
        yaw: 3,
        pitch: 4,
    });
    assert_eq!(wire_of(&packet), vec![0x08, 1, 0xff, 0xff, 1, 2, 0x80, 0, 3, 4]);
}

#[test]
fn server_play_packets_layout() {
    assert_eq!(wire_of(&ServerPlayPacket::Ping(Ping {})), vec![0x01]);
    let message =
        ServerPlayPacket::Message(Message { player_id: -1, message: String::from("hi") });
    let mut expected = vec![0x0d, 0xff];
    expected.extend(padded("hi"));
    assert_eq!(wire_of(&message), expected);
    let teleport = ServerPlayPacket::PlayerTeleport(PlayerTeleport {
        player_id: -1,
        x: 32,
        y: 64,
        z: -32,
        yaw: -128,
        pitch: 127,
    });
    assert_eq!(wire_of(&teleport), vec![0x08, 0xff, 0, 32, 0, 64, 0xff, 0xe0, 0x80, 0x7f]);
    let set_block = ServerPlayPacket::SetBlock(SetBlock { x: 1, y: 2, z: 3, block_type: 49 });
    assert_eq!(wire_of(&set_block), vec![0x06, 0, 1, 0, 2, 0, 3, 49]);
    let spawn = ServerPlayPacket::SpawnPlayer(SpawnPlayer {
        player_id: 5,
        player_name: String::from("Alex"),
        x: 1,
        y: 2,
        z: 3,
        yaw: 4,
        pitch: 5,
    });
    let mut expected = vec![0x07, 5];
    expected.extend(padded("Alex"));
    expected.extend([0, 1, 0, 2, 0, 3, 4, 5]);
    assert_eq!(wire_of(&spawn), expected);
}

#[test]
fn world_packets_layout() {
    assert_eq!(wire_of(&ServerWorldPacket::LevelInitialize(LevelInitialize {})), vec![0x02]);
    let finalize =
        ServerWorldPacket::LevelFinalize(LevelFinalize { x_size: 256, y_size: 64, z_size: 128 });
    assert_eq!(wire_of(&finalize), vec![0x04, 1, 0, 0, 64, 0, 128]);
    let chunk = sample_chunk();
    let bytes = wire_of(&ServerWorldPacket::LevelDataChunk(chunk.clone()));
    assert_eq!(bytes.len(), 1 + 2 + 1024 + 1);
    assert_eq!(&bytes[..3], &[0x03, 0x03, 0xe8]);
    assert_eq!(&bytes[3..1027], &chunk.chunk_data.0[..]);
    assert_eq!(bytes[1027], 42);
}

#[test]
fn client_play_packets_round_trip() {
    let packets = vec![
        identification(String::from("Exo")),
        position_update(64, 128, 192, 10, 20),
        ClientPlayPacket::PlayerIdentification(PlayerIdentification {
            protocol_version: 7,
            username: "u".repeat(64),
            verification_key: String::from("key with spaces inside"),
            unused: 0x42,
        }),
    ];
    for packet in packets {
        let bytes = wire_of(&packet);
        assert_eq!(decode::<ClientPlayPacket>(&bytes), Ok((packet, bytes.len())));
    }
}

#[test]
fn server_play_packets_round_trip() {
    let packets = vec![
        ServerPlayPacket::Ping(Ping {}),
        ServerPlayPacket::Message(Message { player_id: 3, message: String::from("héllo wörld") }),
        ServerPlayPacket::SpawnPlayer(SpawnPlayer {
            player_id: -5,
            player_name: String::from("Alex"),
            x: -1,
            y: i16::MAX,
            z: i16::MIN,
            yaw: -1,
            pitch: 90,
        }),
        ServerPlayPacket::PlayerTeleport(PlayerTeleport {
            player_id: -1,
            x: 100,
            y: 200,
            z: 300,
            yaw: 0,
            pitch: -90,
        }),
        ServerPlayPacket::SetBlock(SetBlock { x: 5, y: 6, z: 7, block_type: 255 }),
    ];
    for packet in packets {
        let mut bytes = wire_of(&packet);
        let length = bytes.len();
        bytes.extend([0xde, 0xad]);
        assert_eq!(decode::<ServerPlayPacket>(&bytes), Ok((packet, length)));
    }
}

#[test]
fn login_and_world_packets_round_trip() {
    let login = ServerLoginPacket::ServerIdentification(ServerIdentification {
        protocol_version: 7,
        server_name: String::from("name"),
        server_motd: String::new(),
        user_type: 0,
    });
    let bytes = wire_of(&login);
    assert_eq!(bytes.len(), 131);
    assert_eq!(decode::<ServerLoginPacket>(&bytes), Ok((login, 131)));
    let packets = vec![
        ServerWorldPacket::LevelInitialize(LevelInitialize {}),
        ServerWorldPacket::LevelDataChunk(sample_chunk()),
        ServerWorldPacket::LevelFinalize(LevelFinalize { x_size: 1, y_size: -2, z_size: 3 }),
    ];
    for packet in packets {
        let bytes = wire_of(&packet);
        assert_eq!(decode::<ServerWorldPacket>(&bytes), Ok((packet, bytes.len())));
    }
}

#[test]
fn unknown_discriminator_rejection() {
    assert_eq!(decode::<ServerPlayPacket>(&[0x02, 1, 2, 3]).err(), Some(Error::UnknownPacketId(2)));
    assert_eq!(decode::<ServerPlayPacket>(&[0xff]).err(), Some(Error::UnknownPacketId(0xff)));
    assert_eq!(decode::<ServerPlayPacket>(&[0x00]).err(), Some(Error::UnknownPacketId(0)));
    assert_eq!(decode::<ClientPlayPacket>(&[0x01]).err(), Some(Error::UnknownPacketId(1)));
    assert_eq!(decode::<ServerLoginPacket>(&[0x01]).err(), Some(Error::UnknownPacketId(1)));
    assert_eq!(decode::<ServerWorldPacket>(&[0x05]).err(), Some(Error::UnknownPacketId(5)));
    assert_eq!(decode::<ServerWorldPacket>(&[0x01]).err(), Some(Error::UnknownPacketId(1)));
    assert_eq!(decode::<ServerPlayPacket>(&[]).err(), Some(Error::UnexpectedEof));
}

#[test]
fn every_listed_discriminator_is_known() {
    for id in [0x01u8, 0x0d, 0x07, 0x08, 0x06] {
        assert_ne!(decode::<ServerPlayPacket>(&[id]).err(), Some(Error::UnknownPacketId(id)));
    }
    for id in 0..=255u8 {
        let listed = [0x01u8, 0x0d, 0x07, 0x08, 0x06].contains(&id);
        let known = decode::<ServerPlayPacket>(&[id]).err() != Some(Error::UnknownPacketId(id));
        assert_eq!(listed, known);
    }
}

#[test]
fn truncated_packets_ask_for_more() {
    let packet = ServerPlayPacket::Message(Message { player_id: 1, message: String::from("m") });
    let bytes = wire_of(&packet);
    for cut in 0..bytes.len() {
        assert_eq!(decode::<ServerPlayPacket>(&bytes[..cut]).err(), Some(Error::UnexpectedEof));
    }
}

#[test]
fn a_packet_with_a_long_string_is_refused_whole() {
    let packet = ServerPlayPacket::SpawnPlayer(SpawnPlayer {
        player_id: 1,
        player_name: "n".repeat(65),
        x: 0,
        y: 0,
        z: 0,
        yaw: 0,
        pitch: 0,
    });
    let mut buffer = vec![0xaa, 0xbb];
    assert_eq!(packet.write(&mut buffer), Err(Error::StringTooLong));
    assert_eq!(buffer, vec![0xaa, 0xbb]);
    let packet = identification("n".repeat(65));
    assert_eq!(packet.write(&mut buffer), Err(Error::StringTooLong));
    assert_eq!(buffer, vec![0xaa, 0xbb]);
}

#[test]
fn an_invalid_string_in_a_packet_is_an_error() {
    let mut bytes = vec![0x0d, 1];
    let mut text = padded("abc");
    text[1] = 0x80;
    bytes.extend(text);
    assert_eq!(decode::<ServerPlayPacket>(&bytes).err(), Some(Error::InvalidUtf8));
}

#[test]
fn ids_and_names() {
    assert_eq!(identification(String::new()).id(), 0x00);
    assert_eq!(identification(String::new()).name(), "PlayerIdentification");
    assert_eq!(position_update(0, 0, 0, 0, 0).id(), 0x08);
    assert_eq!(position_update(0, 0, 0, 0, 0).name(), "PositionAndOrientation");
    assert_eq!(ServerPlayPacket::Ping(Ping {}).id(), 0x01);
    assert_eq!(ServerPlayPacket::Ping(Ping {}).name(), "Ping");
    let message = ServerPlayPacket::Message(Message { player_id: 0, message: String::new() });
    assert_eq!(message.id(), 0x0d);
    assert_eq!(message.name(), "Message");
    let set_block = ServerPlayPacket::SetBlock(SetBlock { x: 0, y: 0, z: 0, block_type: 0 });
    assert_eq!(set_block.id(), 0x06);
    assert_eq!(set_block.name(), "SetBlock");
    let initialize = ServerWorldPacket::LevelInitialize(LevelInitialize {});
    assert_eq!(initialize.id(), 0x02);
    assert_eq!(initialize.name(), "LevelInitialize");
    let finalize =
        ServerWorldPacket::LevelFinalize(LevelFinalize { x_size: 0, y_size: 0, z_size: 0 });
    assert_eq!(finalize.id(), 0x04);
    assert_eq!(finalize.name(), "LevelFinalize");
    assert_eq!(ServerWorldPacket::LevelDataChunk(sample_chunk()).id(), 0x03);
}

#[test]
fn variants_and_their_unions() {
    assert_eq!(<Ping as VariantOf<ServerPlayPacket>>::discriminant_id(), 0x01);
    assert_eq!(<Message as VariantOf<ServerPlayPacket>>::discriminant_id(), 0x0d);
    assert_eq!(<SpawnPlayer as VariantOf<ServerPlayPacket>>::discriminant_id(), 0x07);
    assert_eq!(<PlayerTeleport as VariantOf<ServerPlayPacket>>::discriminant_id(), 0x08);
    assert_eq!(<SetBlock as VariantOf<ServerPlayPacket>>::discriminant_id(), 0x06);
    assert_eq!(<PlayerIdentification as VariantOf<ClientPlayPacket>>::discriminant_id(), 0x00);
    assert_eq!(<PositionAndOrientation as VariantOf<ClientPlayPacket>>::discriminant_id(), 0x08);
    assert_eq!(<ServerIdentification as VariantOf<ServerLoginPacket>>::discriminant_id(), 0x00);
    assert_eq!(<LevelInitialize as VariantOf<ServerWorldPacket>>::discriminant_id(), 0x02);
    assert_eq!(<LevelDataChunk as VariantOf<ServerWorldPacket>>::discriminant_id(), 0x03);
    assert_eq!(<LevelFinalize as VariantOf<ServerWorldPacket>>::discriminant_id(), 0x04);

    let set_block = SetBlock { x: 1, y: 2, z: 3, block_type: 4 };
    let packet = ServerPlayPacket::from(set_block.clone());
    assert_eq!(packet, ServerPlayPacket::SetBlock(set_block.clone()));
    assert_eq!(SetBlock::destructure(packet.clone()), Some(set_block));
    assert_eq!(Ping::destructure(packet), None);
    let ping: ServerPlayPacket = Ping {}.into();
    assert_eq!(Ping::destructure(ping), Some(Ping {}));
}
