use cube_protocol::client::packet::{
    ClientPlayPacket, Message, Ping, PlayerTeleport, ServerPlayPacket, SetBlock, SpawnPlayer,
};
use cube_protocol::client::position_update;
use cube_protocol::client::worker::{
    disconnected_message, Reader, WorkerError, Writer, READ_BUFFER_LENGTH,
    READ_TIMEOUT_SECONDS, RECEIVED_PACKETS_BOUND,
};
use cube_protocol::codec::Codec;
use cube_protocol::io::{Error, Writeable};

fn sample_packets() -> Vec<ServerPlayPacket> {
    vec![
        ServerPlayPacket::Message(Message { player_id: 1, message: String::from("first") }),
        ServerPlayPacket::Ping(Ping {}),
        ServerPlayPacket::SetBlock(SetBlock { x: 1, y: 2, z: 3, block_type: 4 }),
        ServerPlayPacket::Ping(Ping {}),
        ServerPlayPacket::PlayerTeleport(PlayerTeleport {
            player_id: -1,
            x: 64,
            y: 128,
            z: 192,
            yaw: 1,
            pitch: 2,
        }),
        ServerPlayPacket::SpawnPlayer(SpawnPlayer {
            player_id: 9,
            player_name: String::from("last"),
            x: 0,
            y: 0,
            z: 0,
            yaw: 0,
            pitch: 0,
        }),
    ]
}

fn stream_of(packets: &[ServerPlayPacket]) -> Vec<u8> {
    let mut codec = Codec::new();
    let mut stream = Vec::new();
    for packet in packets {
        codec.encode(packet, &mut stream).unwrap();
    }
    stream
}

fn drain(codec: &mut Codec, into: &mut Vec<ServerPlayPacket>) {
    while let Some(packet) = codec.next_packet::<ServerPlayPacket>().unwrap() {
        into.push(packet);
    }
}

#[test]
fn encode_appends_the_wire_form() {
    let mut codec = Codec::new();
    let mut output = vec![0xee];
    let packet = position_update(1, 2, 3, 4, 5);
    codec.encode(&packet, &mut output).unwrap();
    assert_eq!(output, vec![0xee, 0x08, 255, 0, 1, 0, 2, 0, 3, 4, 5]);
    codec.encode(&packet, &mut output).unwrap();
    assert_eq!(output.len(), 1 + 2 * 10);
    assert_eq!(&output[11..], &[0x08, 255, 0, 1, 0, 2, 0, 3, 4, 5]);
    assert_eq!(codec.received_len(), 0);
}

#[test]
fn a_failed_encode_leaves_output_and_later_packets_clean() {
    let mut codec = Codec::new();
    let mut output = vec![1u8, 2, 3];
    let bad = ServerPlayPacket::Message(Message { player_id: 1, message: "m".repeat(70) });
    assert_eq!(codec.encode(&bad, &mut output), Err(Error::StringTooLong));
    assert_eq!(output, vec![1, 2, 3]);
    codec.encode(&ServerPlayPacket::Ping(Ping {}), &mut output).unwrap();
    assert_eq!(output, vec![1, 2, 3, 0x01]);
}

#[test]
fn accept_only_takes_bytes_in() {
    let mut codec = Codec::new();
    assert_eq!(codec.received_len(), 0);
    codec.accept(&[0x0d, 1, 2]);
    assert_eq!(codec.received_len(), 3);
    codec.accept(&[]);
    assert_eq!(codec.received_len(), 3);
    codec.accept(&[4, 5]);
    assert_eq!(codec.received_len(), 5);
    assert_eq!(codec.clone_with_settings().received_len(), 0);
}

#[test]
fn next_packet_removes_exactly_the_packet() {
    let packets = sample_packets();
    let mut stream = stream_of(&packets[..1]);
    let first_length = stream.len();
    stream.extend([0x06, 0, 1]);
    let mut codec = Codec::new();
    codec.accept(&stream);
    assert_eq!(codec.next_packet::<ServerPlayPacket>(), Ok(Some(packets[0].clone())));
    assert_eq!(codec.received_len(), stream.len() - first_length);
    assert_eq!(codec.next_packet::<ServerPlayPacket>(), Ok(None));
    assert_eq!(codec.received_len(), 3);
    codec.accept(&[0, 2, 0, 3, 4]);
    assert_eq!(codec.next_packet::<ServerPlayPacket>(), Ok(Some(packets[2].clone())));
    assert_eq!(codec.received_len(), 0);
    assert_eq!(codec.next_packet::<ServerPlayPacket>(), Ok(None));
}

#[test]
fn partial_frame_stability() {
    let packets = sample_packets();
    for packet in &packets {
        let bytes = stream_of(std::slice::from_ref(packet));
        for size in 1..=bytes.len() {
            let mut codec = Codec::new();
            let mut delivered = Vec::new();
            let mut fed = 0;
            for chunk in bytes.chunks(size) {
                codec.accept(chunk);
                fed += chunk.len();
                drain(&mut codec, &mut delivered);
                if fed < bytes.len() {
                    assert!(delivered.is_empty());
                    assert_eq!(codec.received_len(), fed);
                }
            }
            assert_eq!(delivered, vec![packet.clone()]);
            assert_eq!(codec.received_len(), 0);
            assert_eq!(codec.next_packet::<ServerPlayPacket>(), Ok(None));
        }
    }
}

#[test]
fn a_packet_split_at_every_boundary() {
    let packet = ServerPlayPacket::Message(Message { player_id: 7, message: String::from("x y") });
    let bytes = stream_of(std::slice::from_ref(&packet));
    for cut in 0..=bytes.len() {
        let mut codec = Codec::new();
        codec.accept(&bytes[..cut]);
        if cut < bytes.len() {
            assert_eq!(codec.next_packet::<ServerPlayPacket>(), Ok(None));
            codec.accept(&bytes[cut..]);
        }
        assert_eq!(codec.next_packet::<ServerPlayPacket>(), Ok(Some(packet.clone())));
        assert_eq!(codec.next_packet::<ServerPlayPacket>(), Ok(None));
    }
}

#[test]
fn non_consumption_on_failure() {
    let packets = sample_packets();
    let bytes = stream_of(&packets[..1]);
    let mut codec = Codec::new();
    codec.accept(&bytes[..40]);
    for _ in 0..3 {
        assert_eq!(codec.next_packet::<ServerPlayPacket>(), Ok(None));
        assert_eq!(codec.received_len(), 40);
    }
    codec.accept(&bytes[40..]);
    assert_eq!(codec.next_packet::<ServerPlayPacket>(), Ok(Some(packets[0].clone())));

    let mut codec = Codec::new();
    codec.accept(&[0x55, 1, 2, 3]);
    for _ in 0..3 {
        assert_eq!(codec.next_packet::<ServerPlayPacket>(), Err(Error::UnknownPacketId(0x55)));
        assert_eq!(codec.received_len(), 4);
    }
    // The bytes are still there, byte for byte: read as raw bytes they come back.
    assert_eq!(codec.next_packet::<(u8, (u8, (u8, u8)))>(), Ok(Some((0x55, (1, (2, 3))))));
    assert_eq!(codec.received_len(), 0);
}

#[test]
fn sequence_ordering() {
    let packets = sample_packets();
    let stream = stream_of(&packets);
    for size in [1usize, 2, 3, 7, 64, 65, 66, 100, stream.len()] {
        let mut codec = Codec::new();
        let mut delivered = Vec::new();
        for chunk in stream.chunks(size) {
            codec.accept(chunk);
            drain(&mut codec, &mut delivered);
        }
        assert_eq!(delivered, packets);
        assert_eq!(codec.received_len(), 0);
    }
}

#[test]
fn many_packets_in_one_read() {
    let packets: Vec<ServerPlayPacket> = (0..50)
        .map(|i| ServerPlayPacket::SetBlock(SetBlock { x: i, y: -i, z: 2 * i, block_type: i as u8 }))
        .collect();
    let stream = stream_of(&packets);
    let mut codec = Codec::new();
    codec.accept(&stream);
    let mut delivered = Vec::new();
    drain(&mut codec, &mut delivered);
    assert_eq!(delivered, packets);
}

#[test]
fn the_reader_cuts_packets_and_notices_the_end() {
    let packets = sample_packets();
    let stream = stream_of(&packets[..2]);
    let mut reader = Reader::new();
    assert_eq!(reader.next::<ServerPlayPacket>(), Ok(None));
    assert_eq!(reader.received(&stream[..10]), Ok(()));
    assert_eq!(reader.pending_len(), 10);
    assert_eq!(reader.next::<ServerPlayPacket>(), Ok(None));
    assert_eq!(reader.received(&stream[10..]), Ok(()));
    assert_eq!(reader.next::<ServerPlayPacket>(), Ok(Some(packets[0].clone())));
    assert_eq!(reader.next::<ServerPlayPacket>(), Ok(Some(packets[1].clone())));
    assert_eq!(reader.next::<ServerPlayPacket>(), Ok(None));
    assert_eq!(reader.received(&[]), Err(WorkerError::Disconnected));
    assert_eq!(reader.pending_len(), 0);
    assert_eq!(reader.received(&[0xf0]), Ok(()));
    assert_eq!(
        reader.next::<ServerPlayPacket>(),
        Err(WorkerError::Protocol(Error::UnknownPacketId(0xf0)))
    );
    assert_eq!(reader.pending_len(), 1);
}

#[test]
fn the_writer_stages_packets_in_order() {
    let mut writer = Writer::new();
    assert!(writer.bytes().is_empty());
    let first = position_update(1, 1, 1, 0, 0);
    let second = position_update(2, 2, 2, 0, 0);
    assert_eq!(writer.write(&first), Ok(()));
    assert_eq!(writer.bytes(), &[0x08, 255, 0, 1, 0, 1, 0, 1, 0, 0]);
    writer.sent();
    assert!(writer.bytes().is_empty());
    assert_eq!(writer.write(&first), Ok(()));
    assert_eq!(writer.write(&second), Ok(()));
    let mut expected = Vec::new();
    first.write(&mut expected).unwrap();
    second.write(&mut expected).unwrap();
    assert_eq!(writer.bytes(), &expected[..]);
    let bad = cube_protocol::client::handshake::identification("u".repeat(100));
    assert_eq!(writer.write(&bad), Err(WorkerError::Protocol(Error::StringTooLong)));
    assert_eq!(writer.bytes(), &expected[..]);

    let mut codec = Codec::new();
    codec.accept(writer.bytes());
    assert_eq!(codec.next_packet::<ClientPlayPacket>(), Ok(Some(first)));
    assert_eq!(codec.next_packet::<ClientPlayPacket>(), Ok(Some(second)));
    assert_eq!(codec.next_packet::<ClientPlayPacket>(), Ok(None));
}

#[test]
fn worker_constants_and_messages() {
    assert_eq!(READ_TIMEOUT_SECONDS, 10);
    assert_eq!(READ_BUFFER_LENGTH, 512);
    assert_eq!(RECEIVED_PACKETS_BOUND, 32);
    assert_eq!(disconnected_message(WorkerError::Disconnected), "disconnected");
    assert_eq!(disconnected_message(WorkerError::TimedOut), "timed out");
    assert_eq!(
        disconnected_message(WorkerError::Protocol(Error::InvalidUtf8)),
        "protocol error"
    );
}
