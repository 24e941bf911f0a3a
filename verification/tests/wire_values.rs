use cube_protocol::io::sequence::{
    ByteArray, LengthInferredVecU8, LengthPrefixedVec, ShortPrefixedVec, VarIntPrefixedVec,
    MAX_LENGTH,
};
use cube_protocol::io::varint::VarInt;
use cube_protocol::io::{Cursor, Error, Readable, Writeable};
use std::marker::PhantomData;

fn written<W: Writeable>(value: &W) -> Vec<u8> {
    let mut buffer = Vec::new();
    value.write(&mut buffer).unwrap();
    buffer
}

fn read_all<R: Readable>(bytes: &[u8]) -> Result<(R, usize), Error> {
    let mut cursor = Cursor::new(bytes);
    let value = R::read(&mut cursor)?;
    Ok((value, cursor.position()))
}

#[test]
fn unsigned_integers_are_big_endian() {
    assert_eq!(written(&0x12u8), vec![0x12]);
    assert_eq!(written(&0x1234u16), vec![0x12, 0x34]);
    assert_eq!(written(&0x1234_5678u32), vec![0x12, 0x34, 0x56, 0x78]);
    assert_eq!(
        written(&0x0102_0304_0506_0708u64),
        vec![0x01, 0x02, 0x03, 0x04, 0x05, 0x06, 0x07, 0x08]
    );
    assert_eq!(read_all::<u16>(&[0x12, 0x34, 0xff]), Ok((0x1234, 2)));
    assert_eq!(read_all::<u32>(&[0x12, 0x34, 0x56, 0x78]), Ok((0x1234_5678, 4)));
    assert_eq!(
        read_all::<u64>(&[0xff, 0xff, 0xff, 0xff, 0xff, 0xff, 0xff, 0xff]),
        Ok((u64::MAX, 8))
    );
}

#[test]
fn signed_integers_are_twos_complement() {
    assert_eq!(written(&-1i8), vec![0xff]);
    assert_eq!(written(&-2i16), vec![0xff, 0xfe]);
    assert_eq!(written(&i32::MIN), vec![0x80, 0, 0, 0]);
    assert_eq!(written(&-1i64), vec![0xff; 8]);
    assert_eq!(written(&64i16), vec![0x00, 0x40]);
    assert_eq!(read_all::<i8>(&[0x80]), Ok((-128, 1)));
    assert_eq!(read_all::<i16>(&[0xff, 0xfe]), Ok((-2, 2)));
    assert_eq!(read_all::<i32>(&[0x7f, 0xff, 0xff, 0xff]), Ok((i32::MAX, 4)));
    assert_eq!(read_all::<i64>(&[0x80, 0, 0, 0, 0, 0, 0, 0]), Ok((i64::MIN, 8)));
}

#[test]
fn integers_round_trip() {
    for value in [0u16, 1, 255, 256, 0x8000, 0xffff] {
        assert_eq!(read_all::<u16>(&written(&value)), Ok((value, 2)));
    }
    for value in [i16::MIN, -1, 0, 1, 192, i16::MAX] {
        assert_eq!(read_all::<i16>(&written(&value)), Ok((value, 2)));
    }
    for value in [i32::MIN, -65536, -1, 0, 1, 65536, i32::MAX] {
        assert_eq!(read_all::<i32>(&written(&value)), Ok((value, 4)));
    }
    for value in [0u64, 1, u64::MAX, 1 << 63, 0x0123_4567_89ab_cdef] {
        assert_eq!(read_all::<u64>(&written(&value)), Ok((value, 8)));
    }
    for value in [i64::MIN, -1, 0, i64::MAX] {
        assert_eq!(read_all::<i64>(&written(&value)), Ok((value, 8)));
    }
    for value in [0u32, 1, u32::MAX] {
        assert_eq!(read_all::<u32>(&written(&value)), Ok((value, 4)));
    }
}

#[test]
fn truncated_integers_ask_for_more() {
    assert_eq!(read_all::<u8>(&[]), Err(Error::UnexpectedEof));
    assert_eq!(read_all::<i8>(&[]), Err(Error::UnexpectedEof));
    assert_eq!(read_all::<u16>(&[1]), Err(Error::UnexpectedEof));
    assert_eq!(read_all::<i32>(&[1, 2, 3]), Err(Error::UnexpectedEof));
    assert_eq!(read_all::<u64>(&[1, 2, 3, 4, 5, 6, 7]), Err(Error::UnexpectedEof));
}

#[test]
fn a_failed_take_leaves_the_cursor() {
    let bytes = [1u8, 2, 3];
    let mut cursor = Cursor::new(&bytes);
    assert_eq!(cursor.take(2).unwrap(), &[1, 2]);
    assert_eq!(cursor.position(), 2);
    assert_eq!(cursor.take(2), Err(Error::UnexpectedEof));
    assert_eq!(cursor.position(), 2);
    assert_eq!(cursor.remaining_len(), 1);
    assert_eq!(cursor.take(1).unwrap(), &[3]);
    assert_eq!(cursor.remaining_len(), 0);
}

#[test]
fn booleans_are_one_byte() {
    assert_eq!(written(&true), vec![1]);
    assert_eq!(written(&false), vec![0]);
    assert_eq!(read_all::<bool>(&[0]), Ok((false, 1)));
    assert_eq!(read_all::<bool>(&[1]), Ok((true, 1)));
    assert_eq!(read_all::<bool>(&[2]), Err(Error::InvalidBool(2)));
    assert_eq!(read_all::<bool>(&[0xff]), Err(Error::InvalidBool(0xff)));
    assert_eq!(read_all::<bool>(&[]), Err(Error::UnexpectedEof));
}

#[test]
fn options_stand_behind_a_boolean() {
    assert_eq!(written(&Some(0x1234u16)), vec![1, 0x12, 0x34]);
    assert_eq!(written(&None::<u16>), vec![0]);
    assert_eq!(read_all::<Option<u16>>(&[1, 0x12, 0x34]), Ok((Some(0x1234), 3)));
    assert_eq!(read_all::<Option<u16>>(&[0, 0x12, 0x34]), Ok((None, 1)));
    assert_eq!(read_all::<Option<u16>>(&[1, 0x12]), Err(Error::UnexpectedEof));
    assert_eq!(read_all::<Option<u16>>(&[7, 0x12]), Err(Error::InvalidBool(7)));
    let mut buffer = vec![9u8];
    let long = Some("x".repeat(65));
    assert_eq!(long.write(&mut buffer), Err(Error::StringTooLong));
    assert_eq!(buffer, vec![9]);
}

#[test]
fn varint_encodings() {
    assert_eq!(written(&VarInt(0)), vec![0x00]);
    assert_eq!(written(&VarInt(1)), vec![0x01]);
    assert_eq!(written(&VarInt(127)), vec![0x7f]);
    assert_eq!(written(&VarInt(128)), vec![0x80, 0x01]);
    assert_eq!(written(&VarInt(255)), vec![0xff, 0x01]);
    assert_eq!(written(&VarInt(300)), vec![0xac, 0x02]);
    assert_eq!(written(&VarInt(2097151)), vec![0xff, 0xff, 0x7f]);
    assert_eq!(written(&VarInt(i32::MAX)), vec![0xff, 0xff, 0xff, 0xff, 0x07]);
    assert_eq!(written(&VarInt(-1)), vec![0xff, 0xff, 0xff, 0xff, 0x0f]);
    assert_eq!(written(&VarInt(i32::MIN)), vec![0x80, 0x80, 0x80, 0x80, 0x08]);
    let mut buffer = vec![0xaa];
    VarInt(300).write_to(&mut buffer);
    assert_eq!(buffer, vec![0xaa, 0xac, 0x02]);
}

#[test]
fn varint_decodings() {
    assert_eq!(read_all::<VarInt>(&[0x00]), Ok((VarInt(0), 1)));
    assert_eq!(read_all::<VarInt>(&[0xac, 0x02, 0x55]), Ok((VarInt(300), 2)));
    assert_eq!(read_all::<VarInt>(&[0xff, 0xff, 0xff, 0xff, 0x07]), Ok((VarInt(i32::MAX), 5)));
    assert_eq!(read_all::<VarInt>(&[0xff, 0xff, 0xff, 0xff, 0x0f]), Ok((VarInt(-1), 5)));
    assert_eq!(read_all::<VarInt>(&[0x80, 0x80, 0x80, 0x80, 0x08]), Ok((VarInt(i32::MIN), 5)));
    // The bits of the fifth byte above the thirty-second are dropped.
    assert_eq!(read_all::<VarInt>(&[0x80, 0x80, 0x80, 0x80, 0x7f]), Ok((VarInt(-268435456), 5)));
    // A longer form of a small number.
    assert_eq!(read_all::<VarInt>(&[0x80, 0x00]), Ok((VarInt(0), 2)));
}

#[test]
fn varint_boundary() {
    assert_eq!(
        read_all::<VarInt>(&[0x80, 0x80, 0x80, 0x80, 0x80]),
        Err(Error::VarIntTooLong)
    );
    assert_eq!(
        read_all::<VarInt>(&[0xff, 0xff, 0xff, 0xff, 0xff, 0x01]),
        Err(Error::VarIntTooLong)
    );
    assert_eq!(read_all::<VarInt>(&[0x80, 0x80, 0x80, 0x80, 0x00]), Ok((VarInt(0), 5)));
    assert_eq!(read_all::<VarInt>(&[0x81, 0x80, 0x80, 0x80, 0x01]), Ok((VarInt(268435457), 5)));
    assert_eq!(read_all::<VarInt>(&[0x80, 0x80, 0x80, 0x80]), Err(Error::UnexpectedEof));
    assert_eq!(read_all::<VarInt>(&[]), Err(Error::UnexpectedEof));
}

#[test]
fn varint_round_trip() {
    for value in [i32::MIN, -1, 0, 1, 127, 128, 16383, 16384, 2097152, 268435455, i32::MAX] {
        let bytes = written(&VarInt(value));
        assert_eq!(read_all::<VarInt>(&bytes), Ok((VarInt(value), bytes.len())));
    }
}

#[test]
fn strings_are_padded_to_64_bytes() {
    let bytes = written(&String::from("Exo"));
    assert_eq!(bytes.len(), 64);
    assert_eq!(&bytes[..3], b"Exo");
    assert!(bytes[3..].iter().all(|b| *b == b' '));
    assert_eq!(written(&String::new()), vec![b' '; 64]);
    let full = "a".repeat(64);
    assert_eq!(written(&full), full.as_bytes().to_vec());
}

#[test]
fn strings_longer_than_64_bytes_are_refused() {
    let mut buffer = vec![1u8, 2];
    assert_eq!("a".repeat(65).write(&mut buffer), Err(Error::StringTooLong));
    assert_eq!(buffer, vec![1, 2]);
    // 33 characters of two bytes each.
    assert_eq!("é".repeat(33).write(&mut buffer), Err(Error::StringTooLong));
    assert_eq!(buffer, vec![1, 2]);
    assert_eq!("é".repeat(32).write(&mut buffer), Ok(()));
    assert_eq!(buffer.len(), 66);
}

#[test]
fn strings_are_trimmed_on_read() {
    let mut bytes = written(&String::from("hello world"));
    bytes.push(0x99);
    assert_eq!(read_all::<String>(&bytes), Ok((String::from("hello world"), 64)));
    assert_eq!(read_all::<String>(&[b' '; 64]), Ok((String::new(), 64)));
    let mut inner = vec![b' '; 64];
    inner[0] = b'a';
    inner[2] = b'b';
    assert_eq!(read_all::<String>(&inner), Ok((String::from("a b"), 64)));
    let mut leading = vec![b' '; 64];
    leading[63] = b'z';
    let expected = format!("{}z", " ".repeat(63));
    assert_eq!(read_all::<String>(&leading), Ok((expected, 64)));
}

#[test]
fn a_string_that_ends_with_a_space_loses_it() {
    let bytes = written(&String::from("a "));
    assert_eq!(read_all::<String>(&bytes), Ok((String::from("a"), 64)));
}

#[test]
fn strings_must_be_whole_and_valid() {
    assert_eq!(read_all::<String>(&[b'a'; 63]), Err(Error::UnexpectedEof));
    let mut invalid = vec![b' '; 64];
    invalid[5] = 0xff;
    assert_eq!(read_all::<String>(&invalid), Err(Error::InvalidUtf8));
    let mut cut_short = vec![b' '; 64];
    cut_short[63] = 0xc3;
    assert_eq!(read_all::<String>(&cut_short), Err(Error::InvalidUtf8));
    let mut two_bytes = vec![b' '; 64];
    two_bytes[0] = 0xc3;
    two_bytes[1] = 0xa9;
    assert_eq!(read_all::<String>(&two_bytes), Ok((String::from("é"), 64)));
}

#[test]
fn byte_arrays_are_carried_as_they_are() {
    let mut block = [0u8; 1024];
    for (i, byte) in block.iter_mut().enumerate() {
        *byte = (i % 251) as u8;
    }
    let bytes = written(&ByteArray(block));
    assert_eq!(bytes, block.to_vec());
    let mut longer = bytes.clone();
    longer.push(7);
    let (back, used) = read_all::<ByteArray>(&longer).unwrap();
    assert_eq!(used, 1024);
    assert_eq!(back, ByteArray(block));
    assert_eq!(read_all::<ByteArray>(&bytes[..1023]).err(), Some(Error::UnexpectedEof));
}

#[test]
fn sequences_stand_behind_their_count() {
    let values: ShortPrefixedVec<u16> = LengthPrefixedVec(vec![1, 2, 0x0304], PhantomData);
    assert_eq!(written(&values), vec![0, 3, 0, 1, 0, 2, 3, 4]);
    let (back, used) = read_all::<ShortPrefixedVec<u16>>(&[0, 3, 0, 1, 0, 2, 3, 4, 9]).unwrap();
    assert_eq!(back.0, vec![1, 2, 0x0304]);
    assert_eq!(used, 8);
    let bytes: VarIntPrefixedVec<u8> = LengthPrefixedVec(vec![7; 200], PhantomData);
    let wire = written(&bytes);
    assert_eq!(&wire[..2], &[0xc8, 0x01]);
    assert_eq!(wire.len(), 202);
    let (back, used) = read_all::<VarIntPrefixedVec<u8>>(&wire).unwrap();
    assert_eq!(back.0, vec![7; 200]);
    assert_eq!(used, 202);
    let empty: ShortPrefixedVec<String> = LengthPrefixedVec(vec![], PhantomData);
    assert_eq!(written(&empty), vec![0, 0]);
    let (back, used) = read_all::<ShortPrefixedVec<String>>(&[0, 0]).unwrap();
    assert!(back.0.is_empty());
    assert_eq!(used, 2);
}

#[test]
fn a_sequence_is_read_whole_or_not_at_all() {
    assert_eq!(
        read_all::<ShortPrefixedVec<u16>>(&[0, 3, 0, 1, 0, 2, 3]).err(),
        Some(Error::UnexpectedEof)
    );
    assert_eq!(read_all::<ShortPrefixedVec<u16>>(&[0]).err(), Some(Error::UnexpectedEof));
    assert_eq!(
        read_all::<ShortPrefixedVec<bool>>(&[0, 3, 1, 0, 5]).err(),
        Some(Error::InvalidBool(5))
    );
    assert_eq!(
        read_all::<ShortPrefixedVec<bool>>(&[0, 3, 1, 4]).err(),
        Some(Error::InvalidBool(4))
    );
}

#[test]
fn cap_enforcement() {
    // A count of MAX_LENGTH + 1, with all the bytes of that many elements present.
    let count = (MAX_LENGTH + 1) as i32;
    let mut wire = written(&VarInt(count));
    wire.extend(std::iter::repeat(0u8).take(MAX_LENGTH + 1));
    assert_eq!(read_all::<VarIntPrefixedVec<u8>>(&wire).err(), Some(Error::LengthTooLarge));
    // A count of exactly MAX_LENGTH is taken.
    let mut wire = written(&VarInt(MAX_LENGTH as i32));
    wire.extend(std::iter::repeat(0u8).take(MAX_LENGTH));
    let (back, used) = read_all::<VarIntPrefixedVec<u8>>(&wire).unwrap();
    assert_eq!(back.0.len(), MAX_LENGTH);
    assert_eq!(used, wire.len());
    // A forged count with nothing behind it.
    assert_eq!(
        read_all::<VarIntPrefixedVec<u8>>(&[0xff, 0xff, 0xff, 0xff, 0x07]).err(),
        Some(Error::LengthTooLarge)
    );
    assert_eq!(MAX_LENGTH, 1024 * 1024);
}

#[test]
fn a_negative_count_is_no_count() {
    let wire = written(&VarInt(-1));
    assert_eq!(read_all::<VarIntPrefixedVec<u8>>(&wire).err(), Some(Error::InvalidLength));
}

#[test]
fn a_count_must_fit_its_prefix() {
    let values: ShortPrefixedVec<u8> = LengthPrefixedVec(vec![0; 65536], PhantomData);
    let mut buffer = vec![5u8];
    assert_eq!(values.write(&mut buffer), Err(Error::LengthOverflow));
    assert_eq!(buffer, vec![5]);
    let values: ShortPrefixedVec<u8> = LengthPrefixedVec(vec![0; 65535], PhantomData);
    assert_eq!(values.write(&mut buffer), Ok(()));
    assert_eq!(buffer.len(), 1 + 2 + 65535);
    assert_eq!(&buffer[1..3], &[0xff, 0xff]);
}

#[test]
fn a_sequence_with_an_element_that_cannot_be_written_leaves_the_buffer() {
    let values: ShortPrefixedVec<String> =
        LengthPrefixedVec(vec![String::from("ok"), "x".repeat(65), String::from("ok")], PhantomData);
    let mut buffer = vec![1u8, 2, 3];
    assert_eq!(values.write(&mut buffer), Err(Error::StringTooLong));
    assert_eq!(buffer, vec![1, 2, 3]);
}

#[test]
fn inferred_bytes_take_the_rest() {
    let (back, used) = read_all::<LengthInferredVecU8>(&[1, 2, 3, 4]).unwrap();
    assert_eq!(back.0, vec![1, 2, 3, 4]);
    assert_eq!(used, 4);
    let (back, used) = read_all::<LengthInferredVecU8>(&[]).unwrap();
    assert!(back.0.is_empty());
    assert_eq!(used, 0);
    let bytes = [9u8, 8, 7];
    let mut cursor = Cursor::new(&bytes);
    assert_eq!(u8::read(&mut cursor), Ok(9));
    assert_eq!(LengthInferredVecU8::read(&mut cursor).unwrap().0, vec![8, 7]);
    assert_eq!(cursor.remaining_len(), 0);
    assert_eq!(written(&LengthInferredVecU8(vec![5, 6])), vec![5, 6]);
}

#[test]
fn pairs_are_one_behind_the_other() {
    let pair = (0x0102u16, (true, -1i8));
    assert_eq!(written(&pair), vec![1, 2, 1, 0xff]);
    assert_eq!(read_all::<(u16, (bool, i8))>(&[1, 2, 1, 0xff, 0]), Ok((pair, 4)));
    assert_eq!(read_all::<(u16, (bool, i8))>(&[1, 2, 1]), Err(Error::UnexpectedEof));
    assert_eq!(written(&(&7u8, &String::from("a"))).len(), 65);
}
