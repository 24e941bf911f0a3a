//! Fixed-width integers, big-endian, and booleans.

use vstd::prelude::*;
use crate::io::{Cursor, Error, Readable, WireValue, Writeable};

verus! {

/// `256` to the power `n`.
pub open spec fn pow256(n: nat) -> nat
    decreases n,
{
    if n == 0 {
        1
    } else {
        256 * pow256((n - 1) as nat)
    }
}

/// The number that `bytes` spell in base 256, most significant byte first.
pub open spec fn be_value(bytes: Seq<u8>) -> nat
    decreases bytes.len(),
{
    if bytes.len() == 0 {
        0
    } else {
        256 * be_value(bytes.drop_last()) + bytes.last() as nat
    }
}

/// The `width` lowest base-256 digits of `v`, most significant first.
pub open spec fn be_bytes(v: nat, width: nat) -> Seq<u8>
    decreases width,
{
    if width == 0 {
        Seq::empty()
    } else {
        be_bytes(v / 256, (width - 1) as nat).push((v % 256) as u8)
    }
}

/// The two's-complement reading of `v` as a signed number of `width` bytes.
pub open spec fn to_signed(v: nat, width: nat) -> int {
    if 2 * v >= pow256(width) {
        v - pow256(width)
    } else {
        v as int
    }
}

/// The two's-complement bit pattern of `v` in `width` bytes, as a number.
pub open spec fn to_unsigned(v: int, width: nat) -> nat {
    if v < 0 {
        (v + pow256(width)) as nat
    } else {
        v as nat
    }
}

/// What reading `width` big-endian bytes from `bytes` gives.
pub open spec fn parse_be(bytes: Seq<u8>, width: nat) -> Result<(nat, nat), Error> {
    if bytes.len() < width {
        Err(Error::UnexpectedEof)
    } else {
        Ok((be_value(bytes.take(width as int)), width))
    }
}

/// The powers of 256 up to the eighth.
pub proof fn lemma_pow256_values()
    ensures
        pow256(0) == 1,
        pow256(1) == 0x100,
        pow256(2) == 0x1_0000,
        pow256(3) == 0x100_0000,
        pow256(4) == 0x1_0000_0000,
        pow256(5) == 0x100_0000_0000,
        pow256(6) == 0x1_0000_0000_0000,
        pow256(7) == 0x100_0000_0000_0000,
        pow256(8) == 0x1_0000_0000_0000_0000,
{
    reveal_with_fuel(pow256, 10);
}

/// A number spelt with `n` bytes is below `256^n`.
pub proof fn lemma_be_value_bound(bytes: Seq<u8>)
    ensures
        be_value(bytes) < pow256(bytes.len()),
    decreases bytes.len(),
{
    if bytes.len() > 0 {
        lemma_be_value_bound(bytes.drop_last());
    }
}

/// `width` digits are `width` bytes.
pub proof fn lemma_be_bytes_len(v: nat, width: nat)
    ensures
        be_bytes(v, width).len() == width,
    decreases width,
{
    if width > 0 {
        lemma_be_bytes_len(v / 256, (width - 1) as nat);
    }
}

/// The digits of a number that fits in `width` bytes spell that number.
pub proof fn lemma_be_value_of_bytes(v: nat, width: nat)
    requires
        v < pow256(width),
    ensures
        be_value(be_bytes(v, width)) == v,
    decreases width,
{
    if width > 0 {
        let head = be_bytes(v / 256, (width - 1) as nat);
        lemma_be_value_of_bytes(v / 256, (width - 1) as nat);
        assert(be_bytes(v, width).drop_last() == head);
    }
}

/// Reads `width` bytes as one big-endian number.
fn read_be(buffer: &mut Cursor<'_>, width: usize) -> (r: Result<u64, Error>)
    requires
        1 <= width <= 8,
    ensures
        final(buffer).bytes() == old(buffer).bytes(),
        match parse_be(old(buffer).remaining(), width as nat) {
            Ok((v, n)) => {
                &&& r is Ok && r->Ok_0 == v
                &&& final(buffer).consumed() == old(buffer).consumed() + n
                &&& final(buffer).remaining() == old(buffer).remaining().skip(n as int)
            },
            Err(e) => r is Err && r->Err_0 == e,
        },
        r is Ok ==> r->Ok_0 < pow256(width as nat),
{
    let window = buffer.take(width)?;
    let mut acc: u64 = 0;
    let mut i: usize = 0;
    while i < width
        invariant
            i <= width <= 8,
            window@.len() == width,
            acc == be_value(window@.take(i as int)),
        decreases width - i,
    {
        proof {
            lemma_be_value_bound(window@.take(i as int));
            assert(pow256(i as nat) <= 0x100_0000_0000_0000) by {
                reveal_with_fuel(pow256, 8);
            }
            assert(window@.take(i + 1).drop_last() == window@.take(i as int));
        }
        acc = acc * 256 + window[i] as u64;
        i = i + 1;
    }
    proof {
        assert(window@.take(width as int) == window@);
        lemma_be_value_bound(window@);
    }
    Ok(acc)
}

/// Appends the `width` lowest bytes of `v`, most significant first.
pub(crate) fn write_be(buffer: &mut Vec<u8>, v: u64, width: usize)
    ensures
        final(buffer)@ == old(buffer)@ + be_bytes(v as nat, width as nat),
    decreases width,
{
    if width > 0 {
        write_be(buffer, v / 256, width - 1);
        buffer.push((v % 256) as u8);
    }
}

/// The bytes of a number of `width` bytes, followed by anything, read back
/// as that number.
pub proof fn lemma_parse_be_round_trip(v: nat, width: nat, rest: Seq<u8>)
    requires
        v < pow256(width),
    ensures
        parse_be(be_bytes(v, width) + rest, width) == Ok::<(nat, nat), Error>((v, width)),
        be_bytes(v, width).len() == width,
{
    lemma_be_bytes_len(v, width);
    lemma_be_value_of_bytes(v, width);
    assert((be_bytes(v, width) + rest).take(width as int) == be_bytes(v, width));
}

/// Two's complement and back.
pub proof fn lemma_signed_round_trip(v: int, width: nat)
    requires
        1 <= width <= 8,
        -(pow256(width) as int) <= 2 * v < pow256(width),
    ensures
        to_unsigned(v, width) < pow256(width),
        to_signed(to_unsigned(v, width), width) == v,
{
}

impl Readable for u16 {
    open spec fn parse(bytes: Seq<u8>) -> Result<(u16, nat), Error> {
        match parse_be(bytes, 2) {
            Ok((v, n)) => Ok((v as u16, n)),
            Err(e) => Err(e),
        }
    }

    fn read(buffer: &mut Cursor<'_>) -> (r: Result<Self, Error>) {
        proof {
            lemma_pow256_values();
        }
        let x = read_be(buffer, 2)?;
        Ok(x as u16)
    }
}

impl Writeable for u16 {
    open spec fn wire(v: u16) -> Seq<u8> {
        be_bytes(v as nat, 2)
    }

    open spec fn write_error(v: u16) -> Option<Error> {
        None
    }

    fn write(&self, buffer: &mut Vec<u8>) -> (r: Result<(), Error>) {
        write_be(buffer, *self as u64, 2);
        Ok(())
    }
}

impl WireValue for u16 {
    open spec fn canonical(v: u16) -> bool {
        true
    }

    proof fn lemma_canonical_writes(v: u16) {
    }

    proof fn lemma_round_trip(v: u16, rest: Seq<u8>) {
        lemma_pow256_values();
        lemma_parse_be_round_trip(v as nat, 2, rest);
    }

    proof fn lemma_prefix_incomplete(v: u16, k: int) {
        lemma_be_bytes_len(v as nat, 2);
    }
}

impl Readable for u32 {
    open spec fn parse(bytes: Seq<u8>) -> Result<(u32, nat), Error> {
        match parse_be(bytes, 4) {
            Ok((v, n)) => Ok((v as u32, n)),
            Err(e) => Err(e),
        }
    }

    fn read(buffer: &mut Cursor<'_>) -> (r: Result<Self, Error>) {
        proof {
            lemma_pow256_values();
        }
        let x = read_be(buffer, 4)?;
        Ok(x as u32)
    }
}

impl Writeable for u32 {
    open spec fn wire(v: u32) -> Seq<u8> {
        be_bytes(v as nat, 4)
    }

    open spec fn write_error(v: u32) -> Option<Error> {
        None
    }

    fn write(&self, buffer: &mut Vec<u8>) -> (r: Result<(), Error>) {
        write_be(buffer, *self as u64, 4);
        Ok(())
    }
}

impl WireValue for u32 {
    open spec fn canonical(v: u32) -> bool {
        true
    }

    proof fn lemma_canonical_writes(v: u32) {
    }

    proof fn lemma_round_trip(v: u32, rest: Seq<u8>) {
        lemma_pow256_values();
        lemma_parse_be_round_trip(v as nat, 4, rest);
    }

    proof fn lemma_prefix_incomplete(v: u32, k: int) {
        lemma_be_bytes_len(v as nat, 4);
    }
}

impl Readable for u64 {
    open spec fn parse(bytes: Seq<u8>) -> Result<(u64, nat), Error> {
        match parse_be(bytes, 8) {
            Ok((v, n)) => Ok((v as u64, n)),
            Err(e) => Err(e),
        }
    }

    fn read(buffer: &mut Cursor<'_>) -> (r: Result<Self, Error>) {
        proof {
            lemma_pow256_values();
        }
        let x = read_be(buffer, 8)?;
        Ok(x)
    }
}

impl Writeable for u64 {
    open spec fn wire(v: u64) -> Seq<u8> {
        be_bytes(v as nat, 8)
    }

    open spec fn write_error(v: u64) -> Option<Error> {
        None
    }

    fn write(&self, buffer: &mut Vec<u8>) -> (r: Result<(), Error>) {
        write_be(buffer, *self, 8);
        Ok(())
    }
}

impl WireValue for u64 {
    open spec fn canonical(v: u64) -> bool {
        true
    }

    proof fn lemma_canonical_writes(v: u64) {
    }

    proof fn lemma_round_trip(v: u64, rest: Seq<u8>) {
        lemma_pow256_values();
        lemma_parse_be_round_trip(v as nat, 8, rest);
    }

    proof fn lemma_prefix_incomplete(v: u64, k: int) {
        lemma_be_bytes_len(v as nat, 8);
    }
}

/// The signed number with the bit pattern `x`.
fn u16_to_i16(x: u16) -> (r: i16)
    ensures
        r as int == to_signed(x as nat, 2),
{
    proof {
        lemma_pow256_values();
    }
    assert((x as i16) as int == if x >= 0x8000u16 {
        x as int - 0x1_0000
    } else {
        x as int
    }) by (bit_vector);
    x as i16
}

/// The bit pattern of `x`, as a number.
fn i16_to_u16(x: i16) -> (r: u16)
    ensures
        r as nat == to_unsigned(x as int, 2),
{
    proof {
        lemma_pow256_values();
    }
    assert((x as u16) as int == if x < 0i16 {
        x as int + 0x1_0000
    } else {
        x as int
    }) by (bit_vector);
    x as u16
}

impl Readable for i16 {
    open spec fn parse(bytes: Seq<u8>) -> Result<(i16, nat), Error> {
        match parse_be(bytes, 2) {
            Ok((v, n)) => Ok((to_signed(v, 2) as i16, n)),
            Err(e) => Err(e),
        }
    }

    fn read(buffer: &mut Cursor<'_>) -> (r: Result<Self, Error>) {
        proof {
            lemma_pow256_values();
        }
        let x = read_be(buffer, 2)?;
        Ok(u16_to_i16(x as u16))
    }
}

impl Writeable for i16 {
    open spec fn wire(v: i16) -> Seq<u8> {
        be_bytes(to_unsigned(v as int, 2), 2)
    }

    open spec fn write_error(v: i16) -> Option<Error> {
        None
    }

    fn write(&self, buffer: &mut Vec<u8>) -> (r: Result<(), Error>) {
        let u = i16_to_u16(*self);
        write_be(buffer, u as u64, 2);
        Ok(())
    }
}

impl WireValue for i16 {
    open spec fn canonical(v: i16) -> bool {
        true
    }

    proof fn lemma_canonical_writes(v: i16) {
    }

    proof fn lemma_round_trip(v: i16, rest: Seq<u8>) {
        lemma_pow256_values();
        lemma_signed_round_trip(v as int, 2);
        lemma_parse_be_round_trip(to_unsigned(v as int, 2), 2, rest);
    }

    proof fn lemma_prefix_incomplete(v: i16, k: int) {
        lemma_be_bytes_len(to_unsigned(v as int, 2), 2);
    }
}

/// The signed number with the bit pattern `x`.
pub(crate) fn u32_to_i32(x: u32) -> (r: i32)
    ensures
        r as int == to_signed(x as nat, 4),
{
    proof {
        lemma_pow256_values();
    }
    assert((x as i32) as int == if x >= 0x8000_0000u32 {
        x as int - 0x1_0000_0000
    } else {
        x as int
    }) by (bit_vector);
    x as i32
}

/// The bit pattern of `x`, as a number.
pub(crate) fn i32_to_u32(x: i32) -> (r: u32)
    ensures
        r as nat == to_unsigned(x as int, 4),
{
    proof {
        lemma_pow256_values();
    }
    assert((x as u32) as int == if x < 0i32 {
        x as int + 0x1_0000_0000
    } else {
        x as int
    }) by (bit_vector);
    x as u32
}

impl Readable for i32 {
    open spec fn parse(bytes: Seq<u8>) -> Result<(i32, nat), Error> {
        match parse_be(bytes, 4) {
            Ok((v, n)) => Ok((to_signed(v, 4) as i32, n)),
            Err(e) => Err(e),
        }
    }

    fn read(buffer: &mut Cursor<'_>) -> (r: Result<Self, Error>) {
        proof {
            lemma_pow256_values();
        }
        let x = read_be(buffer, 4)?;
        Ok(u32_to_i32(x as u32))
    }
}

impl Writeable for i32 {
    open spec fn wire(v: i32) -> Seq<u8> {
        be_bytes(to_unsigned(v as int, 4), 4)
    }

    open spec fn write_error(v: i32) -> Option<Error> {
        None
    }

    fn write(&self, buffer: &mut Vec<u8>) -> (r: Result<(), Error>) {
        let u = i32_to_u32(*self);
        write_be(buffer, u as u64, 4);
        Ok(())
    }
}

impl WireValue for i32 {
    open spec fn canonical(v: i32) -> bool {
        true
    }

    proof fn lemma_canonical_writes(v: i32) {
    }

    proof fn lemma_round_trip(v: i32, rest: Seq<u8>) {
        lemma_pow256_values();
        lemma_signed_round_trip(v as int, 4);
        lemma_parse_be_round_trip(to_unsigned(v as int, 4), 4, rest);
    }

    proof fn lemma_prefix_incomplete(v: i32, k: int) {
        lemma_be_bytes_len(to_unsigned(v as int, 4), 4);
    }
}

/// The signed number with the bit pattern `x`.
fn u64_to_i64(x: u64) -> (r: i64)
    ensures
        r as int == to_signed(x as nat, 8),
{
    proof {
        lemma_pow256_values();
    }
    assert((x as i64) as int == if x >= 0x8000_0000_0000_0000u64 {
        x as int - 0x1_0000_0000_0000_0000
    } else {
        x as int
    }) by (bit_vector);
    x as i64
}

/// The bit pattern of `x`, as a number.
fn i64_to_u64(x: i64) -> (r: u64)
    ensures
        r as nat == to_unsigned(x as int, 8),
{
    proof {
        lemma_pow256_values();
    }
    assert((x as u64) as int == if x < 0i64 {
        x as int + 0x1_0000_0000_0000_0000
    } else {
        x as int
    }) by (bit_vector);
    x as u64
}

impl Readable for i64 {
    open spec fn parse(bytes: Seq<u8>) -> Result<(i64, nat), Error> {
        match parse_be(bytes, 8) {
            Ok((v, n)) => Ok((to_signed(v, 8) as i64, n)),
            Err(e) => Err(e),
        }
    }

    fn read(buffer: &mut Cursor<'_>) -> (r: Result<Self, Error>) {
        proof {
            lemma_pow256_values();
        }
        let x = read_be(buffer, 8)?;
        Ok(u64_to_i64(x))
    }
}

impl Writeable for i64 {
    open spec fn wire(v: i64) -> Seq<u8> {
        be_bytes(to_unsigned(v as int, 8), 8)
    }

    open spec fn write_error(v: i64) -> Option<Error> {
        None
    }

    fn write(&self, buffer: &mut Vec<u8>) -> (r: Result<(), Error>) {
        let u = i64_to_u64(*self);
        write_be(buffer, u, 8);
        Ok(())
    }
}

impl WireValue for i64 {
    open spec fn canonical(v: i64) -> bool {
        true
    }

    proof fn lemma_canonical_writes(v: i64) {
    }

    proof fn lemma_round_trip(v: i64, rest: Seq<u8>) {
        lemma_pow256_values();
        lemma_signed_round_trip(v as int, 8);
        lemma_parse_be_round_trip(to_unsigned(v as int, 8), 8, rest);
    }

    proof fn lemma_prefix_incomplete(v: i64, k: int) {
        lemma_be_bytes_len(to_unsigned(v as int, 8), 8);
    }
}

impl Readable for u8 {
    open spec fn parse(bytes: Seq<u8>) -> Result<(u8, nat), Error> {
        if bytes.len() < 1 {
            Err(Error::UnexpectedEof)
        } else {
            Ok((bytes[0], 1))
        }
    }

    fn read(buffer: &mut Cursor<'_>) -> (r: Result<Self, Error>) {
        let window = buffer.take(1)?;
        Ok(window[0])
    }
}

impl Writeable for u8 {
    open spec fn wire(v: u8) -> Seq<u8> {
        seq![v]
    }

    open spec fn write_error(v: u8) -> Option<Error> {
        None
    }

    fn write(&self, buffer: &mut Vec<u8>) -> (r: Result<(), Error>) {
        buffer.push(*self);
        Ok(())
    }
}

impl WireValue for u8 {
    open spec fn canonical(v: u8) -> bool {
        true
    }

    proof fn lemma_canonical_writes(v: u8) {
    }

    proof fn lemma_round_trip(v: u8, rest: Seq<u8>) {
    }

    proof fn lemma_prefix_incomplete(v: u8, k: int) {
    }
}

/// The signed number with the bit pattern `x`.
fn u8_to_i8(x: u8) -> (r: i8)
    ensures
        r as int == to_signed(x as nat, 1),
{
    proof {
        lemma_pow256_values();
    }
    assert((x as i8) as int == if x >= 0x80u8 {
        x as int - 0x100
    } else {
        x as int
    }) by (bit_vector);
    x as i8
}

/// The bit pattern of `x`, as a number.
fn i8_to_u8(x: i8) -> (r: u8)
    ensures
        r as nat == to_unsigned(x as int, 1),
{
    proof {
        lemma_pow256_values();
    }
    assert((x as u8) as int == if x < 0i8 {
        x as int + 0x100
    } else {
        x as int
    }) by (bit_vector);
    x as u8
}

impl Readable for i8 {
    open spec fn parse(bytes: Seq<u8>) -> Result<(i8, nat), Error> {
        if bytes.len() < 1 {
            Err(Error::UnexpectedEof)
        } else {
            Ok((to_signed(bytes[0] as nat, 1) as i8, 1))
        }
    }

    fn read(buffer: &mut Cursor<'_>) -> (r: Result<Self, Error>) {
        let window = buffer.take(1)?;
        Ok(u8_to_i8(window[0]))
    }
}

impl Writeable for i8 {
    open spec fn wire(v: i8) -> Seq<u8> {
        seq![to_unsigned(v as int, 1) as u8]
    }

    open spec fn write_error(v: i8) -> Option<Error> {
        None
    }

    fn write(&self, buffer: &mut Vec<u8>) -> (r: Result<(), Error>) {
        buffer.push(i8_to_u8(*self));
        Ok(())
    }
}

impl WireValue for i8 {
    open spec fn canonical(v: i8) -> bool {
        true
    }

    proof fn lemma_canonical_writes(v: i8) {
    }

    proof fn lemma_round_trip(v: i8, rest: Seq<u8>) {
        lemma_pow256_values();
        lemma_signed_round_trip(v as int, 1);
    }

    proof fn lemma_prefix_incomplete(v: i8, k: int) {
    }
}

impl Readable for bool {
    open spec fn parse(bytes: Seq<u8>) -> Result<(bool, nat), Error> {
        if bytes.len() < 1 {
            Err(Error::UnexpectedEof)
        } else if bytes[0] == 0 {
            Ok((false, 1))
        } else if bytes[0] == 1 {
            Ok((true, 1))
        } else {
            Err(Error::InvalidBool(bytes[0]))
        }
    }

    fn read(buffer: &mut Cursor<'_>) -> (r: Result<Self, Error>) {
        let x = buffer.take(1)?[0];
        if x == 0 {
            Ok(false)
        } else if x == 1 {
            Ok(true)
        } else {
            Err(Error::InvalidBool(x))
        }
    }
}

impl Writeable for bool {
    open spec fn wire(v: bool) -> Seq<u8> {
        seq![if v { 1u8 } else { 0u8 }]
    }

    open spec fn write_error(v: bool) -> Option<Error> {
        None
    }

    fn write(&self, buffer: &mut Vec<u8>) -> (r: Result<(), Error>) {
        let x: u8 = if *self { 1 } else { 0 };
        buffer.push(x);
        Ok(())
    }
}

impl WireValue for bool {
    open spec fn canonical(v: bool) -> bool {
        true
    }

    proof fn lemma_canonical_writes(v: bool) {
    }

    proof fn lemma_round_trip(v: bool, rest: Seq<u8>) {
    }

    proof fn lemma_prefix_incomplete(v: bool, k: int) {
    }
}

} // verus!
