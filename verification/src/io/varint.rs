//! The variable-length integer: seven bits per byte, lowest group first, the
//! high bit of a byte saying that another byte follows.

use vstd::prelude::*;
use crate::io::integers::{
    i32_to_u32, lemma_pow256_values, lemma_signed_round_trip, to_signed, to_unsigned, u32_to_i32,
};
use crate::io::{Cursor, Error, Readable, WireValue, Writeable};

verus! {

/// The most bytes that a variable-length integer may take.
pub const MAX_VARINT_BYTES: usize = 5;

/// A variable-length integer.
#[derive(Copy, Clone, Debug, PartialEq, Eq, Structural)]
pub struct VarInt(pub i32);

impl DeepView for VarInt {
    type V = i32;

    open spec fn deep_view(&self) -> i32 {
        self.0
    }
}

/// `128` to the power `n`.
pub open spec fn pow128(n: nat) -> nat
    decreases n,
{
    if n == 0 {
        1
    } else {
        128 * pow128((n - 1) as nat)
    }
}

/// What reading seven-bit groups from `bytes` gives when at most `budget`
/// bytes may be taken: the number that the groups spell, lowest group first,
/// and how many bytes they took.
pub open spec fn parse_groups(bytes: Seq<u8>, budget: nat) -> Result<(nat, nat), Error>
    decreases budget,
{
    if budget == 0 {
        Err(Error::VarIntTooLong)
    } else if bytes.len() == 0 {
        Err(Error::UnexpectedEof)
    } else if bytes[0] < 128 {
        Ok((bytes[0] as nat, 1))
    } else {
        match parse_groups(bytes.drop_first(), (budget - 1) as nat) {
            Ok((v, n)) => Ok(((bytes[0] - 128) as nat + 128 * v, n + 1)),
            Err(e) => Err(e),
        }
    }
}

/// The seven-bit groups of `x`, lowest first, each but the last with its high
/// bit set.
pub open spec fn groups(x: nat) -> Seq<u8>
    decreases x,
{
    if x < 128 {
        seq![x as u8]
    } else {
        seq![(128 + x % 128) as u8] + groups(x / 128)
    }
}

/// The signed 32-bit number whose bit pattern is the low 32 bits of `v`.
pub open spec fn from_bits(v: nat) -> i32 {
    to_signed(v % 0x1_0000_0000, 4) as i32
}

/// The powers of 128 up to the fifth.
pub proof fn lemma_pow128_values()
    ensures
        pow128(0) == 1,
        pow128(1) == 0x80,
        pow128(2) == 0x4000,
        pow128(3) == 0x20_0000,
        pow128(4) == 0x1000_0000,
        pow128(5) == 0x8_0000_0000,
{
    reveal_with_fuel(pow128, 6);
}

/// A power of 128 is at least 1.
pub proof fn lemma_pow128_positive(n: nat)
    ensures
        pow128(n) >= 1,
    decreases n,
{
    if n > 0 {
        lemma_pow128_positive((n - 1) as nat);
    }
}

/// Groups read within a budget spell a number below `128^budget`, and take
/// between one byte and `budget` bytes, all of them there.
pub proof fn lemma_parse_groups_bounds(bytes: Seq<u8>, budget: nat)
    ensures
        parse_groups(bytes, budget) matches Ok((v, n)) ==> v < pow128(budget) && 1 <= n <= budget
            && n <= bytes.len(),
    decreases budget,
{
    if budget > 0 {
        lemma_pow128_positive((budget - 1) as nat);
        if bytes.len() > 0 && bytes[0] >= 128 {
            lemma_parse_groups_bounds(bytes.drop_first(), (budget - 1) as nat);
        }
    }
}

/// The groups of a number below `128^budget`, followed by anything, read back
/// as that number.
pub proof fn lemma_groups_round_trip(x: nat, budget: nat, rest: Seq<u8>)
    requires
        1 <= budget,
        x < pow128(budget),
    ensures
        parse_groups(groups(x) + rest, budget) == Ok::<(nat, nat), Error>((x, groups(x).len())),
    decreases budget,
{
    let bytes = groups(x) + rest;
    if x >= 128 {
        let tail = groups(x / 128);
        assert(budget >= 2) by {
            reveal_with_fuel(pow128, 2);
        }
        lemma_groups_round_trip(x / 128, (budget - 1) as nat, rest);
        assert(bytes.drop_first() == tail + rest);
    }
}

/// A proper prefix of the groups of a number below `128^budget` asks for
/// more bytes.
pub proof fn lemma_groups_prefix(x: nat, budget: nat, k: int)
    requires
        1 <= budget,
        x < pow128(budget),
        0 <= k < groups(x).len(),
    ensures
        parse_groups(groups(x).take(k), budget) == Err::<(nat, nat), Error>(Error::UnexpectedEof),
    decreases budget,
{
    let bytes = groups(x).take(k);
    if k > 0 && x >= 128 {
        let tail = groups(x / 128);
        assert(budget >= 2) by {
            reveal_with_fuel(pow128, 2);
        }
        lemma_groups_prefix(x / 128, (budget - 1) as nat, k - 1);
        assert(bytes.drop_first() == tail.take(k - 1));
    }
}

/// Reads groups until one has its high bit clear, taking at most `budget` bytes.
fn read_groups(buffer: &mut Cursor<'_>, budget: usize) -> (r: Result<u64, Error>)
    requires
        budget <= MAX_VARINT_BYTES,
    ensures
        final(buffer).bytes() == old(buffer).bytes(),
        match parse_groups(old(buffer).remaining(), budget as nat) {
            Ok((v, n)) => {
                &&& r is Ok && r->Ok_0 == v
                &&& final(buffer).consumed() == old(buffer).consumed() + n
                &&& final(buffer).remaining() == old(buffer).remaining().skip(n as int)
            },
            Err(e) => r is Err && r->Err_0 == e,
        },
    decreases budget,
{
    if budget == 0 {
        return Err(Error::VarIntTooLong);
    }
    let byte = buffer.take(1)?[0];
    if byte < 128 {
        Ok(byte as u64)
    } else {
        proof {
            lemma_parse_groups_bounds(buffer.remaining(), (budget - 1) as nat);
            assert(pow128((budget - 1) as nat) <= 0x1000_0000) by {
                reveal_with_fuel(pow128, 5);
            }
        }
        let higher = read_groups(buffer, budget - 1)?;
        Ok((byte - 128) as u64 + 128 * higher)
    }
}

/// Appends the groups of `x`.
fn write_groups(buffer: &mut Vec<u8>, x: u32)
    ensures
        final(buffer)@ == old(buffer)@ + groups(x as nat),
    decreases x,
{
    if x < 128 {
        buffer.push(x as u8);
    } else {
        buffer.push((128 + x % 128) as u8);
        write_groups(buffer, x / 128);
    }
}

impl VarInt {
    /// Appends the encoding of the number to `writer`.
    pub fn write_to(&self, writer: &mut Vec<u8>)
        ensures
            final(writer)@ == old(writer)@ + <VarInt as Writeable>::wire(self.0),
    {
        write_groups(writer, i32_to_u32(self.0));
    }
}

impl Readable for VarInt {
    open spec fn parse(bytes: Seq<u8>) -> Result<(i32, nat), Error> {
        match parse_groups(bytes, MAX_VARINT_BYTES as nat) {
            Ok((v, n)) => Ok((from_bits(v), n)),
            Err(e) => Err(e),
        }
    }

    fn read(buffer: &mut Cursor<'_>) -> (r: Result<Self, Error>) {
        let bits = read_groups(buffer, MAX_VARINT_BYTES)?;
        let low: u32 = (bits % 0x1_0000_0000) as u32;
        Ok(VarInt(u32_to_i32(low)))
    }
}

impl Writeable for VarInt {
    open spec fn wire(v: i32) -> Seq<u8> {
        groups(to_unsigned(v as int, 4))
    }

    open spec fn write_error(v: i32) -> Option<Error> {
        None
    }

    fn write(&self, buffer: &mut Vec<u8>) -> (r: Result<(), Error>) {
        self.write_to(buffer);
        Ok(())
    }
}

impl WireValue for VarInt {
    open spec fn canonical(v: i32) -> bool {
        true
    }

    proof fn lemma_canonical_writes(v: i32) {
    }

    proof fn lemma_round_trip(v: i32, rest: Seq<u8>) {
        lemma_pow256_values();
        lemma_pow128_values();
        lemma_signed_round_trip(v as int, 4);
        lemma_groups_round_trip(to_unsigned(v as int, 4), MAX_VARINT_BYTES as nat, rest);
    }

    proof fn lemma_prefix_incomplete(v: i32, k: int) {
        lemma_pow256_values();
        lemma_pow128_values();
        lemma_signed_round_trip(v as int, 4);
        if 0 <= k < Self::wire(v).len() {
            lemma_groups_prefix(to_unsigned(v as int, 4), MAX_VARINT_BYTES as nat, k);
        }
    }
}

impl From<i32> for VarInt {
    fn from(x: i32) -> (r: Self) {
        VarInt(x)
    }
}

impl vstd::std_specs::convert::FromSpecImpl<i32> for VarInt {
    open spec fn obeys_from_spec() -> bool {
        true
    }

    open spec fn from_spec(x: i32) -> Self {
        VarInt(x)
    }
}

impl From<VarInt> for i32 {
    fn from(x: VarInt) -> (r: Self) {
        x.0
    }
}

impl vstd::std_specs::convert::FromSpecImpl<VarInt> for i32 {
    open spec fn obeys_from_spec() -> bool {
        true
    }

    open spec fn from_spec(x: VarInt) -> Self {
        x.0
    }
}

/// The number with the low 32 bits of `x`.
impl From<usize> for VarInt {
    fn from(x: usize) -> (r: Self) {
        VarInt(x as i32)
    }
}

impl vstd::std_specs::convert::FromSpecImpl<usize> for VarInt {
    open spec fn obeys_from_spec() -> bool {
        true
    }

    open spec fn from_spec(x: usize) -> Self {
        VarInt(x as i32)
    }
}

/// The number as a size, where it is not negative.
impl TryFrom<VarInt> for usize {
    type Error = core::num::TryFromIntError;

    fn try_from(value: VarInt) -> (r: Result<Self, Self::Error>) {
        usize::try_from(value.0)
    }
}

impl vstd::std_specs::convert::TryFromSpecImpl<VarInt> for usize {
    open spec fn obeys_try_from_spec() -> bool {
        true
    }

    open spec fn try_from_spec(value: VarInt) -> Result<Self, Self::Error> {
        <usize as vstd::std_specs::convert::TryFromSpec<i32>>::try_from_spec(value.0)
    }
}

} // verus!
