//! Reading and writing of wire values.

use vstd::prelude::*;

pub mod integers;
pub mod sequence;
pub mod string;
pub mod varint;

verus! {

/// Why a value could not be read from, or written to, a byte buffer.
#[derive(Debug, Clone, Copy, PartialEq, Eq, Structural)]
pub enum Error {
    /// Fewer bytes are left than the value needs.
    UnexpectedEof,
    /// A boolean tag other than 0 or 1.
    InvalidBool(u8),
    /// The 64 bytes of a fixed string are not valid UTF-8.
    InvalidUtf8,
    /// A variable-length integer that does not end within 5 bytes.
    VarIntTooLong,
    /// A length prefix that stands for no element count.
    InvalidLength,
    /// A declared element count above `MAX_LENGTH`.
    LengthTooLarge,
    /// A discriminator byte that the packet union does not list.
    UnknownPacketId(u8),
    /// A string of more than 64 bytes.
    StringTooLong,
    /// An element count that the length prefix cannot hold.
    LengthOverflow,
}

/// A read position in a borrowed byte slice.
pub struct Cursor<'a> {
    data: &'a [u8],
    pos: usize,
}

impl<'a> Cursor<'a> {
    #[verifier::type_invariant]
    spec fn inv(self) -> bool {
        self.pos <= self.data@.len()
    }

    /// The whole slice that the cursor reads from.
    pub closed spec fn bytes(self) -> Seq<u8> {
        self.data@
    }

    /// The number of bytes already consumed.
    pub closed spec fn consumed(self) -> nat {
        if self.pos <= self.data@.len() {
            self.pos as nat
        } else {
            self.data@.len()
        }
    }

    /// The bytes that are still to be read.
    pub open spec fn remaining(self) -> Seq<u8> {
        self.bytes().skip(self.consumed() as int)
    }

    /// No more bytes are consumed than there are.
    pub proof fn lemma_in_bounds(self)
        ensures
            self.consumed() <= self.bytes().len(),
            self.remaining().len() == self.bytes().len() - self.consumed(),
    {
    }

    /// A cursor at the start of `data`.
    pub fn new(data: &'a [u8]) -> (c: Self)
        ensures
            c.bytes() == data@,
            c.consumed() == 0,
    {
        Cursor { data, pos: 0 }
    }

    /// The number of bytes consumed so far.
    pub fn position(&self) -> (p: usize)
        ensures
            p == self.consumed(),
            p <= self.bytes().len(),
    {
        proof {
            use_type_invariant(self);
        }
        self.pos
    }

    /// The number of bytes that are still to be read.
    pub fn remaining_len(&self) -> (n: usize)
        ensures
            n == self.remaining().len(),
            self.consumed() + n == self.bytes().len(),
    {
        proof {
            use_type_invariant(self);
        }
        self.data.len() - self.pos
    }

    /// Takes the next `n` bytes, or fails without moving when fewer are left.
    pub fn take(&mut self, n: usize) -> (r: Result<&'a [u8], Error>)
        ensures
            final(self).bytes() == old(self).bytes(),
            old(self).remaining().len() >= n ==> {
                &&& r is Ok && r->Ok_0@ == old(self).remaining().take(n as int)
                &&& final(self).consumed() == old(self).consumed() + n
                &&& final(self).remaining() == old(self).remaining().skip(n as int)
            },
            old(self).remaining().len() < n ==> {
                &&& r == Err::<&[u8], Error>(Error::UnexpectedEof)
                &&& final(self).consumed() == old(self).consumed()
            },
    {
        proof {
            use_type_invariant(&*self);
        }
        if self.data.len() - self.pos < n {
            return Err(Error::UnexpectedEof);
        }
        let out = vstd::slice::slice_subrange(self.data, self.pos, self.pos + n);
        self.pos = self.pos + n;
        Ok(out)
    }
}

/// A type that can be read from a byte cursor.
pub trait Readable: Sized + DeepView {
    /// What reading from `bytes` gives: the value's view and the number of
    /// bytes consumed, or the error.
    spec fn parse(bytes: Seq<u8>) -> Result<(Self::V, nat), Error>;

    /// Reads one value at the cursor. On success the cursor has moved past
    /// the value; on failure where it stands is left open.
    fn read(buffer: &mut Cursor<'_>) -> (r: Result<Self, Error>)
        ensures
            final(buffer).bytes() == old(buffer).bytes(),
            match Self::parse(old(buffer).remaining()) {
                Ok((v, n)) => {
                    &&& r is Ok && r->Ok_0.deep_view() == v
                    &&& final(buffer).consumed() == old(buffer).consumed() + n
                    &&& final(buffer).remaining() == old(buffer).remaining().skip(n as int)
                },
                Err(e) => r is Err && r->Err_0 == e,
            },
    ;
}

/// A type that can be appended to a byte buffer.
pub trait Writeable: Sized + DeepView {
    /// The bytes that stand for `v` on the wire.
    spec fn wire(v: Self::V) -> Seq<u8>;

    /// The error that writing `v` gives, if it gives one.
    spec fn write_error(v: Self::V) -> Option<Error>;

    /// Appends the value's bytes to `buffer`, or fails and leaves it as it was.
    fn write(&self, buffer: &mut Vec<u8>) -> (r: Result<(), Error>)
        ensures
            match Self::write_error(self.deep_view()) {
                None => r is Ok && final(buffer)@ == old(buffer)@ + Self::wire(self.deep_view()),
                Some(e) => r == Err::<(), Error>(e) && final(buffer)@ == old(buffer)@,
            },
    ;
}

/// A wire value that can be told apart from whatever follows it: its bytes
/// read back as the value itself, and no proper prefix of them reads as
/// anything.
pub trait WireValue: Readable + Writeable {
    /// Whether `v` is a value that a read can give: one in the type's valid
    /// range, in the one form that the wire keeps.
    spec fn canonical(v: Self::V) -> bool;

    /// A canonical value is written without error.
    proof fn lemma_canonical_writes(v: Self::V)
        requires
            Self::canonical(v),
        ensures
            Self::write_error(v) is None,
    ;

    /// Reading the bytes of a canonical value gives the value back and
    /// consumes exactly those bytes, whatever follows them.
    proof fn lemma_round_trip(v: Self::V, rest: Seq<u8>)
        requires
            Self::canonical(v),
        ensures
            Self::parse(Self::wire(v) + rest) == Ok::<(Self::V, nat), Error>(
                (v, Self::wire(v).len()),
            ),
    ;

    /// Reading a proper prefix of the bytes of a canonical value asks for
    /// more bytes.
    proof fn lemma_prefix_incomplete(v: Self::V, k: int)
        requires
            Self::canonical(v),
        ensures
            0 <= k < Self::wire(v).len() ==> Self::parse(Self::wire(v).take(k)) == Err::<
                (Self::V, nat),
                Error,
            >(Error::UnexpectedEof),
    ;
}

/// Appends `bytes` to `buffer`.
pub fn append_bytes(buffer: &mut Vec<u8>, bytes: &[u8])
    ensures
        final(buffer)@ == old(buffer)@ + bytes@,
{
    let mut i: usize = 0;
    while i < bytes.len()
        invariant
            i <= bytes@.len(),
            buffer@ == old(buffer)@ + bytes@.take(i as int),
        decreases bytes@.len() - i,
    {
        buffer.push(bytes[i]);
        i = i + 1;
    }
}

/// Writes `value` behind the bytes in `buffer`, or, where that fails, cuts
/// `buffer` back to its first `start` bytes.
pub fn write_field<W: Writeable>(value: &W, buffer: &mut Vec<u8>, start: usize) -> (r: Result<
    (),
    Error,
>)
    requires
        start <= old(buffer)@.len(),
    ensures
        match W::write_error(value.deep_view()) {
            None => r is Ok && final(buffer)@ == old(buffer)@ + W::wire(value.deep_view()),
            Some(e) => r == Err::<(), Error>(e) && final(buffer)@ == old(buffer)@.take(
                start as int,
            ),
        },
{
    match value.write(buffer) {
        Ok(()) => Ok(()),
        Err(e) => {
            buffer.truncate(start);
            Err(e)
        },
    }
}

/// Skipping twice is skipping once by the sum.
pub proof fn lemma_skip_skip(bytes: Seq<u8>, a: int, b: int)
    requires
        0 <= a,
        0 <= b,
        a + b <= bytes.len(),
    ensures
        bytes.skip(a).skip(b) == bytes.skip(a + b),
{
}

/// What reading a `T` makes of the first `k` bytes of the bytes of a
/// canonical `v` with `tail` behind them: it asks for more where the cut
/// falls within `v`, and else gives `v` and leaves the cut part of `tail`.
pub proof fn lemma_read_cut<T: WireValue>(v: T::V, tail: Seq<u8>, k: int)
    requires
        T::canonical(v),
        0 <= k <= T::wire(v).len() + tail.len(),
    ensures
        k < T::wire(v).len() ==> T::parse((T::wire(v) + tail).take(k)) == Err::<(T::V, nat), Error>(
            Error::UnexpectedEof,
        ),
        k >= T::wire(v).len() ==> T::parse((T::wire(v) + tail).take(k)) == Ok::<
            (T::V, nat),
            Error,
        >((v, T::wire(v).len())) && (T::wire(v) + tail).take(k).skip(T::wire(v).len() as int)
            == tail.take(k - T::wire(v).len()),
{
    let head = T::wire(v);
    let cut = (head + tail).take(k);
    if k < head.len() {
        T::lemma_prefix_incomplete(v, k);
        assert(cut == head.take(k));
    } else {
        let part = tail.take(k - head.len());
        T::lemma_round_trip(v, part);
        assert(cut == head + part);
    }
}

} // verus!
