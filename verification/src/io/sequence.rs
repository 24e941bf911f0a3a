//! Composite wire values: the 1024-byte array, optional values, sequences
//! behind a count, and the byte sequence that runs to the end of its window.

use core::marker::PhantomData;
use vstd::prelude::*;
use crate::io::varint::VarInt;
use crate::io::{
    append_bytes, lemma_read_cut, lemma_skip_skip, write_field, Cursor, Error, Readable, WireValue,
    Writeable,
};

verus! {

/// The number of bytes in a `ByteArray`.
pub const BYTE_ARRAY_LENGTH: usize = 1024;

/// The highest element count that a length-prefixed sequence may declare.
pub const MAX_LENGTH: usize = 1024 * 1024;

/// A block of 1024 bytes, carried as it is.
#[derive(Clone, Debug, PartialEq, Eq)]
pub struct ByteArray(pub [u8; 1024]);

impl DeepView for ByteArray {
    type V = Seq<u8>;

    open spec fn deep_view(&self) -> Seq<u8> {
        self.0@
    }
}

impl Readable for ByteArray {
    open spec fn parse(bytes: Seq<u8>) -> Result<(Seq<u8>, nat), Error> {
        if bytes.len() < BYTE_ARRAY_LENGTH {
            Err(Error::UnexpectedEof)
        } else {
            Ok((bytes.take(BYTE_ARRAY_LENGTH as int), BYTE_ARRAY_LENGTH as nat))
        }
    }

    fn read(buffer: &mut Cursor<'_>) -> (r: Result<Self, Error>) {
        let window = buffer.take(BYTE_ARRAY_LENGTH)?;
        let mut block = [0u8; 1024];
        let mut i: usize = 0;
        while i < BYTE_ARRAY_LENGTH
            invariant
                i <= BYTE_ARRAY_LENGTH,
                window@.len() == BYTE_ARRAY_LENGTH,
                forall|j: int| 0 <= j < i ==> block@[j] == window@[j],
            decreases BYTE_ARRAY_LENGTH - i,
        {
            block[i] = window[i];
            i = i + 1;
        }
        assert(block@ == window@);
        Ok(ByteArray(block))
    }
}

impl Writeable for ByteArray {
    open spec fn wire(v: Seq<u8>) -> Seq<u8> {
        v
    }

    open spec fn write_error(v: Seq<u8>) -> Option<Error> {
        None
    }

    fn write(&self, buffer: &mut Vec<u8>) -> (r: Result<(), Error>) {
        append_bytes(buffer, self.0.as_slice());
        Ok(())
    }
}

impl WireValue for ByteArray {
    open spec fn canonical(v: Seq<u8>) -> bool {
        v.len() == BYTE_ARRAY_LENGTH
    }

    proof fn lemma_canonical_writes(v: Seq<u8>) {
    }

    proof fn lemma_round_trip(v: Seq<u8>, rest: Seq<u8>) {
        assert((v + rest).take(BYTE_ARRAY_LENGTH as int) == v);
    }

    proof fn lemma_prefix_incomplete(v: Seq<u8>, k: int) {
    }
}

impl<T: Readable> Readable for Option<T> {
    open spec fn parse(bytes: Seq<u8>) -> Result<(Option<T::V>, nat), Error> {
        match bool::parse(bytes) {
            Err(e) => Err(e),
            Ok((false, n)) => Ok((None, n)),
            Ok((true, n)) => match T::parse(bytes.skip(n as int)) {
                Ok((v, m)) => Ok((Some(v), n + m)),
                Err(e) => Err(e),
            },
        }
    }

    fn read(buffer: &mut Cursor<'_>) -> (r: Result<Self, Error>) {
        let present = bool::read(buffer)?;
        if present {
            let inner = T::read(buffer)?;
            proof {
                buffer.lemma_in_bounds();
                old(buffer).lemma_in_bounds();
                lemma_skip_skip(
                    old(buffer).remaining(),
                    1,
                    buffer.consumed() - old(buffer).consumed() - 1,
                );
            }
            Ok(Some(inner))
        } else {
            Ok(None)
        }
    }
}

impl<T: Writeable> Writeable for Option<T> {
    open spec fn wire(v: Option<T::V>) -> Seq<u8> {
        match v {
            None => bool::wire(false),
            Some(inner) => bool::wire(true) + T::wire(inner),
        }
    }

    open spec fn write_error(v: Option<T::V>) -> Option<Error> {
        match v {
            None => None,
            Some(inner) => T::write_error(inner),
        }
    }

    fn write(&self, buffer: &mut Vec<u8>) -> (r: Result<(), Error>) {
        match self {
            None => {
                buffer.push(0);
                Ok(())
            },
            Some(inner) => {
                let start = buffer.len();
                buffer.push(1);
                write_field(inner, buffer, start)?;
                Ok(())
            },
        }
    }
}

impl<T: WireValue> WireValue for Option<T> {
    open spec fn canonical(v: Option<T::V>) -> bool {
        match v {
            None => true,
            Some(inner) => T::canonical(inner),
        }
    }

    proof fn lemma_canonical_writes(v: Option<T::V>) {
        if let Some(inner) = v {
            T::lemma_canonical_writes(inner);
        }
    }

    proof fn lemma_round_trip(v: Option<T::V>, rest: Seq<u8>) {
        if let Some(inner) = v {
            T::lemma_round_trip(inner, rest);
            assert((Self::wire(v) + rest).skip(1) == T::wire(inner) + rest);
        }
    }

    proof fn lemma_prefix_incomplete(v: Option<T::V>, k: int) {
        if let Some(inner) = v {
            if 1 <= k < Self::wire(v).len() {
                T::lemma_prefix_incomplete(inner, k - 1);
                assert(Self::wire(v).take(k).skip(1) == T::wire(inner).take(k - 1));
            }
        }
    }
}

/// A value is written through a reference as it is written itself.
impl<'a, T: Writeable> Writeable for &'a T {
    open spec fn wire(v: T::V) -> Seq<u8> {
        T::wire(v)
    }

    open spec fn write_error(v: T::V) -> Option<Error> {
        T::write_error(v)
    }

    fn write(&self, buffer: &mut Vec<u8>) -> (r: Result<(), Error>) {
        T::write(*self, buffer)
    }
}

/// Two values, one behind the other. Longer rows of fields are pairs within
/// pairs.
impl<A: Readable, B: Readable> Readable for (A, B) {
    open spec fn parse(bytes: Seq<u8>) -> Result<((A::V, B::V), nat), Error> {
        match A::parse(bytes) {
            Err(e) => Err(e),
            Ok((a, n)) => match B::parse(bytes.skip(n as int)) {
                Err(e) => Err(e),
                Ok((b, m)) => Ok(((a, b), n + m)),
            },
        }
    }

    fn read(buffer: &mut Cursor<'_>) -> (r: Result<Self, Error>) {
        let a = A::read(buffer)?;
        let ghost middle = buffer.consumed();
        let b = B::read(buffer)?;
        proof {
            buffer.lemma_in_bounds();
            old(buffer).lemma_in_bounds();
            lemma_skip_skip(
                old(buffer).remaining(),
                middle - old(buffer).consumed(),
                buffer.consumed() - middle,
            );
        }
        Ok((a, b))
    }
}

impl<A: Writeable, B: Writeable> Writeable for (A, B) {
    open spec fn wire(v: (A::V, B::V)) -> Seq<u8> {
        A::wire(v.0) + B::wire(v.1)
    }

    open spec fn write_error(v: (A::V, B::V)) -> Option<Error> {
        match A::write_error(v.0) {
            Some(e) => Some(e),
            None => B::write_error(v.1),
        }
    }

    fn write(&self, buffer: &mut Vec<u8>) -> (r: Result<(), Error>) {
        let start = buffer.len();
        write_field(&self.0, buffer, start)?;
        write_field(&self.1, buffer, start)?;
        assert(buffer@ == old(buffer)@ + (A::wire(self.0.deep_view()) + B::wire(
            self.1.deep_view(),
        )));
        Ok(())
    }
}

impl<A: WireValue, B: WireValue> WireValue for (A, B) {
    open spec fn canonical(v: (A::V, B::V)) -> bool {
        A::canonical(v.0) && B::canonical(v.1)
    }

    proof fn lemma_canonical_writes(v: (A::V, B::V)) {
        A::lemma_canonical_writes(v.0);
        B::lemma_canonical_writes(v.1);
    }

    proof fn lemma_round_trip(v: (A::V, B::V), rest: Seq<u8>) {
        let first = A::wire(v.0);
        let second = B::wire(v.1);
        A::lemma_round_trip(v.0, second + rest);
        B::lemma_round_trip(v.1, rest);
        assert(Self::wire(v) + rest == first + (second + rest));
        assert((first + (second + rest)).skip(first.len() as int) == second + rest);
    }

    proof fn lemma_prefix_incomplete(v: (A::V, B::V), k: int) {
        let first = A::wire(v.0);
        if 0 <= k < Self::wire(v).len() {
            lemma_read_cut::<A>(v.0, B::wire(v.1), k);
            if k >= first.len() {
                B::lemma_prefix_incomplete(v.1, k - first.len());
            }
        }
    }
}

/// A byte sequence that takes all the bytes left in its window.
pub struct LengthInferredVecU8(pub Vec<u8>);

impl DeepView for LengthInferredVecU8 {
    type V = Seq<u8>;

    open spec fn deep_view(&self) -> Seq<u8> {
        self.0@
    }
}

impl Readable for LengthInferredVecU8 {
    open spec fn parse(bytes: Seq<u8>) -> Result<(Seq<u8>, nat), Error> {
        Ok((bytes, bytes.len()))
    }

    fn read(buffer: &mut Cursor<'_>) -> (r: Result<Self, Error>) {
        let n = buffer.remaining_len();
        let window = buffer.take(n)?;
        assert(window@ == old(buffer).remaining());
        let mut out = Vec::new();
        append_bytes(&mut out, window);
        Ok(LengthInferredVecU8(out))
    }
}

impl Writeable for LengthInferredVecU8 {
    open spec fn wire(v: Seq<u8>) -> Seq<u8> {
        v
    }

    open spec fn write_error(v: Seq<u8>) -> Option<Error> {
        None
    }

    fn write(&self, buffer: &mut Vec<u8>) -> (r: Result<(), Error>) {
        append_bytes(buffer, self.0.as_slice());
        Ok(())
    }
}

/// An integer that can stand before a sequence as its element count.
pub trait LengthPrefix: WireValue {
    /// The element count that the prefix `p` stands for, if it stands for one.
    spec fn count(p: Self::V) -> Option<nat>;

    /// The prefix that stands for `n` elements, if the type has one.
    spec fn for_count(n: nat) -> Option<Self::V>;

    /// The prefix made for a count is canonical and stands for that count.
    proof fn lemma_for_count(n: nat)
        ensures
            Self::for_count(n) matches Some(p) ==> Self::count(p) == Some(n) && Self::canonical(p),
    ;

    /// The element count that this prefix stands for.
    fn to_count(&self) -> (r: Option<usize>)
        ensures
            match Self::count(self.deep_view()) {
                Some(n) => n <= usize::MAX && r == Some(n as usize),
                None => r is None,
            },
    ;

    /// The prefix that stands for `n` elements.
    fn from_count(n: usize) -> (r: Option<Self>)
        ensures
            match Self::for_count(n as nat) {
                Some(p) => r is Some && r->Some_0.deep_view() == p,
                None => r is None,
            },
    ;
}

impl LengthPrefix for u16 {
    open spec fn count(p: u16) -> Option<nat> {
        Some(p as nat)
    }

    open spec fn for_count(n: nat) -> Option<u16> {
        if n <= u16::MAX {
            Some(n as u16)
        } else {
            None
        }
    }

    proof fn lemma_for_count(n: nat) {
    }

    fn to_count(&self) -> (r: Option<usize>) {
        Some(*self as usize)
    }

    fn from_count(n: usize) -> (r: Option<Self>) {
        if n <= 0xffff {
            Some(n as u16)
        } else {
            None
        }
    }
}

impl LengthPrefix for VarInt {
    open spec fn count(p: i32) -> Option<nat> {
        if p >= 0 {
            Some(p as nat)
        } else {
            None
        }
    }

    open spec fn for_count(n: nat) -> Option<i32> {
        if n <= i32::MAX {
            Some(n as i32)
        } else {
            None
        }
    }

    proof fn lemma_for_count(n: nat) {
    }

    fn to_count(&self) -> (r: Option<usize>) {
        if self.0 >= 0 {
            Some(self.0 as usize)
        } else {
            None
        }
    }

    fn from_count(n: usize) -> (r: Option<Self>) {
        if n <= 0x7fff_ffff {
            Some(VarInt(n as i32))
        } else {
            None
        }
    }
}

/// What reading `count` values of `T` one after another from `bytes` gives:
/// their views and the number of bytes they took together, or the first error.
pub open spec fn parse_elements<T: Readable>(bytes: Seq<u8>, count: nat) -> Result<
    (Seq<T::V>, nat),
    Error,
>
    decreases count,
{
    if count == 0 {
        Ok((Seq::empty(), 0))
    } else {
        match parse_elements::<T>(bytes, (count - 1) as nat) {
            Err(e) => Err(e),
            Ok((vs, n)) => match T::parse(bytes.skip(n as int)) {
                Err(e) => Err(e),
                Ok((v, m)) => Ok((vs.push(v), n + m)),
            },
        }
    }
}

/// The bytes of the values `vs`, one after another.
pub open spec fn wire_elements<T: Writeable>(vs: Seq<T::V>) -> Seq<u8>
    decreases vs.len(),
{
    if vs.len() == 0 {
        Seq::empty()
    } else {
        wire_elements::<T>(vs.drop_last()) + T::wire(vs.last())
    }
}

/// The error of the first of `vs` that cannot be written, if there is one.
pub open spec fn elements_error<T: Writeable>(vs: Seq<T::V>) -> Option<Error>
    decreases vs.len(),
{
    if vs.len() == 0 {
        None
    } else {
        match elements_error::<T>(vs.drop_last()) {
            Some(e) => Some(e),
            None => T::write_error(vs.last()),
        }
    }
}

/// Whether each of `vs` is canonical.
pub open spec fn all_canonical<T: WireValue>(vs: Seq<T::V>) -> bool {
    forall|i: int| 0 <= i < vs.len() ==> T::canonical(#[trigger] vs[i])
}

/// Once reading the elements has failed, asking for more of them fails alike.
pub proof fn lemma_parse_elements_fails_on<T: Readable>(bytes: Seq<u8>, i: nat, count: nat)
    requires
        i <= count,
        parse_elements::<T>(bytes, i) is Err,
    ensures
        parse_elements::<T>(bytes, count) == parse_elements::<T>(bytes, i),
    decreases count,
{
    if i < count {
        lemma_parse_elements_fails_on::<T>(bytes, i, (count - 1) as nat);
    }
}

/// The first error among the leading elements is the first error of all.
pub proof fn lemma_elements_error_stays<T: Writeable>(vs: Seq<T::V>, i: int)
    requires
        0 <= i <= vs.len(),
        elements_error::<T>(vs.take(i)) is Some,
    ensures
        elements_error::<T>(vs) == elements_error::<T>(vs.take(i)),
    decreases vs.len(),
{
    if i < vs.len() {
        assert(vs.drop_last().take(i) == vs.take(i));
        lemma_elements_error_stays::<T>(vs.drop_last(), i);
    } else {
        assert(vs.take(i) == vs);
    }
}

/// Canonical elements are written without error.
pub proof fn lemma_canonical_elements_write<T: WireValue>(vs: Seq<T::V>)
    requires
        all_canonical::<T>(vs),
    ensures
        elements_error::<T>(vs) is None,
    decreases vs.len(),
{
    if vs.len() > 0 {
        lemma_canonical_elements_write::<T>(vs.drop_last());
        T::lemma_canonical_writes(vs.last());
    }
}

/// The bytes of canonical elements, followed by anything, read back as those
/// elements.
pub proof fn lemma_elements_round_trip<T: WireValue>(vs: Seq<T::V>, rest: Seq<u8>)
    requires
        all_canonical::<T>(vs),
    ensures
        parse_elements::<T>(wire_elements::<T>(vs) + rest, vs.len()) == Ok::<
            (Seq<T::V>, nat),
            Error,
        >((vs, wire_elements::<T>(vs).len())),
    decreases vs.len(),
{
    if vs.len() > 0 {
        let head = wire_elements::<T>(vs.drop_last());
        let last = T::wire(vs.last());
        let all = wire_elements::<T>(vs) + rest;
        lemma_elements_round_trip::<T>(vs.drop_last(), last + rest);
        T::lemma_round_trip(vs.last(), rest);
        assert(all == head + (last + rest));
        assert(all.skip(head.len() as int) == last + rest);
        assert(vs.drop_last().push(vs.last()) == vs);
        assert(parse_elements::<T>(all, (vs.len() - 1) as nat) == Ok::<(Seq<T::V>, nat), Error>(
            (vs.drop_last(), head.len()),
        ));
        assert(T::parse(all.skip(head.len() as int)) == Ok::<(T::V, nat), Error>(
            (vs.last(), last.len()),
        ));
    } else {
        assert(vs == Seq::<T::V>::empty());
    }
}

/// A proper prefix of the bytes of canonical elements asks for more bytes.
pub proof fn lemma_elements_prefix<T: WireValue>(vs: Seq<T::V>, k: int)
    requires
        all_canonical::<T>(vs),
        0 <= k < wire_elements::<T>(vs).len(),
    ensures
        parse_elements::<T>(wire_elements::<T>(vs).take(k), vs.len()) == Err::<
            (Seq<T::V>, nat),
            Error,
        >(Error::UnexpectedEof),
    decreases vs.len(),
{
    if vs.len() > 0 {
        let head = wire_elements::<T>(vs.drop_last());
        let last = T::wire(vs.last());
        let cut = wire_elements::<T>(vs).take(k);
        if k < head.len() {
            lemma_elements_prefix::<T>(vs.drop_last(), k);
            assert(cut == head.take(k));
        } else {
            let part = last.take(k - head.len());
            lemma_elements_round_trip::<T>(vs.drop_last(), part);
            T::lemma_prefix_incomplete(vs.last(), k - head.len());
            assert(cut == head + part);
            assert((head + part).skip(head.len() as int) == part);
        }
    }
}

/// A sequence of values behind a count of the integer type `P`.
pub struct LengthPrefixedVec<P, T>(pub Vec<T>, pub PhantomData<P>);

/// A sequence behind a 16-bit count.
pub type ShortPrefixedVec<T> = LengthPrefixedVec<u16, T>;

/// A sequence behind a variable-length count.
pub type VarIntPrefixedVec<T> = LengthPrefixedVec<VarInt, T>;

impl<P, T: DeepView> DeepView for LengthPrefixedVec<P, T> {
    type V = Seq<T::V>;

    open spec fn deep_view(&self) -> Seq<T::V> {
        self.0.deep_view()
    }
}

impl<P: LengthPrefix, T: Readable> Readable for LengthPrefixedVec<P, T> {
    open spec fn parse(bytes: Seq<u8>) -> Result<(Seq<T::V>, nat), Error> {
        match P::parse(bytes) {
            Err(e) => Err(e),
            Ok((p, n)) => match P::count(p) {
                None => Err(Error::InvalidLength),
                Some(count) => if count > MAX_LENGTH {
                    Err(Error::LengthTooLarge)
                } else {
                    match parse_elements::<T>(bytes.skip(n as int), count) {
                        Err(e) => Err(e),
                        Ok((vs, m)) => Ok((vs, n + m)),
                    }
                },
            },
        }
    }

    fn read(buffer: &mut Cursor<'_>) -> (r: Result<Self, Error>) {
        let prefix = P::read(buffer)?;
        let length = match prefix.to_count() {
            Some(n) => n,
            None => {
                return Err(Error::InvalidLength);
            },
        };
        if length > MAX_LENGTH {
            return Err(Error::LengthTooLarge);
        }
        let ghost start = buffer.remaining();
        let ghost base = buffer.consumed();
        proof {
            buffer.lemma_in_bounds();
        }
        let mut out: Vec<T> = Vec::new();
        let mut i: usize = 0;
        assert(out.deep_view() == Seq::<T::V>::empty());
        while i < length
            invariant
                i <= length <= MAX_LENGTH,
                P::parse(old(buffer).remaining()) matches Ok((p, n)) && P::count(p) == Some(
                    length as nat,
                ) && start == old(buffer).remaining().skip(n as int) && base == old(
                    buffer,
                ).consumed() + n,
                buffer.bytes() == old(buffer).bytes(),
                base <= buffer.consumed() <= buffer.bytes().len(),
                start.len() + base == buffer.bytes().len(),
                buffer.remaining() == start.skip(buffer.consumed() - base),
                parse_elements::<T>(start, i as nat) == Ok::<(Seq<T::V>, nat), Error>(
                    (out.deep_view(), (buffer.consumed() - base) as nat),
                ),
            decreases length - i,
        {
            let ghost before = buffer.consumed() - base;
            let ghost seen = out.deep_view();
            match T::read(buffer) {
                Ok(v) => {
                    out.push(v);
                    proof {
                        buffer.lemma_in_bounds();
                        lemma_skip_skip(start, before, buffer.consumed() - base - before);
                        assert(out.deep_view() == seen.push(v.deep_view()));
                    }
                },
                Err(e) => {
                    proof {
                        lemma_parse_elements_fails_on::<T>(start, (i + 1) as nat, length as nat);
                    }
                    return Err(e);
                },
            }
            i = i + 1;
        }
        proof {
            old(buffer).lemma_in_bounds();
            lemma_skip_skip(
                old(buffer).remaining(),
                base - old(buffer).consumed(),
                buffer.consumed() - base,
            );
        }
        Ok(LengthPrefixedVec(out, PhantomData))
    }
}

impl<P: LengthPrefix, T: Writeable> Writeable for LengthPrefixedVec<P, T> {
    open spec fn wire(v: Seq<T::V>) -> Seq<u8> {
        match P::for_count(v.len()) {
            Some(p) => P::wire(p) + wire_elements::<T>(v),
            None => Seq::empty(),
        }
    }

    open spec fn write_error(v: Seq<T::V>) -> Option<Error> {
        match P::for_count(v.len()) {
            Some(p) => elements_error::<T>(v),
            None => Some(Error::LengthOverflow),
        }
    }

    fn write(&self, buffer: &mut Vec<u8>) -> (r: Result<(), Error>) {
        let start = buffer.len();
        let ghost vs = self.0.deep_view();
        let prefix = match P::from_count(self.0.len()) {
            Some(p) => p,
            None => {
                return Err(Error::LengthOverflow);
            },
        };
        proof {
            P::lemma_for_count(vs.len());
            P::lemma_canonical_writes(prefix.deep_view());
        }
        prefix.write(buffer)?;
        let ghost head = buffer@;
        let mut i: usize = 0;
        while i < self.0.len()
            invariant
                i <= self.0.len(),
                vs == self.0.deep_view(),
                P::for_count(vs.len()) == Some(prefix.deep_view()),
                start == old(buffer)@.len(),
                head == old(buffer)@ + P::wire(prefix.deep_view()),
                buffer@ == head + wire_elements::<T>(vs.take(i as int)),
                elements_error::<T>(vs.take(i as int)) is None,
            decreases self.0.len() - i,
        {
            assert(vs.take(i + 1).drop_last() == vs.take(i as int));
            proof {
                if T::write_error(vs[i as int]) is Some {
                    lemma_elements_error_stays::<T>(vs, i + 1);
                }
            }
            write_field(&self.0[i], buffer, start)?;
            i = i + 1;
        }
        assert(vs.take(i as int) == vs);
        Ok(())
    }
}

impl<P: LengthPrefix, T: WireValue> WireValue for LengthPrefixedVec<P, T> {
    /// At most `MAX_LENGTH` canonical elements, with a count that the prefix
    /// type can hold.
    open spec fn canonical(v: Seq<T::V>) -> bool {
        v.len() <= MAX_LENGTH && P::for_count(v.len()) is Some && all_canonical::<T>(v)
    }

    proof fn lemma_canonical_writes(v: Seq<T::V>) {
        lemma_canonical_elements_write::<T>(v);
    }

    proof fn lemma_round_trip(v: Seq<T::V>, rest: Seq<u8>) {
        let p = P::for_count(v.len())->Some_0;
        let head = P::wire(p);
        let body = wire_elements::<T>(v);
        P::lemma_for_count(v.len());
        P::lemma_round_trip(p, body + rest);
        lemma_elements_round_trip::<T>(v, rest);
        assert(Self::wire(v) + rest == head + (body + rest));
        assert((head + (body + rest)).skip(head.len() as int) == body + rest);
    }

    proof fn lemma_prefix_incomplete(v: Seq<T::V>, k: int) {
        let p = P::for_count(v.len())->Some_0;
        let head = P::wire(p);
        let body = wire_elements::<T>(v);
        let cut = Self::wire(v).take(k);
        P::lemma_for_count(v.len());
        if 0 <= k < head.len() {
            P::lemma_prefix_incomplete(p, k);
            assert(cut == head.take(k));
        } else if head.len() <= k < Self::wire(v).len() {
            let part = body.take(k - head.len());
            P::lemma_round_trip(p, part);
            lemma_elements_prefix::<T>(v, k - head.len());
            assert(cut == head + part);
            assert((head + part).skip(head.len() as int) == part);
        }
    }
}

impl<P, T> From<Vec<T>> for LengthPrefixedVec<P, T> {
    fn from(vec: Vec<T>) -> (r: Self) {
        LengthPrefixedVec(vec, PhantomData)
    }
}

impl<P, T> vstd::std_specs::convert::FromSpecImpl<Vec<T>> for LengthPrefixedVec<P, T> {
    open spec fn obeys_from_spec() -> bool {
        true
    }

    open spec fn from_spec(vec: Vec<T>) -> Self {
        LengthPrefixedVec(vec, PhantomData)
    }
}

impl<P, T> From<LengthPrefixedVec<P, T>> for Vec<T> {
    fn from(x: LengthPrefixedVec<P, T>) -> (r: Self) {
        x.0
    }
}

impl<P, T> vstd::std_specs::convert::FromSpecImpl<LengthPrefixedVec<P, T>> for Vec<T> {
    open spec fn obeys_from_spec() -> bool {
        true
    }

    open spec fn from_spec(x: LengthPrefixedVec<P, T>) -> Self {
        x.0
    }
}

impl From<LengthInferredVecU8> for Vec<u8> {
    fn from(x: LengthInferredVecU8) -> (r: Self) {
        x.0
    }
}

impl vstd::std_specs::convert::FromSpecImpl<LengthInferredVecU8> for Vec<u8> {
    open spec fn obeys_from_spec() -> bool {
        true
    }

    open spec fn from_spec(x: LengthInferredVecU8) -> Self {
        x.0
    }
}

/// Cap enforcement. A declared count above `MAX_LENGTH` is refused, whatever
/// bytes stand behind it.
pub proof fn lemma_cap_enforced<P: LengthPrefix, T: Readable>(bytes: Seq<u8>)
    requires
        P::parse(bytes) is Ok,
        P::count(P::parse(bytes)->Ok_0.0) is Some,
        P::count(P::parse(bytes)->Ok_0.0)->Some_0 > MAX_LENGTH,
    ensures
        <LengthPrefixedVec<P, T> as Readable>::parse(bytes) == Err::<(Seq<T::V>, nat), Error>(
            Error::LengthTooLarge,
        ),
{
}

} // verus!
