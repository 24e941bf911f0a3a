//! Packet framing: the accumulator of received bytes, from which whole
//! packets are cut, and the encoding of packets to be sent.

use bytes::BytesMut;
use vstd::prelude::*;
use crate::io::sequence::{all_canonical, wire_elements};
use crate::io::{
    append_bytes, lemma_read_cut, Cursor, Error, Readable, WireValue, Writeable,
};

verus! {

#[verifier::external_type_specification]
#[verifier::external_body]
pub struct ExBytesMut(BytesMut);

/// The bytes that a `BytesMut` holds, in their order.
pub uninterp spec fn buffered(buf: BytesMut) -> Seq<u8>;

/// `BytesMut::new`: a buffer that holds no bytes.
#[verifier::external_body]
fn bytes_mut_new() -> (buf: BytesMut)
    ensures
        buffered(buf) == Seq::<u8>::empty(),
{
    BytesMut::new()
}

/// `BytesMut::len`: the number of bytes held.
#[verifier::external_body]
fn bytes_mut_len(buf: &BytesMut) -> (n: usize)
    ensures
        n == buffered(*buf).len(),
{
    buf.len()
}

/// `BytesMut::extend_from_slice`: puts `bytes` behind the bytes held so far.
/// The crate panics where the new length overflows `usize`.
#[verifier::external_body]
fn bytes_mut_extend(buf: &mut BytesMut, bytes: &[u8])
    requires
        buffered(*old(buf)).len() + bytes@.len() <= usize::MAX,
    ensures
        buffered(*final(buf)) == buffered(*old(buf)) + bytes@,
{
    buf.extend_from_slice(bytes)
}

/// `Deref` of `BytesMut` to a slice: the bytes held, as a slice.
#[verifier::external_body]
fn bytes_mut_as_slice(buf: &BytesMut) -> (bytes: &[u8])
    ensures
        bytes@ == buffered(*buf),
{
    &buf[..]
}

/// `BytesMut::split_off`: leaves the first `at` bytes in `buf` and returns
/// the bytes behind them. The crate panics where `at` is above the capacity,
/// which is never below the length.
#[verifier::external_body]
fn bytes_mut_split_off(buf: &mut BytesMut, at: usize) -> (tail: BytesMut)
    requires
        at <= buffered(*old(buf)).len(),
    ensures
        buffered(*final(buf)) == buffered(*old(buf)).take(at as int),
        buffered(tail) == buffered(*old(buf)).skip(at as int),
{
    buf.split_off(at)
}

/// State to cut packets from a byte stream and to encode packets for one.
pub struct Codec {
    /// The bytes received and not yet consumed by a packet.
    received_buf: BytesMut,
    /// Scratch space for the packet that is being encoded.
    staging_buf: Vec<u8>,
}

impl Codec {
    /// The bytes received and not yet consumed by a packet.
    pub closed spec fn received(&self) -> Seq<u8> {
        buffered(self.received_buf)
    }

    /// A codec that holds no bytes.
    pub fn new() -> (codec: Self)
        ensures
            codec.received() == Seq::<u8>::empty(),
    {
        Codec { received_buf: bytes_mut_new(), staging_buf: Vec::new() }
    }

    /// The number of bytes received and not yet consumed by a packet.
    pub fn received_len(&self) -> (n: usize)
        ensures
            n == self.received().len(),
    {
        bytes_mut_len(&self.received_buf)
    }

    /// Another codec with the same settings, which holds no bytes.
    pub fn clone_with_settings(&self) -> (codec: Codec)
        ensures
            codec.received() == Seq::<u8>::empty(),
    {
        Codec { received_buf: bytes_mut_new(), staging_buf: Vec::new() }
    }

    /// Puts the bytes of `packet` behind those in `output`, or fails with the
    /// packet's own error and leaves `output` as it was.
    pub fn encode<W: Writeable>(&mut self, packet: &W, output: &mut Vec<u8>) -> (r: Result<
        (),
        Error,
    >)
        ensures
            final(self).received() == old(self).received(),
            match W::write_error(packet.deep_view()) {
                None => r is Ok && final(output)@ == old(output)@ + W::wire(packet.deep_view()),
                Some(e) => r == Err::<(), Error>(e) && final(output)@ == old(output)@,
            },
    {
        self.staging_buf.clear();
        packet.write(&mut self.staging_buf)?;
        self.encode_uncompressed(output);
        self.staging_buf.clear();
        Ok(())
    }

    /// Puts the staged bytes behind those in `output`.
    fn encode_uncompressed(&self, output: &mut Vec<u8>)
        ensures
            final(output)@ == old(output)@ + self.staging_buf@,
    {
        append_bytes(output, self.staging_buf.as_slice());
    }

    /// Accepts newly received bytes: they are put behind those held.
    pub fn accept(&mut self, bytes: &[u8])
        requires
            old(self).received().len() + bytes@.len() <= usize::MAX,
        ensures
            final(self).received() == old(self).received() + bytes@,
    {
        bytes_mut_extend(&mut self.received_buf, bytes);
    }

    /// Cuts the next packet from the front of the received bytes, if a whole
    /// one is there. Where more bytes are needed the result is `Ok(None)`;
    /// where the bytes are no packet, it is the error. In both cases the
    /// received bytes stay as they were.
    pub fn next_packet<T: Readable>(&mut self) -> (r: Result<Option<T>, Error>)
        ensures
            match T::parse(old(self).received()) {
                Ok((v, n)) => {
                    &&& r is Ok && r->Ok_0 is Some && r->Ok_0->Some_0.deep_view() == v
                    &&& n <= old(self).received().len()
                    &&& final(self).received() == old(self).received().skip(n as int)
                },
                Err(Error::UnexpectedEof) => {
                    &&& r is Ok && r->Ok_0 is None
                    &&& final(self).received() == old(self).received()
                },
                Err(e) => {
                    &&& r is Err && r->Err_0 == e
                    &&& final(self).received() == old(self).received()
                },
            },
    {
        let mut cursor = Cursor::new(bytes_mut_as_slice(&self.received_buf));
        assert(cursor.remaining() == self.received());
        let packet = match T::read(&mut cursor) {
            Ok(p) => p,
            Err(Error::UnexpectedEof) => {
                return Ok(None);
            },
            Err(e) => {
                return Err(e);
            },
        };
        let bytes_read = cursor.position();
        let tail = bytes_mut_split_off(&mut self.received_buf, bytes_read);
        self.received_buf = tail;
        Ok(Some(packet))
    }
}

/// What a reader delivers that cuts packets from the bytes `acc` for as long
/// as a whole packet stands at their front: the packets, and the bytes left.
pub open spec fn drained<T: Readable>(acc: Seq<u8>) -> (Seq<T::V>, Seq<u8>)
    decreases acc.len(),
{
    match T::parse(acc) {
        Ok((v, n)) => if 0 < n <= acc.len() {
            let (more, left) = drained::<T>(acc.skip(n as int));
            (seq![v] + more, left)
        } else {
            (Seq::empty(), acc)
        },
        Err(_) => (Seq::empty(), acc),
    }
}

/// What a reader delivers that holds the bytes `acc`, accepts `chunks` one
/// after another, and after each cuts all the whole packets: the packets in
/// the order of their delivery, and the bytes left at the end.
pub open spec fn session<T: Readable>(acc: Seq<u8>, chunks: Seq<Seq<u8>>) -> (Seq<T::V>, Seq<u8>)
    decreases chunks.len(),
{
    if chunks.len() == 0 {
        (Seq::empty(), acc)
    } else {
        let (first, left) = drained::<T>(acc + chunks[0]);
        let (more, end) = session::<T>(left, chunks.drop_first());
        (first + more, end)
    }
}

/// The chunks, one after another.
pub open spec fn joined(chunks: Seq<Seq<u8>>) -> Seq<u8>
    decreases chunks.len(),
{
    if chunks.len() == 0 {
        Seq::empty()
    } else {
        chunks[0] + joined(chunks.drop_first())
    }
}

/// Whether each of `vs` takes at least one byte on the wire.
pub open spec fn all_take_bytes<T: WireValue>(vs: Seq<T::V>) -> bool {
    forall|i: int| 0 <= i < vs.len() ==> T::wire(#[trigger] vs[i]).len() > 0
}

/// The bytes of some values are those of the first, then those of the others.
pub proof fn lemma_wire_elements_first<T: WireValue>(vs: Seq<T::V>)
    requires
        vs.len() > 0,
    ensures
        wire_elements::<T>(vs) == T::wire(vs[0]) + wire_elements::<T>(vs.drop_first()),
    decreases vs.len(),
{
    if vs.len() == 1 {
        assert(wire_elements::<T>(vs.drop_last()) == Seq::<u8>::empty());
    } else {
        lemma_wire_elements_first::<T>(vs.drop_last());
        assert(vs.drop_last().drop_first() == vs.drop_first().drop_last());
        assert(wire_elements::<T>(vs) == T::wire(vs[0]) + (wire_elements::<T>(
            vs.drop_first().drop_last(),
        ) + T::wire(vs.last())));
    }
}

/// What cutting packets makes of the first `k` bytes of the stream of the
/// canonical packets `vs`: it delivers the first `j` of them, those that lie
/// wholly within the `k` bytes, and leaves the bytes of the next one that
/// have arrived so far. Returns `j` and the bytes left.
pub proof fn lemma_drained_cut<T: WireValue>(vs: Seq<T::V>, k: int) -> (r: (int, Seq<u8>))
    requires
        all_canonical::<T>(vs),
        all_take_bytes::<T>(vs),
        0 <= k <= wire_elements::<T>(vs).len(),
    ensures
        0 <= r.0 <= vs.len(),
        drained::<T>(wire_elements::<T>(vs).take(k)) == (vs.take(r.0), r.1),
        r.1 + wire_elements::<T>(vs).skip(k) == wire_elements::<T>(vs.skip(r.0)),
        r.0 < vs.len() ==> r.1.len() < T::wire(vs[r.0]).len(),
        r.0 == vs.len() ==> r.1.len() == 0,
    decreases vs.len(),
{
    let stream = wire_elements::<T>(vs);
    let cut = stream.take(k);
    if vs.len() == 0 {
        (0, cut)
    } else {
        let first = T::wire(vs[0]);
        let others = vs.drop_first();
        let tail = wire_elements::<T>(others);
        lemma_wire_elements_first::<T>(vs);
        lemma_read_cut::<T>(vs[0], tail, k);
        if k < first.len() {
            assert(vs.skip(0) == vs);
            (0, cut)
        } else {
            let (j, left) = lemma_drained_cut::<T>(others, k - first.len());
            assert(vs.skip(j + 1) == others.skip(j));
            (j + 1, left)
        }
    }
}

/// However the stream of some packets is cut into chunks, a reader that
/// starts with nothing and is fed the chunks one after another delivers
/// exactly those packets, in their order, and is left with nothing. The
/// packets are canonical and each takes at least one byte; `acc` holds what
/// has arrived of the first of them.
pub proof fn lemma_session_from<T: WireValue>(vs: Seq<T::V>, acc: Seq<u8>, chunks: Seq<Seq<u8>>)
    requires
        all_canonical::<T>(vs),
        all_take_bytes::<T>(vs),
        acc + joined(chunks) == wire_elements::<T>(vs),
        vs.len() > 0 ==> acc.len() < T::wire(vs[0]).len(),
        vs.len() == 0 ==> acc.len() == 0,
    ensures
        session::<T>(acc, chunks) == (vs, Seq::<u8>::empty()),
    decreases chunks.len(),
{
    let stream = wire_elements::<T>(vs);
    if chunks.len() == 0 {
        if vs.len() > 0 {
            lemma_wire_elements_first::<T>(vs);
        }
    } else {
        let fed = acc + chunks[0];
        assert(stream.take(fed.len() as int) == fed);
        assert(stream.skip(fed.len() as int) == joined(chunks.drop_first()));
        let (j, left) = lemma_drained_cut::<T>(vs, fed.len() as int);
        lemma_session_from::<T>(vs.skip(j), left, chunks.drop_first());
    }
}

/// Partial frames and order. However the bytes of the canonical packets
/// `vs`, written one after another, are cut into chunks, a reader that takes
/// the chunks in and cuts a packet whenever a whole one has arrived delivers
/// each packet once, nothing else, in the order in which they were written.
pub proof fn lemma_session_delivers<T: WireValue>(vs: Seq<T::V>, chunks: Seq<Seq<u8>>)
    requires
        all_canonical::<T>(vs),
        all_take_bytes::<T>(vs),
        joined(chunks) == wire_elements::<T>(vs),
    ensures
        session::<T>(Seq::empty(), chunks) == (vs, Seq::<u8>::empty()),
{
    lemma_session_from::<T>(vs, Seq::empty(), chunks);
}

/// One packet in pieces. Of the bytes of a canonical packet that takes at
/// least one byte, no proper prefix gives a packet, and the whole gives the
/// packet and leaves nothing.
pub proof fn lemma_partial_frame<T: WireValue>(v: T::V, k: int)
    requires
        T::canonical(v),
        T::wire(v).len() > 0,
        0 <= k <= T::wire(v).len(),
    ensures
        k < T::wire(v).len() ==> T::parse(T::wire(v).take(k)) == Err::<(T::V, nat), Error>(
            Error::UnexpectedEof,
        ),
        k == T::wire(v).len() ==> T::parse(T::wire(v).take(k)) == Ok::<(T::V, nat), Error>(
            (v, T::wire(v).len()),
        ),
{
    lemma_read_cut::<T>(v, Seq::empty(), k);
}

} // verus!
