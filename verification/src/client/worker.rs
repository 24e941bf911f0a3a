//! The two halves of a connection after the handshake, without their
//! sockets: the reader turns the bytes it is given into packets, the writer
//! turns packets into the bytes to send. Whoever owns the socket reads and
//! writes, and hands the bytes through.

use vstd::prelude::*;
use vstd::string::*;
use crate::codec::Codec;
use crate::io::{Error, Readable, Writeable};

verus! {

/// The number of seconds after which a read that brought nothing ends the
/// connection.
pub const READ_TIMEOUT_SECONDS: u64 = 10;

/// The number of bytes asked of the socket at a time.
pub const READ_BUFFER_LENGTH: usize = 512;

/// The number of received packets that may wait for the game before the
/// reader waits for it.
pub const RECEIVED_PACKETS_BOUND: usize = 32;

/// Why a half of the connection ended.
#[derive(Debug, Clone, Copy, PartialEq, Eq, Structural)]
pub enum WorkerError {
    /// The peer closed the connection: a read brought no bytes.
    Disconnected,
    /// No bytes arrived within the timeout.
    TimedOut,
    /// The bytes are no packet, or the packet cannot be written.
    Protocol(Error),
}

/// What the reader makes of a read that brought `count` bytes.
pub open spec fn read_outcome(count: nat) -> Option<WorkerError> {
    if count == 0 {
        Some(WorkerError::Disconnected)
    } else {
        None
    }
}

/// The reading half: the bytes received and not yet cut into packets.
pub struct Reader {
    codec: Codec,
}

impl Reader {
    /// The bytes received and not yet consumed by a packet.
    pub closed spec fn pending(&self) -> Seq<u8> {
        self.codec.received()
    }

    /// A reader that has received nothing.
    pub fn new() -> (reader: Self)
        ensures
            reader.pending() == Seq::<u8>::empty(),
    {
        Reader { codec: Codec::new() }
    }

    /// The number of bytes received and not yet consumed by a packet.
    pub fn pending_len(&self) -> (n: usize)
        ensures
            n == self.pending().len(),
    {
        self.codec.received_len()
    }

    /// Cuts the next packet from the bytes received. `Ok(None)` says that
    /// more bytes have to be read first; an error ends the connection. In
    /// both cases the bytes received stay as they were.
    pub fn next<P: Readable>(&mut self) -> (r: Result<Option<P>, WorkerError>)
        ensures
            match P::parse(old(self).pending()) {
                Ok((v, n)) => {
                    &&& r is Ok && r->Ok_0 is Some && r->Ok_0->Some_0.deep_view() == v
                    &&& n <= old(self).pending().len()
                    &&& final(self).pending() == old(self).pending().skip(n as int)
                },
                Err(Error::UnexpectedEof) => {
                    &&& r is Ok && r->Ok_0 is None
                    &&& final(self).pending() == old(self).pending()
                },
                Err(e) => {
                    &&& r is Err && r->Err_0 == WorkerError::Protocol(e)
                    &&& final(self).pending() == old(self).pending()
                },
            },
    {
        match self.codec.next_packet::<P>() {
            Ok(packet) => Ok(packet),
            Err(e) => Err(WorkerError::Protocol(e)),
        }
    }

    /// Takes in what a read brought. A read that brought nothing means that
    /// the peer is gone.
    pub fn received(&mut self, bytes: &[u8]) -> (r: Result<(), WorkerError>)
        requires
            old(self).pending().len() + bytes@.len() <= usize::MAX,
        ensures
            match read_outcome(bytes@.len()) {
                Some(e) => {
                    &&& r == Err::<(), WorkerError>(e)
                    &&& final(self).pending() == old(self).pending()
                },
                None => r is Ok && final(self).pending() == old(self).pending() + bytes@,
            },
    {
        if bytes.len() == 0 {
            return Err(WorkerError::Disconnected);
        }
        self.codec.accept(bytes);
        Ok(())
    }
}

/// The writing half: the bytes encoded and not yet sent.
pub struct Writer {
    codec: Codec,
    buffer: Vec<u8>,
}

impl Writer {
    /// The bytes encoded and not yet sent.
    pub closed spec fn unsent(&self) -> Seq<u8> {
        self.buffer@
    }

    /// A writer with nothing to send.
    pub fn new() -> (writer: Self)
        ensures
            writer.unsent() == Seq::<u8>::empty(),
    {
        Writer { codec: Codec::new(), buffer: Vec::new() }
    }

    /// Puts the bytes of `packet` behind those not yet sent, or fails and
    /// leaves them as they were.
    pub fn write<W: Writeable>(&mut self, packet: &W) -> (r: Result<(), WorkerError>)
        ensures
            match W::write_error(packet.deep_view()) {
                None => {
                    &&& r is Ok
                    &&& final(self).unsent() == old(self).unsent() + W::wire(packet.deep_view())
                },
                Some(e) => {
                    &&& r == Err::<(), WorkerError>(WorkerError::Protocol(e))
                    &&& final(self).unsent() == old(self).unsent()
                },
            },
    {
        match self.codec.encode(packet, &mut self.buffer) {
            Ok(()) => Ok(()),
            Err(e) => Err(WorkerError::Protocol(e)),
        }
    }

    /// The bytes to send.
    pub fn bytes(&self) -> (bytes: &[u8])
        ensures
            bytes@ == self.unsent(),
    {
        self.buffer.as_slice()
    }

    /// Forgets the bytes, which have been sent.
    pub fn sent(&mut self)
        ensures
            final(self).unsent() == Seq::<u8>::empty(),
    {
        self.buffer.clear();
    }
}

/// The text that tells why the connection ended.
pub open spec fn disconnected_text(e: WorkerError) -> Seq<char> {
    match e {
        WorkerError::Disconnected => "disconnected"@,
        WorkerError::TimedOut => "timed out"@,
        WorkerError::Protocol(_) => "protocol error"@,
    }
}

/// Tells why the connection ended.
pub fn disconnected_message(e: WorkerError) -> (message: String)
    ensures
        message@ == disconnected_text(e),
{
    match e {
        WorkerError::Disconnected => String::from_str("disconnected"),
        WorkerError::TimedOut => String::from_str("timed out"),
        WorkerError::Protocol(_) => String::from_str("protocol error"),
    }
}

} // verus!
