use vstd::prelude::*;

use crate::codec::{decode_frame, Content, DecodeError, FRAME_LEN};
use crate::messages::Message;

verus! {

/// The side a peer takes when the session is set up: the one that listens
/// and accepts, or the one that connects.
#[derive(Clone, Copy, Debug, PartialEq, Eq, Structural)]
pub enum ConnectionType {
    Server,
    Client,
}

/// Declares `std::io::Error`, so that a transport failure can be handed to the
/// caller inside `TcpError` as it came. Nothing is assumed of its contents.
#[verifier::external_type_specification]
#[verifier::external_body]
pub struct ExIoError(std::io::Error);

/// Why a read or write on a connection produced no message.
#[derive(Debug)]
pub enum TcpError {
    /// No complete frame yet, or the socket cannot take the frame now: try
    /// again later.
    WouldBlock,
    /// A complete frame arrived but does not decode.
    InvalidMessage(DecodeError),
    /// The transport failed.
    Io(std::io::Error),
}

impl TcpError {
    /// Whether the caller should simply try again later.
    pub open spec fn is_retry(&self) -> bool {
        self is WouldBlock
    }

    pub fn would_block(&self) -> (r: bool)
        ensures
            r == self.is_retry(),
    {
        match self {
            TcpError::WouldBlock => true,
            _ => false,
        }
    }
}

/// The bytes of a frame that has not arrived in full yet. Bytes are kept
/// across reads until 128 of them make a frame.
pub struct FrameBuffer {
    pending: Vec<u8>,
}

impl View for FrameBuffer {
    type V = Seq<u8>;

    closed spec fn view(&self) -> Seq<u8> {
        self.pending@
    }
}

impl FrameBuffer {
    /// A buffer never holds a whole frame: it is handed on as soon as it is
    /// complete.
    pub open spec fn wf(&self) -> bool {
        self@.len() < 128
    }

    pub fn new() -> (r: FrameBuffer)
        ensures
            r.wf(),
            r@.len() == 0,
    {
        FrameBuffer { pending: Vec::new() }
    }

    /// How many more bytes complete the frame.
    pub fn room(&self) -> (r: usize)
        requires
            self.wf(),
        ensures
            r == 128 - self@.len(),
            r > 0,
    {
        FRAME_LEN - self.pending.len()
    }

    /// Takes the bytes `chunk` that the socket just gave. While fewer than
    /// 128 bytes have arrived they are kept and the answer is `WouldBlock`.
    /// Once 128 have, the buffer empties and the frame is decoded: a message,
    /// or `InvalidMessage` with the reason it does not decode.
    pub fn receive(&mut self, chunk: &[u8]) -> (r: Result<Message, TcpError>)
        requires
            old(self).wf(),
            old(self)@.len() + chunk@.len() <= 128,
        ensures
            final(self).wf(),
            old(self)@.len() + chunk@.len() < 128 ==> final(self)@ == old(self)@ + chunk@ && r matches Err(
                TcpError::WouldBlock,
            ),
            old(self)@.len() + chunk@.len() == 128 ==> final(self)@.len() == 0 && match r {
                Ok(m) => m.valid() && decode_frame(old(self)@ + chunk@) == Ok::<Content, DecodeError>(m@),
                Err(TcpError::InvalidMessage(e)) => decode_frame(old(self)@ + chunk@) == Err::<Content, DecodeError>(e),
                Err(_) => false,
            },
    {
        let ghost start = self.pending@;
        let mut i: usize = 0;
        while i < chunk.len()
            invariant
                i <= chunk@.len(),
                self.pending@ == start + chunk@.subrange(0, i as int),
            decreases chunk@.len() - i,
        {
            self.pending.push(chunk[i]);
            i = i + 1;
            assert(self.pending@ =~= start + chunk@.subrange(0, i as int));
        }
        assert(chunk@.subrange(0, chunk@.len() as int) =~= chunk@);
        if self.pending.len() < FRAME_LEN {
            return Err(TcpError::WouldBlock);
        }
        let mut frame: Vec<u8> = Vec::new();
        std::mem::swap(&mut frame, &mut self.pending);
        match Message::from_frame(frame.as_slice()) {
            Ok(m) => Ok(m),
            Err(e) => Err(TcpError::InvalidMessage(e)),
        }
    }
}

} // verus!
