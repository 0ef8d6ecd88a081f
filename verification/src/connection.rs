//! The reading side of a connection: bytes come in as the stream brings them, and a
//! payload comes out once its frame is complete.

use vstd::prelude::*;

use crate::error::ConnectionError;
use crate::framing::{deframe, deframed};

verus! {

/// The reading side of one connection: the bytes received so far that no frame has
/// taken yet.
#[derive(Debug)]
pub struct Connection {
    buffer: Vec<u8>,
}

impl View for Connection {
    type V = Seq<u8>;

    closed spec fn view(&self) -> Seq<u8> {
        self.buffer@
    }
}

/// What a read answers once the buffer holds `buffer`, of which the last `received`
/// bytes have just come in: the payload of the frame at the start of the buffer if it is
/// all there; else nothing yet, unless nothing came in, which says that the peer has
/// closed the connection. A buffer that does not start with a frame is an error.
pub open spec fn read_result(buffer: Seq<u8>, received: nat) -> Result<
    Option<Seq<char>>,
    ConnectionError,
> {
    match deframed(buffer) {
        Err(error) => Err(ConnectionError::Framing(error)),
        Ok(Some(frame)) => Ok(Some(frame.0)),
        Ok(None) => if received == 0 {
            Err(ConnectionError::ConnectionClosed)
        } else {
            Ok(None)
        },
    }
}

impl Connection {
    /// A connection on which nothing has been received.
    pub fn new() -> (res: Self)
        ensures
            res@ == Seq::<u8>::empty(),
    {
        Connection { buffer: Vec::new() }
    }

    /// Takes in what one read of the stream brought, and gives the payload of the frame
    /// once it is complete. Until then every byte is kept; with the frame the buffer is
    /// given up, and what came in after the frame's end with it.
    pub fn read(&mut self, received: &[u8]) -> (res: Result<Option<String>, ConnectionError>)
        ensures
            match read_result(old(self)@ + received@, received@.len()) {
                Ok(Some(payload)) => res matches Ok(Some(got)) && got@ == payload && final(self)@
                    == Seq::<u8>::empty(),
                Ok(None) => res == Ok::<Option<String>, ConnectionError>(None) && final(self)@
                    == old(self)@ + received@,
                Err(error) => res == Err::<Option<String>, ConnectionError>(error) && final(self)@
                    == old(self)@ + received@,
            },
    {
        self.buffer.extend_from_slice(received);
        assert(self@ == old(self)@ + received@);
        match deframe(self.buffer.as_slice()) {
            Err(error) => Err(ConnectionError::Framing(error)),
            Ok(Some(frame)) => {
                self.buffer.clear();
                Ok(Some(frame.0))
            },
            Ok(None) => {
                if received.len() == 0 {
                    Err(ConnectionError::ConnectionClosed)
                } else {
                    Ok(None)
                }
            },
        }
    }
}

} // verus!
