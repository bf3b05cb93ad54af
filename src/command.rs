//! Commands and responses: how a command becomes a logical message, and how
//! a response message is checked and split into status and payload.
use vstd::prelude::*;
use crate::frame::{fragment, fragments, frames_view, valid_capacity, FramingError};
use crate::wire::{le_u32_bytes, push_le_u32};

verus! {

/// Number of bytes before the payload of a response: a two-byte tag, the
/// status byte and a status detail byte.
pub const RESPONSE_HEADER_LEN: usize = 4;

/// Status byte value of a successful command.
pub const STATUS_SUCCESS: u8 = 0;

/// Why a response payload could not be decoded.
#[derive(Debug, Clone, Copy, PartialEq, Eq, Structural)]
pub enum DecodeError {
    /// The payload is shorter than its fixed-width fields.
    Truncated,
    /// A field holds a value outside its enumeration.
    UnknownVariant,
    /// Device geometry that no flashing can work with.
    InvalidGeometry,
    /// Text that is not valid UTF-8.
    InvalidText,
}

/// Any failure of one command exchange.
#[derive(Debug, Clone, Copy, PartialEq, Eq, Structural)]
pub enum Error {
    /// The frame stream was malformed or ended early.
    Framing(FramingError),
    /// The underlying channel failed.
    Transport,
    /// The device answered with a status other than success.
    StatusNotSuccess(u8),
    /// The response payload could not be decoded.
    Decode(DecodeError),
    /// The padded image does not fit below the end of the 32-bit address
    /// space.
    ImageOutOfRange,
}

/// The status of a response.
#[derive(Debug, Clone, Copy, PartialEq, Eq, Structural)]
pub enum ResponseStatus {
    Success,
    Failure(u8),
}

/// A command: opcode and request payload.
#[derive(Debug)]
pub struct Command {
    pub opcode: u32,
    pub payload: Vec<u8>,
}

/// A response: status and response payload.
#[derive(Debug)]
pub struct CommandResponse {
    pub status: ResponseStatus,
    pub payload: Vec<u8>,
}

/// The logical message of a command: the opcode, little-endian, then the
/// payload.
pub open spec fn command_message(opcode: u32, payload: Seq<u8>) -> Seq<u8> {
    le_u32_bytes(opcode) + payload
}

/// The status that a status byte stands for.
pub open spec fn status_of(code: u8) -> ResponseStatus {
    if code == STATUS_SUCCESS {
        ResponseStatus::Success
    } else {
        ResponseStatus::Failure(code)
    }
}

impl Command {
    pub fn new(opcode: u32, payload: Vec<u8>) -> (c: Command)
        ensures
            c.opcode == opcode,
            c.payload@ == payload@,
    {
        Command { opcode, payload }
    }

    /// The logical message that carries this command.
    pub fn encode(&self) -> (m: Vec<u8>)
        ensures
            m@ == command_message(self.opcode, self.payload@),
    {
        let mut m: Vec<u8> = Vec::new();
        push_le_u32(&mut m, self.opcode);
        let mut i: usize = 0;
        while i < self.payload.len()
            invariant
                i <= self.payload@.len(),
                m@ == le_u32_bytes(self.opcode) + self.payload@.take(i as int),
            decreases self.payload@.len() - i,
        {
            m.push(self.payload[i]);
            assert(self.payload@.take(i + 1) =~= self.payload@.take(i as int).push(self.payload@[i as int]));
            i = i + 1;
        }
        assert(self.payload@.take(i as int) =~= self.payload@);
        m
    }

    /// The frames of size `cap` to write to the transport, in order.
    pub fn frames(&self, cap: usize) -> (fs: Vec<Vec<u8>>)
        requires
            valid_capacity(cap as nat),
        ensures
            frames_view(fs@) == fragments(command_message(self.opcode, self.payload@), cap as nat),
    {
        let m = self.encode();
        fragment(&m, cap)
    }
}

impl CommandResponse {
    /// Splits a response message into status and payload.
    pub fn parse(msg: &Vec<u8>) -> (r: Result<CommandResponse, DecodeError>)
        ensures
            msg@.len() < RESPONSE_HEADER_LEN ==> r == Err::<CommandResponse, DecodeError>(DecodeError::Truncated),
            msg@.len() >= RESPONSE_HEADER_LEN ==> (r matches Ok(c) && c.status == status_of(msg@[2])
                && c.payload@ == msg@.skip(RESPONSE_HEADER_LEN as int)),
    {
        if msg.len() < RESPONSE_HEADER_LEN {
            return Err(DecodeError::Truncated);
        }
        let status = if msg[2] == STATUS_SUCCESS {
            ResponseStatus::Success
        } else {
            ResponseStatus::Failure(msg[2])
        };
        let mut payload: Vec<u8> = Vec::new();
        let mut i: usize = RESPONSE_HEADER_LEN;
        while i < msg.len()
            invariant
                RESPONSE_HEADER_LEN <= i <= msg@.len(),
                payload@ == msg@.subrange(RESPONSE_HEADER_LEN as int, i as int),
            decreases msg@.len() - i,
        {
            payload.push(msg[i]);
            assert(msg@.subrange(RESPONSE_HEADER_LEN as int, i + 1) =~= msg@.subrange(
                RESPONSE_HEADER_LEN as int,
                i as int,
            ).push(msg@[i as int]));
            i = i + 1;
        }
        assert(payload@ =~= msg@.skip(RESPONSE_HEADER_LEN as int));
        Ok(CommandResponse { status, payload })
    }

    /// The payload of a successful response; the status code otherwise.
    pub fn into_payload(self) -> (r: Result<Vec<u8>, Error>)
        ensures
            self.status == ResponseStatus::Success ==> (r matches Ok(p) && p@ == self.payload@),
            self.status matches ResponseStatus::Failure(code) ==> r == Err::<Vec<u8>, Error>(
                Error::StatusNotSuccess(code),
            ),
    {
        match self.status {
            ResponseStatus::Success => Ok(self.payload),
            ResponseStatus::Failure(code) => Err(Error::StatusNotSuccess(code)),
        }
    }
}

/// The outcome of a response message: its payload when the status is
/// success, else the error that the message shows.
pub open spec fn response_outcome(msg: Seq<u8>) -> Result<Seq<u8>, Error> {
    if msg.len() < RESPONSE_HEADER_LEN {
        Err(Error::Decode(DecodeError::Truncated))
    } else if msg[2] != STATUS_SUCCESS {
        Err(Error::StatusNotSuccess(msg[2]))
    } else {
        Ok(msg.skip(RESPONSE_HEADER_LEN as int))
    }
}

/// The view of a payload result.
pub open spec fn payload_view(r: Result<Vec<u8>, Error>) -> Result<Seq<u8>, Error> {
    match r {
        Ok(p) => Ok(p@),
        Err(e) => Err(e),
    }
}

/// Checks a response message and returns its payload.
pub fn response_payload(msg: &Vec<u8>) -> (r: Result<Vec<u8>, Error>)
    ensures
        payload_view(r) == response_outcome(msg@),
{
    match CommandResponse::parse(msg) {
        Err(e) => Err(Error::Decode(e)),
        Ok(c) => c.into_payload(),
    }
}

} // verus!
