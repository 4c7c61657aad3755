//! The protocol that peers speak: records, frames and how they are read from bytes.
use crate::codec::Wire;
use crate::proto::data::{Data, ReadError, Ring, ValidBytes};
use crate::proto::msg::{Command, QusbFrame, UrbFrame};
use crate::proto::unpacked::{Frame, Sequenced};
use vstd::prelude::*;

pub mod data;
pub mod frame;
pub mod layout;
pub mod mass_storage;
pub mod msg;
pub mod record_laws;
pub mod unpacked;
pub mod urb;

verus! {

/// The version of the protocol that this library speaks.
pub open spec fn own_version() -> msg::Version {
    msg::Version { major: 0, minor: 4, patch: 0 }
}

/// The version of the protocol that this library speaks.
pub fn qusb_ver() -> (v: msg::Version)
    ensures
        v == own_version(),
{
    msg::Version { major: 0, minor: 4, patch: 0 }
}

pub const BUS_ID_SIZE: usize = 32;

/// Why the length of a trailing slice could not be told.
#[derive(Debug, Clone, Copy, PartialEq, Eq, Structural)]
pub enum GetSliceLenErr {
    /// The bytes cannot be those of a record.
    NoConfidence,
    /// The buffer is too short to read the slice length.
    BufferShort { num_bytes_needed: usize },
}

/// Why bytes could not be converted to a record.
#[derive(Debug, Clone, Copy, PartialEq, Eq, Structural)]
pub enum ConvertError {
    Alignment,
    Validity,
    /// There were too few bytes; `src_len` is how many there were.
    Size { src_len: usize },
}

impl GetSliceLenErr {
    pub fn from_convert_err(needed_size: usize, err: ConvertError) -> (r: Self)
        requires
            err matches ConvertError::Size { src_len } ==> src_len <= needed_size,
        ensures
            r == (match err {
                ConvertError::Alignment | ConvertError::Validity => GetSliceLenErr::NoConfidence,
                ConvertError::Size { src_len } => GetSliceLenErr::BufferShort {
                    num_bytes_needed: (needed_size - src_len) as usize,
                },
            }),
    {
        match err {
            ConvertError::Alignment => GetSliceLenErr::NoConfidence,
            ConvertError::Validity => GetSliceLenErr::NoConfidence,
            ConvertError::Size { src_len } => GetSliceLenErr::BufferShort {
                num_bytes_needed: needed_size - src_len,
            },
        }
    }
}

/// A record with a header of fixed size and a trailing slice, whose length can be told from the
/// bytes of the record.
pub trait GetSliceLen: Sized {
    type Header: Wire;

    /// The number of bytes of an element of the slice.
    spec fn elem_len() -> nat;

    /// The number of elements in the slice of the record at the start of `buf`, which may go on
    /// after the record.
    spec fn slice_len(buf: Seq<u8>) -> Result<nat, GetSliceLenErr>;

    fn elem_size() -> (n: usize)
        ensures
            n == Self::elem_len(),
    ;

    fn get_slice_len(buf: &[u8]) -> (r: Result<usize, GetSliceLenErr>)
        ensures
            match Self::slice_len(buf@) {
                Ok(n) => r matches Ok(m) && m == n,
                Err(e) => r == Err::<usize, GetSliceLenErr>(e),
            },
    ;

    /// A record whose length could be told is there in full.
    proof fn lemma_slice_len(buf: Seq<u8>)
        ensures
            Self::elem_len() > 0,
            Self::slice_len(buf) matches Ok(n) ==> Self::Header::wire_len() + n * Self::elem_len()
                <= buf.len(),
    ;
}

/// An error that ends the session.
#[derive(Debug, Clone, Copy, PartialEq, Eq, Structural)]
pub enum AbortableError {
    /// The data does not make sense for the received frame.
    InvalidData,
    /// The remote device was disconnected.
    DeviceDisconnected,
    /// The device rejected the transfer because of its format.
    Proto,
    /// The peer did not understand us.
    Oops,
    Other,
}

impl AbortableError {
    /// The status that tells the peer of the error.
    pub open spec fn proto_status(self) -> msg::Status {
        match self {
            AbortableError::InvalidData => msg::Status::Proto,
            AbortableError::DeviceDisconnected => msg::Status::NoDev,
            AbortableError::Proto => msg::Status::DevErr,
            AbortableError::Oops => msg::Status::Failed,
            AbortableError::Other => msg::Status::Unexpected,
        }
    }

    pub fn as_proto(&self) -> (s: msg::Status)
        ensures
            s == self.proto_status(),
    {
        match self {
            AbortableError::InvalidData => msg::Status::Proto,
            AbortableError::DeviceDisconnected => msg::Status::NoDev,
            AbortableError::Proto => msg::Status::DevErr,
            AbortableError::Oops => msg::Status::Failed,
            AbortableError::Other => msg::Status::Unexpected,
        }
    }
}

/// An error that is reported to the virtual host controller, which decides what follows.
#[derive(Debug, Clone, Copy, PartialEq, Eq, Structural)]
pub enum ReportableError {
    TimedOut,
    Cancelled,
    /// The device could not fulfill the request.
    Stall,
    /// The device gave more data than was asked for.
    Overflow,
    NotEnoughBandwidth,
}

/// Why a transfer could not be submitted.
///
/// An abortable error is not told to the peer: the connection is closed.
#[derive(Debug, Clone, Copy, PartialEq, Eq, Structural)]
pub enum TransferError {
    Reportable(ReportableError),
    Abortable(AbortableError),
}

/// Why nothing could be received from a peer.
pub enum RecvError<E> {
    /// Reading from the stream failed.
    Io(E),
    /// What came is not a frame.
    CorruptedData,
}

/// What is to be done to receive a frame.
pub enum RecvStep {
    /// Read from the stream until at least `min_len` bytes are there.
    Read { min_len: usize },
    /// A frame is there; its bytes have left the buffer.
    Received(Data<QusbFrame>),
    /// The bytes are not those of a frame.
    Corrupted,
}

/// Tries to cut the next frame from what was received so far.
pub fn recv_frame(buf: &mut Ring) -> (step: RecvStep)
    ensures
        old(buf)@.len() < 8 ==> step == (RecvStep::Read { min_len: 8 }),
        old(buf)@.len() >= 8 ==> match data::dst_size::<QusbFrame>(old(buf)@) {
            Ok(n) => step matches RecvStep::Received(frame) && frame.wf() && frame.bytes() == old(
                buf,
            )@.take(n as int) && final(buf)@ == old(buf)@.skip(n as int),
            Err(ReadError::CorruptedData) => step is Corrupted,
            Err(ReadError::BufferShort { num_bytes_needed }) => step matches RecvStep::Read {
                min_len,
            } && min_len == old(buf)@.len() + num_bytes_needed && num_bytes_needed > 0,
        },
        !(step is Received) ==> final(buf)@ == old(buf)@,
{
    let len: usize = buf.len();
    if len < 8 {
        return RecvStep::Read { min_len: 8 };
    }
    match buf.claim_dst::<QusbFrame>() {
        Ok(frame) => RecvStep::Received(frame),
        Err(ReadError::CorruptedData) => RecvStep::Corrupted,
        Err(ReadError::BufferShort { num_bytes_needed }) => RecvStep::Read {
            min_len: len + num_bytes_needed,
        },
    }
}

/// Tells whether a frame's command and status go together.
///
/// No peer answers an unlink, nor a submission or a port reset with another status than these.
pub open spec fn understood(h: msg::Header) -> bool {
    match h.command {
        Command::RetSubmit | Command::RetPort => match h.status {
            msg::Status::Success | msg::Status::DevErr | msg::Status::NoDev | msg::Status::Proto => true,
            _ => false,
        },
        Command::RetUnlink => false,
        _ => true,
    }
}

/// Tells whether a frame's command and status go together.
pub fn is_understood(h: &msg::Header) -> (b: bool)
    ensures
        b == understood(*h),
{
    match h.command {
        Command::RetSubmit | Command::RetPort => match h.status {
            msg::Status::Success | msg::Status::DevErr | msg::Status::NoDev | msg::Status::Proto => true,
            _ => false,
        },
        Command::RetUnlink => false,
        _ => true,
    }
}

/// The error that the status of an answer stands for.
pub open spec fn answer_error(status: msg::Status) -> AbortableError {
    match status {
        msg::Status::DevErr => AbortableError::Proto,
        msg::Status::NoDev => AbortableError::DeviceDisconnected,
        _ => AbortableError::Oops,
    }
}

/// Reads what a frame carries.
pub fn parse_frame(frame: Data<QusbFrame>) -> (r: Result<Frame, AbortableError>)
    requires
        frame.wf(),
        understood(frame.head()),
    ensures
        match frame.head().command {
            Command::CmdUnlink => r == Ok::<Frame, AbortableError>(
                Frame::Unlink(frame.head().seqnum),
            ),
            Command::CmdPort => r == Ok::<Frame, AbortableError>(
                Frame::PortReset(frame.head().seqnum),
            ),
            Command::RetPort => if frame.head().status == msg::Status::Success {
                r == Ok::<Frame, AbortableError>(Frame::PortReset(frame.head().seqnum))
            } else {
                r == Err::<Frame, AbortableError>(answer_error(frame.head().status))
            },
            _ => if frame.head().command == Command::RetSubmit && frame.head().status
                != msg::Status::Success {
                r == Err::<Frame, AbortableError>(answer_error(frame.head().status))
            } else if UrbFrame::valid(frame.tail()) {
                r matches Ok(Frame::Urb(urb)) && urb.seqnum == frame.head().seqnum
                    && urb.data.wf() && urb.data.bytes() == frame.tail()
            } else {
                r == Err::<Frame, AbortableError>(AbortableError::InvalidData)
            },
        },
{
    let header = frame.header();
    match header.command {
        Command::CmdUnlink => Ok(Frame::Unlink(header.seqnum)),
        Command::CmdPort => Ok(Frame::PortReset(header.seqnum)),
        Command::RetPort => match header.status {
            msg::Status::Success => Ok(Frame::PortReset(header.seqnum)),
            msg::Status::DevErr => Err(AbortableError::Proto),
            msg::Status::NoDev => Err(AbortableError::DeviceDisconnected),
            _ => Err(AbortableError::Oops),
        },
        _ => {
            if matches!(header.command, Command::RetSubmit) {
                match header.status {
                    msg::Status::Success => {},
                    msg::Status::DevErr => return Err(AbortableError::Proto),
                    msg::Status::NoDev => return Err(AbortableError::DeviceDisconnected),
                    _ => return Err(AbortableError::Oops),
                }
            }
            match frame.split_data::<UrbFrame>() {
                Some(data) => Ok(Frame::Urb(Sequenced { seqnum: header.seqnum, data })),
                None => Err(AbortableError::InvalidData),
            }
        },
    }
}

} // verus!
