//! Errors that end the lending of a device and are told to the borrower.
use crate::proto::frame;
use crate::proto::frame::compress_frame_len;
use crate::proto::msg::{Command, Header, Status, UsbDeviceId};
use crate::proto::unpacked::Sequenced;
use crate::proto::{AbortableError, RecvError};
use crate::usb::{Endpoint, UrbType};
use vstd::prelude::*;

verus! {

/// What failed.
#[derive(Debug, Clone, Copy, PartialEq, Eq, Structural)]
pub enum SeqError {
    Reset,
    Transfer { kind: UrbType, endpoint: Endpoint, err: AbortableError },
}

impl SeqError {
    /// The answer that carries the error.
    pub open spec fn command(self) -> Command {
        match self {
            SeqError::Reset => Command::RetPort,
            SeqError::Transfer { .. } => Command::RetSubmit,
        }
    }

    /// The status that the answer tells.
    pub open spec fn status(self) -> Status {
        match self {
            SeqError::Reset => Status::NoDev,
            SeqError::Transfer { err, .. } => err.proto_status(),
        }
    }

    pub fn as_command(&self) -> (c: Command)
        ensures
            c == self.command(),
    {
        match self {
            SeqError::Reset => Command::RetPort,
            SeqError::Transfer { .. } => Command::RetSubmit,
        }
    }

    pub fn as_status(&self) -> (s: Status)
        ensures
            s == self.status(),
    {
        match self {
            SeqError::Reset => Status::NoDev,
            SeqError::Transfer { err, .. } => err.as_proto(),
        }
    }
}

/// An error on a device.
pub struct UsbError {
    pub id: UsbDeviceId,
    pub seq: Sequenced<SeqError>,
}

impl UsbError {
    /// The frame that tells the borrower of the error.
    pub fn as_header(&self) -> (h: Header)
        ensures
            h == frame::header_for(
                self.seq.data.command(),
                self.seq.data.status(),
                self.seq.seqnum,
                8,
            ),
    {
        Header {
            total_frame_len: compress_frame_len(8),
            command: self.seq.data.as_command(),
            status: self.seq.data.as_status(),
            seqnum: self.seq.seqnum,
        }
    }
}

/// An error on a device, of which the borrower is told.
pub trait DeviceError {
    /// The frame that tells the borrower of the error.
    spec fn header(&self) -> Header;

    /// The frame that tells the borrower of the error.
    fn to_header(&self) -> (h: Header)
        ensures
            h == self.header(),
    ;
}

impl DeviceError for UsbError {
    open spec fn header(&self) -> Header {
        frame::header_for(self.seq.data.command(), self.seq.data.status(), self.seq.seqnum, 8)
    }

    fn to_header(&self) -> Header {
        self.as_header()
    }
}

/// Why the lending of a device ended. `E` is the error of the streams, `U` that of the device.
pub enum Error<E, U = UsbError> {
    /// The device failed; the borrower is told.
    Usb(U),
    Recv(RecvError<E>),
    Send(E),
}

/// How a loop ended: with an error, or with `None` where its stream of events ended.
pub fn loop_result<E>(r: Result<(), Option<E>>) -> (out: Result<(), E>)
    ensures
        out == (match r {
            Ok(()) => Ok::<(), E>(()),
            Err(None) => Ok::<(), E>(()),
            Err(Some(e)) => Err::<(), E>(e),
        }),
{
    match r {
        Ok(()) => Ok(()),
        Err(None) => Ok(()),
        Err(Some(e)) => Err(e),
    }
}

/// What happens to the loop that sends.
pub enum SendEvent<E, U = UsbError> {
    /// The answer to something that was completed was put in the buffer, or the device failed.
    Completed(Result<(), U>),
    /// The bytes were written, or that failed.
    FlushComplete(Result<(), E>),
    /// Nothing more is completed, or the lending was cancelled.
    Ended,
}

/// Decides whether an event ends the loop that sends, and with which error.
pub fn on_send_event<E, U>(event: SendEvent<E, U>) -> (r: Result<(), Option<Error<E, U>>>)
    ensures
        r == (match event {
            SendEvent::Completed(Err(e)) => Err::<(), Option<Error<E, U>>>(Some(Error::Usb(e))),
            SendEvent::FlushComplete(Err(e)) => Err::<(), Option<Error<E, U>>>(
                Some(Error::Send(e)),
            ),
            SendEvent::Ended => Err::<(), Option<Error<E, U>>>(None),
            _ => Ok::<(), Option<Error<E, U>>>(()),
        }),
{
    match event {
        SendEvent::Completed(Err(e)) => Err(Some(Error::Usb(e))),
        SendEvent::FlushComplete(Err(e)) => Err(Some(Error::Send(e))),
        SendEvent::Ended => Err(None),
        SendEvent::Completed(Ok(())) => Ok(()),
        SendEvent::FlushComplete(Ok(())) => Ok(()),
    }
}

/// The last frame that is written once the loop that sends has ended: where the device failed, what
/// tells the borrower so; otherwise none.
pub fn last_frame<E, U: DeviceError>(r: &Result<(), Option<Error<E, U>>>) -> (h: Option<Header>)
    ensures
        h == (match *r {
            Err(Some(Error::Usb(u))) => Some(u.header()),
            _ => None,
        }),
{
    match r {
        Err(Some(Error::Usb(u))) => Some(u.to_header()),
        _ => None,
    }
}

/// What is done with the stream once the loop that sends has ended.
#[derive(Debug, Clone, Copy, PartialEq, Eq, Structural)]
pub enum ClosingStep {
    /// Write the frame.
    Write(Header),
    /// End the loop that receives as well.
    Cancel,
    /// Close the stream.
    Close,
    /// Wait until the borrower has all that was written.
    AwaitStopped,
}

/// What is done with the stream once the loop that sends has ended, in this order: where the device
/// failed, the borrower is told, and nothing is written after that.
pub fn closing_steps<E, U: DeviceError>(r: &Result<(), Option<Error<E, U>>>) -> (steps: Vec<
    ClosingStep,
>)
    ensures
        steps@ == (match *r {
            Err(Some(Error::Usb(u))) => seq![
                ClosingStep::Write(u.header()),
                ClosingStep::Cancel,
                ClosingStep::Close,
                ClosingStep::AwaitStopped,
            ],
            _ => seq![ClosingStep::Close, ClosingStep::AwaitStopped],
        }),
{
    let mut steps: Vec<ClosingStep> = Vec::new();
    match last_frame(r) {
        Some(h) => {
            steps.push(ClosingStep::Write(h));
            steps.push(ClosingStep::Cancel);
        },
        None => {},
    }
    steps.push(ClosingStep::Close);
    steps.push(ClosingStep::AwaitStopped);
    steps
}

/// How the loop that receives ended: an error is one of receiving.
pub fn recv_result<E, U>(r: Result<(), Option<RecvError<E>>>) -> (out: Result<(), Error<E, U>>)
    ensures
        out == (match r {
            Err(Some(e)) => Err::<(), Error<E, U>>(Error::Recv(e)),
            _ => Ok::<(), Error<E, U>>(()),
        }),
{
    match r {
        Err(Some(e)) => Err(Error::Recv(e)),
        Err(None) => Ok(()),
        Ok(()) => Ok(()),
    }
}

/// How the lending of a device ended, once both of its loops have: what went wrong while receiving
/// comes before what went wrong while sending.
pub fn lend_outcome<E>(recv: Result<(), E>, send: Result<(), E>) -> (r: Result<(), E>)
    ensures
        r == (match recv {
            Err(e) => Err::<(), E>(e),
            Ok(()) => send,
        }),
{
    match recv {
        Err(e) => Err(e),
        Ok(()) => send,
    }
}

} // verus!
