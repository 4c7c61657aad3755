//! How the borrowing of a device goes on after each event, and how it ends.
use crate::operator::recv::{borrow_dispatch, BorrowAction};
use crate::proto::unpacked::Frame;
use crate::proto::{AbortableError, RecvError};
use vstd::prelude::*;

verus! {

/// What failed at the virtual host controller or at the device behind it.
pub enum VhciError<E> {
    /// A call to the driver failed.
    Driver(E),
    /// The physical device failed.
    Phys(AbortableError),
}

/// Why the borrowing of a device ended. `E` is the error of the streams and of the driver.
pub enum Error<E> {
    Vhci(VhciError<E>),
    /// Receiving from the peer failed.
    Recv(RecvError<E>),
    /// Sending to the peer failed.
    Send(E),
}

/// What happens to the loop that receives.
pub enum RecvEvent<E> {
    /// A frame was received, or the peer answered with an error, or receiving failed.
    Frame(Result<Result<Frame, AbortableError>, RecvError<E>>),
    /// A request block was given back, or that failed.
    GivebackComplete(Result<(), E>),
    /// Nothing more is received: the peer has closed its side, or the borrowing was cancelled.
    Ended,
}

/// What the loop that receives does next.
pub enum RecvStep {
    /// Give a request block back, or take note of a reset.
    Do(BorrowAction),
    Wait,
}

/// What the event does, or what it ends the loop with.
pub open spec fn stepped<E>(event: RecvEvent<E>, r: Result<RecvStep, Option<Error<E>>>) -> bool {
    match event {
        RecvEvent::GivebackComplete(Ok(())) => r == Ok::<RecvStep, Option<Error<E>>>(
            RecvStep::Wait,
        ),
        RecvEvent::GivebackComplete(Err(e)) => r == Err::<RecvStep, Option<Error<E>>>(
            Some(Error::Vhci(VhciError::Driver(e))),
        ),
        RecvEvent::Frame(Ok(Ok(Frame::Urb(urb)))) => r == Ok::<RecvStep, Option<Error<E>>>(
            RecvStep::Do(BorrowAction::UrbReply(urb.seqnum, urb.data)),
        ),
        RecvEvent::Frame(Ok(Ok(Frame::PortReset(seqnum)))) => r == Ok::<
            RecvStep,
            Option<Error<E>>,
        >(RecvStep::Do(BorrowAction::DeviceReset(seqnum))),
        RecvEvent::Frame(Ok(Ok(Frame::Unlink(_)))) => false,
        RecvEvent::Frame(Ok(Err(e))) => r == Err::<RecvStep, Option<Error<E>>>(
            Some(Error::Vhci(VhciError::Phys(e))),
        ),
        RecvEvent::Frame(Err(e)) => r == Err::<RecvStep, Option<Error<E>>>(Some(Error::Recv(e))),
        RecvEvent::Ended => r == Err::<RecvStep, Option<Error<E>>>(None),
    }
}

/// Decides what an event does to the loop that receives; no lender asks for an unlink.
pub fn on_recv_event<E>(event: RecvEvent<E>) -> (r: Result<RecvStep, Option<Error<E>>>)
    requires
        !(event matches RecvEvent::Frame(Ok(Ok(Frame::Unlink(_))))),
    ensures
        stepped(event, r),
{
    match event {
        RecvEvent::GivebackComplete(Ok(())) => Ok(RecvStep::Wait),
        RecvEvent::GivebackComplete(Err(e)) => Err(Some(Error::Vhci(VhciError::Driver(e)))),
        RecvEvent::Frame(Ok(Ok(frame))) => Ok(RecvStep::Do(borrow_dispatch(frame))),
        RecvEvent::Frame(Ok(Err(e))) => Err(Some(Error::Vhci(VhciError::Phys(e)))),
        RecvEvent::Frame(Err(e)) => Err(Some(Error::Recv(e))),
        RecvEvent::Ended => Err(None),
    }
}

/// A reply is given back under its own number, and a reset that was answered is noted under its own. The
/// loop goes on after a block was given back; it ends with the error of the driver, with that of the
/// device, with that of the stream, or well.
pub proof fn law_events_are_followed<E>(event: RecvEvent<E>, r: Result<RecvStep, Option<Error<E>>>)
    requires
        stepped(event, r),
    ensures
        r matches Ok(RecvStep::Do(BorrowAction::UrbReply(seqnum, data))) ==> (event matches
            RecvEvent::Frame(Ok(Ok(Frame::Urb(urb)))) && urb.seqnum == seqnum && urb.data == data),
        r matches Ok(RecvStep::Do(BorrowAction::DeviceReset(seqnum))) ==> (event matches
            RecvEvent::Frame(Ok(Ok(Frame::PortReset(n)))) && n == seqnum),
        r matches Ok(RecvStep::Wait) ==> (event matches RecvEvent::GivebackComplete(Ok(()))),
        r matches Err(None) ==> event is Ended,
        r matches Err(Some(Error::Vhci(VhciError::Driver(e)))) ==> (event matches
            RecvEvent::GivebackComplete(Err(f)) && f == e),
        r matches Err(Some(Error::Vhci(VhciError::Phys(e)))) ==> (event matches RecvEvent::Frame(
            Ok(Err(f)),
        ) && f == e),
        r matches Err(Some(Error::Recv(e))) ==> (event matches RecvEvent::Frame(Err(f)) && f == e),
        !(r matches Err(Some(Error::Send(_)))),
{
}

/// What happens to the loop that sends.
pub enum SendEvent<E> {
    /// What the host controller asked for was done, or fetching its data failed.
    Work(Result<(), E>),
    /// The block that set the address was given back, or that failed.
    SetAddress(Result<(), E>),
    /// The bytes were written, or that failed.
    FlushComplete(Result<(), E>),
    /// The host controller asks for nothing more, or the borrowing was cancelled.
    Ended,
}

/// Decides whether an event ends the loop that sends, and with which error.
pub fn on_send_event<E>(event: SendEvent<E>) -> (r: Result<(), Option<Error<E>>>)
    ensures
        r == (match event {
            SendEvent::Work(Err(e)) | SendEvent::SetAddress(Err(e)) => Err::<
                (),
                Option<Error<E>>,
            >(Some(Error::Vhci(VhciError::Driver(e)))),
            SendEvent::FlushComplete(Err(e)) => Err::<(), Option<Error<E>>>(
                Some(Error::Send(e)),
            ),
            SendEvent::Ended => Err::<(), Option<Error<E>>>(None),
            _ => Ok::<(), Option<Error<E>>>(()),
        }),
{
    match event {
        SendEvent::Work(Err(e)) => Err(Some(Error::Vhci(VhciError::Driver(e)))),
        SendEvent::SetAddress(Err(e)) => Err(Some(Error::Vhci(VhciError::Driver(e)))),
        SendEvent::FlushComplete(Err(e)) => Err(Some(Error::Send(e))),
        SendEvent::Ended => Err(None),
        SendEvent::Work(Ok(())) => Ok(()),
        SendEvent::SetAddress(Ok(())) => Ok(()),
        SendEvent::FlushComplete(Ok(())) => Ok(()),
    }
}

/// How the borrowing of a device ended, once both of its loops have and the port is free again:
/// that it could not be freed comes first, then what went wrong while sending.
pub fn borrow_outcome<E>(
    disconnect: Result<(), E>,
    send: Result<(), E>,
    recv: Result<(), E>,
) -> (r: Result<(), E>)
    ensures
        r == (match (disconnect, send) {
            (Err(e), _) => Err::<(), E>(e),
            (Ok(()), Err(e)) => Err::<(), E>(e),
            (Ok(()), Ok(())) => recv,
        }),
{
    match disconnect {
        Err(e) => Err(e),
        Ok(()) => match send {
            Err(e) => Err(e),
            Ok(()) => recv,
        },
    }
}

} // verus!
