//! What each side makes of a frame that it received.
use crate::lend;
use crate::lend::{dispatch, LendAction};
use crate::proto::data::{Data, ValidBytes};
use crate::proto::msg::{Command, Header, QusbFrame, Status, UrbFrame};
use crate::proto::unpacked::{Frame, Sequenced};
use vstd::prelude::*;

verus! {

/// A frame by what it asks for or answers.
pub enum Recv {
    Urb(Header, Option<Data<UrbFrame>>),
    PortReset(Header),
    Unlink(Header),
}

/// Sorts a frame. No peer answers an unlink.
pub fn classify(frame: Data<QusbFrame>) -> (recv: Recv)
    requires
        frame.wf(),
        frame.head().command != Command::RetUnlink,
    ensures
        match frame.head().command {
            Command::CmdUnlink => recv == Recv::Unlink(frame.head()),
            Command::CmdPort | Command::RetPort => recv == Recv::PortReset(frame.head()),
            _ => {
                &&& recv is Urb
                &&& recv->Urb_0 == frame.head()
                &&& recv->Urb_1 is Some <==> UrbFrame::valid(frame.tail())
                &&& recv->Urb_1 matches Some(data) ==> data.wf() && data.bytes() == frame.tail()
            },
        },
{
    let header = frame.header();
    match header.command {
        Command::CmdUnlink => Recv::Unlink(header),
        Command::CmdPort | Command::RetPort => Recv::PortReset(header),
        _ => Recv::Urb(header, frame.split_data::<UrbFrame>()),
    }
}

/// What the lender starts for a frame; a transfer comes with its data.
pub fn lend_action(recv: Recv) -> (action: LendAction)
    requires
        recv matches Recv::Urb(_, data) ==> data is Some && data->0.wf(),
    ensures
        recv matches Recv::Unlink(header) ==> action == LendAction::CancelUrb(header.seqnum),
        recv matches Recv::PortReset(header) ==> action == LendAction::DeviceReset(header.seqnum),
        recv matches Recv::Urb(header, data) ==> lend::dispatched(
            Frame::Urb(Sequenced { seqnum: header.seqnum, data: data->0 }),
            action,
        ),
{
    match recv {
        Recv::Unlink(header) => LendAction::CancelUrb(header.seqnum),
        Recv::PortReset(header) => LendAction::DeviceReset(header.seqnum),
        Recv::Urb(header, Some(data)) => dispatch(
            Frame::Urb(Sequenced { seqnum: header.seqnum, data }),
        ),
        Recv::Urb(_, None) => vstd::pervasive::unreached(),
    }
}

/// What the borrower does for a frame.
pub enum BorrowAction {
    /// Give a request block back.
    UrbReply(u32, Data<UrbFrame>),
    DeviceReset(u32),
}

/// Why the borrower gives up.
#[derive(Debug, Clone, Copy, PartialEq, Eq, Structural)]
pub enum BorrowError {
    /// The lender asked for something that only a borrower asks for.
    Unlink,
    /// The device of the lender is in an error state.
    DeviceError,
    /// The device of the lender was disconnected.
    Disconnected,
}

/// The borrower can make something of the frame.
pub open spec fn answers(recv: Recv) -> bool {
    match recv {
        Recv::Unlink(_) => true,
        Recv::PortReset(header) => answer_status(header.status),
        Recv::Urb(header, data) => answer_status(header.status) && (header.status
            == Status::Success ==> data is Some),
    }
}

/// A status that a lender answers with.
pub open spec fn answer_status(status: Status) -> bool {
    status == Status::Success || status == Status::DevErr || status == Status::NoDev
}

/// Tells whether the borrower can make something of the frame.
pub fn is_answer(recv: &Recv) -> (b: bool)
    ensures
        b == answers(*recv),
{
    match recv {
        Recv::Unlink(_) => true,
        Recv::PortReset(header) => matches!(
            header.status,
            Status::Success | Status::DevErr | Status::NoDev
        ),
        Recv::Urb(header, data) => match header.status {
            Status::Success => data.is_some(),
            Status::DevErr | Status::NoDev => true,
            _ => false,
        },
    }
}

/// Decides what a frame from the lender does.
pub fn borrow_action(recv: Recv) -> (r: Result<BorrowAction, BorrowError>)
    requires
        answers(recv),
    ensures
        match recv {
            Recv::Unlink(_) => r == Err::<BorrowAction, BorrowError>(BorrowError::Unlink),
            Recv::PortReset(header) => match header.status {
                Status::Success => r == Ok::<BorrowAction, BorrowError>(
                    BorrowAction::DeviceReset(header.seqnum),
                ),
                Status::DevErr => r == Err::<BorrowAction, BorrowError>(BorrowError::DeviceError),
                _ => r == Err::<BorrowAction, BorrowError>(BorrowError::Disconnected),
            },
            Recv::Urb(header, data) => match header.status {
                Status::Success => r == Ok::<BorrowAction, BorrowError>(
                    BorrowAction::UrbReply(header.seqnum, data->0),
                ),
                Status::DevErr => r == Err::<BorrowAction, BorrowError>(BorrowError::DeviceError),
                _ => r == Err::<BorrowAction, BorrowError>(BorrowError::Disconnected),
            },
        },
{
    match recv {
        Recv::Unlink(_) => Err(BorrowError::Unlink),
        Recv::Urb(header, data) => match header.status {
            Status::Success => match data {
                Some(data) => Ok(BorrowAction::UrbReply(header.seqnum, data)),
                None => Err(BorrowError::DeviceError),
            },
            Status::DevErr => Err(BorrowError::DeviceError),
            _ => Err(BorrowError::Disconnected),
        },
        Recv::PortReset(header) => match header.status {
            Status::Success => Ok(BorrowAction::DeviceReset(header.seqnum)),
            Status::DevErr => Err(BorrowError::DeviceError),
            _ => Err(BorrowError::Disconnected),
        },
    }
}

/// Decides what a frame from the lender does, once it was parsed; an unlink comes from no lender.
pub fn borrow_dispatch(frame: Frame) -> (action: BorrowAction)
    requires
        !(frame is Unlink),
    ensures
        match frame {
            Frame::Urb(urb) => action == BorrowAction::UrbReply(urb.seqnum, urb.data),
            Frame::PortReset(seqnum) => action == BorrowAction::DeviceReset(seqnum),
            Frame::Unlink(_) => false,
        },
{
    match frame {
        Frame::Urb(urb) => BorrowAction::UrbReply(urb.seqnum, urb.data),
        Frame::PortReset(seqnum) => BorrowAction::DeviceReset(seqnum),
        Frame::Unlink(_) => vstd::pervasive::unreached(),
    }
}

/// The number of things of each kind that the lender has under way.
pub struct InProgress {
    pub resets: usize,
    pub ctrls: usize,
    pub ints: usize,
    pub isos: usize,
    pub bulks: usize,
}

/// A kind of thing that the lender has under way.
#[derive(Debug, Clone, Copy, PartialEq, Eq, Structural)]
pub enum JobKind {
    Reset,
    Ctrl,
    Int,
    Iso,
    Bulk,
}

impl InProgress {
    pub open spec fn count(&self, kind: JobKind) -> usize {
        match kind {
            JobKind::Reset => self.resets,
            JobKind::Ctrl => self.ctrls,
            JobKind::Int => self.ints,
            JobKind::Iso => self.isos,
            JobKind::Bulk => self.bulks,
        }
    }

    pub fn new() -> (p: Self)
        ensures
            forall|kind: JobKind| p.count(kind) == 0,
    {
        InProgress { resets: 0, ctrls: 0, ints: 0, isos: 0, bulks: 0 }
    }

    /// Tells whether an end of a thing of the kind is to be waited for.
    pub fn waits_for(&self, kind: JobKind) -> (b: bool)
        ensures
            b <==> self.count(kind) > 0,
    {
        match kind {
            JobKind::Reset => self.resets > 0,
            JobKind::Ctrl => self.ctrls > 0,
            JobKind::Int => self.ints > 0,
            JobKind::Iso => self.isos > 0,
            JobKind::Bulk => self.bulks > 0,
        }
    }

    /// Takes note of what was started; `None` for an action that is done at once.
    pub fn started(&mut self, action: &LendAction) -> (kind: Option<JobKind>)
        requires
            forall|kind: JobKind| old(self).count(kind) < usize::MAX,
        ensures
            kind == job_of(*action),
            forall|k: JobKind| #[trigger]
                final(self).count(k) == old(self).count(k) + if kind == Some(k) {
                    1int
                } else {
                    0int
                },
    {
        let ghost before = *self;
        assert(before.count(JobKind::Reset) < usize::MAX);
        assert(before.count(JobKind::Ctrl) < usize::MAX);
        assert(before.count(JobKind::Int) < usize::MAX);
        assert(before.count(JobKind::Iso) < usize::MAX);
        assert(before.count(JobKind::Bulk) < usize::MAX);
        match action {
            LendAction::NewIso(_) => {
                self.isos = self.isos + 1;
                Some(JobKind::Iso)
            },
            LendAction::NewInt(_) => {
                self.ints = self.ints + 1;
                Some(JobKind::Int)
            },
            LendAction::NewBulk(_) => {
                self.bulks = self.bulks + 1;
                Some(JobKind::Bulk)
            },
            LendAction::NewCtrl(_) | LendAction::SetInterface(_) | LendAction::SetConfig(_)
            | LendAction::ClearStall(_) => {
                self.ctrls = self.ctrls + 1;
                Some(JobKind::Ctrl)
            },
            LendAction::DeviceReset(_) => {
                self.resets = self.resets + 1;
                Some(JobKind::Reset)
            },
            LendAction::CancelUrb(_) => None,
        }
    }

    /// Takes note that something came to its end.
    pub fn completed(&mut self, kind: JobKind)
        requires
            old(self).count(kind) > 0,
        ensures
            forall|k: JobKind| #[trigger]
                final(self).count(k) == old(self).count(k) - if k == kind {
                    1int
                } else {
                    0int
                },
    {
        match kind {
            JobKind::Reset => {
                self.resets = self.resets - 1;
            },
            JobKind::Ctrl => {
                self.ctrls = self.ctrls - 1;
            },
            JobKind::Int => {
                self.ints = self.ints - 1;
            },
            JobKind::Iso => {
                self.isos = self.isos - 1;
            },
            JobKind::Bulk => {
                self.bulks = self.bulks - 1;
            },
        }
    }
}

/// The kind of thing that an action starts.
pub open spec fn job_of(action: LendAction) -> Option<JobKind> {
    match action {
        LendAction::NewIso(_) => Some(JobKind::Iso),
        LendAction::NewInt(_) => Some(JobKind::Int),
        LendAction::NewBulk(_) => Some(JobKind::Bulk),
        LendAction::NewCtrl(_) => Some(JobKind::Ctrl),
        LendAction::SetInterface(_) => Some(JobKind::Ctrl),
        LendAction::SetConfig(_) => Some(JobKind::Ctrl),
        LendAction::ClearStall(_) => Some(JobKind::Ctrl),
        LendAction::DeviceReset(_) => Some(JobKind::Reset),
        LendAction::CancelUrb(_) => None,
    }
}

} // verus!
