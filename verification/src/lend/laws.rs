//! What a frame from the borrower starts, told by the bytes of its setup packet.
use crate::lend;
use crate::lend::send_loop::State;
use crate::lend::{CtrlKind, CtrlReq, LendAction};
use crate::operator::recv;
use crate::operator::recv::{InProgress, JobKind, Recv};
use crate::proto::data::Data;
use crate::proto::msg::{Status, UrbFrame};
use crate::proto::unpacked::{Frame, Sequenced};
use crate::usb::{IocSetupPacket, UrbType};
use vstd::prelude::*;

verus! {

/// Which control requests go through the operating system: to set an interface (1, 11), to set the
/// configuration (0, 9) and to clear the halt of an endpoint (2, 1). Each has its numbers in the low bytes
/// of the setup packet. All others go to the device.
pub proof fn law_ctrl_kinds(p: IocSetupPacket)
    ensures
        ({
            let k = CtrlKind::of(p);
            let sets_interface = p.bm_request_type == 1 && p.b_request == 11;
            let sets_config = p.bm_request_type == 0 && p.b_request == 9;
            let clears_halt = p.bm_request_type == 2 && p.b_request == 1;
            &&& k == CtrlKind::Async <==> !sets_interface && !sets_config && !clears_halt
            &&& sets_interface ==> (k matches CtrlKind::Blocking(CtrlReq::SetInterface(s)) && (
            p.w_value - s.setting) % 256 == 0 && (p.w_index - s.interface) % 256 == 0)
            &&& sets_config ==> (k matches CtrlKind::Blocking(CtrlReq::SetConfig(s)) && (p.w_value
                - s.desired) % 256 == 0)
            &&& clears_halt ==> (k matches CtrlKind::Blocking(CtrlReq::ClearStall(s)) && (p.w_index
                - s.endpoint) % 256 == 0)
        }),
{
}

/// A frame with a transfer starts that transfer, under the frame's number, by the kind that its header
/// tells.
pub proof fn law_transfer_is_started(urb: Sequenced<Data<UrbFrame>>, action: LendAction)
    requires
        lend::dispatched(Frame::Urb(urb), action),
    ensures
        ({
            let h = urb.data.head();
            let p = h.ctrl_packet;
            let sets_interface = p.bm_request_type == 1 && p.b_request == 11;
            let sets_config = p.bm_request_type == 0 && p.b_request == 9;
            let clears_halt = p.bm_request_type == 2 && p.b_request == 1;
            &&& h.kind == UrbType::Iso <==> action is NewIso
            &&& h.kind == UrbType::Int <==> action is NewInt
            &&& h.kind == UrbType::Bulk <==> action is NewBulk
            &&& h.kind == UrbType::Ctrl && sets_interface <==> action is SetInterface
            &&& h.kind == UrbType::Ctrl && sets_config <==> action is SetConfig
            &&& h.kind == UrbType::Ctrl && clears_halt <==> action is ClearStall
            &&& h.kind == UrbType::Ctrl && !sets_interface && !sets_config && !clears_halt
                <==> action is NewCtrl
            &&& match action {
                LendAction::NewIso(u) => u == urb,
                LendAction::NewInt(u) => u == urb,
                LendAction::NewBulk(u) => u == urb,
                LendAction::NewCtrl(u) => u == urb,
                LendAction::SetInterface(s) => s.seqnum == urb.seqnum && (p.w_value
                    - s.data.setting) % 256 == 0 && (p.w_index - s.data.interface) % 256 == 0,
                LendAction::SetConfig(s) => s.seqnum == urb.seqnum && (p.w_value - s.data.desired)
                    % 256 == 0,
                LendAction::ClearStall(s) => s.seqnum == urb.seqnum && (p.w_index
                    - s.data.endpoint) % 256 == 0,
                _ => false,
            }
        }),
{
    law_ctrl_kinds(urb.data.head().ctrl_packet);
}

/// A frame without a transfer cancels the request of its number or resets the port.
pub proof fn law_bare_frame_is_followed(seqnum: u32, cancels: LendAction, resets: LendAction)
    requires
        lend::dispatched(Frame::Unlink(seqnum), cancels),
        lend::dispatched(Frame::PortReset(seqnum), resets),
    ensures
        cancels == LendAction::CancelUrb(seqnum),
        resets == LendAction::DeviceReset(seqnum),
{
}

/// What is started is waited for under its own kind: each transfer under that of its endpoint, requests
/// that go through the operating system as control requests, and nothing is waited for after a cancel.
pub proof fn law_started_is_waited_for(action: LendAction)
    ensures
        ({
            let job = recv::job_of(action);
            &&& job == Some(JobKind::Iso) <==> action is NewIso
            &&& job == Some(JobKind::Int) <==> action is NewInt
            &&& job == Some(JobKind::Bulk) <==> action is NewBulk
            &&& job == Some(JobKind::Ctrl) <==> action is NewCtrl || action is SetInterface
                || action is SetConfig || action is ClearStall
            &&& job == Some(JobKind::Reset) <==> action is DeviceReset
            &&& job is None <==> action is CancelUrb
        }),
{
}

/// Each kind of thing under way has a count of its own.
pub proof fn law_counts(p: InProgress)
    ensures
        p.count(JobKind::Reset) == p.resets,
        p.count(JobKind::Ctrl) == p.ctrls,
        p.count(JobKind::Int) == p.ints,
        p.count(JobKind::Iso) == p.isos,
        p.count(JobKind::Bulk) == p.bulks,
{
}

/// Which frames a borrower can make something of: an unlink, which it refuses, and answers that succeed
/// or tell that the device failed or is gone. A success with a transfer has that transfer.
pub proof fn law_answers(recv: Recv)
    ensures
        ({
            let told = |s: Status| s == Status::Success || s == Status::DevErr || s == Status::NoDev;
            match recv {
                Recv::Unlink(_) => recv::answers(recv),
                Recv::PortReset(h) => recv::answers(recv) <==> told(h.status),
                Recv::Urb(h, data) => recv::answers(recv) <==> told(h.status) && !(h.status
                    == Status::Success && data is None),
            }
        }),
{
}

/// The loop that sends waits for the timer just while data gathers, for a write just while one is under
/// way, and where it waits for neither, nothing is left in the buffer.
pub proof fn law_send_loop_waits(s: State, buf_is_empty: bool)
    ensures
        s.waiting().timer <==> s == State::Timer,
        s.waiting().flush <==> s == State::Flush,
        s.keeps(buf_is_empty) && !buf_is_empty ==> s.waiting().timer || s.waiting().flush,
        buf_is_empty ==> s.keeps(buf_is_empty),
        s != State::Solicit ==> s.keeps(buf_is_empty),
{
}

} // verus!
