//! What a borrower with numbers of sixty-four bits does with its work, told field by field.
use crate::proto::msg::{Command, Status, UsbDeviceId};
use crate::state;
use crate::state::{ClientBorrowDevice, DescriptorType, Happening, LendRequest, WorkAction};
use crate::usb;
use crate::usb::{IocSetupPacket, IocUrb, PortStat, UrbHandle, UrbType, Work};
use vstd::prelude::*;

verus! {

/// A change of the port is kept. The device has the default address after a reset that came to its end, no
/// address after a change of the connection, and otherwise the one that it had; the reset of a connected
/// device is completed on the same port. Nothing is asked for.
pub proof fn law_port_is_noted(
    before: ClientBorrowDevice,
    after: ClientBorrowDevice,
    next: PortStat,
    action: WorkAction,
)
    requires
        before.worked(after, Work::PortStat(next), action),
    ensures
        after.prev == next,
        after.id == before.id,
        after.seqnum == before.seqnum,
        after.seqnums@ == before.seqnums@,
        after.handles@ == before.handles@,
        next.reset_changed && !next.reset && next.enable ==> after.addr == 0,
        !(next.reset_changed && !next.reset && next.enable) && next.connection_changed
            ==> after.addr == 255,
        !(next.reset_changed && !next.reset && next.enable) && !next.connection_changed
            ==> after.addr == before.addr,
        next.connection && next.reset && !before.prev.reset <==> action
            == WorkAction::CompleteReset(next.index),
        !(next.connection && next.reset && !before.prev.reset) <==> action == WorkAction::Nothing,
{
}

/// A block that sets the address of a device without one sets it and asks for nothing. Every other block
/// is asked for under the next number, which then stands for it, with the block's own fields.
pub proof fn law_block_is_asked_for(
    before: ClientBorrowDevice,
    after: ClientBorrowDevice,
    urb: IocUrb,
    handle: UrbHandle,
    action: WorkAction,
)
    requires
        before.workable(Work::ProcessUrb(urb, handle)),
        before.worked(after, Work::ProcessUrb(urb, handle), action),
    ensures
        ({
            let sets = urb.typ == UrbType::Ctrl && urb.address == 0
                && urb.setup_packet.bm_request_type == 0 && urb.setup_packet.b_request == 5;
            &&& after.id == before.id
            &&& after.prev == before.prev
            &&& sets ==> {
                &&& action == WorkAction::Nothing
                &&& after.addr == urb.setup_packet.w_value
                &&& after.seqnum == before.seqnum
                &&& after.seqnums@ == before.seqnums@
                &&& after.handles@ == before.handles@
            }
            &&& !sets ==> {
                &&& after.addr == before.addr
                &&& before.addr == urb.address
                &&& before.seqnum < u64::MAX ==> after.seqnum == before.seqnum + 1
                &&& before.seqnum == u64::MAX ==> after.seqnum == 0
                &&& after.seqnums@ == before.seqnums@.insert(before.seqnum, handle)
                &&& after.handles@ == before.handles@.insert(handle.0, before.seqnum)
                &&& action is Submit
                &&& action->Submit_0.header.seqnum == before.seqnum
                &&& action->Submit_0.header.dev_id == before.id
                &&& action->Submit_0.header.command == Command::CmdSubmit
                &&& action->Submit_0.header.status == Status::Success
                &&& action->Submit_0.block.setup_packet.bm_request_type
                    == urb.setup_packet.bm_request_type
                &&& action->Submit_0.block.setup_packet.b_request == urb.setup_packet.b_request
                &&& action->Submit_0.block.setup_packet.w_value == urb.setup_packet.w_value
                &&& action->Submit_0.block.setup_packet.w_index == urb.setup_packet.w_index
                &&& action->Submit_0.block.setup_packet.w_length == urb.setup_packet.w_length
                &&& action->Submit_0.block.interval == urb.interval
                &&& action->Submit_0.block.flags == urb.flags
                &&& action->Submit_0.block.address == urb.address
                &&& action->Submit_0.block.endpoint == urb.endpoint
                &&& action->Submit_0.block.kind == urb.typ
                &&& action->Submit_0.block.num_errors == 0
                &&& action->Submit_0.block.status == usb::Status::Pending
                &&& action->Submit_0.transfer.actual_len == urb.buffer_length
                &&& action->Submit_0.transfer.aligned_len % 8 == 0
                &&& urb.buffer_length <= action->Submit_0.transfer.aligned_len < urb.buffer_length
                    + 8
                &&& action->Submit_0.num_packets == urb.packet_count
                &&& action->Submit_0.needs_fetch <==> urb.buffer_length > 0 || urb.packet_count > 0
            }
        }),
{
    if urb.buffer_length >= 0 {
        crate::utils::law_padded(urb.buffer_length as nat);
    }
}

/// Taking a block back is asked for under a number of its own, which then stands for the block; the number
/// that the block was asked for under stands for nothing more, and no other is touched.
pub proof fn law_block_is_taken_back(
    before: ClientBorrowDevice,
    after: ClientBorrowDevice,
    handle: UrbHandle,
    action: WorkAction,
    other: u64,
)
    requires
        before.worked(after, Work::CancelUrb(handle), action),
        other != before.seqnum,
    ensures
        after.id == before.id,
        after.prev == before.prev,
        after.addr == before.addr,
        before.seqnum < u64::MAX ==> after.seqnum == before.seqnum + 1,
        before.seqnum == u64::MAX ==> after.seqnum == 0,
        action is Unlink,
        action->Unlink_0.header.seqnum == before.seqnum,
        action->Unlink_0.header.dev_id == before.id,
        action->Unlink_0.header.command == Command::CmdUnlink,
        action->Unlink_0.header.status == Status::Success,
        action->Unlink_0.handle == handle,
        !after.handles@.contains_key(handle.0),
        after.seqnums@.contains_key(before.seqnum),
        after.seqnums@[before.seqnum] == handle,
        before.handles@.contains_key(handle.0) && before.handles@[handle.0] == other
            ==> !after.seqnums@.contains_key(other),
        !(before.handles@.contains_key(handle.0) && before.handles@[handle.0] == other) ==> (
        after.seqnums@.contains_key(other) <==> before.seqnums@.contains_key(other)) && (
        before.seqnums@.contains_key(other) ==> after.seqnums@[other] == before.seqnums@[other]),
        forall|h: u64|
            h != handle.0 ==> (#[trigger] after.handles@.contains_key(h)
                <==> before.handles@.contains_key(h)),
        forall|h: u64|
            h != handle.0 && before.handles@.contains_key(h) ==> #[trigger] after.handles@[h]
                == before.handles@[h],
{
}

/// An answer makes its number and its block free, and touches nothing else.
pub proof fn law_answer_frees_number(
    before: ClientBorrowDevice,
    after: ClientBorrowDevice,
    seqnum: u64,
    other: u64,
)
    requires
        before.answered(after, seqnum),
        before.seqnums@.contains_key(seqnum),
        other != seqnum,
    ensures
        after.id == before.id,
        after.seqnum == before.seqnum,
        after.addr == before.addr,
        after.prev == before.prev,
        !after.seqnums@.contains_key(seqnum),
        !after.handles@.contains_key(before.seqnums@[seqnum].0),
        after.seqnums@.contains_key(other) <==> before.seqnums@.contains_key(other),
        before.seqnums@.contains_key(other) ==> after.seqnums@[other] == before.seqnums@[other],
        forall|h: u64|
            h != before.seqnums@[seqnum].0 && before.handles@.contains_key(h)
                ==> #[trigger] after.handles@.contains_key(h) && after.handles@[h]
                == before.handles@[h],
{
}

/// What work can be done: any cancel, any change of the port but a device that resumes, an address that
/// fits into a byte, and blocks for the device's own address whose numbers fit into a frame.
pub proof fn law_what_can_be_done(
    c: ClientBorrowDevice,
    urb: IocUrb,
    handle: UrbHandle,
    next: PortStat,
)
    ensures
        c.workable(Work::CancelUrb(handle)),
        c.workable(Work::PortStat(next)) <==> !(next.connection && next.resuming
            && !c.prev.resuming),
        ({
            let sets = urb.typ == UrbType::Ctrl && urb.address == 0
                && urb.setup_packet.bm_request_type == 0 && urb.setup_packet.b_request == 5;
            c.workable(Work::ProcessUrb(urb, handle)) <==> (sets && urb.setup_packet.w_value < 256)
                || (!sets && c.addr == urb.address && 0 <= urb.buffer_length <= 65528 && 0
                <= urb.interval <= 65535 && 0 <= urb.packet_count <= 65535)
        }),
{
}

/// The work that is asked for, and the frames that are written, are those of each event in turn.
pub proof fn law_asked_and_written(events: Seq<Happening>, e: Happening)
    ensures
        state::asked(Seq::<Happening>::empty()).len() == 0,
        state::written(Seq::<Happening>::empty()).len() == 0,
        state::asked(events.push(e)) == (match e {
            Happening::Work(Work::CancelUrb(h), _) => state::asked(events).push(Work::CancelUrb(h)),
            Happening::Work(Work::ProcessUrb(urb, h), _) => if urb.typ == UrbType::Ctrl
                && urb.address == 0 && urb.setup_packet.bm_request_type == 0
                && urb.setup_packet.b_request == 5 {
                state::asked(events)
            } else {
                state::asked(events).push(Work::ProcessUrb(urb, h))
            },
            _ => state::asked(events),
        }),
        state::written(events.push(e)) == (match e {
            Happening::Work(_, WorkAction::Submit(f)) => state::written(events).push(
                WorkAction::Submit(f),
            ),
            Happening::Work(_, WorkAction::Unlink(f)) => state::written(events).push(
                WorkAction::Unlink(f),
            ),
            _ => state::written(events),
        }),
{
    assert(events.push(e).drop_last() =~= events);
}

/// A port of which nothing is known has no device, no power, and nothing goes on there.
pub proof fn law_idle_port()
    ensures
        ({
            let p = state::idle_port();
            &&& p.index == 0
            &&& !p.connection && !p.enable && !p.reset && !p.power
            &&& !p.connection_changed && !p.reset_changed && !p.resuming
        }),
{
}

/// Which number stands for which descriptor.
pub proof fn law_descriptor_codes(code: u8)
    ensures
        ({
            let d = DescriptorType::of_code(code);
            &&& code == 1 <==> d == Some(DescriptorType::Device)
            &&& code == 2 <==> d == Some(DescriptorType::Configuration)
            &&& code == 3 <==> d == Some(DescriptorType::String)
            &&& code == 4 <==> d == Some(DescriptorType::Interface)
            &&& code == 5 <==> d == Some(DescriptorType::Endpoint)
            &&& code == 0 || code > 5 <==> d is None
        }),
{
}

/// What a lender is asked for: a descriptor, by the high byte of the value, with the low byte as its index,
/// or the number of the configuration.
pub proof fn law_lend_requests(p: IocSetupPacket, code: u8, index: u8)
    requires
        p.w_value == 256 * code + index,
    ensures
        p.bm_request_type == 128 && p.b_request == 6 <==> state::lend_request_of(p)
            == LendRequest::GetDescriptor(DescriptorType::of_code(code), index),
        p.bm_request_type == 128 && p.b_request == 8 <==> state::lend_request_of(p)
            == LendRequest::GetConfiguration,
        !(p.bm_request_type == 128 && (p.b_request == 6 || p.b_request == 8))
            <==> state::lend_request_of(p) == LendRequest::Other,
{
}

/// A frame is told from its number, its device and its work.
pub proof fn law_frame_names_work(id: UsbDeviceId, seqnum: u64, urb: IocUrb, handle: UrbHandle)
    ensures
        state::frame_of(id, seqnum, Work::ProcessUrb(urb, handle)) matches WorkAction::Submit(f)
            && f.header.seqnum == seqnum && f.header.dev_id == id && f.block.endpoint
            == urb.endpoint && f.block.setup_packet == urb.setup_packet && f.block.kind == urb.typ,
        state::frame_of(id, seqnum, Work::CancelUrb(handle)) matches WorkAction::Unlink(f)
            && f.header.seqnum == seqnum && f.header.dev_id == id && f.handle == handle,
{
}

} // verus!
