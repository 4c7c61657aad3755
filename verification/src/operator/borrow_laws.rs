//! What the borrower makes of the work of its host controller, told in the fields of that work and in
//! the bytes that are written.
use crate::codec;
use crate::codec::Wire;
use crate::operator::borrow;
use crate::operator::borrow::{
    BorrowSendHandler, EmptyUrb, Fetched, HandleSeqnumLinker, WorkResult,
};
use crate::operator::laws;
use crate::proto::data::Data;
use crate::proto::frame;
use crate::proto::layout;
use crate::proto::msg::{Command, QusbFrame, Status, UrbFrame};
use crate::usb;
use crate::usb::{IocIsoPacketData, IocUrb, PortStat, UrbHandle, UrbType, Work};
use crate::utils;
use vstd::prelude::*;

verus! {

/// `b` is a frame of a header alone: eight bytes, with the byte that stands for the command, no
/// failure, and the sequence number.
pub open spec fn is_bare(b: Seq<u8>, command: int, seqnum: u32) -> bool {
    &&& b.len() == 8
    &&& b[0] == 1
    &&& b[1] == 0
    &&& b[2] == command
    &&& b[3] == 0
    &&& layout::low_first32(b, 4, seqnum as int)
}

/// The bytes of a frame that is a header alone.
pub proof fn law_bare_frame_bytes(command: Command, seqnum: u32)
    ensures
        is_bare(
            frame::bare_frame(command, Status::Success, seqnum),
            command.encoding()[0] as int,
            seqnum,
        ),
{
    let h = frame::header_for(command, Status::Success, seqnum, 8);
    layout::law_header_layout(h);
    layout::law_frame_codes(command, Status::Success);
}

/// The port begins to reset while the device stays where it is and has its power.
pub open spec fn reset_begins(prev: PortStat, next: PortStat) -> bool {
    &&& !prev.reset && next.reset
    &&& next.connection
    &&& !next.connection_changed
    &&& prev.power ==> next.power
}

/// A new state of the port is kept. The address is lost with the connection and is zero after a reset
/// that came to its end; nothing else touches it. The lender is told just of a reset that begins, with
/// the next number, which then stands for the handle and the handle for it, and of nothing else.
pub proof fn law_port_is_followed(
    before: BorrowSendHandler,
    after: BorrowSendHandler,
    linker: HandleSeqnumLinker,
    linker_after: HandleSeqnumLinker,
    next: PortStat,
    handle: UrbHandle,
)
    requires
        before.port_stat_done(after, linker, linker_after, next, handle),
    ensures
        after.prev == next,
        next.connection_changed ==> after.addr == 255,
        !next.connection_changed && next.reset_changed && !next.reset && next.enable ==> after.addr
            == 0,
        !next.connection_changed && !(next.reset_changed && !next.reset && next.enable)
            ==> after.addr == before.addr,
        reset_begins(before.prev, next) ==> {
            let n = before.cur_seq.inner;
            &&& after.waiting().take(before.waiting().len() as int) == before.waiting()
            &&& is_bare(after.waiting().skip(before.waiting().len() as int), 2, n)
            &&& after.cur_seq.inner == n + 1
            &&& linker_after.seqnums@ == linker.seqnums@.insert(handle.0, n)
            &&& linker_after.handles@ == linker.handles@.insert(n, handle.0)
        },
        !reset_begins(before.prev, next) ==> {
            &&& after.waiting() == before.waiting()
            &&& after.cur_seq.inner == before.cur_seq.inner
            &&& linker_after == linker
        },
{
    let n = before.cur_seq.inner;
    law_bare_frame_bytes(Command::CmdPort, n);
    layout::law_frame_codes(Command::CmdPort, Status::Success);
    frame::lemma_parts(
        before.waiting(),
        frame::bare_frame(Command::CmdPort, Status::Success, n),
    );
}

/// A reset that begins is told to the lender whenever the next number is free, whatever else is under
/// way: with that number, and with a handle that stood for nothing. Where the number is not free nothing
/// is done, and a state of the port without such a reset is always taken note of.
pub proof fn law_reset_is_passed_on(
    before: BorrowSendHandler,
    after: BorrowSendHandler,
    linker: HandleSeqnumLinker,
    linker_after: HandleSeqnumLinker,
    next: PortStat,
    done: bool,
)
    requires
        before.port_stat_tried(after, linker, linker_after, next, done),
    ensures
        done <==> !(reset_begins(before.prev, next) && linker.handles@.contains_key(
            before.cur_seq.inner,
        )),
        !done ==> after == before && linker_after == linker,
        done ==> after.prev == next,
        done && reset_begins(before.prev, next) ==> {
            let n = before.cur_seq.inner;
            &&& after.waiting().take(before.waiting().len() as int) == before.waiting()
            &&& is_bare(after.waiting().skip(before.waiting().len() as int), 2, n)
            &&& after.cur_seq.inner == n + 1
            &&& linker_after.handles@.contains_key(n)
            &&& !linker.seqnums@.contains_key(linker_after.handles@[n])
            &&& linker_after.handles@ == linker.handles@.insert(n, linker_after.handles@[n])
            &&& linker_after.seqnums@ == linker.seqnums@.insert(linker_after.handles@[n], n)
        },
        done && !reset_begins(before.prev, next) ==> after.waiting() == before.waiting()
            && linker_after == linker,
{
    if done {
        let handle = choose|handle: UrbHandle| #[trigger]
            before.port_stat_done(after, linker, linker_after, next, handle) && (
            borrow::port_action_of(before.prev, next) == borrow::PortAction::SendReset
                ==> before.unused(linker, handle));
        law_port_is_followed(before, after, linker, linker_after, next, handle);
    }
}

/// What is fetched for a request block: its data where they go to the device, and its packets.
pub proof fn law_fetch_plan(urb: IocUrb)
    requires
        borrow::carriable(urb),
    ensures
        ({
            let plan = borrow::fetch_plan_of(urb);
            let out = urb.endpoint.0 < 128;
            &&& out ==> 0 <= urb.buffer_length <= 65535
            &&& plan.transfer_len == (if out {
                urb.buffer_length as int
            } else {
                0
            })
            &&& (urb.packet_count - plan.packet_count) % 65536 == 0
            &&& 0 <= urb.packet_count <= 65535 ==> plan.packet_count == urb.packet_count
            &&& plan.needs_fetch <==> (out && urb.buffer_length > 0) || urb.packet_count != 0
        }),
{
    usb::law_low16(urb.packet_count);
}

/// The header of a request has the block's own fields: where it goes, how, how often, and the setup
/// packet as it is. It is still pending, has no errors, and loses one flag alone.
pub proof fn law_request_header_fields(urb: IocUrb)
    ensures
        ({
            let h = borrow::request_header(urb);
            &&& h.ctrl_packet.bm_request_type == urb.setup_packet.bm_request_type
            &&& h.ctrl_packet.b_request == urb.setup_packet.b_request
            &&& h.ctrl_packet.w_value == urb.setup_packet.w_value
            &&& h.ctrl_packet.w_index == urb.setup_packet.w_index
            &&& h.ctrl_packet.w_length == urb.setup_packet.w_length
            &&& h.endpoint.0 == urb.endpoint.0
            &&& h.kind == urb.typ
            &&& (urb.interval - h.interval) % 65536 == 0
            &&& (urb.buffer_length - h.actual_transfer_len) % 65536 == 0
            &&& (urb.packet_count - h.iso_packet_count) % 65536 == 0
            &&& h.status == usb::Status::Pending
            &&& h.num_errors == 0
            &&& h.flags & 4 == 0
            &&& h.flags | 4 == urb.flags | 4
        }),
{
    usb::law_low16(urb.interval);
    usb::law_low16(urb.buffer_length);
    usb::law_low16(urb.packet_count);
    let f = urb.flags;
    assert((f & !4u16) & 4 == 0) by (bit_vector);
    assert((f & !4u16) | 4 == f | 4) by (bit_vector);
}

/// A request block that the borrower works on reaches the lender under the number that then stands for
/// its handle: with the block's own setup packet, endpoint, kind and interval, with its data and with
/// its packets. What waited before stays in front of it.
#[verifier::rlimit(80)]
#[verifier::spinoff_prover]
pub proof fn law_block_is_carried<E>(
    before: BorrowSendHandler,
    after: BorrowSendHandler,
    linker: HandleSeqnumLinker,
    linker_after: HandleSeqnumLinker,
    urb: IocUrb,
    handle: UrbHandle,
    fetched: Result<Fetched, E>,
    r: Result<(), E>,
    transfer: Seq<u8>,
    packets: Seq<IocIsoPacketData>,
    received: Data<QusbFrame>,
    carried: Data<UrbFrame>,
)
    requires
        before.process_urb_done(after, linker, linker_after, urb, handle, fetched, r),
        borrow::carriable(urb),
        r is Ok,
        borrow::fetch_plan_of(urb).needs_fetch ==> fetched is Ok && fetched->Ok_0.complete(urb)
            && transfer == fetched->Ok_0.transfer@ && packets == fetched->Ok_0.packets@,
        !borrow::fetch_plan_of(urb).needs_fetch ==> transfer == Seq::<u8>::empty() && packets
            == Seq::<IocIsoPacketData>::empty(),
        utils::padded(transfer.len()) + 8 * packets.len() <= frame::max_body(),
        received.bytes() == after.waiting().skip(before.waiting().len() as int),
        carried.bytes() == received.tail(),
    ensures
        ({
            let n = before.cur_seq.inner;
            let h = carried.head();
            &&& after.waiting().take(before.waiting().len() as int) == before.waiting()
            &&& after.cur_seq.inner == n + 1
            &&& after.prev == before.prev
            &&& after.addr == before.addr
            &&& linker_after.seqnums@ == linker.seqnums@.insert(handle.0, n)
            &&& linker_after.handles@ == linker.handles@.insert(n, handle.0)
            &&& received.wf()
            &&& 8 * received.head().total_frame_len == received.bytes().len()
            &&& received.head().command == Command::CmdSubmit
            &&& received.head().status == Status::Success
            &&& received.head().seqnum == n
            &&& carried.wf()
            &&& h.ctrl_packet.bm_request_type == urb.setup_packet.bm_request_type
            &&& h.ctrl_packet.b_request == urb.setup_packet.b_request
            &&& h.ctrl_packet.w_value == urb.setup_packet.w_value
            &&& h.ctrl_packet.w_index == urb.setup_packet.w_index
            &&& h.ctrl_packet.w_length == urb.setup_packet.w_length
            &&& h.endpoint.0 == urb.endpoint.0
            &&& h.kind == urb.typ
            &&& (urb.interval - h.interval) % 65536 == 0
            &&& (urb.buffer_length - h.actual_transfer_len) % 65536 == 0
            &&& (urb.packet_count - h.iso_packet_count) % 65536 == 0
            &&& carried.tail().take(transfer.len() as int) == transfer
            &&& codec::decode_while::<IocIsoPacketData>(
                carried.tail().skip(carried.tail().len() - 8 * packets.len()),
            ) == packets
        }),
{
    let n = before.cur_seq.inner;
    let f = borrow::request_frame(n, urb, transfer, packets);
    frame::lemma_parts(before.waiting(), f);
    law_fetch_plan(urb);
    usb::law_low16(urb.packet_count);
    assert(received.bytes() == f);
    laws::law_request_reaches_lender(n, urb, transfer, packets, Seq::empty(), received, carried);
    law_request_header_fields(urb);
    laws::lemma_padded_transfer(transfer, codec::encode_all(packets));
    borrow::lemma_packets_len(packets);
    let header = frame::header_for(
        Command::CmdSubmit,
        Status::Success,
        n,
        32 + (utils::padded(transfer.len()) + 8 * packets.len()),
    );
    header.lemma_round_trip();
    borrow::request_header(urb).lemma_round_trip();
    utils::law_padded(transfer.len());
    assert(received.bytes().take(8) =~= header.encoding());
}

/// A block whose data cannot be fetched ends in that error, and nothing is left to be written.
pub proof fn law_failed_fetch_is_told<E>(
    before: BorrowSendHandler,
    after: BorrowSendHandler,
    linker: HandleSeqnumLinker,
    linker_after: HandleSeqnumLinker,
    urb: IocUrb,
    handle: UrbHandle,
    fetched: Result<Fetched, E>,
    r: Result<(), E>,
)
    requires
        before.process_urb_done(after, linker, linker_after, urb, handle, fetched, r),
        borrow::carriable(urb),
    ensures
        r is Err <==> fetched is Err && ((urb.endpoint.0 < 128 && urb.buffer_length > 0)
            || urb.packet_count != 0),
        r is Err ==> r->Err_0 == fetched->Err_0 && after.waiting().len() == 0,
{
    law_fetch_plan(urb);
}

/// A block that is canceled is taken back under the number that it went out with; one that has none,
/// because it was given back already, is told to nobody.
pub proof fn law_cancel_names_request(
    before: BorrowSendHandler,
    after: BorrowSendHandler,
    linker: HandleSeqnumLinker,
    handle: UrbHandle,
)
    requires
        before.cancel_urb_done(after, linker, handle),
    ensures
        linker.seqnums@.contains_key(handle.0) ==> after.waiting().take(
            before.waiting().len() as int,
        ) == before.waiting() && is_bare(
            after.waiting().skip(before.waiting().len() as int),
            1,
            linker.seqnums@[handle.0],
        ),
        !linker.seqnums@.contains_key(handle.0) ==> after.waiting() == before.waiting(),
        after.cur_seq == before.cur_seq,
        after.prev == before.prev,
        after.addr == before.addr,
{
    let n = linker.seqnums@[handle.0];
    law_bare_frame_bytes(Command::CmdUnlink, n);
    layout::law_frame_codes(Command::CmdUnlink, Status::Success);
    frame::lemma_parts(
        before.waiting(),
        frame::bare_frame(Command::CmdUnlink, Status::Success, n),
    );
}

/// A control block to a device without an address that asks to set one is kept back: the device has
/// the address that the block tells, nothing is written, and the block itself is given back. Every other
/// block goes out under the next number.
pub proof fn law_address_is_kept_back<E>(
    before: BorrowSendHandler,
    after: BorrowSendHandler,
    linker: HandleSeqnumLinker,
    linker_after: HandleSeqnumLinker,
    urb: IocUrb,
    block: UrbHandle,
    handle: UrbHandle,
    fetched: Result<Fetched, E>,
)
    requires
        before.work_done(
            after,
            linker,
            linker_after,
            Work::ProcessUrb(urb, block),
            handle,
            fetched,
        ),
    ensures
        ({
            let result = borrow::work_result(Work::ProcessUrb(urb, block), fetched);
            let sets = urb.typ == UrbType::Ctrl && urb.address == 0
                && urb.setup_packet.bm_request_type == 0 && urb.setup_packet.b_request == 5;
            &&& after.prev == before.prev
            &&& sets ==> {
                &&& (urb.setup_packet.w_value - after.addr) % 256 == 0
                &&& after.waiting() == before.waiting()
                &&& after.cur_seq == before.cur_seq
                &&& linker_after == linker
                &&& result == WorkResult::<E>::SetAddress(
                    EmptyUrb { handle: block, ioctl_urb: urb },
                )
            }
            &&& !sets ==> {
                &&& after.addr == before.addr
                &&& after.cur_seq.inner == before.cur_seq.inner + 1
                &&& linker_after.seqnums@ == linker.seqnums@.insert(block.0, before.cur_seq.inner)
                &&& linker_after.handles@ == linker.handles@.insert(before.cur_seq.inner, block.0)
                &&& result is ProcessUrb
            }
        }),
{
}

} // verus!
