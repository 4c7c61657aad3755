//! What the loops that send do with each thing that happens, told in bytes and in fields.
use crate::buf;
use crate::lend::send_loop::{Action, State};
use crate::lend::CompletedTransfer;
use crate::operator::borrow;
use crate::operator::borrow::{BorrowSendHandler, Fetched, HandleSeqnumLinker, PortAction};
use crate::operator::borrow_laws;
use crate::operator::lend;
use crate::operator::lend::{FrameKind, LendSendHandler, UsbError};
use crate::operator::loops;
use crate::operator::loops::{BorrowSendLoop, BorrowStep, LendEvent, LendSendLoop};
use crate::operator::transfers::CancelTokens;
use crate::proto::frame;
use crate::proto::layout;
use crate::proto::msg::{Command, Status};
use crate::usb::{IocUrb, PortStat, UrbHandle, UrbType, Work};
use crate::utils;
use vstd::prelude::*;

verus! {

/// A port reset that succeeded is answered with its own number; one that failed puts nothing in the
/// buffer and ends the lending. No transfer is let go of.
pub proof fn law_reset_is_answered<T>(
    before: LendSendHandler,
    after: LendSendHandler,
    tokens: CancelTokens<T>,
    tokens_after: CancelTokens<T>,
    event: LendEvent,
    status: Status,
    r: Result<(), UsbError>,
)
    requires
        before.event_done(after, tokens, tokens_after, event, status, r),
        event is Reset,
    ensures
        ({
            let x = event->Reset_0;
            let n = before.waiting().len() as int;
            &&& tokens_after == tokens
            &&& after.dev_id == before.dev_id
            &&& x.data == Status::Success <==> r is Ok
            &&& r is Ok ==> after.waiting().take(n) == before.waiting() && borrow_laws::is_bare(
                after.waiting().skip(n),
                5,
                x.seqnum,
            )
            &&& r matches Err(e) ==> after.waiting() == before.waiting() && e.id == before.dev_id
                && e.seqnum == x.seqnum && e.status == x.data && e.kind == FrameKind::Reset
        }),
{
    let x = event->Reset_0;
    borrow_laws::law_bare_frame_bytes(Command::RetPort, x.seqnum);
    layout::law_frame_codes(Command::RetPort, Status::Success);
    frame::lemma_parts(
        before.waiting(),
        frame::bare_frame(Command::RetPort, Status::Success, x.seqnum),
    );
}

/// A transfer that the borrower is told succeeded is answered by its own frame, with its number, kind,
/// endpoint and status; its token is let go of whatever came of it. One that failed ends the lending, with
/// the same number, kind, endpoint and status.
pub proof fn law_transfer_is_answered<T>(
    before: LendSendHandler,
    after: LendSendHandler,
    tokens: CancelTokens<T>,
    tokens_after: CancelTokens<T>,
    event: LendEvent,
    status: Status,
    r: Result<(), UsbError>,
)
    requires
        before.event_done(after, tokens, tokens_after, event, status, r),
        !(event is Reset),
    ensures
        status == Status::Success <==> r is Ok,
        after.dev_id == before.dev_id,
        r is Err ==> after.waiting() == before.waiting() && r->Err_0.id == before.dev_id
            && r->Err_0.status == status,
        match event {
            CompletedTransfer::Reset(_) => false,
            CompletedTransfer::Ctrl(x) => {
                &&& lend::deregistered(tokens, tokens_after, x.seqnum)
                &&& r is Ok ==> after.waiting() == before.waiting() + lend::reply_frame(
                    x.seqnum,
                    lend::reply_header(UrbType::Ctrl, x.data.endpoint, 0, x.data.status, x.data.res),
                    x.data.res,
                    Seq::empty(),
                )
                &&& r matches Err(e) ==> e.seqnum == x.seqnum && e.kind == (FrameKind::Transfer {
                    kind: UrbType::Ctrl,
                    endpoint: x.data.endpoint,
                    status: x.data.status,
                })
            },
            CompletedTransfer::Int(x) => {
                &&& lend::deregistered(tokens, tokens_after, x.seqnum)
                &&& r is Ok ==> after.waiting() == before.waiting() + lend::reply_frame(
                    x.seqnum,
                    lend::reply_header(
                        UrbType::Int,
                        x.data.endpoint,
                        x.data.interval,
                        x.data.status,
                        x.data.res,
                    ),
                    x.data.res,
                    Seq::empty(),
                )
                &&& r matches Err(e) ==> e.seqnum == x.seqnum && e.kind == (FrameKind::Transfer {
                    kind: UrbType::Int,
                    endpoint: x.data.endpoint,
                    status: x.data.status,
                })
            },
            CompletedTransfer::Iso(x) => {
                &&& lend::deregistered(tokens, tokens_after, x.seqnum)
                &&& r is Ok ==> after.waiting() == before.waiting() + lend::reply_frame(
                    x.seqnum,
                    lend::iso_reply_header(x.data),
                    x.data.res,
                    buf::bytes_of(x.data.raw_iso_buf),
                )
                &&& r matches Err(e) ==> e.seqnum == x.seqnum && e.kind == (FrameKind::Transfer {
                    kind: UrbType::Iso,
                    endpoint: x.data.endpoint,
                    status: x.data.status,
                })
            },
            CompletedTransfer::Bulk(x) => {
                &&& lend::deregistered(tokens, tokens_after, x.seqnum)
                &&& r is Ok ==> after.waiting() == before.waiting() + lend::reply_frame(
                    x.seqnum,
                    lend::reply_header(UrbType::Bulk, x.data.endpoint, 0, x.data.status, x.data.res),
                    x.data.res,
                    Seq::empty(),
                )
                &&& r matches Err(e) ==> e.seqnum == x.seqnum && e.kind == (FrameKind::Transfer {
                    kind: UrbType::Bulk,
                    endpoint: x.data.endpoint,
                    status: x.data.status,
                })
            },
        },
{
}

/// There is room for an answer where there is room for its bytes, and eight more for what pads them.
pub proof fn law_room_for_answer(handler: LendSendHandler, event: LendEvent)
    ensures
        loops::event_fits(handler, event) ==> handler.waiting().len() + loops::event_frame(
            event,
        ).len() <= buf::max_len(),
        loops::event_fits(handler, event) <==> handler.waiting().len() + (match event {
            CompletedTransfer::Reset(_) => 8,
            CompletedTransfer::Ctrl(x) => 40 + x.data.res.given().len(),
            CompletedTransfer::Int(x) => 40 + x.data.res.given().len(),
            CompletedTransfer::Iso(x) => 40 + x.data.res.given().len() + buf::bytes_of(
                x.data.raw_iso_buf,
            ).len(),
            CompletedTransfer::Bulk(x) => 40 + x.data.res.given().len(),
        }) <= buf::max_len(),
{
    match event {
        CompletedTransfer::Reset(x) => {
            borrow_laws::law_bare_frame_bytes(Command::RetPort, x.seqnum);
        },
        CompletedTransfer::Ctrl(x) => {
            lemma_reply_len(handler, x.data.res, Seq::empty());
        },
        CompletedTransfer::Int(x) => {
            lemma_reply_len(handler, x.data.res, Seq::empty());
        },
        CompletedTransfer::Iso(x) => {
            lemma_reply_len(handler, x.data.res, buf::bytes_of(x.data.raw_iso_buf));
        },
        CompletedTransfer::Bulk(x) => {
            lemma_reply_len(handler, x.data.res, Seq::empty());
        },
    }
}

/// A reply that there is room for fits.
proof fn lemma_reply_len(
    handler: LendSendHandler,
    res: crate::lend::ResultData,
    packets: Seq<u8>,
)
    ensures
        forall|seqnum: u32, header: crate::proto::msg::UrbHeader|
            handler.has_room(res, packets) ==> handler.waiting().len() + (#[trigger] lend::reply_frame(
                seqnum,
                header,
                res,
                packets,
            )).len() <= buf::max_len(),
{
    utils::law_padded(res.given().len());
    assert forall|seqnum: u32, header: crate::proto::msg::UrbHeader|
        handler.has_room(res, packets) implies handler.waiting().len() + (#[trigger] lend::reply_frame(
            seqnum,
            header,
            res,
            packets,
        )).len() <= buf::max_len() by {
        let body = lend::padded_transfer(res.given()) + packets;
        crate::codec::Wire::lemma_round_trip(&header);
        crate::codec::Wire::lemma_round_trip(
            &frame::header_for(Command::RetSubmit, Status::Success, seqnum, 32 + body.len()),
        );
    }
}

/// An answer that the lender put in its buffer is on its way: the timer runs or a write is under way, and
/// the timer is started just where neither was.
pub proof fn law_answer_is_on_its_way<T>(
    before: LendSendLoop,
    after: LendSendLoop,
    tokens: CancelTokens<T>,
    tokens_after: CancelTokens<T>,
    event: LendEvent,
    status: Status,
    r: Result<Action, UsbError>,
)
    requires
        before.event_handled(after, tokens, tokens_after, event, status, r),
    ensures
        r matches Ok(action) ==> {
            &&& action == Action::ArmTimer <==> before.state == State::Solicit
            &&& action == Action::Wait <==> before.state != State::Solicit
            &&& before.state == State::Solicit ==> after.state == State::Timer
            &&& before.state != State::Solicit ==> after.state == before.state
        },
        r is Err ==> after.state == before.state && after.handler.waiting()
            == before.handler.waiting(),
        r is Ok <==> (match event {
            CompletedTransfer::Reset(x) => x.data == Status::Success,
            _ => status == Status::Success,
        }),
{
}

/// All that waits is written when the timer goes off, and where more came meanwhile the timer is started
/// again.
pub proof fn law_lender_writes_what_waits(
    gathered: LendSendLoop,
    writing: LendSendLoop,
    bytes: Seq<u8>,
    wrote: LendSendLoop,
    rested: LendSendLoop,
    action: Action,
)
    requires
        gathered.timer_gone_off(writing, bytes),
        wrote.flushed(rested, action),
    ensures
        gathered.state == State::Timer,
        bytes == gathered.handler.waiting(),
        writing.handler.waiting().len() == 0,
        writing.handler.dev_id == gathered.handler.dev_id,
        writing.state == State::Flush,
        wrote.state == State::Flush,
        rested.handler == wrote.handler,
        wrote.handler.waiting().len() == 0 <==> rested.state == State::Solicit,
        wrote.handler.waiting().len() == 0 <==> action == Action::Wait,
        wrote.handler.waiting().len() > 0 <==> rested.state == State::Timer,
        wrote.handler.waiting().len() > 0 <==> action == Action::ArmTimer,
        rested.inv(),
{
}

/// The borrower writes what waits in the same way, and keeps what it knows of its port and its numbers.
pub proof fn law_borrower_writes_what_waits(
    gathered: BorrowSendLoop,
    writing: BorrowSendLoop,
    bytes: Seq<u8>,
    wrote: BorrowSendLoop,
    rested: BorrowSendLoop,
    action: Action,
)
    requires
        gathered.timer_gone_off(writing, bytes),
        wrote.flushed(rested, action),
    ensures
        gathered.state == State::Timer,
        bytes == gathered.handler.waiting(),
        writing.handler.waiting().len() == 0,
        writing.handler.cur_seq == gathered.handler.cur_seq,
        writing.handler.prev == gathered.handler.prev,
        writing.handler.addr == gathered.handler.addr,
        writing.addr_pending == gathered.addr_pending,
        writing.state == State::Flush,
        wrote.state == State::Flush,
        rested.handler == wrote.handler,
        rested.addr_pending == wrote.addr_pending,
        wrote.handler.waiting().len() == 0 <==> rested.state == State::Solicit,
        wrote.handler.waiting().len() == 0 <==> action == Action::Wait,
        wrote.handler.waiting().len() > 0 <==> rested.state == State::Timer,
        wrote.handler.waiting().len() > 0 <==> action == Action::ArmTimer,
        rested.inv(),
{
}

/// The work of a request block as the loop sees it: a block that sets an address is given back, and the
/// answer is waited for until it is; a block whose data could not be fetched ends the loop; every other is
/// put in the buffer, and the timer is started just where it does not run and nothing is written.
pub proof fn law_block_through_loop<E>(
    before: BorrowSendLoop,
    after: BorrowSendLoop,
    set: BorrowSendLoop,
    linker: HandleSeqnumLinker,
    linker_after: HandleSeqnumLinker,
    urb: IocUrb,
    block: UrbHandle,
    handle: UrbHandle,
    fetched: Result<Fetched, E>,
    r: Result<BorrowStep, E>,
)
    requires
        before.worked(
            after,
            linker,
            linker_after,
            Work::ProcessUrb(urb, block),
            handle,
            fetched,
            r,
        ),
        after.address_set(set),
    ensures
        ({
            let sets = urb.typ == UrbType::Ctrl && urb.address == 0
                && urb.setup_packet.bm_request_type == 0 && urb.setup_packet.b_request == 5;
            let fails = !sets && fetched is Err && ((urb.endpoint.0 < 128 && urb.buffer_length > 0)
                || urb.packet_count != 0);
            &&& sets ==> after.addr_pending && after.state == before.state && (r matches Ok(
                BorrowStep::GiveBack(e),
            ) && e.handle == block && e.ioctl_urb == urb)
            &&& fails ==> r == Err::<BorrowStep, E>(fetched->Err_0) && after.addr_pending
                == before.addr_pending && after.state == before.state
            &&& !sets && !fails ==> {
                &&& after.addr_pending == before.addr_pending
                &&& after.handler.waiting().len() > before.handler.waiting().len()
                &&& before.state == State::Solicit ==> after.state == State::Timer && r == Ok::<
                    BorrowStep,
                    E,
                >(BorrowStep::Go(Action::ArmTimer))
                &&& before.state != State::Solicit ==> after.state == before.state && r == Ok::<
                    BorrowStep,
                    E,
                >(BorrowStep::Go(Action::Wait))
            }
            &&& !set.addr_pending
            &&& set.state == after.state
            &&& set.handler == after.handler
        }),
{
    let n = before.handler.cur_seq.inner;
    match fetched {
        Ok(f) => {
            lemma_request_len(n, urb, f.transfer@, f.packets@);
        },
        Err(_) => {},
    }
    lemma_request_len(n, urb, Seq::empty(), Seq::empty());
}

/// A request takes at least both of its headers.
proof fn lemma_request_len(
    seqnum: u32,
    urb: IocUrb,
    transfer: Seq<u8>,
    packets: Seq<crate::usb::IocIsoPacketData>,
)
    ensures
        borrow::request_frame(seqnum, urb, transfer, packets).len() == 32 + utils::padded(
            transfer.len(),
        ) + 8 * packets.len(),
{
    borrow::lemma_packets_len(packets);
    let body = lend::padded_transfer(transfer) + crate::codec::encode_all(packets);
    utils::law_padded(transfer.len());
    let header = borrow::request_header(urb);
    crate::codec::Wire::lemma_round_trip(&header);
    crate::codec::Wire::lemma_round_trip(
        &frame::header_for(Command::CmdSubmit, Status::Success, seqnum, 32 + body.len()),
    );
}

/// The room that a borrower that is ready has.
proof fn lemma_room(handler: BorrowSendHandler, n: nat, m: nat, len: nat)
    requires
        n <= 65535,
        m <= 65535,
        len == 32 + utils::padded(n) + 8 * m,
    ensures
        handler.ready() ==> handler.cur_seq.inner < u32::MAX && handler.waiting().len() + len
            <= buf::max_len(),
        n == 65535 && m == 65535 ==> (handler.ready() <==> handler.cur_seq.inner < u32::MAX
            && handler.waiting().len() + len <= buf::max_len()),
{
    utils::law_padded(n);
}

/// Where the borrower is ready, there is a number for the next request and room for it, however long its
/// data is; and there is a request that takes all that room.
#[verifier::spinoff_prover]
pub proof fn law_room_for_any_request(
    handler: BorrowSendHandler,
    urb: IocUrb,
    transfer: Seq<u8>,
    packets: Seq<crate::usb::IocIsoPacketData>,
)
    requires
        transfer.len() <= 65535,
        packets.len() <= 65535,
    ensures
        ({
            let len = borrow::request_frame(handler.cur_seq.inner, urb, transfer, packets).len();
            &&& handler.ready() ==> handler.cur_seq.inner < u32::MAX && handler.waiting().len()
                + len <= buf::max_len()
            &&& transfer.len() == 65535 && packets.len() == 65535 ==> (handler.ready()
                <==> handler.cur_seq.inner < u32::MAX && handler.waiting().len() + len
                <= buf::max_len())
        }),
{
    let len = borrow::request_frame(handler.cur_seq.inner, urb, transfer, packets).len();
    lemma_request_len(handler.cur_seq.inner, urb, transfer, packets);
    lemma_room(handler, transfer.len(), packets.len(), len);
}

/// What a change of the port calls for; the first of these holds that applies.
pub proof fn law_port_action(prev: PortStat, next: PortStat)
    ensures
        ({
            let a = borrow::port_action_of(prev, next);
            let reset_done = next.reset_changed && !next.reset && next.enable;
            let loses_power = prev.power && !next.power;
            let resets = next.connection && next.reset && !prev.reset;
            let resumes = next.connection && next.resuming && !prev.resuming;
            &&& next.connection_changed <==> a == PortAction::InvalidateAddress
            &&& !next.connection_changed && reset_done <==> a == PortAction::DefaultAddress
            &&& !next.connection_changed && !reset_done && loses_power <==> a
                == PortAction::PowerOff
            &&& !next.connection_changed && !reset_done && !loses_power && resets <==> a
                == PortAction::SendReset
            &&& !next.connection_changed && !reset_done && !loses_power && !resets && resumes <==> a
                == PortAction::Resume
            &&& !next.connection_changed && !reset_done && !loses_power && !resets && !resumes
                <==> a == PortAction::Nothing
        }),
{
}

/// A new borrower knows of no device on its port.
pub proof fn law_fresh_port()
    ensures
        ({
            let p = BorrowSendHandler::fresh_port();
            &&& p.index == 0
            &&& !p.connection && !p.enable && !p.reset && !p.power
            &&& !p.connection_changed && !p.reset_changed && !p.resuming
        }),
{
}

/// Which blocks a frame can carry, what has to be fetched for them, and which work can be done.
pub proof fn law_what_can_be_worked<E>(
    handler: BorrowSendHandler,
    linker: HandleSeqnumLinker,
    urb: IocUrb,
    block: UrbHandle,
    next: PortStat,
    handle: UrbHandle,
    fetched: Result<Fetched, E>,
)
    ensures
        borrow::carriable(urb) <==> urb.endpoint.0 >= 128 || 0 <= urb.buffer_length <= 65535,
        handler.workable(linker, Work::CancelUrb(block), handle, fetched),
        handler.workable(linker, Work::PortStat(next), handle, fetched) <==> (
        borrow_laws::reset_begins(handler.prev, next) && !(next.reset_changed && !next.reset
            && next.enable) ==> !linker.seqnums@.contains_key(handle.0)
            && !linker.handles@.contains_key(handler.cur_seq.inner)),
        ({
            let sets = urb.typ == UrbType::Ctrl && urb.address == 0
                && urb.setup_packet.bm_request_type == 0 && urb.setup_packet.b_request == 5;
            let out = urb.endpoint.0 < 128;
            let needs = (out && urb.buffer_length > 0) || urb.packet_count != 0;
            let whole = fetched matches Ok(f) && f.packets@.len() < 65536 && (urb.packet_count
                - f.packets@.len()) % 65536 == 0 && f.transfer@.len() == (if out {
                urb.buffer_length as int
            } else {
                0
            });
            handler.workable(linker, Work::ProcessUrb(urb, block), handle, fetched) <==> sets || ((
            !out || 0 <= urb.buffer_length <= 65535) && (needs && fetched is Ok ==> whole))
        }),
{
    crate::usb::law_low16(urb.packet_count);
    if let Ok(f) = fetched {
        lemma_same_low16(urb.packet_count as int, f.packets@.len() as int);
    }
}

/// Numbers that fit into sixteen bits are the low bits of just those that differ from them by a multiple.
proof fn lemma_same_low16(x: int, n: int)
    requires
        0 <= n,
    ensures
        x % 65536 == n <==> n < 65536 && (x - n) % 65536 == 0,
{
}

/// Taking a number out forgets the number and its block, and nothing else.
pub proof fn law_unlink_forgets(
    before: HandleSeqnumLinker,
    after: HandleSeqnumLinker,
    seqnum: u32,
    other: u32,
)
    requires
        before.paired(),
        before.handles@.contains_key(seqnum),
        before.unlinked(after, seqnum),
        other != seqnum,
    ensures
        !after.handles@.contains_key(seqnum),
        !after.seqnums@.contains_key(before.handles@[seqnum]),
        after.handles@.contains_key(other) <==> before.handles@.contains_key(other),
        before.handles@.contains_key(other) ==> after.handles@[other] == before.handles@[other]
            && after.seqnums@.contains_key(before.handles@[other]),
{
    if before.handles@.contains_key(other) {
        assert(before.seqnums@.contains_key(before.handles@[other]));
        assert(before.seqnums@[before.handles@[other]] == other);
        assert(before.seqnums@[before.handles@[seqnum]] == seqnum);
    }
}

/// A reply is whole where it has the bytes that its header tells, with their padding, or where it has none
/// to give.
pub proof fn law_reply_is_whole(reply: crate::proto::data::Data<crate::proto::msg::UrbFrame>)
    ensures
        reply.head().endpoint.0 < 128 ==> borrow::reply_fits(reply),
        reply.head().endpoint.0 >= 128 && reply.tail().len() % 8 == 0 ==> (borrow::reply_fits(reply)
            <==> reply.head().actual_transfer_len <= reply.tail().len()),
{
    utils::law_padded(reply.head().actual_transfer_len as nat);
}

/// A change of the port as the loop sees it: it is noted unless a reset begins whose number is taken, and
/// the timer is started just where the reset is the first thing that waits.
pub proof fn law_port_through_loop(
    before: BorrowSendLoop,
    after: BorrowSendLoop,
    linker: HandleSeqnumLinker,
    linker_after: HandleSeqnumLinker,
    next: PortStat,
    r: Option<Action>,
)
    requires
        before.inv(),
        before.port_stat_noted(after, linker, linker_after, next, r),
    ensures
        after.addr_pending == before.addr_pending,
        r is None <==> borrow_laws::reset_begins(before.handler.prev, next)
            && linker.handles@.contains_key(before.handler.cur_seq.inner),
        r is None ==> after.handler == before.handler && after.state == before.state,
        r is Some && before.state == State::Solicit && borrow_laws::reset_begins(
            before.handler.prev,
            next,
        ) ==> r == Some(Action::ArmTimer) && after.state == State::Timer,
        r is Some && !(before.state == State::Solicit && borrow_laws::reset_begins(
            before.handler.prev,
            next,
        )) ==> r == Some(Action::Wait) && after.state == before.state,
{
    borrow_laws::law_reset_is_passed_on(
        before.handler,
        after.handler,
        linker,
        linker_after,
        next,
        r is Some,
    );
}

/// A cancel as the loop sees it: the timer is started just where it puts the first thing that waits.
pub proof fn law_cancel_through_loop<E>(
    before: BorrowSendLoop,
    after: BorrowSendLoop,
    linker: HandleSeqnumLinker,
    linker_after: HandleSeqnumLinker,
    block: UrbHandle,
    handle: UrbHandle,
    fetched: Result<Fetched, E>,
    r: Result<BorrowStep, E>,
)
    requires
        before.inv(),
        before.worked(after, linker, linker_after, Work::CancelUrb(block), handle, fetched, r),
    ensures
        linker_after == linker,
        after.addr_pending == before.addr_pending,
        before.state == State::Solicit && linker.seqnums@.contains_key(block.0) ==> after.state
            == State::Timer && r == Ok::<BorrowStep, E>(BorrowStep::Go(Action::ArmTimer)),
        !(before.state == State::Solicit && linker.seqnums@.contains_key(block.0)) ==> after.state
            == before.state && r == Ok::<BorrowStep, E>(BorrowStep::Go(Action::Wait)),
{
    borrow_laws::law_cancel_names_request(before.handler, after.handler, linker, block);
}

/// What some work comes to, but for a request block, is nothing to report on.
pub proof fn law_nothing_to_report<E>(next: PortStat, block: UrbHandle, fetched: Result<Fetched, E>)
    ensures
        borrow::work_result(Work::PortStat(next), fetched) is MustveBeenTheWind,
        borrow::work_result(Work::CancelUrb(block), fetched) is MustveBeenTheWind,
{
}

} // verus!
