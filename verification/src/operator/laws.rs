//! What one side writes is what the other side reads.
use crate::codec;
use crate::codec::Wire;
use crate::lend::ResultData;
use crate::operator::borrow;
use crate::operator::lend;
use crate::operator::lend_recv;
use crate::proto;
use crate::proto::data::{Data, ValidBytes};
use crate::proto::frame;
use crate::proto::msg::{Command, QusbFrame, Status, UrbFrame, UrbHeader};
use crate::usb;
use crate::usb::{IocIsoPacketData, IocIsoPacketGiveback, IocUrb};
use crate::utils;
use vstd::prelude::*;

verus! {

/// Padding makes the length of a transfer buffer a multiple of eight, and leaves its bytes first.
pub proof fn lemma_padded_transfer(transfer: Seq<u8>, packets: Seq<u8>)
    ensures
        lend::padded_transfer(transfer).len() == utils::padded(transfer.len()),
        (lend::padded_transfer(transfer) + packets).take(transfer.len() as int) == transfer,
        (lend::padded_transfer(transfer) + packets).skip(utils::padded(transfer.len()) as int)
            == packets,
        (lend::padded_transfer(transfer) + packets).len() == utils::padded(transfer.len())
            + packets.len(),
        packets.len() % 8 == 0 ==> (lend::padded_transfer(transfer) + packets).len() % 8 == 0,
{
    utils::law_padded(transfer.len());
    let body = lend::padded_transfer(transfer) + packets;
    assert(body.take(transfer.len() as int) =~= transfer);
    assert(body.skip(utils::padded(transfer.len()) as int) =~= packets);
}

/// What is cut off and read of a frame that carries a transfer.
pub open spec fn read_back(
    received: Data<QusbFrame>,
    carried: Data<UrbFrame>,
    header: proto::msg::Header,
    urb_header: UrbHeader,
    body: Seq<u8>,
) -> bool {
    &&& received.wf()
    &&& received.head() == header
    &&& UrbFrame::valid(received.tail())
    &&& carried.wf()
    &&& carried.head() == urb_header
    &&& carried.tail() == body
}

/// A frame is cut off whole from what follows it.
pub open spec fn cut_off(frame: Seq<u8>, rest: Seq<u8>) -> bool {
    let bytes = frame + rest;
    &&& proto::data::dst_size::<QusbFrame>(bytes) == Ok::<nat, proto::data::ReadError>(frame.len())
    &&& bytes.take(frame.len() as int) == frame
    &&& bytes.skip(frame.len() as int) == rest
}

#[verifier::rlimit(80)]
#[verifier::spinoff_prover]
proof fn lemma_read_back(
    command: Command,
    seqnum: u32,
    urb_header: UrbHeader,
    body: Seq<u8>,
    rest: Seq<u8>,
    received: Data<QusbFrame>,
    carried: Data<UrbFrame>,
)
    requires
        body.len() % 8 == 0,
        body.len() <= frame::max_body(),
        received.bytes() == frame::urb_frame(command, Status::Success, seqnum, urb_header, body),
        carried.bytes() == received.tail(),
    ensures
        cut_off(received.bytes(), rest),
        read_back(
            received,
            carried,
            frame::header_for(command, Status::Success, seqnum, received.bytes().len()),
            urb_header,
            body,
        ),
{
    frame::law_urb_frame_read_back(command, Status::Success, seqnum, urb_header, body, rest);
}

/// A request that the borrower writes reaches the lender as it is: the lender cuts it off from
/// what follows it, and reads from it the same sequence number, the header of the request block,
/// its transfer buffer and its packets.
#[verifier::rlimit(80)]
#[verifier::spinoff_prover]
pub proof fn law_request_reaches_lender(
    seqnum: u32,
    urb: IocUrb,
    transfer: Seq<u8>,
    packets: Seq<IocIsoPacketData>,
    rest: Seq<u8>,
    received: Data<QusbFrame>,
    carried: Data<UrbFrame>,
)
    requires
        borrow::carriable(urb),
        transfer.len() == borrow::fetch_plan_of(urb).transfer_len,
        packets.len() == borrow::fetch_plan_of(urb).packet_count,
        utils::padded(transfer.len()) + 8 * packets.len() <= frame::max_body(),
        received.bytes() == borrow::request_frame(seqnum, urb, transfer, packets),
        carried.bytes() == received.tail(),
    ensures
        cut_off(received.bytes(), rest),
        received.wf(),
        proto::understood(received.head()),
        received.head().command == Command::CmdSubmit,
        received.head().seqnum == seqnum,
        UrbFrame::valid(received.tail()),
        carried.wf(),
        carried.head() == borrow::request_header(urb),
        received.head().status == Status::Success,
        carried.head().ctrl_packet.bm_request_type == urb.setup_packet.bm_request_type,
        carried.head().ctrl_packet.b_request == urb.setup_packet.b_request,
        carried.head().ctrl_packet.w_value == urb.setup_packet.w_value,
        carried.head().ctrl_packet.w_index == urb.setup_packet.w_index,
        carried.head().ctrl_packet.w_length == urb.setup_packet.w_length,
        carried.head().endpoint.0 == urb.endpoint.0,
        carried.head().kind == urb.typ,
        (urb.interval - carried.head().interval) % 65536 == 0,
        (urb.buffer_length - carried.head().actual_transfer_len) % 65536 == 0,
        (urb.packet_count - carried.head().iso_packet_count) % 65536 == 0,
        carried.head().status == usb::Status::Pending,
        carried.head().num_errors == 0,
        carried.tail().take(transfer.len() as int) == transfer,
        carried.tail().skip(lend_recv::request_transfer_len(carried.head()) as int)
            == codec::encode_all(packets),
        codec::decode_while::<IocIsoPacketData>(
            carried.tail().skip(lend_recv::request_transfer_len(carried.head()) as int),
        ) == packets,
        lend_recv::iso_fits(carried),
{
    usb::law_low16(urb.interval);
    usb::law_low16(urb.buffer_length);
    usb::law_low16(urb.packet_count);
    let header = borrow::request_header(urb);
    let body = lend::padded_transfer(transfer) + codec::encode_all(packets);
    lemma_padded_transfer(transfer, codec::encode_all(packets));
    borrow::lemma_packets_len(packets);
    lemma_read_back(Command::CmdSubmit, seqnum, header, body, rest, received, carried);
    lemma_request_parts(urb, transfer, packets, carried);
}

/// The parts of a request that was read.
proof fn lemma_request_parts(
    urb: IocUrb,
    transfer: Seq<u8>,
    packets: Seq<IocIsoPacketData>,
    carried: Data<UrbFrame>,
)
    requires
        borrow::carriable(urb),
        transfer.len() == borrow::fetch_plan_of(urb).transfer_len,
        packets.len() == borrow::fetch_plan_of(urb).packet_count,
        carried.head() == borrow::request_header(urb),
        carried.tail() == lend::padded_transfer(transfer) + codec::encode_all(packets),
    ensures
        carried.tail().take(transfer.len() as int) == transfer,
        carried.tail().skip(lend_recv::request_transfer_len(carried.head()) as int)
            == codec::encode_all(packets),
        codec::decode_while::<IocIsoPacketData>(
            carried.tail().skip(lend_recv::request_transfer_len(carried.head()) as int),
        ) == packets,
        lend_recv::iso_fits(carried),
{
    lemma_padded_transfer(transfer, codec::encode_all(packets));
    borrow::lemma_packets_len(packets);
    lemma_packets_read_back(packets);
    assert(lend_recv::request_transfer_len(carried.head()) == utils::padded(transfer.len()));
}

/// Packets are read back from their bytes.
proof fn lemma_packets_read_back(packets: Seq<IocIsoPacketData>)
    ensures
        codec::decode_while::<IocIsoPacketData>(codec::encode_all(packets)) == packets,
{
    codec::lemma_decode_all(packets, Seq::<u8>::empty());
    assert(codec::encode_all(packets) + Seq::<u8>::empty() =~= codec::encode_all(packets));
}

/// A reply fits the header that it is written with: it has the bytes that the device gave, or
/// tells how many it took.
pub open spec fn reply_matches(header: UrbHeader, res: ResultData) -> bool {
    &&& res.moved() <= 65535
    &&& header.actual_transfer_len == res.moved()
    &&& res is In <==> !header.out()
}

/// A reply that the lender writes reaches the borrower as it is: the borrower cuts it off from
/// what follows it, and reads from it the same sequence number, the header of the reply, the
/// bytes that the device gave and what became of the packets.
#[verifier::rlimit(80)]
#[verifier::spinoff_prover]
pub proof fn law_reply_reaches_borrower(
    seqnum: u32,
    header: UrbHeader,
    res: ResultData,
    packets: Seq<u8>,
    rest: Seq<u8>,
    received: Data<QusbFrame>,
    carried: Data<UrbFrame>,
)
    requires
        reply_matches(header, res),
        packets.len() % 8 == 0,
        utils::padded(res.given().len()) + packets.len() <= frame::max_body(),
        received.bytes() == lend::reply_frame(seqnum, header, res, packets),
        carried.bytes() == received.tail(),
    ensures
        cut_off(received.bytes(), rest),
        received.wf(),
        proto::understood(received.head()),
        received.head().command == Command::RetSubmit,
        received.head().status == Status::Success,
        received.head().seqnum == seqnum,
        UrbFrame::valid(received.tail()),
        carried.wf(),
        carried.head() == header,
        borrow::reply_fits(carried),
        header.out() ==> carried.tail() == packets,
        !header.out() ==> carried.tail().take(header.actual_transfer_len as int) == res.given()
            && carried.tail().skip(utils::padded(header.actual_transfer_len as nat) as int)
            == packets,
{
    let body = lend::padded_transfer(res.given()) + packets;
    lemma_padded_transfer(res.given(), packets);
    utils::law_padded(res.given().len());
    lemma_read_back(Command::RetSubmit, seqnum, header, body, rest, received, carried);
    if header.out() {
        lemma_no_transfer(packets);
    }
}

/// Nothing needs no padding.
proof fn lemma_no_transfer(packets: Seq<u8>)
    ensures
        lend::padded_transfer(Seq::<u8>::empty()) + packets == packets,
{
    assert(lend::padded_transfer(Seq::<u8>::empty()) + packets =~= packets);
}

/// The number of failed packets that the lender counts is the number that the borrower counts.
pub proof fn law_error_counts_agree(outcomes: Seq<IocIsoPacketGiveback>)
    ensures
        lend_recv::error_count(
            codec::decode_while::<IocIsoPacketGiveback>(codec::encode_all(outcomes)),
        ) == lend_recv::error_count(outcomes),
{
    codec::lemma_decode_all(outcomes, Seq::<u8>::empty());
    assert(codec::encode_all(outcomes) + Seq::<u8>::empty() =~= codec::encode_all(outcomes));
}

} // verus!
