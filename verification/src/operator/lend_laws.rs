//! What the lender hands to a device and what it sends back, told in the fields of the request and in
//! the bytes that are moved.
use crate::buf;
use crate::codec::Wire;
use crate::lend::error;
use crate::lend::error::{DeviceError, SeqError};
use crate::lend::{Ctrl, ResultData};
use crate::operator::borrow;
use crate::operator::laws;
use crate::operator::lend;
use crate::operator::lend_recv;
use crate::operator::lend_recv::CtrlTransfer;
use crate::operator::transfers::CancelTokens;
use crate::proto::data::Data;
use crate::proto::frame;
use crate::proto::layout;
use crate::proto::msg::{Command, QusbFrame, Status, UrbFrame, UrbHeader};
use crate::proto::unpacked::Sequenced;
use crate::usb;
use crate::usb::{Dir, Endpoint, IocIsoPacketGiveback, IocSetupPacket, IocUrb, UrbType};
use crate::utils;
use vstd::prelude::*;

verus! {

/// The highest bit of a setup packet tells which way a control request goes, and the reply goes by the
/// default endpoint of that direction. Just the standard request for the device's status asks for it.
pub proof fn law_ctrl_direction(p: IocSetupPacket)
    ensures
        lend_recv::setup_dir(p) == Dir::In <==> p.bm_request_type >= 128,
        lend_recv::setup_dir(p) == Dir::Out <==> p.bm_request_type < 128,
        lend_recv::ctrl_endpoint(lend_recv::setup_dir(p)).dir() == lend_recv::setup_dir(p),
        lend_recv::ctrl_endpoint(lend_recv::setup_dir(p)).0 % 128 == 0,
        lend_recv::ctrl_endpoint(lend_recv::setup_dir(p)).0 == 128 <==> p.bm_request_type >= 128,
        lend_recv::ctrl_endpoint(lend_recv::setup_dir(p)).0 == 0 <==> p.bm_request_type < 128,
        lend_recv::asks_status(p) <==> p.bm_request_type == 128 && p.b_request == 0,
        lend_recv::asks_status(p) ==> lend_recv::setup_dir(p) == Dir::In,
{
}

/// A control request hands the device the eight bytes of the setup packet, and after them as many bytes
/// as the request tells: its own where it goes to the device, zeros where the device fills them.
#[verifier::rlimit(80)]
#[verifier::spinoff_prover]
pub proof fn law_ctrl_request_reaches_device(frame: Data<UrbFrame>)
    requires
        frame.wf(),
        lend_recv::ctrl_fits(frame),
        frame.head().out() ==> frame.tail().len() >= frame.head().actual_transfer_len,
    ensures
        ({
            let b = lend_recv::ctrl_bytes(frame);
            let p = frame.head().ctrl_packet;
            let n = frame.head().actual_transfer_len;
            &&& b.len() == 8 + n
            &&& b[0] == p.bm_request_type
            &&& b[1] == p.b_request
            &&& layout::low_first16(b, 2, p.w_value as int)
            &&& layout::low_first16(b, 4, p.w_index as int)
            &&& layout::low_first16(b, 6, p.w_length as int)
            &&& frame.head().endpoint.0 < 128 ==> b.skip(8) == frame.tail().take(n as int)
            &&& frame.head().endpoint.0 >= 128 ==> forall|i: int| 8 <= i < 8 + n ==> b[i] == 0
        }),
{
    let b = lend_recv::ctrl_bytes(frame);
    let p = frame.head().ctrl_packet;
    let n = frame.head().actual_transfer_len as nat;
    utils::law_padded(n);
    p.lemma_round_trip();
    layout::law_setup_packet_layout(p);
    assert(b.take(8) =~= p.encoding());
    assert(forall|i: int| 0 <= i < 8 ==> b[i] == p.encoding()[i]);
    if frame.head().out() {
        assert(b.skip(8) =~= frame.tail().take(n as int));
    }
}

/// A control request is served just where it has the data that its setup packet tells, with their
/// padding, or where there is room for the answer beside the setup packet.
pub proof fn law_ctrl_is_served(frame: Data<UrbFrame>)
    ensures
        ({
            let h = frame.head();
            let len = frame.tail().len();
            &&& h.endpoint.0 < 128 ==> (lend_recv::ctrl_fits(frame) <==> len % 8 == 0
                && h.ctrl_packet.w_length <= len < h.ctrl_packet.w_length + 8)
            &&& h.endpoint.0 >= 128 ==> (lend_recv::ctrl_fits(frame) <==> h.actual_transfer_len
                <= 65528)
        }),
{
    let h = frame.head();
    utils::law_padded(h.ctrl_packet.w_length as nat + 8);
    utils::law_padded(h.actual_transfer_len as nat);
}

/// What the device put behind the setup packet is what is given back; a device that was asked for its
/// status is told to have power of its own, and the rest of its status stays.
pub proof fn law_ctrl_outcome(completed: Seq<u8>, is_get_status: bool)
    requires
        completed.len() >= 8,
        is_get_status ==> completed.len() > 8,
    ensures
        ({
            let given = lend_recv::ctrl_outcome(completed, is_get_status);
            &&& given.len() == completed.len() - 8
            &&& !is_get_status ==> forall|i: int|
                0 <= i < given.len() ==> #[trigger] given[i] == completed[i + 8]
            &&& is_get_status ==> given[0] == 1 && forall|i: int|
                1 <= i < given.len() ==> #[trigger] given[i] == completed[i + 8]
        }),
{
}

/// The reply to a control request reaches the borrower: with the number of the request, with the status
/// of the transfer, by the endpoint of the request's direction, and with the bytes that the device gave
/// or the number of those that it took.
#[verifier::rlimit(80)]
#[verifier::spinoff_prover]
pub proof fn law_ctrl_reply_reaches_borrower(
    request: Data<UrbFrame>,
    t: CtrlTransfer,
    completed: Seq<u8>,
    r: Sequenced<Ctrl<usb::Status>>,
    rest: Seq<u8>,
    received: Data<QusbFrame>,
    carried: Data<UrbFrame>,
)
    requires
        t.dir == lend_recv::setup_dir(request.head().ctrl_packet),
        t.endpoint == lend_recv::ctrl_endpoint(t.dir),
        t.is_get_status == lend_recv::asks_status(request.head().ctrl_packet),
        8 <= completed.len() <= 65543,
        t.is_get_status ==> completed.len() > 8,
        r.data.endpoint == t.endpoint,
        match t.dir {
            Dir::In => r.data.res is In && r.data.res.given() == lend_recv::ctrl_outcome(
                completed,
                t.is_get_status,
            ),
            Dir::Out => r.data.res is Out && r.data.res.moved() == completed.len() - 8,
        },
        received.bytes() == lend::reply_frame(
            r.seqnum,
            lend::reply_header(UrbType::Ctrl, r.data.endpoint, 0, r.data.status, r.data.res),
            r.data.res,
            Seq::empty(),
        ),
        carried.bytes() == received.tail(),
    ensures
        laws::cut_off(received.bytes(), rest),
        received.wf(),
        received.head().command == Command::RetSubmit,
        received.head().status == Status::Success,
        received.head().seqnum == r.seqnum,
        carried.wf(),
        borrow::reply_fits(carried),
        laws::reply_matches(carried.head(), r.data.res),
        carried.head().kind == UrbType::Ctrl,
        carried.head().status == r.data.status,
        carried.head().endpoint.0 % 128 == 0,
        carried.head().actual_transfer_len == completed.len() - 8,
        carried.head().iso_packet_count == 0,
        carried.head().num_errors == 0,
        request.head().ctrl_packet.bm_request_type >= 128 ==> {
            &&& carried.head().endpoint.0 == 128
            &&& carried.tail().len() >= completed.len() - 8
            &&& forall|i: int|
                0 <= i < completed.len() - 8 ==> #[trigger] carried.tail()[i] == if i == 0
                    && request.head().ctrl_packet.bm_request_type == 128
                    && request.head().ctrl_packet.b_request == 0 {
                    1
                } else {
                    completed[i + 8]
                }
        },
        request.head().ctrl_packet.bm_request_type < 128 ==> {
            &&& carried.head().endpoint.0 == 0
            &&& carried.tail().len() == 0
        },
{
    let header = lend::reply_header(UrbType::Ctrl, r.data.endpoint, 0, r.data.status, r.data.res);
    law_ctrl_direction(request.head().ctrl_packet);
    if t.dir == Dir::In {
        law_ctrl_outcome(completed, t.is_get_status);
    }
    let given = r.data.res.given();
    utils::law_padded(given.len());
    assert(laws::reply_matches(header, r.data.res));
    laws::law_reply_reaches_borrower(
        r.seqnum,
        header,
        r.data.res,
        Seq::empty(),
        rest,
        received,
        carried,
    );
    if t.dir == Dir::In {
        let n = given.len() as int;
        assert(carried.tail().len() == utils::padded(given.len()));
        assert forall|i: int| 0 <= i < n implies #[trigger] carried.tail()[i] == given[i] by {
            assert(carried.tail().take(n)[i] == given[i]);
        }
    }
}

/// An interrupt or bulk request hands the device its own bytes, as many as it tells, or as many zeros for
/// the device to fill.
pub proof fn law_data_request_reaches_device(frame: Data<UrbFrame>)
    ensures
        ({
            let b = lend_recv::data_bytes(frame);
            let n = frame.head().actual_transfer_len as int;
            &&& frame.head().endpoint.0 < 128 && n <= frame.tail().len() ==> b
                == frame.tail().take(n)
            &&& frame.head().endpoint.0 < 128 && n > frame.tail().len() ==> b == frame.tail()
            &&& frame.head().endpoint.0 >= 128 ==> b.len() == n && forall|i: int|
                0 <= i < n ==> b[i] == 0
        }),
{
}

/// The reply to an interrupt or bulk request reaches the borrower: with the endpoint and the interval of
/// the request, with the status of the transfer, and with the bytes that the device gave or the number of
/// those that it took.
#[verifier::rlimit(80)]
#[verifier::spinoff_prover]
pub proof fn law_data_reply_reaches_borrower(
    seqnum: u32,
    kind: UrbType,
    endpoint: Endpoint,
    interval: u16,
    status: usb::Status,
    completed: bytes::BytesMut,
    res: ResultData,
    rest: Seq<u8>,
    received: Data<QusbFrame>,
    carried: Data<UrbFrame>,
)
    requires
        buf::bytes_of(completed).len() <= 65535,
        lend_recv::moved_by(endpoint, completed, res),
        received.bytes() == lend::reply_frame(
            seqnum,
            lend::reply_header(kind, endpoint, interval, status, res),
            res,
            Seq::empty(),
        ),
        carried.bytes() == received.tail(),
    ensures
        laws::cut_off(received.bytes(), rest),
        received.wf(),
        received.head().command == Command::RetSubmit,
        received.head().status == Status::Success,
        received.head().seqnum == seqnum,
        carried.wf(),
        borrow::reply_fits(carried),
        carried.head().kind == kind,
        carried.head().endpoint == endpoint,
        carried.head().interval == interval,
        carried.head().status == status,
        carried.head().actual_transfer_len == buf::bytes_of(completed).len(),
        carried.head().iso_packet_count == 0,
        carried.head().num_errors == 0,
        endpoint.0 >= 128 ==> carried.tail().take(buf::bytes_of(completed).len() as int)
            == buf::bytes_of(completed),
        endpoint.0 < 128 ==> carried.tail().len() == 0,
{
    let header = lend::reply_header(kind, endpoint, interval, status, res);
    utils::law_padded(res.given().len());
    assert(laws::reply_matches(header, res));
    laws::law_reply_reaches_borrower(seqnum, header, res, Seq::empty(), rest, received, carried);
}

/// The reply to an isochronous request reaches the borrower with what became of its packets and the
/// number of those that failed.
#[verifier::rlimit(80)]
#[verifier::spinoff_prover]
pub proof fn law_iso_reply_reaches_borrower(
    seqnum: u32,
    iso: crate::lend::Iso<usb::Status>,
    completed: bytes::BytesMut,
    rest: Seq<u8>,
    received: Data<QusbFrame>,
    carried: Data<UrbFrame>,
)
    requires
        buf::bytes_of(completed).len() <= 65535,
        buf::bytes_of(iso.raw_iso_buf).len() % 8 == 0,
        utils::padded(buf::bytes_of(completed).len()) + buf::bytes_of(iso.raw_iso_buf).len()
            <= frame::max_body(),
        lend_recv::moved_by(iso.endpoint, completed, iso.res),
        received.bytes() == lend::reply_frame(
            seqnum,
            lend::iso_reply_header(iso),
            iso.res,
            buf::bytes_of(iso.raw_iso_buf),
        ),
        carried.bytes() == received.tail(),
    ensures
        laws::cut_off(received.bytes(), rest),
        received.wf(),
        received.head().command == Command::RetSubmit,
        received.head().status == Status::Success,
        received.head().seqnum == seqnum,
        carried.wf(),
        borrow::reply_fits(carried),
        carried.head().kind == UrbType::Iso,
        carried.head().endpoint == iso.endpoint,
        carried.head().interval == iso.interval,
        carried.head().status == iso.status,
        carried.head().actual_transfer_len == buf::bytes_of(completed).len(),
        carried.head().iso_packet_count == iso.num_iso_packets,
        carried.head().num_errors == iso.num_errors,
        iso.endpoint.0 >= 128 ==> carried.tail().take(buf::bytes_of(completed).len() as int)
            == buf::bytes_of(completed),
        carried.tail().skip(carried.tail().len() - buf::bytes_of(iso.raw_iso_buf).len())
            == buf::bytes_of(iso.raw_iso_buf),
{
    let header = lend::iso_reply_header(iso);
    let packets = buf::bytes_of(iso.raw_iso_buf);
    utils::law_padded(iso.res.given().len());
    utils::law_padded(buf::bytes_of(completed).len());
    assert(laws::reply_matches(header, iso.res));
    laws::law_reply_reaches_borrower(seqnum, header, iso.res, packets, rest, received, carried);
    laws::lemma_padded_transfer(iso.res.given(), packets);
    if header.out() {
        assert(carried.tail().skip(0) =~= carried.tail());
    }
}

/// What a frame with a transfer consists of, byte by byte: the frame's length in eights, the byte of the
/// command, that of the status, the number, then the header of the transfer, then what goes with it.
#[verifier::rlimit(80)]
#[verifier::spinoff_prover]
pub proof fn law_transfer_frame_bytes(
    command: Command,
    status: Status,
    seqnum: u32,
    h: UrbHeader,
    body: Seq<u8>,
)
    requires
        body.len() % 8 == 0,
        body.len() <= frame::max_body(),
    ensures
        ({
            let b = frame::urb_frame(command, status, seqnum, h, body);
            &&& b.len() == 32 + body.len()
            &&& layout::low_first16(b, 0, (32 + body.len()) as int / 8)
            &&& b[2] == command.encoding()[0]
            &&& b[3] == status.encoding()[0]
            &&& layout::low_first32(b, 4, seqnum as int)
            &&& b.subrange(8, 32) == h.encoding()
            &&& b.skip(32) == body
        }),
{
    let head = frame::header_for(command, status, seqnum, 32 + body.len());
    let b = frame::urb_frame(command, status, seqnum, h, body);
    layout::law_header_layout(head);
    head.lemma_round_trip();
    h.lemma_round_trip();
    assert(forall|i: int| 0 <= i < 8 ==> b[i] == head.encoding()[i]);
    assert(b.subrange(8, 32) =~= h.encoding());
    assert(b.skip(32) =~= body);
}

/// The zeros that follow a transfer buffer are as many as are missing to a multiple of eight.
pub proof fn law_padding(transfer: Seq<u8>)
    ensures
        ({
            let p = lend::padded_transfer(transfer);
            &&& p.len() % 8 == 0
            &&& transfer.len() <= p.len() < transfer.len() + 8
            &&& p.take(transfer.len() as int) == transfer
            &&& forall|i: int| transfer.len() <= i < p.len() ==> #[trigger] p[i] == 0
            &&& frame::padding_of(transfer.len()).len() == p.len() - transfer.len()
        }),
{
    utils::law_padded(transfer.len());
    assert(lend::padded_transfer(transfer).take(transfer.len() as int) =~= transfer);
}

/// The packets that failed are those with a status that is not zero.
pub proof fn law_error_count(packets: Seq<IocIsoPacketGiveback>)
    ensures
        lend_recv::error_count(packets) == packets.filter(
            |p: IocIsoPacketGiveback| p.status != 0,
        ).len(),
        lend_recv::error_count(packets) <= packets.len(),
        lend_recv::error_count(packets) == 0 <==> forall|i: int|
            0 <= i < packets.len() ==> (#[trigger] packets[i]).status == 0,
    decreases packets.len(),
{
    reveal(Seq::filter);
    if packets.len() > 0 {
        law_error_count(packets.drop_last());
        let fewer = packets.drop_last();
        assert(forall|i: int| 0 <= i < fewer.len() ==> fewer[i] == packets[i]);
        if lend_recv::error_count(packets) == 0 {
            assert forall|i: int| 0 <= i < packets.len() implies (#[trigger] packets[i]).status
                == 0 by {
                if i < fewer.len() {
                    assert(fewer[i].status == 0);
                }
            }
        } else if forall|i: int| 0 <= i < packets.len() ==> (#[trigger] packets[i]).status == 0 {
            assert(forall|i: int| 0 <= i < fewer.len() ==> (#[trigger] fewer[i]).status == 0);
            assert(packets[packets.len() - 1].status == 0);
        }
    }
}

/// A transfer buffer stands in the frame of a request that goes to the device, and in no other. An
/// isochronous request has its packets of eight bytes behind it and nothing else.
pub proof fn law_request_parts(frame: Data<UrbFrame>)
    ensures
        ({
            let h = frame.head();
            let n = lend_recv::request_transfer_len(h);
            &&& h.endpoint.0 >= 128 ==> n == 0
            &&& h.endpoint.0 < 128 ==> n % 8 == 0 && h.actual_transfer_len <= n
                < h.actual_transfer_len + 8
            &&& lend_recv::iso_fits(frame) <==> frame.tail().len() == n + 8 * h.iso_packet_count
        }),
{
    utils::law_padded(frame.head().actual_transfer_len as nat);
}

/// What is completed is let go of: its token is free for the next transfer, and no other is touched.
pub proof fn law_completed_token_is_free<T>(
    before: CancelTokens<T>,
    after: CancelTokens<T>,
    seqnum: u32,
    other: u32,
)
    requires
        lend::deregistered(before, after, seqnum),
        other != seqnum,
    ensures
        !after.active@.contains_key(seqnum),
        after.active@.contains_key(other) <==> before.active@.contains_key(other),
        before.active@.contains_key(other) ==> after.active@[other] == before.active@[other],
        before.active@.contains_key(seqnum) ==> after.cached@.len() == before.cached@.len() + 1
            && after.cached@.last() == before.active@[seqnum] && after.cached@.drop_last()
            == before.cached@,
        !before.active@.contains_key(seqnum) ==> after.cached@ == before.cached@,
{
    if before.active@.contains_key(seqnum) {
        assert(after.cached@.drop_last() =~= before.cached@);
    }
}

/// The borrower is told of a failed device by the answer to the request that failed: with its number, the
/// byte of the answer, and what went wrong.
#[verifier::rlimit(60)]
#[verifier::spinoff_prover]
pub proof fn law_failure_is_told(e: lend::UsbError, f: error::UsbError)
    ensures
        ({
            let b = e.header().encoding();
            &&& b.len() == 8
            &&& layout::low_first16(b, 0, 1)
            &&& b[2] == (if e.kind is Reset {
                5
            } else {
                3int
            })
            &&& e.header().status == e.status
            &&& b[3] == e.status.encoding()[0]
            &&& layout::low_first32(b, 4, e.seqnum as int)
        }),
        ({
            let b = f.header().encoding();
            &&& b.len() == 8
            &&& layout::low_first16(b, 0, 1)
            &&& b[2] == (if f.seq.data is Reset {
                5
            } else {
                3int
            })
            &&& f.seq.data is Reset ==> b[3] == 4
            &&& f.seq.data matches SeqError::Transfer { err, .. } ==> b[3]
                == err.proto_status().encoding()[0]
            &&& layout::low_first32(b, 4, f.seq.seqnum as int)
        }),
{
    layout::law_header_layout(e.header());
    layout::law_frame_codes(e.header().command, e.status);
    layout::law_header_layout(f.header());
    layout::law_frame_codes(f.header().command, f.header().status);
}

/// The failure of a transfer names the device, the request, and what failed.
pub proof fn law_transfer_failure(
    id: crate::proto::msg::UsbDeviceId,
    seqnum: u32,
    status: Status,
    kind: UrbType,
    endpoint: Endpoint,
    vhci_status: usb::Status,
)
    ensures
        ({
            let e = lend::transfer_error(id, seqnum, status, kind, endpoint, vhci_status);
            &&& e.id == id
            &&& e.seqnum == seqnum
            &&& e.status == status
            &&& e.kind matches lend::FrameKind::Transfer { kind: k, endpoint: p, status: s } && k
                == kind && p == endpoint && s == vhci_status
            &&& e.kind.command() == Command::RetSubmit
            &&& lend::FrameKind::Reset.command() == Command::RetPort
        }),
{
}

/// The header of a reply has what was moved, the request's own endpoint, kind and interval, and the status
/// of the transfer. It has no flags and no setup packet, and of packets and errors as many as there are.
#[verifier::rlimit(60)]
#[verifier::spinoff_prover]
pub proof fn law_reply_header_fields(
    kind: UrbType,
    endpoint: Endpoint,
    interval: u16,
    status: usb::Status,
    res: ResultData,
    iso: crate::lend::Iso<usb::Status>,
)
    ensures
        ({
            let h = lend::reply_header(kind, endpoint, interval, status, res);
            &&& (res.moved() - h.actual_transfer_len) % 65536 == 0
            &&& h.iso_packet_count == 0
            &&& h.endpoint == endpoint
            &&& h.kind == kind
            &&& h.interval == interval
            &&& h.status == status
            &&& h.flags == 0
            &&& h.num_errors == 0
            &&& forall|i: int| 0 <= i < 8 ==> h.ctrl_packet.encoding()[i] == 0
        }),
        ({
            let h = lend::iso_reply_header(iso);
            &&& (iso.res.moved() - h.actual_transfer_len) % 65536 == 0
            &&& h.iso_packet_count == iso.num_iso_packets
            &&& h.endpoint == iso.endpoint
            &&& h.kind == UrbType::Iso
            &&& h.interval == iso.interval
            &&& h.status == iso.status
            &&& h.flags == 0
            &&& h.num_errors == iso.num_errors
            &&& forall|i: int| 0 <= i < 8 ==> h.ctrl_packet.encoding()[i] == 0
        }),
{
    let none = lend::no_setup();
    layout::law_setup_packet_layout(none);
}

/// What a transfer moved are the bytes that the device gave, or the number of those that it took, with no
/// bytes to give.
pub proof fn law_what_was_moved(given: bytes::BytesMut, taken: usize, endpoint: Endpoint, res: ResultData)
    requires
        lend_recv::moved_by(endpoint, given, res),
    ensures
        ResultData::In(given).given() == buf::bytes_of(given),
        ResultData::In(given).moved() == buf::bytes_of(given).len(),
        (ResultData::Out { bytes_transferred: taken }).given().len() == 0,
        (ResultData::Out { bytes_transferred: taken }).moved() == taken,
        endpoint.0 >= 128 ==> res == ResultData::In(given),
        endpoint.0 < 128 ==> res is Out && res.given().len() == 0,
        res.moved() == buf::bytes_of(given).len(),
{
}

/// The data of the borrower's block are what the lender hands to the device: behind the block's own setup
/// packet for a control block whose setup packet tells their length, and alone for an interrupt or bulk
/// block. A block that asks the device for data hands it as many zeros to fill.
#[verifier::rlimit(80)]
#[verifier::spinoff_prover]
pub proof fn law_block_reaches_device(
    seqnum: u32,
    urb: IocUrb,
    transfer: Seq<u8>,
    received: Data<QusbFrame>,
    carried: Data<UrbFrame>,
)
    requires
        borrow::carriable(urb),
        urb.packet_count == 0,
        0 <= urb.buffer_length <= 65528,
        transfer.len() == (if urb.endpoint.0 < 128 {
            urb.buffer_length as int
        } else {
            0
        }),
        received.bytes() == borrow::request_frame(seqnum, urb, transfer, Seq::empty()),
        carried.bytes() == received.tail(),
    ensures
        urb.endpoint.0 < 128 ==> lend_recv::data_bytes(carried) == transfer,
        urb.endpoint.0 >= 128 ==> lend_recv::data_bytes(carried).len() == urb.buffer_length,
        urb.endpoint.0 >= 128 || urb.setup_packet.w_length == urb.buffer_length ==> {
            let b = lend_recv::ctrl_bytes(carried);
            &&& lend_recv::ctrl_fits(carried)
            &&& b.len() == 8 + urb.buffer_length
            &&& b[0] == urb.setup_packet.bm_request_type
            &&& b[1] == urb.setup_packet.b_request
            &&& layout::low_first16(b, 2, urb.setup_packet.w_value as int)
            &&& layout::low_first16(b, 4, urb.setup_packet.w_index as int)
            &&& layout::low_first16(b, 6, urb.setup_packet.w_length as int)
            &&& urb.endpoint.0 < 128 ==> b.skip(8) == transfer
            &&& urb.endpoint.0 >= 128 ==> forall|i: int| 8 <= i < b.len() ==> b[i] == 0
        },
{
    let none = Seq::<usb::IocIsoPacketData>::empty();
    usb::law_low16(urb.packet_count);
    usb::law_low16(urb.buffer_length);
    utils::law_padded(transfer.len());
    laws::law_request_reaches_lender(
        seqnum,
        urb,
        transfer,
        none,
        Seq::empty(),
        received,
        carried,
    );
    assert(crate::codec::encode_all(none) =~= Seq::<u8>::empty());
    lemma_tail_len(urb, transfer, carried);
    law_data_request_reaches_device(carried);
    law_ctrl_is_served(carried);
    if urb.endpoint.0 >= 128 || urb.setup_packet.w_length == urb.buffer_length {
        law_ctrl_request_reaches_device(carried);
    }
}

/// A request without packets has its padded data and nothing else.
proof fn lemma_tail_len(urb: IocUrb, transfer: Seq<u8>, carried: Data<UrbFrame>)
    requires
        lend_recv::iso_fits(carried),
        carried.head() == borrow::request_header(urb),
        urb.packet_count == 0,
        0 <= urb.buffer_length <= 65528,
        transfer.len() == (if urb.endpoint.0 < 128 {
            urb.buffer_length as int
        } else {
            0
        }),
    ensures
        carried.tail().len() == utils::padded(transfer.len()),
        carried.head().actual_transfer_len == urb.buffer_length,
        carried.head().endpoint.0 == urb.endpoint.0,
{
    usb::law_low16(urb.packet_count);
    usb::law_low16(urb.buffer_length);
}

} // verus!
