//! What the lending side hands to a device for a request, and what it makes of the outcome.
use crate::buf;
use crate::codec;
use crate::codec::{read_while, Wire};
use crate::lend::{Bulk, Ctrl, Int, Iso, ResultData};
use crate::operator::lend;
use crate::proto::data::Data;
use crate::proto::frame;
use crate::proto::msg::{Status, UrbFrame, UrbHeader};
use crate::proto::unpacked::Sequenced;
use crate::proto::{ReportableError, TransferError};
use crate::usb;
use crate::usb::{Dir, Endpoint, IocIsoPacketData, IocIsoPacketGiveback, RusbError};
use crate::utils;
use crate::utils::bytes_alloc::BytesAllocator;
use bytes::BytesMut;
use vstd::prelude::*;

verus! {

/// The first `n` bytes, or all where there are fewer.
pub open spec fn first(b: Seq<u8>, n: nat) -> Seq<u8> {
    if n <= b.len() {
        b.take(n as int)
    } else {
        b
    }
}

/// Writes `src` over what stands in `s` from `at` on.
fn write_at(s: &mut [u8], at: usize, src: &[u8])
    requires
        at + src@.len() <= old(s)@.len(),
    ensures
        final(s)@ == old(s)@.take(at as int) + src@ + old(s)@.skip(at + src@.len()),
{
    let n: usize = src.len();
    let len: usize = s.len();
    let mut i: usize = 0;
    while i < n
        invariant
            n == src@.len(),
            i <= n,
            at + n <= len,
            len == old(s)@.len(),
            len == s@.len(),
            forall|j: int| 0 <= j < i ==> s@[at + j] == src@[j],
            forall|j: int| 0 <= j < at || at + i <= j < s@.len() ==> s@[j] == old(s)@[j],
        decreases n - i,
    {
        s[at + i] = src[i];
        i = i + 1;
    }
    assert(s@ =~= old(s)@.take(at as int) + src@ + old(s)@.skip(at + src@.len()));
}

/// A control request as it goes to the device.
pub struct CtrlTransfer {
    /// The setup packet, then the data.
    pub buf: BytesMut,
    pub dir: Dir,
    pub endpoint: Endpoint,
    pub is_get_status: bool,
}

/// The direction that a setup packet tells.
pub open spec fn setup_dir(p: usb::IocSetupPacket) -> Dir {
    if p.bm_request_type >= 128 {
        Dir::In
    } else {
        Dir::Out
    }
}

/// Tells whether a setup packet asks for the status of the device.
pub open spec fn asks_status(p: usb::IocSetupPacket) -> bool {
    p.bm_request_type == 0x80 && p.b_request == 0
}

/// The endpoint by which the reply to a control request goes.
pub open spec fn ctrl_endpoint(dir: Dir) -> Endpoint {
    match dir {
        Dir::Out => Endpoint(0),
        Dir::In => Endpoint(128),
    }
}

/// A control request has its data in full, or room for the answer in one block of memory.
pub open spec fn ctrl_fits(frame: Data<UrbFrame>) -> bool {
    let header = frame.head();
    if header.out() {
        8 + frame.tail().len() == utils::padded(header.ctrl_packet.w_length as nat + 8)
    } else {
        8 + utils::padded(header.actual_transfer_len as nat) <= 65536
    }
}

/// Tells whether a control request can be served.
pub fn does_ctrl_fit(frame: &Data<UrbFrame>) -> (b: bool)
    requires
        frame.wf(),
    ensures
        b == ctrl_fits(*frame),
{
    let header = frame.header();
    let len: usize = frame.len();
    proof {
        <UrbFrame as crate::proto::data::Dst>::lemma_valid(frame.bytes());
    }
    if header.is_out() {
        len - 24 + 8 == utils::align_to_usize(header.ctrl_packet.w_length as usize + 8)
    } else {
        8 + header.padded_transfer_len() <= 65536
    }
}

/// The bytes that a control request hands to the device.
pub open spec fn ctrl_bytes(frame: Data<UrbFrame>) -> Seq<u8> {
    let header = frame.head();
    let data = if header.out() {
        frame.tail()
    } else {
        frame::zeros(utils::padded(header.actual_transfer_len as nat))
    };
    first(header.ctrl_packet.encoding() + data, 8 + header.actual_transfer_len as nat)
}

/// Prepares a control request for the device.
pub fn new_ctrl(scratch: &mut BytesAllocator, frame: Data<UrbFrame>) -> (t: CtrlTransfer)
    requires
        old(scratch).wf(),
        frame.wf(),
        ctrl_fits(frame),
    ensures
        final(scratch).wf(),
        buf::bytes_of(t.buf) == ctrl_bytes(frame),
        t.dir == setup_dir(frame.head().ctrl_packet),
        t.dir == Dir::In <==> frame.head().ctrl_packet.bm_request_type >= 128,
        t.endpoint == ctrl_endpoint(t.dir),
        t.endpoint.dir() == t.dir,
        t.endpoint.0 % 128 == 0,
        t.is_get_status == asks_status(frame.head().ctrl_packet),
{
    let header = frame.header();
    let ctrl_pkt = header.ctrl_packet;
    let actual_transfer_len: usize = header.actual_transfer_len as usize;
    let ghost bytes = frame.bytes();
    let ghost data = if header.out() {
        frame.tail()
    } else {
        frame::zeros(utils::padded(header.actual_transfer_len as nat))
    };
    let mut b = if header.is_out() {
        proof {
            <UrbFrame as crate::proto::data::Dst>::lemma_valid(bytes);
            lemma_setup_in_header(bytes);
        }
        let mut b = frame.into_bytes_mut();
        buf::advance(&mut b, 16);
        b
    } else {
        let mut b = scratch.reserve(8 + header.padded_transfer_len());
        let setup = ctrl_pkt.as_bytes();
        proof {
            ctrl_pkt.lemma_round_trip();
        }
        write_at(buf::as_mut_slice(&mut b), 0, setup.as_slice());
        assert(buf::bytes_of(b) =~= ctrl_pkt.encoding() + data);
        b
    };
    buf::truncate(&mut b, 8 + actual_transfer_len);
    let dir = if ctrl_pkt.bm_request_type >= 128 {
        Dir::In
    } else {
        Dir::Out
    };
    let endpoint = match dir {
        Dir::Out => Endpoint(0),
        Dir::In => Endpoint(128),
    };
    CtrlTransfer {
        buf: b,
        dir,
        endpoint,
        is_get_status: ctrl_pkt.bm_request_type == 0x80 && ctrl_pkt.b_request == 0,
    }
}

/// The setup packet is the last that a frame's header holds.
proof fn lemma_setup_in_header(bytes: Seq<u8>)
    requires
        bytes.len() >= 24,
        UrbHeader::decoding(bytes.take(24)) is Some,
    ensures
        bytes.skip(16) == UrbHeader::decoding(bytes.take(24))->0.ctrl_packet.encoding()
            + bytes.skip(24),
{
    let b = bytes.take(24);
    usb::IocSetupPacket::lemma_canonical(b.subrange(16, 24));
    assert(bytes.skip(16) =~= b.subrange(16, 24) + bytes.skip(24));
}

/// The bytes of a completed control request without the setup packet; a device that was asked
/// for its status tells that it has power of its own.
pub open spec fn ctrl_outcome(completed: Seq<u8>, is_get_status: bool) -> Seq<u8> {
    let data = completed.skip(8);
    if is_get_status {
        data.update(0, 1)
    } else {
        data
    }
}

/// Makes the reply of a completed control request. `completed` is what its buffer holds, with
/// the setup packet.
pub fn ctrl_done(
    seqnum: u32,
    completed: BytesMut,
    dir: Dir,
    endpoint: Endpoint,
    is_get_status: bool,
    status: usb::Status,
) -> (r: Sequenced<Ctrl<usb::Status>>)
    requires
        buf::bytes_of(completed).len() >= 8,
        is_get_status ==> buf::bytes_of(completed).len() > 8,
    ensures
        r.seqnum == seqnum,
        r.data.endpoint == endpoint,
        r.data.status == status,
        match dir {
            Dir::In => r.data.res is In && r.data.res.given() == ctrl_outcome(
                buf::bytes_of(completed),
                is_get_status,
            ),
            Dir::Out => r.data.res is Out && r.data.res.moved() == buf::bytes_of(completed).len()
                - 8,
        },
{
    let mut b = completed;
    buf::advance(&mut b, 8);
    if is_get_status {
        let s = buf::as_mut_slice(&mut b);
        s[0] = 1;
    }
    Sequenced { seqnum, data: Ctrl { res: ResultData::new(b, dir), endpoint, status } }
}

/// The bytes that an interrupt or bulk request hands to the device.
pub open spec fn data_bytes(frame: Data<UrbFrame>) -> Seq<u8> {
    let header = frame.head();
    if header.out() {
        first(frame.tail(), header.actual_transfer_len as nat)
    } else {
        frame::zeros(header.actual_transfer_len as nat)
    }
}

/// Prepares an interrupt or bulk request for the device.
fn new_data(scratch: &mut BytesAllocator, frame: Data<UrbFrame>) -> (r: (UrbHeader, BytesMut))
    requires
        old(scratch).wf(),
        frame.wf(),
    ensures
        final(scratch).wf(),
        r.0 == frame.head(),
        buf::bytes_of(r.1) == data_bytes(frame),
{
    let header = frame.header();
    let mut b = if header.is_out() {
        let mut b = frame.into_bytes_mut();
        proof {
            <UrbFrame as crate::proto::data::Dst>::lemma_valid(frame.bytes());
        }
        buf::advance(&mut b, 24);
        b
    } else {
        scratch.reserve(header.padded_transfer_len())
    };
    buf::truncate(&mut b, header.actual_transfer_len as usize);
    assert(!header.out() ==> buf::bytes_of(b) =~= frame::zeros(header.actual_transfer_len as nat));
    (header, b)
}

/// Prepares an interrupt request for the device.
pub fn new_int(scratch: &mut BytesAllocator, frame: Data<UrbFrame>) -> (r: (UrbHeader, BytesMut))
    requires
        old(scratch).wf(),
        frame.wf(),
    ensures
        final(scratch).wf(),
        r.0 == frame.head(),
        buf::bytes_of(r.1) == data_bytes(frame),
{
    new_data(scratch, frame)
}

/// Prepares a bulk request for the device.
pub fn new_bulk(scratch: &mut BytesAllocator, frame: Data<UrbFrame>) -> (r: (UrbHeader, BytesMut))
    requires
        old(scratch).wf(),
        frame.wf(),
    ensures
        final(scratch).wf(),
        r.0 == frame.head(),
        buf::bytes_of(r.1) == data_bytes(frame),
{
    new_data(scratch, frame)
}

/// What a completed transfer moved, by the direction of its endpoint.
pub open spec fn moved_by(endpoint: Endpoint, completed: BytesMut, res: ResultData) -> bool {
    match endpoint.dir() {
        Dir::In => res == ResultData::In(completed),
        Dir::Out => res is Out && res.moved() == buf::bytes_of(completed).len(),
    }
}

/// Makes the reply of a completed interrupt request.
pub fn int_done(
    seqnum: u32,
    header: &UrbHeader,
    completed: BytesMut,
    status: usb::Status,
) -> (r: Sequenced<Int<usb::Status>>)
    ensures
        r.seqnum == seqnum,
        r.data.endpoint == header.endpoint,
        r.data.interval == header.interval,
        r.data.status == status,
        moved_by(header.endpoint, completed, r.data.res),
{
    let res = ResultData::new(completed, header.endpoint.direction());
    Sequenced {
        seqnum,
        data: Int { res, endpoint: header.endpoint, interval: header.interval, status },
    }
}

/// Makes the reply of a completed bulk request.
pub fn bulk_done(
    seqnum: u32,
    header: &UrbHeader,
    completed: BytesMut,
    status: usb::Status,
) -> (r: Sequenced<Bulk<usb::Status>>)
    ensures
        r.seqnum == seqnum,
        r.data.endpoint == header.endpoint,
        r.data.status == status,
        moved_by(header.endpoint, completed, r.data.res),
{
    let res = ResultData::new(completed, header.endpoint.direction());
    Sequenced { seqnum, data: Bulk { res, endpoint: header.endpoint, status } }
}

/// An isochronous request as it goes to the device.
pub struct IsoTransfer {
    pub header: UrbHeader,
    pub buf: BytesMut,
    pub packets: Vec<IocIsoPacketData>,
    /// The bytes of the packets, which become those of the outcome.
    pub raw_iso_buf: BytesMut,
}

/// The number of bytes of a request's transfer buffer in its frame.
pub open spec fn request_transfer_len(header: UrbHeader) -> nat {
    if header.out() {
        utils::padded(header.actual_transfer_len as nat)
    } else {
        0
    }
}

/// An isochronous request has its transfer buffer and its packets, and nothing else.
pub open spec fn iso_fits(frame: Data<UrbFrame>) -> bool {
    frame.tail().len() == request_transfer_len(frame.head()) + frame.head().iso_len()
}

/// Tells whether an isochronous request can be served.
pub fn does_iso_fit(frame: &Data<UrbFrame>) -> (b: bool)
    requires
        frame.wf(),
    ensures
        b == iso_fits(*frame),
{
    let header = frame.header();
    let len: usize = frame.len();
    proof {
        <UrbFrame as crate::proto::data::Dst>::lemma_valid(frame.bytes());
    }
    let transfer_len: usize = if header.is_out() {
        header.padded_transfer_len()
    } else {
        0
    };
    len - 24 == transfer_len + header.iso_byte_len()
}

/// Prepares an isochronous request for the device.
pub fn new_iso(scratch: &mut BytesAllocator, frame: Data<UrbFrame>) -> (t: IsoTransfer)
    requires
        old(scratch).wf(),
        frame.wf(),
        iso_fits(frame),
    ensures
        final(scratch).wf(),
        t.header == frame.head(),
        buf::bytes_of(t.buf) == (if frame.head().out() {
            frame.tail().take(frame.head().actual_transfer_len as int)
        } else {
            frame::zeros(frame.head().actual_transfer_len as nat)
        }),
        buf::bytes_of(t.buf).len() == frame.head().actual_transfer_len,
        buf::bytes_of(t.raw_iso_buf) == frame.tail().skip(
            request_transfer_len(frame.head()) as int,
        ),
        buf::bytes_of(t.raw_iso_buf) == codec::encode_all(t.packets@),
        t.packets@.len() == frame.head().iso_packet_count,
{
    let header = frame.header();
    proof {
        <UrbFrame as crate::proto::data::Dst>::lemma_valid(frame.bytes());
        utils::law_padded(header.actual_transfer_len as nat);
    }
    let padded_transfer_len: usize = header.padded_transfer_len();
    let mut data = frame.into_bytes_mut();
    buf::advance(&mut data, 24);
    let ghost tail = frame.tail();
    let mut transfer_buf = if header.is_out() {
        buf::split_to(&mut data, padded_transfer_len)
    } else {
        scratch.reserve(padded_transfer_len)
    };
    buf::truncate(&mut transfer_buf, header.actual_transfer_len as usize);
    proof {
        let n = header.actual_transfer_len as int;
        if header.out() {
            assert(buf::bytes_of(transfer_buf) =~= tail.take(n));
        } else {
            assert(buf::bytes_of(transfer_buf) =~= frame::zeros(n as nat));
            assert(tail.skip(0) =~= tail);
        }
    }
    let packets = read_while::<IocIsoPacketData>(buf::as_slice(&data));
    proof {
        lemma_all_packets(buf::bytes_of(data), header.iso_packet_count as nat);
    }
    IsoTransfer { header, buf: transfer_buf, packets, raw_iso_buf: data }
}

/// Bytes of the right number are those of the packets that they stand for.
proof fn lemma_all_packets(b: Seq<u8>, n: nat)
    requires
        b.len() == 8 * n,
    ensures
        codec::decode_while::<IocIsoPacketData>(b).len() == n,
        codec::encode_all(codec::decode_while::<IocIsoPacketData>(b)) == b,
    decreases n,
{
    let s = codec::decode_while::<IocIsoPacketData>(b);
    if n == 0 {
        assert(codec::encode_all(s) =~= b);
    } else {
        lemma_all_packets(b.skip(8), (n - 1) as nat);
        IocIsoPacketData::lemma_canonical(b.take(8));
        codec::lemma_encode_all_first(s);
        assert(s.drop_first() =~= codec::decode_while::<IocIsoPacketData>(b.skip(8)));
        assert(codec::encode_all(s) =~= b);
    }
}

/// The number of packets that failed.
pub open spec fn error_count(packets: Seq<IocIsoPacketGiveback>) -> nat
    decreases packets.len(),
{
    if packets.len() == 0 {
        0
    } else {
        error_count(packets.drop_last()) + if packets.last().status != 0 {
            1nat
        } else {
            0nat
        }
    }
}

/// Makes the reply of a completed isochronous request. `outcomes` is what became of its packets,
/// `completed` is its transfer buffer; where that is the whole buffer, the reply tells the length that
/// the request told.
pub fn iso_done(
    seqnum: u32,
    header: &UrbHeader,
    raw_iso_buf: BytesMut,
    outcomes: &[IocIsoPacketGiveback],
    completed: BytesMut,
    status: usb::Status,
) -> (r: Sequenced<Iso<usb::Status>>)
    requires
        buf::bytes_of(raw_iso_buf).len() == header.iso_len(),
    ensures
        r.seqnum == seqnum,
        r.data.endpoint == header.endpoint,
        r.data.interval == header.interval,
        r.data.status == status,
        r.data.num_iso_packets == header.iso_packet_count,
        moved_by(header.endpoint, completed, r.data.res),
        buf::bytes_of(completed).len() == header.actual_transfer_len ==> r.data.res.moved()
            == header.actual_transfer_len && lend::iso_reply_header(r.data).actual_transfer_len
            == header.actual_transfer_len,
        ({
            let k = if outcomes@.len() <= header.iso_packet_count {
                outcomes@.len() as int
            } else {
                header.iso_packet_count as int
            };
            &&& buf::bytes_of(r.data.raw_iso_buf) == codec::encode_all(outcomes@.take(k))
                + buf::bytes_of(raw_iso_buf).skip(8 * k)
            &&& r.data.num_errors == error_count(outcomes@.take(k))
        }),
{
    let mut raw = raw_iso_buf;
    let ghost raw0 = buf::bytes_of(raw);
    let n: usize = header.iso_packet_count as usize;
    let k: usize = if outcomes.len() <= n {
        outcomes.len()
    } else {
        n
    };
    let mut num_errors: u16 = 0;
    let mut i: usize = 0;
    proof {
        assert(outcomes@.take(0) =~= Seq::<IocIsoPacketGiveback>::empty());
        assert(buf::bytes_of(raw) =~= codec::encode_all(outcomes@.take(0)) + raw0.skip(0));
    }
    while i < k
        invariant
            i <= k,
            k <= outcomes@.len(),
            k <= n,
            n <= 65535,
            raw0.len() == 8 * n,
            buf::bytes_of(raw) == codec::encode_all(outcomes@.take(i as int)) + raw0.skip(8 * i),
            num_errors == error_count(outcomes@.take(i as int)),
            num_errors <= i,
        decreases k - i,
    {
        let outcome = outcomes[i];
        let bytes = outcome.as_bytes();
        proof {
            outcome.lemma_round_trip();
            codec::lemma_encode_all_len(outcomes@.take(i as int));
            assert(outcomes@.take(i + 1).drop_last() =~= outcomes@.take(i as int));
        }
        let ghost before = buf::bytes_of(raw);
        write_at(buf::as_mut_slice(&mut raw), 8 * i, bytes.as_slice());
        proof {
            let done = codec::encode_all(outcomes@.take(i as int));
            assert(done.len() == 8 * i);
            assert(before.take(8 * i) =~= done);
            assert(before.skip(8 * i + 8) =~= raw0.skip(8 * (i + 1)));
            assert(codec::encode_all(outcomes@.take(i + 1)) == done + outcome.encoding());
        }
        if outcome.status != 0 {
            num_errors = num_errors + 1;
        }
        i = i + 1;
    }
    let res = ResultData::new(completed, header.endpoint.direction());
    Sequenced {
        seqnum,
        data: Iso {
            res,
            endpoint: header.endpoint,
            interval: header.interval,
            raw_iso_buf: raw,
            num_errors,
            num_iso_packets: header.iso_packet_count,
            status,
        },
    }
}

/// Makes the reply of a control request that went through the operating system.
pub fn blocking_done<S>(seqnum: u32, status: S) -> (r: Sequenced<Ctrl<S>>)
    ensures
        r == (Sequenced {
            seqnum,
            data: Ctrl {
                res: ResultData::Out { bytes_transferred: 0 },
                endpoint: Endpoint(0),
                status,
            },
        }),
{
    Sequenced {
        seqnum,
        data: Ctrl {
            res: ResultData::Out { bytes_transferred: 0 },
            endpoint: Endpoint(0),
            status,
        },
    }
}

/// A control request that goes through the operating system.
#[derive(Debug, Clone, Copy, PartialEq, Eq, Structural)]
pub enum BlockingOp {
    SetInterface,
    SetConfig,
    ClearStall,
}

/// What a failed call to the operating system is to the borrower.
///
/// The interface that is set exists, and so does its device.
pub fn blocking_result(op: BlockingOp, result: Result<(), RusbError>) -> (r: Result<
    (),
    TransferError,
>)
    requires
        op == BlockingOp::SetInterface ==> result != Err::<(), RusbError>(RusbError::NotFound)
            && result != Err::<(), RusbError>(RusbError::NoDevice),
    ensures
        result is Ok ==> r is Ok,
        result is Err ==> r == Err::<(), TransferError>(
            TransferError::Reportable(ReportableError::Stall),
        ),
{
    match result {
        Ok(()) => Ok(()),
        Err(_) => Err(TransferError::Reportable(ReportableError::Stall)),
    }
}

/// The answer to a port reset that the device was asked for.
pub fn port_reset(result: Result<(), RusbError>) -> (s: Status)
    ensures
        s == (if result is Ok {
            Status::Success
        } else {
            Status::DevErr
        }),
{
    match result {
        Ok(()) => Status::Success,
        Err(_) => Status::DevErr,
    }
}

/// The answer to a borrower's port reset, which the lender does not pass on to the device.
pub fn device_reset(seqnum: u32) -> (r: Sequenced<Status>)
    ensures
        r == (Sequenced { seqnum, data: Status::Success }),
{
    Sequenced { seqnum, data: Status::Success }
}

} // verus!
