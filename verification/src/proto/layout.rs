//! Where each field of a record stands in its bytes, and which number stands for each name.
//!
//! The numbers are told with plain sums of bytes, so that what a peer of another make writes or reads
//! can be held against them.
use crate::codec::Wire;
use crate::proto::data;
use crate::proto::mass_storage::{CommandBlockWrapper, CommandStatusWrapper};
use crate::proto::msg::{
    Command, DataRate, DeviceDescriptor, Header, PackedKind, QusbFrame, Req, ReqFrame, Resp, Speed,
    Status, UrbFrame, UrbHeader, UrbKind, UsbDeviceId, UsbDeviceInfo, UsbDeviceInfoHeader,
    UsbInterfaceInfo, Version, VersionOpt,
};
use crate::proto::urb;
use crate::proto::GetSliceLen;
use crate::session::Request;
use crate::usb;
use crate::usb::{Endpoint, IocIsoPacketData, IocIsoPacketGiveback, IocSetupPacket, UrbType};
use vstd::prelude::*;

verus! {

/// `x` stands in two bytes from `at` on, its low byte first.
pub open spec fn low_first16(b: Seq<u8>, at: int, x: int) -> bool {
    b[at] + 256 * b[at + 1] == x
}

/// `x` stands in four bytes from `at` on, its low byte first.
pub open spec fn low_first32(b: Seq<u8>, at: int, x: int) -> bool {
    b[at] + 256 * b[at + 1] + 65536 * b[at + 2] + 16777216 * b[at + 3] == x
}

/// `x` stands in four bytes from `at` on, its high byte first.
pub open spec fn high_first32(b: Seq<u8>, at: int, x: int) -> bool {
    16777216 * b[at] + 65536 * b[at + 1] + 256 * b[at + 2] + b[at + 3] == x
}

/// A number that may be negative, as the number without a sign that takes its place.
pub open spec fn without_sign(x: int) -> int {
    if x < 0 {
        0x1_0000_0000 + x
    } else {
        x
    }
}

/// A setup packet has its fields in the order that the bus has them.
pub proof fn law_setup_packet_layout(p: IocSetupPacket)
    ensures
        p.encoding().len() == 8,
        p.encoding()[0] == p.bm_request_type,
        p.encoding()[1] == p.b_request,
        low_first16(p.encoding(), 2, p.w_value as int),
        low_first16(p.encoding(), 4, p.w_index as int),
        low_first16(p.encoding(), 6, p.w_length as int),
{
}

/// An isochronous packet tells first where it begins and then how long it is.
pub proof fn law_iso_packet_layout(p: IocIsoPacketData)
    ensures
        p.encoding().len() == 8,
        low_first32(p.encoding(), 0, p.offset as int),
        low_first32(p.encoding(), 4, p.packet_length as int),
{
}

/// The outcome of a packet tells first how many bytes were moved and then the error.
pub proof fn law_iso_outcome_layout(p: IocIsoPacketGiveback)
    ensures
        p.encoding().len() == 8,
        low_first32(p.encoding(), 0, p.packet_actual as int),
        low_first32(p.encoding(), 4, without_sign(p.status as int)),
{
}

/// The header of a frame.
pub proof fn law_header_layout(h: Header)
    ensures
        h.encoding().len() == 8,
        low_first16(h.encoding(), 0, h.total_frame_len as int),
        h.encoding()[2] == h.command.encoding()[0],
        h.encoding()[3] == h.status.encoding()[0],
        low_first32(h.encoding(), 4, h.seqnum as int),
{
}

/// The header of a transfer.
#[verifier::rlimit(60)]
#[verifier::spinoff_prover]
pub proof fn law_urb_header_layout(h: UrbHeader)
    ensures
        h.encoding().len() == 24,
        low_first16(h.encoding(), 0, h.actual_transfer_len as int),
        low_first16(h.encoding(), 2, h.iso_packet_count as int),
        h.encoding()[4] == h.endpoint.0,
        h.encoding()[5] == h.kind.encoding()[0],
        low_first16(h.encoding(), 6, h.interval as int),
        h.encoding().subrange(8, 12) == h.status.encoding(),
        low_first16(h.encoding(), 12, h.flags as int),
        low_first16(h.encoding(), 14, h.num_errors as int),
        h.encoding()[16] == h.ctrl_packet.bm_request_type,
        h.encoding()[17] == h.ctrl_packet.b_request,
        low_first16(h.encoding(), 18, h.ctrl_packet.w_value as int),
        low_first16(h.encoding(), 20, h.ctrl_packet.w_index as int),
        low_first16(h.encoding(), 22, h.ctrl_packet.w_length as int),
{
    h.lemma_round_trip();
    assert(h.encoding().subrange(8, 12) =~= h.status.encoding());
}

/// What a byte stands for in the header of a frame: commands, answers and how they came out.
pub proof fn law_frame_codes(c: Command, s: Status)
    ensures
        c.encoding().len() == 1,
        c == Command::CmdSubmit <==> c.encoding()[0] == 0,
        c == Command::CmdUnlink <==> c.encoding()[0] == 1,
        c == Command::CmdPort <==> c.encoding()[0] == 2,
        c == Command::RetSubmit <==> c.encoding()[0] == 3,
        c == Command::RetUnlink <==> c.encoding()[0] == 4,
        c == Command::RetPort <==> c.encoding()[0] == 5,
        s.encoding().len() == 1,
        s == Status::Success <==> s.encoding()[0] == 0,
        s == Status::Failed <==> s.encoding()[0] == 1,
        s == Status::DevBusy <==> s.encoding()[0] == 2,
        s == Status::DevErr <==> s.encoding()[0] == 3,
        s == Status::NoDev <==> s.encoding()[0] == 4,
        s == Status::Unexpected <==> s.encoding()[0] == 5,
        s == Status::VersionMismatch <==> s.encoding()[0] == 6,
        s == Status::Timeout <==> s.encoding()[0] == 7,
        s == Status::Proto <==> s.encoding()[0] == 8,
{
}

/// What a byte stands for in the header of a transfer: its kind, and by the highest bit of the
/// endpoint its direction.
pub proof fn law_transfer_codes(k: UrbType, e: Endpoint)
    ensures
        k.encoding().len() == 1,
        k == UrbType::Iso <==> k.encoding()[0] == 0,
        k == UrbType::Int <==> k.encoding()[0] == 1,
        k == UrbType::Ctrl <==> k.encoding()[0] == 2,
        k == UrbType::Bulk <==> k.encoding()[0] == 3,
        e.encoding() == seq![e.0],
        e.dir() == usb::Dir::In <==> e.0 >= 128,
        e.dir() == usb::Dir::Out <==> e.0 < 128,
{
}

/// What the four bytes of a transfer's status stand for.
#[verifier::rlimit(60)]
#[verifier::spinoff_prover]
pub proof fn law_transfer_status_codes(s: usb::Status)
    ensures
        s.encoding().len() == 4,
        s == usb::Status::Success <==> low_first32(s.encoding(), 0, 0),
        s == usb::Status::Pending <==> low_first32(s.encoding(), 0, 0x10000001),
        s == usb::Status::ShortPacket <==> low_first32(s.encoding(), 0, 0x10000002),
        s == usb::Status::Error <==> low_first32(s.encoding(), 0, 0x7ff00000),
        s == usb::Status::Canceled <==> low_first32(s.encoding(), 0, 0x30000001),
        s == usb::Status::TimedOut <==> low_first32(s.encoding(), 0, 0x30000002),
        s == usb::Status::DeviceDisabled <==> low_first32(s.encoding(), 0, 0x71000001),
        s == usb::Status::DeviceDisconnected <==> low_first32(s.encoding(), 0, 0x71000002),
        s == usb::Status::BitStuff <==> low_first32(s.encoding(), 0, 0x72000001),
        s == usb::Status::Crc <==> low_first32(s.encoding(), 0, 0x72000002),
        s == usb::Status::NoResponse <==> low_first32(s.encoding(), 0, 0x72000003),
        s == usb::Status::Babble <==> low_first32(s.encoding(), 0, 0x72000004),
        s == usb::Status::Stall <==> low_first32(s.encoding(), 0, 0x74000001),
        s == usb::Status::BufferOverrun <==> low_first32(s.encoding(), 0, 0x72100001),
        s == usb::Status::BufferUnderrun <==> low_first32(s.encoding(), 0, 0x72100002),
        s == usb::Status::AllIsoPacketsFailed <==> low_first32(s.encoding(), 0, 0x78000001),
{
    assert(low_first32(s.encoding(), 0, s.code() as int));
}

/// A version and the name of a device, byte by byte.
pub proof fn law_version_and_id_layout(v: Version, id: UsbDeviceId)
    ensures
        v.encoding().len() == 4,
        v.encoding()[0] == v.major,
        v.encoding()[1] == v.minor,
        low_first16(v.encoding(), 2, v.patch as int),
        id.encoding() == seq![id.bus_number, id.device_addr],
{
}

/// The request of a client, byte by byte.
#[verifier::rlimit(60)]
#[verifier::spinoff_prover]
pub proof fn law_request_layout(f: ReqFrame, r: DataRate, q: Request)
    ensures
        f.encoding().len() == 8,
        f.encoding().take(4) == f.version.encoding(),
        f.req is ListDevices <==> f.encoding()[4] == 0,
        f.req is BorrowDevice <==> f.encoding()[4] == 1,
        f.req is LendDevice <==> f.encoding()[4] == 2,
        f.req matches Req::ListDevices { _padding } ==> f.encoding().skip(5) == _padding@,
        f.req matches Req::BorrowDevice { _padding, .. } ==> f.encoding()[5] == _padding@[0],
        f.req matches Req::BorrowDevice { dev_id, .. } ==> f.encoding()[6] == dev_id.bus_number
            && f.encoding()[7] == dev_id.device_addr,
        f.req matches Req::LendDevice { data_rate, dev_id } ==> f.encoding()[5]
            == data_rate.encoding()[0] && f.encoding()[6] == dev_id.bus_number && f.encoding()[7]
            == dev_id.device_addr,
        r.encoding().len() == 1,
        r == DataRate::Low <==> r.encoding()[0] == 0,
        r == DataRate::Full <==> r.encoding()[0] == 1,
        r == DataRate::High <==> r.encoding()[0] == 2,
        q.encoding().len() == 4,
        q == Request::ListDevices <==> low_first32(q.encoding(), 0, 0),
        q == Request::BorrowDevice <==> low_first32(q.encoding(), 0, 1),
{
    f.version.lemma_round_trip();
    f.req.lemma_round_trip();
    f.lemma_round_trip();
    assert(f.encoding().take(4) =~= f.version.encoding());
    assert(f.encoding().skip(4) =~= f.req.encoding());
    assert(f.encoding()[4] == f.req.encoding()[0]);
    assert(f.encoding()[5] == f.req.encoding()[1]);
    assert(f.encoding()[6] == f.req.encoding()[2]);
    assert(f.encoding()[7] == f.req.encoding()[3]);
    if let Req::ListDevices { _padding } = f.req {
        assert(f.encoding().skip(5) =~= _padding@);
    }
}

/// The answer of a server, byte by byte.
#[verifier::rlimit(60)]
#[verifier::spinoff_prover]
pub proof fn law_response_layout(r: Resp)
    ensures
        r.encoding().len() == 8,
        r is ListDevices <==> r.encoding()[0] == 0,
        r is BorrowDevice <==> r.encoding()[0] == 1,
        r is LendDevice <==> r.encoding()[0] == 2,
        r is Failure <==> r.encoding()[0] == 3,
        r matches Resp::ListDevices { _padding } ==> r.encoding().skip(1) == _padding@,
        r matches Resp::LendDevice { _padding } ==> r.encoding().skip(1) == _padding@,
        r matches Resp::BorrowDevice { _padding, .. } ==> r.encoding().skip(2) == _padding@,
        r matches Resp::BorrowDevice { data_rate, .. } ==> r.encoding()[1]
            == data_rate.encoding()[0],
        r matches Resp::Failure { stat, ver } ==> r.encoding()[1] == stat.encoding()[0] && match ver {
            VersionOpt::Known(v) => r.encoding()[2] == 0 && r.encoding()[3] == 0
                && r.encoding().skip(4) == v.encoding(),
            VersionOpt::Unknown(bytes) => r.encoding()[2] == 1 && r.encoding()[3] == 0
                && r.encoding().skip(4) == bytes@,
        },
{
    r.lemma_round_trip();
    match r {
        Resp::Failure { stat, ver } => {
            stat.lemma_round_trip();
            ver.lemma_round_trip();
            match ver {
                VersionOpt::Known(v) => {
                    v.lemma_round_trip();
                    assert(r.encoding().skip(4) =~= v.encoding());
                },
                VersionOpt::Unknown(bytes) => {
                    assert(r.encoding().skip(4) =~= bytes@);
                },
            }
        },
        Resp::ListDevices { _padding } => {
            assert(r.encoding().skip(1) =~= _padding@);
        },
        Resp::LendDevice { _padding } => {
            assert(r.encoding().skip(1) =~= _padding@);
        },
        Resp::BorrowDevice { data_rate, _padding } => {
            data_rate.lemma_round_trip();
            assert(r.encoding().skip(2) =~= _padding@);
        },
    }
}

/// An interface of a device and the speed of one, byte by byte.
pub proof fn law_interface_layout(i: UsbInterfaceInfo, s: Speed)
    ensures
        i.encoding() == seq![
            i.b_interface_number,
            i.b_interface_class,
            i.b_interface_subclass,
            i.b_interface_protocol,
        ],
        s.encoding().len() == 1,
        s == Speed::Unknown <==> s.encoding()[0] == 0,
        s == Speed::Low <==> s.encoding()[0] == 1,
        s == Speed::Full <==> s.encoding()[0] == 2,
        s == Speed::High <==> s.encoding()[0] == 3,
        s == Speed::Super <==> s.encoding()[0] == 4,
        s == Speed::SuperPlus <==> s.encoding()[0] == 5,
{
}

/// What is told of a device, byte by byte.
#[verifier::rlimit(60)]
#[verifier::spinoff_prover]
pub proof fn law_device_info_layout(d: UsbDeviceInfoHeader)
    ensures
        d.encoding().len() == 312,
        d.encoding().take(256) == d.path@,
        d.encoding().subrange(256, 288) == d.bus_id@,
        low_first16(d.encoding(), 288, d.path_len as int),
        low_first16(d.encoding(), 290, d.id_vendor as int),
        low_first16(d.encoding(), 292, d.id_product as int),
        low_first16(d.encoding(), 294, d.bcd_device as int),
        d.encoding()[296] == d.bus_id_len,
        d.encoding()[297] == d.busnum,
        d.encoding()[298] == d.devnum,
        d.encoding()[299] == d.speed.encoding()[0],
        d.encoding()[300] == d.b_device_class,
        d.encoding()[301] == d.b_device_subclass,
        d.encoding()[302] == d.b_device_protocol,
        d.encoding()[303] == d.b_configuration_value,
        d.encoding()[304] == d.b_num_configurations,
        d.encoding()[305] == d.b_num_interfaces,
        d.encoding()[306] == d.padded_num_interfaces,
        d.encoding().skip(307) == d._padding@,
{
    d.lemma_round_trip();
    d.speed.lemma_round_trip();
    assert(d.encoding().take(256) =~= d.path@);
    assert(d.encoding().subrange(256, 288) =~= d.bus_id@);
    assert(d.encoding().skip(307) =~= d._padding@);
}

/// A device's description of itself, byte by byte, as the bus has it.
pub proof fn law_descriptor_layout(d: DeviceDescriptor)
    ensures
        d.encoding().len() == 18,
        d.encoding()[0] == d.b_length,
        d.encoding()[1] == d.b_descriptor_type,
        low_first16(d.encoding(), 2, d.bcd_usb as int),
        d.encoding()[4] == d.b_device_class,
        d.encoding()[5] == d.b_device_subclass,
        d.encoding()[6] == d.b_device_protocol,
        d.encoding()[7] == d.b_max_packet_size0,
        low_first16(d.encoding(), 8, d.id_vendor as int),
        low_first16(d.encoding(), 10, d.id_product as int),
        low_first16(d.encoding(), 12, d.bcd_device as int),
        d.encoding()[14] == d.i_manufacturer,
        d.encoding()[15] == d.i_product,
        d.encoding()[16] == d.i_serial_number,
        d.encoding()[17] == d.b_num_configurations,
{
}

/// The wrappers of commands for mass storage, byte by byte.
pub proof fn law_mass_storage_layout(c: CommandBlockWrapper, s: CommandStatusWrapper)
    ensures
        c.encoding().len() == 31,
        c.encoding().take(4) == c.d_cbw_signature@,
        low_first32(c.encoding(), 4, c.d_cbw_tag as int),
        low_first32(c.encoding(), 8, c.d_cbw_data_transfer_length as int),
        c.encoding()[12] == c.bm_cbw_flags,
        c.encoding()[13] == c.b_cbw_lun,
        c.encoding()[14] == c.b_cbw_cb_length,
        c.encoding().skip(15) == c.cbw_cb@,
        s.encoding().len() == 13,
        s.encoding().take(4) == s.d_cbw_signature@,
        low_first32(s.encoding(), 4, s.d_cbw_tag as int),
        low_first32(s.encoding(), 8, s.d_cbw_data_residue as int),
        s.encoding()[12] == s.bm_cbw_status,
{
    c.lemma_round_trip();
    s.lemma_round_trip();
    assert(c.encoding().take(4) =~= c.d_cbw_signature@);
    assert(c.encoding().skip(15) =~= c.cbw_cb@);
    assert(s.encoding().take(4) =~= s.d_cbw_signature@);
}

/// Numbers of the older records have their high byte first.
pub proof fn law_net_number_layout(x: urb::NetU32, y: urb::NetI32, z: i8, b: bool)
    ensures
        x.encoding().len() == 4,
        high_first32(x.encoding(), 0, x.0 as int),
        y.encoding().len() == 4,
        high_first32(y.encoding(), 0, without_sign(y.0 as int)),
        z.encoding().len() == 1,
        z.encoding()[0] == (if z < 0 {
            256 + z
        } else {
            z as int
        }),
        b.encoding().len() == 1,
        b <==> b.encoding()[0] == 1,
        !b <==> b.encoding()[0] == 0,
{
}

/// The older header, byte by byte.
pub proof fn law_basic_header_layout(h: urb::BasicHeader)
    ensures
        h.encoding().len() == 14,
        h.command == urb::Command::CmdSubmit <==> h.encoding()[0] == 1,
        h.command == urb::Command::CmdUnlink <==> h.encoding()[0] == 2,
        h.command == urb::Command::RetSubmit <==> h.encoding()[0] == 3,
        h.command == urb::Command::RetUnlink <==> h.encoding()[0] == 4,
        high_first32(h.encoding(), 1, h.seqnum.0 as int),
        high_first32(h.encoding(), 5, h.dev_id.0 as int),
        h.direction == urb::Dir::Out <==> h.encoding()[9] == 0,
        h.direction == urb::Dir::In <==> h.encoding()[9] == 1,
        high_first32(h.encoding(), 10, without_sign(h.endpoint.0 as int)),
{
    h.lemma_round_trip();
}

/// The older description of an isochronous packet, byte by byte; only its status has the low byte
/// first.
pub proof fn law_packet_descriptor_layout(p: urb::IsoPacketDescriptor)
    ensures
        p.encoding().len() == 16,
        high_first32(p.encoding(), 0, p.offset.0 as int),
        high_first32(p.encoding(), 4, p.length.0 as int),
        high_first32(p.encoding(), 8, p.actual_length.0 as int),
        p.encoding().skip(12) == p.status.encoding(),
{
    p.lemma_round_trip();
    assert(p.encoding().skip(12) =~= p.status.encoding());
}

/// What the four bytes of a packet's status stand for.
#[verifier::rlimit(60)]
#[verifier::spinoff_prover]
pub proof fn law_packet_status_codes(s: urb::IsoStatus)
    ensures
        s.encoding().len() == 4,
        s == urb::IsoStatus::Success <==> low_first32(s.encoding(), 0, 0),
        s == urb::IsoStatus::Pending <==> low_first32(s.encoding(), 0, 0x10000001),
        s == urb::IsoStatus::ShortPacket <==> low_first32(s.encoding(), 0, 0x10000002),
        s == urb::IsoStatus::Error <==> low_first32(s.encoding(), 0, 0x7ff00000),
        s == urb::IsoStatus::Canceled <==> low_first32(s.encoding(), 0, 0x30000001),
        s == urb::IsoStatus::TimedOut <==> low_first32(s.encoding(), 0, 0x30000002),
        s == urb::IsoStatus::DeviceDisabled <==> low_first32(s.encoding(), 0, 0x71000001),
        s == urb::IsoStatus::DeviceDisconnected <==> low_first32(s.encoding(), 0, 0x71000002),
        s == urb::IsoStatus::BitStuff <==> low_first32(s.encoding(), 0, 0x72000001),
        s == urb::IsoStatus::Crc <==> low_first32(s.encoding(), 0, 0x72000002),
        s == urb::IsoStatus::NoResponse <==> low_first32(s.encoding(), 0, 0x72000003),
        s == urb::IsoStatus::Babble <==> low_first32(s.encoding(), 0, 0x72000004),
        s == urb::IsoStatus::Stall <==> low_first32(s.encoding(), 0, 0x74000001),
        s == urb::IsoStatus::BufferOverrun <==> low_first32(s.encoding(), 0, 0x72100001),
        s == urb::IsoStatus::BufferUnderrun <==> low_first32(s.encoding(), 0, 0x72100002),
        s == urb::IsoStatus::AllIsoPacketsFailed <==> low_first32(s.encoding(), 0, 0x78000001),
{
    assert(low_first32(s.encoding(), 0, s.code() as int));
}

/// The older isochronous request without its packets, byte by byte.
#[verifier::rlimit(60)]
#[verifier::spinoff_prover]
pub proof fn law_iso_urb_layout(u: urb::IsoUrbWithoutPackets)
    ensures
        u.encoding().len() == 23,
        high_first32(u.encoding(), 0, u.dev_id.0 as int),
        u.direction == urb::Dir::Out <==> u.encoding()[4] == 0,
        u.direction == urb::Dir::In <==> u.encoding()[4] == 1,
        high_first32(u.encoding(), 5, without_sign(u.endpoint.0 as int)),
        u.is_asap <==> u.encoding()[9] == 1,
        high_first32(u.encoding(), 10, without_sign(u.start_frame.0 as int)),
        high_first32(u.encoding(), 14, without_sign(u.interval.0 as int)),
        high_first32(u.encoding(), 18, without_sign(u.error_count.0 as int)),
        u.num_packets >= 0 ==> u.encoding()[22] == u.num_packets,
        u.num_packets < 0 ==> u.encoding()[22] == 256 + u.num_packets,
{
    u.lemma_round_trip();
}

/// A byte below the middle counts isochronous packets; from there on its two low bits tell the kind,
/// and no two kinds share a byte.
pub proof fn law_packed_kind(k: PackedKind)
    ensures
        k.encoding() == seq![k.inner],
        k.inner <= 127 ==> k.valid() && k.kind() == UrbKind::Iso(k.inner),
        k.inner >= 128 ==> (k.valid() <==> k.inner & 3 != 3),
        k.inner >= 128 && k.inner & 3 == 0 ==> k.kind() == UrbKind::Int,
        k.inner >= 128 && k.inner & 3 == 1 ==> k.kind() == UrbKind::Ctrl,
        k.inner >= 128 && k.inner & 3 == 2 ==> k.kind() == UrbKind::Bulk,
{
    let x = k.inner;
    assert(x & 3 == x % 4) by (bit_vector);
}

/// The length of a frame is told in eighths by its first two bytes. It is cut off where all of it is
/// there, waited for where it is not, and refused where it is shorter than its own header.
pub proof fn law_frame_len(b: Seq<u8>)
    ensures
        b.len() < 2 ==> data::dst_size::<QusbFrame>(b) == Err::<nat, data::ReadError>(
            data::ReadError::BufferShort { num_bytes_needed: (8 - b.len()) as usize },
        ),
        b.len() >= 2 ==> {
            let told = 8 * (b[0] + 256 * b[1]);
            match data::dst_size::<QusbFrame>(b) {
                Ok(n) => n == told && 8 <= told <= b.len() && Header::decoding(b.take(8)) is Some,
                Err(data::ReadError::BufferShort { num_bytes_needed }) => b.len() + num_bytes_needed
                    == told && num_bytes_needed > 0,
                Err(data::ReadError::CorruptedData) => told <= b.len() && (told == 0
                    || Header::decoding(b.take(8)) is None),
            }
        },
{
}

/// A request carries data towards the device, and a reply data from it; either is padded to eight
/// bytes. The packets come on top, eight bytes each.
pub proof fn law_transfer_frame_len(b: Seq<u8>)
    ensures
        b.len() < 24 ==> data::dst_size::<UrbFrame>(b) == Err::<nat, data::ReadError>(
            data::ReadError::BufferShort { num_bytes_needed: (24 - b.len()) as usize },
        ),
        data::dst_size::<UrbFrame>(b) matches Ok(n) ==> {
            let h = UrbHeader::decoding(b.take(24))->0;
            let carries = (h.endpoint.0 < 128) == (h.status == usb::Status::Pending);
            let data = n - 24 - 8 * h.iso_packet_count;
            &&& b.len() >= n
            &&& UrbHeader::decoding(b.take(24)) is Some
            &&& n % 8 == 0
            &&& !carries ==> data == 0
            &&& carries ==> h.actual_transfer_len <= data < h.actual_transfer_len + 8
        },
        data::dst_size::<UrbFrame>(b) is Ok ==> b.len() >= 24,
        b.len() >= 24 && UrbHeader::decoding(b.take(24)) is None ==> data::dst_size::<UrbFrame>(b)
            == Err::<nat, data::ReadError>(data::ReadError::CorruptedData),
        b.len() >= 24 && UrbHeader::decoding(b.take(24)) is Some ==> data::dst_size::<UrbFrame>(b)
            != Err::<nat, data::ReadError>(data::ReadError::CorruptedData),
        b.len() >= 24 ==> (data::dst_size::<UrbFrame>(b) matches Err(
            data::ReadError::BufferShort { num_bytes_needed },
        ) ==> {
            let h = UrbHeader::decoding(b.take(24))->0;
            let carries = (h.endpoint.0 < 128) == (h.status == usb::Status::Pending);
            let data = b.len() + num_bytes_needed - 24 - 8 * h.iso_packet_count;
            &&& num_bytes_needed > 0
            &&& data % 8 == 0
            &&& !carries ==> data == 0
            &&& carries ==> h.actual_transfer_len <= data < h.actual_transfer_len + 8
        }),
{
    if b.len() >= 24 && UrbHeader::decoding(b.take(24)) is Some {
        crate::utils::law_padded(UrbHeader::decoding(b.take(24))->0.actual_transfer_len as nat);
    }
    UrbFrame::lemma_slice_len(b);
    if let Ok(k) = UrbFrame::slice_len(b) {
        let e = UrbFrame::elem_len();
        assert(k * e == k) by (nonlinear_arith)
            requires
                e == 1,
        ;
    }
}

/// A device in a list tells how many interfaces follow it, four bytes each.
pub proof fn law_device_len(b: Seq<u8>)
    ensures
        data::dst_size::<UsbDeviceInfo>(b) matches Ok(n) ==> n == 312 + 4 * b[306] && n <= b.len()
            && UsbDeviceInfoHeader::decoding(b.take(312)) is Some,
        data::dst_size::<UsbDeviceInfo>(b) == Err::<nat, data::ReadError>(
            data::ReadError::CorruptedData,
        ) ==> b.len() >= 312 + 4 * b[306] && UsbDeviceInfoHeader::decoding(b.take(312)) is None,
        data::dst_size::<UsbDeviceInfo>(b) matches Err(
            data::ReadError::BufferShort { num_bytes_needed },
        ) ==> num_bytes_needed > 0,
        data::dst_size::<UsbDeviceInfo>(b) matches Err(
            data::ReadError::BufferShort { num_bytes_needed },
        ) ==> b.len() + num_bytes_needed == (if b.len() < 312 {
            312
        } else {
            312 + 4 * b[306]
        }),
{
    UsbDeviceInfo::lemma_slice_len(b);
    if let Ok(k) = UsbDeviceInfo::slice_len(b) {
        let e = UsbDeviceInfo::elem_len();
        assert(k * e == 4 * k) by (nonlinear_arith)
            requires
                e == 4,
        ;
    }
}

} // verus!
