//! The vocabulary of a virtual USB host controller: endpoints, transfer kinds, request blocks.
use crate::codec;
use crate::codec::{from_bits, push_u16, push_u32, read_u16, read_u32, to_bits, Wire};
use vstd::prelude::*;

verus! {

/// The direction of a transfer, seen from the host.
#[derive(Debug, Clone, Copy, PartialEq, Eq, Structural)]
pub enum Dir {
    Out,
    In,
}

/// An endpoint address: the endpoint's number in the low four bits, its direction in the
/// highest.
#[derive(Debug, Clone, Copy, PartialEq, Eq, Structural)]
pub struct Endpoint(pub u8);

impl Endpoint {
    pub open spec fn dir(self) -> Dir {
        if self.0 >= 128 {
            Dir::In
        } else {
            Dir::Out
        }
    }

    pub fn direction(&self) -> (d: Dir)
        ensures
            d == self.dir(),
    {
        if self.0 >= 128 {
            Dir::In
        } else {
            Dir::Out
        }
    }
}

impl Wire for Endpoint {
    open spec fn wire_len() -> nat {
        1
    }

    open spec fn encoding(&self) -> Seq<u8> {
        seq![self.0]
    }

    open spec fn decoding(b: Seq<u8>) -> Option<Self> {
        Some(Endpoint(b[0]))
    }

    fn wire_size() -> usize {
        1
    }

    fn as_bytes(&self) -> Vec<u8> {
        let v = vec![self.0];
        assert(v@ =~= self.encoding());
        v
    }

    fn try_read_from_bytes(b: &[u8]) -> Option<Self> {
        Some(Endpoint(b[0]))
    }

    proof fn lemma_round_trip(&self) {
    }

    proof fn lemma_canonical(b: Seq<u8>) {
        assert(Self::decoding(b)->0.encoding() =~= b);
    }
}

/// The kind of transfer that a request block asks for.
#[derive(Debug, Clone, Copy, PartialEq, Eq, Structural)]
pub enum UrbType {
    Iso,
    Int,
    Ctrl,
    Bulk,
}

impl UrbType {
    /// The byte that stands for the value.
    pub open spec fn code(self) -> u8 {
        match self {
            UrbType::Iso => 0,
            UrbType::Int => 1,
            UrbType::Ctrl => 2,
            UrbType::Bulk => 3,
        }
    }

    /// The value that a byte stands for, if it stands for one.
    pub open spec fn of_code(code: u8) -> Option<UrbType> {
        if code == 0 {
            Some(UrbType::Iso)
        } else if code == 1 {
            Some(UrbType::Int)
        } else if code == 2 {
            Some(UrbType::Ctrl)
        } else if code == 3 {
            Some(UrbType::Bulk)
        } else {
            None
        }
    }
}

impl Wire for UrbType {
    open spec fn wire_len() -> nat {
        1
    }

    open spec fn encoding(&self) -> Seq<u8> {
        seq![self.code()]
    }

    open spec fn decoding(b: Seq<u8>) -> Option<Self> {
        UrbType::of_code(b[0])
    }

    fn wire_size() -> usize {
        1
    }

    fn as_bytes(&self) -> Vec<u8> {
        let code: u8 = match self {
            UrbType::Iso => 0,
            UrbType::Int => 1,
            UrbType::Ctrl => 2,
            UrbType::Bulk => 3,
        };
        let v = vec![code];
        assert(v@ =~= self.encoding());
        v
    }

    fn try_read_from_bytes(b: &[u8]) -> Option<Self> {
        match b[0] {
            0 => Some(UrbType::Iso),
            1 => Some(UrbType::Int),
            2 => Some(UrbType::Ctrl),
            3 => Some(UrbType::Bulk),
            _ => None,
        }
    }

    proof fn lemma_round_trip(&self) {
    }

    proof fn lemma_canonical(b: Seq<u8>) {
        assert(Self::decoding(b)->0.encoding() =~= b);
    }
}

/// What became of a transfer.
#[derive(Debug, Clone, Copy, PartialEq, Eq, Structural)]
pub enum Status {
    Success,
    Pending,
    ShortPacket,
    Error,
    Canceled,
    TimedOut,
    DeviceDisabled,
    DeviceDisconnected,
    BitStuff,
    Crc,
    NoResponse,
    Babble,
    Stall,
    BufferOverrun,
    BufferUnderrun,
    AllIsoPacketsFailed,
}

impl Status {
    /// The number that stands for the status.
    pub open spec fn code(self) -> u32 {
        match self {
            Status::Success => 0x00000000,
            Status::Pending => 0x10000001,
            Status::ShortPacket => 0x10000002,
            Status::Error => 0x7ff00000,
            Status::Canceled => 0x30000001,
            Status::TimedOut => 0x30000002,
            Status::DeviceDisabled => 0x71000001,
            Status::DeviceDisconnected => 0x71000002,
            Status::BitStuff => 0x72000001,
            Status::Crc => 0x72000002,
            Status::NoResponse => 0x72000003,
            Status::Babble => 0x72000004,
            Status::Stall => 0x74000001,
            Status::BufferOverrun => 0x72100001,
            Status::BufferUnderrun => 0x72100002,
            Status::AllIsoPacketsFailed => 0x78000001,
        }
    }

    /// The status that a number stands for, if it stands for one.
    pub open spec fn of_code(code: u32) -> Option<Status> {
        if code == 0x00000000 {
            Some(Status::Success)
        } else if code == 0x10000001 {
            Some(Status::Pending)
        } else if code == 0x10000002 {
            Some(Status::ShortPacket)
        } else if code == 0x7ff00000 {
            Some(Status::Error)
        } else if code == 0x30000001 {
            Some(Status::Canceled)
        } else if code == 0x30000002 {
            Some(Status::TimedOut)
        } else if code == 0x71000001 {
            Some(Status::DeviceDisabled)
        } else if code == 0x71000002 {
            Some(Status::DeviceDisconnected)
        } else if code == 0x72000001 {
            Some(Status::BitStuff)
        } else if code == 0x72000002 {
            Some(Status::Crc)
        } else if code == 0x72000003 {
            Some(Status::NoResponse)
        } else if code == 0x72000004 {
            Some(Status::Babble)
        } else if code == 0x74000001 {
            Some(Status::Stall)
        } else if code == 0x72100001 {
            Some(Status::BufferOverrun)
        } else if code == 0x72100002 {
            Some(Status::BufferUnderrun)
        } else if code == 0x78000001 {
            Some(Status::AllIsoPacketsFailed)
        } else {
            None
        }
    }
}

impl Wire for Status {
    open spec fn wire_len() -> nat {
        4
    }

    open spec fn encoding(&self) -> Seq<u8> {
        codec::le32(self.code())
    }

    open spec fn decoding(b: Seq<u8>) -> Option<Self> {
        Status::of_code(codec::u32_at(b, 0))
    }

    fn wire_size() -> usize {
        4
    }

    fn as_bytes(&self) -> Vec<u8> {
        let code: u32 = match self {
            Status::Success => 0x00000000,
            Status::Pending => 0x10000001,
            Status::ShortPacket => 0x10000002,
            Status::Error => 0x7ff00000,
            Status::Canceled => 0x30000001,
            Status::TimedOut => 0x30000002,
            Status::DeviceDisabled => 0x71000001,
            Status::DeviceDisconnected => 0x71000002,
            Status::BitStuff => 0x72000001,
            Status::Crc => 0x72000002,
            Status::NoResponse => 0x72000003,
            Status::Babble => 0x72000004,
            Status::Stall => 0x74000001,
            Status::BufferOverrun => 0x72100001,
            Status::BufferUnderrun => 0x72100002,
            Status::AllIsoPacketsFailed => 0x78000001,
        };
        let mut v: Vec<u8> = Vec::new();
        push_u32(&mut v, code);
        assert(v@ =~= self.encoding());
        v
    }

    fn try_read_from_bytes(b: &[u8]) -> Option<Self> {
        match read_u32(b, 0) {
            0x00000000 => Some(Status::Success),
            0x10000001 => Some(Status::Pending),
            0x10000002 => Some(Status::ShortPacket),
            0x7ff00000 => Some(Status::Error),
            0x30000001 => Some(Status::Canceled),
            0x30000002 => Some(Status::TimedOut),
            0x71000001 => Some(Status::DeviceDisabled),
            0x71000002 => Some(Status::DeviceDisconnected),
            0x72000001 => Some(Status::BitStuff),
            0x72000002 => Some(Status::Crc),
            0x72000003 => Some(Status::NoResponse),
            0x72000004 => Some(Status::Babble),
            0x74000001 => Some(Status::Stall),
            0x72100001 => Some(Status::BufferOverrun),
            0x72100002 => Some(Status::BufferUnderrun),
            0x78000001 => Some(Status::AllIsoPacketsFailed),
            _ => None,
        }
    }

    proof fn lemma_round_trip(&self) {
        codec::lemma_le32(self.code());
    }

    proof fn lemma_canonical(b: Seq<u8>) {
        codec::lemma_le32_canonical(b, 0);
        assert(b.subrange(0, 4) =~= b);
    }
}

/// The setup packet of a control transfer.
#[derive(Debug, Clone, Copy, PartialEq, Eq, Structural)]
pub struct IocSetupPacket {
    pub bm_request_type: u8,
    pub b_request: u8,
    pub w_value: u16,
    pub w_index: u16,
    pub w_length: u16,
}

impl Wire for IocSetupPacket {
    open spec fn wire_len() -> nat {
        8
    }

    open spec fn encoding(&self) -> Seq<u8> {
        seq![self.bm_request_type, self.b_request]
            + codec::le16(self.w_value)
            + codec::le16(self.w_index)
            + codec::le16(self.w_length)
    }

    open spec fn decoding(b: Seq<u8>) -> Option<Self> {
        Some(
            IocSetupPacket {
                bm_request_type: b[0],
                b_request: b[1],
                w_value: codec::u16_at(b, 2),
                w_index: codec::u16_at(b, 4),
                w_length: codec::u16_at(b, 6),
            },
        )
    }

    fn wire_size() -> usize {
        8
    }

    fn as_bytes(&self) -> Vec<u8> {
        let mut v: Vec<u8> = Vec::new();
        v.push(self.bm_request_type);
        v.push(self.b_request);
        push_u16(&mut v, self.w_value);
        push_u16(&mut v, self.w_index);
        push_u16(&mut v, self.w_length);
        assert(v@ =~= self.encoding());
        v
    }

    fn try_read_from_bytes(b: &[u8]) -> Option<Self> {
        Some(
            IocSetupPacket {
                bm_request_type: b[0],
                b_request: b[1],
                w_value: read_u16(b, 2),
                w_index: read_u16(b, 4),
                w_length: read_u16(b, 6),
            },
        )
    }

    proof fn lemma_round_trip(&self) {
        let e = self.encoding();
        assert(codec::u16_at(e, 2) == codec::u16_at(codec::le16(self.w_value), 0));
        codec::lemma_le16(self.w_value);
        assert(codec::u16_at(e, 4) == codec::u16_at(codec::le16(self.w_index), 0));
        codec::lemma_le16(self.w_index);
        assert(codec::u16_at(e, 6) == codec::u16_at(codec::le16(self.w_length), 0));
        codec::lemma_le16(self.w_length);
    }

    proof fn lemma_canonical(b: Seq<u8>) {
        codec::lemma_le16_canonical(b, 2);
        codec::lemma_le16_canonical(b, 4);
        codec::lemma_le16_canonical(b, 6);
        assert(Self::decoding(b)->0.encoding() =~= b);
    }
}

/// Where in a transfer's buffer an isochronous packet lies.
#[derive(Debug, Clone, Copy, PartialEq, Eq, Structural)]
pub struct IocIsoPacketData {
    pub offset: u32,
    pub packet_length: u32,
}

impl Wire for IocIsoPacketData {
    open spec fn wire_len() -> nat {
        8
    }

    open spec fn encoding(&self) -> Seq<u8> {
        codec::le32(self.offset)
            + codec::le32(self.packet_length)
    }

    open spec fn decoding(b: Seq<u8>) -> Option<Self> {
        Some(
            IocIsoPacketData {
                offset: codec::u32_at(b, 0),
                packet_length: codec::u32_at(b, 4),
            },
        )
    }

    fn wire_size() -> usize {
        8
    }

    fn as_bytes(&self) -> Vec<u8> {
        let mut v: Vec<u8> = Vec::new();
        push_u32(&mut v, self.offset);
        push_u32(&mut v, self.packet_length);
        assert(v@ =~= self.encoding());
        v
    }

    fn try_read_from_bytes(b: &[u8]) -> Option<Self> {
        Some(
            IocIsoPacketData {
                offset: read_u32(b, 0),
                packet_length: read_u32(b, 4),
            },
        )
    }

    proof fn lemma_round_trip(&self) {
        let e = self.encoding();
        assert(codec::u32_at(e, 0) == codec::u32_at(codec::le32(self.offset), 0));
        codec::lemma_le32(self.offset);
        assert(codec::u32_at(e, 4) == codec::u32_at(codec::le32(self.packet_length), 0));
        codec::lemma_le32(self.packet_length);
    }

    proof fn lemma_canonical(b: Seq<u8>) {
        codec::lemma_le32_canonical(b, 0);
        codec::lemma_le32_canonical(b, 4);
        assert(Self::decoding(b)->0.encoding() =~= b);
    }
}

/// What became of an isochronous packet.
#[derive(Debug, Clone, Copy, PartialEq, Eq, Structural)]
pub struct IocIsoPacketGiveback {
    pub packet_actual: u32,
    /// Zero, or the error as a negative number.
    pub status: i32,
}

impl Wire for IocIsoPacketGiveback {
    open spec fn wire_len() -> nat {
        8
    }

    open spec fn encoding(&self) -> Seq<u8> {
        codec::le32(self.packet_actual) + codec::le32(codec::bits_of(self.status))
    }

    open spec fn decoding(b: Seq<u8>) -> Option<Self> {
        Some(
            IocIsoPacketGiveback {
                packet_actual: codec::u32_at(b, 0),
                status: codec::of_bits(codec::u32_at(b, 4)),
            },
        )
    }

    fn wire_size() -> usize {
        8
    }

    fn as_bytes(&self) -> Vec<u8> {
        let mut v: Vec<u8> = Vec::new();
        push_u32(&mut v, self.packet_actual);
        push_u32(&mut v, to_bits(self.status));
        assert(v@ =~= self.encoding());
        v
    }

    fn try_read_from_bytes(b: &[u8]) -> Option<Self> {
        Some(
            IocIsoPacketGiveback {
                packet_actual: read_u32(b, 0),
                status: from_bits(read_u32(b, 4)),
            },
        )
    }

    proof fn lemma_round_trip(&self) {
        let e = self.encoding();
        let bits = codec::bits_of(self.status);
        assert(codec::u32_at(e, 0) == codec::u32_at(codec::le32(self.packet_actual), 0));
        codec::lemma_le32(self.packet_actual);
        assert(codec::u32_at(e, 4) == codec::u32_at(codec::le32(bits), 0));
        codec::lemma_le32(bits);
    }

    proof fn lemma_canonical(b: Seq<u8>) {
        codec::lemma_le32_canonical(b, 0);
        codec::lemma_le32_canonical(b, 4);
        assert(Self::decoding(b)->0.encoding() =~= b);
    }
}

/// How a transfer on a real device ended.
#[derive(Debug, Clone, Copy, PartialEq, Eq, Structural)]
pub enum TransferStatus {
    Completed,
    Error,
    TimedOut,
    Cancelled,
    Stall,
    NoDevice,
    Overflow,
}

impl TransferStatus {
    /// What the end of a transfer is to a virtual host controller.
    pub open spec fn to_vhci(self) -> Status {
        match self {
            TransferStatus::Completed => Status::Success,
            TransferStatus::Error => Status::Error,
            TransferStatus::TimedOut => Status::TimedOut,
            TransferStatus::Cancelled => Status::Canceled,
            TransferStatus::Stall => Status::Stall,
            TransferStatus::NoDevice => Status::DeviceDisconnected,
            TransferStatus::Overflow => Status::Babble,
        }
    }
}

/// What the end of a transfer is to a virtual host controller: a success just where the device
/// completed the transfer, and otherwise the failure of the same name.
pub fn vhci_from_transfer_status(status: TransferStatus) -> (s: Status)
    ensures
        s == status.to_vhci(),
        s == Status::Success <==> status == TransferStatus::Completed,
        s == Status::Error <==> status == TransferStatus::Error,
        s == Status::TimedOut <==> status == TransferStatus::TimedOut,
        s == Status::Canceled <==> status == TransferStatus::Cancelled,
        s == Status::Stall <==> status == TransferStatus::Stall,
        s == Status::DeviceDisconnected <==> status == TransferStatus::NoDevice,
        s == Status::Babble <==> status == TransferStatus::Overflow,
{
    match status {
        TransferStatus::Completed => Status::Success,
        TransferStatus::Error => Status::Error,
        TransferStatus::TimedOut => Status::TimedOut,
        TransferStatus::Cancelled => Status::Canceled,
        TransferStatus::Stall => Status::Stall,
        TransferStatus::NoDevice => Status::DeviceDisconnected,
        TransferStatus::Overflow => Status::Babble,
    }
}

/// Why a call to the USB library of the operating system failed.
#[derive(Debug, Clone, Copy, PartialEq, Eq, Structural)]
pub enum RusbError {
    Io,
    InvalidParam,
    Access,
    NoDevice,
    NotFound,
    Busy,
    Timeout,
    Overflow,
    Pipe,
    Interrupted,
    NoMem,
    NotSupported,
    BadDescriptor,
    Other,
}

/// What became of a transfer that was submitted, to a virtual host controller. `from_errno` is
/// what the operating system's last error is to it.
///
/// A transfer is never submitted again while it is under way, and never with flags.
pub fn convert_libusb_to_vhci(
    status: Result<TransferStatus, RusbError>,
    from_errno: Status,
) -> (s: Status)
    requires
        status != Err::<TransferStatus, RusbError>(RusbError::Busy),
        status != Err::<TransferStatus, RusbError>(RusbError::NotSupported),
    ensures
        s == (match status {
            Ok(status) => status.to_vhci(),
            Err(RusbError::InvalidParam) => Status::Stall,
            Err(RusbError::NoDevice) => Status::DeviceDisconnected,
            Err(_) => from_errno,
        }),
        status is Ok ==> (s == Status::Success <==> status->Ok_0 == TransferStatus::Completed),
        status is Ok ==> (s == Status::Error <==> status->Ok_0 == TransferStatus::Error),
        status is Ok ==> (s == Status::TimedOut <==> status->Ok_0 == TransferStatus::TimedOut),
        status is Ok ==> (s == Status::Canceled <==> status->Ok_0 == TransferStatus::Cancelled),
        status is Ok ==> (s == Status::Stall <==> status->Ok_0 == TransferStatus::Stall),
        status is Ok ==> (s == Status::DeviceDisconnected <==> status->Ok_0
            == TransferStatus::NoDevice),
        status is Ok ==> (s == Status::Babble <==> status->Ok_0 == TransferStatus::Overflow),
        status is Err && from_errno != Status::Success ==> s != Status::Success,
{
    match status {
        Ok(status) => vhci_from_transfer_status(status),
        Err(RusbError::InvalidParam) => Status::Stall,
        Err(RusbError::NoDevice) => Status::DeviceDisconnected,
        Err(_) => from_errno,
    }
}

/// A transfer is told as a success just where the device completed it, every other end of one has a
/// status of its own, and none is told as still pending.
pub proof fn law_transfer_ends_are_told(t: TransferStatus, other: TransferStatus)
    ensures
        t.to_vhci() == Status::Success <==> t == TransferStatus::Completed,
        t.to_vhci() == Status::Error <==> t == TransferStatus::Error,
        t.to_vhci() == Status::TimedOut <==> t == TransferStatus::TimedOut,
        t.to_vhci() == Status::Canceled <==> t == TransferStatus::Cancelled,
        t.to_vhci() == Status::Stall <==> t == TransferStatus::Stall,
        t.to_vhci() == Status::DeviceDisconnected <==> t == TransferStatus::NoDevice,
        t.to_vhci() == Status::Babble <==> t == TransferStatus::Overflow,
        t.to_vhci() != Status::Pending,
        t.to_vhci() == other.to_vhci() <==> t == other,
{
}

/// The name that a virtual host controller has for a request block.
#[derive(Debug, Clone, Copy, PartialEq, Eq, Hash, Structural)]
pub struct UrbHandle(pub u64);

/// A request block of a virtual host controller, but for its data.
#[derive(Debug, Clone, Copy, PartialEq, Eq, Structural)]
pub struct IocUrb {
    pub setup_packet: IocSetupPacket,
    pub buffer_length: i32,
    pub interval: i32,
    pub packet_count: i32,
    pub flags: u16,
    /// The address of the device, zero while it has none.
    pub address: u8,
    pub endpoint: Endpoint,
    pub typ: UrbType,
}

/// The state of a port, as far as it matters here.
#[derive(Debug, Clone, Copy, PartialEq, Eq, Structural)]
pub struct PortStat {
    pub index: u8,
    pub connection: bool,
    pub enable: bool,
    pub reset: bool,
    pub power: bool,
    pub connection_changed: bool,
    pub reset_changed: bool,
    pub resuming: bool,
}

/// What a virtual host controller asks for.
#[derive(Debug, Clone, Copy, PartialEq, Eq, Structural)]
pub enum Work {
    PortStat(PortStat),
    ProcessUrb(IocUrb, UrbHandle),
    CancelUrb(UrbHandle),
}

/// The low sixteen bits of a number.
pub open spec fn low16(x: i32) -> u16 {
    (x as int % 65536) as u16
}

pub fn to_low16(x: i32) -> (r: u16)
    ensures
        r == low16(x),
{
    ((to_bits(x)) % 65536) as u16
}

/// The low sixteen bits differ from the number by a multiple of what sixteen bits can count, and are
/// the number where sixteen bits can hold it.
pub proof fn law_low16(x: i32)
    ensures
        (x - low16(x)) % 65536 == 0,
        0 <= x <= 65535 ==> low16(x) == x,
{
}

} // verus!
