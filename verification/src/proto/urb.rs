//! Isochronous request blocks as they travel on their own.
use crate::codec;
use crate::codec::{from_bits, push_bytes, push_u32, read_u32, read_while, to_bits, Wire};
use vstd::prelude::*;
use vstd::slice::slice_subrange;

verus! {

/// The four bytes of `x`, most significant first.
pub open spec fn be32(x: u32) -> Seq<u8> {
    seq![
        (x / 16777216) as u8,
        (x / 65536 % 256) as u8,
        (x / 256 % 256) as u8,
        (x % 256) as u8,
    ]
}

/// The number that the first four bytes of `b` stand for, most significant first.
pub open spec fn u32_from_be(b: Seq<u8>) -> u32 {
    (16777216 * b[0] + 65536 * b[1] + 256 * b[2] + b[3]) as u32
}

proof fn lemma_be32(b: Seq<u8>)
    requires
        b.len() == 4,
    ensures
        be32(u32_from_be(b)) == b,
{
    let b0 = b[0] as int;
    let b1 = b[1] as int;
    let b2 = b[2] as int;
    let b3 = b[3] as int;
    let x = 16777216 * b0 + 65536 * b1 + 256 * b2 + b3;
    assert(x % 256 == b3);
    assert(x / 256 == 65536 * b0 + 256 * b1 + b2);
    assert(x / 256 % 256 == b2);
    assert(x / 65536 == 256 * b0 + b1);
    assert(x / 65536 % 256 == b1);
    assert(x / 16777216 == b0);
    assert(be32(u32_from_be(b)) =~= b);
}

fn be_bytes(x: u32) -> (v: Vec<u8>)
    ensures
        v@ == be32(x),
{
    let v = vec![
        (x / 16777216) as u8,
        (x / 65536 % 256) as u8,
        (x / 256 % 256) as u8,
        (x % 256) as u8,
    ];
    assert(v@ =~= be32(x));
    v
}

fn read_be(b: &[u8]) -> (x: u32)
    requires
        b@.len() == 4,
    ensures
        x == u32_from_be(b@),
{
    16777216 * b[0] as u32 + 65536 * b[1] as u32 + 256 * b[2] as u32 + b[3] as u32
}

/// A number that travels most significant byte first.
#[derive(Debug, Clone, Copy, PartialEq, Eq, Structural)]
pub struct NetU32(pub u32);

impl Wire for NetU32 {
    open spec fn wire_len() -> nat {
        4
    }

    open spec fn encoding(&self) -> Seq<u8> {
        be32(self.0)
    }

    open spec fn decoding(b: Seq<u8>) -> Option<Self> {
        Some(NetU32(u32_from_be(b)))
    }

    fn wire_size() -> usize {
        4
    }

    fn as_bytes(&self) -> Vec<u8> {
        let v = be_bytes(self.0);
        assert(v@ =~= self.encoding());
        v
    }

    fn try_read_from_bytes(b: &[u8]) -> Option<Self> {
        Some(NetU32(read_be(b)))
    }

    proof fn lemma_round_trip(&self) {
        assert(u32_from_be(be32(self.0)) == self.0);
    }

    proof fn lemma_canonical(b: Seq<u8>) {
        lemma_be32(b);
        assert(Self::decoding(b)->0.encoding() =~= b);
    }
}

/// A signed number that travels most significant byte first.
#[derive(Debug, Clone, Copy, PartialEq, Eq, Structural)]
pub struct NetI32(pub i32);

impl Wire for NetI32 {
    open spec fn wire_len() -> nat {
        4
    }

    open spec fn encoding(&self) -> Seq<u8> {
        be32(codec::bits_of(self.0))
    }

    open spec fn decoding(b: Seq<u8>) -> Option<Self> {
        Some(NetI32(codec::of_bits(u32_from_be(b))))
    }

    fn wire_size() -> usize {
        4
    }

    fn as_bytes(&self) -> Vec<u8> {
        let v = be_bytes(to_bits(self.0));
        assert(v@ =~= self.encoding());
        v
    }

    fn try_read_from_bytes(b: &[u8]) -> Option<Self> {
        Some(NetI32(from_bits(read_be(b))))
    }

    proof fn lemma_round_trip(&self) {
        assert(u32_from_be(be32(codec::bits_of(self.0))) == codec::bits_of(self.0));
    }

    proof fn lemma_canonical(b: Seq<u8>) {
        lemma_be32(b);
        assert(Self::decoding(b)->0.encoding() =~= b);
    }
}

impl Wire for bool {
    open spec fn wire_len() -> nat {
        1
    }

    open spec fn encoding(&self) -> Seq<u8> {
        if *self {
            seq![1u8]
        } else {
            seq![0u8]
        }
    }

    open spec fn decoding(b: Seq<u8>) -> Option<Self> {
        if b[0] == 0 {
            Some(false)
        } else if b[0] == 1 {
            Some(true)
        } else {
            None
        }
    }

    fn wire_size() -> usize {
        1
    }

    fn as_bytes(&self) -> Vec<u8> {
        let v = if *self {
            vec![1u8]
        } else {
            vec![0u8]
        };
        assert(v@ =~= self.encoding());
        v
    }

    fn try_read_from_bytes(b: &[u8]) -> Option<Self> {
        match b[0] {
            0 => Some(false),
            1 => Some(true),
            _ => None,
        }
    }

    proof fn lemma_round_trip(&self) {
    }

    proof fn lemma_canonical(b: Seq<u8>) {
        assert(Self::decoding(b)->0.encoding() =~= b);
    }
}

impl Wire for i8 {
    open spec fn wire_len() -> nat {
        1
    }

    open spec fn encoding(&self) -> Seq<u8> {
        seq![if *self < 0 { (*self + 256) as u8 } else { *self as u8 }]
    }

    open spec fn decoding(b: Seq<u8>) -> Option<Self> {
        Some(if b[0] >= 128 { (b[0] - 256) as i8 } else { b[0] as i8 })
    }

    fn wire_size() -> usize {
        1
    }

    fn as_bytes(&self) -> Vec<u8> {
        let x: u8 = if *self < 0 {
            (*self as i16 + 256) as u8
        } else {
            *self as u8
        };
        let v = vec![x];
        assert(v@ =~= self.encoding());
        v
    }

    fn try_read_from_bytes(b: &[u8]) -> Option<Self> {
        let x: u8 = b[0];
        if x >= 128 {
            Some((x as i16 - 256) as i8)
        } else {
            Some(x as i8)
        }
    }

    proof fn lemma_round_trip(&self) {
    }

    proof fn lemma_canonical(b: Seq<u8>) {
        assert(Self::decoding(b)->0.encoding() =~= b);
    }
}

/// What a frame asks for or answers.
#[derive(Debug, Clone, Copy, PartialEq, Eq, Structural)]
pub enum Command {
    CmdSubmit,
    CmdUnlink,
    RetSubmit,
    RetUnlink,
}

impl Command {
    /// The byte that stands for the value.
    pub open spec fn code(self) -> u8 {
        match self {
            Command::CmdSubmit => 1,
            Command::CmdUnlink => 2,
            Command::RetSubmit => 3,
            Command::RetUnlink => 4,
        }
    }

    /// The value that a byte stands for, if it stands for one.
    pub open spec fn of_code(code: u8) -> Option<Command> {
        if code == 1 {
            Some(Command::CmdSubmit)
        } else if code == 2 {
            Some(Command::CmdUnlink)
        } else if code == 3 {
            Some(Command::RetSubmit)
        } else if code == 4 {
            Some(Command::RetUnlink)
        } else {
            None
        }
    }
}

impl Wire for Command {
    open spec fn wire_len() -> nat {
        1
    }

    open spec fn encoding(&self) -> Seq<u8> {
        seq![self.code()]
    }

    open spec fn decoding(b: Seq<u8>) -> Option<Self> {
        Command::of_code(b[0])
    }

    fn wire_size() -> usize {
        1
    }

    fn as_bytes(&self) -> Vec<u8> {
        let code: u8 = match self {
            Command::CmdSubmit => 1,
            Command::CmdUnlink => 2,
            Command::RetSubmit => 3,
            Command::RetUnlink => 4,
        };
        let v = vec![code];
        assert(v@ =~= self.encoding());
        v
    }

    fn try_read_from_bytes(b: &[u8]) -> Option<Self> {
        match b[0] {
            1 => Some(Command::CmdSubmit),
            2 => Some(Command::CmdUnlink),
            3 => Some(Command::RetSubmit),
            4 => Some(Command::RetUnlink),
            _ => None,
        }
    }

    proof fn lemma_round_trip(&self) {
    }

    proof fn lemma_canonical(b: Seq<u8>) {
        assert(Self::decoding(b)->0.encoding() =~= b);
    }
}

/// The direction of a transfer.
#[derive(Debug, Clone, Copy, PartialEq, Eq, Structural)]
pub enum Dir {
    Out,
    In,
}

impl Dir {
    /// The byte that stands for the value.
    pub open spec fn code(self) -> u8 {
        match self {
            Dir::Out => 0,
            Dir::In => 1,
        }
    }

    /// The value that a byte stands for, if it stands for one.
    pub open spec fn of_code(code: u8) -> Option<Dir> {
        if code == 0 {
            Some(Dir::Out)
        } else if code == 1 {
            Some(Dir::In)
        } else {
            None
        }
    }
}

impl Wire for Dir {
    open spec fn wire_len() -> nat {
        1
    }

    open spec fn encoding(&self) -> Seq<u8> {
        seq![self.code()]
    }

    open spec fn decoding(b: Seq<u8>) -> Option<Self> {
        Dir::of_code(b[0])
    }

    fn wire_size() -> usize {
        1
    }

    fn as_bytes(&self) -> Vec<u8> {
        let code: u8 = match self {
            Dir::Out => 0,
            Dir::In => 1,
        };
        let v = vec![code];
        assert(v@ =~= self.encoding());
        v
    }

    fn try_read_from_bytes(b: &[u8]) -> Option<Self> {
        match b[0] {
            0 => Some(Dir::Out),
            1 => Some(Dir::In),
            _ => None,
        }
    }

    proof fn lemma_round_trip(&self) {
    }

    proof fn lemma_canonical(b: Seq<u8>) {
        assert(Self::decoding(b)->0.encoding() =~= b);
    }
}

/// The header that every frame of this kind begins with.
#[derive(Debug, Clone, Copy, PartialEq, Eq, Structural)]
pub struct BasicHeader {
    pub command: Command,
    pub seqnum: NetU32,
    pub dev_id: NetU32,
    pub direction: Dir,
    pub endpoint: NetI32,
}

impl Wire for BasicHeader {
    open spec fn wire_len() -> nat {
        14
    }

    open spec fn encoding(&self) -> Seq<u8> {
        self.command.encoding()
            + self.seqnum.encoding()
            + self.dev_id.encoding()
            + self.direction.encoding()
            + self.endpoint.encoding()
    }

    open spec fn decoding(b: Seq<u8>) -> Option<Self> {
        match (
            Command::decoding(b.subrange(0, 1)),
            NetU32::decoding(b.subrange(1, 5)),
            NetU32::decoding(b.subrange(5, 9)),
            Dir::decoding(b.subrange(9, 10)),
            NetI32::decoding(b.subrange(10, 14)),
        ) {
            (Some(command), Some(seqnum), Some(dev_id), Some(direction), Some(endpoint)) => Some(
                BasicHeader {
                    command,
                    seqnum,
                    dev_id,
                    direction,
                    endpoint,
                },
            ),
            _ => None,
        }
    }

    fn wire_size() -> usize {
        14
    }

    fn as_bytes(&self) -> Vec<u8> {
        let mut v: Vec<u8> = Vec::new();
        push_bytes(&mut v, self.command.as_bytes().as_slice());
        push_bytes(&mut v, self.seqnum.as_bytes().as_slice());
        push_bytes(&mut v, self.dev_id.as_bytes().as_slice());
        push_bytes(&mut v, self.direction.as_bytes().as_slice());
        push_bytes(&mut v, self.endpoint.as_bytes().as_slice());
        assert(v@ =~= self.encoding());
        v
    }

    fn try_read_from_bytes(b: &[u8]) -> Option<Self> {
        let command = match Command::try_read_from_bytes(slice_subrange(b, 0, 1)) {
            Some(command) => command,
            None => return None,
        };
        let seqnum = match NetU32::try_read_from_bytes(slice_subrange(b, 1, 5)) {
            Some(seqnum) => seqnum,
            None => return None,
        };
        let dev_id = match NetU32::try_read_from_bytes(slice_subrange(b, 5, 9)) {
            Some(dev_id) => dev_id,
            None => return None,
        };
        let direction = match Dir::try_read_from_bytes(slice_subrange(b, 9, 10)) {
            Some(direction) => direction,
            None => return None,
        };
        let endpoint = match NetI32::try_read_from_bytes(slice_subrange(b, 10, 14)) {
            Some(endpoint) => endpoint,
            None => return None,
        };
        Some(
            BasicHeader {
                command,
                seqnum,
                dev_id,
                direction,
                endpoint,
            },
        )
    }

    proof fn lemma_round_trip(&self) {
        let e = self.encoding();
        self.command.lemma_round_trip();
        self.seqnum.lemma_round_trip();
        self.dev_id.lemma_round_trip();
        self.direction.lemma_round_trip();
        self.endpoint.lemma_round_trip();
        assert(e.subrange(0, 1) =~= self.command.encoding());
        assert(e.subrange(1, 5) =~= self.seqnum.encoding());
        assert(e.subrange(5, 9) =~= self.dev_id.encoding());
        assert(e.subrange(9, 10) =~= self.direction.encoding());
        assert(e.subrange(10, 14) =~= self.endpoint.encoding());
    }

    proof fn lemma_canonical(b: Seq<u8>) {
        Command::lemma_canonical(b.subrange(0, 1));
        NetU32::lemma_canonical(b.subrange(1, 5));
        NetU32::lemma_canonical(b.subrange(5, 9));
        Dir::lemma_canonical(b.subrange(9, 10));
        NetI32::lemma_canonical(b.subrange(10, 14));
        assert(Self::decoding(b)->0.encoding() =~= b);
    }
}

/// What became of an isochronous packet.
#[derive(Debug, Clone, Copy, PartialEq, Eq, Structural)]
pub enum IsoStatus {
    Success,
    Pending,
    ShortPacket,
    Error,
    Canceled,
    TimedOut,
    DeviceDisabled,
    DeviceDisconnected,
    BitStuff,
    Crc,
    NoResponse,
    Babble,
    Stall,
    BufferOverrun,
    BufferUnderrun,
    AllIsoPacketsFailed,
}

impl IsoStatus {
    /// The number that stands for the status.
    pub open spec fn code(self) -> u32 {
        match self {
            IsoStatus::Success => 0x00000000,
            IsoStatus::Pending => 0x10000001,
            IsoStatus::ShortPacket => 0x10000002,
            IsoStatus::Error => 0x7ff00000,
            IsoStatus::Canceled => 0x30000001,
            IsoStatus::TimedOut => 0x30000002,
            IsoStatus::DeviceDisabled => 0x71000001,
            IsoStatus::DeviceDisconnected => 0x71000002,
            IsoStatus::BitStuff => 0x72000001,
            IsoStatus::Crc => 0x72000002,
            IsoStatus::NoResponse => 0x72000003,
            IsoStatus::Babble => 0x72000004,
            IsoStatus::Stall => 0x74000001,
            IsoStatus::BufferOverrun => 0x72100001,
            IsoStatus::BufferUnderrun => 0x72100002,
            IsoStatus::AllIsoPacketsFailed => 0x78000001,
        }
    }

    /// The status that a number stands for, if it stands for one.
    pub open spec fn of_code(code: u32) -> Option<IsoStatus> {
        if code == 0x00000000 {
            Some(IsoStatus::Success)
        } else if code == 0x10000001 {
            Some(IsoStatus::Pending)
        } else if code == 0x10000002 {
            Some(IsoStatus::ShortPacket)
        } else if code == 0x7ff00000 {
            Some(IsoStatus::Error)
        } else if code == 0x30000001 {
            Some(IsoStatus::Canceled)
        } else if code == 0x30000002 {
            Some(IsoStatus::TimedOut)
        } else if code == 0x71000001 {
            Some(IsoStatus::DeviceDisabled)
        } else if code == 0x71000002 {
            Some(IsoStatus::DeviceDisconnected)
        } else if code == 0x72000001 {
            Some(IsoStatus::BitStuff)
        } else if code == 0x72000002 {
            Some(IsoStatus::Crc)
        } else if code == 0x72000003 {
            Some(IsoStatus::NoResponse)
        } else if code == 0x72000004 {
            Some(IsoStatus::Babble)
        } else if code == 0x74000001 {
            Some(IsoStatus::Stall)
        } else if code == 0x72100001 {
            Some(IsoStatus::BufferOverrun)
        } else if code == 0x72100002 {
            Some(IsoStatus::BufferUnderrun)
        } else if code == 0x78000001 {
            Some(IsoStatus::AllIsoPacketsFailed)
        } else {
            None
        }
    }
}

impl Wire for IsoStatus {
    open spec fn wire_len() -> nat {
        4
    }

    open spec fn encoding(&self) -> Seq<u8> {
        codec::le32(self.code())
    }

    open spec fn decoding(b: Seq<u8>) -> Option<Self> {
        IsoStatus::of_code(codec::u32_at(b, 0))
    }

    fn wire_size() -> usize {
        4
    }

    fn as_bytes(&self) -> Vec<u8> {
        let code: u32 = match self {
            IsoStatus::Success => 0x00000000,
            IsoStatus::Pending => 0x10000001,
            IsoStatus::ShortPacket => 0x10000002,
            IsoStatus::Error => 0x7ff00000,
            IsoStatus::Canceled => 0x30000001,
            IsoStatus::TimedOut => 0x30000002,
            IsoStatus::DeviceDisabled => 0x71000001,
            IsoStatus::DeviceDisconnected => 0x71000002,
            IsoStatus::BitStuff => 0x72000001,
            IsoStatus::Crc => 0x72000002,
            IsoStatus::NoResponse => 0x72000003,
            IsoStatus::Babble => 0x72000004,
            IsoStatus::Stall => 0x74000001,
            IsoStatus::BufferOverrun => 0x72100001,
            IsoStatus::BufferUnderrun => 0x72100002,
            IsoStatus::AllIsoPacketsFailed => 0x78000001,
        };
        let mut v: Vec<u8> = Vec::new();
        push_u32(&mut v, code);
        assert(v@ =~= self.encoding());
        v
    }

    fn try_read_from_bytes(b: &[u8]) -> Option<Self> {
        match read_u32(b, 0) {
            0x00000000 => Some(IsoStatus::Success),
            0x10000001 => Some(IsoStatus::Pending),
            0x10000002 => Some(IsoStatus::ShortPacket),
            0x7ff00000 => Some(IsoStatus::Error),
            0x30000001 => Some(IsoStatus::Canceled),
            0x30000002 => Some(IsoStatus::TimedOut),
            0x71000001 => Some(IsoStatus::DeviceDisabled),
            0x71000002 => Some(IsoStatus::DeviceDisconnected),
            0x72000001 => Some(IsoStatus::BitStuff),
            0x72000002 => Some(IsoStatus::Crc),
            0x72000003 => Some(IsoStatus::NoResponse),
            0x72000004 => Some(IsoStatus::Babble),
            0x74000001 => Some(IsoStatus::Stall),
            0x72100001 => Some(IsoStatus::BufferOverrun),
            0x72100002 => Some(IsoStatus::BufferUnderrun),
            0x78000001 => Some(IsoStatus::AllIsoPacketsFailed),
            _ => None,
        }
    }

    proof fn lemma_round_trip(&self) {
        codec::lemma_le32(self.code());
    }

    proof fn lemma_canonical(b: Seq<u8>) {
        codec::lemma_le32_canonical(b, 0);
        assert(b.subrange(0, 4) =~= b);
    }
}

/// One packet of an isochronous transfer.
#[derive(Debug, Clone, Copy, PartialEq, Eq, Structural)]
pub struct IsoPacketDescriptor {
    pub offset: NetU32,
    pub length: NetU32,
    pub actual_length: NetU32,
    pub status: IsoStatus,
}

impl Wire for IsoPacketDescriptor {
    open spec fn wire_len() -> nat {
        16
    }

    open spec fn encoding(&self) -> Seq<u8> {
        self.offset.encoding()
            + self.length.encoding()
            + self.actual_length.encoding()
            + self.status.encoding()
    }

    open spec fn decoding(b: Seq<u8>) -> Option<Self> {
        match (
            NetU32::decoding(b.subrange(0, 4)),
            NetU32::decoding(b.subrange(4, 8)),
            NetU32::decoding(b.subrange(8, 12)),
            IsoStatus::decoding(b.subrange(12, 16)),
        ) {
            (Some(offset), Some(length), Some(actual_length), Some(status)) => Some(
                IsoPacketDescriptor {
                    offset,
                    length,
                    actual_length,
                    status,
                },
            ),
            _ => None,
        }
    }

    fn wire_size() -> usize {
        16
    }

    fn as_bytes(&self) -> Vec<u8> {
        let mut v: Vec<u8> = Vec::new();
        push_bytes(&mut v, self.offset.as_bytes().as_slice());
        push_bytes(&mut v, self.length.as_bytes().as_slice());
        push_bytes(&mut v, self.actual_length.as_bytes().as_slice());
        push_bytes(&mut v, self.status.as_bytes().as_slice());
        assert(v@ =~= self.encoding());
        v
    }

    fn try_read_from_bytes(b: &[u8]) -> Option<Self> {
        let offset = match NetU32::try_read_from_bytes(slice_subrange(b, 0, 4)) {
            Some(offset) => offset,
            None => return None,
        };
        let length = match NetU32::try_read_from_bytes(slice_subrange(b, 4, 8)) {
            Some(length) => length,
            None => return None,
        };
        let actual_length = match NetU32::try_read_from_bytes(slice_subrange(b, 8, 12)) {
            Some(actual_length) => actual_length,
            None => return None,
        };
        let status = match IsoStatus::try_read_from_bytes(slice_subrange(b, 12, 16)) {
            Some(status) => status,
            None => return None,
        };
        Some(
            IsoPacketDescriptor {
                offset,
                length,
                actual_length,
                status,
            },
        )
    }

    proof fn lemma_round_trip(&self) {
        let e = self.encoding();
        self.offset.lemma_round_trip();
        self.length.lemma_round_trip();
        self.actual_length.lemma_round_trip();
        self.status.lemma_round_trip();
        assert(e.subrange(0, 4) =~= self.offset.encoding());
        assert(e.subrange(4, 8) =~= self.length.encoding());
        assert(e.subrange(8, 12) =~= self.actual_length.encoding());
        assert(e.subrange(12, 16) =~= self.status.encoding());
    }

    proof fn lemma_canonical(b: Seq<u8>) {
        NetU32::lemma_canonical(b.subrange(0, 4));
        NetU32::lemma_canonical(b.subrange(4, 8));
        NetU32::lemma_canonical(b.subrange(8, 12));
        IsoStatus::lemma_canonical(b.subrange(12, 16));
        assert(Self::decoding(b)->0.encoding() =~= b);
    }
}

impl Default for IsoPacketDescriptor {
    fn default() -> (d: Self)
        ensures
            d.offset == NetU32(0),
            d.length == NetU32(0),
            d.actual_length == NetU32(0),
            d.status == IsoStatus::Success,
    {
        Self {
            offset: NetU32(0),
            length: NetU32(0),
            actual_length: NetU32(0),
            status: IsoStatus::Success,
        }
    }
}

/// An isochronous request block, but for its packets.
#[derive(Debug, Clone, Copy, PartialEq, Eq, Structural)]
pub struct IsoUrbWithoutPackets {
    pub dev_id: NetU32,
    pub direction: Dir,
    pub endpoint: NetI32,
    pub is_asap: bool,
    pub start_frame: NetI32,
    pub interval: NetI32,
    pub error_count: NetI32,
    pub num_packets: i8,
}

impl Wire for IsoUrbWithoutPackets {
    open spec fn wire_len() -> nat {
        23
    }

    open spec fn encoding(&self) -> Seq<u8> {
        self.dev_id.encoding()
            + self.direction.encoding()
            + self.endpoint.encoding()
            + self.is_asap.encoding()
            + self.start_frame.encoding()
            + self.interval.encoding()
            + self.error_count.encoding()
            + self.num_packets.encoding()
    }

    open spec fn decoding(b: Seq<u8>) -> Option<Self> {
        match (
            NetU32::decoding(b.subrange(0, 4)),
            Dir::decoding(b.subrange(4, 5)),
            NetI32::decoding(b.subrange(5, 9)),
            bool::decoding(b.subrange(9, 10)),
            NetI32::decoding(b.subrange(10, 14)),
            NetI32::decoding(b.subrange(14, 18)),
            NetI32::decoding(b.subrange(18, 22)),
            i8::decoding(b.subrange(22, 23)),
        ) {
            (
                Some(dev_id),
                Some(direction),
                Some(endpoint),
                Some(is_asap),
                Some(start_frame),
                Some(interval),
                Some(error_count),
                Some(num_packets),
            ) => Some(
                IsoUrbWithoutPackets {
                    dev_id,
                    direction,
                    endpoint,
                    is_asap,
                    start_frame,
                    interval,
                    error_count,
                    num_packets,
                },
            ),
            _ => None,
        }
    }

    fn wire_size() -> usize {
        23
    }

    fn as_bytes(&self) -> Vec<u8> {
        let mut v: Vec<u8> = Vec::new();
        push_bytes(&mut v, self.dev_id.as_bytes().as_slice());
        push_bytes(&mut v, self.direction.as_bytes().as_slice());
        push_bytes(&mut v, self.endpoint.as_bytes().as_slice());
        push_bytes(&mut v, self.is_asap.as_bytes().as_slice());
        push_bytes(&mut v, self.start_frame.as_bytes().as_slice());
        push_bytes(&mut v, self.interval.as_bytes().as_slice());
        push_bytes(&mut v, self.error_count.as_bytes().as_slice());
        push_bytes(&mut v, self.num_packets.as_bytes().as_slice());
        assert(v@ =~= self.encoding());
        v
    }

    fn try_read_from_bytes(b: &[u8]) -> Option<Self> {
        let dev_id = match NetU32::try_read_from_bytes(slice_subrange(b, 0, 4)) {
            Some(dev_id) => dev_id,
            None => return None,
        };
        let direction = match Dir::try_read_from_bytes(slice_subrange(b, 4, 5)) {
            Some(direction) => direction,
            None => return None,
        };
        let endpoint = match NetI32::try_read_from_bytes(slice_subrange(b, 5, 9)) {
            Some(endpoint) => endpoint,
            None => return None,
        };
        let is_asap = match bool::try_read_from_bytes(slice_subrange(b, 9, 10)) {
            Some(is_asap) => is_asap,
            None => return None,
        };
        let start_frame = match NetI32::try_read_from_bytes(slice_subrange(b, 10, 14)) {
            Some(start_frame) => start_frame,
            None => return None,
        };
        let interval = match NetI32::try_read_from_bytes(slice_subrange(b, 14, 18)) {
            Some(interval) => interval,
            None => return None,
        };
        let error_count = match NetI32::try_read_from_bytes(slice_subrange(b, 18, 22)) {
            Some(error_count) => error_count,
            None => return None,
        };
        let num_packets = match i8::try_read_from_bytes(slice_subrange(b, 22, 23)) {
            Some(num_packets) => num_packets,
            None => return None,
        };
        Some(
            IsoUrbWithoutPackets {
                dev_id,
                direction,
                endpoint,
                is_asap,
                start_frame,
                interval,
                error_count,
                num_packets,
            },
        )
    }

    proof fn lemma_round_trip(&self) {
        let e = self.encoding();
        self.dev_id.lemma_round_trip();
        self.direction.lemma_round_trip();
        self.endpoint.lemma_round_trip();
        self.is_asap.lemma_round_trip();
        self.start_frame.lemma_round_trip();
        self.interval.lemma_round_trip();
        self.error_count.lemma_round_trip();
        self.num_packets.lemma_round_trip();
        assert(e.subrange(0, 4) =~= self.dev_id.encoding());
        assert(e.subrange(4, 5) =~= self.direction.encoding());
        assert(e.subrange(5, 9) =~= self.endpoint.encoding());
        assert(e.subrange(9, 10) =~= self.is_asap.encoding());
        assert(e.subrange(10, 14) =~= self.start_frame.encoding());
        assert(e.subrange(14, 18) =~= self.interval.encoding());
        assert(e.subrange(18, 22) =~= self.error_count.encoding());
        assert(e.subrange(22, 23) =~= self.num_packets.encoding());
    }

    proof fn lemma_canonical(b: Seq<u8>) {
        NetU32::lemma_canonical(b.subrange(0, 4));
        Dir::lemma_canonical(b.subrange(4, 5));
        NetI32::lemma_canonical(b.subrange(5, 9));
        bool::lemma_canonical(b.subrange(9, 10));
        NetI32::lemma_canonical(b.subrange(10, 14));
        NetI32::lemma_canonical(b.subrange(14, 18));
        NetI32::lemma_canonical(b.subrange(18, 22));
        i8::lemma_canonical(b.subrange(22, 23));
        assert(Self::decoding(b)->0.encoding() =~= b);
    }
}

/// An isochronous request block on its way out: the block's bytes, then those of its packets,
/// each handed out as one chunk.
pub struct IsoUrbSend {
    cursor: usize,
    iso_urb: Vec<u8>,
    packets: Vec<u8>,
}

/// The bytes of a request block and its packets.
pub open spec fn iso_urb_bytes(
    iso_urb: IsoUrbWithoutPackets,
    packets: Seq<IsoPacketDescriptor>,
) -> Seq<u8> {
    iso_urb.encoding() + codec::encode_all(packets)
}

impl IsoUrbSend {
    /// The bytes of the whole, those that were handed out already with them.
    pub closed spec fn whole(&self) -> Seq<u8> {
        self.iso_urb@ + self.packets@
    }

    /// The number of bytes that were handed out.
    pub closed spec fn pos(&self) -> nat {
        self.cursor as nat
    }

    /// Where the packets begin.
    pub closed spec fn seam(&self) -> nat {
        self.iso_urb@.len()
    }

    pub closed spec fn wf(&self) -> bool {
        &&& self.cursor <= self.iso_urb@.len() + self.packets@.len() <= usize::MAX
    }

    /// The bytes that are still to be handed out.
    pub open spec fn rest(&self) -> Seq<u8> {
        self.whole().skip(self.pos() as int)
    }

    /// The bytes that are handed out next: what is left of the block, or else of the packets.
    pub open spec fn next_chunk(&self) -> Seq<u8> {
        if self.pos() < self.seam() {
            self.whole().subrange(self.pos() as int, self.seam() as int)
        } else {
            self.rest()
        }
    }

    /// Puts a block and its packets together; `None` where the block tells another number of
    /// packets.
    pub fn new(iso_urb: &IsoUrbWithoutPackets, packets: &[IsoPacketDescriptor]) -> (r: Option<Self>)
        ensures
            r is Some <==> iso_urb.num_packets == packets@.len(),
            r matches Some(s) ==> s.wf() && s.pos() == 0 && s.seam() == 23 && s.whole()
                == iso_urb_bytes(*iso_urb, packets@),
    {
        if iso_urb.num_packets < 0 || iso_urb.num_packets as usize != packets.len() {
            return None;
        }
        let head = iso_urb.as_bytes();
        let tail = codec::write_all(packets);
        proof {
            iso_urb.lemma_round_trip();
            codec::lemma_encode_all_len(packets@);
            assert(packets@.len() * 16 <= 127 * 16);
        }
        Some(Self { cursor: 0, iso_urb: head, packets: tail })
    }

    pub fn remaining(&self) -> (n: usize)
        requires
            self.wf(),
        ensures
            n == self.rest().len(),
    {
        self.iso_urb.len() + self.packets.len() - self.cursor
    }

    pub fn has_remaining(&self) -> (b: bool)
        requires
            self.wf(),
        ensures
            b <==> self.rest().len() > 0,
    {
        self.remaining() > 0
    }

    /// The next bytes: what is left of the block, or else of the packets.
    pub fn chunk(&self) -> (c: &[u8])
        requires
            self.wf(),
        ensures
            c@ == self.next_chunk(),
    {
        let n: usize = self.iso_urb.len();
        if self.cursor < n {
            let c = slice_subrange(self.iso_urb.as_slice(), self.cursor, n);
            assert(c@ =~= self.whole().subrange(self.pos() as int, self.seam() as int));
            c
        } else {
            let c = slice_subrange(self.packets.as_slice(), self.cursor - n, self.packets.len());
            assert(c@ =~= self.rest());
            c
        }
    }

    /// Takes note that the next `cnt` bytes were handed out.
    pub fn advance(&mut self, cnt: usize)
        requires
            old(self).wf(),
            cnt <= old(self).rest().len(),
        ensures
            final(self).wf(),
            final(self).whole() == old(self).whole(),
            final(self).seam() == old(self).seam(),
            final(self).pos() == old(self).pos() + cnt,
            final(self).rest() == old(self).rest().skip(cnt as int),
    {
        self.cursor = self.cursor + cnt;
        assert(self.rest() =~= old(self).rest().skip(cnt as int));
    }
}

/// Tells whether bytes are those of a block and a whole number of packets.
pub open spec fn is_iso_urb(b: Seq<u8>) -> bool {
    &&& b.len() >= 23
    &&& IsoUrbWithoutPackets::decoding(b.take(23)) is Some
    &&& codec::decode_while::<IsoPacketDescriptor>(b.skip(23)).len() * 16 == b.len() - 23
}

/// An isochronous request block that was received.
pub struct IsoUrbRecv {
    pub urb: IsoUrbWithoutPackets,
    pub packets: Vec<IsoPacketDescriptor>,
}

impl IsoUrbRecv {
    /// Reads a block and as many packets as follow it; `None` where the bytes are not those of
    /// a block and a whole number of packets.
    pub fn try_from_bytes(b: &[u8]) -> (r: Option<Self>)
        ensures
            r is Some <==> is_iso_urb(b@),
            r matches Some(x) ==> Some(x.urb) == IsoUrbWithoutPackets::decoding(b@.take(23))
                && x.packets@ == codec::decode_while::<IsoPacketDescriptor>(b@.skip(23)),
    {
        let n: usize = b.len();
        if n < 23 {
            return None;
        }
        let head = slice_subrange(b, 0, 23);
        let tail = slice_subrange(b, 23, n);
        assert(head@ =~= b@.take(23));
        assert(tail@ =~= b@.skip(23));
        let urb = match IsoUrbWithoutPackets::try_read_from_bytes(head) {
            Some(urb) => urb,
            None => return None,
        };
        let packets = read_while::<IsoPacketDescriptor>(tail);
        if (n - 23) % 16 == 0 && packets.len() == (n - 23) / 16 {
            Some(Self { urb, packets })
        } else {
            None
        }
    }
}

/// What is sent for a block and its packets is read back as that block and those packets.
pub proof fn law_iso_urb_round_trip(
    iso_urb: IsoUrbWithoutPackets,
    packets: Seq<IsoPacketDescriptor>,
)
    ensures
        is_iso_urb(iso_urb_bytes(iso_urb, packets)),
        IsoUrbWithoutPackets::decoding(iso_urb_bytes(iso_urb, packets).take(23)) == Some(iso_urb),
        codec::decode_while::<IsoPacketDescriptor>(iso_urb_bytes(iso_urb, packets).skip(23))
            == packets,
{
    let b = iso_urb_bytes(iso_urb, packets);
    iso_urb.lemma_round_trip();
    codec::lemma_encode_all_len(packets);
    assert(b.take(23) =~= iso_urb.encoding());
    assert(b.skip(23) =~= codec::encode_all(packets) + Seq::<u8>::empty());
    codec::lemma_decode_all(packets, Seq::<u8>::empty());
}

/// The chunks that are handed out, put one after the other, are the bytes of the whole: a chunk
/// is never empty while bytes are left, and taking it leaves what follows it.
pub proof fn law_chunks_join(s: IsoUrbSend)
    requires
        s.wf(),
    ensures
        s.rest().len() > 0 ==> s.next_chunk().len() > 0,
        s.rest() == s.next_chunk() + s.rest().skip(s.next_chunk().len() as int),
{
    assert(s.rest() =~= s.next_chunk() + s.rest().skip(s.next_chunk().len() as int));
}

} // verus!
