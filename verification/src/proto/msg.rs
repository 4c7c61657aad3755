//! The messages that peers exchange.
//!
//! A client peer opens a stream with a request frame, which starts with its version. The server
//! peer answers with a response, or with a failure where the versions do not go together. On a
//! stream that carries a device, frames go both ways, each with a header that holds its length.
//!
//! All numbers are little-endian, and every frame takes a multiple of eight bytes.
use crate::codec;
use crate::codec::{
    push_bytes, push_u16, push_u32, read_array, read_u16, read_u32, try_read_from_prefix, Wire,
};
use crate::proto;
use crate::proto::{qusb_ver, GetSliceLen, GetSliceLenErr};
use crate::usb;
use crate::usb::{Dir, Endpoint, IocSetupPacket, UrbType};
use crate::utils::align_to_usize;
use vstd::prelude::*;
use vstd::slice::slice_subrange;
use zerocopy::little_endian::U16;
use zerocopy::FromBytes;

verus! {

pub const BUS_ID_MAX_LEN: u8 = 32;

pub const PATH_MAX_LEN: u16 = 256;

/// The version of the protocol that a peer speaks.
#[derive(Debug, Clone, Copy, PartialEq, Eq, Structural)]
pub struct Version {
    pub major: u8,
    pub minor: u8,
    pub patch: u16,
}

impl Wire for Version {
    open spec fn wire_len() -> nat {
        4
    }

    open spec fn encoding(&self) -> Seq<u8> {
        seq![self.major, self.minor]
            + codec::le16(self.patch)
    }

    open spec fn decoding(b: Seq<u8>) -> Option<Self> {
        Some(
            Version {
                major: b[0],
                minor: b[1],
                patch: codec::u16_at(b, 2),
            },
        )
    }

    fn wire_size() -> usize {
        4
    }

    fn as_bytes(&self) -> Vec<u8> {
        let mut v: Vec<u8> = Vec::new();
        v.push(self.major);
        v.push(self.minor);
        push_u16(&mut v, self.patch);
        assert(v@ =~= self.encoding());
        v
    }

    fn try_read_from_bytes(b: &[u8]) -> Option<Self> {
        Some(
            Version {
                major: b[0],
                minor: b[1],
                patch: read_u16(b, 2),
            },
        )
    }

    proof fn lemma_round_trip(&self) {
        let e = self.encoding();
        assert(codec::u16_at(e, 2) == codec::u16_at(codec::le16(self.patch), 0));
        codec::lemma_le16(self.patch);
    }

    proof fn lemma_canonical(b: Seq<u8>) {
        codec::lemma_le16_canonical(b, 2);
        assert(Self::decoding(b)->0.encoding() =~= b);
    }
}

impl Version {
    /// Versions go together when they differ at most in the patch number.
    pub fn is_compat(&self, other: &Self) -> (b: bool)
        ensures
            b <==> self.major == other.major && self.minor == other.minor,
    {
        self.major == other.major && self.minor == other.minor
    }
}

/// What became of a request.
#[derive(Debug, Clone, Copy, PartialEq, Eq, Structural)]
pub enum Status {
    Success,
    Failed,
    DevBusy,
    DevErr,
    NoDev,
    Unexpected,
    VersionMismatch,
    Timeout,
    Proto,
}

impl Status {
    /// The byte that stands for the value.
    pub open spec fn code(self) -> u8 {
        match self {
            Status::Success => 0,
            Status::Failed => 1,
            Status::DevBusy => 2,
            Status::DevErr => 3,
            Status::NoDev => 4,
            Status::Unexpected => 5,
            Status::VersionMismatch => 6,
            Status::Timeout => 7,
            Status::Proto => 8,
        }
    }

    /// The value that a byte stands for, if it stands for one.
    pub open spec fn of_code(code: u8) -> Option<Status> {
        if code == 0 {
            Some(Status::Success)
        } else if code == 1 {
            Some(Status::Failed)
        } else if code == 2 {
            Some(Status::DevBusy)
        } else if code == 3 {
            Some(Status::DevErr)
        } else if code == 4 {
            Some(Status::NoDev)
        } else if code == 5 {
            Some(Status::Unexpected)
        } else if code == 6 {
            Some(Status::VersionMismatch)
        } else if code == 7 {
            Some(Status::Timeout)
        } else if code == 8 {
            Some(Status::Proto)
        } else {
            None
        }
    }
}

impl Wire for Status {
    open spec fn wire_len() -> nat {
        1
    }

    open spec fn encoding(&self) -> Seq<u8> {
        seq![self.code()]
    }

    open spec fn decoding(b: Seq<u8>) -> Option<Self> {
        Status::of_code(b[0])
    }

    fn wire_size() -> usize {
        1
    }

    fn as_bytes(&self) -> Vec<u8> {
        let code: u8 = match self {
            Status::Success => 0,
            Status::Failed => 1,
            Status::DevBusy => 2,
            Status::DevErr => 3,
            Status::NoDev => 4,
            Status::Unexpected => 5,
            Status::VersionMismatch => 6,
            Status::Timeout => 7,
            Status::Proto => 8,
        };
        let v = vec![code];
        assert(v@ =~= self.encoding());
        v
    }

    fn try_read_from_bytes(b: &[u8]) -> Option<Self> {
        match b[0] {
            0 => Some(Status::Success),
            1 => Some(Status::Failed),
            2 => Some(Status::DevBusy),
            3 => Some(Status::DevErr),
            4 => Some(Status::NoDev),
            5 => Some(Status::Unexpected),
            6 => Some(Status::VersionMismatch),
            7 => Some(Status::Timeout),
            8 => Some(Status::Proto),
            _ => None,
        }
    }

    proof fn lemma_round_trip(&self) {
    }

    proof fn lemma_canonical(b: Seq<u8>) {
        assert(Self::decoding(b)->0.encoding() =~= b);
    }
}

/// Where a device is attached at the peer that has it.
#[derive(Debug, Clone, Copy, PartialEq, Eq, Hash, Structural)]
pub struct UsbDeviceId {
    pub bus_number: u8,
    pub device_addr: u8,
}

impl Wire for UsbDeviceId {
    open spec fn wire_len() -> nat {
        2
    }

    open spec fn encoding(&self) -> Seq<u8> {
        seq![self.bus_number, self.device_addr]
    }

    open spec fn decoding(b: Seq<u8>) -> Option<Self> {
        Some(
            UsbDeviceId {
                bus_number: b[0],
                device_addr: b[1],
            },
        )
    }

    fn wire_size() -> usize {
        2
    }

    fn as_bytes(&self) -> Vec<u8> {
        let mut v: Vec<u8> = Vec::new();
        v.push(self.bus_number);
        v.push(self.device_addr);
        assert(v@ =~= self.encoding());
        v
    }

    fn try_read_from_bytes(b: &[u8]) -> Option<Self> {
        Some(
            UsbDeviceId {
                bus_number: b[0],
                device_addr: b[1],
            },
        )
    }

    proof fn lemma_round_trip(&self) {
        let e = self.encoding();
    }

    proof fn lemma_canonical(b: Seq<u8>) {
        assert(Self::decoding(b)->0.encoding() =~= b);
    }
}

/// The speed of a device, as far as a virtual port can have it.
#[derive(Debug, Clone, Copy, PartialEq, Eq, Structural)]
pub enum DataRate {
    Low,
    Full,
    High,
}

impl DataRate {
    /// The byte that stands for the value.
    pub open spec fn code(self) -> u8 {
        match self {
            DataRate::Low => 0,
            DataRate::Full => 1,
            DataRate::High => 2,
        }
    }

    /// The value that a byte stands for, if it stands for one.
    pub open spec fn of_code(code: u8) -> Option<DataRate> {
        if code == 0 {
            Some(DataRate::Low)
        } else if code == 1 {
            Some(DataRate::Full)
        } else if code == 2 {
            Some(DataRate::High)
        } else {
            None
        }
    }
}

impl Wire for DataRate {
    open spec fn wire_len() -> nat {
        1
    }

    open spec fn encoding(&self) -> Seq<u8> {
        seq![self.code()]
    }

    open spec fn decoding(b: Seq<u8>) -> Option<Self> {
        DataRate::of_code(b[0])
    }

    fn wire_size() -> usize {
        1
    }

    fn as_bytes(&self) -> Vec<u8> {
        let code: u8 = match self {
            DataRate::Low => 0,
            DataRate::Full => 1,
            DataRate::High => 2,
        };
        let v = vec![code];
        assert(v@ =~= self.encoding());
        v
    }

    fn try_read_from_bytes(b: &[u8]) -> Option<Self> {
        match b[0] {
            0 => Some(DataRate::Low),
            1 => Some(DataRate::Full),
            2 => Some(DataRate::High),
            _ => None,
        }
    }

    proof fn lemma_round_trip(&self) {
    }

    proof fn lemma_canonical(b: Seq<u8>) {
        assert(Self::decoding(b)->0.encoding() =~= b);
    }
}

/// What a client peer asks for.
#[allow(inconsistent_fields)]
#[derive(Debug, Clone, Copy)]
pub enum Req {
    ListDevices { _padding: [u8; 3] },
    BorrowDevice { _padding: [u8; 1], dev_id: UsbDeviceId },
    LendDevice { data_rate: DataRate, dev_id: UsbDeviceId },
}

impl Wire for Req {
    open spec fn wire_len() -> nat {
        4
    }

    open spec fn encoding(&self) -> Seq<u8> {
        match self {
            Req::ListDevices { _padding } => seq![0u8] + _padding@,
            Req::BorrowDevice { _padding, dev_id } => seq![1u8] + _padding@ + dev_id.encoding(),
            Req::LendDevice { data_rate, dev_id } => seq![2u8] + data_rate.encoding()
                + dev_id.encoding(),
        }
    }

    open spec fn decoding(b: Seq<u8>) -> Option<Self> {
        if b[0] == 0 {
            Some(Req::ListDevices { _padding: codec::array_of::<3>(b.subrange(1, 4)) })
        } else if b[0] == 1 {
            match UsbDeviceId::decoding(b.subrange(2, 4)) {
                Some(dev_id) => Some(
                    Req::BorrowDevice { _padding: codec::array_of::<1>(b.subrange(1, 2)), dev_id },
                ),
                None => None,
            }
        } else if b[0] == 2 {
            match (DataRate::decoding(b.subrange(1, 2)), UsbDeviceId::decoding(b.subrange(2, 4))) {
                (Some(data_rate), Some(dev_id)) => Some(Req::LendDevice { data_rate, dev_id }),
                _ => None,
            }
        } else {
            None
        }
    }

    fn wire_size() -> usize {
        4
    }

    fn as_bytes(&self) -> Vec<u8> {
        let mut v: Vec<u8> = Vec::new();
        match self {
            Req::ListDevices { _padding } => {
                v.push(0);
                push_bytes(&mut v, _padding.as_slice());
            },
            Req::BorrowDevice { _padding, dev_id } => {
                v.push(1);
                push_bytes(&mut v, _padding.as_slice());
                push_bytes(&mut v, dev_id.as_bytes().as_slice());
            },
            Req::LendDevice { data_rate, dev_id } => {
                v.push(2);
                push_bytes(&mut v, data_rate.as_bytes().as_slice());
                push_bytes(&mut v, dev_id.as_bytes().as_slice());
            },
        }
        assert(v@ =~= self.encoding());
        v
    }

    fn try_read_from_bytes(b: &[u8]) -> Option<Self> {
        match b[0] {
            0 => Some(Req::ListDevices { _padding: read_array::<3>(b, 1) }),
            1 => match UsbDeviceId::try_read_from_bytes(slice_subrange(b, 2, 4)) {
                Some(dev_id) => Some(
                    Req::BorrowDevice { _padding: read_array::<1>(b, 1), dev_id },
                ),
                None => None,
            },
            2 => match (
                DataRate::try_read_from_bytes(slice_subrange(b, 1, 2)),
                UsbDeviceId::try_read_from_bytes(slice_subrange(b, 2, 4)),
            ) {
                (Some(data_rate), Some(dev_id)) => Some(Req::LendDevice { data_rate, dev_id }),
                _ => None,
            },
            _ => None,
        }
    }

    proof fn lemma_round_trip(&self) {
        let e = self.encoding();
        match self {
            Req::ListDevices { _padding } => {
                codec::lemma_array_of(*_padding);
                assert(e.subrange(1, 4) =~= _padding@);
            },
            Req::BorrowDevice { _padding, dev_id } => {
                codec::lemma_array_of(*_padding);
                dev_id.lemma_round_trip();
                assert(e.subrange(1, 2) =~= _padding@);
                assert(e.subrange(2, 4) =~= dev_id.encoding());
            },
            Req::LendDevice { data_rate, dev_id } => {
                data_rate.lemma_round_trip();
                dev_id.lemma_round_trip();
                assert(e.subrange(1, 2) =~= data_rate.encoding());
                assert(e.subrange(2, 4) =~= dev_id.encoding());
            },
        }
    }

    proof fn lemma_canonical(b: Seq<u8>) {
        UsbDeviceId::lemma_canonical(b.subrange(2, 4));
        if b[0] == 0 {
            codec::lemma_array_exists::<3>(b.subrange(1, 4));
        } else if b[0] == 1 {
            codec::lemma_array_exists::<1>(b.subrange(1, 2));
        } else {
            DataRate::lemma_canonical(b.subrange(1, 2));
        }
        assert(Self::decoding(b)->0.encoding() =~= b);
    }
}

/// A request as it stands at the start of a stream.
#[derive(Debug, Clone, Copy)]
pub struct ReqFrame {
    pub version: Version,
    pub req: Req,
}

impl Wire for ReqFrame {
    open spec fn wire_len() -> nat {
        8
    }

    open spec fn encoding(&self) -> Seq<u8> {
        self.version.encoding()
            + self.req.encoding()
    }

    open spec fn decoding(b: Seq<u8>) -> Option<Self> {
        match (
            Version::decoding(b.subrange(0, 4)),
            Req::decoding(b.subrange(4, 8)),
        ) {
            (Some(version), Some(req)) => Some(
                ReqFrame {
                    version,
                    req,
                },
            ),
            _ => None,
        }
    }

    fn wire_size() -> usize {
        8
    }

    fn as_bytes(&self) -> Vec<u8> {
        let mut v: Vec<u8> = Vec::new();
        push_bytes(&mut v, self.version.as_bytes().as_slice());
        push_bytes(&mut v, self.req.as_bytes().as_slice());
        assert(v@ =~= self.encoding());
        v
    }

    fn try_read_from_bytes(b: &[u8]) -> Option<Self> {
        let version = match Version::try_read_from_bytes(slice_subrange(b, 0, 4)) {
            Some(version) => version,
            None => return None,
        };
        let req = match Req::try_read_from_bytes(slice_subrange(b, 4, 8)) {
            Some(req) => req,
            None => return None,
        };
        Some(
            ReqFrame {
                version,
                req,
            },
        )
    }

    proof fn lemma_round_trip(&self) {
        let e = self.encoding();
        self.version.lemma_round_trip();
        self.req.lemma_round_trip();
        assert(e.subrange(0, 4) =~= self.version.encoding());
        assert(e.subrange(4, 8) =~= self.req.encoding());
    }

    proof fn lemma_canonical(b: Seq<u8>) {
        Version::lemma_canonical(b.subrange(0, 4));
        Req::lemma_canonical(b.subrange(4, 8));
        assert(Self::decoding(b)->0.encoding() =~= b);
    }
}

/// The version of the answering peer, where the answer tells it.
#[derive(Debug, Clone, Copy)]
pub enum VersionOpt {
    Known(Version),
    Unknown([u8; 4]),
}

impl Wire for VersionOpt {
    open spec fn wire_len() -> nat {
        6
    }

    open spec fn encoding(&self) -> Seq<u8> {
        match self {
            VersionOpt::Known(version) => codec::le16(0) + version.encoding(),
            VersionOpt::Unknown(bytes) => codec::le16(1) + bytes@,
        }
    }

    open spec fn decoding(b: Seq<u8>) -> Option<Self> {
        if codec::u16_at(b, 0) == 0 {
            match Version::decoding(b.subrange(2, 6)) {
                Some(version) => Some(VersionOpt::Known(version)),
                None => None,
            }
        } else if codec::u16_at(b, 0) == 1 {
            Some(VersionOpt::Unknown(codec::array_of::<4>(b.subrange(2, 6))))
        } else {
            None
        }
    }

    fn wire_size() -> usize {
        6
    }

    fn as_bytes(&self) -> Vec<u8> {
        let mut v: Vec<u8> = Vec::new();
        match self {
            VersionOpt::Known(version) => {
                push_u16(&mut v, 0);
                push_bytes(&mut v, version.as_bytes().as_slice());
            },
            VersionOpt::Unknown(bytes) => {
                push_u16(&mut v, 1);
                push_bytes(&mut v, bytes.as_slice());
            },
        }
        assert(v@ =~= self.encoding());
        v
    }

    fn try_read_from_bytes(b: &[u8]) -> Option<Self> {
        match read_u16(b, 0) {
            0 => match Version::try_read_from_bytes(slice_subrange(b, 2, 6)) {
                Some(version) => Some(VersionOpt::Known(version)),
                None => None,
            },
            1 => Some(VersionOpt::Unknown(read_array::<4>(b, 2))),
            _ => None,
        }
    }

    proof fn lemma_round_trip(&self) {
        let e = self.encoding();
        match self {
            VersionOpt::Known(version) => {
                version.lemma_round_trip();
                assert(e.subrange(2, 6) =~= version.encoding());
            },
            VersionOpt::Unknown(bytes) => {
                codec::lemma_array_of(*bytes);
                assert(e.subrange(2, 6) =~= bytes@);
            },
        }
    }

    proof fn lemma_canonical(b: Seq<u8>) {
        codec::lemma_le16_canonical(b, 0);
        codec::lemma_array_exists::<4>(b.subrange(2, 6));
        if codec::u16_at(b, 0) == 0 {
            Version::lemma_canonical(b.subrange(2, 6));
        }
        assert(Self::decoding(b)->0.encoding() =~= b);
    }
}

/// What the server peer answers.
#[allow(inconsistent_fields)]
#[derive(Debug, Clone, Copy)]
pub enum Resp {
    ListDevices { _padding: [u8; 7] },
    BorrowDevice { data_rate: DataRate, _padding: [u8; 6] },
    LendDevice { _padding: [u8; 7] },
    Failure { stat: Status, ver: VersionOpt },
}

impl Wire for Resp {
    open spec fn wire_len() -> nat {
        8
    }

    open spec fn encoding(&self) -> Seq<u8> {
        match self {
            Resp::ListDevices { _padding } => seq![0u8] + _padding@,
            Resp::BorrowDevice { data_rate, _padding } => seq![1u8] + data_rate.encoding()
                + _padding@,
            Resp::LendDevice { _padding } => seq![2u8] + _padding@,
            Resp::Failure { stat, ver } => seq![3u8] + stat.encoding() + ver.encoding(),
        }
    }

    open spec fn decoding(b: Seq<u8>) -> Option<Self> {
        if b[0] == 0 {
            Some(Resp::ListDevices { _padding: codec::array_of::<7>(b.subrange(1, 8)) })
        } else if b[0] == 1 {
            match DataRate::decoding(b.subrange(1, 2)) {
                Some(data_rate) => Some(
                    Resp::BorrowDevice { data_rate, _padding: codec::array_of::<6>(b.subrange(2, 8)) },
                ),
                None => None,
            }
        } else if b[0] == 2 {
            Some(Resp::LendDevice { _padding: codec::array_of::<7>(b.subrange(1, 8)) })
        } else if b[0] == 3 {
            match (Status::decoding(b.subrange(1, 2)), VersionOpt::decoding(b.subrange(2, 8))) {
                (Some(stat), Some(ver)) => Some(Resp::Failure { stat, ver }),
                _ => None,
            }
        } else {
            None
        }
    }

    fn wire_size() -> usize {
        8
    }

    fn as_bytes(&self) -> Vec<u8> {
        let mut v: Vec<u8> = Vec::new();
        match self {
            Resp::ListDevices { _padding } => {
                v.push(0);
                push_bytes(&mut v, _padding.as_slice());
            },
            Resp::BorrowDevice { data_rate, _padding } => {
                v.push(1);
                push_bytes(&mut v, data_rate.as_bytes().as_slice());
                push_bytes(&mut v, _padding.as_slice());
            },
            Resp::LendDevice { _padding } => {
                v.push(2);
                push_bytes(&mut v, _padding.as_slice());
            },
            Resp::Failure { stat, ver } => {
                v.push(3);
                push_bytes(&mut v, stat.as_bytes().as_slice());
                push_bytes(&mut v, ver.as_bytes().as_slice());
            },
        }
        assert(v@ =~= self.encoding());
        v
    }

    fn try_read_from_bytes(b: &[u8]) -> Option<Self> {
        match b[0] {
            0 => Some(Resp::ListDevices { _padding: read_array::<7>(b, 1) }),
            1 => match DataRate::try_read_from_bytes(slice_subrange(b, 1, 2)) {
                Some(data_rate) => Some(
                    Resp::BorrowDevice { data_rate, _padding: read_array::<6>(b, 2) },
                ),
                None => None,
            },
            2 => Some(Resp::LendDevice { _padding: read_array::<7>(b, 1) }),
            3 => match (
                Status::try_read_from_bytes(slice_subrange(b, 1, 2)),
                VersionOpt::try_read_from_bytes(slice_subrange(b, 2, 8)),
            ) {
                (Some(stat), Some(ver)) => Some(Resp::Failure { stat, ver }),
                _ => None,
            },
            _ => None,
        }
    }

    proof fn lemma_round_trip(&self) {
        let e = self.encoding();
        match self {
            Resp::ListDevices { _padding } => {
                codec::lemma_array_of(*_padding);
                assert(e.subrange(1, 8) =~= _padding@);
            },
            Resp::BorrowDevice { data_rate, _padding } => {
                data_rate.lemma_round_trip();
                codec::lemma_array_of(*_padding);
                assert(e.subrange(1, 2) =~= data_rate.encoding());
                assert(e.subrange(2, 8) =~= _padding@);
            },
            Resp::LendDevice { _padding } => {
                codec::lemma_array_of(*_padding);
                assert(e.subrange(1, 8) =~= _padding@);
            },
            Resp::Failure { stat, ver } => {
                stat.lemma_round_trip();
                ver.lemma_round_trip();
                assert(e.subrange(1, 2) =~= stat.encoding());
                assert(e.subrange(2, 8) =~= ver.encoding());
            },
        }
    }

    proof fn lemma_canonical(b: Seq<u8>) {
        if b[0] == 1 {
            DataRate::lemma_canonical(b.subrange(1, 2));
            codec::lemma_array_exists::<6>(b.subrange(2, 8));
        } else if b[0] == 3 {
            Status::lemma_canonical(b.subrange(1, 2));
            VersionOpt::lemma_canonical(b.subrange(2, 8));
        } else {
            codec::lemma_array_exists::<7>(b.subrange(1, 8));
        }
        assert(Self::decoding(b)->0.encoding() =~= b);
    }
}

/// The bytes that open a stream: a request, behind the version that this library speaks.
pub fn send_req(req: Req) -> (v: Vec<u8>)
    ensures
        v@ == (ReqFrame { version: proto::own_version(), req }).encoding(),
{
    ReqFrame { version: qusb_ver(), req }.as_bytes()
}

/// The bytes that answer a request.
pub fn send_resp(resp: Resp) -> (v: Vec<u8>)
    ensures
        v@ == resp.encoding(),
{
    resp.as_bytes()
}

/// One interface of a device.
#[derive(Debug, Clone, Copy, PartialEq, Eq, Structural)]
pub struct UsbInterfaceInfo {
    pub b_interface_number: u8,
    pub b_interface_class: u8,
    pub b_interface_subclass: u8,
    pub b_interface_protocol: u8,
}

impl Wire for UsbInterfaceInfo {
    open spec fn wire_len() -> nat {
        4
    }

    open spec fn encoding(&self) -> Seq<u8> {
        seq![
            self.b_interface_number,
            self.b_interface_class,
            self.b_interface_subclass,
            self.b_interface_protocol,
        ]
    }

    open spec fn decoding(b: Seq<u8>) -> Option<Self> {
        Some(
            UsbInterfaceInfo {
                b_interface_number: b[0],
                b_interface_class: b[1],
                b_interface_subclass: b[2],
                b_interface_protocol: b[3],
            },
        )
    }

    fn wire_size() -> usize {
        4
    }

    fn as_bytes(&self) -> Vec<u8> {
        let mut v: Vec<u8> = Vec::new();
        v.push(self.b_interface_number);
        v.push(self.b_interface_class);
        v.push(self.b_interface_subclass);
        v.push(self.b_interface_protocol);
        assert(v@ =~= self.encoding());
        v
    }

    fn try_read_from_bytes(b: &[u8]) -> Option<Self> {
        Some(
            UsbInterfaceInfo {
                b_interface_number: b[0],
                b_interface_class: b[1],
                b_interface_subclass: b[2],
                b_interface_protocol: b[3],
            },
        )
    }

    proof fn lemma_round_trip(&self) {
        let e = self.encoding();
    }

    proof fn lemma_canonical(b: Seq<u8>) {
        assert(Self::decoding(b)->0.encoding() =~= b);
    }
}

/// The speed of a device.
#[derive(Debug, Clone, Copy, PartialEq, Eq, PartialOrd, Ord, Hash, Structural)]
pub enum Speed {
    Unknown,
    Low,
    Full,
    High,
    Super,
    SuperPlus,
}

impl Speed {
    /// The byte that stands for the value.
    pub open spec fn code(self) -> u8 {
        match self {
            Speed::Unknown => 0,
            Speed::Low => 1,
            Speed::Full => 2,
            Speed::High => 3,
            Speed::Super => 4,
            Speed::SuperPlus => 5,
        }
    }

    /// The value that a byte stands for, if it stands for one.
    pub open spec fn of_code(code: u8) -> Option<Speed> {
        if code == 0 {
            Some(Speed::Unknown)
        } else if code == 1 {
            Some(Speed::Low)
        } else if code == 2 {
            Some(Speed::Full)
        } else if code == 3 {
            Some(Speed::High)
        } else if code == 4 {
            Some(Speed::Super)
        } else if code == 5 {
            Some(Speed::SuperPlus)
        } else {
            None
        }
    }
}

impl Wire for Speed {
    open spec fn wire_len() -> nat {
        1
    }

    open spec fn encoding(&self) -> Seq<u8> {
        seq![self.code()]
    }

    open spec fn decoding(b: Seq<u8>) -> Option<Self> {
        Speed::of_code(b[0])
    }

    fn wire_size() -> usize {
        1
    }

    fn as_bytes(&self) -> Vec<u8> {
        let code: u8 = match self {
            Speed::Unknown => 0,
            Speed::Low => 1,
            Speed::Full => 2,
            Speed::High => 3,
            Speed::Super => 4,
            Speed::SuperPlus => 5,
        };
        let v = vec![code];
        assert(v@ =~= self.encoding());
        v
    }

    fn try_read_from_bytes(b: &[u8]) -> Option<Self> {
        match b[0] {
            0 => Some(Speed::Unknown),
            1 => Some(Speed::Low),
            2 => Some(Speed::Full),
            3 => Some(Speed::High),
            4 => Some(Speed::Super),
            5 => Some(Speed::SuperPlus),
            _ => None,
        }
    }

    proof fn lemma_round_trip(&self) {
    }

    proof fn lemma_canonical(b: Seq<u8>) {
        assert(Self::decoding(b)->0.encoding() =~= b);
    }
}

impl Speed {
    /// The speed that a number stands for, `Unknown` where it stands for none.
    pub fn from_u8(num: u8) -> (s: Self)
        ensures
            s == (match Speed::of_code(num) {
                Some(speed) => speed,
                None => Speed::Unknown,
            }),
    {
        match num {
            1 => Speed::Low,
            2 => Speed::Full,
            3 => Speed::High,
            4 => Speed::Super,
            5 => Speed::SuperPlus,
            _ => Speed::Unknown,
        }
    }
}

/// What a peer tells of a device that it has, but for the interfaces.
#[derive(Debug, Clone, Copy)]
pub struct UsbDeviceInfoHeader {
    pub path: [u8; 256],
    pub bus_id: [u8; 32],
    pub path_len: u16,
    pub id_vendor: u16,
    pub id_product: u16,
    pub bcd_device: u16,
    pub bus_id_len: u8,
    pub busnum: u8,
    pub devnum: u8,
    pub speed: Speed,
    pub b_device_class: u8,
    pub b_device_subclass: u8,
    pub b_device_protocol: u8,
    pub b_configuration_value: u8,
    pub b_num_configurations: u8,
    pub b_num_interfaces: u8,
    pub padded_num_interfaces: u8,
    pub _padding: [u8; 5],
}

impl Wire for UsbDeviceInfoHeader {
    open spec fn wire_len() -> nat {
        312
    }

    open spec fn encoding(&self) -> Seq<u8> {
        self.path@
            + self.bus_id@
            + codec::le16(self.path_len)
            + codec::le16(self.id_vendor)
            + codec::le16(self.id_product)
            + codec::le16(self.bcd_device)
            + seq![self.bus_id_len, self.busnum, self.devnum]
            + self.speed.encoding()
            + seq![
                self.b_device_class,
                self.b_device_subclass,
                self.b_device_protocol,
                self.b_configuration_value,
                self.b_num_configurations,
                self.b_num_interfaces,
                self.padded_num_interfaces,
            ]
            + self._padding@
    }

    open spec fn decoding(b: Seq<u8>) -> Option<Self> {
        match Speed::decoding(b.subrange(299, 300)) {
            Some(speed) => Some(
                UsbDeviceInfoHeader {
                    path: codec::array_of::<256>(b.subrange(0, 256)),
                    bus_id: codec::array_of::<32>(b.subrange(256, 288)),
                    path_len: codec::u16_at(b, 288),
                    id_vendor: codec::u16_at(b, 290),
                    id_product: codec::u16_at(b, 292),
                    bcd_device: codec::u16_at(b, 294),
                    bus_id_len: b[296],
                    busnum: b[297],
                    devnum: b[298],
                    speed,
                    b_device_class: b[300],
                    b_device_subclass: b[301],
                    b_device_protocol: b[302],
                    b_configuration_value: b[303],
                    b_num_configurations: b[304],
                    b_num_interfaces: b[305],
                    padded_num_interfaces: b[306],
                    _padding: codec::array_of::<5>(b.subrange(307, 312)),
                },
            ),
            None => None,
        }
    }

    fn wire_size() -> usize {
        312
    }

    fn as_bytes(&self) -> Vec<u8> {
        let mut v: Vec<u8> = Vec::new();
        push_bytes(&mut v, self.path.as_slice());
        push_bytes(&mut v, self.bus_id.as_slice());
        push_u16(&mut v, self.path_len);
        push_u16(&mut v, self.id_vendor);
        push_u16(&mut v, self.id_product);
        push_u16(&mut v, self.bcd_device);
        v.push(self.bus_id_len);
        v.push(self.busnum);
        v.push(self.devnum);
        push_bytes(&mut v, self.speed.as_bytes().as_slice());
        v.push(self.b_device_class);
        v.push(self.b_device_subclass);
        v.push(self.b_device_protocol);
        v.push(self.b_configuration_value);
        v.push(self.b_num_configurations);
        v.push(self.b_num_interfaces);
        v.push(self.padded_num_interfaces);
        push_bytes(&mut v, self._padding.as_slice());
        assert(v@ =~= self.encoding());
        v
    }

    fn try_read_from_bytes(b: &[u8]) -> Option<Self> {
        let speed = match Speed::try_read_from_bytes(slice_subrange(b, 299, 300)) {
            Some(speed) => speed,
            None => return None,
        };
        Some(
            UsbDeviceInfoHeader {
                path: read_array::<256>(b, 0),
                bus_id: read_array::<32>(b, 256),
                path_len: read_u16(b, 288),
                id_vendor: read_u16(b, 290),
                id_product: read_u16(b, 292),
                bcd_device: read_u16(b, 294),
                bus_id_len: b[296],
                busnum: b[297],
                devnum: b[298],
                speed,
                b_device_class: b[300],
                b_device_subclass: b[301],
                b_device_protocol: b[302],
                b_configuration_value: b[303],
                b_num_configurations: b[304],
                b_num_interfaces: b[305],
                padded_num_interfaces: b[306],
                _padding: read_array::<5>(b, 307),
            },
        )
    }

    proof fn lemma_round_trip(&self) {
        let e = self.encoding();
        self.speed.lemma_round_trip();
        codec::lemma_array_of(self.path);
        assert(e.subrange(0, 256) =~= self.path@);
        codec::lemma_array_of(self.bus_id);
        assert(e.subrange(256, 288) =~= self.bus_id@);
        codec::lemma_array_of(self._padding);
        assert(e.subrange(307, 312) =~= self._padding@);
        assert(e.subrange(299, 300) =~= self.speed.encoding());
        assert(codec::u16_at(e, 288) == codec::u16_at(codec::le16(self.path_len), 0));
        codec::lemma_le16(self.path_len);
        assert(codec::u16_at(e, 290) == codec::u16_at(codec::le16(self.id_vendor), 0));
        codec::lemma_le16(self.id_vendor);
        assert(codec::u16_at(e, 292) == codec::u16_at(codec::le16(self.id_product), 0));
        codec::lemma_le16(self.id_product);
        assert(codec::u16_at(e, 294) == codec::u16_at(codec::le16(self.bcd_device), 0));
        codec::lemma_le16(self.bcd_device);
    }

    proof fn lemma_canonical(b: Seq<u8>) {
        codec::lemma_array_exists::<256>(b.subrange(0, 256));
        codec::lemma_array_exists::<32>(b.subrange(256, 288));
        codec::lemma_le16_canonical(b, 288);
        codec::lemma_le16_canonical(b, 290);
        codec::lemma_le16_canonical(b, 292);
        codec::lemma_le16_canonical(b, 294);
        Speed::lemma_canonical(b.subrange(299, 300));
        codec::lemma_array_exists::<5>(b.subrange(307, 312));
        assert(Self::decoding(b)->0.encoding() =~= b);
    }
}

/// What a frame asks for or answers.
#[derive(Debug, Clone, Copy, PartialEq, Eq, Structural)]
pub enum Command {
    CmdSubmit,
    CmdUnlink,
    CmdPort,
    RetSubmit,
    RetUnlink,
    RetPort,
}

impl Command {
    /// The byte that stands for the value.
    pub open spec fn code(self) -> u8 {
        match self {
            Command::CmdSubmit => 0,
            Command::CmdUnlink => 1,
            Command::CmdPort => 2,
            Command::RetSubmit => 3,
            Command::RetUnlink => 4,
            Command::RetPort => 5,
        }
    }

    /// The value that a byte stands for, if it stands for one.
    pub open spec fn of_code(code: u8) -> Option<Command> {
        if code == 0 {
            Some(Command::CmdSubmit)
        } else if code == 1 {
            Some(Command::CmdUnlink)
        } else if code == 2 {
            Some(Command::CmdPort)
        } else if code == 3 {
            Some(Command::RetSubmit)
        } else if code == 4 {
            Some(Command::RetUnlink)
        } else if code == 5 {
            Some(Command::RetPort)
        } else {
            None
        }
    }
}

impl Wire for Command {
    open spec fn wire_len() -> nat {
        1
    }

    open spec fn encoding(&self) -> Seq<u8> {
        seq![self.code()]
    }

    open spec fn decoding(b: Seq<u8>) -> Option<Self> {
        Command::of_code(b[0])
    }

    fn wire_size() -> usize {
        1
    }

    fn as_bytes(&self) -> Vec<u8> {
        let code: u8 = match self {
            Command::CmdSubmit => 0,
            Command::CmdUnlink => 1,
            Command::CmdPort => 2,
            Command::RetSubmit => 3,
            Command::RetUnlink => 4,
            Command::RetPort => 5,
        };
        let v = vec![code];
        assert(v@ =~= self.encoding());
        v
    }

    fn try_read_from_bytes(b: &[u8]) -> Option<Self> {
        match b[0] {
            0 => Some(Command::CmdSubmit),
            1 => Some(Command::CmdUnlink),
            2 => Some(Command::CmdPort),
            3 => Some(Command::RetSubmit),
            4 => Some(Command::RetUnlink),
            5 => Some(Command::RetPort),
            _ => None,
        }
    }

    proof fn lemma_round_trip(&self) {
    }

    proof fn lemma_canonical(b: Seq<u8>) {
        assert(Self::decoding(b)->0.encoding() =~= b);
    }
}

/// The header of a frame.
///
/// - `total_frame_len` is the number of bytes of the whole frame, divided by eight.
/// - `status` is written by the peer that answers and read by the peer that asked.
#[derive(Debug, Clone, Copy, PartialEq, Eq, Structural)]
pub struct Header {
    pub total_frame_len: u16,
    pub command: Command,
    pub status: Status,
    pub seqnum: u32,
}

impl Wire for Header {
    open spec fn wire_len() -> nat {
        8
    }

    open spec fn encoding(&self) -> Seq<u8> {
        codec::le16(self.total_frame_len)
            + self.command.encoding()
            + self.status.encoding()
            + codec::le32(self.seqnum)
    }

    open spec fn decoding(b: Seq<u8>) -> Option<Self> {
        match (
            Command::decoding(b.subrange(2, 3)),
            Status::decoding(b.subrange(3, 4)),
        ) {
            (Some(command), Some(status)) => Some(
                Header {
                    total_frame_len: codec::u16_at(b, 0),
                    command,
                    status,
                    seqnum: codec::u32_at(b, 4),
                },
            ),
            _ => None,
        }
    }

    fn wire_size() -> usize {
        8
    }

    fn as_bytes(&self) -> Vec<u8> {
        let mut v: Vec<u8> = Vec::new();
        push_u16(&mut v, self.total_frame_len);
        push_bytes(&mut v, self.command.as_bytes().as_slice());
        push_bytes(&mut v, self.status.as_bytes().as_slice());
        push_u32(&mut v, self.seqnum);
        assert(v@ =~= self.encoding());
        v
    }

    fn try_read_from_bytes(b: &[u8]) -> Option<Self> {
        let command = match Command::try_read_from_bytes(slice_subrange(b, 2, 3)) {
            Some(command) => command,
            None => return None,
        };
        let status = match Status::try_read_from_bytes(slice_subrange(b, 3, 4)) {
            Some(status) => status,
            None => return None,
        };
        Some(
            Header {
                total_frame_len: read_u16(b, 0),
                command,
                status,
                seqnum: read_u32(b, 4),
            },
        )
    }

    proof fn lemma_round_trip(&self) {
        let e = self.encoding();
        self.command.lemma_round_trip();
        self.status.lemma_round_trip();
        assert(e.subrange(2, 3) =~= self.command.encoding());
        assert(e.subrange(3, 4) =~= self.status.encoding());
        assert(codec::u16_at(e, 0) == codec::u16_at(codec::le16(self.total_frame_len), 0));
        codec::lemma_le16(self.total_frame_len);
        assert(codec::u32_at(e, 4) == codec::u32_at(codec::le32(self.seqnum), 0));
        codec::lemma_le32(self.seqnum);
    }

    proof fn lemma_canonical(b: Seq<u8>) {
        codec::lemma_le16_canonical(b, 0);
        Command::lemma_canonical(b.subrange(2, 3));
        Status::lemma_canonical(b.subrange(3, 4));
        codec::lemma_le32_canonical(b, 4);
        assert(Self::decoding(b)->0.encoding() =~= b);
    }
}

/// The header of a frame that carries a transfer.
///
/// The borrowing peer sets `actual_transfer_len` to the length of its transfer buffer,
/// `iso_packet_count` to the number of isochronous packets, `endpoint` with its direction, `status`
/// to `Pending` and `num_errors` to zero. The lending peer sets `actual_transfer_len` to the number
/// of bytes that the device took or gave and `status` to what became of the transfer, which is
/// never `Pending`.
///
/// A transfer buffer travels only where the receiver needs it: with a request towards the device
/// and with a reply from it. Isochronous packets always travel.
#[derive(Debug, Clone, Copy, PartialEq, Eq, Structural)]
pub struct UrbHeader {
    pub actual_transfer_len: u16,
    pub iso_packet_count: u16,
    pub endpoint: Endpoint,
    pub kind: UrbType,
    pub interval: u16,
    pub status: usb::Status,
    pub flags: u16,
    pub num_errors: u16,
    pub ctrl_packet: IocSetupPacket,
}

impl Wire for UrbHeader {
    open spec fn wire_len() -> nat {
        24
    }

    open spec fn encoding(&self) -> Seq<u8> {
        codec::le16(self.actual_transfer_len)
            + codec::le16(self.iso_packet_count)
            + self.endpoint.encoding()
            + self.kind.encoding()
            + codec::le16(self.interval)
            + self.status.encoding()
            + codec::le16(self.flags)
            + codec::le16(self.num_errors)
            + self.ctrl_packet.encoding()
    }

    open spec fn decoding(b: Seq<u8>) -> Option<Self> {
        match (
            Endpoint::decoding(b.subrange(4, 5)),
            UrbType::decoding(b.subrange(5, 6)),
            usb::Status::decoding(b.subrange(8, 12)),
            IocSetupPacket::decoding(b.subrange(16, 24)),
        ) {
            (Some(endpoint), Some(kind), Some(status), Some(ctrl_packet)) => Some(
                UrbHeader {
                    actual_transfer_len: codec::u16_at(b, 0),
                    iso_packet_count: codec::u16_at(b, 2),
                    endpoint,
                    kind,
                    interval: codec::u16_at(b, 6),
                    status,
                    flags: codec::u16_at(b, 12),
                    num_errors: codec::u16_at(b, 14),
                    ctrl_packet,
                },
            ),
            _ => None,
        }
    }

    fn wire_size() -> usize {
        24
    }

    fn as_bytes(&self) -> Vec<u8> {
        let mut v: Vec<u8> = Vec::new();
        push_u16(&mut v, self.actual_transfer_len);
        push_u16(&mut v, self.iso_packet_count);
        push_bytes(&mut v, self.endpoint.as_bytes().as_slice());
        push_bytes(&mut v, self.kind.as_bytes().as_slice());
        push_u16(&mut v, self.interval);
        push_bytes(&mut v, self.status.as_bytes().as_slice());
        push_u16(&mut v, self.flags);
        push_u16(&mut v, self.num_errors);
        push_bytes(&mut v, self.ctrl_packet.as_bytes().as_slice());
        assert(v@ =~= self.encoding());
        v
    }

    fn try_read_from_bytes(b: &[u8]) -> Option<Self> {
        let endpoint = match Endpoint::try_read_from_bytes(slice_subrange(b, 4, 5)) {
            Some(endpoint) => endpoint,
            None => return None,
        };
        let kind = match UrbType::try_read_from_bytes(slice_subrange(b, 5, 6)) {
            Some(kind) => kind,
            None => return None,
        };
        let status = match usb::Status::try_read_from_bytes(slice_subrange(b, 8, 12)) {
            Some(status) => status,
            None => return None,
        };
        let ctrl_packet = match IocSetupPacket::try_read_from_bytes(slice_subrange(b, 16, 24)) {
            Some(ctrl_packet) => ctrl_packet,
            None => return None,
        };
        Some(
            UrbHeader {
                actual_transfer_len: read_u16(b, 0),
                iso_packet_count: read_u16(b, 2),
                endpoint,
                kind,
                interval: read_u16(b, 6),
                status,
                flags: read_u16(b, 12),
                num_errors: read_u16(b, 14),
                ctrl_packet,
            },
        )
    }

    proof fn lemma_round_trip(&self) {
        let e = self.encoding();
        self.endpoint.lemma_round_trip();
        self.kind.lemma_round_trip();
        self.status.lemma_round_trip();
        self.ctrl_packet.lemma_round_trip();
        assert(e.subrange(4, 5) =~= self.endpoint.encoding());
        assert(e.subrange(5, 6) =~= self.kind.encoding());
        assert(e.subrange(8, 12) =~= self.status.encoding());
        assert(e.subrange(16, 24) =~= self.ctrl_packet.encoding());
        assert(codec::u16_at(e, 0) == codec::u16_at(codec::le16(self.actual_transfer_len), 0));
        codec::lemma_le16(self.actual_transfer_len);
        assert(codec::u16_at(e, 2) == codec::u16_at(codec::le16(self.iso_packet_count), 0));
        codec::lemma_le16(self.iso_packet_count);
        assert(codec::u16_at(e, 6) == codec::u16_at(codec::le16(self.interval), 0));
        codec::lemma_le16(self.interval);
        assert(codec::u16_at(e, 12) == codec::u16_at(codec::le16(self.flags), 0));
        codec::lemma_le16(self.flags);
        assert(codec::u16_at(e, 14) == codec::u16_at(codec::le16(self.num_errors), 0));
        codec::lemma_le16(self.num_errors);
    }

    proof fn lemma_canonical(b: Seq<u8>) {
        codec::lemma_le16_canonical(b, 0);
        codec::lemma_le16_canonical(b, 2);
        Endpoint::lemma_canonical(b.subrange(4, 5));
        UrbType::lemma_canonical(b.subrange(5, 6));
        codec::lemma_le16_canonical(b, 6);
        usb::Status::lemma_canonical(b.subrange(8, 12));
        codec::lemma_le16_canonical(b, 12);
        codec::lemma_le16_canonical(b, 14);
        IocSetupPacket::lemma_canonical(b.subrange(16, 24));
        assert(Self::decoding(b)->0.encoding() =~= b);
    }
}

impl UrbHeader {
    /// Tells whether the transfer goes towards the device.
    pub open spec fn out(self) -> bool {
        self.endpoint.dir() == Dir::Out
    }

    pub open spec fn pending(self) -> bool {
        self.status == usb::Status::Pending
    }

    /// The number of bytes that isochronous packets take in the frame.
    pub open spec fn iso_len(self) -> nat {
        8 * self.iso_packet_count as nat
    }

    /// The number of bytes that the transfer buffer takes in the frame.
    pub open spec fn transfer_len(self) -> nat {
        if self.out() == self.pending() {
            crate::utils::padded(self.actual_transfer_len as nat)
        } else {
            0
        }
    }

    pub fn padded_transfer_len(&self) -> (n: usize)
        ensures
            n == crate::utils::padded(self.actual_transfer_len as nat),
    {
        align_to_usize(self.actual_transfer_len as usize)
    }

    pub fn is_out(&self) -> (b: bool)
        ensures
            b == self.out(),
    {
        match self.endpoint.direction() {
            Dir::Out => true,
            Dir::In => false,
        }
    }

    pub fn is_pending(&self) -> (b: bool)
        ensures
            b == self.pending(),
    {
        match self.status {
            usb::Status::Pending => true,
            _ => false,
        }
    }

    pub fn iso_byte_len(&self) -> (n: usize)
        ensures
            n == self.iso_len(),
    {
        self.iso_packet_count as usize * 8
    }

    /// Tells whether the header is that of a reply.
    pub fn is_reply(&self) -> (b: bool)
        ensures
            b == !self.pending(),
    {
        !self.is_pending()
    }
}

/// What a byte of kind and packet count stands for.
#[derive(Debug, Clone, Copy, PartialEq, Eq, Structural)]
pub enum UrbKind {
    Iso(u8),
    Int,
    Ctrl,
    Bulk,
}

/// The kind of a transfer and, for an isochronous one, its number of packets, in one byte: up to
/// 127 the byte is the number of packets, above that the two low bits tell the kind.
#[derive(Debug, Clone, Copy, PartialEq, Eq, Structural)]
pub struct PackedKind {
    pub inner: u8,
}

impl Wire for PackedKind {
    open spec fn wire_len() -> nat {
        1
    }

    open spec fn encoding(&self) -> Seq<u8> {
        seq![self.inner]
    }

    open spec fn decoding(b: Seq<u8>) -> Option<Self> {
        Some(
            PackedKind {
                inner: b[0],
            },
        )
    }

    fn wire_size() -> usize {
        1
    }

    fn as_bytes(&self) -> Vec<u8> {
        let mut v: Vec<u8> = Vec::new();
        v.push(self.inner);
        assert(v@ =~= self.encoding());
        v
    }

    fn try_read_from_bytes(b: &[u8]) -> Option<Self> {
        Some(
            PackedKind {
                inner: b[0],
            },
        )
    }

    proof fn lemma_round_trip(&self) {
        let e = self.encoding();
    }

    proof fn lemma_canonical(b: Seq<u8>) {
        assert(Self::decoding(b)->0.encoding() =~= b);
    }
}

impl PackedKind {
    /// Tells whether the byte stands for a kind.
    pub open spec fn valid(self) -> bool {
        self.inner < 128 || self.inner % 4 != 3
    }

    /// What the byte stands for.
    pub open spec fn kind(self) -> UrbKind {
        if self.inner < 128 {
            UrbKind::Iso(self.inner)
        } else if self.inner % 4 == 0 {
            UrbKind::Int
        } else if self.inner % 4 == 1 {
            UrbKind::Ctrl
        } else {
            UrbKind::Bulk
        }
    }

    pub fn iso(num_pkts: u8) -> (k: Self)
        requires
            num_pkts <= 127,
        ensures
            k.valid(),
            k.kind() == UrbKind::Iso(num_pkts),
            k.inner == num_pkts,
    {
        Self { inner: num_pkts }
    }

    pub fn interrupt() -> (k: Self)
        ensures
            k.valid(),
            k.kind() == UrbKind::Int,
            k.inner == 0x80,
    {
        Self { inner: 0x80 }
    }

    pub fn ctrl() -> (k: Self)
        ensures
            k.valid(),
            k.kind() == UrbKind::Ctrl,
            k.inner == 0x81,
    {
        Self { inner: 0x81 }
    }

    pub fn bulk() -> (k: Self)
        ensures
            k.valid(),
            k.kind() == UrbKind::Bulk,
            k.inner == 0x82,
    {
        Self { inner: 0x82 }
    }

    pub fn get(&self) -> (k: UrbKind)
        requires
            self.valid(),
        ensures
            k == self.kind(),
    {
        if self.inner < 128 {
            UrbKind::Iso(self.inner)
        } else {
            match self.inner % 4 {
                0 => UrbKind::Int,
                1 => UrbKind::Ctrl,
                _ => UrbKind::Bulk,
            }
        }
    }
}

/// Reads a little-endian number from the start of `b`.
///
/// Trusted: `zerocopy::FromBytes::read_from_prefix` on `zerocopy::little_endian::U16`, which
/// gives the number that the first two bytes stand for, and an error only where there are fewer
/// than two.
#[verifier::external_body]
fn u16_from_prefix(b: &[u8]) -> (r: Option<u16>)
    ensures
        r == (if b@.len() < 2 {
            None::<u16>
        } else {
            Some(codec::u16_at(b@, 0))
        }),
{
    U16::read_from_prefix(b).ok().map(|(x, _)| x.get())
}

/// A transfer frame: a `UrbHeader` and the bytes that go with it.
pub struct UrbFrame;

impl GetSliceLen for UrbFrame {
    type Header = UrbHeader;

    open spec fn elem_len() -> nat {
        1
    }

    open spec fn slice_len(buf: Seq<u8>) -> Result<nat, GetSliceLenErr> {
        if buf.len() < 24 {
            Err(GetSliceLenErr::BufferShort { num_bytes_needed: (24 - buf.len()) as usize })
        } else {
            match UrbHeader::decoding(buf.take(24)) {
                None => Err(GetSliceLenErr::NoConfidence),
                Some(header) => {
                    let required = header.transfer_len() + header.iso_len();
                    if required > buf.len() - 24 {
                        Err(
                            GetSliceLenErr::BufferShort {
                                num_bytes_needed: (required - (buf.len() - 24)) as usize,
                            },
                        )
                    } else {
                        Ok(required)
                    }
                },
            }
        }
    }

    fn elem_size() -> usize {
        1
    }

    fn get_slice_len(buf: &[u8]) -> Result<usize, GetSliceLenErr> {
        let len: usize = buf.len();
        if len < 24 {
            return Err(GetSliceLenErr::BufferShort { num_bytes_needed: 24 - len });
        }
        let header = match try_read_from_prefix::<UrbHeader>(buf) {
            Some(header) => header,
            None => return Err(GetSliceLenErr::NoConfidence),
        };
        let rest: usize = len - 24;
        let has_transfer = (header.is_out() && header.is_pending()) || (!header.is_out()
            && !header.is_pending());
        // A transfer counts only where it has data to send; the packets always count.
        let transfer_len: usize = if has_transfer {
            header.padded_transfer_len()
        } else {
            0
        };
        let required: usize = transfer_len + header.iso_byte_len();
        if required > rest {
            Err(GetSliceLenErr::BufferShort { num_bytes_needed: required - rest })
        } else {
            Ok(required)
        }
    }

    proof fn lemma_slice_len(buf: Seq<u8>) {
        assert(<UrbHeader as Wire>::wire_len() == 24);
        if let Ok(n) = Self::slice_len(buf) {
            let e = Self::elem_len();
            assert(n * e == n) by (nonlinear_arith)
                requires
                    e == 1,
            ;
            assert(24 + n * Self::elem_len() <= buf.len());
        }
    }
}

/// A frame: a `Header` and the bytes up to the length that it tells.
pub struct QusbFrame;

impl GetSliceLen for QusbFrame {
    type Header = Header;

    open spec fn elem_len() -> nat {
        1
    }

    open spec fn slice_len(buf: Seq<u8>) -> Result<nat, GetSliceLenErr> {
        if buf.len() < 2 {
            Err(GetSliceLenErr::BufferShort { num_bytes_needed: (8 - buf.len()) as usize })
        } else {
            let frame_len = 8 * codec::u16_at(buf, 0) as nat;
            if frame_len > buf.len() {
                Err(
                    GetSliceLenErr::BufferShort {
                        num_bytes_needed: (frame_len - buf.len()) as usize,
                    },
                )
            } else if frame_len < 8 {
                Err(GetSliceLenErr::NoConfidence)
            } else {
                Ok((frame_len - 8) as nat)
            }
        }
    }

    fn elem_size() -> usize {
        1
    }

    fn get_slice_len(buf: &[u8]) -> Result<usize, GetSliceLenErr> {
        let len: usize = buf.len();
        match u16_from_prefix(buf) {
            None => Err(GetSliceLenErr::BufferShort { num_bytes_needed: 8 - len }),
            Some(eighths) => {
                let frame_len: usize = eighths as usize * 8;
                if frame_len > len {
                    Err(GetSliceLenErr::BufferShort { num_bytes_needed: frame_len - len })
                } else if frame_len < 8 {
                    Err(GetSliceLenErr::NoConfidence)
                } else {
                    Ok(frame_len - 8)
                }
            },
        }
    }

    proof fn lemma_slice_len(buf: Seq<u8>) {
        assert(<Header as Wire>::wire_len() == 8);
        if let Ok(n) = Self::slice_len(buf) {
            let e = Self::elem_len();
            assert(n * e == n) by (nonlinear_arith)
                requires
                    e == 1,
            ;
            assert(8 + n * Self::elem_len() <= buf.len());
        }
    }
}

/// A device in a list of devices: a `UsbDeviceInfoHeader` and its interfaces.
pub struct UsbDeviceInfo;

impl GetSliceLen for UsbDeviceInfo {
    type Header = UsbDeviceInfoHeader;

    open spec fn elem_len() -> nat {
        4
    }

    open spec fn slice_len(buf: Seq<u8>) -> Result<nat, GetSliceLenErr> {
        if buf.len() < 312 {
            Err(GetSliceLenErr::BufferShort { num_bytes_needed: (312 - buf.len()) as usize })
        } else {
            // `padded_num_interfaces`, after the path, the bus id and eighteen more bytes
            let padded_len = buf[306] as nat;
            let size = 312 + 4 * padded_len;
            if size > buf.len() {
                Err(GetSliceLenErr::BufferShort { num_bytes_needed: (size - buf.len()) as usize })
            } else {
                Ok(padded_len)
            }
        }
    }

    fn elem_size() -> usize {
        4
    }

    fn get_slice_len(buf: &[u8]) -> Result<usize, GetSliceLenErr> {
        let len: usize = buf.len();
        if len < 312 {
            return Err(GetSliceLenErr::BufferShort { num_bytes_needed: 312 - len });
        }
        let padded_len: usize = buf[306] as usize;
        let size: usize = padded_len * 4 + 312;
        if size > len {
            Err(GetSliceLenErr::BufferShort { num_bytes_needed: size - len })
        } else {
            Ok(padded_len)
        }
    }

    proof fn lemma_slice_len(buf: Seq<u8>) {
        assert(<UsbDeviceInfoHeader as Wire>::wire_len() == 312);
        if let Ok(n) = Self::slice_len(buf) {
            let e = Self::elem_len();
            assert(n * e == 4 * n) by (nonlinear_arith)
                requires
                    e == 4,
            ;
            assert(312 + n * Self::elem_len() <= buf.len());
        }
    }
}

impl UsbDeviceInfoHeader {
    /// The path of the device at its peer; `None` where the length that is told is longer than
    /// the field.
    pub fn path(&self) -> (r: Option<&[u8]>)
        ensures
            r is Some <==> self.path_len <= 256,
            r matches Some(p) ==> p@ == self.path@.take(self.path_len as int),
    {
        let n: usize = self.path_len as usize;
        if n <= 256 {
            let p = slice_subrange(self.path.as_slice(), 0, n);
            assert(p@ =~= self.path@.take(n as int));
            Some(p)
        } else {
            None
        }
    }

    /// The bus id of the device; `None` where the length that is told is longer than the field.
    pub fn bus_id(&self) -> (r: Option<&[u8]>)
        ensures
            r is Some <==> self.bus_id_len <= 32,
            r matches Some(p) ==> p@ == self.bus_id@.take(self.bus_id_len as int),
    {
        let n: usize = self.bus_id_len as usize;
        if n <= 32 {
            let p = slice_subrange(self.bus_id.as_slice(), 0, n);
            assert(p@ =~= self.bus_id@.take(n as int));
            Some(p)
        } else {
            None
        }
    }
}

/// A device's own description of itself.
#[derive(Debug, Clone, Copy, PartialEq, Eq, Structural)]
pub struct DeviceDescriptor {
    pub b_length: u8,
    pub b_descriptor_type: u8,
    pub bcd_usb: u16,
    pub b_device_class: u8,
    pub b_device_subclass: u8,
    pub b_device_protocol: u8,
    pub b_max_packet_size0: u8,
    pub id_vendor: u16,
    pub id_product: u16,
    pub bcd_device: u16,
    pub i_manufacturer: u8,
    pub i_product: u8,
    pub i_serial_number: u8,
    pub b_num_configurations: u8,
}

impl Wire for DeviceDescriptor {
    open spec fn wire_len() -> nat {
        18
    }

    open spec fn encoding(&self) -> Seq<u8> {
        seq![self.b_length, self.b_descriptor_type]
            + codec::le16(self.bcd_usb)
            + seq![
                self.b_device_class,
                self.b_device_subclass,
                self.b_device_protocol,
                self.b_max_packet_size0,
            ]
            + codec::le16(self.id_vendor)
            + codec::le16(self.id_product)
            + codec::le16(self.bcd_device)
            + seq![
                self.i_manufacturer,
                self.i_product,
                self.i_serial_number,
                self.b_num_configurations,
            ]
    }

    open spec fn decoding(b: Seq<u8>) -> Option<Self> {
        Some(
            DeviceDescriptor {
                b_length: b[0],
                b_descriptor_type: b[1],
                bcd_usb: codec::u16_at(b, 2),
                b_device_class: b[4],
                b_device_subclass: b[5],
                b_device_protocol: b[6],
                b_max_packet_size0: b[7],
                id_vendor: codec::u16_at(b, 8),
                id_product: codec::u16_at(b, 10),
                bcd_device: codec::u16_at(b, 12),
                i_manufacturer: b[14],
                i_product: b[15],
                i_serial_number: b[16],
                b_num_configurations: b[17],
            },
        )
    }

    fn wire_size() -> usize {
        18
    }

    fn as_bytes(&self) -> Vec<u8> {
        let mut v: Vec<u8> = Vec::new();
        v.push(self.b_length);
        v.push(self.b_descriptor_type);
        push_u16(&mut v, self.bcd_usb);
        v.push(self.b_device_class);
        v.push(self.b_device_subclass);
        v.push(self.b_device_protocol);
        v.push(self.b_max_packet_size0);
        push_u16(&mut v, self.id_vendor);
        push_u16(&mut v, self.id_product);
        push_u16(&mut v, self.bcd_device);
        v.push(self.i_manufacturer);
        v.push(self.i_product);
        v.push(self.i_serial_number);
        v.push(self.b_num_configurations);
        assert(v@ =~= self.encoding());
        v
    }

    fn try_read_from_bytes(b: &[u8]) -> Option<Self> {
        Some(
            DeviceDescriptor {
                b_length: b[0],
                b_descriptor_type: b[1],
                bcd_usb: read_u16(b, 2),
                b_device_class: b[4],
                b_device_subclass: b[5],
                b_device_protocol: b[6],
                b_max_packet_size0: b[7],
                id_vendor: read_u16(b, 8),
                id_product: read_u16(b, 10),
                bcd_device: read_u16(b, 12),
                i_manufacturer: b[14],
                i_product: b[15],
                i_serial_number: b[16],
                b_num_configurations: b[17],
            },
        )
    }

    proof fn lemma_round_trip(&self) {
        let e = self.encoding();
        assert(codec::u16_at(e, 2) == codec::u16_at(codec::le16(self.bcd_usb), 0));
        codec::lemma_le16(self.bcd_usb);
        assert(codec::u16_at(e, 8) == codec::u16_at(codec::le16(self.id_vendor), 0));
        codec::lemma_le16(self.id_vendor);
        assert(codec::u16_at(e, 10) == codec::u16_at(codec::le16(self.id_product), 0));
        codec::lemma_le16(self.id_product);
        assert(codec::u16_at(e, 12) == codec::u16_at(codec::le16(self.bcd_device), 0));
        codec::lemma_le16(self.bcd_device);
    }

    proof fn lemma_canonical(b: Seq<u8>) {
        codec::lemma_le16_canonical(b, 2);
        codec::lemma_le16_canonical(b, 8);
        codec::lemma_le16_canonical(b, 10);
        codec::lemma_le16_canonical(b, 12);
        assert(Self::decoding(b)->0.encoding() =~= b);
    }
}


} // verus!
