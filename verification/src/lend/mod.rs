//! The lending side: what is asked of a device, and what comes of it.
use crate::buf;
use crate::proto::data::Data;
use crate::proto::frame;
use crate::proto::frame::padding;
use crate::proto::msg::UrbFrame;
use crate::proto::unpacked::{Frame, Sequenced};
use crate::proto::{AbortableError, RecvError};
use crate::usb::{Dir, Endpoint, IocSetupPacket, UrbType};
use bytes::BytesMut;
use vstd::prelude::*;

pub mod error;
pub mod laws;
pub mod send_loop;

verus! {

/// What a transfer moved: the bytes that a device gave, or the number of bytes that it took.
pub enum ResultData {
    In(BytesMut),
    Out { bytes_transferred: usize },
}

impl ResultData {
    /// The bytes that the device gave.
    pub open spec fn given(&self) -> Seq<u8> {
        match self {
            ResultData::In(buf) => buf::bytes_of(*buf),
            ResultData::Out { .. } => Seq::empty(),
        }
    }

    /// The number of bytes that the device gave or took.
    pub open spec fn moved(&self) -> nat {
        match self {
            ResultData::In(buf) => buf::bytes_of(*buf).len(),
            ResultData::Out { bytes_transferred } => *bytes_transferred as nat,
        }
    }

    pub fn new(buf: BytesMut, dir: Dir) -> (r: Self)
        ensures
            dir == Dir::In ==> r == ResultData::In(buf),
            dir == Dir::Out ==> r is Out && r.moved() == buf::bytes_of(buf).len(),
    {
        match dir {
            Dir::Out => ResultData::Out { bytes_transferred: buf::len(&buf) },
            Dir::In => ResultData::In(buf),
        }
    }

    pub fn actual_transfer_len(&self) -> (n: usize)
        ensures
            n == self.moved(),
    {
        match self {
            ResultData::In(buf) => buf::len(buf),
            ResultData::Out { bytes_transferred } => *bytes_transferred,
        }
    }

    pub fn get(&self) -> (b: &[u8])
        ensures
            b@ == self.given(),
    {
        match self {
            ResultData::In(buf) => buf::as_slice(buf),
            ResultData::Out { .. } => {
                let b: &[u8] = &[];
                assert(b@ =~= Seq::<u8>::empty());
                b
            },
        }
    }

    pub fn as_header_data(&self) -> (h: HeaderData<'_>)
        ensures
            h.actual_transfer_len == self.moved() % 65536,
            h.transfer@ == self.given(),
            h.padding@ == frame::padding_of(self.given().len()),
    {
        let actual_transfer_len: u16 = (self.actual_transfer_len() % 65536) as u16;
        let transfer = self.get();
        let n: usize = transfer.len();
        let padding = padding((n % 65536) as u16);
        proof {
            lemma_padding_low_bits(n as nat);
        }
        HeaderData { actual_transfer_len, transfer, padding }
    }
}

/// How much padding a buffer needs depends on the low bits of its length alone.
proof fn lemma_padding_low_bits(n: nat)
    ensures
        frame::padding_of(n % 65536) == frame::padding_of(n),
{
    let m = n % 65536;
    let k = n / 65536;
    assert(n == 65536 * k + m);
    assert((n + 7) / 8 == 8192 * k + (m + 7) / 8);
    assert(crate::utils::padded(n) - n == crate::utils::padded(m) - m);
}

/// What goes into a frame of what a transfer moved.
pub struct HeaderData<'a> {
    /// The length that goes into the `UrbHeader`.
    pub actual_transfer_len: u16,
    /// The bytes that go into the frame, none where the transfer went towards the device.
    pub transfer: &'a [u8],
    /// The zeros after these bytes, up to a multiple of eight.
    pub padding: Vec<u8>,
}

/// An isochronous transfer that is complete. The status is of the type `S`.
pub struct Iso<S> {
    pub res: ResultData,
    pub endpoint: Endpoint,
    pub interval: u16,
    pub raw_iso_buf: BytesMut,
    pub num_errors: u16,
    pub num_iso_packets: u16,
    pub status: S,
}

/// An interrupt transfer that is complete.
pub struct Int<S> {
    pub res: ResultData,
    pub endpoint: Endpoint,
    pub interval: u16,
    pub status: S,
}

/// A control transfer that is complete.
pub struct Ctrl<S> {
    pub res: ResultData,
    pub endpoint: Endpoint,
    pub status: S,
}

/// A bulk transfer that is complete.
pub struct Bulk<S> {
    pub res: ResultData,
    pub endpoint: Endpoint,
    pub status: S,
}

/// Something on the lending side that is complete.
pub enum CompletedTransfer<S, R> {
    Reset(Sequenced<R>),
    Ctrl(Sequenced<Ctrl<S>>),
    Int(Sequenced<Int<S>>),
    Iso(Sequenced<Iso<S>>),
    Bulk(Sequenced<Bulk<S>>),
}

#[derive(Debug, Clone, Copy, PartialEq, Eq, Structural)]
pub struct SetConfig {
    pub desired: u8,
}

#[derive(Debug, Clone, Copy, PartialEq, Eq, Structural)]
pub struct SetInterface {
    pub setting: u8,
    pub interface: u8,
}

#[derive(Debug, Clone, Copy, PartialEq, Eq, Structural)]
pub struct ClearStall {
    pub endpoint: u8,
}

/// A control request that the operating system has to be asked for.
#[derive(Debug, Clone, Copy, PartialEq, Eq, Structural)]
pub enum CtrlReq {
    SetInterface(SetInterface),
    SetConfig(SetConfig),
    ClearStall(ClearStall),
}

/// How a control request is to be served.
#[derive(Debug, Clone, Copy, PartialEq, Eq, Structural)]
pub enum CtrlKind {
    Blocking(CtrlReq),
    Async,
}

impl CtrlKind {
    /// How the control request of a setup packet is to be served.
    pub open spec fn of(setup_pkt: IocSetupPacket) -> CtrlKind {
        let req = (setup_pkt.bm_request_type, setup_pkt.b_request);
        if req == (0x01u8, 11u8) {
            CtrlKind::Blocking(
                CtrlReq::SetInterface(
                    SetInterface {
                        setting: (setup_pkt.w_value % 256) as u8,
                        interface: (setup_pkt.w_index % 256) as u8,
                    },
                ),
            )
        } else if req == (0x00u8, 9u8) {
            CtrlKind::Blocking(
                CtrlReq::SetConfig(SetConfig { desired: (setup_pkt.w_value % 256) as u8 }),
            )
        } else if req == (0x02u8, 1u8) {
            CtrlKind::Blocking(
                CtrlReq::ClearStall(ClearStall { endpoint: (setup_pkt.w_index % 256) as u8 }),
            )
        } else {
            CtrlKind::Async
        }
    }

    /// `SET_INTERFACE`, `SET_CONFIGURATION` and `CLEAR_FEATURE` of an endpoint go through the
    /// operating system; every other request goes to the device as it is.
    pub fn parse(setup_pkt: &IocSetupPacket) -> (k: Self)
        ensures
            k == CtrlKind::of(*setup_pkt),
    {
        match (setup_pkt.bm_request_type, setup_pkt.b_request) {
            (0x01, 11) => CtrlKind::Blocking(
                CtrlReq::SetInterface(
                    SetInterface {
                        setting: (setup_pkt.w_value % 256) as u8,
                        interface: (setup_pkt.w_index % 256) as u8,
                    },
                ),
            ),
            (0x00, 9) => CtrlKind::Blocking(
                CtrlReq::SetConfig(SetConfig { desired: (setup_pkt.w_value % 256) as u8 }),
            ),
            (0x02, 1) => CtrlKind::Blocking(
                CtrlReq::ClearStall(ClearStall { endpoint: (setup_pkt.w_index % 256) as u8 }),
            ),
            _ => CtrlKind::Async,
        }
    }
}

/// What the lending side is to start for a frame that it received.
pub enum LendAction {
    NewIso(Sequenced<Data<UrbFrame>>),
    NewInt(Sequenced<Data<UrbFrame>>),
    NewCtrl(Sequenced<Data<UrbFrame>>),
    NewBulk(Sequenced<Data<UrbFrame>>),
    SetInterface(Sequenced<SetInterface>),
    SetConfig(Sequenced<SetConfig>),
    ClearStall(Sequenced<ClearStall>),
    DeviceReset(u32),
    CancelUrb(u32),
}

/// What a frame from the borrower starts.
pub open spec fn dispatched(frame: Frame, action: LendAction) -> bool {
    match frame {
        Frame::Unlink(seqnum) => action == LendAction::CancelUrb(seqnum),
        Frame::PortReset(seqnum) => action == LendAction::DeviceReset(seqnum),
        Frame::Urb(urb) => match urb.data.head().kind {
            UrbType::Iso => action == LendAction::NewIso(urb),
            UrbType::Int => action == LendAction::NewInt(urb),
            UrbType::Bulk => action == LendAction::NewBulk(urb),
            UrbType::Ctrl => match CtrlKind::of(urb.data.head().ctrl_packet) {
                CtrlKind::Async => action == LendAction::NewCtrl(urb),
                CtrlKind::Blocking(CtrlReq::SetInterface(data)) => action
                    == LendAction::SetInterface(Sequenced { seqnum: urb.seqnum, data }),
                CtrlKind::Blocking(CtrlReq::SetConfig(data)) => action == LendAction::SetConfig(
                    Sequenced { seqnum: urb.seqnum, data },
                ),
                CtrlKind::Blocking(CtrlReq::ClearStall(data)) => action
                    == LendAction::ClearStall(Sequenced { seqnum: urb.seqnum, data }),
            },
        },
    }
}

/// Decides what a frame from the borrower starts.
pub fn dispatch(frame: Frame) -> (action: LendAction)
    requires
        frame matches Frame::Urb(urb) ==> urb.data.wf(),
    ensures
        dispatched(frame, action),
{
    match frame {
        Frame::Unlink(seqnum) => LendAction::CancelUrb(seqnum),
        Frame::PortReset(seqnum) => LendAction::DeviceReset(seqnum),
        Frame::Urb(urb) => {
            let header = urb.data.header();
            match header.kind {
                UrbType::Iso => LendAction::NewIso(urb),
                UrbType::Int => LendAction::NewInt(urb),
                UrbType::Bulk => LendAction::NewBulk(urb),
                UrbType::Ctrl => match CtrlKind::parse(&header.ctrl_packet) {
                    CtrlKind::Async => LendAction::NewCtrl(urb),
                    CtrlKind::Blocking(CtrlReq::SetInterface(data)) => LendAction::SetInterface(
                        Sequenced { seqnum: urb.seqnum, data },
                    ),
                    CtrlKind::Blocking(CtrlReq::SetConfig(data)) => LendAction::SetConfig(
                        Sequenced { seqnum: urb.seqnum, data },
                    ),
                    CtrlKind::Blocking(CtrlReq::ClearStall(data)) => LendAction::ClearStall(
                        Sequenced { seqnum: urb.seqnum, data },
                    ),
                },
            }
        },
    }
}

/// What happens to the loop that receives.
pub enum RecvEvent<E> {
    /// A frame was received and read, or receiving failed.
    Frame(Result<Result<Frame, AbortableError>, RecvError<E>>),
    /// Nothing more is received: the borrower has closed its side, or the lending was cancelled.
    Ended,
}

/// Decides what the loop that receives starts, or what it ends with. A frame that cannot be read is
/// corrupted data.
pub fn on_recv_event<E>(event: RecvEvent<E>) -> (r: Result<LendAction, Option<RecvError<E>>>)
    requires
        event matches RecvEvent::Frame(Ok(Ok(Frame::Urb(urb)))) ==> urb.data.wf(),
    ensures
        match event {
            RecvEvent::Frame(Ok(Ok(frame))) => r matches Ok(action) && dispatched(frame, action),
            RecvEvent::Frame(Ok(Err(_))) => r == Err::<LendAction, Option<RecvError<E>>>(
                Some(RecvError::CorruptedData),
            ),
            RecvEvent::Frame(Err(e)) => r == Err::<LendAction, Option<RecvError<E>>>(Some(e)),
            RecvEvent::Ended => r == Err::<LendAction, Option<RecvError<E>>>(None),
        },
{
    match event {
        RecvEvent::Frame(Ok(Ok(frame))) => Ok(dispatch(frame)),
        RecvEvent::Frame(Ok(Err(_))) => Err(Some(RecvError::CorruptedData)),
        RecvEvent::Frame(Err(e)) => Err(Some(e)),
        RecvEvent::Ended => Err(None),
    }
}

} // verus!
