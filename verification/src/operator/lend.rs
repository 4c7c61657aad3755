//! What the lending side sends back to the borrower.
use crate::buf;
use crate::codec::Wire;
use crate::lend::error::DeviceError;
use crate::lend::{Bulk, Ctrl, Int, Iso, ResultData};
use crate::operator::transfers::CancelTokens;
use crate::proto::frame;
use crate::proto::frame::{compress_frame_len, put_frame};
use crate::proto::msg::{Command, Header, Status, UrbHeader, UsbDeviceId};
use crate::proto::unpacked::Sequenced;
use crate::usb;
use crate::usb::{Endpoint, IocSetupPacket, UrbType};
use bytes::BytesMut;
use vstd::prelude::*;

verus! {

/// What failed on the device.
#[derive(Debug, Clone, Copy, PartialEq, Eq, Structural)]
pub enum FrameKind {
    Reset,
    Transfer { kind: UrbType, endpoint: Endpoint, status: usb::Status },
}

impl FrameKind {
    /// The answer that carries the failure.
    pub open spec fn command(self) -> Command {
        match self {
            FrameKind::Reset => Command::RetPort,
            FrameKind::Transfer { .. } => Command::RetSubmit,
        }
    }

    pub fn as_command(&self) -> (c: Command)
        ensures
            c == self.command(),
    {
        match self {
            FrameKind::Reset => Command::RetPort,
            FrameKind::Transfer { .. } => Command::RetSubmit,
        }
    }

    pub fn status(&self) -> (s: Option<usb::Status>)
        ensures
            s == (match *self {
                FrameKind::Reset => None::<usb::Status>,
                FrameKind::Transfer { status, .. } => Some(status),
            }),
    {
        match self {
            FrameKind::Reset => None,
            FrameKind::Transfer { status, .. } => Some(*status),
        }
    }

    pub fn kind(&self) -> (k: Option<UrbType>)
        ensures
            k == (match *self {
                FrameKind::Reset => None::<UrbType>,
                FrameKind::Transfer { kind, .. } => Some(kind),
            }),
    {
        match self {
            FrameKind::Reset => None,
            FrameKind::Transfer { kind, .. } => Some(*kind),
        }
    }
}

/// A failure that ends the lending and is told to the borrower.
#[derive(Debug, Clone, Copy, PartialEq, Eq, Structural)]
pub struct UsbError {
    pub id: UsbDeviceId,
    pub seqnum: u32,
    pub status: Status,
    pub kind: FrameKind,
}

impl UsbError {
    /// The frame that tells the borrower.
    pub fn as_header(&self) -> (h: Header)
        ensures
            h == frame::header_for(self.kind.command(), self.status, self.seqnum, 8),
    {
        Header {
            total_frame_len: compress_frame_len(8),
            command: self.kind.as_command(),
            status: self.status,
            seqnum: self.seqnum,
        }
    }
}

impl DeviceError for UsbError {
    open spec fn header(&self) -> Header {
        frame::header_for(self.kind.command(), self.status, self.seqnum, 8)
    }

    fn to_header(&self) -> Header {
        self.as_header()
    }
}

/// The bytes of a transfer and the zeros that round them up.
pub open spec fn padded_transfer(transfer: Seq<u8>) -> Seq<u8> {
    transfer + frame::padding_of(transfer.len())
}

pub open spec fn no_setup() -> IocSetupPacket {
    IocSetupPacket { bm_request_type: 0, b_request: 0, w_value: 0, w_index: 0, w_length: 0 }
}

/// The header of a reply of a transfer without isochronous packets.
pub open spec fn reply_header(
    kind: UrbType,
    endpoint: Endpoint,
    interval: u16,
    status: usb::Status,
    res: ResultData,
) -> UrbHeader {
    UrbHeader {
        actual_transfer_len: (res.moved() % 65536) as u16,
        iso_packet_count: 0,
        endpoint,
        kind,
        interval,
        status,
        flags: 0,
        num_errors: 0,
        ctrl_packet: no_setup(),
    }
}

/// The header of a reply of an isochronous transfer.
pub open spec fn iso_reply_header(iso: Iso<usb::Status>) -> UrbHeader {
    UrbHeader {
        iso_packet_count: iso.num_iso_packets,
        num_errors: iso.num_errors,
        ..reply_header(UrbType::Iso, iso.endpoint, iso.interval, iso.status, iso.res)
    }
}

/// The frame that carries a reply to the borrower.
pub open spec fn reply_frame(
    seqnum: u32,
    header: UrbHeader,
    res: ResultData,
    packets: Seq<u8>,
) -> Seq<u8> {
    frame::urb_frame(
        Command::RetSubmit,
        Status::Success,
        seqnum,
        header,
        padded_transfer(res.given()) + packets,
    )
}

/// What becomes of the tokens when a transfer is complete.
pub open spec fn deregistered<T>(
    before: CancelTokens<T>,
    after: CancelTokens<T>,
    seqnum: u32,
) -> bool {
    &&& after.active@ == before.active@.remove(seqnum)
    &&& after.cached@ == (if before.active@.contains_key(seqnum) {
        before.cached@.push(before.active@[seqnum])
    } else {
        before.cached@
    })
}

/// The replies that wait to be written to the borrower.
pub struct LendSendHandler {
    pub dev_id: UsbDeviceId,
    pub buf: BytesMut,
}

impl LendSendHandler {
    /// The bytes that wait.
    pub open spec fn waiting(&self) -> Seq<u8> {
        buf::bytes_of(self.buf)
    }

    /// Tells whether a reply fits into the buffer.
    pub open spec fn has_room(&self, res: ResultData, packets: Seq<u8>) -> bool {
        self.waiting().len() + 40 + res.given().len() + packets.len() <= buf::max_len()
    }

    /// Tells whether so many bytes for headers, a transfer and packets fit into the buffer.
    pub fn does_fit(&self, head: usize, given: &[u8], packets: &[u8]) -> (b: bool)
        ensures
            b <==> self.waiting().len() + head + given@.len() + packets@.len() <= buf::max_len(),
    {
        let waiting: u128 = buf::len(&self.buf) as u128;
        let more: u128 = head as u128 + given.len() as u128 + packets.len() as u128;
        waiting + more <= isize::MAX as u128 / 4
    }

    pub fn new(dev_id: UsbDeviceId) -> (h: Self)
        ensures
            h.dev_id == dev_id,
            h.waiting() == Seq::<u8>::empty(),
    {
        LendSendHandler { dev_id, buf: buf::with_capacity(65535) }
    }

    pub fn is_buf_empty(&self) -> (b: bool)
        ensures
            b <==> self.waiting().len() == 0,
    {
        buf::len(&self.buf) == 0
    }

    /// Takes all bytes that wait.
    pub fn flush_buf(&mut self) -> (b: BytesMut)
        ensures
            buf::bytes_of(b) == old(self).waiting(),
            final(self).waiting() == Seq::<u8>::empty(),
            final(self).dev_id == old(self).dev_id,
    {
        buf::split(&mut self.buf)
    }

    fn usb_error(
        &self,
        seqnum: u32,
        status: Status,
        kind: UrbType,
        endpoint: Endpoint,
        vhci_status: usb::Status,
    ) -> (e: UsbError)
        ensures
            e == transfer_error(self.dev_id, seqnum, status, kind, endpoint, vhci_status),
    {
        UsbError {
            id: self.dev_id,
            seqnum,
            status,
            kind: FrameKind::Transfer { kind, endpoint, status: vhci_status },
        }
    }

    fn put_reply(&mut self, seqnum: u32, urb_header: UrbHeader, res: &ResultData, packets: &[u8])
        requires
            old(self).has_room(*res, packets@),
            urb_header.actual_transfer_len == (res.moved() % 65536) as u16,
        ensures
            final(self).dev_id == old(self).dev_id,
            final(self).waiting() == old(self).waiting() + reply_frame(
                seqnum,
                urb_header,
                *res,
                packets@,
            ),
    {
        let header_data = res.as_header_data();
        let transfer_len: usize = header_data.transfer.len();
        let padding_len: usize = header_data.padding.len();
        proof {
            crate::utils::law_padded(res.given().len());
        }
        let total: usize = 32 + transfer_len + padding_len + packets.len();
        let header = Header {
            total_frame_len: compress_frame_len(total),
            command: Command::RetSubmit,
            status: Status::Success,
            seqnum,
        };
        put_frame(
            &mut self.buf,
            &header,
            &urb_header,
            header_data.transfer,
            header_data.padding.as_slice(),
            packets,
        );
    }

    /// Puts the reply of an isochronous transfer in the buffer. `status` is what the transfer's
    /// status means to the borrower; nothing is put in the buffer where it is a failure.
    pub fn iso_completed<T>(
        &mut self,
        tokens: &mut CancelTokens<T>,
        iso: Sequenced<Iso<usb::Status>>,
        status: Status,
    ) -> (r: Result<(), UsbError>)
        requires
            old(self).has_room(iso.data.res, buf::bytes_of(iso.data.raw_iso_buf)),
        ensures
            deregistered(*old(tokens), *final(tokens), iso.seqnum),
            final(self).dev_id == old(self).dev_id,
            status == Status::Success ==> r is Ok && final(self).waiting() == old(self).waiting()
                + reply_frame(
                iso.seqnum,
                iso_reply_header(iso.data),
                iso.data.res,
                buf::bytes_of(iso.data.raw_iso_buf),
            ),
            status != Status::Success ==> final(self).waiting() == old(self).waiting() && r
                == Err::<(), UsbError>(
                transfer_error(
                    old(self).dev_id,
                    iso.seqnum,
                    status,
                    UrbType::Iso,
                    iso.data.endpoint,
                    iso.data.status,
                ),
            ),
    {
        tokens.deregister(iso.seqnum);
        let seqnum: u32 = iso.seqnum;
        let iso = iso.data;
        match status {
            Status::Success => {},
            _ => {
                return Err(
                    self.usb_error(seqnum, status, UrbType::Iso, iso.endpoint, iso.status),
                );
            },
        }
        let urb_header = UrbHeader {
            actual_transfer_len: (iso.res.actual_transfer_len() % 65536) as u16,
            iso_packet_count: iso.num_iso_packets,
            endpoint: iso.endpoint,
            kind: UrbType::Iso,
            interval: iso.interval,
            status: iso.status,
            flags: 0,
            num_errors: iso.num_errors,
            ctrl_packet: empty_setup(),
        };
        self.put_reply(seqnum, urb_header, &iso.res, buf::as_slice(&iso.raw_iso_buf));
        Ok(())
    }

    /// Puts the reply of an interrupt transfer in the buffer.
    pub fn int_completed<T>(
        &mut self,
        tokens: &mut CancelTokens<T>,
        transfer: Sequenced<Int<usb::Status>>,
        status: Status,
    ) -> (r: Result<(), UsbError>)
        requires
            old(self).has_room(transfer.data.res, Seq::empty()),
        ensures
            deregistered(*old(tokens), *final(tokens), transfer.seqnum),
            final(self).dev_id == old(self).dev_id,
            status == Status::Success ==> r is Ok && final(self).waiting() == old(self).waiting()
                + reply_frame(
                transfer.seqnum,
                reply_header(
                    UrbType::Int,
                    transfer.data.endpoint,
                    transfer.data.interval,
                    transfer.data.status,
                    transfer.data.res,
                ),
                transfer.data.res,
                Seq::empty(),
            ),
            status != Status::Success ==> final(self).waiting() == old(self).waiting() && r
                == Err::<(), UsbError>(
                transfer_error(
                    old(self).dev_id,
                    transfer.seqnum,
                    status,
                    UrbType::Int,
                    transfer.data.endpoint,
                    transfer.data.status,
                ),
            ),
    {
        let Int { res, endpoint, interval, status: vhci_status } = transfer.data;
        self.completed(
            tokens,
            transfer.seqnum,
            UrbType::Int,
            endpoint,
            interval,
            vhci_status,
            &res,
            status,
        )
    }

    /// Puts the reply of a control transfer in the buffer.
    pub fn ctrl_completed<T>(
        &mut self,
        tokens: &mut CancelTokens<T>,
        transfer: Sequenced<Ctrl<usb::Status>>,
        status: Status,
    ) -> (r: Result<(), UsbError>)
        requires
            old(self).has_room(transfer.data.res, Seq::empty()),
        ensures
            deregistered(*old(tokens), *final(tokens), transfer.seqnum),
            final(self).dev_id == old(self).dev_id,
            status == Status::Success ==> r is Ok && final(self).waiting() == old(self).waiting()
                + reply_frame(
                transfer.seqnum,
                reply_header(
                    UrbType::Ctrl,
                    transfer.data.endpoint,
                    0,
                    transfer.data.status,
                    transfer.data.res,
                ),
                transfer.data.res,
                Seq::empty(),
            ),
            status != Status::Success ==> final(self).waiting() == old(self).waiting() && r
                == Err::<(), UsbError>(
                transfer_error(
                    old(self).dev_id,
                    transfer.seqnum,
                    status,
                    UrbType::Ctrl,
                    transfer.data.endpoint,
                    transfer.data.status,
                ),
            ),
    {
        let Ctrl { res, endpoint, status: vhci_status } = transfer.data;
        self.completed(
            tokens,
            transfer.seqnum,
            UrbType::Ctrl,
            endpoint,
            0,
            vhci_status,
            &res,
            status,
        )
    }

    /// Puts the reply of a bulk transfer in the buffer.
    pub fn bulk_completed<T>(
        &mut self,
        tokens: &mut CancelTokens<T>,
        transfer: Sequenced<Bulk<usb::Status>>,
        status: Status,
    ) -> (r: Result<(), UsbError>)
        requires
            old(self).has_room(transfer.data.res, Seq::empty()),
        ensures
            deregistered(*old(tokens), *final(tokens), transfer.seqnum),
            final(self).dev_id == old(self).dev_id,
            status == Status::Success ==> r is Ok && final(self).waiting() == old(self).waiting()
                + reply_frame(
                transfer.seqnum,
                reply_header(
                    UrbType::Bulk,
                    transfer.data.endpoint,
                    0,
                    transfer.data.status,
                    transfer.data.res,
                ),
                transfer.data.res,
                Seq::empty(),
            ),
            status != Status::Success ==> final(self).waiting() == old(self).waiting() && r
                == Err::<(), UsbError>(
                transfer_error(
                    old(self).dev_id,
                    transfer.seqnum,
                    status,
                    UrbType::Bulk,
                    transfer.data.endpoint,
                    transfer.data.status,
                ),
            ),
    {
        let Bulk { res, endpoint, status: vhci_status } = transfer.data;
        self.completed(
            tokens,
            transfer.seqnum,
            UrbType::Bulk,
            endpoint,
            0,
            vhci_status,
            &res,
            status,
        )
    }

    fn completed<T>(
        &mut self,
        tokens: &mut CancelTokens<T>,
        seqnum: u32,
        kind: UrbType,
        endpoint: Endpoint,
        interval: u16,
        vhci_status: usb::Status,
        res: &ResultData,
        status: Status,
    ) -> (r: Result<(), UsbError>)
        requires
            old(self).has_room(*res, Seq::empty()),
        ensures
            deregistered(*old(tokens), *final(tokens), seqnum),
            final(self).dev_id == old(self).dev_id,
            status == Status::Success ==> r is Ok && final(self).waiting() == old(self).waiting()
                + reply_frame(
                seqnum,
                reply_header(kind, endpoint, interval, vhci_status, *res),
                *res,
                Seq::empty(),
            ),
            status != Status::Success ==> final(self).waiting() == old(self).waiting() && r
                == Err::<(), UsbError>(
                transfer_error(old(self).dev_id, seqnum, status, kind, endpoint, vhci_status),
            ),
    {
        tokens.deregister(seqnum);
        match status {
            Status::Success => {},
            _ => return Err(self.usb_error(seqnum, status, kind, endpoint, vhci_status)),
        }
        let urb_header = UrbHeader {
            actual_transfer_len: (res.actual_transfer_len() % 65536) as u16,
            iso_packet_count: 0,
            endpoint,
            kind,
            interval,
            status: vhci_status,
            flags: 0,
            num_errors: 0,
            ctrl_packet: empty_setup(),
        };
        let none: &[u8] = &[];
        assert(none@ =~= Seq::<u8>::empty());
        self.put_reply(seqnum, urb_header, res, none);
        Ok(())
    }

    /// Puts the answer to a port reset in the buffer.
    pub fn device_resetted(&mut self, reset: Sequenced<Status>) -> (r: Result<(), UsbError>)
        requires
            old(self).waiting().len() + 8 <= buf::max_len(),
        ensures
            final(self).dev_id == old(self).dev_id,
            reset.data == Status::Success ==> r is Ok && final(self).waiting() == old(
                self,
            ).waiting() + frame::bare_frame(Command::RetPort, Status::Success, reset.seqnum),
            reset.data != Status::Success ==> final(self).waiting() == old(self).waiting() && r
                == Err::<(), UsbError>(
                UsbError {
                    id: old(self).dev_id,
                    seqnum: reset.seqnum,
                    status: reset.data,
                    kind: FrameKind::Reset,
                },
            ),
    {
        match reset.data {
            Status::Success => {
                let header = Header {
                    total_frame_len: compress_frame_len(8),
                    command: Command::RetPort,
                    status: Status::Success,
                    seqnum: reset.seqnum,
                };
                let head = header.as_bytes();
                proof {
                    header.lemma_round_trip();
                }
                buf::put_slice(&mut self.buf, head.as_slice());
                Ok(())
            },
            status => Err(
                UsbError {
                    id: self.dev_id,
                    seqnum: reset.seqnum,
                    status,
                    kind: FrameKind::Reset,
                },
            ),
        }
    }
}

/// The failure of a transfer.
pub open spec fn transfer_error(
    id: UsbDeviceId,
    seqnum: u32,
    status: Status,
    kind: UrbType,
    endpoint: Endpoint,
    vhci_status: usb::Status,
) -> UsbError {
    UsbError {
        id,
        seqnum,
        status,
        kind: FrameKind::Transfer { kind, endpoint, status: vhci_status },
    }
}

pub fn empty_setup() -> (p: IocSetupPacket)
    ensures
        p == no_setup(),
{
    IocSetupPacket { bm_request_type: 0, b_request: 0, w_value: 0, w_index: 0, w_length: 0 }
}

} // verus!
