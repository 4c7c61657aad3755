use bytes::BytesMut;
use qusb::codec::Wire;
use qusb::proto::data::{Data, RawBytes, ReadError, Ring};
use qusb::proto::frame::{compress_frame_len, padding};
use qusb::proto::msg::{
    send_req, send_resp, Command, DataRate, Header, PackedKind, QusbFrame, Req, ReqFrame, Resp,
    Speed, Status, UrbFrame, UrbHeader, UrbKind, UsbDeviceId, Version,
};
use qusb::proto::urb::{
    Dir, IsoPacketDescriptor, IsoStatus, IsoUrbRecv, IsoUrbSend, IsoUrbWithoutPackets, NetI32,
    NetU32,
};
use qusb::proto::{
    is_understood, parse_frame, qusb_ver, recv_frame, AbortableError, ConvertError,
    GetSliceLen, GetSliceLenErr, RecvStep,
};
use qusb::proto::unpacked::Frame;
use qusb::usb;
use qusb::usb::{Endpoint, IocIsoPacketGiveback, IocSetupPacket, UrbType};

fn iso_urb(num_packets: i8) -> IsoUrbWithoutPackets {
    IsoUrbWithoutPackets {
        dev_id: NetU32(0),
        direction: Dir::Out,
        endpoint: NetI32(0),
        num_packets,
        is_asap: false,
        start_frame: NetI32(0),
        interval: NetI32(10),
        error_count: NetI32(0),
    }
}

#[test]
fn iso_convert_send_to_recv() {
    let iso = iso_urb(1);
    let packets = [IsoPacketDescriptor::default()];

    let mut buf = IsoUrbSend::new(&iso, &packets).unwrap();
    let mut vec: Vec<u8> = vec![];

    while buf.has_remaining() {
        let written = buf.chunk().len();
        vec.extend_from_slice(buf.chunk());
        buf.advance(written);
    }

    let r = IsoUrbRecv::try_from_bytes(&vec).unwrap();
    assert_eq!(r.packets[0].status, IsoStatus::Success);
}

#[test]
fn iso_packet_buffer() {
    let packets: &[IsoPacketDescriptor] = &[
        IsoPacketDescriptor::default(),
        IsoPacketDescriptor::default(),
    ];

    let mut bytes: Vec<u8> = vec![];
    for p in packets {
        bytes.extend(p.as_bytes());
    }
    assert_eq!(bytes.len(), 32);
}

#[test]
fn iso_is_sent_bit_by_bit() {
    let iso = iso_urb(2);
    let packets = [
        IsoPacketDescriptor::default(),
        IsoPacketDescriptor {
            offset: NetU32(0x01020304),
            ..IsoPacketDescriptor::default()
        },
    ];
    let mut buf = IsoUrbSend::new(&iso, &packets).unwrap();
    assert_eq!(buf.remaining(), 23 + 32);
    let mut vec: Vec<u8> = vec![];
    while buf.has_remaining() {
        vec.push(buf.chunk()[0]);
        buf.advance(1);
    }
    // the interval goes most significant byte first
    assert_eq!(&vec[14..18], &[0, 0, 0, 10]);
    assert_eq!(&vec[39..43], &[1, 2, 3, 4]);
    let r = IsoUrbRecv::try_from_bytes(&vec).unwrap();
    assert_eq!(r.packets.len(), 2);
    assert_eq!(r.urb.interval, NetI32(10));
    assert!(IsoUrbRecv::try_from_bytes(&vec[..50]).is_none());
    assert!(IsoUrbRecv::try_from_bytes(&vec[..20]).is_none());
}

#[test]
fn iso_counts_its_packets() {
    let packets = [IsoPacketDescriptor::default()];
    assert!(IsoUrbSend::new(&iso_urb(2), &packets).is_none());
}

#[test]
fn records_go_both_ways() {
    let v = Version {
        major: 1,
        minor: 2,
        patch: 0x0403,
    };
    assert_eq!(v.as_bytes(), vec![1, 2, 3, 4]);
    assert_eq!(Version::try_read_from_bytes(&[1, 2, 3, 4]), Some(v));
    let id = UsbDeviceId {
        bus_number: 5,
        device_addr: 6,
    };
    let req = ReqFrame {
        version: v,
        req: Req::LendDevice {
            data_rate: DataRate::High,
            dev_id: id,
        },
    };
    let bytes = req.as_bytes();
    assert_eq!(bytes.len(), 8);
    match ReqFrame::try_read_from_bytes(&bytes) {
        Some(ReqFrame {
            version,
            req: Req::LendDevice { data_rate, dev_id },
        }) => {
            assert_eq!(version, v);
            assert_eq!(data_rate, DataRate::High);
            assert_eq!(dev_id, id);
        }
        _ => panic!("not the request"),
    }
    let mut wrong = bytes.clone();
    wrong[4] = 9;
    assert!(ReqFrame::try_read_from_bytes(&wrong).is_none());
    assert_eq!(Speed::from_u8(4), Speed::Super);
    assert_eq!(Speed::from_u8(200), Speed::Unknown);
    assert!(qusb_ver().is_compat(&qusb_ver()));
}

#[test]
fn giveback_status_is_signed() {
    let g = IocIsoPacketGiveback {
        packet_actual: 7,
        status: -2,
    };
    assert_eq!(g.as_bytes(), vec![7, 0, 0, 0, 0xfe, 0xff, 0xff, 0xff]);
    assert_eq!(
        IocIsoPacketGiveback::try_read_from_bytes(&g.as_bytes()),
        Some(g)
    );
}

#[test]
fn kinds_are_packed() {
    assert_eq!(PackedKind::iso(127).get(), UrbKind::Iso(127));
    assert_eq!(PackedKind::interrupt().get(), UrbKind::Int);
    assert_eq!(PackedKind::ctrl().get(), UrbKind::Ctrl);
    assert_eq!(PackedKind::bulk().get(), UrbKind::Bulk);
    assert_eq!(PackedKind::bulk().inner, 0x82);
}

#[test]
fn frames_are_padded() {
    assert_eq!(padding(0), vec![]);
    assert_eq!(padding(5), vec![0, 0, 0]);
    assert_eq!(padding(16), vec![]);
    assert_eq!(compress_frame_len(40), 5);
    assert_eq!(compress_frame_len(8 * 65536 + 8), 1);
}

fn urb_header(out: bool, pending: bool, transfer_len: u16, packets: u16) -> UrbHeader {
    UrbHeader {
        actual_transfer_len: transfer_len,
        iso_packet_count: packets,
        endpoint: Endpoint(if out { 1 } else { 0x81 }),
        kind: UrbType::Bulk,
        interval: 0,
        status: if pending {
            usb::Status::Pending
        } else {
            usb::Status::Success
        },
        flags: 0,
        num_errors: 0,
        ctrl_packet: IocSetupPacket {
            bm_request_type: 0,
            b_request: 0,
            w_value: 0,
            w_index: 0,
            w_length: 0,
        },
    }
}

#[test]
fn data_travels_where_it_is_needed() {
    // a request towards the device and a reply from it carry data
    for (out, pending, carried) in [
        (true, true, 16),
        (true, false, 0),
        (false, true, 0),
        (false, false, 16),
    ] {
        let mut bytes = urb_header(out, pending, 10, 1).as_bytes();
        bytes.extend(vec![0; 100]);
        assert_eq!(UrbFrame::get_slice_len(&bytes), Ok(carried + 8));
    }
    let bytes = urb_header(true, true, 10, 0).as_bytes();
    assert_eq!(
        UrbFrame::get_slice_len(&bytes),
        Err(GetSliceLenErr::BufferShort {
            num_bytes_needed: 16
        })
    );
    assert_eq!(
        UrbFrame::get_slice_len(&bytes[..20]),
        Err(GetSliceLenErr::BufferShort { num_bytes_needed: 4 })
    );
}

#[test]
fn frames_tell_their_length() {
    assert_eq!(
        QusbFrame::get_slice_len(&[]),
        Err(GetSliceLenErr::BufferShort { num_bytes_needed: 8 })
    );
    assert_eq!(
        QusbFrame::get_slice_len(&[0, 0]),
        Err(GetSliceLenErr::NoConfidence)
    );
    assert_eq!(
        QusbFrame::get_slice_len(&[2, 0, 0, 0, 0, 0, 0, 0]),
        Err(GetSliceLenErr::BufferShort { num_bytes_needed: 8 })
    );
    assert_eq!(QusbFrame::get_slice_len(&[2; 4112]), Ok(0x0202 * 8 - 8));
    assert_eq!(
        GetSliceLenErr::from_convert_err(24, ConvertError::Size { src_len: 20 }),
        GetSliceLenErr::BufferShort { num_bytes_needed: 4 }
    );
    assert_eq!(
        GetSliceLenErr::from_convert_err(24, ConvertError::Validity),
        GetSliceLenErr::NoConfidence
    );
}

fn bare(command: Command, status: Status) -> Vec<u8> {
    Header {
        total_frame_len: 1,
        command,
        status,
        seqnum: 0x0a0b0c0d,
    }
    .as_bytes()
}

fn parsed(bytes: &[u8]) -> Result<Frame, AbortableError> {
    let mut ring = Ring::with_capacity(64);
    ring.fill(bytes);
    match recv_frame(&mut ring) {
        RecvStep::Received(frame) => {
            assert!(is_understood(&frame.header()));
            parse_frame(frame)
        }
        _ => panic!("no frame"),
    }
}

#[test]
fn bare_frames_are_parsed() {
    let bytes = bare(Command::CmdUnlink, Status::Success);
    assert_eq!(bytes, vec![1, 0, 1, 0, 0x0d, 0x0c, 0x0b, 0x0a]);
    assert!(matches!(parsed(&bytes), Ok(Frame::Unlink(0x0a0b0c0d))));
    let bytes = bare(Command::CmdPort, Status::Success);
    assert!(matches!(parsed(&bytes), Ok(Frame::PortReset(_))));
    let bytes = bare(Command::RetPort, Status::Success);
    assert!(matches!(parsed(&bytes), Ok(Frame::PortReset(_))));
}

#[test]
fn answers_may_be_errors() {
    for command in [Command::RetPort, Command::RetSubmit] {
        assert!(matches!(
            parsed(&bare(command, Status::DevErr)),
            Err(AbortableError::Proto)
        ));
        assert!(matches!(
            parsed(&bare(command, Status::NoDev)),
            Err(AbortableError::DeviceDisconnected)
        ));
        assert!(matches!(
            parsed(&bare(command, Status::Proto)),
            Err(AbortableError::Oops)
        ));
    }
    // a transfer needs its header
    assert!(matches!(
        parsed(&bare(Command::RetSubmit, Status::Success)),
        Err(AbortableError::InvalidData)
    ));
}

#[test]
fn frames_are_received_piece_by_piece() {
    let mut ring = Ring::with_capacity(64);
    assert!(matches!(recv_frame(&mut ring), RecvStep::Read { min_len: 8 }));
    let mut bytes = bare(Command::CmdUnlink, Status::Success);
    bytes[0] = 2;
    assert!(ring.fill(&bytes));
    assert!(matches!(
        recv_frame(&mut ring),
        RecvStep::Read { min_len: 16 }
    ));
    assert!(ring.fill(&[9; 9]));
    assert!(!ring.fill(&[]));
    match recv_frame(&mut ring) {
        RecvStep::Received(frame) => {
            assert_eq!(frame.len(), 16);
            assert_eq!(frame.get().data, &[9; 8]);
        }
        _ => panic!("no frame"),
    }
    assert_eq!(ring.chunk(), &[9]);
    ring.fill(&[0; 20]);
    ring.consume(1);
    assert!(matches!(recv_frame(&mut ring), RecvStep::Corrupted));
    assert_eq!(ring.remaining(), 20);
}

#[test]
fn ring_reads_records() {
    let mut ring = Ring::with_capacity(8);
    assert!(!ring.prepare_fill(4));
    ring.reserve(100);
    ring.fill(&[1, 2, 3]);
    assert_eq!(
        ring.peek::<Version>(),
        Err(ReadError::BufferShort { num_bytes_needed: 1 })
    );
    ring.fill(&[4, 200, 8]);
    assert!(ring.prepare_fill(4));
    ring.try_consolidate();
    let v = ring.read::<Version>().unwrap();
    assert_eq!(v.patch, 0x0403);
    assert_eq!(ring.read::<Status>(), Err(ReadError::CorruptedData));
    assert_eq!(ring.len(), 2);
    ring.consume(1);
    assert_eq!(ring.iter::<Status>(), vec![Status::Proto]);
    match ring.peek_mut::<Status>() {
        Ok(b) => b[0] = 0,
        Err(_) => panic!("no status"),
    }
    assert_eq!(ring.read::<Status>(), Ok(Status::Success));
    assert!(ring.is_empty());
}

#[test]
fn ring_hands_out_records_to_write_to() {
    let mut ring = Ring::with_capacity(8);
    ring.fill(&[1, 0, 0, 0, 2, 0, 0, 0, 3]);
    let mut n = 0;
    let mut it = ring.iter_mut::<Version>();
    while let Some((item, rest)) = it.next() {
        item[3] = 7;
        n += 1;
        it = rest;
    }
    assert_eq!(n, 2);
    assert_eq!(ring.chunk(), &[1, 0, 0, 7, 2, 0, 0, 7, 3]);
}

#[test]
fn data_owns_its_bytes() {
    let mut bytes = bare(Command::CmdSubmit, Status::Success);
    bytes[0] = 5;
    bytes.extend(urb_header(true, true, 3, 0).as_bytes());
    bytes.extend([1, 2, 3, 0, 0, 0, 0, 0]);
    let frame: Data<QusbFrame> = Data::new(BytesMut::from(&bytes[..])).unwrap();
    assert!(!frame.is_empty());
    assert_eq!(frame.as_bytes(), &bytes[..]);
    let (header, urb) = frame.split::<UrbFrame>();
    assert_eq!(header.as_bytes(), &bytes[..8]);
    assert_eq!(header.try_read().command, Command::CmdSubmit);
    let mut urb = urb.unwrap();
    assert_eq!(urb.header().actual_transfer_len, 3);
    urb.get_mut()[0] = 9;
    assert_eq!(urb.get().data, &[9, 2, 3, 0, 0, 0, 0, 0]);
    let raw = urb.split_data::<RawBytes>().unwrap();
    assert_eq!(&raw.into_bytes_mut()[..3], &[9, 2, 3]);
    assert!(Data::<QusbFrame>::new(BytesMut::from(&bytes[..7])).is_none());
}

#[test]
fn data_of_a_fixed_size_is_read() {
    let version: Data<Version> = Data::new(BytesMut::from(&[1, 2, 3, 0][..])).unwrap();
    assert_eq!(version.read().as_bytes(), vec![1, 2, 3, 0]);
    assert!(Data::<Version>::new(BytesMut::from(&[1, 2, 3][..])).is_none());
    let mut bytes = bare(Command::RetSubmit, Status::NoDev);
    let header: Data<Header> = Data::new(BytesMut::from(&bytes[..])).unwrap();
    assert_eq!(header.try_read().command, Command::RetSubmit);
    assert_eq!(header.try_read().status, Status::NoDev);
    // no command has this number
    bytes[2] = 99;
    bytes[3] = 99;
    assert!(Data::<Header>::new(BytesMut::from(&bytes[..])).is_none());
}

#[test]
fn errors_have_a_status() {
    assert_eq!(AbortableError::Oops.as_proto(), Status::Failed);
    assert_eq!(AbortableError::Other.as_proto(), Status::Unexpected);
    assert_eq!(
        ReadError::from(GetSliceLenErr::NoConfidence),
        ReadError::CorruptedData
    );
    assert_eq!(
        ReadError::from(GetSliceLenErr::BufferShort { num_bytes_needed: 3 }),
        ReadError::BufferShort { num_bytes_needed: 3 }
    );
}

#[test]
fn ring_shows_records_with_slices() {
    let mut ring = Ring::with_capacity(64);
    let mut bytes = urb_header(true, true, 3, 0).as_bytes();
    let header_len = bytes.len();
    ring.fill(&bytes);
    assert!(ring.peek_dst::<UrbFrame>().is_err());
    assert!(ring.peek_mut_dst::<UrbFrame>().is_err());
    ring.fill(&[1, 2, 3, 0, 0, 0, 0, 0, 77]);
    bytes.extend([1, 2, 3, 0, 0, 0, 0, 0]);
    match ring.peek_dst::<UrbFrame>() {
        Ok(frame) => {
            assert_eq!(frame.header.actual_transfer_len, 3);
            assert_eq!(frame.data, &[1, 2, 3, 0, 0, 0, 0, 0]);
        }
        Err(_) => panic!("no frame"),
    }
    match ring.peek_mut_dst::<UrbFrame>() {
        Ok(frame) => {
            assert_eq!(&frame[..], &bytes[..]);
            frame[header_len] = 9;
        }
        Err(_) => panic!("no frame"),
    }
    assert_eq!(ring.len(), header_len + 9);
    assert_eq!(&ring.chunk()[header_len..], &[9, 2, 3, 0, 0, 0, 0, 0, 77]);
}

#[test]
fn headers_tell_replies() {
    assert!(!urb_header(true, true, 0, 0).is_reply());
    assert!(urb_header(true, false, 0, 0).is_reply());
}

#[test]
fn requests_carry_the_version() {
    let dev_id = UsbDeviceId {
        bus_number: 3,
        device_addr: 4,
    };
    let req = Req::BorrowDevice {
        _padding: [0],
        dev_id,
    };
    assert_eq!(send_req(req), vec![0, 4, 0, 0, 1, 0, 3, 4]);
    let resp = Resp::BorrowDevice {
        data_rate: DataRate::High,
        _padding: [0; 6],
    };
    assert_eq!(send_resp(resp), vec![1, 2, 0, 0, 0, 0, 0, 0]);
}
