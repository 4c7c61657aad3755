use bytes::BytesMut;
use qusb::borrow;
use qusb::lend;
use qusb::lend::error::{lend_outcome, loop_result, SeqError};
use qusb::lend::send_loop::{Action, State};
use qusb::lend::{dispatch, CompletedTransfer, CtrlKind, CtrlReq, LendAction, ResultData};
use qusb::operator::borrow::{
    does_reply_fit, fetch_plan, urb_reply, Fetched, HandleSeqnumLinker,
};
use qusb::operator::lend::FrameKind;
use qusb::operator::lend_recv::{
    blocking_done, blocking_result, ctrl_done, device_reset, does_ctrl_fit, does_iso_fit, int_done,
    iso_done, new_bulk, new_ctrl, new_int, new_iso, port_reset, BlockingOp,
};
use qusb::operator::loops::{BorrowSendLoop, BorrowStep, LendSendLoop};
use qusb::operator::recv::{
    borrow_action, classify, is_answer, lend_action, BorrowAction, BorrowError, InProgress, JobKind,
    Recv,
};
use qusb::operator::stats::{LendRecvStats, LendSendStats};
use qusb::operator::transfers::{BigTransfers, CancelTokens, SmallTransfers};
use qusb::proto::data::{Data, Ring};
use qusb::proto::msg::{Command, Header, QusbFrame, Status, UsbDeviceId};
use qusb::proto::unpacked::{Frame, Sequenced};
use qusb::proto::{
    parse_frame, recv_frame, AbortableError, RecvError, RecvStep, ReportableError, TransferError,
};
use qusb::usb;
use qusb::usb::{
    convert_libusb_to_vhci, Dir, Endpoint, IocIsoPacketData, IocIsoPacketGiveback, IocSetupPacket,
    IocUrb, PortStat, RusbError, TransferStatus, UrbHandle, UrbType, Work,
};
use qusb::utils::bytes_alloc::BytesAllocator;
use qusb::utils::metrics::Duration;

const ID: UsbDeviceId = UsbDeviceId {
    bus_number: 1,
    device_addr: 2,
};

fn setup(bm_request_type: u8, b_request: u8, w_value: u16, w_index: u16) -> IocSetupPacket {
    IocSetupPacket {
        bm_request_type,
        b_request,
        w_value,
        w_index,
        w_length: 0,
    }
}

fn urb(typ: UrbType, endpoint: u8, buffer_length: i32, packet_count: i32) -> IocUrb {
    IocUrb {
        setup_packet: setup(0, 0, 0, 0),
        buffer_length,
        interval: 4,
        packet_count,
        flags: 0x0206,
        address: 1,
        endpoint: Endpoint(endpoint),
        typ,
    }
}

fn idle() -> PortStat {
    PortStat {
        index: 1,
        connection: false,
        enable: false,
        reset: false,
        power: false,
        connection_changed: false,
        reset_changed: false,
        resuming: false,
    }
}

fn received(bytes: &[u8]) -> Data<QusbFrame> {
    let mut ring = Ring::with_capacity(64);
    ring.fill(bytes);
    match recv_frame(&mut ring) {
        RecvStep::Received(frame) => {
            assert!(ring.is_empty());
            frame
        }
        _ => panic!("no frame"),
    }
}

/// What the borrower writes for a request block.
fn written(work: Work, fetched: Fetched) -> (HandleSeqnumLinker, Vec<u8>) {
    let mut linker = HandleSeqnumLinker::new();
    let mut send = BorrowSendLoop::new();
    let step: Result<BorrowStep, ()> = send.on_work(&mut linker, work, UrbHandle(99), Ok(fetched));
    assert!(matches!(step, Ok(BorrowStep::Go(Action::ArmTimer))));
    assert_eq!(send.state, State::Timer);
    let bytes = send.on_timer();
    assert_eq!(send.on_flushed(), Action::Wait);
    assert_eq!(send.state, State::Solicit);
    (linker, bytes.to_vec())
}

fn nothing() -> Fetched {
    Fetched {
        transfer: vec![],
        packets: vec![],
    }
}

#[test]
fn bulk_goes_there_and_back() {
    let block = urb(UrbType::Bulk, 0x01, 5, 0);
    let plan = fetch_plan(&block);
    assert!(plan.needs_fetch);
    assert_eq!(plan.transfer_len, 5);
    let fetched = Fetched {
        transfer: vec![1, 2, 3, 4, 5],
        packets: vec![],
    };
    let (mut linker, bytes) = written(Work::ProcessUrb(block, UrbHandle(7)), fetched);
    assert_eq!(bytes.len(), 32 + 8);
    assert_eq!(linker.seqnum_of(UrbHandle(7)), Some(0));

    let frame = match parse_frame(received(&bytes)) {
        Ok(frame) => frame,
        Err(_) => panic!("not parsed"),
    };
    let request = match dispatch(frame) {
        LendAction::NewBulk(request) => request,
        _ => panic!("not a bulk transfer"),
    };
    assert_eq!(request.seqnum, 0);
    let mut scratch = BytesAllocator::with_capacity(2);
    let (header, data) = new_bulk(&mut scratch, request.data);
    assert_eq!(&data[..], &[1, 2, 3, 4, 5]);
    assert_eq!(header.flags, 0x0202);

    let done = qusb::operator::lend_recv::bulk_done(0, &header, data, usb::Status::Success);
    assert_eq!(done.data.res.actual_transfer_len(), 5);
    let mut tokens: CancelTokens<u8> = CancelTokens::new();
    tokens.register(0, 77);
    let mut reply = LendSendLoop::new(ID);
    let r = reply.on_event(&mut tokens, CompletedTransfer::Bulk(done), Status::Success);
    assert!(matches!(r, Ok(Action::ArmTimer)));
    assert_eq!(tokens.take_cached(), Some(77));
    let bytes = reply.on_timer();
    assert_eq!(bytes.len(), 32);
    match parse_frame(received(&bytes)) {
        Ok(Frame::Urb(urb)) => {
            assert!(does_reply_fit(&urb.data));
            let g = urb_reply(&mut linker, urb.seqnum, urb.data);
            assert_eq!(g.handle(), UrbHandle(7));
            assert_eq!(g.bytes_transferred(), 5);
            assert_eq!(g.dir(), Dir::Out);
            assert_eq!(g.status(), usb::Status::Success);
            assert_eq!(g.transfer(), &[] as &[u8]);
        }
        _ => panic!("not a reply"),
    }
    assert_eq!(linker.seqnum_of(UrbHandle(7)), None);
}

#[test]
fn interrupt_brings_data_back() {
    let block = urb(UrbType::Int, 0x83, 11, 0);
    assert!(!fetch_plan(&block).needs_fetch);
    let (mut linker, bytes) = written(Work::ProcessUrb(block, UrbHandle(8)), nothing());
    assert_eq!(bytes.len(), 32);
    let request = match dispatch(parse_frame(received(&bytes)).ok().unwrap()) {
        LendAction::NewInt(request) => request,
        _ => panic!("not an interrupt transfer"),
    };
    let mut scratch = BytesAllocator::with_capacity(2);
    let (header, mut room) = new_int(&mut scratch, request.data);
    assert_eq!(&room[..], &[0; 11]);
    room[0] = 42;
    room.truncate(9);
    let done = int_done(request.seqnum, &header, room, usb::Status::ShortPacket);
    assert_eq!(done.data.interval, 4);
    let mut tokens: CancelTokens<u8> = CancelTokens::new();
    let mut reply = LendSendLoop::new(ID);
    assert!(reply
        .on_event(&mut tokens, CompletedTransfer::Int(done), Status::Success)
        .is_ok());
    let bytes = reply.on_timer();
    assert_eq!(bytes.len(), 32 + 16);
    match parse_frame(received(&bytes)) {
        Ok(Frame::Urb(urb)) => {
            let g = urb_reply(&mut linker, urb.seqnum, urb.data);
            assert_eq!(g.transfer(), &[42, 0, 0, 0, 0, 0, 0, 0, 0]);
            assert_eq!(g.status(), usb::Status::ShortPacket);
            assert_eq!(g.kind(), UrbType::Int);
            assert_eq!(g.dir(), Dir::In);
        }
        _ => panic!("not a reply"),
    }
}

#[test]
fn isochronous_packets_go_there_and_back() {
    let block = urb(UrbType::Iso, 0x02, 6, 2);
    let packets = vec![
        IocIsoPacketData {
            offset: 0,
            packet_length: 3,
        },
        IocIsoPacketData {
            offset: 3,
            packet_length: 3,
        },
    ];
    let fetched = Fetched {
        transfer: vec![1, 2, 3, 4, 5, 6],
        packets: packets.clone(),
    };
    let (mut linker, bytes) = written(Work::ProcessUrb(block, UrbHandle(9)), fetched);
    assert_eq!(bytes.len(), 32 + 8 + 16);
    let recv = classify(received(&bytes));
    let request = match lend_action(recv) {
        LendAction::NewIso(request) => request,
        _ => panic!("not an isochronous transfer"),
    };
    assert!(does_iso_fit(&request.data));
    let mut scratch = BytesAllocator::with_capacity(2);
    let t = new_iso(&mut scratch, request.data);
    assert_eq!(t.packets, packets);
    assert_eq!(&t.buf[..], &[1, 2, 3, 4, 5, 6]);

    let outcomes = [
        IocIsoPacketGiveback {
            packet_actual: 3,
            status: 0,
        },
        IocIsoPacketGiveback {
            packet_actual: 0,
            status: -71,
        },
    ];
    let done = iso_done(
        request.seqnum,
        &t.header,
        t.raw_iso_buf,
        &outcomes,
        t.buf,
        usb::Status::Success,
    );
    assert_eq!(done.data.num_errors, 1);
    // the length is that of the request, whatever became of the packets
    assert_eq!(done.data.res.actual_transfer_len(), 6);
    let mut tokens: CancelTokens<u8> = CancelTokens::new();
    let mut reply = LendSendLoop::new(ID);
    assert!(reply
        .on_event(&mut tokens, CompletedTransfer::Iso(done), Status::Success)
        .is_ok());
    let bytes = reply.on_timer();
    match parse_frame(received(&bytes)) {
        Ok(Frame::Urb(urb)) => {
            assert_eq!(urb.data.header().num_errors, 1);
            let g = urb_reply(&mut linker, urb.seqnum, urb.data);
            assert_eq!(g.iso_packet_giveback(), outcomes.to_vec());
            assert_eq!(g.error_count(), 1);
        }
        _ => panic!("not a reply"),
    }
}

#[test]
fn control_carries_its_setup_packet() {
    let mut block = urb(UrbType::Ctrl, 0x80, 18, 0);
    block.setup_packet = setup(0x80, 6, 0x0100, 0);
    let (_, bytes) = written(Work::ProcessUrb(block, UrbHandle(1)), nothing());
    let request = match dispatch(parse_frame(received(&bytes)).ok().unwrap()) {
        LendAction::NewCtrl(request) => request,
        _ => panic!("not a control transfer"),
    };
    assert!(does_ctrl_fit(&request.data));
    let mut scratch = BytesAllocator::with_capacity(2);
    let t = new_ctrl(&mut scratch, request.data);
    assert_eq!(t.dir, Dir::In);
    assert_eq!(t.buf.len(), 8 + 18);
    assert_eq!(&t.buf[..4], &[0x80, 6, 0, 1]);
    assert!(!t.is_get_status);
    let mut completed = t.buf;
    completed[8] = 18;
    completed.truncate(10);
    let done = ctrl_done(3, completed, t.dir, t.endpoint, false, usb::Status::Success);
    assert_eq!(done.data.res.get(), &[18, 0]);
}

#[test]
fn devices_tell_that_they_have_power() {
    let completed = BytesMut::from(&[0x80, 0, 0, 0, 0, 0, 2, 0, 0, 0][..]);
    let done = ctrl_done(
        3,
        completed,
        Dir::In,
        Endpoint(0x80),
        true,
        usb::Status::Success,
    );
    assert_eq!(done.data.res.get(), &[1, 0]);
}

#[test]
fn some_control_requests_go_to_the_system() {
    assert_eq!(
        CtrlKind::parse(&setup(0x00, 9, 2, 0)),
        CtrlKind::Blocking(CtrlReq::SetConfig(qusb::lend::SetConfig { desired: 2 }))
    );
    assert_eq!(
        CtrlKind::parse(&setup(0x01, 11, 3, 4)),
        CtrlKind::Blocking(CtrlReq::SetInterface(qusb::lend::SetInterface {
            setting: 3,
            interface: 4
        }))
    );
    assert_eq!(
        CtrlKind::parse(&setup(0x02, 1, 0, 0x81)),
        CtrlKind::Blocking(CtrlReq::ClearStall(qusb::lend::ClearStall {
            endpoint: 0x81
        }))
    );
    assert_eq!(CtrlKind::parse(&setup(0x02, 3, 0, 0)), CtrlKind::Async);
    assert_eq!(blocking_done(5, ()).seqnum, 5);
    assert_eq!(blocking_result(BlockingOp::SetConfig, Ok(())), Ok(()));
    assert_eq!(
        blocking_result(BlockingOp::ClearStall, Err(RusbError::NoDevice)),
        Err(TransferError::Reportable(ReportableError::Stall))
    );
}

#[test]
fn resets_are_told_and_answered() {
    let mut linker = HandleSeqnumLinker::new();
    let mut send = BorrowSendLoop::new();
    let mut next = idle();
    next.reset = true;
    next.connection = true;
    let step: Result<BorrowStep, ()> = send.on_work(
        &mut linker,
        Work::PortStat(next),
        UrbHandle(5),
        Ok(nothing()),
    );
    assert!(matches!(step, Ok(BorrowStep::Go(Action::ArmTimer))));
    let bytes = send.on_timer();
    let seqnum = match parse_frame(received(&bytes)) {
        Ok(Frame::PortReset(seqnum)) => seqnum,
        _ => panic!("not a reset"),
    };
    assert_eq!(linker.seqnum_of(UrbHandle(5)), Some(seqnum));
    let mut tokens: CancelTokens<u8> = CancelTokens::new();
    let mut reply = LendSendLoop::new(ID);
    let done = CompletedTransfer::Reset(device_reset(seqnum));
    assert!(reply.on_event(&mut tokens, done, Status::Failed).is_ok());
    let bytes = reply.on_timer();
    match borrow::on_recv_event::<()>(borrow::RecvEvent::Frame(Ok(parse_frame(received(&bytes))))) {
        Ok(borrow::RecvStep::Do(qusb::operator::recv::BorrowAction::DeviceReset(n))) => {
            qusb::operator::borrow::device_reset(&mut linker, n)
        }
        _ => panic!("not an answer"),
    }
    assert!(!linker.knows(seqnum));
    assert_eq!(port_reset(Ok(())), Status::Success);
    assert_eq!(port_reset(Err(RusbError::Io)), Status::DevErr);
}

#[test]
fn a_reset_has_a_random_handle() {
    let mut linker = HandleSeqnumLinker::new();
    let mut handler = qusb::operator::borrow::BorrowSendHandler::new();
    let mut next = idle();
    next.reset = true;
    next.connection = true;
    assert!(handler.port_stat(&mut linker, next));
    assert!(linker.knows(0));
    assert!(!handler.is_buf_empty());
    // the port is in reset already
    assert!(handler.port_stat(&mut linker, next));
    assert!(!linker.knows(1));
}

#[test]
fn a_reset_needs_a_free_number() {
    let mut linker = HandleSeqnumLinker::new();
    let mut send = BorrowSendLoop::new();
    let next = PortStat {
        reset: true,
        connection: true,
        ..idle()
    };
    // nothing is under way, so that any handle will do
    assert_eq!(send.on_port_stat(&mut linker, next), Some(Action::ArmTimer));
    assert!(linker.knows(0));
    // a second device that shares the numbers
    let mut other = BorrowSendLoop::new();
    assert_eq!(other.on_port_stat(&mut linker, next), None);
    assert!(other.handler.is_buf_empty());
    assert_eq!(other.state, State::Solicit);
    // a port that does not reset needs none
    assert_eq!(
        other.on_port_stat(&mut linker, idle()),
        Some(Action::Wait)
    );
}

#[test]
fn frames_are_written_in_order() {
    let mut linker = HandleSeqnumLinker::new();
    let mut send = BorrowSendLoop::new();
    let mut work = |send: &mut BorrowSendLoop, handle: u64| {
        let block = Work::ProcessUrb(urb(UrbType::Int, 0x81, 8, 0), UrbHandle(handle));
        let step: Result<BorrowStep, ()> =
            send.on_work(&mut linker, block, UrbHandle(handle), Ok(nothing()));
        match step {
            Ok(BorrowStep::Go(action)) => action,
            _ => panic!("not sent"),
        }
    };
    assert_eq!(work(&mut send, 10), Action::ArmTimer);
    assert_eq!(work(&mut send, 11), Action::Wait);
    let mut written = send.on_timer().to_vec();
    assert_eq!(written.len(), 64);
    // no timer goes off while these are written
    assert!(!send.state.waits().timer);
    assert_eq!(work(&mut send, 12), Action::Wait);
    assert!(!send.state.waits().timer);
    assert_eq!(send.on_flushed(), Action::ArmTimer);
    written.extend_from_slice(&send.on_timer());
    assert_eq!(send.on_flushed(), Action::Wait);
    for (n, frame) in written.chunks(32).enumerate() {
        match parse_frame(received(frame)) {
            Ok(Frame::Urb(urb)) => assert_eq!(urb.seqnum as usize, n),
            _ => panic!("not a request"),
        }
    }
    assert_eq!(written.len(), 96);
}

#[test]
fn a_failed_fetch_lets_go_of_what_waits() {
    let mut linker = HandleSeqnumLinker::new();
    let mut send = BorrowSendLoop::new();
    let first = Work::ProcessUrb(urb(UrbType::Int, 0x81, 8, 0), UrbHandle(1));
    let step: Result<BorrowStep, u8> =
        send.on_work(&mut linker, first, UrbHandle(1), Ok(nothing()));
    assert!(step.is_ok());
    assert!(!send.handler.is_buf_empty());
    let second = Work::ProcessUrb(urb(UrbType::Bulk, 0x01, 5, 0), UrbHandle(2));
    let step = send.on_work(&mut linker, second, UrbHandle(2), Err(9));
    assert!(matches!(step, Err(9)));
    assert!(send.handler.is_buf_empty());
    assert_eq!(linker.seqnum_of(UrbHandle(2)), Some(1));
}

#[test]
fn work_is_looked_at_before_it_is_done() {
    let linker = HandleSeqnumLinker::new();
    let send = BorrowSendLoop::new();
    assert!(send.handler.is_ready());
    let fetched: Result<Fetched, ()> = Ok(nothing());
    let is_workable = |block: IocUrb| {
        let work = Work::ProcessUrb(block, UrbHandle(1));
        send.handler
            .is_workable(&linker, &work, UrbHandle(1), &fetched)
    };
    assert!(is_workable(urb(UrbType::Int, 0x81, 8, 0)));
    // too little was fetched, or there is too much for a frame
    assert!(!is_workable(urb(UrbType::Bulk, 0x01, 5, 0)));
    assert!(!is_workable(urb(UrbType::Bulk, 0x01, 65536, 0)));
    let mut block = urb(UrbType::Ctrl, 0, 65536, 0);
    block.setup_packet = setup(0, 5, 7, 0);
    block.address = 0;
    assert!(is_workable(block));
    let answer = CompletedTransfer::Reset(device_reset(4));
    assert!(LendSendLoop::new(ID).handler.does_event_fit(&answer));
}

#[test]
fn answers_are_written_in_order() {
    let mut tokens: CancelTokens<u8> = CancelTokens::new();
    let mut send = LendSendLoop::new(ID);
    let mut written = vec![];
    for seqnum in [4, 2] {
        let done = CompletedTransfer::Reset(device_reset(seqnum));
        assert!(send.on_event(&mut tokens, done, Status::Success).is_ok());
    }
    written.extend_from_slice(&send.on_timer());
    let done = CompletedTransfer::Reset(device_reset(9));
    assert!(matches!(
        send.on_event(&mut tokens, done, Status::Success),
        Ok(Action::Wait)
    ));
    assert!(!send.state.waits().timer);
    assert_eq!(send.on_flushed(), Action::ArmTimer);
    written.extend_from_slice(&send.on_timer());
    assert_eq!(send.on_flushed(), Action::Wait);
    let seqnums: Vec<u32> = written
        .chunks(8)
        .map(|frame| match parse_frame(received(frame)) {
            Ok(Frame::PortReset(seqnum)) => seqnum,
            _ => panic!("not an answer"),
        })
        .collect();
    assert_eq!(seqnums, vec![4, 2, 9]);
}

#[test]
fn canceled_requests_are_taken_back() {
    let block = urb(UrbType::Int, 0x81, 8, 0);
    let mut linker = HandleSeqnumLinker::new();
    let mut send = BorrowSendLoop::new();
    let first: Result<BorrowStep, ()> = send.on_work(
        &mut linker,
        Work::ProcessUrb(block, UrbHandle(4)),
        UrbHandle(0),
        Ok(nothing()),
    );
    assert!(first.is_ok());
    let _ = send.on_timer();
    let second: Result<BorrowStep, ()> = send.on_work(
        &mut linker,
        Work::CancelUrb(UrbHandle(4)),
        UrbHandle(0),
        Ok(nothing()),
    );
    // a write is under way
    assert!(matches!(second, Ok(BorrowStep::Go(Action::Wait))));
    assert_eq!(send.on_flushed(), Action::ArmTimer);
    let bytes = send.on_timer();
    match lend_action(classify(received(&bytes))) {
        LendAction::CancelUrb(seqnum) => assert_eq!(seqnum, 0),
        _ => panic!("not a cancellation"),
    }
    // what was never asked for is not taken back
    let third: Result<BorrowStep, ()> = send.on_work(
        &mut linker,
        Work::CancelUrb(UrbHandle(5)),
        UrbHandle(0),
        Ok(nothing()),
    );
    assert!(third.is_ok());
    assert!(send.handler.is_buf_empty());
}

#[test]
fn addresses_are_set_at_once() {
    let mut block = urb(UrbType::Ctrl, 0x00, 0, 0);
    block.address = 0;
    block.setup_packet = setup(0x00, 5, 9, 0);
    let mut linker = HandleSeqnumLinker::new();
    let mut send = BorrowSendLoop::new();
    let step: Result<BorrowStep, ()> = send.on_work(
        &mut linker,
        Work::ProcessUrb(block, UrbHandle(4)),
        UrbHandle(0),
        Ok(nothing()),
    );
    match step {
        Ok(BorrowStep::GiveBack(e)) => {
            assert_eq!(e.handle(), UrbHandle(4));
            assert_eq!(e.status(), usb::Status::Success);
            assert_eq!(e.kind(), UrbType::Ctrl);
            assert_eq!(e.bytes_transferred(), 0);
        }
        _ => panic!("not given back"),
    }
    assert!(send.addr_pending);
    assert_eq!(send.handler.addr, 9);
    send.on_address_set();
    assert!(!send.addr_pending);
}

#[test]
fn a_failed_fetch_ends_the_loop() {
    let block = urb(UrbType::Bulk, 0x01, 5, 0);
    let mut linker = HandleSeqnumLinker::new();
    let mut send = BorrowSendLoop::new();
    let step = send.on_work(
        &mut linker,
        Work::ProcessUrb(block, UrbHandle(4)),
        UrbHandle(0),
        Err("gone"),
    );
    assert!(matches!(step, Err("gone")));
    assert!(send.handler.is_buf_empty());
}

#[test]
fn failures_are_told_to_the_borrower() {
    let mut tokens: CancelTokens<u8> = CancelTokens::new();
    let mut reply = LendSendLoop::new(ID);
    let done = CompletedTransfer::Ctrl(blocking_done(6, usb::Status::DeviceDisconnected));
    match reply.on_event(&mut tokens, done, Status::NoDev) {
        Err(e) => {
            assert_eq!(e.id, ID);
            assert_eq!(e.kind.status(), Some(usb::Status::DeviceDisconnected));
            assert_eq!(e.kind.kind(), Some(UrbType::Ctrl));
            let h = e.as_header();
            assert_eq!(h.command, Command::RetSubmit);
            assert_eq!(h.status, Status::NoDev);
            assert_eq!(h.seqnum, 6);
            assert_eq!(h.total_frame_len, 1);
        }
        Ok(_) => panic!("no failure"),
    }
    assert_eq!(FrameKind::Reset.as_command(), Command::RetPort);
    assert_eq!(SeqError::Reset.as_command(), Command::RetPort);
    assert_eq!(SeqError::Reset.as_status(), Status::NoDev);
}

#[test]
fn transfers_have_a_status() {
    assert_eq!(
        convert_libusb_to_vhci(Err(RusbError::InvalidParam), usb::Status::Error),
        usb::Status::Stall
    );
    assert_eq!(
        convert_libusb_to_vhci(Err(RusbError::NoDevice), usb::Status::Error),
        usb::Status::DeviceDisconnected
    );
    assert_eq!(
        convert_libusb_to_vhci(Err(RusbError::NoMem), usb::Status::Babble),
        usb::Status::Babble
    );
    assert_eq!(
        convert_libusb_to_vhci(Ok(TransferStatus::Stall), usb::Status::Error),
        usb::Status::Stall
    );
}

#[test]
fn jobs_are_counted() {
    let mut jobs = InProgress::new();
    assert!(!jobs.waits_for(JobKind::Reset));
    assert_eq!(
        jobs.started(&LendAction::DeviceReset(1)),
        Some(JobKind::Reset)
    );
    assert_eq!(jobs.started(&LendAction::CancelUrb(1)), None);
    assert!(jobs.waits_for(JobKind::Reset));
    jobs.completed(JobKind::Reset);
    assert!(!jobs.waits_for(JobKind::Reset));
}

#[test]
fn tokens_are_used_again() {
    let mut tokens: CancelTokens<u8> = CancelTokens::new();
    assert_eq!(tokens.take_cached(), None);
    tokens.register(1, 10);
    tokens.register(2, 20);
    assert_eq!(tokens.cancel(1), Some(10));
    assert_eq!(tokens.cancel(1), None);
    tokens.deregister(2);
    assert_eq!(tokens.take_cached(), Some(20));
    tokens.register(3, 20);
    assert_eq!(tokens.take_all(), vec![20]);
}

#[test]
fn big_transfers_are_kept_by_size() {
    let mut kept = BigTransfers::new();
    kept.insert(8, 'a');
    kept.insert(8, 'b');
    kept.insert(32, 'c');
    kept.insert(8, 'd');
    // the least that has room
    assert_eq!(kept.remove(9), Some('c'));
    assert_eq!(kept.remove(9), None);
    assert_eq!(kept.remove(3), Some('d'));
    assert_eq!(kept.remove(3), Some('a'));
    assert_eq!(kept.remove(3), Some('b'));
    assert_eq!(kept.remove(0), None);
    let mut small = SmallTransfers::from_vec(vec![1, 2]);
    assert_eq!(small.remove(), Some(2));
    small.insert(3);
    assert_eq!(small.remove(), Some(3));
}

#[test]
fn loops_end_with_an_error_or_without() {
    assert_eq!(loop_result::<u8>(Ok(())), Ok(()));
    assert_eq!(loop_result::<u8>(Err(None)), Ok(()));
    assert_eq!(loop_result(Err(Some(4))), Err(4));
    assert_eq!(lend_outcome(Err(1), Err(2)), Err(1));
    assert_eq!(lend_outcome(Ok(()), Err(2)), Err(2));
    assert_eq!(borrow::borrow_outcome(Ok(()), Err(2), Err(3)), Err(2));
    assert_eq!(borrow::borrow_outcome(Ok(()), Ok(()), Err(3)), Err(3));
    assert_eq!(borrow::borrow_outcome(Err(1), Err(2), Ok(())), Err(1));
}

#[test]
fn what_comes_in_ends_the_borrowing_or_not() {
    assert!(matches!(
        borrow::on_recv_event::<u8>(borrow::RecvEvent::GivebackComplete(Ok(()))),
        Ok(borrow::RecvStep::Wait)
    ));
    assert!(matches!(
        borrow::on_recv_event::<u8>(borrow::RecvEvent::GivebackComplete(Err(3))),
        Err(Some(borrow::Error::Vhci(borrow::VhciError::Driver(3))))
    ));
    assert!(matches!(
        borrow::on_recv_event::<u8>(borrow::RecvEvent::Frame(Ok(Err(AbortableError::Oops)))),
        Err(Some(borrow::Error::Vhci(borrow::VhciError::Phys(
            AbortableError::Oops
        ))))
    ));
    assert!(matches!(
        borrow::on_recv_event::<u8>(borrow::RecvEvent::Frame(Err(RecvError::CorruptedData))),
        Err(Some(borrow::Error::Recv(RecvError::CorruptedData)))
    ));
    assert!(matches!(
        borrow::on_recv_event::<u8>(borrow::RecvEvent::Ended),
        Err(None)
    ));
}

#[test]
fn what_goes_out_ends_the_borrowing_or_not() {
    type Event = borrow::SendEvent<u8>;
    assert!(borrow::on_send_event(Event::Work(Ok(()))).is_ok());
    assert!(borrow::on_send_event(Event::SetAddress(Ok(()))).is_ok());
    assert!(borrow::on_send_event(Event::FlushComplete(Ok(()))).is_ok());
    assert!(matches!(
        borrow::on_send_event(Event::Work(Err(3))),
        Err(Some(borrow::Error::Vhci(borrow::VhciError::Driver(3))))
    ));
    assert!(matches!(
        borrow::on_send_event(Event::SetAddress(Err(4))),
        Err(Some(borrow::Error::Vhci(borrow::VhciError::Driver(4))))
    ));
    assert!(matches!(
        borrow::on_send_event(Event::FlushComplete(Err(5))),
        Err(Some(borrow::Error::Send(5)))
    ));
    assert!(matches!(borrow::on_send_event(Event::Ended), Err(None)));
}

#[test]
fn what_comes_in_ends_the_lending_or_not() {
    type Event = lend::RecvEvent<u8>;
    assert!(matches!(
        lend::on_recv_event(Event::Frame(Ok(Ok(Frame::PortReset(8))))),
        Ok(LendAction::DeviceReset(8))
    ));
    assert!(matches!(
        lend::on_recv_event(Event::Frame(Ok(Ok(Frame::Unlink(9))))),
        Ok(LendAction::CancelUrb(9))
    ));
    assert!(matches!(
        lend::on_recv_event(Event::Frame(Ok(Err(AbortableError::Oops)))),
        Err(Some(RecvError::CorruptedData))
    ));
    assert!(matches!(
        lend::on_recv_event(Event::Frame(Err(RecvError::Io(3)))),
        Err(Some(RecvError::Io(3)))
    ));
    assert!(matches!(lend::on_recv_event(Event::Ended), Err(None)));
    type Outcome = Result<(), lend::error::Error<u8>>;
    let outcome: Outcome = lend::error::recv_result(Err(Some(RecvError::CorruptedData)));
    assert!(matches!(
        outcome,
        Err(lend::error::Error::Recv(RecvError::CorruptedData))
    ));
    let outcome: Outcome = lend::error::recv_result(Err(None));
    assert!(outcome.is_ok());
}

#[test]
fn the_borrower_is_told_of_a_failure_last() {
    type Ended = Result<(), Option<lend::error::Error<u8, qusb::operator::lend::UsbError>>>;
    let failure = qusb::operator::lend::UsbError {
        id: ID,
        seqnum: 6,
        status: Status::NoDev,
        kind: FrameKind::Reset,
    };
    let failed: Ended = Err(Some(lend::error::Error::Usb(failure)));
    let header = failure.as_header();
    assert_eq!(lend::error::last_frame(&failed), Some(header));
    assert_eq!(
        lend::error::closing_steps(&failed),
        vec![
            lend::error::ClosingStep::Write(header),
            lend::error::ClosingStep::Cancel,
            lend::error::ClosingStep::Close,
            lend::error::ClosingStep::AwaitStopped,
        ]
    );
    assert_eq!(
        qusb::codec::Wire::as_bytes(&header),
        vec![1, 0, 5, 4, 6, 0, 0, 0]
    );
    let others: [Ended; 3] = [Ok(()), Err(None), Err(Some(lend::error::Error::Send(3)))];
    for other in others {
        assert_eq!(lend::error::last_frame(&other), None);
        assert_eq!(
            lend::error::closing_steps(&other),
            vec![
                lend::error::ClosingStep::Close,
                lend::error::ClosingStep::AwaitStopped,
            ]
        );
    }
    let reset: Result<(), Option<lend::error::Error<u8>>> =
        Err(Some(lend::error::Error::Usb(lend::error::UsbError {
            id: ID,
            seq: Sequenced {
                seqnum: 6,
                data: SeqError::Reset,
            },
        })));
    assert_eq!(lend::error::last_frame(&reset), Some(header));
}

#[test]
fn what_goes_out_ends_the_lending_or_not() {
    type Event = lend::error::SendEvent<u8, char>;
    assert!(lend::error::on_send_event(Event::Completed(Ok(()))).is_ok());
    assert!(lend::error::on_send_event(Event::FlushComplete(Ok(()))).is_ok());
    assert!(matches!(
        lend::error::on_send_event(Event::Completed(Err('x'))),
        Err(Some(lend::error::Error::Usb('x')))
    ));
    assert!(matches!(
        lend::error::on_send_event(Event::FlushComplete(Err(5))),
        Err(Some(lend::error::Error::Send(5)))
    ));
    assert!(matches!(lend::error::on_send_event(Event::Ended), Err(None)));
}

#[test]
fn results_go_into_headers() {
    let r = ResultData::new(BytesMut::from(&[7, 8, 9][..]), Dir::In);
    let h = r.as_header_data();
    assert_eq!(h.actual_transfer_len, 3);
    assert_eq!(h.transfer, &[7, 8, 9]);
    assert_eq!(h.padding, vec![0; 5]);
    let r = ResultData::new(BytesMut::from(&[7, 8, 9][..]), Dir::Out);
    let h = r.as_header_data();
    assert_eq!(h.actual_transfer_len, 3);
    assert_eq!(h.transfer, &[] as &[u8]);
    assert_eq!(h.padding, vec![]);
}

#[test]
fn lenders_measure() {
    let mut s = LendRecvStats::new();
    s.mark_start(2);
    s.mark_start(0);
    assert_eq!(s.max_active_transfers, 3);
    for n in 0..70 {
        s.mark_end(Duration { nanos: n }, UrbType::Bulk);
    }
    assert_eq!(s.last_few_setup_times.len(), 64);
    assert_eq!(s.max_setup_times.len(), 64);
    assert_eq!(s.min_setup_times.len(), 64);
    assert_eq!(
        s.last_few_setup_times.mean(),
        Some(Duration { nanos: 37 })
    );
    let mut s = LendSendStats::new();
    s.mark_complete();
    s.mark_complete();
    s.mark_iso();
    s.mark_flush();
    s.mark_complete();
    s.mark_flush();
    assert_eq!(s.max_completed_transfers_before_flush, 2);
    assert_eq!(s.num_transfers_completed, 0);
    assert_eq!(s.num_iso_transfers, 1);
}

#[test]
fn frames_are_sorted() {
    let (_, bytes) = written(
        Work::ProcessUrb(urb(UrbType::Int, 0x81, 8, 0), UrbHandle(3)),
        nothing(),
    );
    match classify(received(&bytes)) {
        Recv::Urb(header, Some(data)) => {
            assert_eq!(header.seqnum, 0);
            let seq = Sequenced {
                seqnum: header.seqnum,
                data,
            };
            assert!(matches!(
                dispatch(Frame::Urb(seq)),
                LendAction::NewInt(_)
            ));
        }
        _ => panic!("not a transfer"),
    }
}

#[test]
fn answers_are_told_apart() {
    let header = |status: Status| Header {
        total_frame_len: 1,
        command: Command::RetPort,
        status,
        seqnum: 6,
    };
    assert!(matches!(
        borrow_action(Recv::PortReset(header(Status::Success))),
        Ok(BorrowAction::DeviceReset(6))
    ));
    assert!(matches!(
        borrow_action(Recv::PortReset(header(Status::DevErr))),
        Err(BorrowError::DeviceError)
    ));
    assert!(matches!(
        borrow_action(Recv::Urb(header(Status::NoDev), None)),
        Err(BorrowError::Disconnected)
    ));
    assert!(matches!(
        borrow_action(Recv::Unlink(header(Status::Success))),
        Err(BorrowError::Unlink)
    ));
    assert!(is_answer(&Recv::PortReset(header(Status::NoDev))));
    assert!(!is_answer(&Recv::PortReset(header(Status::Timeout))));
    assert!(!is_answer(&Recv::Urb(header(Status::Success), None)));
}
