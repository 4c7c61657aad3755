use bytes::BytesMut;
use qusb::dev::demux::{self, DemuxAction, RegisterPort};
use qusb::dev::task::{Nice, Next, Scheduler, Task, TaskName, Turn};
use qusb::dev::{
    after_fetch, enumeration_step, route_new_work, FetchError, FetchNext, WorkRoute,
};
use qusb::iso;
use qusb::operator::device::{InterfaceStatus, Interfaces, Probe, BASE_CONFIG, NUM_INTERFACES};
use qusb::proto::msg::{Command, Status, UrbHeader, UsbDeviceId};
use qusb::state::{
    read_step, ClientBorrowDevice, DescriptorType, LendRequest, ReadStep, ServerLendDevice,
    UrbWithIsoData, UrbWithIsoGiveback, WorkAction, NO_ADDRESS,
};
use qusb::stub;
use qusb::usb;
use qusb::usb::{
    Endpoint, IocIsoPacketData, IocIsoPacketGiveback, IocSetupPacket, IocUrb, PortStat, RusbError,
    UrbHandle, UrbType, Work,
};

const ID: UsbDeviceId = UsbDeviceId {
    bus_number: 1,
    device_addr: 2,
};

fn port(index: u8) -> PortStat {
    PortStat {
        index,
        connection: false,
        enable: false,
        reset: false,
        power: false,
        connection_changed: false,
        reset_changed: false,
        resuming: false,
    }
}

fn block(typ: UrbType, address: u8) -> IocUrb {
    IocUrb {
        setup_packet: IocSetupPacket {
            bm_request_type: 0x80,
            b_request: 6,
            w_value: 0x0100,
            w_index: 0,
            w_length: 18,
        },
        buffer_length: 18,
        interval: 1,
        packet_count: 0,
        flags: 0,
        address,
        endpoint: Endpoint(0x80),
        typ,
    }
}

fn set_address(address: u16) -> IocUrb {
    let mut b = block(UrbType::Ctrl, 0);
    b.endpoint = Endpoint(0);
    b.setup_packet.bm_request_type = 0;
    b.setup_packet.b_request = 5;
    b.setup_packet.w_value = address;
    b
}

fn reset_done(index: u8) -> PortStat {
    PortStat {
        enable: true,
        reset_changed: true,
        ..port(index)
    }
}

#[test]
fn work_follows_the_address() {
    let mut d: stub::Demuxer<char> = stub::Demuxer::new();
    d.on_registered(1, 'a');
    d.on_registered(2, 'b');
    assert_eq!(d.route(&Work::PortStat(port(2))), Some('b'));
    // both devices were reset; the first that was gets the first address
    assert_eq!(d.route(&Work::PortStat(reset_done(2))), Some('b'));
    assert_eq!(d.route(&Work::PortStat(reset_done(1))), Some('a'));
    let first = Work::ProcessUrb(block(UrbType::Ctrl, 0), UrbHandle(10));
    assert!(d.is_routable(&first));
    assert_eq!(d.route(&first), Some('b'));
    assert_eq!(
        d.route(&Work::ProcessUrb(set_address(5), UrbHandle(11))),
        Some('b')
    );
    assert_eq!(
        d.route(&Work::ProcessUrb(set_address(6), UrbHandle(12))),
        Some('a')
    );
    assert_eq!(
        d.route(&Work::ProcessUrb(block(UrbType::Bulk, 6), UrbHandle(13))),
        Some('a')
    );
    assert_eq!(d.route(&Work::CancelUrb(UrbHandle(11))), Some('b'));
    assert_eq!(d.route(&Work::CancelUrb(UrbHandle(11))), None);
    d.on_giveback(UrbHandle(13));
    assert_eq!(d.route(&Work::CancelUrb(UrbHandle(13))), None);
    assert!(!d.is_routable(&Work::ProcessUrb(block(UrbType::Bulk, 9), UrbHandle(14))));
    let mut ports = d.leftover_ports();
    ports.sort();
    assert_eq!(ports, vec![1, 2]);
    d.on_unregistered(1);
    assert_eq!(d.leftover_ports(), vec![2]);
}

#[test]
fn cancels_follow_their_block() {
    let mut d: stub::Demuxer<char> = stub::Demuxer::new();
    d.on_registered(1, 'a');
    d.route(&Work::PortStat(reset_done(1)));
    d.route(&Work::ProcessUrb(set_address(5), UrbHandle(1)));
    let work = Work::ProcessUrb(block(UrbType::Bulk, 5), UrbHandle(20));
    assert_eq!(d.route(&work), Some('a'));
    // other devices and other blocks come and go
    d.on_registered(2, 'b');
    d.route(&Work::PortStat(reset_done(2)));
    d.route(&Work::ProcessUrb(set_address(6), UrbHandle(2)));
    d.route(&Work::ProcessUrb(block(UrbType::Bulk, 6), UrbHandle(21)));
    d.on_giveback(UrbHandle(21));
    assert_eq!(d.route(&Work::CancelUrb(UrbHandle(2))), Some('b'));
    assert_eq!(d.route(&Work::CancelUrb(UrbHandle(20))), Some('a'));
    // it is told once, until the handle is used again
    assert_eq!(d.route(&Work::CancelUrb(UrbHandle(20))), None);
    d.route(&Work::PortStat(port(1)));
    assert_eq!(d.route(&Work::CancelUrb(UrbHandle(20))), None);
    let work = Work::ProcessUrb(block(UrbType::Bulk, 6), UrbHandle(20));
    assert_eq!(d.route(&work), Some('b'));
    assert_eq!(d.route(&Work::CancelUrb(UrbHandle(20))), Some('b'));
}

#[test]
fn a_reset_takes_the_address_away() {
    let mut d: stub::Demuxer<char> = stub::Demuxer::new();
    d.on_registered(1, 'a');
    d.route(&Work::PortStat(reset_done(1)));
    d.route(&Work::ProcessUrb(set_address(5), UrbHandle(1)));
    let work = Work::ProcessUrb(block(UrbType::Bulk, 5), UrbHandle(2));
    assert_eq!(d.route(&work), Some('a'));
    assert_eq!(d.route(&Work::PortStat(reset_done(1))), Some('a'));
    // no address and no block lead to the port, which waits for an address again
    assert!(!d.is_routable(&work));
    assert_eq!(d.route(&Work::CancelUrb(UrbHandle(2))), None);
    let again = Work::ProcessUrb(set_address(7), UrbHandle(3));
    assert_eq!(d.route(&again), Some('a'));
    let work = Work::ProcessUrb(block(UrbType::Bulk, 7), UrbHandle(4));
    assert_eq!(d.route(&work), Some('a'));
}

#[test]
fn demultiplexer_minds_its_ports() {
    let mut d: demux::Demuxer<char> = demux::Demuxer::new();
    type Event = demux::Event<(), char>;
    let plugged = d.on_event(Event::Registered {
        plugged: Ok((1, 'a')),
        told: true,
    });
    assert_eq!(plugged, DemuxAction::Wait);
    assert_eq!(
        d.on_event(Event::Work(Work::PortStat(port(1)))),
        DemuxAction::Send('a')
    );
    assert_eq!(
        d.on_event(Event::Register(RegisterPort::Any)),
        DemuxAction::ConnectAny
    );
    assert_eq!(
        d.on_event(Event::Register(RegisterPort::Port(3))),
        DemuxAction::Connect(3)
    );
    assert_eq!(
        d.on_event(Event::Registered {
            plugged: Err(()),
            told: true
        }),
        DemuxAction::Wait
    );
    // a control block names its port
    let b = block(UrbType::Ctrl, 0);
    assert_eq!(
        d.on_event(Event::Work(Work::ProcessUrb(b, UrbHandle(4)))),
        DemuxAction::Send('a')
    );
    assert_eq!(
        d.on_event(Event::Work(Work::CancelUrb(UrbHandle(4)))),
        DemuxAction::Send('a')
    );
    assert_eq!(
        d.on_event(Event::Work(Work::PortStat(port(2)))),
        DemuxAction::Wait
    );
    assert_eq!(d.leftover_ports(), vec![1]);
    assert_eq!(
        d.on_event(Event::Registered {
            plugged: Ok((1, 'b')),
            told: false
        }),
        DemuxAction::Disconnect(1)
    );
    assert_eq!(
        d.on_event(Event::Work(Work::CancelUrb(UrbHandle(4)))),
        DemuxAction::Wait
    );
    assert_eq!(d.on_event(Event::Disconnect(7)), DemuxAction::Disconnect(7));
    assert_eq!(d.on_event(Event::Closed), DemuxAction::Stop);
    assert!(d.leftover_ports().is_empty());
}

#[test]
fn senders_that_nobody_hears_are_removed() {
    let mut d: demux::Demuxer<char> = demux::Demuxer::new();
    d.mailer.insert_tx(1, 'a');
    d.mailer.insert_tx(2, 'b');
    d.on_send_failed(|tx: &char| *tx == 'c');
    assert!(d.mailer.contains_port(&1) && d.mailer.contains_port(&2));
    d.on_send_failed(|tx: &char| *tx == 'a');
    assert_eq!(d.leftover_ports(), vec![2]);
    assert_eq!(d.mailer.get_tx_from_port(2), Some('b'));
}

#[test]
fn work_is_fetched_again() {
    assert_eq!(after_fetch(Ok(true), true), FetchNext::Again);
    assert_eq!(after_fetch(Ok(false), true), FetchNext::Done);
    assert_eq!(
        after_fetch(Err(FetchError::TimedOut), true),
        FetchNext::Again
    );
    assert_eq!(after_fetch(Err(FetchError::NoData), false), FetchNext::Done);
    assert_eq!(after_fetch(Err(FetchError::Other), true), FetchNext::Fail);
    let b = Work::ProcessUrb(block(UrbType::Ctrl, 0), UrbHandle(1));
    assert_eq!(route_new_work(&b, true), WorkRoute::Enumerate);
    assert_eq!(route_new_work(&b, false), WorkRoute::Forward);
}

#[test]
fn resets_are_completed_once() {
    let mut prev = port(1);
    let resetting = PortStat {
        reset: true,
        connection: true,
        ..port(1)
    };
    assert!(enumeration_step(&mut prev, &resetting));
    assert!(!enumeration_step(&mut prev, &resetting));
}

#[test]
fn datagrams_find_their_stream() {
    let mut d: iso::Demuxer<char> = iso::Demuxer::new();
    let datagram = || BytesMut::from(&[8, 7, 6, 5, 4, 3, 2, 1, 99, 98][..]);
    assert!(d.on_datagram(datagram()).is_none());
    d.on_register(0x0102030405060708, 'x');
    let (id, receiver, payload) = d.on_datagram(datagram()).unwrap();
    assert_eq!(id, 0x0102030405060708);
    assert_eq!(receiver, 'x');
    assert_eq!(&payload[..], &[99, 98]);
    assert!(d.on_datagram(BytesMut::from(&[8, 7][..])).is_none());
    d.on_disconnect(id);
    assert!(d.on_datagram(datagram()).is_none());
}

#[test]
fn demultiplexing_of_datagrams_ends() {
    type Event = iso::Event<char, u8>;
    let mut d: iso::Demuxer<char> = iso::Demuxer::new();
    let datagram = || BytesMut::from(&[4, 0, 0, 0, 0, 0, 0, 0, 99][..]);
    // nobody asked for it
    assert!(matches!(
        d.on_event(Event::Datagram(Ok(datagram()))),
        iso::Action::Wait
    ));
    assert!(matches!(
        d.on_event(Event::Register(Some((4, 'x')))),
        iso::Action::Wait
    ));
    assert!(matches!(
        d.on_event(Event::Register(Some((4, 'y')))),
        iso::Action::Wait
    ));
    match d.on_event(Event::Datagram(Ok(datagram()))) {
        iso::Action::Deliver {
            id,
            receiver,
            payload,
        } => {
            assert_eq!((id, receiver), (4, 'y'));
            assert_eq!(&payload[..], &[99]);
        }
        _ => panic!("not delivered"),
    }
    assert!(matches!(
        d.on_event(Event::Datagram(Ok(BytesMut::from(&[4, 0][..])))),
        iso::Action::Wait
    ));
    d.on_event(Event::Disconnect(Some(4)));
    assert!(matches!(
        d.on_event(Event::Datagram(Ok(datagram()))),
        iso::Action::Wait
    ));
    d.on_event(Event::Register(Some((4, 'z'))));
    d.on_event(Event::Gone(4));
    assert!(matches!(
        d.on_event(Event::Datagram(Ok(datagram()))),
        iso::Action::Wait
    ));
    assert!(matches!(
        d.on_event(Event::Register(None)),
        iso::Action::End(Ok(()))
    ));
    assert!(matches!(
        d.on_event(Event::Disconnect(None)),
        iso::Action::End(Ok(()))
    ));
    assert!(matches!(
        d.on_event(Event::Datagram(Err(7))),
        iso::Action::End(Err(7))
    ));
}

#[test]
fn tasks_take_turns() {
    let nice = Nice::new(16).unwrap();
    assert_eq!(nice, Nice::normal());
    assert_eq!(nice.get(), 16);
    assert!(Nice::new(0).is_none());
    assert!(Nice::new(25).is_none());
    let mut s = Scheduler::new();
    s.push(Task::new(TaskName::Register, nice, 1));
    s.push(Task::new(TaskName::RecvWork, nice, 1));
    let first = match s.next(0) {
        Next::Run(name) => name,
        Next::Idle { .. } => panic!("nothing ran"),
    };
    s.complete(true, true, 10, 0);
    // the other ran less
    let second = match s.next(0) {
        Next::Run(name) => name,
        Next::Idle { .. } => panic!("nothing ran"),
    };
    assert_ne!(first, second);
    s.complete(true, true, 5, 0);
    assert_eq!(s.next(0), Next::Run(second));
}

#[test]
fn tasks_sleep_and_wake() {
    let mut s = Scheduler::new();
    s.push(Task::new(TaskName::Register, Nice::normal(), 1));
    s.push(Task::new(TaskName::MailOutgoing, Nice::normal(), 1));
    s.push(Task::new(TaskName::RecvWork, Nice::normal(), 0));
    // the tasks run in some order until each sleeps or is blocked
    let mut runs = vec![];
    loop {
        match s.next(1) {
            Next::Run(name) => {
                runs.push(name);
                s.complete(false, true, 1, 100);
            }
            Next::Idle { next_run } => {
                assert_eq!(next_run, 100);
                break;
            }
        }
    }
    runs.sort();
    assert_eq!(
        runs,
        vec![
            TaskName::Register,
            TaskName::Register,
            TaskName::MailOutgoing,
            TaskName::RecvWork
        ]
    );
    // of those that wake up, the one that ran less runs first
    assert_eq!(s.next(101), Next::Run(TaskName::RecvWork));
    s.complete(true, true, 100, 200);
    // there is work to mail, so the mailer is ready again
    assert_eq!(s.next(101), Next::Run(TaskName::MailOutgoing));
    s.complete(true, true, 100, 200);
    assert_eq!(s.next(101), Next::Run(TaskName::Register));
    assert_eq!(
        Task::new(TaskName::Register, Nice::normal(), 3).sleep_factor(),
        64
    );
}

#[test]
fn any_task_can_be_the_only_one() {
    let mut s = Scheduler::new();
    assert!(!s.has_task());
    s.push(Task::new(TaskName::MailOutgoing, Nice::normal(), 1));
    assert!(s.has_task());
    assert_eq!(s.next(0), Next::Run(TaskName::MailOutgoing));
    let turn = Turn::Done {
        made_progress: true,
        is_active: false,
    };
    assert!(!s.finish(turn, 1, 5));
    assert!(s.has_task());
    assert_eq!(s.next(0), Next::Run(TaskName::MailOutgoing));
    let turn = Turn::Done {
        made_progress: false,
        is_active: false,
    };
    assert!(!s.finish(turn, 1, 5));
    // the mailer waits for work that nobody fetches
    assert!(!s.has_task());
}

#[test]
fn tasks_end_where_one_breaks() {
    let mut s = Scheduler::new();
    s.push(Task::new(TaskName::Register, Nice::normal(), 1));
    assert_eq!(s.next(0), Next::Run(TaskName::Register));
    assert!(s.finish(Turn::Break, 0, 0));
    assert_eq!(s.running, None);
    assert!(!s.has_task());
    s.push(Task::new(TaskName::Register, Nice::normal(), 1));
    assert!(s.has_task());
}

#[test]
fn interfaces_change_hands() {
    assert_eq!(NUM_INTERFACES, 16);
    let mut t = Interfaces::new();
    assert_eq!(Interfaces::probe(Ok(true)), Probe::DetachAndClaim);
    assert_eq!(Interfaces::probe(Ok(false)), Probe::Claim);
    assert_eq!(Interfaces::probe(Err(RusbError::NotFound)), Probe::Skip);
    t.set(0, InterfaceStatus::Claimed);
    t.set(1, Interfaces::after_claim(Err(RusbError::NotFound)));
    t.set(2, Interfaces::after_claim(Ok(())));
    t.set(3, InterfaceStatus::Unclaimed);
    assert!(t.is_claimed(2));
    assert!(!t.is_claimed(1));
    assert!(!t.is_claimed(200));
    assert!(Interfaces::must_set_config(0, BASE_CONFIG));
    assert!(!Interfaces::must_set_config(1, BASE_CONFIG));
    assert_eq!(t.release_next(), Some(0));
    assert_eq!(t.release_next(), Some(2));
    assert_eq!(t.release_next(), None);
    assert_eq!(t.claim_next(), Some(0));
    assert_eq!(t.claim_next(), Some(2));
    assert_eq!(t.claim_next(), Some(3));
    assert_eq!(t.claim_next(), None);
    t.on_claimed(5);
    assert!(t.is_claimed(5));
    assert_eq!(t.status[1], InterfaceStatus::NotFound);
}

#[test]
fn borrower_numbers_its_frames() {
    let mut c = ClientBorrowDevice::new(ID);
    assert_eq!(c.addr, NO_ADDRESS);
    let mut stat = reset_done(1);
    stat.connection_changed = true;
    assert_eq!(c.on_work(&Work::PortStat(stat)), WorkAction::Nothing);
    // the reset is what counts
    assert_eq!(c.addr, 0);
    let b = block(UrbType::Ctrl, 0);
    let work = Work::ProcessUrb(b, UrbHandle(7));
    assert!(c.is_workable(&work));
    match c.on_work(&work) {
        WorkAction::Submit(f) => {
            assert_eq!(f.header.seqnum, 0);
            assert_eq!(f.header.dev_id, ID);
            assert_eq!(f.header.command, Command::CmdSubmit);
            assert_eq!(f.header.status, Status::Success);
            assert_eq!(f.transfer.actual_len, 18);
            assert_eq!(f.transfer.aligned_len, 24);
            assert_eq!(f.block.status, usb::Status::Pending);
            assert!(f.needs_fetch);
        }
        _ => panic!("not submitted"),
    }
    assert_eq!(c.on_answer(0), Some(UrbHandle(7)));
    assert_eq!(c.on_answer(0), None);
    c.on_work(&Work::ProcessUrb(b, UrbHandle(8)));
    match c.on_work(&Work::CancelUrb(UrbHandle(8))) {
        WorkAction::Unlink(f) => {
            assert_eq!(f.header.seqnum, 2);
            assert_eq!(f.header.command, Command::CmdUnlink);
            assert_eq!(f.handle, UrbHandle(8));
        }
        _ => panic!("not taken back"),
    }
    // the request that was taken back is not answered any more
    assert_eq!(c.on_answer(1), None);
    assert_eq!(c.on_answer(2), Some(UrbHandle(8)));
    c.on_work(&Work::ProcessUrb(set_address(9), UrbHandle(9)));
    assert_eq!(c.addr, 9);
    assert!(!c.is_workable(&Work::ProcessUrb(b, UrbHandle(10))));
}

#[test]
fn the_nth_frame_has_the_number_n() {
    let mut c = ClientBorrowDevice::new(ID);
    c.on_work(&Work::PortStat(reset_done(1)));
    let mut seqnums = vec![];
    for handle in 0..4 {
        // what writes no frame takes no number
        c.on_work(&Work::PortStat(port(1)));
        c.on_answer(100);
        let work = Work::ProcessUrb(block(UrbType::Ctrl, 0), UrbHandle(handle));
        for action in [c.on_work(&work), c.on_work(&Work::CancelUrb(UrbHandle(handle)))] {
            match action {
                WorkAction::Submit(f) => seqnums.push(f.header.seqnum),
                WorkAction::Unlink(f) => seqnums.push(f.header.seqnum),
                _ => panic!("no frame"),
            }
        }
    }
    assert_eq!(seqnums, vec![0, 1, 2, 3, 4, 5, 6, 7]);
}

#[test]
fn borrower_completes_resets() {
    let mut c = ClientBorrowDevice::new(ID);
    let resetting = PortStat {
        reset: true,
        connection: true,
        ..port(6)
    };
    assert_eq!(
        c.on_work(&Work::PortStat(resetting)),
        WorkAction::CompleteReset(6)
    );
    assert_eq!(c.on_work(&Work::PortStat(resetting)), WorkAction::Nothing);
    let resuming = PortStat {
        resuming: true,
        connection: true,
        ..port(6)
    };
    assert!(!c.is_workable(&Work::PortStat(resuming)));
}

#[test]
fn lender_reads_control_requests() {
    let s = ServerLendDevice::new(ID);
    assert!(s.is_lent(1, 2));
    assert!(!s.is_lent(1, 3));
    let mut p = block(UrbType::Ctrl, 0).setup_packet;
    p.w_value = 0x0305;
    assert_eq!(
        ServerLendDevice::lend_request(&p),
        LendRequest::GetDescriptor(Some(DescriptorType::String), 5)
    );
    p.w_value = 0x0900;
    assert_eq!(
        ServerLendDevice::lend_request(&p),
        LendRequest::GetDescriptor(None, 0)
    );
    p.b_request = 8;
    assert_eq!(
        ServerLendDevice::lend_request(&p),
        LendRequest::GetConfiguration
    );
    p.b_request = 9;
    assert_eq!(ServerLendDevice::lend_request(&p), LendRequest::Other);
    assert_eq!(
        ServerLendDevice::device_descriptor(18, 64),
        (18, usb::Status::ShortPacket)
    );
    assert_eq!(
        ServerLendDevice::device_descriptor(18, 8),
        (8, usb::Status::Success)
    );
    let mut buf = vec![0, 7];
    assert_eq!(ServerLendDevice::configuration(3, &mut buf), 1);
    assert_eq!(buf, vec![3, 7]);
    assert_eq!(ServerLendDevice::language(&[9, 7, 7], 7), 1);
    assert_eq!(ServerLendDevice::language(&[9, 7], 8), 0);
    let codes: Vec<_> = (0..7).map(DescriptorType::from_u8).collect();
    assert_eq!(
        codes,
        vec![
            None,
            Some(DescriptorType::Device),
            Some(DescriptorType::Configuration),
            Some(DescriptorType::String),
            Some(DescriptorType::Interface),
            Some(DescriptorType::Endpoint),
            None
        ]
    );
}

#[test]
fn readers_wait_for_a_header() {
    assert_eq!(read_step(0, 9, 8), ReadStep::Process);
    assert_eq!(read_step(0, 8, 8), ReadStep::Stop);
    assert_eq!(read_step(3, 8, 8), ReadStep::Wait);
}

#[test]
fn blocks_show_their_data() {
    let header = UrbHeader {
        actual_transfer_len: 2,
        iso_packet_count: 1,
        endpoint: Endpoint(1),
        kind: UrbType::Iso,
        interval: 0,
        status: usb::Status::Success,
        flags: 0,
        num_errors: 3,
        ctrl_packet: block(UrbType::Iso, 0).setup_packet,
    };
    let mut transfer = [1, 2, 3, 4];
    let mut iso_data = [IocIsoPacketData {
        offset: 0,
        packet_length: 2,
    }];
    let urb = UrbWithIsoData {
        handle: UrbHandle(1),
        header: &header,
        transfer: &mut transfer,
        iso_data: &mut iso_data,
    };
    assert_eq!(urb.kind(), UrbType::Iso);
    assert_eq!(urb.handle(), UrbHandle(1));
    assert_eq!(urb.status(), usb::Status::Success);
    assert_eq!(urb.endpoint(), Endpoint(1));
    assert_eq!(urb.transfer_mut(), &[1, 2]);
    let mut iso_giveback = [IocIsoPacketGiveback {
        packet_actual: 2,
        status: 0,
    }];
    let urb = UrbWithIsoGiveback {
        handle: UrbHandle(1),
        header: &header,
        transfer: &mut transfer,
        iso_giveback: &mut iso_giveback,
    };
    assert_eq!(urb.error_count(), 3);
    urb.iso_packet_giveback_mut()[0].packet_actual = 1;
    assert_eq!(iso_giveback[0].packet_actual, 1);
}
