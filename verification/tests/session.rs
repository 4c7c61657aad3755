use qusb::codec::Wire;
use qusb::devices::{
    describe, DeviceFacts, SendDevices, SendUsbDeviceInfo, ServerListDevices, UsbDeviceWrapper,
    UsbDevices,
};
use qusb::proto::data::Ring;
use qusb::proto::msg::{
    Resp, Speed, Status, UsbDeviceId, UsbInterfaceInfo, Version, VersionOpt,
};
use qusb::proto::qusb_ver;
use qusb::session::{
    accept, borrow_request, is_borrow_answer, is_list_answer, list_request, read_borrow_answer,
    read_list_answer, read_their_version, request_len, status_answer, version_answer, Answer,
    Error, IoErrorKind, Request, RusbError,
};
use qusb::state::ClientReq;
use qusb::usb;

fn ring(bytes: &[u8]) -> Ring {
    let mut r = Ring::with_capacity(32);
    r.fill(bytes);
    r
}

const ID: UsbDeviceId = UsbDeviceId {
    bus_number: 3,
    device_addr: 17,
};

#[test]
fn requests_are_accepted() {
    let mut bytes = list_request();
    assert_eq!(bytes.len(), 8);
    bytes.push(77);
    let mut r = ring(&bytes);
    assert_eq!(request_len(&r), 8);
    assert!(matches!(accept(&mut r), Ok(ClientReq::ListDevices)));
    assert_eq!(r.chunk(), &[77]);

    let bytes = borrow_request(ID);
    assert_eq!(bytes.len(), 16);
    let mut r = ring(&bytes);
    assert_eq!(request_len(&r), 16);
    match accept(&mut r) {
        Ok(req) => assert_eq!(req, ClientReq::BorrowDevice(ID)),
        Err(_) => panic!("refused"),
    }
    assert!(r.is_empty());
}

#[test]
fn another_version_is_refused() {
    let ours = qusb_ver();
    let theirs = Version {
        major: ours.major,
        minor: ours.minor.wrapping_add(1),
        patch: ours.patch,
    };
    let mut bytes = theirs.as_bytes();
    bytes.extend(Request::ListDevices.as_bytes());
    let mut r = ring(&bytes);
    assert_eq!(request_len(&r), 8);
    let refusal = accept(&mut r).err().unwrap();
    assert_eq!(refusal.error, Error::VersionMismatch(theirs));
    assert_eq!(refusal.answer, version_answer());
    assert_eq!(refusal.answer.len(), 16);

    // and the client learns our version
    let mut r = ring(&refusal.answer);
    assert!(is_borrow_answer(&r));
    assert_eq!(read_borrow_answer(&mut r, ID), Answer::VersionFollows);
    assert_eq!(read_their_version(&mut r), Error::VersionMismatch(ours));
}

#[test]
fn versions_may_differ_in_the_patch() {
    let ours = qusb_ver();
    let theirs = Version {
        patch: ours.patch.wrapping_add(9),
        ..ours
    };
    let mut bytes = theirs.as_bytes();
    bytes.extend(Request::ListDevices.as_bytes());
    assert!(accept(&mut ring(&bytes)).is_ok());
}

#[test]
fn unknown_request_is_refused() {
    let mut bytes = qusb_ver().as_bytes();
    bytes.extend([9, 0, 0, 0]);
    let refusal = accept(&mut ring(&bytes)).err().unwrap();
    assert_eq!(refusal.error, Error::Unknown);
    assert_eq!(refusal.answer, vec![8, 0, 0, 0, 0, 0, 0, 0]);
}

#[test]
fn list_answers() {
    let mut none = ring(&[]);
    assert!(is_list_answer(&none));
    assert_eq!(read_list_answer(&mut none), Answer::Refused(Error::Unknown));
    let cases = [
        (Status::Success, Answer::Granted),
        (Status::Failed, Answer::Refused(Error::ReqFailed)),
        (Status::Unexpected, Answer::Refused(Error::ReqFailed)),
        (Status::VersionMismatch, Answer::VersionFollows),
    ];
    for (status, answer) in cases {
        let mut r = ring(&status_answer(status));
        assert!(is_list_answer(&r));
        assert_eq!(read_list_answer(&mut r), answer);
        assert!(r.is_empty());
    }
    assert!(!is_list_answer(&ring(&status_answer(Status::NoDev))));
    assert!(!is_list_answer(&ring(&[0, 0])));
}

#[test]
fn borrow_answers() {
    let cases = [
        (Status::Success, Answer::Granted),
        (Status::Failed, Answer::Refused(Error::ReqFailed)),
        (
            Status::DevBusy,
            Answer::Refused(Error::Io(IoErrorKind::ResourceBusy)),
        ),
        (Status::NoDev, Answer::Refused(Error::DevNotFound(ID))),
        (
            Status::Unexpected,
            Answer::Refused(Error::Io(IoErrorKind::InvalidData)),
        ),
        (Status::VersionMismatch, Answer::VersionFollows),
    ];
    for (status, answer) in cases {
        let mut r = ring(&status_answer(status));
        assert!(is_borrow_answer(&r));
        assert_eq!(read_borrow_answer(&mut r, ID), answer);
    }
    assert!(!is_borrow_answer(&ring(&status_answer(Status::Timeout))));
}

#[test]
fn usb_errors_are_told() {
    let kinds = [
        (usb::RusbError::Io, Status::Failed, None),
        (
            usb::RusbError::InvalidParam,
            Status::Unexpected,
            Some(Error::Io(IoErrorKind::InvalidInput)),
        ),
        (
            usb::RusbError::Access,
            Status::Failed,
            Some(Error::Io(IoErrorKind::PermissionDenied)),
        ),
        (
            usb::RusbError::NoDevice,
            Status::NoDev,
            Some(Error::DevNotFound(ID)),
        ),
        (
            usb::RusbError::NotFound,
            Status::NoDev,
            Some(Error::DevNotFound(ID)),
        ),
        (
            usb::RusbError::Busy,
            Status::DevBusy,
            Some(Error::Io(IoErrorKind::ResourceBusy)),
        ),
        (
            usb::RusbError::Timeout,
            Status::Timeout,
            Some(Error::Io(IoErrorKind::TimedOut)),
        ),
        (usb::RusbError::Overflow, Status::Unexpected, None),
        (
            usb::RusbError::Pipe,
            Status::Unexpected,
            Some(Error::Io(IoErrorKind::BrokenPipe)),
        ),
        (
            usb::RusbError::Interrupted,
            Status::Unexpected,
            Some(Error::Io(IoErrorKind::Interrupted)),
        ),
        (
            usb::RusbError::NoMem,
            Status::Unexpected,
            Some(Error::Io(IoErrorKind::OutOfMemory)),
        ),
        (
            usb::RusbError::NotSupported,
            Status::Unexpected,
            Some(Error::Io(IoErrorKind::Unsupported)),
        ),
        (usb::RusbError::BadDescriptor, Status::DevErr, None),
        (
            usb::RusbError::Other,
            Status::Unexpected,
            Some(Error::Io(IoErrorKind::Other)),
        ),
    ];
    for (kind, status, error) in kinds {
        let e = RusbError { kind, dev_id: ID };
        assert_eq!(Status::from(e), status);
        if let Some(error) = error {
            assert_eq!(e.to_error(), error);
        }
    }
}

fn facts() -> DeviceFacts {
    DeviceFacts {
        busnum: 1,
        devnum: 2,
        speed: Some(3),
        id_vendor: 0x1234,
        id_product: 0x5678,
        bcd_device: 0x0100,
        b_device_class: 9,
        b_device_subclass: 8,
        b_device_protocol: 7,
        b_configuration_value: None,
        num_configurations: 257,
    }
}

fn interface(n: u8) -> UsbInterfaceInfo {
    UsbInterfaceInfo {
        b_interface_number: n,
        b_interface_class: n,
        b_interface_subclass: n,
        b_interface_protocol: n,
    }
}

fn device(path: &[u8], num_interfaces: u8) -> UsbDeviceWrapper {
    let interfaces = (0..num_interfaces).map(|n| interface(n + 1)).collect();
    describe(&facts(), path, Some(b"1-2"), interfaces).unwrap()
}

#[test]
fn devices_are_described() {
    let d = device(b"/sys/1-2", 3);
    assert_eq!(d.info.path(), Some(&b"/sys/1-2"[..]));
    assert_eq!(d.info.bus_id(), Some(&b"1-2"[..]));
    assert_eq!(d.info.speed, Speed::High);
    assert_eq!(d.info.b_configuration_value, 0);
    assert_eq!(d.info.b_num_configurations, 1);
    assert_eq!(d.info.b_num_interfaces, 3);
    assert_eq!(d.info.padded_num_interfaces, 4);
    assert_eq!(d.interfaces().len(), 3);
    assert_eq!(d.interfaces_with_padding()[3], interface(0));
    assert!(describe(&facts(), b"/", None, vec![]).is_none());
}

#[test]
fn long_paths_are_cut() {
    let long = vec![b'x'; 300];
    let d = device(&long, 0);
    assert_eq!(d.info.path(), Some(&long[..256]));
    let longest = vec![b'x'; 65536];
    let d = device(&longest, 0);
    assert_eq!(d.info.path(), Some(&[][..]));
    let d = describe(&facts(), b"/", Some(&long), vec![]).unwrap();
    assert_eq!(d.info.bus_id(), Some(&[][..]));
    let d = describe(&facts(), b"/", Some(&long[..40]), vec![]).unwrap();
    assert_eq!(d.info.bus_id(), Some(&long[..32]));
}

#[test]
fn devices_are_read_from_a_list() {
    let devices = [device(b"/a", 1), device(b"/b", 2), device(b"/c", 0)];
    let bytes = SendDevices::new(()).send_device_list(Some(&devices[..]));
    assert_eq!(bytes.len(), 8 + 3 * 312 + 4 * 4);
    assert!(matches!(
        Resp::try_read_from_bytes(&bytes[..8]),
        Some(Resp::ListDevices { .. })
    ));
    let mut list = UsbDevices(ring(&bytes[8..]));
    let mut it = list.iter();
    for d in &devices {
        let read = it.next().unwrap();
        assert_eq!(read.header.path(), d.info.path());
        assert_eq!(read.header.b_num_interfaces, d.info.b_num_interfaces);
        assert_eq!(read.data.len(), 4 * d.interfaces.len());
    }
    assert!(it.next().is_none());
    // what is written to a record is there when it is read again
    if let Some((first, _)) = list.iter_mut().next() {
        first[0] = b'#';
    }
    assert_eq!(list.iter().next().unwrap().header.path(), Some(&b"#a"[..]));
}

#[test]
fn a_list_may_fail() {
    let none: Option<&[UsbDeviceWrapper]> = None;
    let bytes = SendDevices::new(()).send_device_list(none);
    match Resp::try_read_from_bytes(&bytes) {
        Some(Resp::Failure { stat, ver }) => {
            assert_eq!(stat, Status::Failed);
            assert!(matches!(ver, VersionOpt::Unknown([0, 0, 0, 0])));
        }
        _ => panic!("not a failure"),
    }
    assert_eq!(
        ServerListDevices::new(()).resp_list_devices(none),
        vec![1, 0, 0, 0, 0, 0, 0, 0]
    );
}

#[test]
fn a_list_may_begin_with_a_status() {
    let devices = [device(b"/a", 1)];
    let bytes = ServerListDevices::new(()).resp_list_devices(Some(&devices[..]));
    assert_eq!(&bytes[..8], &[0; 8]);
    assert_eq!(bytes.len(), 8 + 312 + 8);
    assert_eq!(&bytes[8..], &SendDevices::new(()).send_device_list(Some(&devices[..]))[8..]);
}

#[test]
fn a_list_with_a_status_is_read() {
    let devices = [device(b"/a", 1), device(b"/b", 2)];
    let bytes = ServerListDevices::new(()).resp_list_devices(Some(&devices[..]));
    assert_eq!(bytes.len() % 8, 0);
    let mut answer = ring(&bytes);
    assert_eq!(read_list_answer(&mut answer), Answer::Granted);
    let list = UsbDevices(answer);
    let mut it = list.iter();
    assert_eq!(it.next().unwrap().header.path(), Some(&b"/a"[..]));
    assert_eq!(it.next().unwrap().header.path(), Some(&b"/b"[..]));
    assert!(it.next().is_none());
    assert!(it.next().is_none());
    let none: Option<&[UsbDeviceWrapper]> = None;
    let mut answer = ring(&ServerListDevices::new(()).resp_list_devices(none));
    assert_eq!(
        read_list_answer(&mut answer),
        Answer::Refused(Error::ReqFailed)
    );
    assert_eq!(SendDevices::new(()).send_device_list(none).len() % 8, 0);
}
