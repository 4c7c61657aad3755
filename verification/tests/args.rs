use qusb::args::{
    DeviceId, DeviceIdParseError, NumVhciPorts, NumVhciPortsErr, ParseIntError, DEFAULT_PORT,
};
use qusb::rpc;

#[test]
fn ports_are_bounded() {
    assert_eq!(NumVhciPorts::from_str("1"), Ok(NumVhciPorts(1)));
    assert_eq!(NumVhciPorts::from_str("+31"), Ok(NumVhciPorts(31)));
    assert_eq!(
        NumVhciPorts::from_str("0"),
        Err(NumVhciPortsErr::OutOfBounds)
    );
    assert_eq!(
        NumVhciPorts::from_str("32"),
        Err(NumVhciPortsErr::OutOfBounds)
    );
    assert_eq!(
        NumVhciPorts::from_str("256"),
        Err(NumVhciPortsErr::ParseIntError(ParseIntError::PosOverflow))
    );
    assert_eq!(
        NumVhciPorts::from_str(""),
        Err(NumVhciPortsErr::ParseIntError(ParseIntError::Empty))
    );
    assert_eq!(
        NumVhciPorts::from_str(" 4"),
        Err(NumVhciPortsErr::ParseIntError(ParseIntError::InvalidDigit))
    );
    assert_eq!(NumVhciPorts::default_ports(), NumVhciPorts(4));
    assert_eq!(DEFAULT_PORT, 7002);
}

#[test]
fn device_is_a_bus_and_a_number() {
    assert_eq!(
        DeviceId::from_str("1:13"),
        Ok(DeviceId { bus: 1, dev: 13 })
    );
    assert_eq!(
        DeviceId::from_str(" \t003:255\n"),
        Ok(DeviceId { bus: 3, dev: 255 })
    );
}

#[test]
fn device_needs_a_colon() {
    assert_eq!(
        DeviceId::from_str("113"),
        Err(DeviceIdParseError::MissingColon)
    );
    assert_eq!(
        DeviceId::from_str(""),
        Err(DeviceIdParseError::MissingColon)
    );
}

#[test]
fn device_needs_numbers() {
    assert_eq!(
        DeviceId::from_str(":4"),
        Err(DeviceIdParseError::ParseIntError(ParseIntError::Empty))
    );
    assert_eq!(
        DeviceId::from_str("4:"),
        Err(DeviceIdParseError::ParseIntError(ParseIntError::Empty))
    );
    // only the first colon parts the numbers
    assert_eq!(
        DeviceId::from_str("1:2:3"),
        Err(DeviceIdParseError::ParseIntError(
            ParseIntError::InvalidDigit
        ))
    );
    assert_eq!(
        DeviceId::from_str("999:x"),
        Err(DeviceIdParseError::ParseIntError(ParseIntError::PosOverflow))
    );
    assert_eq!(
        DeviceId::from_str("1 :2"),
        Err(DeviceIdParseError::ParseIntError(
            ParseIntError::InvalidDigit
        ))
    );
}

#[test]
fn transaction_numbers_are_not_zero() {
    assert!(rpc::TransactionId::new(0).is_none());
    assert_eq!(rpc::TransactionId::new(9).unwrap().get(), 9);
    assert!(rpc::PayloadId::new(0).is_none());
    assert_eq!(rpc::PayloadId::new(7).unwrap().get(), 7);
    assert_eq!(rpc::VERSION, 0x0211);
    assert_eq!(rpc::BUS_ID_SIZE, 32);
}

#[test]
fn request_errors_have_codes() {
    let all = [
        rpc::Error::Failed,
        rpc::Error::DevBusy,
        rpc::Error::DevErr,
        rpc::Error::NoDev,
        rpc::Error::Unexpected,
    ];
    let codes: Vec<u8> = all.iter().map(|e| e.code()).collect();
    assert_eq!(codes, vec![1, 2, 3, 4, 5]);
    assert_eq!(rpc::Error::NoDev.message(), "device not found");
    assert_eq!(rpc::Error::Failed.message(), "request failed");
    assert_eq!(rpc::Error::DevBusy.message(), "device busy (exported)");
    assert_eq!(rpc::Error::DevErr.message(), "device in error state");
    assert_eq!(rpc::Error::Unexpected.message(), "unexpected response");
}
