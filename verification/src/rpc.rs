//! Requests and answers of peers that number their transactions.
use vstd::prelude::*;

verus! {

pub const BUS_ID_SIZE: usize = 32;

pub const VERSION: u16 = 0x0211;

/// A device, by its bus and its address there.
#[derive(Debug, Clone, Copy, PartialEq, Eq, Structural)]
pub struct UsbDeviceId {
    pub bus_number: u8,
    pub device_addr: u8,
}

/// A device that was imported.
#[derive(Debug, Clone, Copy, PartialEq, Eq, Structural)]
pub struct ImportedDevice {}

/// What is told of a device.
#[derive(Debug, Clone, Copy, PartialEq, Eq, Structural)]
pub struct UsbDeviceInfo {}

/// The devices of a peer.
#[derive(Debug)]
pub struct UsbDevices {
    pub list: Vec<UsbDeviceInfo>,
}

/// The number of a transaction, which is never zero.
#[derive(Debug, Clone, Copy, PartialEq, Eq, Structural)]
pub struct TransactionId(u64);

impl TransactionId {
    pub closed spec fn number(self) -> u64 {
        self.0
    }

    #[verifier::type_invariant]
    spec fn nonzero(self) -> bool {
        self.0 != 0
    }

    /// The transaction with the number; there is none with the number zero.
    pub fn new(number: u64) -> (r: Option<Self>)
        ensures
            r is Some <==> number != 0,
            r matches Some(id) ==> id.number() == number,
    {
        if number == 0 {
            None
        } else {
            Some(TransactionId(number))
        }
    }

    pub fn get(&self) -> (number: u64)
        ensures
            number == self.number(),
            number != 0,
    {
        proof {
            use_type_invariant(*self);
        }
        self.0
    }
}

/// The number of a payload, which is never zero.
#[derive(Debug, Clone, Copy, PartialEq, Eq, Structural)]
pub struct PayloadId(u64);

impl PayloadId {
    pub closed spec fn number(self) -> u64 {
        self.0
    }

    #[verifier::type_invariant]
    spec fn nonzero(self) -> bool {
        self.0 != 0
    }

    /// The payload with the number; there is none with the number zero.
    pub fn new(number: u64) -> (r: Option<Self>)
        ensures
            r is Some <==> number != 0,
            r matches Some(id) ==> id.number() == number,
    {
        if number == 0 {
            None
        } else {
            Some(PayloadId(number))
        }
    }

    pub fn get(&self) -> (number: u64)
        ensures
            number == self.number(),
            number != 0,
    {
        proof {
            use_type_invariant(*self);
        }
        self.0
    }
}

/// Why a request failed.
#[derive(Debug, Clone, Copy, PartialEq, Eq, Structural)]
pub enum Error {
    Failed,
    DevBusy,
    DevErr,
    NoDev,
    Unexpected,
}

impl Error {
    /// The number that stands for the error.
    pub fn code(&self) -> (n: u8)
        ensures
            n == (match self {
                Error::Failed => 1u8,
                Error::DevBusy => 2u8,
                Error::DevErr => 3u8,
                Error::NoDev => 4u8,
                Error::Unexpected => 5u8,
            }),
    {
        match self {
            Error::Failed => 1,
            Error::DevBusy => 2,
            Error::DevErr => 3,
            Error::NoDev => 4,
            Error::Unexpected => 5,
        }
    }

    /// What a user is told of the error.
    pub fn message(&self) -> (s: &'static str)
        ensures
            s@ == (match self {
                Error::Failed => "request failed"@,
                Error::DevBusy => "device busy (exported)"@,
                Error::DevErr => "device in error state"@,
                Error::NoDev => "device not found"@,
                Error::Unexpected => "unexpected response"@,
            }),
    {
        match self {
            Error::Failed => "request failed",
            Error::DevBusy => "device busy (exported)",
            Error::DevErr => "device in error state",
            Error::NoDev => "device not found",
            Error::Unexpected => "unexpected response",
        }
    }
}

/// An answer.
#[derive(Debug, Clone, Copy)]
pub struct QusbResp {
    pub version: u16,
    pub transaction_id: TransactionId,
    pub resp: Result<Option<TransactionId>, Error>,
}

/// What is asked for.
#[derive(Debug, Clone, Copy, PartialEq, Eq, Structural)]
pub enum InnerReq {
    ListDevices,
    ImportDevice(UsbDeviceId),
}

/// A request.
#[derive(Debug, Clone, Copy)]
pub struct QusbReq {
    pub version: u16,
    pub transaction_id: TransactionId,
    pub req: InnerReq,
}

} // verus!
