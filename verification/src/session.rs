//! How two peers begin to talk: what one asks for at the start of a stream, and how the other
//! answers.
use crate::codec;
use crate::codec::{push_bytes, push_u32, read_u32, Wire};
use crate::proto;
use crate::proto::data;
use crate::proto::data::{ReadError, Ring};
use crate::proto::msg::{Status, UsbDeviceId, Version};
use crate::proto::qusb_ver;
use crate::state::ClientReq;
use crate::usb;
use vstd::prelude::*;
use vstd::slice::slice_subrange;

verus! {

/// What went wrong with an operation of the operating system.
#[derive(Debug, Clone, Copy, PartialEq, Eq, Structural)]
pub enum IoErrorKind {
    InvalidInput,
    InvalidData,
    PermissionDenied,
    ResourceBusy,
    TimedOut,
    BrokenPipe,
    Interrupted,
    OutOfMemory,
    Unsupported,
    Other,
}

/// Why a request came to nothing.
#[derive(Debug, Clone, Copy, PartialEq, Eq, Structural)]
pub enum Error {
    Io(IoErrorKind),
    /// The peer speaks another version of the protocol, namely this one.
    VersionMismatch(Version),
    DevNotFound(UsbDeviceId),
    /// The request failed on the side of the server.
    ReqFailed,
    /// The peer sent something that means nothing.
    Unknown,
}

/// Why the USB library could not do something with a device.
#[derive(Debug, Clone, Copy, PartialEq, Eq, Structural)]
pub struct RusbError {
    pub kind: usb::RusbError,
    pub dev_id: UsbDeviceId,
}

impl RusbError {
    /// The USB library has an error of its own for this.
    pub open spec fn expected(self) -> bool {
        self.kind != usb::RusbError::Io && self.kind != usb::RusbError::Overflow && self.kind
            != usb::RusbError::BadDescriptor
    }

    /// The error of the request that the device was needed for.
    pub fn to_error(&self) -> (e: Error)
        requires
            self.expected(),
        ensures
            e == (match self.kind {
                usb::RusbError::InvalidParam => Error::Io(IoErrorKind::InvalidInput),
                usb::RusbError::Access => Error::Io(IoErrorKind::PermissionDenied),
                usb::RusbError::NoDevice => Error::DevNotFound(self.dev_id),
                usb::RusbError::NotFound => Error::DevNotFound(self.dev_id),
                usb::RusbError::Busy => Error::Io(IoErrorKind::ResourceBusy),
                usb::RusbError::Timeout => Error::Io(IoErrorKind::TimedOut),
                usb::RusbError::Pipe => Error::Io(IoErrorKind::BrokenPipe),
                usb::RusbError::Interrupted => Error::Io(IoErrorKind::Interrupted),
                usb::RusbError::NoMem => Error::Io(IoErrorKind::OutOfMemory),
                usb::RusbError::NotSupported => Error::Io(IoErrorKind::Unsupported),
                _ => Error::Io(IoErrorKind::Other),
            }),
    {
        match self.kind {
            usb::RusbError::InvalidParam => Error::Io(IoErrorKind::InvalidInput),
            usb::RusbError::Access => Error::Io(IoErrorKind::PermissionDenied),
            usb::RusbError::NoDevice | usb::RusbError::NotFound => Error::DevNotFound(self.dev_id),
            usb::RusbError::Busy => Error::Io(IoErrorKind::ResourceBusy),
            usb::RusbError::Timeout => Error::Io(IoErrorKind::TimedOut),
            usb::RusbError::Pipe => Error::Io(IoErrorKind::BrokenPipe),
            usb::RusbError::Interrupted => Error::Io(IoErrorKind::Interrupted),
            usb::RusbError::NoMem => Error::Io(IoErrorKind::OutOfMemory),
            usb::RusbError::NotSupported => Error::Io(IoErrorKind::Unsupported),
            _ => Error::Io(IoErrorKind::Other),
        }
    }
}

/// What the peer is told of an error of the USB library.
pub open spec fn status_of(kind: usb::RusbError) -> Status {
    match kind {
        usb::RusbError::Io => Status::Failed,
        usb::RusbError::Access => Status::Failed,
        usb::RusbError::NoDevice => Status::NoDev,
        usb::RusbError::NotFound => Status::NoDev,
        usb::RusbError::Busy => Status::DevBusy,
        usb::RusbError::Timeout => Status::Timeout,
        usb::RusbError::BadDescriptor => Status::DevErr,
        _ => Status::Unexpected,
    }
}

impl From<RusbError> for Status {
    fn from(value: RusbError) -> (s: Self) {
        match value.kind {
            usb::RusbError::Io => Status::Failed,
            usb::RusbError::InvalidParam => Status::Unexpected,
            usb::RusbError::Access => Status::Failed,
            usb::RusbError::NoDevice | usb::RusbError::NotFound => Status::NoDev,
            usb::RusbError::Busy => Status::DevBusy,
            usb::RusbError::Timeout => Status::Timeout,
            usb::RusbError::BadDescriptor => Status::DevErr,
            _ => Status::Unexpected,
        }
    }
}

impl vstd::std_specs::convert::FromSpecImpl<RusbError> for Status {
    open spec fn obeys_from_spec() -> bool {
        true
    }

    open spec fn from_spec(value: RusbError) -> Self {
        status_of(value.kind)
    }
}

/// What a stream is for.
#[derive(Debug, Clone, Copy, PartialEq, Eq, Structural)]
pub enum Request {
    ListDevices,
    BorrowDevice,
}

impl Request {
    /// The number that stands for the request.
    pub open spec fn code(self) -> u32 {
        match self {
            Request::ListDevices => 0,
            Request::BorrowDevice => 1,
        }
    }

    /// The request that a number stands for, if it stands for one.
    pub open spec fn of_code(code: u32) -> Option<Request> {
        if code == 0 {
            Some(Request::ListDevices)
        } else if code == 1 {
            Some(Request::BorrowDevice)
        } else {
            None
        }
    }
}

impl Wire for Request {
    open spec fn wire_len() -> nat {
        4
    }

    open spec fn encoding(&self) -> Seq<u8> {
        codec::le32(self.code())
    }

    open spec fn decoding(b: Seq<u8>) -> Option<Self> {
        Request::of_code(codec::u32_at(b, 0))
    }

    fn wire_size() -> usize {
        4
    }

    fn as_bytes(&self) -> Vec<u8> {
        let code: u32 = match self {
            Request::ListDevices => 0,
            Request::BorrowDevice => 1,
        };
        let mut v: Vec<u8> = Vec::new();
        push_u32(&mut v, code);
        assert(v@ =~= self.encoding());
        v
    }

    fn try_read_from_bytes(b: &[u8]) -> Option<Self> {
        match read_u32(b, 0) {
            0 => Some(Request::ListDevices),
            1 => Some(Request::BorrowDevice),
            _ => None,
        }
    }

    proof fn lemma_round_trip(&self) {
        codec::lemma_le32(self.code());
    }

    proof fn lemma_canonical(b: Seq<u8>) {
        codec::lemma_le32_canonical(b, 0);
        assert(b.subrange(0, 4) =~= b);
    }
}

/// So many zero bytes.
pub open spec fn zero_bytes(n: nat) -> Seq<u8> {
    Seq::new(n, |i: int| 0u8)
}

fn push_zeros(v: &mut Vec<u8>, n: usize)
    ensures
        final(v)@ == old(v)@ + zero_bytes(n as nat),
{
    let mut i: usize = 0;
    assert(v@ =~= old(v)@ + zero_bytes(0));
    while i < n
        invariant
            i <= n,
            v@ == old(v)@ + zero_bytes(i as nat),
        decreases n - i,
    {
        v.push(0);
        i = i + 1;
        assert(v@ =~= old(v)@ + zero_bytes(i as nat));
    }
}

/// The bytes that ask for the devices of a peer, by a peer that speaks the version.
pub open spec fn list_request_of(version: Version) -> Seq<u8> {
    version.encoding() + Request::ListDevices.encoding()
}

/// The bytes that ask for a device of a peer, by a peer that speaks the version.
pub open spec fn borrow_request_of(version: Version, id: UsbDeviceId) -> Seq<u8> {
    version.encoding() + Request::BorrowDevice.encoding() + id.encoding() + zero_bytes(6)
}

/// The bytes that ask for the devices of a peer.
pub fn list_request() -> (v: Vec<u8>)
    ensures
        v@ == list_request_of(proto::own_version()),
{
    let mut v = qusb_ver().as_bytes();
    push_bytes(&mut v, Request::ListDevices.as_bytes().as_slice());
    v
}

/// The bytes that ask for a device of a peer.
pub fn borrow_request(id: UsbDeviceId) -> (v: Vec<u8>)
    ensures
        v@ == borrow_request_of(proto::own_version(), id),
        v@.len() % 8 == 0,
{
    let mut v = qusb_ver().as_bytes();
    push_bytes(&mut v, Request::BorrowDevice.as_bytes().as_slice());
    push_bytes(&mut v, id.as_bytes().as_slice());
    push_zeros(&mut v, 6);
    v
}

/// An answer that says nothing but what became of the request.
pub open spec fn status_answer_of(status: Status) -> Seq<u8> {
    status.encoding() + zero_bytes(7)
}

/// The answer of a peer of the version to one that speaks another.
pub open spec fn version_answer_of(version: Version) -> Seq<u8> {
    status_answer_of(Status::VersionMismatch) + version.encoding() + zero_bytes(4)
}

/// An answer that says nothing but what became of the request.
pub fn status_answer(status: Status) -> (v: Vec<u8>)
    ensures
        v@ == status_answer_of(status),
{
    let mut v = status.as_bytes();
    push_zeros(&mut v, 7);
    v
}

/// The answer to a peer that speaks another version.
pub fn version_answer() -> (v: Vec<u8>)
    ensures
        v@ == version_answer_of(proto::own_version()),
{
    let mut v = status_answer(Status::VersionMismatch);
    push_bytes(&mut v, qusb_ver().as_bytes().as_slice());
    push_zeros(&mut v, 4);
    v
}

/// The versions go together.
pub open spec fn compatible(a: Version, b: Version) -> bool {
    a.major == b.major && a.minor == b.minor
}

/// What a peer of the version `ours` makes of the start of a stream: the request, or the answer
/// that refuses it and the error. With it, how many of the bytes are used up.
pub open spec fn accepted(ours: Version, b: Seq<u8>) -> (Result<ClientReq, (Seq<u8>, Error)>, int) {
    let theirs = Version::decoding(b.take(4))->0;
    if !compatible(theirs, ours) {
        (Err((version_answer_of(ours), Error::VersionMismatch(theirs))), 4)
    } else {
        match Request::decoding(b.skip(4).take(4)) {
            Some(Request::ListDevices) => (Ok(ClientReq::ListDevices), 8),
            Some(Request::BorrowDevice) => (
                Ok(ClientReq::BorrowDevice(UsbDeviceId::decoding(b.skip(8).take(2))->0)),
                16,
            ),
            None => (Err((status_answer_of(Status::Proto), Error::Unknown)), 4),
        }
    }
}

/// How many bytes the request at the start of a stream takes.
pub open spec fn request_len_of(ours: Version, b: Seq<u8>) -> int {
    if accepted(ours, b).0 is Ok {
        accepted(ours, b).1
    } else {
        8
    }
}

/// A request that is refused: what the peer is told before its stream is closed, and why.
pub struct Refusal {
    pub answer: Vec<u8>,
    pub error: Error,
}

/// How many bytes the request takes that begins with the first eight bytes.
pub fn request_len(buf: &Ring) -> (n: usize)
    requires
        buf@.len() >= 8,
    ensures
        n == request_len_of(proto::own_version(), buf@),
        n <= 16,
{
    let version = match buf.peek::<Version>() {
        Ok(version) => version,
        Err(_) => return 8,
    };
    if !version.is_compat(&qusb_ver()) {
        return 8;
    }
    let b = slice_subrange(buf.chunk(), 4, 8);
    assert(b@ =~= buf@.skip(4).take(4));
    match Request::try_read_from_bytes(b) {
        Some(Request::BorrowDevice) => 16,
        _ => 8,
    }
}

/// Reads the request at the start of a stream.
pub fn accept(buf: &mut Ring) -> (r: Result<ClientReq, Refusal>)
    requires
        old(buf)@.len() >= 8,
        old(buf)@.len() >= request_len_of(proto::own_version(), old(buf)@),
    ensures
        match (r, accepted(proto::own_version(), old(buf)@).0) {
            (Ok(req), Ok(req2)) => req == req2,
            (Err(refusal), Err((answer, error))) => refusal.answer@ == answer && refusal.error
                == error,
            _ => false,
        },
        final(buf)@ == old(buf)@.skip(accepted(proto::own_version(), old(buf)@).1),
{
    let version = match buf.read::<Version>() {
        Ok(version) => version,
        Err(_) => vstd::pervasive::unreached(),
    };
    if !version.is_compat(&qusb_ver()) {
        return Err(
            Refusal { answer: version_answer(), error: Error::VersionMismatch(version) },
        );
    }
    match buf.read::<Request>() {
        Ok(Request::ListDevices) => {
            assert(old(buf)@.skip(4).skip(4) =~= old(buf)@.skip(8));
            Ok(ClientReq::ListDevices)
        },
        Ok(Request::BorrowDevice) => {
            assert(old(buf)@.skip(4).skip(4) =~= old(buf)@.skip(8));
            let id = match buf.read::<UsbDeviceId>() {
                Ok(id) => id,
                Err(_) => vstd::pervasive::unreached(),
            };
            buf.consume(6);
            assert(old(buf)@.skip(8).skip(2).skip(6) =~= old(buf)@.skip(16));
            Ok(ClientReq::BorrowDevice(id))
        },
        Err(ReadError::CorruptedData) => Err(
            Refusal { answer: status_answer(Status::Proto), error: Error::Unknown },
        ),
        Err(ReadError::BufferShort { .. }) => vstd::pervasive::unreached(),
    }
}

/// What a client makes of the status at the start of an answer.
#[derive(Debug, Clone, Copy, PartialEq, Eq, Structural)]
pub enum Answer {
    /// The request is granted.
    Granted,
    /// The version of the peer follows, which is another.
    VersionFollows,
    Refused(Error),
}

/// What the answer to a request for the devices begins with.
pub open spec fn list_answer_of(status: Status) -> Answer {
    match status {
        Status::Success => Answer::Granted,
        Status::VersionMismatch => Answer::VersionFollows,
        _ => Answer::Refused(Error::ReqFailed),
    }
}

/// A server answers a request for its devices with no other status.
pub open spec fn is_list_status(status: Status) -> bool {
    status == Status::Success || status == Status::VersionMismatch || status == Status::Failed
        || status == Status::Unexpected
}

/// What the answer to a request for a device begins with.
pub open spec fn borrow_answer_of(status: Status, id: UsbDeviceId) -> Answer {
    match status {
        Status::Success => Answer::Granted,
        Status::VersionMismatch => Answer::VersionFollows,
        Status::DevBusy => Answer::Refused(Error::Io(IoErrorKind::ResourceBusy)),
        Status::NoDev => Answer::Refused(Error::DevNotFound(id)),
        Status::Unexpected => Answer::Refused(Error::Io(IoErrorKind::InvalidData)),
        _ => Answer::Refused(Error::ReqFailed),
    }
}

/// A server answers a request for a device with no other status.
pub open spec fn is_borrow_status(status: Status) -> bool {
    status != Status::DevErr && status != Status::Timeout && status != Status::Proto
}

/// Reads the start of the answer to a request for the devices of a peer. No answer at all is an
/// unknown one.
pub fn read_list_answer(buf: &mut Ring) -> (a: Answer)
    requires
        old(buf)@.len() > 0 ==> {
            &&& old(buf)@.len() >= 8
            &&& data::peeked::<Status>(old(buf)@) matches Ok(status) && is_list_status(status)
        },
    ensures
        old(buf)@.len() == 0 ==> a == Answer::Refused(Error::Unknown) && final(buf)@ == old(buf)@,
        old(buf)@.len() > 0 ==> {
            &&& a == list_answer_of(data::peeked::<Status>(old(buf)@)->Ok_0)
            &&& final(buf)@ == old(buf)@.skip(8)
        },
{
    let status = match buf.read::<Status>() {
        Ok(status) => status,
        Err(_) => return Answer::Refused(Error::Unknown),
    };
    buf.consume(7);
    assert(buf@ =~= old(buf)@.skip(8));
    match status {
        Status::Success => Answer::Granted,
        Status::VersionMismatch => Answer::VersionFollows,
        _ => Answer::Refused(Error::ReqFailed),
    }
}

/// Reads the start of the answer to a request for a device.
pub fn read_borrow_answer(buf: &mut Ring, id: UsbDeviceId) -> (a: Answer)
    requires
        old(buf)@.len() >= 8,
        data::peeked::<Status>(old(buf)@) matches Ok(status) && is_borrow_status(status),
    ensures
        a == borrow_answer_of(data::peeked::<Status>(old(buf)@)->Ok_0, id),
        final(buf)@ == old(buf)@.skip(8),
{
    let status = match buf.read::<Status>() {
        Ok(status) => status,
        Err(_) => vstd::pervasive::unreached(),
    };
    buf.consume(7);
    assert(buf@ =~= old(buf)@.skip(8));
    match status {
        Status::Success => Answer::Granted,
        Status::VersionMismatch => Answer::VersionFollows,
        Status::DevBusy => Answer::Refused(Error::Io(IoErrorKind::ResourceBusy)),
        Status::NoDev => Answer::Refused(Error::DevNotFound(id)),
        Status::Unexpected => Answer::Refused(Error::Io(IoErrorKind::InvalidData)),
        _ => Answer::Refused(Error::ReqFailed),
    }
}

/// Tells whether an answer to a request for the devices can be read.
pub fn is_list_answer(buf: &Ring) -> (b: bool)
    ensures
        b <==> (buf@.len() > 0 ==> {
            &&& buf@.len() >= 8
            &&& data::peeked::<Status>(buf@) matches Ok(status) && is_list_status(status)
        }),
{
    if buf.is_empty() {
        return true;
    }
    match buf.peek::<Status>() {
        Ok(status) => buf.len() >= 8 && matches!(
            status,
            Status::Success | Status::VersionMismatch | Status::Failed | Status::Unexpected
        ),
        Err(_) => false,
    }
}

/// Tells whether an answer to a request for a device can be read.
pub fn is_borrow_answer(buf: &Ring) -> (b: bool)
    ensures
        b <==> {
            &&& buf@.len() >= 8
            &&& data::peeked::<Status>(buf@) matches Ok(status) && is_borrow_status(status)
        },
{
    match buf.peek::<Status>() {
        Ok(status) => buf.len() >= 8 && !matches!(
            status,
            Status::DevErr | Status::Timeout | Status::Proto
        ),
        Err(_) => false,
    }
}

/// Reads the version that a peer answers with.
pub fn read_their_version(buf: &mut Ring) -> (e: Error)
    requires
        old(buf)@.len() >= 4,
    ensures
        e == Error::VersionMismatch(Version::decoding(old(buf)@.take(4))->0),
        final(buf)@ == old(buf)@.skip(4),
{
    match buf.read::<Version>() {
        Ok(version) => Error::VersionMismatch(version),
        Err(_) => vstd::pervasive::unreached(),
    }
}

/// What a client asks for is what a server with a compatible version accepts, and nothing of what
/// follows the request is used up. To a client with another version it tells its own.
pub proof fn law_request_is_accepted(
    theirs: Version,
    ours: Version,
    id: UsbDeviceId,
    rest: Seq<u8>,
)
    ensures
        compatible(theirs, ours) ==> {
            &&& accepted(ours, list_request_of(theirs) + rest) == (
                Ok::<ClientReq, (Seq<u8>, Error)>(ClientReq::ListDevices),
                8int,
            )
            &&& (list_request_of(theirs) + rest).skip(8) == rest
            &&& accepted(ours, borrow_request_of(theirs, id) + rest) == (
                Ok::<ClientReq, (Seq<u8>, Error)>(ClientReq::BorrowDevice(id)),
                16int,
            )
            &&& (borrow_request_of(theirs, id) + rest).skip(16) == rest
        },
        !compatible(theirs, ours) ==> {
            &&& accepted(ours, list_request_of(theirs) + rest).0 == Err::<
                ClientReq,
                (Seq<u8>, Error),
            >((version_answer_of(ours), Error::VersionMismatch(theirs)))
            &&& accepted(ours, borrow_request_of(theirs, id) + rest).0 == Err::<
                ClientReq,
                (Seq<u8>, Error),
            >((version_answer_of(ours), Error::VersionMismatch(theirs)))
        },
{
    theirs.lemma_round_trip();
    id.lemma_round_trip();
    Request::ListDevices.lemma_round_trip();
    Request::BorrowDevice.lemma_round_trip();
    let v = theirs.encoding();
    let list = list_request_of(theirs) + rest;
    assert(list.take(4) =~= v);
    assert(list.skip(4).take(4) =~= Request::ListDevices.encoding());
    assert(list.skip(8) =~= rest);
    let borrow = borrow_request_of(theirs, id) + rest;
    assert(borrow.take(4) =~= v);
    assert(borrow.skip(4).take(4) =~= Request::BorrowDevice.encoding());
    assert(borrow.skip(8).take(2) =~= id.encoding());
    assert(borrow.skip(16) =~= rest);
}

/// A client reads from an answer the status that the server wrote, and the version where the
/// versions do not go together.
pub proof fn law_answer_is_read(status: Status, ours: Version, rest: Seq<u8>)
    ensures
        data::peeked::<Status>(status_answer_of(status) + rest) == Ok::<Status, ReadError>(status),
        (status_answer_of(status) + rest).skip(8) == rest,
        data::peeked::<Status>(version_answer_of(ours) + rest) == Ok::<Status, ReadError>(
            Status::VersionMismatch,
        ),
        Version::decoding((version_answer_of(ours) + rest).skip(8).take(4)) == Some(ours),
{
    status.lemma_round_trip();
    Status::VersionMismatch.lemma_round_trip();
    ours.lemma_round_trip();
    let a = status_answer_of(status) + rest;
    assert(a.take(1) =~= status.encoding());
    assert(a.skip(8) =~= rest);
    let b = version_answer_of(ours) + rest;
    assert(b.take(1) =~= Status::VersionMismatch.encoding());
    assert(b.skip(8).take(4) =~= ours.encoding());
}

} // verus!
