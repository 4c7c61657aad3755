//! How two peers begin to talk, told byte by byte.
use crate::codec::Wire;
use crate::proto;
use crate::proto::layout;
use crate::proto::msg::{Command, Header, Status, UsbDeviceId, Version};
use crate::proto::AbortableError;
use crate::session;
use crate::session::{Answer, Error, IoErrorKind, Request};
use crate::state::ClientReq;
use crate::usb;
use vstd::prelude::*;
use vstd::std_specs::convert::FromSpec;

verus! {

/// The version of the protocol that this library speaks is zero, four, zero.
pub proof fn law_own_version()
    ensures
        proto::own_version().major == 0,
        proto::own_version().minor == 4,
        proto::own_version().patch == 0,
        proto::own_version().encoding() == seq![0u8, 4, 0, 0],
{
    assert(proto::own_version().encoding() =~= seq![0u8, 4, 0, 0]);
}

/// Versions go together just where they have the same first two numbers.
pub proof fn law_versions_go_together(a: Version, b: Version)
    ensures
        session::compatible(a, b) <==> a.encoding()[0] == b.encoding()[0] && a.encoding()[1]
            == b.encoding()[1],
        session::compatible(a, b) <==> session::compatible(b, a),
        session::compatible(a, a),
{
}

/// A request, byte by byte: the version, the number of what is asked for, and for a device its name.
pub proof fn law_request_bytes(v: Version, id: UsbDeviceId)
    ensures
        ({
            let list = session::list_request_of(v);
            &&& list.len() == 8
            &&& list[0] == v.major
            &&& list[1] == v.minor
            &&& layout::low_first16(list, 2, v.patch as int)
            &&& layout::low_first32(list, 4, 0)
        }),
        ({
            let borrow = session::borrow_request_of(v, id);
            &&& borrow.len() == 16
            &&& borrow[0] == v.major
            &&& borrow[1] == v.minor
            &&& layout::low_first16(borrow, 2, v.patch as int)
            &&& layout::low_first32(borrow, 4, 1)
            &&& borrow[8] == id.bus_number
            &&& borrow[9] == id.device_addr
            &&& forall|i: int| 10 <= i < 16 ==> borrow[i] == 0
        }),
{
    layout::law_version_and_id_layout(v, id);
    Request::ListDevices.lemma_round_trip();
    Request::BorrowDevice.lemma_round_trip();
    assert(layout::low_first32(Request::ListDevices.encoding(), 0, 0));
    assert(layout::low_first32(Request::BorrowDevice.encoding(), 0, 1));
}

/// An answer, byte by byte: the byte of its status and seven zeros, and where the versions do not go
/// together the version of the peer that answers.
pub proof fn law_answer_bytes(s: Status, v: Version)
    ensures
        ({
            let a = session::status_answer_of(s);
            &&& a.len() == 8
            &&& a[0] == s.encoding()[0]
            &&& forall|i: int| 1 <= i < 8 ==> a[i] == 0
        }),
        ({
            let a = session::version_answer_of(v);
            &&& a.len() == 16
            &&& a[0] == 6
            &&& forall|i: int| 1 <= i < 8 ==> a[i] == 0
            &&& a[8] == v.major
            &&& a[9] == v.minor
            &&& layout::low_first16(a, 10, v.patch as int)
            &&& forall|i: int| 12 <= i < 16 ==> a[i] == 0
        }),
{
    layout::law_frame_codes(Command::CmdSubmit, s);
    layout::law_frame_codes(Command::CmdSubmit, Status::VersionMismatch);
    layout::law_version_and_id_layout(v, UsbDeviceId { bus_number: 0, device_addr: 0 });
}

/// What a peer makes of the bytes at the start of a stream. Another version is answered with the own one;
/// zero asks for the devices, one for the device with the name that follows; anything else is refused as
/// unknown. With it, how many bytes are used up, and how many are needed.
pub proof fn law_start_is_read(ours: Version, b: Seq<u8>)
    requires
        b.len() >= 16,
    ensures
        ({
            let (r, used) = session::accepted(ours, b);
            let same = b[0] == ours.major && b[1] == ours.minor;
            let asks = b[4] + 256 * b[5] + 65536 * b[6] + 16777216 * b[7];
            &&& !same ==> {
                &&& r is Err
                &&& r->Err_0.0[0] == 6
                &&& r->Err_0.0 == session::version_answer_of(ours)
                &&& r->Err_0.1 matches Error::VersionMismatch(theirs) && theirs.major == b[0]
                    && theirs.minor == b[1] && theirs.patch == b[2] + 256 * b[3]
                &&& used == 4
                &&& session::request_len_of(ours, b) == 8
            }
            &&& same && asks == 0 ==> r == Ok::<ClientReq, (Seq<u8>, Error)>(
                ClientReq::ListDevices,
            ) && used == 8 && session::request_len_of(ours, b) == 8
            &&& same && asks == 1 ==> r == Ok::<ClientReq, (Seq<u8>, Error)>(
                ClientReq::BorrowDevice(UsbDeviceId { bus_number: b[8], device_addr: b[9] }),
            ) && used == 16 && session::request_len_of(ours, b) == 16
            &&& same && asks > 1 ==> {
                &&& r is Err
                &&& r->Err_0.0.len() == 8
                &&& r->Err_0.0[0] == 8
                &&& r->Err_0.1 == Error::Unknown
                &&& used == 4
                &&& session::request_len_of(ours, b) == 8
            }
        }),
{
    let v = b.take(4);
    let q = b.skip(4).take(4);
    let d = b.skip(8).take(2);
    assert(v[0] == b[0] && v[1] == b[1] && v[2] == b[2] && v[3] == b[3]);
    assert(q[0] == b[4] && q[1] == b[5] && q[2] == b[6] && q[3] == b[7]);
    assert(d[0] == b[8] && d[1] == b[9]);
    law_answer_bytes(Status::Proto, ours);
    layout::law_frame_codes(Command::CmdSubmit, Status::Proto);
}

/// What a client makes of the status of an answer.
pub proof fn law_answers_are_told(s: Status, id: UsbDeviceId)
    ensures
        s == Status::Success <==> session::list_answer_of(s) == Answer::Granted,
        s == Status::VersionMismatch <==> session::list_answer_of(s) == Answer::VersionFollows,
        s != Status::Success && s != Status::VersionMismatch <==> session::list_answer_of(s)
            == Answer::Refused(Error::ReqFailed),
        session::is_list_status(s) <==> s == Status::Success || s == Status::VersionMismatch || s
            == Status::Failed || s == Status::Unexpected,
        s == Status::Success <==> session::borrow_answer_of(s, id) == Answer::Granted,
        s == Status::VersionMismatch <==> session::borrow_answer_of(s, id)
            == Answer::VersionFollows,
        s == Status::DevBusy <==> session::borrow_answer_of(s, id) == Answer::Refused(
            Error::Io(IoErrorKind::ResourceBusy),
        ),
        s == Status::NoDev <==> session::borrow_answer_of(s, id) == Answer::Refused(
            Error::DevNotFound(id),
        ),
        s == Status::Unexpected <==> session::borrow_answer_of(s, id) == Answer::Refused(
            Error::Io(IoErrorKind::InvalidData),
        ),
        s == Status::Failed || s == Status::DevErr || s == Status::Timeout || s == Status::Proto
            <==> session::borrow_answer_of(s, id) == Answer::Refused(Error::ReqFailed),
        session::is_borrow_status(s) <==> s == Status::Success || s == Status::VersionMismatch || s
            == Status::Failed || s == Status::DevBusy || s == Status::NoDev || s
            == Status::Unexpected,
{
}

/// What the peer is told of an error of the USB library.
pub proof fn law_library_errors_are_told(e: session::RusbError, k: usb::RusbError)
    requires
        k == e.kind,
    ensures
        <Status as FromSpec<session::RusbError>>::from_spec(e) == session::status_of(k),
        session::status_of(k) == Status::Failed <==> k == usb::RusbError::Io || k
            == usb::RusbError::Access,
        session::status_of(k) == Status::NoDev <==> k == usb::RusbError::NoDevice || k
            == usb::RusbError::NotFound,
        session::status_of(k) == Status::DevBusy <==> k == usb::RusbError::Busy,
        session::status_of(k) == Status::Timeout <==> k == usb::RusbError::Timeout,
        session::status_of(k) == Status::DevErr <==> k == usb::RusbError::BadDescriptor,
        session::status_of(k) == Status::Unexpected <==> !(k == usb::RusbError::Io || k
            == usb::RusbError::Access || k == usb::RusbError::NoDevice || k
            == usb::RusbError::NotFound || k == usb::RusbError::Busy || k
            == usb::RusbError::Timeout || k == usb::RusbError::BadDescriptor),
        e.expected() <==> !(k == usb::RusbError::Io || k == usb::RusbError::Overflow || k
            == usb::RusbError::BadDescriptor),
{
}

/// The device that a server told to be missing is the one that the client asked for, and a busy device is
/// told to be busy: what goes wrong with the device at the server is what the client is told.
pub proof fn law_error_reaches_client(k: usb::RusbError, id: UsbDeviceId)
    ensures
        k == usb::RusbError::NoDevice || k == usb::RusbError::NotFound
            <==> session::borrow_answer_of(session::status_of(k), id) == Answer::Refused(
            Error::DevNotFound(id),
        ),
        k == usb::RusbError::Busy <==> session::borrow_answer_of(session::status_of(k), id)
            == Answer::Refused(Error::Io(IoErrorKind::ResourceBusy)),
        session::borrow_answer_of(session::status_of(k), id) is Refused,
{
}

/// Which byte tells the peer of an error that ends the session.
pub proof fn law_session_errors_are_told(e: AbortableError)
    ensures
        e == AbortableError::InvalidData <==> e.proto_status().encoding()[0] == 8,
        e == AbortableError::DeviceDisconnected <==> e.proto_status().encoding()[0] == 4,
        e == AbortableError::Proto <==> e.proto_status().encoding()[0] == 3,
        e == AbortableError::Oops <==> e.proto_status().encoding()[0] == 1,
        e == AbortableError::Other <==> e.proto_status().encoding()[0] == 5,
        e == AbortableError::DeviceDisconnected || e == AbortableError::Proto || e
            == AbortableError::Oops <==> proto::answer_error(e.proto_status()) == e,
        e == AbortableError::InvalidData ==> proto::answer_error(e.proto_status())
            == AbortableError::Oops,
{
    layout::law_frame_codes(Command::CmdSubmit, e.proto_status());
}

/// Which frames go together with their status: every request, and answers to transfers and port resets
/// that succeeded, that the device refused, whose device is gone, or that were not understood.
pub proof fn law_frames_that_are_understood(h: Header)
    ensures
        proto::understood(h) <==> h.command == Command::CmdSubmit || h.command
            == Command::CmdUnlink || h.command == Command::CmdPort || ((h.command
            == Command::RetSubmit || h.command == Command::RetPort) && (h.status
            == Status::Success || h.status == Status::DevErr || h.status == Status::NoDev
            || h.status == Status::Proto)),
{
}

} // verus!
