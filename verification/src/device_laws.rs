//! What a peer tells of its devices, told field by field and byte by byte.
use crate::codec;
use crate::codec::Wire;
use crate::devices;
use crate::devices::{DeviceFacts, SendUsbDeviceInfo, UsbDeviceWrapper};
use crate::proto::data;
use crate::proto::layout;
use crate::proto::msg::{Speed, Status, UsbDeviceInfo, UsbDeviceInfoHeader, UsbInterfaceInfo};
use crate::session_laws;
use vstd::prelude::*;

verus! {

/// What is told of a device is what is known of it, each thing in its own place; of a number of
/// configurations the low byte is told, and a configuration that is not known is zero.
#[verifier::rlimit(60)]
#[verifier::spinoff_prover]
pub proof fn law_device_is_told(
    w: UsbDeviceWrapper,
    facts: DeviceFacts,
    path: Seq<u8>,
    bus_id: Seq<u8>,
    interfaces: Seq<UsbInterfaceInfo>,
)
    requires
        devices::described(w, facts, path, bus_id, interfaces),
        interfaces.len() <= 254,
    ensures
        ({
            let b = w.info.encoding();
            &&& b.len() == 312
            &&& forall|i: int|
                0 <= i < 256 ==> #[trigger] b[i] == if i < path.len() {
                    path[i]
                } else {
                    0
                }
            &&& forall|i: int|
                0 <= i < 32 ==> #[trigger] b[256 + i] == if i < bus_id.len() {
                    bus_id[i]
                } else {
                    0
                }
            &&& path.len() <= 256 ==> layout::low_first16(b, 288, path.len() as int)
            &&& 256 < path.len() <= 65535 ==> layout::low_first16(b, 288, 256)
            &&& path.len() > 65535 ==> layout::low_first16(b, 288, 0)
            &&& layout::low_first16(b, 290, facts.id_vendor as int)
            &&& layout::low_first16(b, 292, facts.id_product as int)
            &&& layout::low_first16(b, 294, facts.bcd_device as int)
            &&& bus_id.len() <= 32 ==> b[296] == bus_id.len()
            &&& 32 < bus_id.len() <= 255 ==> b[296] == 32
            &&& bus_id.len() > 255 ==> b[296] == 0
            &&& b[297] == facts.busnum
            &&& b[298] == facts.devnum
            &&& b[299] == (match facts.speed {
                Some(n) if n <= 5 => n,
                _ => 0,
            })
            &&& b[300] == facts.b_device_class
            &&& b[301] == facts.b_device_subclass
            &&& b[302] == facts.b_device_protocol
            &&& b[303] == (match facts.b_configuration_value {
                Some(n) => n,
                None => 0,
            })
            &&& (facts.num_configurations - b[304]) % 256 == 0
            &&& b[305] == interfaces.len()
            &&& b[306] % 2 == 0
            &&& interfaces.len() <= b[306] <= interfaces.len() + 1
            &&& forall|i: int| 0 <= i < 5 ==> #[trigger] b[307 + i] == 0
        }),
{
    layout::law_device_info_layout(w.info);
    law_speeds(facts.speed);
    law_interfaces_are_even(interfaces);
    let b = w.info.encoding();
    assert forall|i: int| 0 <= i < 256 implies #[trigger] b[i] == if i < path.len() {
        path[i]
    } else {
        0
    } by {
        assert(b.take(256)[i] == w.info.path@[i]);
    }
    assert forall|i: int| 0 <= i < 32 implies #[trigger] b[256 + i] == if i < bus_id.len() {
        bus_id[i]
    } else {
        0
    } by {
        assert(b.subrange(256, 288)[i] == w.info.bus_id@[i]);
    }
    assert forall|i: int| 0 <= i < 5 implies #[trigger] b[307 + i] == 0 by {
        assert(b.skip(307)[i] == w.info._padding@[i]);
    }
}

/// A speed is told by its number, and one that is not known, or has no name, by zero.
pub proof fn law_speeds(speed: Option<u8>)
    ensures
        devices::told_speed(speed).encoding()[0] == (match speed {
            Some(n) if n <= 5 => n,
            _ => 0,
        }),
        devices::told_speed(Some(1)) == Speed::Low,
        devices::told_speed(Some(2)) == Speed::Full,
        devices::told_speed(Some(3)) == Speed::High,
        devices::told_speed(Some(4)) == Speed::Super,
        devices::told_speed(Some(5)) == Speed::SuperPlus,
{
}

/// Interfaces are told in an even number: one that is zero follows them where theirs is odd.
pub proof fn law_interfaces_are_even(interfaces: Seq<UsbInterfaceInfo>)
    ensures
        ({
            let p = devices::with_padding(interfaces);
            &&& p.len() % 2 == 0
            &&& interfaces.len() <= p.len() <= interfaces.len() + 1
            &&& p.take(interfaces.len() as int) == interfaces
            &&& p.len() > interfaces.len() ==> p.last().encoding() == seq![0u8, 0, 0, 0]
        }),
{
    let p = devices::with_padding(interfaces);
    assert(p.take(interfaces.len() as int) =~= interfaces);
    if p.len() > interfaces.len() {
        assert(p.last().encoding() =~= seq![0u8, 0, 0, 0]);
    }
}

/// What is told of a device of this peer are its own header and its own interfaces.
pub proof fn law_own_device(w: UsbDeviceWrapper)
    ensures
        w.info_of() == w.info,
        w.padded_interfaces_of() == w.interfaces@,
        w.wf() ==> w.info.b_num_interfaces <= w.interfaces@.len()
            && w.info.padded_num_interfaces == w.interfaces@.len(),
{
}

/// A list of devices is the bytes of one after those of the other: of each its header and four bytes for
/// each interface.
pub proof fn law_listing<T: SendUsbDeviceInfo>(ds: Seq<T>, d: T)
    ensures
        devices::listing(Seq::<T>::empty()).len() == 0,
        devices::listing(ds.push(d)) == devices::listing(ds) + (d.info_of().encoding()
            + codec::encode_all(d.padded_interfaces_of())),
        devices::listing(ds.push(d)).len() == devices::listing(ds).len() + 312 + 4
            * d.padded_interfaces_of().len(),
{
    assert(ds.push(d).drop_last() =~= ds);
    d.info_of().lemma_round_trip();
    codec::lemma_encode_all_len(d.padded_interfaces_of());
    let n = d.padded_interfaces_of().len();
    let w = <UsbInterfaceInfo as Wire>::wire_len();
    assert(n * w == 4 * n) by (nonlinear_arith)
        requires
            w == 4,
    ;
}

/// The first byte of an answer tells whether the devices follow.
#[verifier::rlimit(60)]
#[verifier::spinoff_prover]
pub proof fn law_list_answers<T: SendUsbDeviceInfo>(ds: Seq<T>)
    ensures
        ({
            let a = devices::device_list_of(Some(ds));
            let none = devices::device_list_of(None::<Seq<T>>);
            &&& a.len() == 8 + devices::listing(ds).len()
            &&& a.skip(8) == devices::listing(ds)
            &&& forall|i: int| 0 <= i < 8 ==> a[i] == 0
            &&& none == seq![3u8, 1, 1, 0, 0, 0, 0, 0]
        }),
        ({
            let a = devices::status_list_of(Some(ds));
            let none = devices::status_list_of(None::<Seq<T>>);
            &&& a.len() == 8 + devices::listing(ds).len()
            &&& a.skip(8) == devices::listing(ds)
            &&& forall|i: int| 0 <= i < 8 ==> a[i] == 0
            &&& none.len() == 8
            &&& none[0] == 1
            &&& forall|i: int| 1 <= i < 8 ==> none[i] == 0
        }),
{
    let granted = crate::proto::msg::Resp::ListDevices { _padding: [0, 0, 0, 0, 0, 0, 0] };
    let failed = crate::proto::msg::Resp::Failure {
        stat: Status::Failed,
        ver: crate::proto::msg::VersionOpt::Unknown([0, 0, 0, 0]),
    };
    layout::law_response_layout(granted);
    layout::law_response_layout(failed);
    layout::law_frame_codes(crate::proto::msg::Command::CmdSubmit, Status::Failed);
    layout::law_frame_codes(crate::proto::msg::Command::CmdSubmit, Status::Success);
    session_laws::law_answer_bytes(Status::Success, crate::proto::own_version());
    session_laws::law_answer_bytes(Status::Failed, crate::proto::own_version());
    let a = devices::status_list_of(Some(ds));
    assert(a.skip(8) =~= devices::listing(ds));
    let b = devices::device_list_of(Some(ds));
    assert(b.skip(8) =~= devices::listing(ds));
    assert forall|i: int| 0 <= i < 8 implies b[i] == 0 by {
        if i > 0 {
            assert(granted.encoding().skip(1)[i - 1] == 0);
        }
    }
    let none = devices::device_list_of(None::<Seq<T>>);
    assert forall|i: int| 4 <= i < 8 implies none[i] == 0 by {
        assert(none.skip(4)[i - 4] == 0);
    }
    assert(none =~= seq![3u8, 1, 1, 0, 0, 0, 0, 0]);
}

/// The devices that are read from bytes are the records that the bytes are made of, one for one.
pub proof fn law_devices_are_the_records(b: Seq<u8>)
    ensures
        devices::read_devices(b) == data::dst_records::<UsbDeviceInfo>(b).map_values(
            |r: (UsbDeviceInfoHeader, Seq<u8>)|
                (r.0, codec::decode_while::<UsbInterfaceInfo>(r.1)),
        ),
    decreases b.len(),
{
    let f = |r: (UsbDeviceInfoHeader, Seq<u8>)|
        (r.0, codec::decode_while::<UsbInterfaceInfo>(r.1));
    let records = data::dst_records::<UsbDeviceInfo>(b);
    match data::dst_size::<UsbDeviceInfo>(b) {
        Ok(n) => {
            if 312 <= n <= b.len() {
                law_devices_are_the_records(b.skip(n as int));
                let rest = data::dst_records::<UsbDeviceInfo>(b.skip(n as int));
                let first = (
                    UsbDeviceInfoHeader::decoding(b.take(312))->0,
                    b.subrange(312, n as int),
                );
                assert(records == seq![first] + rest);
                assert(records.map_values(f) =~= seq![f(first)] + rest.map_values(f));
                assert(devices::read_devices(b) =~= records.map_values(f));
            } else {
                assert(devices::read_devices(b) =~= records.map_values(f));
            }
        },
        Err(_) => {
            assert(devices::read_devices(b) =~= records.map_values(f));
        },
    }
}

} // verus!
