//! The devices of a peer: how they are told to another peer, and how their interfaces are held.
use crate::codec;
use crate::codec::{push_bytes, write_all, Wire};
use crate::proto;
use crate::proto::data;
use crate::proto::data::{IterDst, IterMutDst, Ring};
use crate::proto::msg::{
    send_resp, Resp, Speed, Status, UsbDeviceInfo, UsbDeviceInfoHeader, UsbInterfaceInfo, VersionOpt,
};
use crate::proto::GetSliceLen;
use crate::session;
use crate::session::status_answer;
use vstd::prelude::*;

verus! {

/// A device as it is told to a peer.
pub trait SendUsbDeviceInfo {
    spec fn info_of(&self) -> UsbDeviceInfoHeader;

    /// The interfaces, with one that means nothing after them where their number is odd.
    spec fn padded_interfaces_of(&self) -> Seq<UsbInterfaceInfo>;

    /// The numbers of interfaces that are told are those of the interfaces that are there.
    spec fn wf(&self) -> bool;

    fn get(&self) -> (info: &UsbDeviceInfoHeader)
        ensures
            *info == self.info_of(),
    ;

    fn interfaces_with_padding(&self) -> (s: &[UsbInterfaceInfo])
        ensures
            s@ == self.padded_interfaces_of(),
    ;

    fn interfaces(&self) -> (s: &[UsbInterfaceInfo])
        requires
            self.wf(),
        ensures
            s@ == self.padded_interfaces_of().take(self.info_of().b_num_interfaces as int),
    ;
}

/// A device that this peer has.
#[derive(Debug)]
pub struct UsbDeviceWrapper {
    pub info: UsbDeviceInfoHeader,
    pub interfaces: Vec<UsbInterfaceInfo>,
}

impl SendUsbDeviceInfo for UsbDeviceWrapper {
    open spec fn info_of(&self) -> UsbDeviceInfoHeader {
        self.info
    }

    open spec fn padded_interfaces_of(&self) -> Seq<UsbInterfaceInfo> {
        self.interfaces@
    }

    open spec fn wf(&self) -> bool {
        &&& self.info.b_num_interfaces <= self.interfaces@.len()
        &&& self.info.padded_num_interfaces == self.interfaces@.len()
    }

    fn get(&self) -> &UsbDeviceInfoHeader {
        &self.info
    }

    fn interfaces_with_padding(&self) -> &[UsbInterfaceInfo] {
        self.interfaces.as_slice()
    }

    fn interfaces(&self) -> &[UsbInterfaceInfo] {
        let n: usize = self.info.b_num_interfaces as usize;
        let s = vstd::slice::slice_subrange(self.interfaces.as_slice(), 0, n);
        assert(s@ =~= self.interfaces@.take(n as int));
        s
    }
}

/// What the operating system tells of a device.
#[derive(Debug, Clone, Copy)]
pub struct DeviceFacts {
    pub busnum: u8,
    pub devnum: u8,
    /// The number of the device's speed, where that is known.
    pub speed: Option<u8>,
    pub id_vendor: u16,
    pub id_product: u16,
    pub bcd_device: u16,
    pub b_device_class: u8,
    pub b_device_subclass: u8,
    pub b_device_protocol: u8,
    /// The number of the active configuration, where that is known.
    pub b_configuration_value: Option<u8>,
    pub num_configurations: usize,
}

/// What a field of so many bytes holds of a text: its start, and zeros after it.
pub open spec fn field_of(text: Seq<u8>, size: nat) -> Seq<u8> {
    Seq::new(
        size,
        |i: int|
            if i < text.len() {
                text[i]
            } else {
                0
            },
    )
}

/// The length that is told of a path.
pub open spec fn told_path_len(len: nat) -> nat {
    if len > 65535 {
        0
    } else if len > 256 {
        256
    } else {
        len
    }
}

/// The length that is told of a bus id.
pub open spec fn told_bus_id_len(len: nat) -> nat {
    if len > 255 {
        0
    } else if len > 32 {
        32
    } else {
        len
    }
}

/// An interface that means nothing.
pub open spec fn no_interface() -> UsbInterfaceInfo {
    UsbInterfaceInfo {
        b_interface_number: 0,
        b_interface_class: 0,
        b_interface_subclass: 0,
        b_interface_protocol: 0,
    }
}

/// The interfaces, with one that means nothing after them where their number is odd.
pub open spec fn with_padding(interfaces: Seq<UsbInterfaceInfo>) -> Seq<UsbInterfaceInfo> {
    if interfaces.len() % 2 == 1 {
        interfaces.push(no_interface())
    } else {
        interfaces
    }
}

/// The speed with the number, as it is told.
pub open spec fn told_speed(speed: Option<u8>) -> Speed {
    match speed {
        Some(num) => match Speed::of_code(num) {
            Some(speed) => speed,
            None => Speed::Unknown,
        },
        None => Speed::Unknown,
    }
}

/// The wrapper tells of the device what is to be told.
pub open spec fn described(
    w: UsbDeviceWrapper,
    facts: DeviceFacts,
    path: Seq<u8>,
    bus_id: Seq<u8>,
    interfaces: Seq<UsbInterfaceInfo>,
) -> bool {
    &&& w.interfaces@ == with_padding(interfaces)
    &&& w.info.path@ == field_of(path, 256)
    &&& w.info.path_len == told_path_len(path.len())
    &&& w.info.bus_id@ == field_of(bus_id, 32)
    &&& w.info.bus_id_len == told_bus_id_len(bus_id.len())
    &&& w.info.busnum == facts.busnum
    &&& w.info.devnum == facts.devnum
    &&& w.info.speed == told_speed(facts.speed)
    &&& w.info.id_vendor == facts.id_vendor
    &&& w.info.id_product == facts.id_product
    &&& w.info.bcd_device == facts.bcd_device
    &&& w.info.b_device_class == facts.b_device_class
    &&& w.info.b_device_subclass == facts.b_device_subclass
    &&& w.info.b_device_protocol == facts.b_device_protocol
    &&& w.info.b_configuration_value == (match facts.b_configuration_value {
        Some(value) => value,
        None => 0,
    })
    &&& w.info.b_num_configurations == facts.num_configurations % 256
    &&& w.info.b_num_interfaces == interfaces.len()
    &&& w.info.padded_num_interfaces == with_padding(interfaces).len()
    &&& w.info._padding@ == field_of(Seq::empty(), 5)
}

fn fill_field<const N: usize>(text: &[u8]) -> (a: [u8; N])
    ensures
        a@ == field_of(text@, N as nat),
{
    let mut a: [u8; N] = [0u8; N];
    let len: usize = text.len();
    let mut i: usize = 0;
    while i < N && i < len
        invariant
            i <= N,
            i <= len,
            len == text@.len(),
            a@.len() == N,
            forall|j: int| 0 <= j < i ==> a@[j] == text@[j],
            forall|j: int| i <= j < N ==> a@[j] == 0,
        decreases N - i,
    {
        a[i] = text[i];
        i = i + 1;
    }
    assert(a@ =~= field_of(text@, N as nat));
    a
}

/// What is told of a device that is at `path`, and is called `bus_id` there. A device without a
/// name is passed over.
pub fn describe(
    facts: &DeviceFacts,
    path: &[u8],
    bus_id: Option<&[u8]>,
    interfaces: Vec<UsbInterfaceInfo>,
) -> (r: Option<UsbDeviceWrapper>)
    requires
        interfaces@.len() <= 254,
    ensures
        r is Some <==> bus_id is Some,
        r matches Some(w) ==> w.wf() && described(w, *facts, path@, bus_id->0@, interfaces@),
{
    let bus_id = match bus_id {
        Some(bus_id) => bus_id,
        None => return None,
    };
    let num_interfaces: usize = interfaces.len();
    let mut padded = interfaces;
    if num_interfaces % 2 == 1 {
        padded.push(
            UsbInterfaceInfo {
                b_interface_number: 0,
                b_interface_class: 0,
                b_interface_subclass: 0,
                b_interface_protocol: 0,
            },
        );
    }
    let path_len: usize = path.len();
    let bus_id_len: usize = bus_id.len();
    let info = UsbDeviceInfoHeader {
        path_len: if path_len > 65535 {
            0
        } else if path_len > 256 {
            256
        } else {
            path_len as u16
        },
        path: fill_field::<256>(path),
        bus_id_len: if bus_id_len > 255 {
            0
        } else if bus_id_len > 32 {
            32
        } else {
            bus_id_len as u8
        },
        bus_id: fill_field::<32>(bus_id),
        busnum: facts.busnum,
        devnum: facts.devnum,
        speed: match facts.speed {
            Some(num) => Speed::from_u8(num),
            None => Speed::Unknown,
        },
        id_vendor: facts.id_vendor,
        id_product: facts.id_product,
        bcd_device: facts.bcd_device,
        b_device_class: facts.b_device_class,
        b_device_subclass: facts.b_device_subclass,
        b_device_protocol: facts.b_device_protocol,
        b_configuration_value: match facts.b_configuration_value {
            Some(value) => value,
            None => 0,
        },
        b_num_configurations: (facts.num_configurations % 256) as u8,
        b_num_interfaces: num_interfaces as u8,
        padded_num_interfaces: padded.len() as u8,
        _padding: fill_field::<5>(&[]),
    };
    assert(field_of(Seq::<u8>::empty(), 5) =~= info._padding@);
    Some(UsbDeviceWrapper { info, interfaces: padded })
}

/// The path and the bus id that are read from what is told of a device are those of the device,
/// where they are no longer than their fields; the path of a device is cut to its field.
pub proof fn law_names_are_read(
    w: UsbDeviceWrapper,
    facts: DeviceFacts,
    path: Seq<u8>,
    bus_id: Seq<u8>,
    interfaces: Seq<UsbInterfaceInfo>,
)
    requires
        described(w, facts, path, bus_id, interfaces),
    ensures
        w.info.path_len <= 256,
        path.len() <= 256 ==> w.info.path@.take(w.info.path_len as int) == path,
        256 < path.len() <= 65535 ==> w.info.path@.take(w.info.path_len as int) == path.take(256),
        w.info.bus_id_len <= 32,
        bus_id.len() <= 32 ==> w.info.bus_id@.take(w.info.bus_id_len as int) == bus_id,
        32 < bus_id.len() <= 255 ==> w.info.bus_id@.take(w.info.bus_id_len as int) == bus_id.take(
            32,
        ),
        w.interfaces@.take(w.info.b_num_interfaces as int) == interfaces,
{
    let p = w.info.path@.take(w.info.path_len as int);
    let b = w.info.bus_id@.take(w.info.bus_id_len as int);
    if path.len() <= 256 {
        assert(p =~= path);
    } else if path.len() <= 65535 {
        assert(p =~= path.take(256));
    }
    if bus_id.len() <= 32 {
        assert(b =~= bus_id);
    } else if bus_id.len() <= 255 {
        assert(b =~= bus_id.take(32));
    }
    assert(w.interfaces@.take(interfaces.len() as int) =~= interfaces);
}

/// The bytes of a device in a list of devices.
pub open spec fn listed<T: SendUsbDeviceInfo>(device: T) -> Seq<u8> {
    device.info_of().encoding() + codec::encode_all(device.padded_interfaces_of())
}

/// The bytes of a list of devices.
pub open spec fn listing<T: SendUsbDeviceInfo>(devices: Seq<T>) -> Seq<u8>
    decreases devices.len(),
{
    if devices.len() == 0 {
        Seq::empty()
    } else {
        listing(devices.drop_last()) + listed(devices.last())
    }
}

fn push_listing<T: SendUsbDeviceInfo>(v: &mut Vec<u8>, devices: &[T])
    ensures
        final(v)@ == old(v)@ + listing(devices@),
{
    let n: usize = devices.len();
    let mut i: usize = 0;
    assert(devices@.take(0) =~= Seq::<T>::empty());
    assert(v@ =~= old(v)@ + listing(devices@.take(0)));
    while i < n
        invariant
            n == devices@.len(),
            i <= n,
            v@ == old(v)@ + listing(devices@.take(i as int)),
        decreases n - i,
    {
        let device = &devices[i];
        push_bytes(v, device.get().as_bytes().as_slice());
        push_bytes(v, write_all(device.interfaces_with_padding()).as_slice());
        proof {
            let before = listing(devices@.take(i as int));
            let header = device.info_of().encoding();
            let rest = codec::encode_all(device.padded_interfaces_of());
            assert(devices@.take(i + 1).drop_last() =~= devices@.take(i as int));
            assert(old(v)@ + before + header + rest =~= old(v)@ + (before + (header + rest)));
        }
        i = i + 1;
    }
    assert(devices@.take(n as int) =~= devices@);
}

/// The answer to a peer that asks for the devices of this one.
pub open spec fn device_list_of<T: SendUsbDeviceInfo>(devices: Option<Seq<T>>) -> Seq<u8> {
    match devices {
        Some(devices) => Resp::ListDevices { _padding: [0, 0, 0, 0, 0, 0, 0] }.encoding() + listing(
            devices,
        ),
        None => Resp::Failure {
            stat: Status::Failed,
            ver: VersionOpt::Unknown([0, 0, 0, 0]),
        }.encoding(),
    }
}

/// Tells a peer, at the other end of `tx`, of the devices of this one.
pub struct SendDevices<W> {
    pub tx: W,
}

impl<W> SendDevices<W> {
    pub fn new(tx: W) -> (s: Self)
        ensures
            s.tx == tx,
    {
        SendDevices { tx }
    }

    /// What is to be sent: the devices, or that they could not be had.
    pub fn send_device_list<T: SendUsbDeviceInfo>(&self, devices: Option<&[T]>) -> (v: Vec<u8>)
        ensures
            v@ == device_list_of(
                match devices {
                    Some(devices) => Some(devices@),
                    None => None,
                },
            ),
    {
        match devices {
            Some(devices) => {
                let mut v = send_resp(Resp::ListDevices { _padding: [0, 0, 0, 0, 0, 0, 0] });
                push_listing(&mut v, devices);
                v
            },
            None => send_resp(
                Resp::Failure { stat: Status::Failed, ver: VersionOpt::Unknown([0, 0, 0, 0]) },
            ),
        }
    }
}

/// The answer, with a status in front, to a peer that asks for the devices of this one. The status is
/// padded to eight bytes.
pub open spec fn status_list_of<T: SendUsbDeviceInfo>(devices: Option<Seq<T>>) -> Seq<u8> {
    match devices {
        Some(devices) => session::status_answer_of(Status::Success) + listing(devices),
        None => session::status_answer_of(Status::Failed),
    }
}

/// Tells a peer, at the other end of `tx`, of the devices of this one, with a status in front.
pub struct ServerListDevices<W> {
    pub tx: W,
}

impl<W> ServerListDevices<W> {
    pub fn new(tx: W) -> (s: Self)
        ensures
            s.tx == tx,
    {
        ServerListDevices { tx }
    }

    /// What is to be sent: the devices, or that they could not be had.
    pub fn resp_list_devices<T: SendUsbDeviceInfo>(&self, devices: Option<&[T]>) -> (v: Vec<u8>)
        ensures
            v@ == status_list_of(
                match devices {
                    Some(devices) => Some(devices@),
                    None => None,
                },
            ),
    {
        match devices {
            Some(devices) => {
                let mut v = status_answer(Status::Success);
                push_listing(&mut v, devices);
                v
            },
            None => status_answer(Status::Failed),
        }
    }
}

/// The devices that a peer told of.
pub struct UsbDevices(pub Ring);

impl UsbDevices {
    pub fn iter(&self) -> (it: IterDst<'_, UsbDeviceInfo>)
        ensures
            it.rest() == self.0@,
    {
        self.0.iter_dst::<UsbDeviceInfo>()
    }

    pub fn iter_mut(&mut self) -> (it: IterMutDst<'_, UsbDeviceInfo>)
        ensures
            it.buf@ == old(self).0@,
            final(self).0@ == final(it.buf)@,
    {
        self.0.iter_mut_dst::<UsbDeviceInfo>()
    }
}

/// The devices that the bytes of a list tell of, up to the first that cannot be read: of each the
/// header and the interfaces.
pub open spec fn read_devices(b: Seq<u8>) -> Seq<(UsbDeviceInfoHeader, Seq<UsbInterfaceInfo>)>
    decreases b.len(),
{
    match data::dst_size::<UsbDeviceInfo>(b) {
        Err(_) => Seq::empty(),
        Ok(n) => if 312 <= n <= b.len() {
            seq![
                (
                    UsbDeviceInfoHeader::decoding(b.take(312))->0,
                    codec::decode_while::<UsbInterfaceInfo>(b.subrange(312, n as int)),
                ),
            ] + read_devices(b.skip(n as int))
        } else {
            Seq::empty()
        },
    }
}

proof fn lemma_padded_at(info: UsbDeviceInfoHeader)
    ensures
        info.encoding().len() == 312,
        info.encoding()[306] == info.padded_num_interfaces,
{
    info.lemma_round_trip();
    let e = info.encoding();
    assert(e[306] == UsbDeviceInfoHeader::decoding(e)->0.padded_num_interfaces);
}

/// The first device of a list is read from the front of the list's bytes.
proof fn lemma_first_listed(
    info: UsbDeviceInfoHeader,
    interfaces: Seq<UsbInterfaceInfo>,
    rest: Seq<u8>,
)
    requires
        info.padded_num_interfaces == interfaces.len(),
    ensures
        ({
            let b = info.encoding() + codec::encode_all(interfaces) + rest;
            let n = 312 + 4 * interfaces.len();
            &&& data::dst_size::<UsbDeviceInfo>(b) == Ok::<nat, data::ReadError>(n)
            &&& n <= b.len()
            &&& UsbDeviceInfoHeader::decoding(b.take(312)) == Some(info)
            &&& codec::decode_while::<UsbInterfaceInfo>(b.subrange(312, n as int)) == interfaces
            &&& b.skip(n as int) == rest
        }),
{
    let header = info.encoding();
    let body = codec::encode_all(interfaces);
    lemma_padded_at(info);
    info.lemma_round_trip();
    codec::lemma_encode_all_len(interfaces);
    codec::lemma_decode_all(interfaces, Seq::empty());
    lemma_split(header, body, rest, interfaces.len() as int);
    assert(interfaces.len() * <UsbInterfaceInfo as Wire>::wire_len() == 4 * interfaces.len());
    assert(interfaces.len() * UsbDeviceInfo::elem_len() == 4 * interfaces.len());
    assert(body + Seq::<u8>::empty() =~= body);
}

proof fn lemma_split(header: Seq<u8>, body: Seq<u8>, rest: Seq<u8>, n: int)
    requires
        header.len() == 312,
        body.len() == 4 * n,
    ensures
        ({
            let b = header + body + rest;
            &&& b.len() == 312 + 4 * n + rest.len()
            &&& b.take(312) == header
            &&& b[306] == header[306]
            &&& b.subrange(312, 312 + 4 * n) == body
            &&& b.skip(312 + 4 * n) == rest
        }),
{
    let b = header + body + rest;
    assert(b.take(312) =~= header);
    assert(b.subrange(312, 312 + 4 * n) =~= body);
    assert(b.skip(312 + 4 * n) =~= rest);
}

proof fn lemma_listing_first<T: SendUsbDeviceInfo>(devices: Seq<T>)
    requires
        devices.len() > 0,
    ensures
        listing(devices) == listed(devices[0]) + listing(devices.drop_first()),
    decreases devices.len(),
{
    if devices.len() == 1 {
        assert(devices.drop_last() =~= Seq::<T>::empty());
        assert(devices.drop_first() =~= Seq::<T>::empty());
        lemma_empty_sides(listed(devices[0]));
    } else {
        lemma_listing_first(devices.drop_last());
        assert(devices.drop_last().drop_first() =~= devices.drop_first().drop_last());
        lemma_assoc(
            listed(devices[0]),
            listing(devices.drop_first().drop_last()),
            listed(devices.last()),
        );
    }
}

proof fn lemma_empty_sides(a: Seq<u8>)
    ensures
        Seq::<u8>::empty() + a == a + Seq::<u8>::empty(),
        Seq::<u8>::empty() + a == a,
{
    assert(Seq::<u8>::empty() + a =~= a);
    assert(a + Seq::<u8>::empty() =~= a);
}

proof fn lemma_assoc(a: Seq<u8>, b: Seq<u8>, c: Seq<u8>)
    ensures
        a + b + c == a + (b + c),
{
    assert(a + b + c =~= a + (b + c));
}

/// The devices that a peer tells of are those that the other peer reads.
#[verifier::rlimit(60)]
#[verifier::spinoff_prover]
pub proof fn law_devices_are_read(devices: Seq<UsbDeviceWrapper>)
    requires
        forall|i: int| 0 <= i < devices.len() ==> (#[trigger] devices[i]).wf(),
    ensures
        read_devices(listing(devices)) == Seq::new(
            devices.len(),
            |i: int| (devices[i].info, devices[i].interfaces@),
        ),
    decreases devices.len(),
{
    let told = Seq::new(
        devices.len(),
        |i: int| (devices[i].info, devices[i].interfaces@),
    );
    if devices.len() == 0 {
        assert(read_devices(listing(devices)) =~= told);
    } else {
        let d = devices[0];
        let rest = listing(devices.drop_first());
        lemma_listing_first(devices);
        lemma_first_listed(d.info, d.interfaces@, rest);
        law_devices_are_read(devices.drop_first());
        assert(seq![(d.info, d.interfaces@)] + Seq::new(
            devices.drop_first().len(),
            |i: int| (devices.drop_first()[i].info, devices.drop_first()[i].interfaces@),
        ) =~= told);
    }
}

/// The answer with the devices begins with what says so, and the devices follow; the answer without
/// them says that the request failed.
pub proof fn law_device_list_is_read(devices: Seq<UsbDeviceWrapper>)
    ensures
        Resp::decoding(device_list_of(Some(devices)).take(8)) == Some(
            Resp::ListDevices { _padding: [0, 0, 0, 0, 0, 0, 0] },
        ),
        device_list_of(Some(devices)).skip(8) == listing(devices),
        Resp::decoding(device_list_of(None::<Seq<UsbDeviceWrapper>>)) == Some(
            Resp::Failure { stat: Status::Failed, ver: VersionOpt::Unknown([0, 0, 0, 0]) },
        ),
{
    let granted = Resp::ListDevices { _padding: [0, 0, 0, 0, 0, 0, 0] };
    granted.lemma_round_trip();
    Resp::Failure {
        stat: Status::Failed,
        ver: VersionOpt::Unknown([0, 0, 0, 0]),
    }.lemma_round_trip();
    lemma_cut8(granted.encoding(), listing(devices));
}

/// The answer with a status in front begins with that status, and the devices follow where there are
/// any.
pub proof fn law_status_list_is_read(devices: Seq<UsbDeviceWrapper>)
    ensures
        data::peeked::<Status>(status_list_of(Some(devices))) == Ok::<Status, data::ReadError>(
            Status::Success,
        ),
        status_list_of(Some(devices)).skip(8) == listing(devices),
        data::peeked::<Status>(status_list_of(None::<Seq<UsbDeviceWrapper>>)) == Ok::<
            Status,
            data::ReadError,
        >(Status::Failed),
{
    let ours = proto::own_version();
    session::law_answer_is_read(Status::Success, ours, listing(devices));
    session::law_answer_is_read(Status::Failed, ours, Seq::empty());
    let failed = session::status_answer_of(Status::Failed);
    assert(failed + Seq::<u8>::empty() =~= failed);
}

proof fn lemma_listing_len(devices: Seq<UsbDeviceWrapper>)
    requires
        forall|i: int|
            0 <= i < devices.len() ==> (#[trigger] devices[i]).interfaces@.len() % 2 == 0,
    ensures
        listing(devices).len() % 8 == 0,
    decreases devices.len(),
{
    if devices.len() > 0 {
        let d = devices.last();
        assert(d == devices[devices.len() - 1]);
        assert forall|i: int| 0 <= i < devices.drop_last().len() implies (
        #[trigger] devices.drop_last()[i]).interfaces@.len() % 2 == 0 by {
            assert(devices.drop_last()[i] == devices[i]);
        }
        lemma_listing_len(devices.drop_last());
        d.info.lemma_round_trip();
        codec::lemma_encode_all_len(d.interfaces@);
        assert(d.interfaces@.len() * <UsbInterfaceInfo as Wire>::wire_len() == 4
            * d.interfaces@.len());
    }
}

/// Every answer with the devices, or without them, takes a multiple of eight bytes, where the
/// interfaces of each device are padded to an even number.
pub proof fn law_lists_are_aligned(devices: Option<Seq<UsbDeviceWrapper>>)
    requires
        devices matches Some(ds) ==> forall|i: int|
            0 <= i < ds.len() ==> (#[trigger] ds[i]).interfaces@.len() % 2 == 0,
    ensures
        device_list_of(devices).len() % 8 == 0,
        status_list_of(devices).len() % 8 == 0,
{
    Status::Success.lemma_round_trip();
    Status::Failed.lemma_round_trip();
    Resp::ListDevices { _padding: [0, 0, 0, 0, 0, 0, 0] }.lemma_round_trip();
    Resp::Failure {
        stat: Status::Failed,
        ver: VersionOpt::Unknown([0, 0, 0, 0]),
    }.lemma_round_trip();
    match devices {
        Some(ds) => lemma_listing_len(ds),
        None => {},
    }
}

proof fn lemma_cut8(a: Seq<u8>, b: Seq<u8>)
    requires
        a.len() == 8,
    ensures
        (a + b).take(8) == a,
        (a + b).skip(8) == b,
{
    assert((a + b).take(8) =~= a);
    assert((a + b).skip(8) =~= b);
}

} // verus!
