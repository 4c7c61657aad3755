//! What the borrowing side sends to the lender, and what it gives back to the virtual host
//! controller.
use crate::buf;
use crate::codec;
use crate::codec::{read_while, write_all, Wire};
use crate::operator::lend;
use crate::operator::lend_recv;
use crate::proto::data::{Data, Dst};
use crate::proto::frame;
use crate::proto::frame::{compress_frame_len, padding, put_frame};
use crate::proto::msg::{Command, Header, Status, UrbFrame, UrbHeader};
use crate::usb;
use crate::usb::{
    to_low16, Dir, IocIsoPacketData, IocIsoPacketGiveback, IocUrb, PortStat, UrbHandle, UrbType,
    Work,
};
use crate::utils;
use crate::utils::simple_map::{key_list, SimpleMap};
use crate::utils::Counter;
use bytes::BytesMut;
use vstd::prelude::*;

verus! {

broadcast use vstd::std_specs::hash::group_hash_axioms;

/// Which sequence number a request block went out with, both ways.
pub struct HandleSeqnumLinker {
    pub seqnums: SimpleMap<u64, u32>,
    pub handles: SimpleMap<u32, u64>,
}

impl HandleSeqnumLinker {
    /// The two maps are each other's inverse.
    pub open spec fn paired(&self) -> bool {
        &&& forall|h: u64| #[trigger]
            self.seqnums@.contains_key(h) ==> self.handles@.contains_key(self.seqnums@[h])
                && self.handles@[self.seqnums@[h]] == h
        &&& forall|n: u32| #[trigger]
            self.handles@.contains_key(n) ==> self.seqnums@.contains_key(self.handles@[n])
                && self.seqnums@[self.handles@[n]] == n
    }

    /// A pair was added.
    pub open spec fn linked(self, after: Self, seqnum: u32, handle: UrbHandle) -> bool {
        &&& after.seqnums@ == self.seqnums@.insert(handle.0, seqnum)
        &&& after.handles@ == self.handles@.insert(seqnum, handle.0)
    }

    /// The pair of a sequence number was taken out.
    pub open spec fn unlinked(self, after: Self, seqnum: u32) -> bool {
        &&& after.handles@ == self.handles@.remove(seqnum)
        &&& after.seqnums@ == self.seqnums@.remove(self.handles@[seqnum])
    }

    pub fn new() -> (l: Self)
        ensures
            l.seqnums@ == Map::<u64, u32>::empty(),
            l.handles@ == Map::<u32, u64>::empty(),
            l.paired(),
    {
        HandleSeqnumLinker { seqnums: SimpleMap::new(), handles: SimpleMap::new() }
    }

    pub fn link(&mut self, seqnum: u32, handle: UrbHandle)
        ensures
            old(self).linked(*final(self), seqnum, handle),
    {
        self.handles.insert(seqnum, handle.0);
        self.seqnums.insert(handle.0, seqnum);
    }

    /// Takes out the pair of a sequence number.
    pub fn unlink(&mut self, seqnum: u32) -> (handle: UrbHandle)
        requires
            old(self).handles@.contains_key(seqnum),
        ensures
            handle.0 == old(self).handles@[seqnum],
            old(self).unlinked(*final(self), seqnum),
    {
        match self.handles.remove(&seqnum) {
            Some(handle) => {
                self.seqnums.remove(&handle);
                assert(!old(self).seqnums@.contains_key(handle) ==> old(self).seqnums@.remove(
                    handle,
                ) =~= old(self).seqnums@);
                UrbHandle(handle)
            },
            None => vstd::pervasive::unreached(),
        }
    }

    /// Tells whether a sequence number has a request block.
    pub fn knows(&self, seqnum: u32) -> (b: bool)
        ensures
            b <==> self.handles@.contains_key(seqnum),
    {
        self.handles.contains_key(&seqnum)
    }

    pub fn seqnum_of(&self, handle: UrbHandle) -> (r: Option<u32>)
        ensures
            r == (if self.seqnums@.contains_key(handle.0) {
                Some(self.seqnums@[handle.0])
            } else {
                None
            }),
    {
        match self.seqnums.get(&handle.0) {
            Some(seqnum) => Some(*seqnum),
            None => None,
        }
    }
}

/// A new pair keeps the maps each other's inverse, and taking it out leaves what was there.
pub proof fn law_link_unlink(
    before: HandleSeqnumLinker,
    linked: HandleSeqnumLinker,
    after: HandleSeqnumLinker,
    seqnum: u32,
    handle: UrbHandle,
)
    requires
        before.paired(),
        !before.seqnums@.contains_key(handle.0),
        !before.handles@.contains_key(seqnum),
        before.linked(linked, seqnum, handle),
        linked.unlinked(after, seqnum),
    ensures
        linked.paired(),
        after.seqnums@ == before.seqnums@,
        after.handles@ == before.handles@,
{
    assert(after.seqnums@ =~= before.seqnums@);
    assert(after.handles@ =~= before.handles@);
}

/// Taking out any pair keeps the maps each other's inverse.
pub proof fn law_unlink_keeps_pairs(
    before: HandleSeqnumLinker,
    after: HandleSeqnumLinker,
    seqnum: u32,
)
    requires
        before.paired(),
        before.handles@.contains_key(seqnum),
        before.unlinked(after, seqnum),
    ensures
        after.paired(),
{
}

/// A random handle for a request that no request block stands behind.
///
/// Trusted: `rand::random`, of whose result nothing is said.
#[verifier::external_body]
fn random_handle() -> (handle: UrbHandle) {
    UrbHandle(rand::random())
}

/// So many handles, counted from zero, cannot all be among fewer.
proof fn lemma_counted_handles(taken: Set<u64>, n: nat)
    requires
        taken.finite(),
        n <= u64::MAX,
        forall|h: u64| h < n ==> taken.contains(h),
    ensures
        n <= taken.len(),
{
    let counted = Seq::new(n, |i: int| i as u64);
    assert(counted.no_duplicates());
    counted.unique_seq_to_set();
    assert(counted.to_set().subset_of(taken)) by {
        assert forall|h: u64| counted.to_set().contains(h) implies taken.contains(h) by {
            let i = choose|i: int| 0 <= i < counted.len() && counted[i] == h;
            assert(counted[i] < n);
        }
    }
    vstd::set_lib::lemma_len_subset(counted.to_set(), taken);
}

/// A handle that stands for no request: one that is drawn at random, or the least that is free where
/// the one that was drawn is not.
fn free_handle(linker: &HandleSeqnumLinker) -> (handle: UrbHandle)
    ensures
        !linker.seqnums@.contains_key(handle.0),
{
    let drawn = random_handle();
    if !linker.seqnums.contains_key(&drawn.0) {
        return drawn;
    }
    let taken = key_list(&linker.seqnums);
    let ghost keys = linker.seqnums@.dom();
    proof {
        taken@.unique_seq_to_set();
        vstd::seq_lib::seq_to_set_is_finite(taken@);
    }
    let mut h: u64 = 0;
    while linker.seqnums.contains_key(&h)
        invariant
            keys == linker.seqnums@.dom(),
            keys.finite(),
            keys.len() == taken@.len(),
            taken@.len() <= usize::MAX,
            forall|g: u64| g < h ==> keys.contains(g),
            h <= keys.len(),
        decreases keys.len() - h,
    {
        proof {
            if h < u64::MAX {
                lemma_counted_handles(keys, (h + 1) as nat);
            } else {
                lemma_counted_handles(keys.remove(h), h as nat);
            }
        }
        h = h + 1;
    }
    UrbHandle(h)
}

/// What a change of the port's state calls for.
#[derive(Debug, Clone, Copy, PartialEq, Eq, Structural)]
pub enum PortAction {
    /// The connection changed: the device has no valid address.
    InvalidateAddress,
    /// The reset is done: the device has the default address.
    DefaultAddress,
    PowerOff,
    /// The port resets: the lender is told.
    SendReset,
    Resume,
    Nothing,
}

pub open spec fn port_action_of(prev: PortStat, next: PortStat) -> PortAction {
    if next.connection_changed {
        PortAction::InvalidateAddress
    } else if next.reset_changed && !next.reset && next.enable {
        PortAction::DefaultAddress
    } else if prev.power && !next.power {
        PortAction::PowerOff
    } else if !prev.reset && next.reset && next.connection {
        PortAction::SendReset
    } else if !prev.resuming && next.resuming && next.connection {
        PortAction::Resume
    } else {
        PortAction::Nothing
    }
}

/// What a change of the port's state calls for; the first of these that applies.
pub fn port_action(prev: &PortStat, next: &PortStat) -> (a: PortAction)
    ensures
        a == port_action_of(*prev, *next),
{
    let reset_successful = next.reset_changed && !next.reset && next.enable;
    let power_off = prev.power && !next.power;
    let send_port_reset = !prev.reset && next.reset && next.connection;
    let resuming = !prev.resuming && next.resuming && next.connection;
    if next.connection_changed {
        PortAction::InvalidateAddress
    } else if reset_successful {
        PortAction::DefaultAddress
    } else if power_off {
        PortAction::PowerOff
    } else if send_port_reset {
        PortAction::SendReset
    } else if resuming {
        PortAction::Resume
    } else {
        PortAction::Nothing
    }
}

/// A request block that is given back without data.
#[derive(Debug, Clone, Copy, PartialEq, Eq, Structural)]
pub struct EmptyUrb {
    pub handle: UrbHandle,
    pub ioctl_urb: IocUrb,
}

impl EmptyUrb {
    pub fn kind(&self) -> (k: UrbType)
        ensures
            k == self.ioctl_urb.typ,
    {
        self.ioctl_urb.typ
    }

    pub fn handle(&self) -> (h: UrbHandle)
        ensures
            h == self.handle,
    {
        self.handle
    }

    /// The block is given back as a success.
    pub fn status(&self) -> (s: usb::Status)
        ensures
            s == usb::Status::Success,
    {
        usb::Status::Success
    }

    pub fn dir(&self) -> (d: Dir)
        ensures
            d == self.ioctl_urb.endpoint.dir(),
    {
        self.ioctl_urb.endpoint.direction()
    }

    pub fn bytes_transferred(&self) -> (n: u16)
        ensures
            n == usb::low16(self.ioctl_urb.buffer_length),
    {
        to_low16(self.ioctl_urb.buffer_length)
    }
}

/// The header of a request to the lender.
pub open spec fn request_header(urb: IocUrb) -> UrbHeader {
    UrbHeader {
        actual_transfer_len: usb::low16(urb.buffer_length),
        iso_packet_count: usb::low16(urb.packet_count),
        endpoint: urb.endpoint,
        kind: urb.typ,
        interval: usb::low16(urb.interval),
        status: usb::Status::Pending,
        flags: urb.flags & !4u16,
        num_errors: 0,
        ctrl_packet: urb.setup_packet,
    }
}

/// The frame of a request to the lender.
pub open spec fn request_frame(
    seqnum: u32,
    urb: IocUrb,
    transfer: Seq<u8>,
    packets: Seq<IocIsoPacketData>,
) -> Seq<u8> {
    frame::urb_frame(
        Command::CmdSubmit,
        Status::Success,
        seqnum,
        request_header(urb),
        lend::padded_transfer(transfer) + codec::encode_all(packets),
    )
}

/// What has to be fetched from the virtual host controller for a request block.
#[derive(Debug, Clone, Copy, PartialEq, Eq, Structural)]
pub struct FetchPlan {
    pub needs_fetch: bool,
    pub transfer_len: usize,
    pub packet_count: usize,
}

/// A request block towards the device has a transfer buffer that a frame can carry.
pub open spec fn carriable(urb: IocUrb) -> bool {
    urb.endpoint.dir() == Dir::Out ==> 0 <= urb.buffer_length <= 65535
}

/// Tells whether a frame can carry the transfer buffer of a request block.
pub fn is_carriable(urb: &IocUrb) -> (b: bool)
    ensures
        b == carriable(*urb),
{
    match urb.endpoint.direction() {
        Dir::Out => 0 <= urb.buffer_length && urb.buffer_length <= 65535,
        Dir::In => true,
    }
}

pub open spec fn fetch_plan_of(urb: IocUrb) -> FetchPlan {
    let out = urb.endpoint.dir() == Dir::Out;
    FetchPlan {
        needs_fetch: (urb.buffer_length > 0 && out) || urb.packet_count != 0,
        transfer_len: if out {
            urb.buffer_length as usize
        } else {
            0
        },
        packet_count: usb::low16(urb.packet_count) as usize,
    }
}

/// Data is fetched where it goes towards the device, packets wherever there are any.
pub fn fetch_plan(urb: &IocUrb) -> (p: FetchPlan)
    requires
        carriable(*urb),
    ensures
        p == fetch_plan_of(*urb),
{
    let out = matches!(urb.endpoint.direction(), Dir::Out);
    FetchPlan {
        needs_fetch: (urb.buffer_length > 0 && out) || urb.packet_count != 0,
        transfer_len: if out {
            urb.buffer_length as usize
        } else {
            0
        },
        packet_count: to_low16(urb.packet_count) as usize,
    }
}

/// What was fetched for a request block.
pub struct Fetched {
    pub transfer: Vec<u8>,
    pub packets: Vec<IocIsoPacketData>,
}

impl Fetched {
    /// As much was fetched as there is.
    pub open spec fn complete(&self, urb: IocUrb) -> bool {
        &&& self.transfer@.len() == fetch_plan_of(urb).transfer_len
        &&& self.packets@.len() == fetch_plan_of(urb).packet_count
    }

    /// Tells whether as much was fetched as there is.
    pub fn is_complete(&self, urb: &IocUrb) -> (b: bool)
        requires
            carriable(*urb),
        ensures
            b == self.complete(*urb),
    {
        let plan = fetch_plan(urb);
        self.transfer.len() == plan.transfer_len && self.packets.len() == plan.packet_count
    }
}

/// The number of bytes of the largest request: two headers, a transfer buffer and packets.
pub open spec fn largest_frame() -> nat {
    32 + 65536 + 8 * 65535
}

/// What the work of a virtual host controller came to.
pub enum WorkResult<E> {
    /// The address of the device was set; the block is to be given back.
    SetAddress(EmptyUrb),
    ProcessUrb(Result<(), E>),
    /// Nothing to report on, but the buffer may hold data.
    MustveBeenTheWind,
}

/// Tells whether a request block sets the address of a device that has none.
pub open spec fn sets_address(urb: IocUrb) -> bool {
    &&& urb.typ == UrbType::Ctrl
    &&& urb.address == 0
    &&& urb.setup_packet.bm_request_type == 0x00
    &&& urb.setup_packet.b_request == 5
}

/// Tells whether a request block sets the address of a device that has none.
pub fn is_set_address(urb: &IocUrb) -> (b: bool)
    ensures
        b == sets_address(*urb),
{
    matches!(urb.typ, UrbType::Ctrl) && urb.address == 0 && urb.setup_packet.bm_request_type == 0x00
        && urb.setup_packet.b_request == 5
}

/// A packet takes eight bytes.
pub proof fn lemma_packets_len(packets: Seq<IocIsoPacketData>)
    ensures
        codec::encode_all(packets).len() == 8 * packets.len(),
{
    codec::lemma_encode_all_len(packets);
    let w = <IocIsoPacketData as Wire>::wire_len();
    assert(packets.len() * w == 8 * packets.len()) by (nonlinear_arith)
        requires
            w == 8,
    ;
}

/// The requests that wait to be written to the lender.
pub struct BorrowSendHandler {
    pub buf: BytesMut,
    pub cur_seq: Counter,
    pub prev: PortStat,
    pub addr: u8,
}

impl BorrowSendHandler {
    /// The bytes that wait.
    pub open spec fn waiting(&self) -> Seq<u8> {
        buf::bytes_of(self.buf)
    }

    /// A port that nothing is known of.
    pub open spec fn fresh_port() -> PortStat {
        PortStat {
            index: 0,
            connection: false,
            enable: false,
            reset: false,
            power: false,
            connection_changed: false,
            reset_changed: false,
            resuming: false,
        }
    }

    pub fn new() -> (h: Self)
        ensures
            h.waiting() == Seq::<u8>::empty(),
            h.cur_seq.inner == 0,
            h.prev == Self::fresh_port(),
            h.addr == 0,
    {
        BorrowSendHandler {
            buf: buf::with_capacity(262144),
            cur_seq: Counter::new(0),
            prev: PortStat {
                index: 0,
                connection: false,
                enable: false,
                reset: false,
                power: false,
                connection_changed: false,
                reset_changed: false,
                resuming: false,
            },
            addr: 0,
        }
    }

    /// There are sequence numbers left, and room for the largest frame.
    pub open spec fn ready(&self) -> bool {
        &&& self.cur_seq.inner < u32::MAX
        &&& self.waiting().len() + largest_frame() <= buf::max_len()
    }

    /// Tells whether there is a sequence number left, and room in the buffer for any request.
    pub fn is_ready(&self) -> (b: bool)
        ensures
            b == self.ready(),
    {
        let waiting: u128 = buf::len(&self.buf) as u128;
        self.cur_seq.inner < u32::MAX && waiting + 589848 <= isize::MAX as u128 / 4
    }

    /// Neither the handle nor the next sequence number stands for a request.
    pub open spec fn unused(&self, linker: HandleSeqnumLinker, handle: UrbHandle) -> bool {
        &&& !linker.seqnums@.contains_key(handle.0)
        &&& !linker.handles@.contains_key(self.cur_seq.inner)
    }

    /// What a new state of the port does to the handler, where `handle` is drawn for a reset.
    pub open spec fn port_stat_done(
        self,
        after: Self,
        linker: HandleSeqnumLinker,
        linker_after: HandleSeqnumLinker,
        next: PortStat,
        handle: UrbHandle,
    ) -> bool {
        let action = port_action_of(self.prev, next);
        &&& after.prev == next
        &&& after.addr == (match action {
            PortAction::InvalidateAddress => 0xff,
            PortAction::DefaultAddress => 0,
            _ => self.addr,
        })
        &&& if action == PortAction::SendReset {
            &&& after.cur_seq.inner == self.cur_seq.inner + 1
            &&& after.waiting() == self.waiting() + frame::bare_frame(
                Command::CmdPort,
                Status::Success,
                self.cur_seq.inner,
            )
            &&& linker.linked(linker_after, self.cur_seq.inner, handle)
        } else {
            &&& after.cur_seq == self.cur_seq
            &&& after.waiting() == self.waiting()
            &&& linker_after == linker
        }
    }

    /// Takes note of a new state of the port. Where the port resets, the lender is told, and
    /// `handle` stands for the request.
    pub fn port_stat_with(
        &mut self,
        linker: &mut HandleSeqnumLinker,
        next: PortStat,
        handle: UrbHandle,
    )
        requires
            old(self).ready(),
            port_action_of(old(self).prev, next) == PortAction::SendReset ==> old(self).unused(
                *old(linker),
                handle,
            ),
        ensures
            old(self).port_stat_done(*final(self), *old(linker), *final(linker), next, handle),
    {
        match port_action(&self.prev, &next) {
            PortAction::InvalidateAddress => {
                self.addr = 0xff;
            },
            PortAction::DefaultAddress => {
                self.addr = 0;
            },
            PortAction::SendReset => {
                let seqnum: u32 = self.cur_seq.increment();
                linker.link(seqnum, handle);
                self.put_bare(Command::CmdPort, seqnum);
            },
            _ => {},
        }
        self.prev = next;
    }

    /// What a new state of the port does to the handler, where the handle for a reset is drawn at
    /// random: `done` tells whether it could be linked.
    ///
    /// Without a reset nothing is drawn. A reset is not done just where the next sequence number
    /// stands for a request already: however many requests are under way, a handle that stands for
    /// none of them is found.
    pub open spec fn port_stat_tried(
        self,
        after: Self,
        linker: HandleSeqnumLinker,
        linker_after: HandleSeqnumLinker,
        next: PortStat,
        done: bool,
    ) -> bool {
        let resets = port_action_of(self.prev, next) == PortAction::SendReset;
        let number_taken = linker.handles@.contains_key(self.cur_seq.inner);
        &&& !resets ==> done
        &&& resets && number_taken ==> !done
        &&& resets && !done ==> number_taken
        &&& !done ==> after == self && linker_after == linker
        &&& done ==> exists|handle: UrbHandle| #[trigger]
            self.port_stat_done(after, linker, linker_after, next, handle) && (resets
                ==> self.unused(linker, handle))
    }

    /// Takes note of a new state of the port, with a random handle for a reset.
    ///
    /// `false`, with nothing done, where the next sequence number stands for another request
    /// already.
    pub fn port_stat(&mut self, linker: &mut HandleSeqnumLinker, next: PortStat) -> (done: bool)
        requires
            old(self).ready(),
        ensures
            old(self).port_stat_tried(*final(self), *old(linker), *final(linker), next, done),
    {
        match port_action(&self.prev, &next) {
            PortAction::SendReset => {
                if linker.handles.contains_key(&self.cur_seq.inner) {
                    return false;
                }
                let handle = free_handle(linker);
                self.port_stat_with(linker, next, handle);
                assert(old(self).port_stat_done(*self, *old(linker), *linker, next, handle));
                true
            },
            action => {
                match action {
                    PortAction::InvalidateAddress => {
                        self.addr = 0xff;
                    },
                    PortAction::DefaultAddress => {
                        self.addr = 0;
                    },
                    _ => {},
                }
                self.prev = next;
                assert(old(self).port_stat_done(
                    *self,
                    *old(linker),
                    *linker,
                    next,
                    UrbHandle(0),
                ));
                true
            },
        }
    }

    fn put_bare(&mut self, command: Command, seqnum: u32)
        requires
            old(self).waiting().len() + 8 <= buf::max_len(),
        ensures
            final(self).waiting() == old(self).waiting() + frame::bare_frame(
                command,
                Status::Success,
                seqnum,
            ),
            final(self).cur_seq == old(self).cur_seq,
            final(self).prev == old(self).prev,
            final(self).addr == old(self).addr,
    {
        let header = Header {
            total_frame_len: compress_frame_len(8),
            command,
            status: Status::Success,
            seqnum,
        };
        let head = header.as_bytes();
        proof {
            header.lemma_round_trip();
        }
        buf::put_slice(&mut self.buf, head.as_slice());
    }

    /// What a new address does to the handler.
    pub open spec fn set_address_done(self, after: Self, urb: IocUrb) -> bool {
        &&& after.addr == urb.setup_packet.w_value % 256
        &&& after.waiting() == self.waiting()
        &&& after.cur_seq == self.cur_seq
        &&& after.prev == self.prev
    }

    /// Takes note of the address that the device gets; the block is given back at once.
    pub fn set_address(&mut self, urb: IocUrb, handle: UrbHandle) -> (e: EmptyUrb)
        ensures
            e == (EmptyUrb { handle, ioctl_urb: urb }),
            old(self).set_address_done(*final(self), urb),
    {
        self.addr = (urb.setup_packet.w_value % 256) as u8;
        EmptyUrb { handle, ioctl_urb: urb }
    }

    /// What a request block that is not wanted any more does to the handler.
    pub open spec fn cancel_urb_done(
        self,
        after: Self,
        linker: HandleSeqnumLinker,
        handle: UrbHandle,
    ) -> bool {
        &&& after.waiting() == (if linker.seqnums@.contains_key(handle.0) {
            self.waiting() + frame::bare_frame(
                Command::CmdUnlink,
                Status::Success,
                linker.seqnums@[handle.0],
            )
        } else {
            self.waiting()
        })
        &&& after.cur_seq == self.cur_seq
        &&& after.prev == self.prev
        &&& after.addr == self.addr
    }

    /// Tells the lender that a request is not wanted any more, unless it was given back already.
    pub fn cancel_urb(&mut self, linker: &HandleSeqnumLinker, handle: UrbHandle)
        requires
            old(self).waiting().len() + 8 <= buf::max_len(),
        ensures
            old(self).cancel_urb_done(*final(self), *linker, handle),
    {
        match linker.seqnum_of(handle) {
            Some(seqnum) => self.put_bare(Command::CmdUnlink, seqnum),
            None => {},
        }
    }

    /// What a request block does to the handler, where `fetched` is what was fetched for it.
    pub open spec fn process_urb_done<E>(
        self,
        after: Self,
        linker: HandleSeqnumLinker,
        linker_after: HandleSeqnumLinker,
        urb: IocUrb,
        handle: UrbHandle,
        fetched: Result<Fetched, E>,
        r: Result<(), E>,
    ) -> bool {
        let seqnum = self.cur_seq.inner;
        &&& linker.linked(linker_after, seqnum, handle)
        &&& after.cur_seq.inner == seqnum + 1
        &&& after.prev == self.prev
        &&& after.addr == self.addr
        &&& fetch_plan_of(urb).needs_fetch ==> match fetched {
            Ok(f) => r == Ok::<(), E>(()) && after.waiting() == self.waiting() + request_frame(
                seqnum,
                urb,
                f.transfer@,
                f.packets@,
            ),
            Err(e) => r == Err::<(), E>(e) && after.waiting() == Seq::<u8>::empty(),
        }
        &&& !fetch_plan_of(urb).needs_fetch ==> r == Ok::<(), E>(()) && after.waiting()
            == self.waiting() + request_frame(seqnum, urb, Seq::empty(), Seq::empty())
    }

    /// Puts a request in the buffer. `fetched` is what the virtual host controller gave for it,
    /// or why it gave nothing; it is looked at only where the request needs it. An error ends the
    /// connection, and what waited in the buffer is let go of.
    pub fn process_urb<E>(
        &mut self,
        linker: &mut HandleSeqnumLinker,
        urb: IocUrb,
        handle: UrbHandle,
        fetched: Result<Fetched, E>,
    ) -> (r: Result<(), E>)
        requires
            old(self).ready(),
            carriable(urb),
            fetch_plan_of(urb).needs_fetch && fetched is Ok ==> fetched->Ok_0.complete(urb),
        ensures
            old(self).process_urb_done(
                *final(self),
                *old(linker),
                *final(linker),
                urb,
                handle,
                fetched,
                r,
            ),
    {
        let seqnum: u32 = self.cur_seq.increment();
        linker.link(seqnum, handle);
        let plan = fetch_plan(&urb);
        if plan.needs_fetch {
            match fetched {
                Ok(f) => {
                    self.put_request(seqnum, &urb, f.transfer.as_slice(), f.packets.as_slice());
                    Ok(())
                },
                Err(e) => {
                    let _ = buf::split(&mut self.buf);
                    Err(e)
                },
            }
        } else {
            let transfer: &[u8] = &[];
            let packets: &[IocIsoPacketData] = &[];
            assert(transfer@ =~= Seq::<u8>::empty());
            assert(packets@ =~= Seq::<IocIsoPacketData>::empty());
            self.put_request(seqnum, &urb, transfer, packets);
            Ok(())
        }
    }

    fn put_request(
        &mut self,
        seqnum: u32,
        urb: &IocUrb,
        transfer: &[u8],
        packets: &[IocIsoPacketData],
    )
        requires
            old(self).waiting().len() + largest_frame() <= buf::max_len(),
            transfer@.len() <= 65535,
            packets@.len() <= 65535,
        ensures
            final(self).waiting() == old(self).waiting() + request_frame(
                seqnum,
                *urb,
                transfer@,
                packets@,
            ),
            final(self).cur_seq == old(self).cur_seq,
            final(self).prev == old(self).prev,
            final(self).addr == old(self).addr,
    {
        let urb_header = UrbHeader {
            actual_transfer_len: to_low16(urb.buffer_length),
            iso_packet_count: to_low16(urb.packet_count),
            endpoint: urb.endpoint,
            kind: urb.typ,
            interval: to_low16(urb.interval),
            status: usb::Status::Pending,
            // the buffer is not mapped for the device on the other side
            flags: urb.flags & !4u16,
            num_errors: 0,
            ctrl_packet: urb.setup_packet,
        };
        let pad = padding(transfer.len() as u16);
        let packet_bytes = write_all(packets);
        proof {
            utils::law_padded(transfer@.len());
            lemma_packets_len(packets@);
        }
        let total: usize = 32 + transfer.len() + pad.len() + packet_bytes.len();
        let header = Header {
            total_frame_len: compress_frame_len(total),
            command: Command::CmdSubmit,
            status: Status::Success,
            seqnum,
        };
        put_frame(
            &mut self.buf,
            &header,
            &urb_header,
            transfer,
            pad.as_slice(),
            packet_bytes.as_slice(),
        );
    }

    pub fn is_buf_empty(&self) -> (b: bool)
        ensures
            b <==> self.waiting().len() == 0,
    {
        buf::len(&self.buf) == 0
    }

    /// Takes all bytes that wait.
    pub fn flush_buf(&mut self) -> (b: BytesMut)
        ensures
            buf::bytes_of(b) == old(self).waiting(),
            final(self).waiting() == Seq::<u8>::empty(),
            final(self).cur_seq == old(self).cur_seq,
            final(self).prev == old(self).prev,
            final(self).addr == old(self).addr,
    {
        buf::split(&mut self.buf)
    }
}

/// What the work of a virtual host controller comes to, where `fetched` is what was fetched for it.
pub open spec fn work_result<E>(work: Work, fetched: Result<Fetched, E>) -> WorkResult<E> {
    match work {
        Work::ProcessUrb(urb, handle) => if sets_address(urb) {
            WorkResult::SetAddress(EmptyUrb { handle, ioctl_urb: urb })
        } else if fetch_plan_of(urb).needs_fetch && fetched is Err {
            WorkResult::ProcessUrb(Err(fetched->Err_0))
        } else {
            WorkResult::ProcessUrb(Ok(()))
        },
        _ => WorkResult::MustveBeenTheWind,
    }
}

impl BorrowSendHandler {
    /// The work can be done: `handle` can stand for a port reset, and what is to be fetched for a
    /// request block was fetched.
    pub open spec fn workable<E>(
        &self,
        linker: HandleSeqnumLinker,
        work: Work,
        handle: UrbHandle,
        fetched: Result<Fetched, E>,
    ) -> bool {
        match work {
            Work::PortStat(next) => port_action_of(self.prev, next) == PortAction::SendReset
                ==> self.unused(linker, handle),
            Work::ProcessUrb(urb, _) => sets_address(urb) || carriable(urb) && (fetch_plan_of(
                urb,
            ).needs_fetch && fetched is Ok ==> fetched->Ok_0.complete(urb)),
            Work::CancelUrb(_) => true,
        }
    }

    /// Tells whether the work can be done.
    pub fn is_workable<E>(
        &self,
        linker: &HandleSeqnumLinker,
        work: &Work,
        handle: UrbHandle,
        fetched: &Result<Fetched, E>,
    ) -> (b: bool)
        ensures
            b == self.workable(*linker, *work, handle, *fetched),
    {
        match work {
            Work::PortStat(next) => match port_action(&self.prev, next) {
                PortAction::SendReset => linker.seqnum_of(handle).is_none() && !linker.knows(
                    self.cur_seq.inner,
                ),
                _ => true,
            },
            Work::ProcessUrb(urb, _) => is_set_address(urb) || (is_carriable(urb) && (match fetched {
                Ok(f) => !fetch_plan(urb).needs_fetch || f.is_complete(urb),
                Err(_) => true,
            })),
            Work::CancelUrb(_) => true,
        }
    }

    /// What some work does to the handler.
    pub open spec fn work_done<E>(
        self,
        after: Self,
        linker: HandleSeqnumLinker,
        linker_after: HandleSeqnumLinker,
        work: Work,
        handle: UrbHandle,
        fetched: Result<Fetched, E>,
    ) -> bool {
        match work {
            Work::PortStat(next) => self.port_stat_done(after, linker, linker_after, next, handle),
            Work::ProcessUrb(urb, h) => if sets_address(urb) {
                linker_after == linker && self.set_address_done(after, urb)
            } else {
                self.process_urb_done(
                    after,
                    linker,
                    linker_after,
                    urb,
                    h,
                    fetched,
                    work_result(work, fetched)->ProcessUrb_0,
                )
            },
            Work::CancelUrb(h) => linker_after == linker && self.cancel_urb_done(after, linker, h),
        }
    }

    /// The bytes that a new state of the port puts in the buffer.
    pub open spec fn port_stat_bytes(self, next: PortStat) -> Seq<u8> {
        if port_action_of(self.prev, next) == PortAction::SendReset {
            frame::bare_frame(Command::CmdPort, Status::Success, self.cur_seq.inner)
        } else {
            Seq::empty()
        }
    }

    /// The bytes that some work puts in the buffer.
    pub open spec fn work_bytes<E>(
        self,
        linker: HandleSeqnumLinker,
        work: Work,
        fetched: Result<Fetched, E>,
    ) -> Seq<u8> {
        match work {
            Work::PortStat(next) => self.port_stat_bytes(next),
            Work::ProcessUrb(urb, _) => if sets_address(urb) {
                Seq::empty()
            } else if !fetch_plan_of(urb).needs_fetch {
                request_frame(self.cur_seq.inner, urb, Seq::empty(), Seq::empty())
            } else {
                match fetched {
                    Ok(f) => request_frame(self.cur_seq.inner, urb, f.transfer@, f.packets@),
                    Err(_) => Seq::empty(),
                }
            },
            Work::CancelUrb(h) => if linker.seqnums@.contains_key(h.0) {
                frame::bare_frame(Command::CmdUnlink, Status::Success, linker.seqnums@[h.0])
            } else {
                Seq::empty()
            },
        }
    }

    /// Whatever is asked for, the bytes that waited stay, and the bytes of its frame follow them;
    /// but where the data of a request block could not be fetched.
    pub proof fn lemma_work_bytes<E>(
        self,
        after: Self,
        linker: HandleSeqnumLinker,
        linker_after: HandleSeqnumLinker,
        work: Work,
        handle: UrbHandle,
        fetched: Result<Fetched, E>,
    )
        requires
            self.work_done(after, linker, linker_after, work, handle, fetched),
            !(work_result(work, fetched) matches WorkResult::ProcessUrb(Err(_))),
        ensures
            after.waiting() == self.waiting() + self.work_bytes(linker, work, fetched),
    {
        assert(self.waiting() + Seq::<u8>::empty() =~= self.waiting());
    }

    /// Does what a virtual host controller asks for. `handle` stands for a port reset, `fetched`
    /// is what was fetched for a request block; each is looked at only where it is needed.
    pub fn handle_work<E>(
        &mut self,
        linker: &mut HandleSeqnumLinker,
        work: Work,
        handle: UrbHandle,
        fetched: Result<Fetched, E>,
    ) -> (r: WorkResult<E>)
        requires
            old(self).ready(),
            old(self).workable(*old(linker), work, handle, fetched),
        ensures
            r == work_result(work, fetched),
            old(self).work_done(
                *final(self),
                *old(linker),
                *final(linker),
                work,
                handle,
                fetched,
            ),
    {
        match work {
            Work::PortStat(next) => {
                self.port_stat_with(linker, next, handle);
                WorkResult::MustveBeenTheWind
            },
            Work::ProcessUrb(urb, h) => {
                if is_set_address(&urb) {
                    WorkResult::SetAddress(self.set_address(urb, h))
                } else {
                    WorkResult::ProcessUrb(self.process_urb(linker, urb, h, fetched))
                }
            },
            Work::CancelUrb(h) => {
                self.cancel_urb(linker, h);
                WorkResult::MustveBeenTheWind
            },
        }
    }
}

/// What a transfer moved, as it is given back.
pub enum GivebackData {
    In(BytesMut),
    Out(u16),
}

/// A request block that is given back with what came of it.
pub struct OwnedUrbGiveback {
    pub handle: UrbHandle,
    pub kind: UrbType,
    pub status: usb::Status,
    pub data: GivebackData,
    pub iso_packets: BytesMut,
}

impl OwnedUrbGiveback {
    pub fn kind(&self) -> (k: UrbType)
        ensures
            k == self.kind,
    {
        self.kind
    }

    pub fn handle(&self) -> (h: UrbHandle)
        ensures
            h == self.handle,
    {
        self.handle
    }

    pub fn status(&self) -> (s: usb::Status)
        ensures
            s == self.status,
    {
        self.status
    }

    pub fn dir(&self) -> (d: Dir)
        ensures
            d == (if self.data is In {
                Dir::In
            } else {
                Dir::Out
            }),
    {
        match self.data {
            GivebackData::In(_) => Dir::In,
            GivebackData::Out(_) => Dir::Out,
        }
    }

    pub fn bytes_transferred(&self) -> (n: u16)
        ensures
            n == (match self.data {
                GivebackData::In(data) => (buf::bytes_of(data).len() % 65536) as u16,
                GivebackData::Out(transferred) => transferred,
            }),
    {
        match &self.data {
            GivebackData::In(data) => (buf::len(data) % 65536) as u16,
            GivebackData::Out(transferred) => *transferred,
        }
    }

    /// The bytes that the device gave.
    pub fn transfer(&self) -> (b: &[u8])
        ensures
            b@ == (match self.data {
                GivebackData::In(data) => buf::bytes_of(data),
                GivebackData::Out(_) => Seq::empty(),
            }),
    {
        match &self.data {
            GivebackData::In(data) => buf::as_slice(data),
            GivebackData::Out(_) => {
                let b: &[u8] = &[];
                assert(b@ =~= Seq::<u8>::empty());
                b
            },
        }
    }

    /// What became of the isochronous packets.
    pub fn iso_packet_giveback(&self) -> (v: Vec<IocIsoPacketGiveback>)
        ensures
            v@ == codec::decode_while::<IocIsoPacketGiveback>(buf::bytes_of(self.iso_packets)),
    {
        read_while::<IocIsoPacketGiveback>(buf::as_slice(&self.iso_packets))
    }

    /// The number of packets that failed.
    pub fn error_count(&self) -> (n: u16)
        ensures
            n == lend_recv::error_count(
                codec::decode_while::<IocIsoPacketGiveback>(buf::bytes_of(self.iso_packets)),
            ) % 65536,
    {
        let packets = self.iso_packet_giveback();
        let len: usize = packets.len();
        let mut n: usize = 0;
        let mut i: usize = 0;
        assert(packets@.take(0) =~= Seq::<IocIsoPacketGiveback>::empty());
        while i < len
            invariant
                len == packets@.len(),
                i <= len,
                n == lend_recv::error_count(packets@.take(i as int)),
                n <= i,
            decreases len - i,
        {
            assert(packets@.take(i + 1).drop_last() =~= packets@.take(i as int));
            if packets[i].status != 0 {
                n = n + 1;
            }
            i = i + 1;
        }
        assert(packets@.take(len as int) =~= packets@);
        (n % 65536) as u16
    }
}

/// A reply has its transfer buffer in full.
pub open spec fn reply_fits(reply: Data<UrbFrame>) -> bool {
    !reply.head().out() ==> utils::padded(reply.head().actual_transfer_len as nat)
        <= reply.tail().len()
}

/// Tells whether a reply has its transfer buffer in full.
pub fn does_reply_fit(reply: &Data<UrbFrame>) -> (b: bool)
    requires
        reply.wf(),
    ensures
        b == reply_fits(*reply),
{
    let header = reply.header();
    let len: usize = reply.len();
    proof {
        UrbFrame::lemma_valid(reply.bytes());
    }
    header.is_out() || header.padded_transfer_len() <= len - 24
}

/// Makes of a reply what is given back to the virtual host controller.
pub fn urb_reply(
    linker: &mut HandleSeqnumLinker,
    seqnum: u32,
    reply: Data<UrbFrame>,
) -> (g: OwnedUrbGiveback)
    requires
        old(linker).handles@.contains_key(seqnum),
        reply.wf(),
        reply_fits(reply),
    ensures
        old(linker).unlinked(*final(linker), seqnum),
        g.handle.0 == old(linker).handles@[seqnum],
        g.kind == reply.head().kind,
        g.status == reply.head().status,
        reply.head().out() ==> {
            &&& g.data == GivebackData::Out(reply.head().actual_transfer_len)
            &&& buf::bytes_of(g.iso_packets) == reply.tail()
        },
        !reply.head().out() ==> {
            let n = reply.head().actual_transfer_len as int;
            &&& g.data is In
            &&& buf::bytes_of(g.data->In_0) == reply.tail().take(n)
            &&& buf::bytes_of(g.iso_packets) == reply.tail().skip(utils::padded(n as nat) as int)
        },
{
    let handle = linker.unlink(seqnum);
    let header = reply.header();
    let mut rest = reply.into_bytes_mut();
    proof {
        UrbFrame::lemma_valid(reply.bytes());
        utils::law_padded(header.actual_transfer_len as nat);
    }
    buf::advance(&mut rest, 24);
    let data = if header.is_out() {
        GivebackData::Out(header.actual_transfer_len)
    } else {
        let mut data = buf::split_to(&mut rest, header.padded_transfer_len());
        buf::truncate(&mut data, header.actual_transfer_len as usize);
        assert(buf::bytes_of(data) =~= reply.tail().take(header.actual_transfer_len as int));
        GivebackData::In(data)
    };
    OwnedUrbGiveback {
        handle,
        kind: header.kind,
        status: header.status,
        data,
        iso_packets: rest,
    }
}

/// The lender's port was reset: the request is done with.
pub fn device_reset(linker: &mut HandleSeqnumLinker, seqnum: u32)
    requires
        old(linker).handles@.contains_key(seqnum),
    ensures
        old(linker).unlinked(*final(linker), seqnum),
{
    let _ = linker.unlink(seqnum);
}

} // verus!
