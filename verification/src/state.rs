//! Borrowing a device whose requests and answers are numbered with sixty-four bits, and what a
//! lender makes of the first requests of such a borrower.
use crate::proto::msg::{Command, Status, UrbHeader, UsbDeviceId};
use crate::usb;
use crate::usb::{
    Endpoint, IocIsoPacketData, IocIsoPacketGiveback, IocSetupPacket, IocUrb, PortStat, UrbHandle,
    UrbType, Work,
};
use crate::utils;
use crate::utils::align_to_usize;
use crate::utils::simple_map::SimpleMap;
use vstd::prelude::*;

verus! {

broadcast use vstd::std_specs::hash::group_hash_axioms;

/// What a peer asks for.
#[derive(Debug, Clone, Copy, PartialEq, Eq, Structural)]
pub enum ClientReq {
    ListDevices,
    BorrowDevice(UsbDeviceId),
}

/// The start of every frame.
#[derive(Debug, Clone, Copy, PartialEq, Eq, Structural)]
pub struct FrameHeader {
    pub seqnum: u64,
    pub dev_id: UsbDeviceId,
    pub command: Command,
    pub status: Status,
}

/// What a frame says of a request block.
#[derive(Debug, Clone, Copy, PartialEq, Eq, Structural)]
pub struct BlockHeader {
    pub setup_packet: IocSetupPacket,
    pub interval: u16,
    pub flags: u16,
    pub address: u8,
    pub endpoint: Endpoint,
    pub kind: UrbType,
    pub num_errors: u16,
    pub status: usb::Status,
}

/// How long the data of a request block is, with and without its padding.
#[derive(Debug, Clone, Copy, PartialEq, Eq, Structural)]
pub struct TransferHeader {
    pub aligned_len: u16,
    pub actual_len: u16,
}

/// A frame that asks for a transfer, but for the data.
#[derive(Debug, Clone, Copy, PartialEq, Eq, Structural)]
pub struct SubmitFrame {
    pub header: FrameHeader,
    pub block: BlockHeader,
    pub transfer: TransferHeader,
    pub num_packets: u16,
    /// The data or the packets have to be fetched from the host controller first.
    pub needs_fetch: bool,
}

/// A frame that takes a request back.
#[derive(Debug, Clone, Copy, PartialEq, Eq, Structural)]
pub struct UnlinkFrame {
    pub header: FrameHeader,
    pub handle: UrbHandle,
}

/// What a borrower does about some work.
#[derive(Debug, Clone, Copy, PartialEq, Eq, Structural)]
pub enum WorkAction {
    Nothing,
    /// Tell the host controller that the port with this number is reset.
    CompleteReset(u8),
    Submit(SubmitFrame),
    Unlink(UnlinkFrame),
}

/// What a reader does with the bytes that came.
#[derive(Debug, Clone, Copy, PartialEq, Eq, Structural)]
pub enum ReadStep {
    /// There is more than a header.
    Process,
    /// The stream has ended.
    Stop,
    /// More has to come.
    Wait,
}

/// What to do after `num_read` bytes were read and `buffered` bytes wait.
pub fn read_step(num_read: usize, buffered: usize, header_size: usize) -> (s: ReadStep)
    ensures
        s == (if header_size < buffered {
            ReadStep::Process
        } else if num_read == 0 {
            ReadStep::Stop
        } else {
            ReadStep::Wait
        }),
{
    if header_size < buffered {
        ReadStep::Process
    } else if num_read == 0 {
        ReadStep::Stop
    } else {
        ReadStep::Wait
    }
}

/// The address that no device has.
pub const NO_ADDRESS: u8 = 0xff;

/// The address of the device on a port after the port's state changed.
pub open spec fn address_after(addr: u8, next: PortStat) -> u8 {
    if next.reset_changed && !next.reset && next.enable {
        0
    } else if next.connection_changed {
        NO_ADDRESS
    } else {
        addr
    }
}

/// The port begins a reset of the device on it.
pub open spec fn starts_reset(prev: PortStat, next: PortStat) -> bool {
    !prev.reset && next.reset && next.connection
}

/// The port begins to resume the device on it, which is not supported.
pub open spec fn starts_resume(prev: PortStat, next: PortStat) -> bool {
    !prev.resuming && next.resuming && next.connection
}

/// The block tells the device that waits for one its address.
pub open spec fn assigns_address(urb: IocUrb) -> bool {
    &&& urb.typ == UrbType::Ctrl
    &&& urb.address == 0
    &&& urb.setup_packet.bm_request_type == 0x00
    &&& urb.setup_packet.b_request == 5
}

/// The numbers of the block fit into a frame.
pub open spec fn fits_frame(urb: IocUrb) -> bool {
    &&& 0 <= urb.buffer_length <= 65528
    &&& 0 <= urb.interval <= 65535
    &&& 0 <= urb.packet_count <= 65535
}

/// The frame that asks for the transfer of a request block.
pub open spec fn submit_frame(dev_id: UsbDeviceId, seqnum: u64, urb: IocUrb) -> SubmitFrame {
    SubmitFrame {
        header: FrameHeader {
            seqnum,
            dev_id,
            command: Command::CmdSubmit,
            status: Status::Success,
        },
        block: BlockHeader {
            setup_packet: urb.setup_packet,
            interval: urb.interval as u16,
            flags: urb.flags,
            address: urb.address,
            endpoint: urb.endpoint,
            kind: urb.typ,
            num_errors: 0,
            status: usb::Status::Pending,
        },
        transfer: TransferHeader {
            aligned_len: utils::padded(urb.buffer_length as nat) as u16,
            actual_len: urb.buffer_length as u16,
        },
        num_packets: urb.packet_count as u16,
        needs_fetch: urb.buffer_length > 0 || urb.packet_count > 0,
    }
}

/// The frame that takes the request for a request block back.
pub open spec fn unlink_frame(
    dev_id: UsbDeviceId,
    seqnum: u64,
    handle: UrbHandle,
) -> UnlinkFrame {
    UnlinkFrame {
        header: FrameHeader {
            seqnum,
            dev_id,
            command: Command::CmdUnlink,
            status: Status::Success,
        },
        handle,
    }
}

/// A port of which nothing is known yet.
pub open spec fn idle_port() -> PortStat {
    PortStat {
        index: 0,
        connection: false,
        enable: false,
        reset: false,
        power: false,
        connection_changed: false,
        reset_changed: false,
        resuming: false,
    }
}

/// A borrower of one device: the state of its port, the address that the device has there, and
/// which request block is asked for under which number.
pub struct ClientBorrowDevice {
    pub id: UsbDeviceId,
    /// The number of the next frame.
    pub seqnum: u64,
    pub addr: u8,
    pub prev: PortStat,
    pub seqnums: SimpleMap<u64, UrbHandle>,
    /// The number under which a request block was asked for, by the block's name.
    pub handles: SimpleMap<u64, u64>,
}

impl ClientBorrowDevice {
    /// A request block that has a number is what the number stands for.
    pub open spec fn paired(&self) -> bool {
        forall|h: u64|
            #![trigger self.handles@[h]]
            self.handles@.contains_key(h) ==> {
                &&& self.seqnums@.contains_key(self.handles@[h])
                &&& self.seqnums@[self.handles@[h]] == UrbHandle(h)
            }
    }

    /// The work can be done: what a host controller asks for without a fault.
    pub open spec fn workable(&self, work: Work) -> bool {
        match work {
            Work::PortStat(next) => !starts_resume(self.prev, next),
            Work::ProcessUrb(urb, _) => if assigns_address(urb) {
                urb.setup_packet.w_value <= 255
            } else {
                self.addr == urb.address && fits_frame(urb)
            },
            Work::CancelUrb(_) => true,
        }
    }

    /// `after` is the borrower once the state of its port is noted.
    pub open spec fn port_noted(&self, after: Self, next: PortStat) -> bool {
        &&& after.id == self.id
        &&& after.seqnum == self.seqnum
        &&& after.addr == address_after(self.addr, next)
        &&& after.prev == next
        &&& after.seqnums@ == self.seqnums@
        &&& after.handles@ == self.handles@
    }

    /// `after` is the borrower once its device has the address.
    pub open spec fn address_noted(&self, after: Self, addr: u8) -> bool {
        &&& after.id == self.id
        &&& after.seqnum == self.seqnum
        &&& after.addr == addr
        &&& after.prev == self.prev
        &&& after.seqnums@ == self.seqnums@
        &&& after.handles@ == self.handles@
    }

    /// `after` is the borrower once the request block is asked for under the next number.
    pub open spec fn submitted(&self, after: Self, handle: UrbHandle) -> bool {
        &&& after.id == self.id
        &&& after.seqnum == (self.seqnum + 1) % 0x1_0000_0000_0000_0000
        &&& after.addr == self.addr
        &&& after.prev == self.prev
        &&& after.seqnums@ == self.seqnums@.insert(self.seqnum, handle)
        &&& after.handles@ == self.handles@.insert(handle.0, self.seqnum)
    }

    /// `after` is the borrower once the request for the block is taken back, under the next
    /// number.
    pub open spec fn canceled(&self, after: Self, handle: UrbHandle) -> bool {
        &&& after.id == self.id
        &&& after.seqnum == (self.seqnum + 1) % 0x1_0000_0000_0000_0000
        &&& after.addr == self.addr
        &&& after.prev == self.prev
        &&& after.handles@ == self.handles@.remove(handle.0)
        &&& after.seqnums@ == (if self.handles@.contains_key(handle.0) {
            self.seqnums@.remove(self.handles@[handle.0])
        } else {
            self.seqnums@
        }).insert(self.seqnum, handle)
    }

    /// `after` is the borrower once the answer to the frame with the number is there.
    pub open spec fn answered(&self, after: Self, seqnum: u64) -> bool {
        &&& after.id == self.id
        &&& after.seqnum == self.seqnum
        &&& after.addr == self.addr
        &&& after.prev == self.prev
        &&& after.seqnums@ == self.seqnums@.remove(seqnum)
        &&& after.handles@ == self.handles@.remove(self.seqnums@[seqnum].0)
    }

    pub fn new(id: UsbDeviceId) -> (c: Self)
        ensures
            c.id == id,
            c.seqnum == 0,
            c.addr == NO_ADDRESS,
            c.prev == idle_port(),
            c.seqnums@ == Map::<u64, UrbHandle>::empty(),
            c.handles@ == Map::<u64, u64>::empty(),
            c.paired(),
    {
        ClientBorrowDevice {
            id,
            seqnum: 0,
            addr: NO_ADDRESS,
            prev: PortStat {
                index: 0,
                connection: false,
                enable: false,
                reset: false,
                power: false,
                connection_changed: false,
                reset_changed: false,
                resuming: false,
            },
            seqnums: SimpleMap::with_capacity(32),
            handles: SimpleMap::with_capacity(32),
        }
    }

    /// Tells whether some work can be done.
    pub fn is_workable(&self, work: &Work) -> (b: bool)
        ensures
            b == self.workable(*work),
    {
        match work {
            Work::PortStat(next) => {
                !(!self.prev.resuming && next.resuming && next.connection)
            },
            Work::ProcessUrb(urb, _) => {
                if matches!(urb.typ, UrbType::Ctrl) && urb.address == 0
                    && urb.setup_packet.bm_request_type == 0x00 && urb.setup_packet.b_request == 5 {
                    urb.setup_packet.w_value <= 255
                } else {
                    self.addr == urb.address && 0 <= urb.buffer_length && urb.buffer_length <= 65528
                        && 0 <= urb.interval && urb.interval <= 65535 && 0 <= urb.packet_count
                        && urb.packet_count <= 65535
                }
            },
            Work::CancelUrb(_) => true,
        }
    }

    /// What some work does to the borrower, and what is to be done about it.
    pub open spec fn worked(&self, after: Self, work: Work, action: WorkAction) -> bool {
        match work {
            Work::PortStat(next) => {
                &&& self.port_noted(after, next)
                &&& action == (if starts_reset(self.prev, next) {
                    WorkAction::CompleteReset(next.index)
                } else {
                    WorkAction::Nothing
                })
            },
            Work::ProcessUrb(urb, handle) => if assigns_address(urb) {
                &&& self.address_noted(after, urb.setup_packet.w_value as u8)
                &&& action == WorkAction::Nothing
            } else {
                &&& self.submitted(after, handle)
                &&& action == WorkAction::Submit(submit_frame(self.id, self.seqnum, urb))
            },
            Work::CancelUrb(handle) => {
                &&& self.canceled(after, handle)
                &&& action == WorkAction::Unlink(unlink_frame(self.id, self.seqnum, handle))
            },
        }
    }

    /// Takes note of some work and says what to do about it.
    pub fn on_work(&mut self, work: &Work) -> (action: WorkAction)
        requires
            old(self).workable(*work),
        ensures
            old(self).worked(*final(self), *work, action),
    {
        match work {
            Work::PortStat(next) => {
                if next.connection_changed {
                    self.addr = NO_ADDRESS;
                }
                if next.reset_changed && !next.reset && next.enable {
                    self.addr = 0;
                }
                let resets = !self.prev.reset && next.reset && next.connection;
                self.prev = *next;
                if resets {
                    WorkAction::CompleteReset(next.index)
                } else {
                    WorkAction::Nothing
                }
            },
            Work::ProcessUrb(urb, handle) => {
                if matches!(urb.typ, UrbType::Ctrl) && urb.address == 0
                    && urb.setup_packet.bm_request_type == 0x00 && urb.setup_packet.b_request == 5 {
                    self.addr = urb.setup_packet.w_value as u8;
                    WorkAction::Nothing
                } else {
                    let next: u64 = self.next_seqnum();
                    let _ = self.seqnums.insert(next, *handle);
                    let _ = self.handles.insert(handle.0, next);
                    WorkAction::Submit(self.frame_for(next, urb))
                }
            },
            Work::CancelUrb(handle) => {
                if let Some(seqnum) = self.handles.remove(&handle.0) {
                    let _ = self.seqnums.remove(&seqnum);
                }
                let next: u64 = self.next_seqnum();
                let _ = self.seqnums.insert(next, *handle);
                WorkAction::Unlink(
                    UnlinkFrame {
                        header: FrameHeader {
                            seqnum: next,
                            dev_id: self.id,
                            command: Command::CmdUnlink,
                            status: Status::Success,
                        },
                        handle: *handle,
                    },
                )
            },
        }
    }

    /// The number of the next frame, which no later frame gets until the numbers start over.
    fn next_seqnum(&mut self) -> (next: u64)
        ensures
            next == old(self).seqnum,
            final(self).id == old(self).id,
            final(self).seqnum == (next + 1) % 0x1_0000_0000_0000_0000,
            final(self).addr == old(self).addr,
            final(self).prev == old(self).prev,
            final(self).seqnums == old(self).seqnums,
            final(self).handles == old(self).handles,
    {
        let next: u64 = self.seqnum;
        self.seqnum = next.wrapping_add(1);
        next
    }

    fn frame_for(&self, seqnum: u64, urb: &IocUrb) -> (f: SubmitFrame)
        requires
            fits_frame(*urb),
        ensures
            f == submit_frame(self.id, seqnum, *urb),
    {
        let aligned_len: usize = align_to_usize(urb.buffer_length as usize);
        SubmitFrame {
            header: FrameHeader {
                seqnum,
                dev_id: self.id,
                command: Command::CmdSubmit,
                status: Status::Success,
            },
            block: BlockHeader {
                setup_packet: urb.setup_packet,
                interval: urb.interval as u16,
                flags: urb.flags,
                address: urb.address,
                endpoint: urb.endpoint,
                kind: urb.typ,
                num_errors: 0,
                status: usb::Status::Pending,
            },
            transfer: TransferHeader {
                aligned_len: aligned_len as u16,
                actual_len: urb.buffer_length as u16,
            },
            num_packets: urb.packet_count as u16,
            needs_fetch: urb.buffer_length > 0 || urb.packet_count > 0,
        }
    }

    /// The request block that an answer is for; `None` where no frame with that number is
    /// unanswered.
    pub fn on_answer(&mut self, seqnum: u64) -> (handle: Option<UrbHandle>)
        ensures
            match handle {
                Some(handle) => {
                    &&& old(self).seqnums@.contains_key(seqnum)
                    &&& handle == old(self).seqnums@[seqnum]
                    &&& old(self).answered(*final(self), seqnum)
                },
                None => !old(self).seqnums@.contains_key(seqnum) && *final(self) == *old(self),
            },
    {
        if !self.seqnums.contains_key(&seqnum) {
            return None;
        }
        let handle = self.seqnums.remove(&seqnum);
        if let Some(handle) = handle {
            let _ = self.handles.remove(&handle.0);
        }
        handle
    }
}

/// The answer to a frame is for the request block that the frame asked for, and the borrower
/// then is as it was before, but for the next number.
pub proof fn law_answer_undoes_submit(
    before: ClientBorrowDevice,
    between: ClientBorrowDevice,
    after: ClientBorrowDevice,
    handle: UrbHandle,
)
    requires
        before.submitted(between, handle),
        between.answered(after, before.seqnum),
        !before.seqnums@.contains_key(before.seqnum),
        !before.handles@.contains_key(handle.0),
    ensures
        between.seqnums@.contains_key(before.seqnum),
        between.seqnums@[before.seqnum] == handle,
        after.seqnums@ == before.seqnums@,
        after.handles@ == before.handles@,
{
    assert(after.seqnums@ =~= before.seqnums@);
    assert(after.handles@ =~= before.handles@);
}

/// As long as no number is given out twice, a request block that has a number is what the number
/// stands for, whatever the borrower does.
pub proof fn law_numbers_stay_paired(
    before: ClientBorrowDevice,
    after: ClientBorrowDevice,
    handle: UrbHandle,
    seqnum: u64,
)
    requires
        before.paired(),
        !before.seqnums@.contains_key(before.seqnum),
        ({
            ||| before.submitted(after, handle)
            ||| before.canceled(after, handle)
            ||| before.seqnums@.contains_key(seqnum) && before.answered(after, seqnum)
        }),
    ensures
        after.paired(),
{
}

/// Once the request for a block is taken back, the number that it was asked for under stands for
/// nothing, and only the frame that takes it back stands for the block.
pub proof fn law_cancel_forgets(
    before: ClientBorrowDevice,
    after: ClientBorrowDevice,
    handle: UrbHandle,
)
    requires
        before.paired(),
        !before.seqnums@.contains_key(before.seqnum),
        before.canceled(after, handle),
    ensures
        !after.handles@.contains_key(handle.0),
        before.handles@.contains_key(handle.0) ==> !after.seqnums@.contains_key(
            before.handles@[handle.0],
        ),
        after.seqnums@[before.seqnum] == handle,
{
    if before.handles@.contains_key(handle.0) {
        assert(before.seqnums@.contains_key(before.handles@[handle.0]));
    }
}

/// Something that happens to a borrower: some work, with what is done about it, or an answer.
pub enum Happening {
    Work(Work, WorkAction),
    Answer(u64),
}

/// What happens to the borrower `before` makes it the borrower `after`.
pub open spec fn happened(
    before: ClientBorrowDevice,
    after: ClientBorrowDevice,
    e: Happening,
) -> bool {
    match e {
        Happening::Work(work, action) => before.worked(after, work, action),
        Happening::Answer(seqnum) => if before.seqnums@.contains_key(seqnum) {
            before.answered(after, seqnum)
        } else {
            after == before
        },
    }
}

/// The work that a frame is written for: transfers, but for those that assign an address, and
/// cancellations.
pub open spec fn needs_frame(work: Work) -> bool {
    match work {
        Work::PortStat(_) => false,
        Work::ProcessUrb(urb, _) => !assigns_address(urb),
        Work::CancelUrb(_) => true,
    }
}

/// The frame with the number that some work is written as.
pub open spec fn frame_of(id: UsbDeviceId, seqnum: u64, work: Work) -> WorkAction {
    match work {
        Work::ProcessUrb(urb, _) => WorkAction::Submit(submit_frame(id, seqnum, urb)),
        Work::CancelUrb(handle) => WorkAction::Unlink(unlink_frame(id, seqnum, handle)),
        Work::PortStat(_) => WorkAction::Nothing,
    }
}

/// The work, in its order, that frames are written for.
pub open spec fn asked(events: Seq<Happening>) -> Seq<Work>
    decreases events.len(),
{
    if events.len() == 0 {
        Seq::empty()
    } else {
        match events.last() {
            Happening::Work(work, _) if needs_frame(work) => asked(events.drop_last()).push(work),
            _ => asked(events.drop_last()),
        }
    }
}

/// The frames that are written, in their order.
pub open spec fn written(events: Seq<Happening>) -> Seq<WorkAction>
    decreases events.len(),
{
    if events.len() == 0 {
        Seq::empty()
    } else {
        match events.last() {
            Happening::Work(_, action) if writes(action) => written(events.drop_last()).push(action),
            _ => written(events.drop_last()),
        }
    }
}

/// `states` is the borrower at first and after each thing that happened.
pub open spec fn run(states: Seq<ClientBorrowDevice>, events: Seq<Happening>) -> bool {
    &&& states.len() == events.len() + 1
    &&& forall|i: int|
        0 <= i < events.len() ==> happened(#[trigger] states[i], states[i + 1], events[i])
}

/// The action writes a frame.
pub open spec fn writes(action: WorkAction) -> bool {
    action is Submit || action is Unlink
}

/// One thing more: some work writes the frame with the next number, everything else writes none.
proof fn lemma_happened(before: ClientBorrowDevice, after: ClientBorrowDevice, e: Happening)
    requires
        happened(before, after, e),
    ensures
        after.id == before.id,
        ({
            let more = match e {
                Happening::Work(work, action) => {
                    &&& needs_frame(work)
                    &&& writes(action)
                    &&& action == frame_of(before.id, before.seqnum, work)
                },
                Happening::Answer(_) => false,
            };
            if more {
                after.seqnum == (before.seqnum + 1) % 0x1_0000_0000_0000_0000
            } else {
                &&& after.seqnum == before.seqnum
                &&& e matches Happening::Work(work, action) ==> !needs_frame(work) && !writes(
                    action,
                )
            }
        }),
{
}

/// The number after the next.
proof fn lemma_next_number(n: nat)
    ensures
        (n as int % 0x1_0000_0000_0000_0000 + 1) % 0x1_0000_0000_0000_0000 == (n + 1) as int
            % 0x1_0000_0000_0000_0000,
{
}

/// The frames are numbered in their order, and there is one for each piece of work that needs one.
pub open spec fn numbered(id: UsbDeviceId, events: Seq<Happening>) -> bool {
    &&& written(events).len() == asked(events).len()
    &&& forall|n: int|
        0 <= n < written(events).len() ==> #[trigger] written(events)[n] == frame_of(
            id,
            (n % 0x1_0000_0000_0000_0000) as u64,
            asked(events)[n],
        )
}

proof fn lemma_written(id: UsbDeviceId, events: Seq<Happening>, seqnum: u64)
    requires
        events.len() > 0,
        numbered(id, events.drop_last()),
        seqnum == asked(events.drop_last()).len() as int % 0x1_0000_0000_0000_0000,
        events.last() matches Happening::Work(work, action) ==> {
            ||| needs_frame(work) && writes(action) && action == frame_of(id, seqnum, work)
            ||| !needs_frame(work) && !writes(action)
        },
    ensures
        numbered(id, events),
        asked(events).len() == asked(events.drop_last()).len() + (match events.last() {
            Happening::Work(work, _) => if needs_frame(work) {
                1int
            } else {
                0
            },
            Happening::Answer(_) => 0,
        }),
{
    let fewer = events.drop_last();
    assert forall|n: int| 0 <= n < written(events).len() implies #[trigger] written(events)[n]
        == frame_of(id, (n % 0x1_0000_0000_0000_0000) as u64, asked(events)[n]) by {
        if n < written(fewer).len() {
            assert(written(events)[n] == written(fewer)[n]);
        }
    }
}

/// The frames that a new borrower writes are numbered in their order, from zero on and over again
/// once the numbers are used up. There is one for each transfer and each cancellation that it is
/// asked for, in the same order and with what was asked; a change of the port and the assignment of
/// an address write none.
pub proof fn law_frames_are_numbered(states: Seq<ClientBorrowDevice>, events: Seq<Happening>)
    requires
        run(states, events),
        states[0].seqnum == 0,
    ensures
        numbered(states[0].id, events),
        states.last().id == states[0].id,
        states.last().seqnum == asked(events).len() as int % 0x1_0000_0000_0000_0000,
    decreases events.len(),
{
    if events.len() > 0 {
        let fewer = events.drop_last();
        let earlier = states.drop_last();
        assert forall|i: int| 0 <= i < fewer.len() implies happened(
            #[trigger] earlier[i],
            earlier[i + 1],
            fewer[i],
        ) by {
            assert(earlier[i] == states[i]);
        }
        law_frames_are_numbered(earlier, fewer);
        let last = events.len() - 1;
        lemma_happened(states[last], states[last + 1], events[last]);
        assert(states[last] == earlier.last());
        assert(earlier[0] == states[0]);
        lemma_next_number(asked(fewer).len());
        lemma_written(states[0].id, events, states[last].seqnum);
    }
}

/// The descriptors that a device can be asked for.
#[derive(Debug, Clone, Copy, PartialEq, Eq, Structural)]
pub enum DescriptorType {
    Device,
    Configuration,
    String,
    Interface,
    Endpoint,
}

impl DescriptorType {
    pub open spec fn of_code(code: u8) -> Option<DescriptorType> {
        if code == 1 {
            Some(DescriptorType::Device)
        } else if code == 2 {
            Some(DescriptorType::Configuration)
        } else if code == 3 {
            Some(DescriptorType::String)
        } else if code == 4 {
            Some(DescriptorType::Interface)
        } else if code == 5 {
            Some(DescriptorType::Endpoint)
        } else {
            None
        }
    }

    pub fn from_u8(code: u8) -> (d: Option<DescriptorType>)
        ensures
            d == Self::of_code(code),
    {
        match code {
            1 => Some(DescriptorType::Device),
            2 => Some(DescriptorType::Configuration),
            3 => Some(DescriptorType::String),
            4 => Some(DescriptorType::Interface),
            5 => Some(DescriptorType::Endpoint),
            _ => None,
        }
    }
}

/// What a control transfer asks a lender for.
#[derive(Debug, Clone, Copy, PartialEq, Eq, Structural)]
pub enum LendRequest {
    /// A descriptor, by its kind, if there is such a kind, and its index.
    GetDescriptor(Option<DescriptorType>, u8),
    GetConfiguration,
    Other,
}

/// What the setup packet asks for.
pub open spec fn lend_request_of(ctrl: IocSetupPacket) -> LendRequest {
    if ctrl.bm_request_type == 0x80 && ctrl.b_request == 6 {
        LendRequest::GetDescriptor(
            DescriptorType::of_code((ctrl.w_value / 256) as u8),
            (ctrl.w_value % 256) as u8,
        )
    } else if ctrl.bm_request_type == 0x80 && ctrl.b_request == 8 {
        LendRequest::GetConfiguration
    } else {
        LendRequest::Other
    }
}

/// A lender of one device to a borrower of this kind.
pub struct ServerLendDevice {
    pub id: UsbDeviceId,
}

impl ServerLendDevice {
    pub fn new(id: UsbDeviceId) -> (s: Self)
        ensures
            s.id == id,
    {
        ServerLendDevice { id }
    }

    /// Tells whether the device with the number at the bus is the one to lend.
    pub fn is_lent(&self, bus_number: u8, device_addr: u8) -> (b: bool)
        ensures
            b <==> self.id.bus_number == bus_number && self.id.device_addr == device_addr,
    {
        self.id.bus_number == bus_number && self.id.device_addr == device_addr
    }

    /// What a setup packet asks for.
    pub fn lend_request(ctrl: &IocSetupPacket) -> (r: LendRequest)
        ensures
            r == lend_request_of(*ctrl),
    {
        match (ctrl.bm_request_type, ctrl.b_request) {
            (0x80, 6) => {
                let index: u8 = (ctrl.w_value % 256) as u8;
                LendRequest::GetDescriptor(
                    DescriptorType::from_u8((ctrl.w_value / 256) as u8),
                    index,
                )
            },
            (0x80, 8) => LendRequest::GetConfiguration,
            _ => LendRequest::Other,
        }
    }

    /// How much of a device descriptor goes into a buffer, and whether it leaves some of it
    /// empty.
    pub fn device_descriptor(desc_len: u8, actual_len: u16) -> (r: (u16, usb::Status))
        ensures
            r.0 == (if desc_len < actual_len {
                desc_len as u16
            } else {
                actual_len
            }),
            r.1 == (if desc_len < actual_len {
                usb::Status::ShortPacket
            } else {
                usb::Status::Success
            }),
    {
        let len: u16 = desc_len as u16;
        if len < actual_len {
            (len, usb::Status::ShortPacket)
        } else {
            (actual_len, usb::Status::Success)
        }
    }

    /// Puts the number of the device's configuration into a buffer; gives the new length of the
    /// data.
    pub fn configuration(conf: u8, buf: &mut Vec<u8>) -> (actual_len: u16)
        requires
            old(buf)@.len() > 0,
        ensures
            final(buf)@ == old(buf)@.update(0, conf),
            actual_len == 1,
    {
        buf.set(0, conf);
        1
    }

    /// The place of the language with the number, or of the first where there is none with it.
    pub fn language(languages: &[u16], lang_id: u16) -> (at: usize)
        requires
            languages@.len() > 0,
        ensures
            at < languages@.len(),
            languages@.contains(lang_id) ==> {
                &&& languages@[at as int] == lang_id
                &&& forall|j: int| 0 <= j < at ==> languages@[j] != lang_id
            },
            !languages@.contains(lang_id) ==> at == 0,
    {
        let n: usize = languages.len();
        let mut i: usize = 0;
        while i < n
            invariant
                n == languages@.len(),
                i <= n,
                forall|j: int| 0 <= j < i ==> languages@[j] != lang_id,
            decreases n - i,
        {
            if languages[i] == lang_id {
                return i;
            }
            i = i + 1;
        }
        0
    }
}

/// A request block and the room for what is fetched from its host controller.
pub struct UrbWithIsoData<'a> {
    pub handle: UrbHandle,
    pub header: &'a UrbHeader,
    pub transfer: &'a mut [u8],
    pub iso_data: &'a mut [IocIsoPacketData],
}

impl<'a> UrbWithIsoData<'a> {
    pub fn kind(&self) -> (k: UrbType)
        ensures
            k == self.header.kind,
    {
        self.header.kind
    }

    pub fn handle(&self) -> (h: UrbHandle)
        ensures
            h == self.handle,
    {
        self.handle
    }

    pub fn status(&self) -> (s: usb::Status)
        ensures
            s == self.header.status,
    {
        self.header.status
    }

    pub fn endpoint(&self) -> (e: Endpoint)
        ensures
            e == self.header.endpoint,
    {
        self.header.endpoint
    }

    /// The data of the block, without what pads it.
    pub fn transfer_mut(self) -> (r: &'a mut [u8])
        requires
            self.header.actual_transfer_len <= old(self.transfer)@.len(),
        ensures
            r@ == old(self.transfer)@.take(self.header.actual_transfer_len as int),
            final(self.transfer)@ == final(r)@ + old(self.transfer)@.skip(
                self.header.actual_transfer_len as int,
            ),
    {
        let (data, _) = self.transfer.split_at_mut(self.header.actual_transfer_len as usize);
        data
    }

    pub fn iso_packet_data_mut(self) -> (r: &'a mut [IocIsoPacketData])
        ensures
            r@ == old(self.iso_data)@,
            final(self.iso_data)@ == final(r)@,
    {
        self.iso_data
    }
}

/// A request block and what is given back with it.
pub struct UrbWithIsoGiveback<'a> {
    pub handle: UrbHandle,
    pub header: &'a UrbHeader,
    pub transfer: &'a mut [u8],
    pub iso_giveback: &'a mut [IocIsoPacketGiveback],
}

impl<'a> UrbWithIsoGiveback<'a> {
    pub fn kind(&self) -> (k: UrbType)
        ensures
            k == self.header.kind,
    {
        self.header.kind
    }

    pub fn handle(&self) -> (h: UrbHandle)
        ensures
            h == self.handle,
    {
        self.handle
    }

    pub fn status(&self) -> (s: usb::Status)
        ensures
            s == self.header.status,
    {
        self.header.status
    }

    pub fn endpoint(&self) -> (e: Endpoint)
        ensures
            e == self.header.endpoint,
    {
        self.header.endpoint
    }

    /// The data of the block, without what pads it.
    pub fn transfer_mut(self) -> (r: &'a mut [u8])
        requires
            self.header.actual_transfer_len <= old(self.transfer)@.len(),
        ensures
            r@ == old(self.transfer)@.take(self.header.actual_transfer_len as int),
            final(self.transfer)@ == final(r)@ + old(self.transfer)@.skip(
                self.header.actual_transfer_len as int,
            ),
    {
        let (data, _) = self.transfer.split_at_mut(self.header.actual_transfer_len as usize);
        data
    }

    pub fn iso_packet_giveback_mut(self) -> (r: &'a mut [IocIsoPacketGiveback])
        ensures
            r@ == old(self.iso_giveback)@,
            final(self.iso_giveback)@ == final(r)@,
    {
        self.iso_giveback
    }

    pub fn error_count(&self) -> (n: u16)
        ensures
            n == self.header.num_errors,
    {
        self.header.num_errors
    }
}

} // verus!
