//! The loops that send: when what waits is written out, on either side.
use crate::buf;
use crate::lend::send_loop;
use crate::lend::send_loop::{Action, Happening, Sender, State};
use crate::lend::CompletedTransfer;
use crate::operator::borrow;
use crate::operator::borrow::{
    BorrowSendHandler, EmptyUrb, Fetched, HandleSeqnumLinker, WorkResult,
};
use crate::operator::lend;
use crate::operator::lend::{FrameKind, LendSendHandler, UsbError};
use crate::operator::transfers::CancelTokens;
use crate::proto::frame;
use crate::proto::msg::{Command, Status, UsbDeviceId};
use crate::usb;
use crate::usb::{PortStat, UrbHandle, UrbType, Work};
use bytes::BytesMut;
use vstd::prelude::*;

verus! {

/// Something that the lender has completed.
pub type LendEvent = CompletedTransfer<usb::Status, Status>;

/// The sequence number of the request.
pub open spec fn event_seqnum(event: LendEvent) -> u32 {
    match event {
        CompletedTransfer::Reset(x) => x.seqnum,
        CompletedTransfer::Ctrl(x) => x.seqnum,
        CompletedTransfer::Int(x) => x.seqnum,
        CompletedTransfer::Iso(x) => x.seqnum,
        CompletedTransfer::Bulk(x) => x.seqnum,
    }
}

/// What the borrower is told became of it; `status` is what a transfer's own status means to the
/// borrower.
pub open spec fn event_status(event: LendEvent, status: Status) -> Status {
    match event {
        CompletedTransfer::Reset(x) => x.data,
        _ => status,
    }
}

/// The frame that answers the borrower, where it is a success.
pub open spec fn event_frame(event: LendEvent) -> Seq<u8> {
    match event {
        CompletedTransfer::Reset(x) => frame::bare_frame(
            Command::RetPort,
            Status::Success,
            x.seqnum,
        ),
        CompletedTransfer::Ctrl(x) => lend::reply_frame(
            x.seqnum,
            lend::reply_header(UrbType::Ctrl, x.data.endpoint, 0, x.data.status, x.data.res),
            x.data.res,
            Seq::empty(),
        ),
        CompletedTransfer::Int(x) => lend::reply_frame(
            x.seqnum,
            lend::reply_header(
                UrbType::Int,
                x.data.endpoint,
                x.data.interval,
                x.data.status,
                x.data.res,
            ),
            x.data.res,
            Seq::empty(),
        ),
        CompletedTransfer::Iso(x) => lend::reply_frame(
            x.seqnum,
            lend::iso_reply_header(x.data),
            x.data.res,
            buf::bytes_of(x.data.raw_iso_buf),
        ),
        CompletedTransfer::Bulk(x) => lend::reply_frame(
            x.seqnum,
            lend::reply_header(UrbType::Bulk, x.data.endpoint, 0, x.data.status, x.data.res),
            x.data.res,
            Seq::empty(),
        ),
    }
}

/// What failed, where it is a failure.
pub open spec fn event_failure(event: LendEvent) -> FrameKind {
    match event {
        CompletedTransfer::Reset(x) => FrameKind::Reset,
        CompletedTransfer::Ctrl(x) => FrameKind::Transfer {
            kind: UrbType::Ctrl,
            endpoint: x.data.endpoint,
            status: x.data.status,
        },
        CompletedTransfer::Int(x) => FrameKind::Transfer {
            kind: UrbType::Int,
            endpoint: x.data.endpoint,
            status: x.data.status,
        },
        CompletedTransfer::Iso(x) => FrameKind::Transfer {
            kind: UrbType::Iso,
            endpoint: x.data.endpoint,
            status: x.data.status,
        },
        CompletedTransfer::Bulk(x) => FrameKind::Transfer {
            kind: UrbType::Bulk,
            endpoint: x.data.endpoint,
            status: x.data.status,
        },
    }
}

/// There is room for the answer.
pub open spec fn event_fits(handler: LendSendHandler, event: LendEvent) -> bool {
    match event {
        CompletedTransfer::Reset(_) => handler.waiting().len() + 8 <= buf::max_len(),
        CompletedTransfer::Ctrl(x) => handler.has_room(x.data.res, Seq::empty()),
        CompletedTransfer::Int(x) => handler.has_room(x.data.res, Seq::empty()),
        CompletedTransfer::Iso(x) => handler.has_room(
            x.data.res,
            buf::bytes_of(x.data.raw_iso_buf),
        ),
        CompletedTransfer::Bulk(x) => handler.has_room(x.data.res, Seq::empty()),
    }
}

impl LendSendHandler {
    /// Tells whether there is room for the answer.
    pub fn does_event_fit(&self, event: &LendEvent) -> (b: bool)
        ensures
            b == event_fits(*self, *event),
    {
        match event {
            CompletedTransfer::Reset(_) => self.does_fit(8, &[], &[]),
            CompletedTransfer::Ctrl(x) => self.does_fit(40, x.data.res.get(), &[]),
            CompletedTransfer::Int(x) => self.does_fit(40, x.data.res.get(), &[]),
            CompletedTransfer::Iso(x) => self.does_fit(
                40,
                x.data.res.get(),
                buf::as_slice(&x.data.raw_iso_buf),
            ),
            CompletedTransfer::Bulk(x) => self.does_fit(40, x.data.res.get(), &[]),
        }
    }

    /// What something that was completed does to the handler.
    pub open spec fn event_done<T>(
        self,
        after: Self,
        tokens: CancelTokens<T>,
        tokens_after: CancelTokens<T>,
        event: LendEvent,
        status: Status,
        r: Result<(), UsbError>,
    ) -> bool {
        &&& after.dev_id == self.dev_id
        &&& event is Reset ==> tokens_after == tokens
        &&& !(event is Reset) ==> lend::deregistered(tokens, tokens_after, event_seqnum(event))
        &&& event_status(event, status) == Status::Success ==> r is Ok && after.waiting()
            == self.waiting() + event_frame(event)
        &&& event_status(event, status) != Status::Success ==> after.waiting() == self.waiting()
            && r == Err::<(), UsbError>(
            UsbError {
                id: self.dev_id,
                seqnum: event_seqnum(event),
                status: event_status(event, status),
                kind: event_failure(event),
            },
        )
    }

    /// Puts the answer to something that was completed in the buffer.
    pub fn handle_event<T>(
        &mut self,
        tokens: &mut CancelTokens<T>,
        event: LendEvent,
        status: Status,
    ) -> (r: Result<(), UsbError>)
        requires
            event_fits(*old(self), event),
        ensures
            old(self).event_done(*final(self), *old(tokens), *final(tokens), event, status, r),
    {
        match event {
            CompletedTransfer::Reset(x) => self.device_resetted(x),
            CompletedTransfer::Ctrl(x) => self.ctrl_completed(tokens, x, status),
            CompletedTransfer::Int(x) => self.int_completed(tokens, x, status),
            CompletedTransfer::Iso(x) => self.iso_completed(tokens, x, status),
            CompletedTransfer::Bulk(x) => self.bulk_completed(tokens, x, status),
        }
    }
}

/// The loop of the lender that sends.
pub struct LendSendLoop {
    pub handler: LendSendHandler,
    pub state: State,
}

impl LendSendLoop {
    /// Data never waits in the buffer without a timer or a write that comes before it.
    pub open spec fn inv(&self) -> bool {
        self.state.keeps(self.handler.waiting().len() == 0)
    }

    pub fn new(dev_id: UsbDeviceId) -> (l: Self)
        ensures
            l.inv(),
            l.state == State::Solicit,
            l.handler.dev_id == dev_id,
            l.handler.waiting() == Seq::<u8>::empty(),
    {
        LendSendLoop { handler: LendSendHandler::new(dev_id), state: State::Solicit }
    }

    /// What something that was completed does to the loop.
    pub open spec fn event_handled<T>(
        self,
        after: Self,
        tokens: CancelTokens<T>,
        tokens_after: CancelTokens<T>,
        event: LendEvent,
        status: Status,
        r: Result<Action, UsbError>,
    ) -> bool {
        &&& self.handler.event_done(
            after.handler,
            tokens,
            tokens_after,
            event,
            status,
            match r {
                Ok(_) => Ok::<(), UsbError>(()),
                Err(e) => Err::<(), UsbError>(e),
            },
        )
        &&& match r {
            Ok(action) => if self.state == State::Solicit {
                after.state == State::Timer && action == Action::ArmTimer
            } else {
                after.state == self.state && action == Action::Wait
            },
            Err(_) => after.state == self.state,
        }
    }

    /// Something was completed. An error ends the loop, and the borrower is told of it.
    pub fn on_event<T>(
        &mut self,
        tokens: &mut CancelTokens<T>,
        event: LendEvent,
        status: Status,
    ) -> (r: Result<Action, UsbError>)
        requires
            old(self).inv(),
            event_fits(old(self).handler, event),
        ensures
            final(self).inv() || r is Err,
            old(self).event_handled(
                *final(self),
                *old(tokens),
                *final(tokens),
                event,
                status,
                r,
            ),
    {
        match self.handler.handle_event(tokens, event, status) {
            Ok(()) => Ok(self.state.on_event(true)),
            Err(e) => Err(e),
        }
    }

    /// What the timer does to the loop: `bytes` are to be written.
    pub open spec fn timer_gone_off(self, after: Self, bytes: Seq<u8>) -> bool {
        &&& self.state == State::Timer
        &&& after.state == State::Flush
        &&& bytes == self.handler.waiting()
        &&& after.handler.waiting() == Seq::<u8>::empty()
        &&& after.handler.dev_id == self.handler.dev_id
    }

    /// The timer went off: these bytes are to be written.
    pub fn on_timer(&mut self) -> (b: BytesMut)
        requires
            old(self).inv(),
            old(self).state.waiting().timer,
        ensures
            final(self).inv(),
            old(self).timer_gone_off(*final(self), buf::bytes_of(b)),
    {
        let _ = self.state.on_timer();
        self.handler.flush_buf()
    }

    /// What the end of a write does to the loop.
    pub open spec fn flushed(self, after: Self, action: Action) -> bool {
        &&& self.state == State::Flush
        &&& after.handler == self.handler
        &&& if self.handler.waiting().len() == 0 {
            after.state == State::Solicit && action == Action::Wait
        } else {
            after.state == State::Timer && action == Action::ArmTimer
        }
    }

    /// The bytes were written.
    pub fn on_flushed(&mut self) -> (action: Action)
        requires
            old(self).state.waiting().flush,
        ensures
            final(self).inv(),
            old(self).flushed(*final(self), action),
    {
        let empty = self.handler.is_buf_empty();
        self.state.on_flushed(empty)
    }

    /// The loop as any loop that sends.
    pub open spec fn sender(self) -> Sender {
        Sender { state: self.state, waiting: self.handler.waiting() }
    }
}

/// Something that happens to the loop of the lender that sends.
pub enum LendHappening<T> {
    Event {
        tokens: CancelTokens<T>,
        tokens_after: CancelTokens<T>,
        event: LendEvent,
        status: Status,
        r: Result<Action, UsbError>,
    },
    Timer(Seq<u8>),
    Flushed(Action),
}

/// What happens to the loop `before` makes it the loop `after`.
pub open spec fn lend_happened<T>(
    before: LendSendLoop,
    after: LendSendLoop,
    e: LendHappening<T>,
) -> bool {
    match e {
        LendHappening::Event { tokens, tokens_after, event, status, r } => before.event_handled(
            after,
            tokens,
            tokens_after,
            event,
            status,
            r,
        ),
        LendHappening::Timer(bytes) => before.timer_gone_off(after, bytes),
        LendHappening::Flushed(action) => before.flushed(after, action),
    }
}

/// What it is to any loop that sends: an answer is put in the buffer, where it is a success.
pub open spec fn lend_sent<T>(e: LendHappening<T>) -> Happening {
    match e {
        LendHappening::Event { event, status, .. } => Happening::Put(
            if event_status(event, status) == Status::Success {
                event_frame(event)
            } else {
                Seq::empty()
            },
        ),
        LendHappening::Timer(bytes) => Happening::Timer(bytes),
        LendHappening::Flushed(_) => Happening::Flushed,
    }
}

/// Over any run of the lender's loop, the answers to what was completed are written in the order in
/// which it was completed, as far as they do not wait still, and one write at a time.
pub proof fn law_lender_writes_in_order<T>(
    loops: Seq<LendSendLoop>,
    events: Seq<LendHappening<T>>,
)
    requires
        loops.len() == events.len() + 1,
        forall|i: int|
            0 <= i < events.len() ==> lend_happened(#[trigger] loops[i], loops[i + 1], events[i]),
    ensures
        ({
            let sent = events.map_values(|e: LendHappening<T>| lend_sent(e));
            &&& send_loop::written(sent) + loops.last().handler.waiting()
                == loops[0].handler.waiting() + send_loop::put(sent)
            &&& send_loop::one_at_a_time(sent)
        }),
{
    let sent = events.map_values(|e: LendHappening<T>| lend_sent(e));
    let senders = loops.map_values(|l: LendSendLoop| l.sender());
    assert forall|i: int| 0 <= i < sent.len() implies send_loop::happened(
        #[trigger] senders[i],
        senders[i + 1],
        sent[i],
    ) by {
        assert(lend_happened(loops[i], loops[i + 1], events[i]));
        assert(loops[i].handler.waiting() + Seq::<u8>::empty() =~= loops[i].handler.waiting());
    }
    send_loop::law_writes_in_order(senders, sent);
}

/// What the loop of the borrower that sends does next.
pub enum BorrowStep {
    Go(Action),
    /// Give back the block that set the address, and wait until that is done.
    GiveBack(EmptyUrb),
}

/// The loop of the borrower that sends.
pub struct BorrowSendLoop {
    pub handler: BorrowSendHandler,
    pub state: State,
    /// A block that set the address is being given back.
    pub addr_pending: bool,
}

impl BorrowSendLoop {
    /// Data never waits in the buffer without a timer or a write that comes before it.
    pub open spec fn inv(&self) -> bool {
        self.state.keeps(self.handler.waiting().len() == 0)
    }

    pub fn new() -> (l: Self)
        ensures
            l.inv(),
            l.state == State::Solicit,
            !l.addr_pending,
            l.handler.waiting() == Seq::<u8>::empty(),
            l.handler.cur_seq.inner == 0,
            l.handler.prev == BorrowSendHandler::fresh_port(),
            l.handler.addr == 0,
    {
        BorrowSendLoop {
            handler: BorrowSendHandler::new(),
            state: State::Solicit,
            addr_pending: false,
        }
    }

    /// What a new state of the port does to the loop; `r` is `None` where it could not be noted.
    pub open spec fn port_stat_noted(
        self,
        after: Self,
        linker: HandleSeqnumLinker,
        linker_after: HandleSeqnumLinker,
        next: PortStat,
        r: Option<Action>,
    ) -> bool {
        &&& self.handler.port_stat_tried(after.handler, linker, linker_after, next, r is Some)
        &&& after.addr_pending == self.addr_pending
        &&& if r is Some && self.state == State::Solicit && after.handler.waiting().len() > 0 {
            &&& r == Some(Action::ArmTimer)
            &&& after.state == State::Timer
        } else {
            &&& r is Some ==> r == Some(Action::Wait)
            &&& after.state == self.state
        }
    }

    /// The port has a new state; where it resets, a handle is drawn at random for the request. `None`,
    /// with nothing done, where the next sequence number stands for another already.
    pub fn on_port_stat(
        &mut self,
        linker: &mut HandleSeqnumLinker,
        next: PortStat,
    ) -> (r: Option<Action>)
        requires
            old(self).inv(),
            old(self).handler.ready(),
        ensures
            final(self).inv(),
            old(self).port_stat_noted(*final(self), *old(linker), *final(linker), next, r),
    {
        if !self.handler.port_stat(linker, next) {
            return None;
        }
        let armed = !self.handler.is_buf_empty();
        Some(self.state.on_event(armed))
    }

    /// What some work does to the loop.
    pub open spec fn worked<E>(
        self,
        after: Self,
        linker: HandleSeqnumLinker,
        linker_after: HandleSeqnumLinker,
        work: Work,
        handle: UrbHandle,
        fetched: Result<Fetched, E>,
        r: Result<BorrowStep, E>,
    ) -> bool {
        &&& self.handler.work_done(after.handler, linker, linker_after, work, handle, fetched)
        &&& match borrow::work_result(work, fetched) {
            WorkResult::SetAddress(e) => {
                &&& r == Ok::<BorrowStep, E>(BorrowStep::GiveBack(e))
                &&& after.addr_pending
                &&& after.state == self.state
            },
            WorkResult::ProcessUrb(Err(e)) => {
                &&& r == Err::<BorrowStep, E>(e)
                &&& after.addr_pending == self.addr_pending
                &&& after.state == self.state
            },
            _ => {
                &&& after.addr_pending == self.addr_pending
                &&& if self.state == State::Solicit && after.handler.waiting().len() > 0 {
                    &&& r == Ok::<BorrowStep, E>(BorrowStep::Go(Action::ArmTimer))
                    &&& after.state == State::Timer
                } else {
                    &&& r == Ok::<BorrowStep, E>(BorrowStep::Go(Action::Wait))
                    &&& after.state == self.state
                }
            },
        }
    }

    /// The virtual host controller asks for something. An error ends the loop.
    pub fn on_work<E>(
        &mut self,
        linker: &mut HandleSeqnumLinker,
        work: Work,
        handle: UrbHandle,
        fetched: Result<Fetched, E>,
    ) -> (r: Result<BorrowStep, E>)
        requires
            old(self).inv(),
            old(self).handler.ready(),
            old(self).handler.workable(*old(linker), work, handle, fetched),
        ensures
            final(self).inv() || r is Err,
            old(self).worked(
                *final(self),
                *old(linker),
                *final(linker),
                work,
                handle,
                fetched,
                r,
            ),
    {
        match self.handler.handle_work(linker, work, handle, fetched) {
            WorkResult::SetAddress(e) => {
                self.addr_pending = true;
                Ok(BorrowStep::GiveBack(e))
            },
            WorkResult::ProcessUrb(Err(e)) => Err(e),
            WorkResult::ProcessUrb(Ok(())) => {
                let armed = !self.handler.is_buf_empty();
                Ok(BorrowStep::Go(self.state.on_event(armed)))
            },
            WorkResult::MustveBeenTheWind => {
                let armed = !self.handler.is_buf_empty();
                Ok(BorrowStep::Go(self.state.on_event(armed)))
            },
        }
    }

    /// What it does to the loop that the block that set the address was given back.
    pub open spec fn address_set(self, after: Self) -> bool {
        &&& !after.addr_pending
        &&& after.state == self.state
        &&& after.handler == self.handler
    }

    /// The block that set the address was given back.
    pub fn on_address_set(&mut self)
        requires
            old(self).inv(),
        ensures
            final(self).inv(),
            old(self).address_set(*final(self)),
    {
        self.addr_pending = false;
    }

    /// What the timer does to the loop: `bytes` are to be written.
    pub open spec fn timer_gone_off(self, after: Self, bytes: Seq<u8>) -> bool {
        &&& self.state == State::Timer
        &&& after.state == State::Flush
        &&& after.addr_pending == self.addr_pending
        &&& bytes == self.handler.waiting()
        &&& after.handler.waiting() == Seq::<u8>::empty()
        &&& after.handler.cur_seq == self.handler.cur_seq
        &&& after.handler.prev == self.handler.prev
        &&& after.handler.addr == self.handler.addr
    }

    /// The timer went off: these bytes are to be written.
    pub fn on_timer(&mut self) -> (b: BytesMut)
        requires
            old(self).inv(),
            old(self).state.waiting().timer,
        ensures
            final(self).inv(),
            old(self).timer_gone_off(*final(self), buf::bytes_of(b)),
    {
        let _ = self.state.on_timer();
        self.handler.flush_buf()
    }

    /// What the end of a write does to the loop.
    pub open spec fn flushed(self, after: Self, action: Action) -> bool {
        &&& self.state == State::Flush
        &&& after.handler == self.handler
        &&& after.addr_pending == self.addr_pending
        &&& if self.handler.waiting().len() == 0 {
            after.state == State::Solicit && action == Action::Wait
        } else {
            after.state == State::Timer && action == Action::ArmTimer
        }
    }

    /// The bytes were written.
    pub fn on_flushed(&mut self) -> (action: Action)
        requires
            old(self).state.waiting().flush,
        ensures
            final(self).inv(),
            old(self).flushed(*final(self), action),
    {
        let empty = self.handler.is_buf_empty();
        self.state.on_flushed(empty)
    }

    /// The loop as any loop that sends.
    pub open spec fn sender(self) -> Sender {
        Sender { state: self.state, waiting: self.handler.waiting() }
    }
}

/// Something that happens to the loop of the borrower that sends.
pub enum BorrowHappening<E> {
    Work {
        linker: HandleSeqnumLinker,
        linker_after: HandleSeqnumLinker,
        work: Work,
        handle: UrbHandle,
        fetched: Result<Fetched, E>,
        r: Result<BorrowStep, E>,
    },
    PortStat {
        linker: HandleSeqnumLinker,
        linker_after: HandleSeqnumLinker,
        next: PortStat,
        noted: Option<Action>,
    },
    AddressSet,
    Timer(Seq<u8>),
    Flushed(Action),
}

/// What happens to the loop `before` makes it the loop `after`.
pub open spec fn borrow_happened<E>(
    before: BorrowSendLoop,
    after: BorrowSendLoop,
    e: BorrowHappening<E>,
) -> bool {
    match e {
        BorrowHappening::Work { linker, linker_after, work, handle, fetched, r } => before.worked(
            after,
            linker,
            linker_after,
            work,
            handle,
            fetched,
            r,
        ),
        BorrowHappening::PortStat { linker, linker_after, next, noted } => before.port_stat_noted(
            after,
            linker,
            linker_after,
            next,
            noted,
        ),
        BorrowHappening::AddressSet => before.address_set(after),
        BorrowHappening::Timer(bytes) => before.timer_gone_off(after, bytes),
        BorrowHappening::Flushed(action) => before.flushed(after, action),
    }
}

/// What it is to any loop that sends: the frame of what was asked for is put in the buffer.
pub open spec fn borrow_sent<E>(before: BorrowSendLoop, e: BorrowHappening<E>) -> Happening {
    match e {
        BorrowHappening::Work { linker, work, fetched, .. } => Happening::Put(
            before.handler.work_bytes(linker, work, fetched),
        ),
        BorrowHappening::PortStat { next, noted, .. } => Happening::Put(
            if noted is Some {
                before.handler.port_stat_bytes(next)
            } else {
                Seq::empty()
            },
        ),
        BorrowHappening::AddressSet => Happening::Put(Seq::empty()),
        BorrowHappening::Timer(bytes) => Happening::Timer(bytes),
        BorrowHappening::Flushed(_) => Happening::Flushed,
    }
}

/// It ends the loop.
pub open spec fn borrow_ends<E>(e: BorrowHappening<E>) -> bool {
    e matches BorrowHappening::Work { r: Err(_), .. }
}

/// What is put in the buffer and written, step by step.
pub open spec fn borrow_run_sent<E>(
    loops: Seq<BorrowSendLoop>,
    events: Seq<BorrowHappening<E>>,
) -> Seq<Happening> {
    Seq::new(events.len(), |i: int| borrow_sent(loops[i], events[i]))
}

proof fn lemma_borrow_sent<E>(
    before: BorrowSendLoop,
    after: BorrowSendLoop,
    e: BorrowHappening<E>,
)
    requires
        borrow_happened(before, after, e),
        !borrow_ends(e),
    ensures
        send_loop::happened(before.sender(), after.sender(), borrow_sent(before, e)),
{
    assert(before.handler.waiting() + Seq::<u8>::empty() =~= before.handler.waiting());
    match e {
        BorrowHappening::Work { linker, linker_after, work, handle, fetched, r } => {
            before.handler.lemma_work_bytes(
                after.handler,
                linker,
                linker_after,
                work,
                handle,
                fetched,
            );
        },
        _ => {},
    }
}

proof fn lemma_borrow_goes_on<E>(loops: Seq<BorrowSendLoop>, events: Seq<BorrowHappening<E>>)
    requires
        loops.len() == events.len() + 1,
        forall|i: int|
            0 <= i < events.len() ==> borrow_happened(#[trigger] loops[i], loops[i + 1], events[i]),
        forall|i: int| 0 <= i < events.len() ==> !borrow_ends(#[trigger] events[i]),
    ensures
        send_loop::written(borrow_run_sent(loops, events)) + loops.last().handler.waiting()
            == loops[0].handler.waiting() + send_loop::put(borrow_run_sent(loops, events)),
        send_loop::one_at_a_time(borrow_run_sent(loops, events)),
{
    let sent = borrow_run_sent(loops, events);
    let senders = loops.map_values(|l: BorrowSendLoop| l.sender());
    assert forall|i: int| 0 <= i < sent.len() implies send_loop::happened(
        #[trigger] senders[i],
        senders[i + 1],
        sent[i],
    ) by {
        assert(borrow_happened(loops[i], loops[i + 1], events[i]));
        assert(!borrow_ends(events[i]));
        lemma_borrow_sent(loops[i], loops[i + 1], events[i]);
    }
    send_loop::law_writes_in_order(senders, sent);
}

/// Over any run of the borrower's loop, the frames of what it was asked for are written in the order
/// in which it was asked, and one write at a time. What is not written waits still; but where the run
/// ended with an error, what waited is let go of.
pub proof fn law_borrower_writes_in_order<E>(
    loops: Seq<BorrowSendLoop>,
    events: Seq<BorrowHappening<E>>,
)
    requires
        loops.len() == events.len() + 1,
        forall|i: int|
            0 <= i < events.len() ==> borrow_happened(#[trigger] loops[i], loops[i + 1], events[i]),
        forall|i: int| 0 <= i < events.len() - 1 ==> !borrow_ends(#[trigger] events[i]),
    ensures
        ({
            let sent = borrow_run_sent(loops, events);
            let asked = loops[0].handler.waiting() + send_loop::put(sent);
            &&& send_loop::written(sent).is_prefix_of(asked)
            &&& events.len() == 0 || !borrow_ends(events.last()) ==> send_loop::written(sent)
                + loops.last().handler.waiting() == asked
            &&& send_loop::one_at_a_time(sent)
        }),
{
    let sent = borrow_run_sent(loops, events);
    let asked = loops[0].handler.waiting() + send_loop::put(sent);
    if events.len() == 0 || !borrow_ends(events.last()) {
        lemma_borrow_goes_on(loops, events);
        let written = send_loop::written(sent);
        assert(asked.subrange(0, written.len() as int) =~= written);
    } else {
        let fewer = events.drop_last();
        let earlier = loops.drop_last();
        assert forall|i: int| 0 <= i < fewer.len() implies borrow_happened(
            #[trigger] earlier[i],
            earlier[i + 1],
            fewer[i],
        ) by {
            assert(earlier[i] == loops[i]);
        }
        assert forall|i: int| 0 <= i < fewer.len() implies !borrow_ends(#[trigger] fewer[i]) by {
            assert(fewer[i] == events[i]);
        }
        lemma_borrow_goes_on(earlier, fewer);
        let before = borrow_run_sent(earlier, fewer);
        let last = events.len() - 1;
        assert(sent.drop_last() =~= before);
        assert(borrow_happened(loops[last], loops[last + 1], events[last]));
        assert(sent.last() == Happening::Put(Seq::empty()));
        assert(send_loop::put(sent) =~= send_loop::put(before));
        let written = send_loop::written(sent);
        assert(asked.subrange(0, written.len() as int) =~= written);
        assert forall|i: int, j: int|
            #![trigger sent[i], sent[j]]
            0 <= i < j < sent.len() && sent[i] is Timer && sent[j] is Timer implies exists|k: int|
            i < k < j && #[trigger] sent[k] is Flushed by {
            assert(before[i] == sent[i] && before[j] == sent[j]);
            let k = choose|k: int| i < k < j && #[trigger] before[k] is Flushed;
            assert(sent[k] == before[k]);
        }
    }
}

} // verus!
