//! When what waits in a buffer is written to the stream.
//!
//! The loop that sends waits for events, for its timer or for a write, whatever goes on. What an
//! event puts in the buffer is written out when the timer goes off, so that more can gather
//! meanwhile.
use vstd::prelude::*;

verus! {

#[derive(Debug, Clone, Copy, PartialEq, Eq, Structural)]
pub enum State {
    /// The buffer is empty, and the loop waits for events.
    Solicit,
    /// The buffer holds data, and the timer runs.
    Timer,
    /// A write is under way, and the stream is not at hand.
    Flush,
}

/// What the loop that sends is to do next, besides waiting.
#[derive(Debug, Clone, Copy, PartialEq, Eq, Structural)]
pub enum Action {
    Wait,
    /// Start the timer.
    ArmTimer,
    /// Write out what the buffer holds.
    StartFlush,
}

/// What the loop that sends waits for.
#[derive(Debug, Clone, Copy, PartialEq, Eq, Structural)]
pub struct Waits {
    pub timer: bool,
    pub flush: bool,
}

impl State {
    /// Data never waits in the buffer without a timer or a write that comes before it.
    pub open spec fn keeps(self, buf_is_empty: bool) -> bool {
        self == State::Solicit ==> buf_is_empty
    }

    pub open spec fn waiting(self) -> Waits {
        Waits { timer: self == State::Timer, flush: self == State::Flush }
    }

    /// The timer is waited for while data gathers, a write while it is under way.
    pub fn waits(&self) -> (w: Waits)
        ensures
            w == self.waiting(),
    {
        match self {
            State::Solicit => Waits { timer: false, flush: false },
            State::Timer => Waits { timer: true, flush: false },
            State::Flush => Waits { timer: false, flush: true },
        }
    }

    /// An event was handled; `armed` tells whether the timer is to run for what it left behind.
    pub fn on_event(&mut self, armed: bool) -> (action: Action)
        ensures
            *old(self) == State::Solicit && armed ==> *final(self) == State::Timer && action
                == Action::ArmTimer,
            !(*old(self) == State::Solicit && armed) ==> *final(self) == *old(self) && action
                == Action::Wait,
    {
        match self {
            State::Solicit => if armed {
                *self = State::Timer;
                Action::ArmTimer
            } else {
                Action::Wait
            },
            _ => Action::Wait,
        }
    }

    /// The timer went off.
    pub fn on_timer(&mut self) -> (action: Action)
        requires
            old(self).waiting().timer,
        ensures
            *final(self) == State::Flush,
            action == Action::StartFlush,
    {
        *self = State::Flush;
        Action::StartFlush
    }

    /// A write came to its end.
    pub fn on_flushed(&mut self, buf_is_empty: bool) -> (action: Action)
        requires
            old(self).waiting().flush,
        ensures
            buf_is_empty ==> *final(self) == State::Solicit && action == Action::Wait,
            !buf_is_empty ==> *final(self) == State::Timer && action == Action::ArmTimer,
            final(self).keeps(buf_is_empty),
    {
        if buf_is_empty {
            *self = State::Solicit;
            Action::Wait
        } else {
            *self = State::Timer;
            Action::ArmTimer
        }
    }
}

/// At most one of the timer and a write is waited for, and a write is started only while the
/// stream is at hand.
pub proof fn law_one_wait(state: State)
    ensures
        !(state.waiting().timer && state.waiting().flush),
        state.waiting().timer ==> !state.waiting().flush,
        state == State::Solicit <==> !state.waiting().timer && !state.waiting().flush,
{
}

/// What a loop that sends looks like from outside: its state, and the bytes that wait in its buffer.
#[verifier::ext_equal]
pub struct Sender {
    pub state: State,
    pub waiting: Seq<u8>,
}

/// Something that happens to a loop that sends.
pub enum Happening {
    /// Bytes are put in the buffer.
    Put(Seq<u8>),
    /// The timer goes off, and these bytes are written.
    Timer(Seq<u8>),
    /// The write has come to its end.
    Flushed,
}

/// What happens to the loop `before` makes it the loop `after`.
pub open spec fn happened(before: Sender, after: Sender, e: Happening) -> bool {
    match e {
        Happening::Put(bytes) => {
            &&& after.waiting == before.waiting + bytes
            &&& after.state == before.state || before.state == State::Solicit && after.state
                == State::Timer
        },
        Happening::Timer(bytes) => {
            &&& before.state == State::Timer
            &&& bytes == before.waiting
            &&& after.waiting == Seq::<u8>::empty()
            &&& after.state == State::Flush
        },
        Happening::Flushed => {
            &&& before.state == State::Flush
            &&& after.waiting == before.waiting
            &&& after.state == (if before.waiting.len() == 0 {
                State::Solicit
            } else {
                State::Timer
            })
        },
    }
}

/// `senders` is the loop at first and after each thing that happened.
pub open spec fn run(senders: Seq<Sender>, events: Seq<Happening>) -> bool {
    &&& senders.len() == events.len() + 1
    &&& forall|i: int|
        0 <= i < events.len() ==> happened(#[trigger] senders[i], senders[i + 1], events[i])
}

/// All bytes that were put in the buffer, in their order.
pub open spec fn put(events: Seq<Happening>) -> Seq<u8>
    decreases events.len(),
{
    if events.len() == 0 {
        Seq::empty()
    } else {
        match events.last() {
            Happening::Put(bytes) => put(events.drop_last()) + bytes,
            _ => put(events.drop_last()),
        }
    }
}

/// All bytes that were handed to be written, in the order of the writes.
pub open spec fn written(events: Seq<Happening>) -> Seq<u8>
    decreases events.len(),
{
    if events.len() == 0 {
        Seq::empty()
    } else {
        match events.last() {
            Happening::Timer(bytes) => written(events.drop_last()) + bytes,
            _ => written(events.drop_last()),
        }
    }
}

/// Between any two writes the first comes to its end.
pub open spec fn one_at_a_time(events: Seq<Happening>) -> bool {
    forall|i: int, j: int|
        #![trigger events[i], events[j]]
        0 <= i < j < events.len() && events[i] is Timer && events[j] is Timer ==> exists|k: int|
            i < k < j && #[trigger] events[k] is Flushed
}

/// Whatever happens to a loop that sends, what was written and what still waits is all that was ever
/// put in its buffer, in that order, and no write starts before the one before it has come to its
/// end.
pub proof fn law_writes_in_order(senders: Seq<Sender>, events: Seq<Happening>)
    requires
        run(senders, events),
    ensures
        written(events) + senders.last().waiting == senders[0].waiting + put(events),
        one_at_a_time(events),
{
    lemma_nothing_lost(senders, events);
    assert forall|i: int, j: int|
        #![trigger events[i], events[j]]
        0 <= i < j < events.len() && events[i] is Timer && events[j] is Timer implies exists|k: int|
        i < k < j && #[trigger] events[k] is Flushed by {
        assert(happened(senders[j], senders[j + 1], events[j]));
        lemma_write_pending(senders, events, i, j);
    }
}

proof fn lemma_nothing_lost(senders: Seq<Sender>, events: Seq<Happening>)
    requires
        run(senders, events),
    ensures
        written(events) + senders.last().waiting == senders[0].waiting + put(events),
    decreases events.len(),
{
    if events.len() == 0 {
        assert(written(events) + senders.last().waiting =~= senders[0].waiting + put(events));
    } else {
        let fewer = events.drop_last();
        let earlier = senders.drop_last();
        assert forall|i: int| 0 <= i < fewer.len() implies happened(
            #[trigger] earlier[i],
            earlier[i + 1],
            fewer[i],
        ) by {
            assert(earlier[i] == senders[i]);
        }
        lemma_nothing_lost(earlier, fewer);
        let last = events.len() - 1;
        assert(happened(senders[last], senders[last + 1], events[last]));
        lemma_step(
            written(fewer),
            put(fewer),
            senders[0].waiting,
            senders[last],
            senders[last + 1],
            events[last],
        );
    }
}

proof fn lemma_step(
    written: Seq<u8>,
    put: Seq<u8>,
    first: Seq<u8>,
    before: Sender,
    after: Sender,
    e: Happening,
)
    requires
        written + before.waiting == first + put,
        happened(before, after, e),
    ensures
        ({
            let written2 = match e {
                Happening::Timer(bytes) => written + bytes,
                _ => written,
            };
            let put2 = match e {
                Happening::Put(bytes) => put + bytes,
                _ => put,
            };
            written2 + after.waiting == first + put2
        }),
{
    match e {
        Happening::Put(bytes) => {
            assert(written + (before.waiting + bytes) =~= (written + before.waiting) + bytes);
            assert((first + put) + bytes =~= first + (put + bytes));
        },
        Happening::Timer(bytes) => {
            assert((written + bytes) + Seq::<u8>::empty() =~= written + before.waiting);
        },
        Happening::Flushed => {},
    }
}

/// A write is under way until it comes to its end.
proof fn lemma_write_pending(senders: Seq<Sender>, events: Seq<Happening>, i: int, j: int)
    requires
        run(senders, events),
        0 <= i < j < events.len(),
        events[i] is Timer,
        senders[j].state != State::Flush,
    ensures
        exists|k: int| i < k < j && #[trigger] events[k] is Flushed,
    decreases j - i,
{
    assert(happened(senders[j - 1], senders[j], events[j - 1]));
    if j - 1 == i {
        assert(false);
    } else if events[j - 1] is Flushed {
    } else {
        assert(senders[j - 1].state != State::Flush);
        lemma_write_pending(senders, events, i, j - 1);
        let k = choose|k: int| i < k < j - 1 && #[trigger] events[k] is Flushed;
        assert(events[k] is Flushed);
    }
}

} // verus!
