//! Who gets the work of a host controller, told by the fields of the work.
use crate::dev;
use crate::dev::demux::{Demuxer, Event};
use crate::dev::Mailer;
use crate::usb::{IocUrb, PortStat, UrbHandle, UrbType, Work};
use vstd::prelude::*;

verus! {

/// A control block is for the port whose number is one more than the low byte of its index.
pub proof fn law_port_of_control_block(urb: IocUrb)
    requires
        urb.setup_packet.w_index % 256 < 255,
    ensures
        1 <= dev::ctrl_port(urb) <= 255,
        (urb.setup_packet.w_index - (dev::ctrl_port(urb) - 1)) % 256 == 0,
{
}

/// A port and a request block have the sender that their place in the line tells, and none where they
/// have no place.
pub proof fn law_senders_are_found<T: Copy>(m: Mailer<T>, port: u8, handle: UrbHandle)
    requires
        m.wf(),
    ensures
        m.by_port(port) is Some <==> m.port_to_work@.contains_key(port),
        m.port_to_work@.contains_key(port) ==> m.by_port(port) == Some(
            m.work_line@[m.port_to_work@[port] as int],
        ),
        m.by_handle(handle) is Some <==> m.handle_to_work@.contains_key(handle.0),
        m.handle_to_work@.contains_key(handle.0) ==> m.by_handle(handle) == Some(
            m.work_line@[m.handle_to_work@[handle.0] as int],
        ),
{
}

/// A change of a port goes to the sender of that port, a cancel and a block that is no control block to
/// the sender that the block has, and a control block to the sender of the port that it names.
pub proof fn law_work_goes_to_device<T: Copy>(
    d: Demuxer<T>,
    stat: PortStat,
    urb: IocUrb,
    handle: UrbHandle,
    port: u8,
)
    requires
        port == urb.setup_packet.w_index % 256 + 1,
    ensures
        d.sender_of(Work::PortStat(stat)) == d.mailer.by_port(stat.index),
        d.sender_of(Work::CancelUrb(handle)) == d.mailer.by_handle(handle),
        urb.typ != UrbType::Ctrl ==> d.sender_of(Work::ProcessUrb(urb, handle))
            == d.mailer.by_handle(handle),
        urb.typ == UrbType::Ctrl ==> d.sender_of(Work::ProcessUrb(urb, handle))
            == d.mailer.by_port(port),
{
}

/// A control block that was seen for the first time is cancelled where it went, and every other block,
/// and every port, has the sender that it had.
pub proof fn law_cancel_follows_control_block<T: Copy>(
    before: Demuxer<T>,
    after: Demuxer<T>,
    urb: IocUrb,
    handle: UrbHandle,
    other: UrbHandle,
    port: u8,
)
    requires
        before.wf(),
        before.seen(after, Work::ProcessUrb(urb, handle)),
        urb.typ == UrbType::Ctrl,
        urb.setup_packet.w_index % 256 < 255,
        other.0 != handle.0,
    ensures
        before.mailer.by_handle(handle) is None ==> after.sender_of(Work::CancelUrb(handle))
            == before.sender_of(Work::ProcessUrb(urb, handle)),
        before.mailer.by_handle(handle) is Some ==> after.mailer.by_handle(handle)
            == before.mailer.by_handle(handle),
        after.mailer.by_handle(other) == before.mailer.by_handle(other),
        after.mailer.by_port(port) == before.mailer.by_port(port),
{
}

/// Other work that was seen changes no sender.
pub proof fn law_other_work_changes_nothing<T: Copy>(
    before: Demuxer<T>,
    after: Demuxer<T>,
    work: Work,
    handle: UrbHandle,
    port: u8,
)
    requires
        before.seen(after, work),
        !(work matches Work::ProcessUrb(urb, _) && urb.typ == UrbType::Ctrl),
    ensures
        after.mailer.by_handle(handle) == before.mailer.by_handle(handle),
        after.mailer.by_port(port) == before.mailer.by_port(port),
        after.mailer.work_line@ == before.mailer.work_line@,
{
}

/// The work for a port goes to whoever plugged the device in, and that of every other port, and every
/// block, to the sender that it had.
pub proof fn law_plugged_device_gets_work<T: Copy>(
    before: Demuxer<T>,
    after: Demuxer<T>,
    port: u8,
    tx: T,
    other: u8,
    handle: UrbHandle,
)
    requires
        before.wf(),
        after.wf(),
        before.plugged_in(after, port, tx),
        before.mailer.work_line@.len() < usize::MAX,
        other != port,
    ensures
        after.mailer.by_port(port) == Some(tx),
        after.mailer.by_port(other) == before.mailer.by_port(other),
        after.mailer.by_handle(handle) == before.mailer.by_handle(handle),
{
    assert(before.mailer.work_line@.len() == before.mailer.work_line.len());
}

/// The work for a port with an unplugged device goes to nobody, and that of every other port to the sender
/// that it had. Where no device was on the port, nothing changes.
pub proof fn law_unplugged_device_gets_none<T: Copy>(
    before: Demuxer<T>,
    after: Demuxer<T>,
    port: u8,
    other: u8,
    handle: UrbHandle,
)
    requires
        before.wf(),
        before.unplugged(after, port),
        other != port,
    ensures
        after.mailer.by_port(port) is None,
        after.mailer.by_port(other) == before.mailer.by_port(other),
        before.mailer.by_port(port) is None ==> after.mailer.by_handle(handle)
            == before.mailer.by_handle(handle),
        after.mailer.by_handle(handle) == before.mailer.by_handle(handle) || (
        before.mailer.by_handle(handle) == before.mailer.by_port(port)
            && after.mailer.by_handle(handle) is None),
        after.wf(),
{
    if before.mailer.port_to_work@.contains_key(port) {
        dev::law_other_ports_keep_senders(before.mailer, after.mailer, port);
        dev::law_others_keep_senders(
            before.mailer,
            after.mailer,
            before.mailer.port_to_work@[port],
        );
        assert(after.mailer.by_handle(handle) == after.mailer.by_handle(handle));
    }
}

/// Nothing is known where two mailers are the same that is not known in the other.
pub proof fn law_same_senders<T: Copy>(a: Mailer<T>, b: Mailer<T>, port: u8, handle: UrbHandle)
    requires
        a.same(b),
    ensures
        a.by_port(port) == b.by_port(port),
        a.by_handle(handle) == b.by_handle(handle),
        a.work_line@ == b.work_line@,
        a.wf() <==> b.wf(),
{
}

/// Every event is possible but a control block for a port whose number a byte cannot hold.
pub proof fn law_possible_events<E, T: Copy>(event: Event<E, T>)
    ensures
        !Demuxer::<T>::possible(event) <==> (event matches Event::Work(Work::ProcessUrb(urb, _))
            && urb.typ == UrbType::Ctrl && (urb.setup_packet.w_index - 255) % 256 == 0),
{
}

/// Where nobody listens to a sender any more, the first such sender in the line is taken away, from its
/// port and its blocks. Every other port and block keeps its sender, and where all are listened to, all do.
pub proof fn law_unheard_sender_is_taken_away<T: Copy, F: Fn(&T) -> bool>(
    before: Mailer<T>,
    after: Mailer<T>,
    same: F,
    unheard: spec_fn(T) -> bool,
    at: usize,
    port: u8,
    handle: UrbHandle,
)
    requires
        before.wf(),
        before.first_removed(after, same),
        forall|t: &T, b: bool| #[trigger] same.ensures((t,), b) ==> b == unheard(*t),
        forall|j: int| 0 <= j < at ==> !unheard(#[trigger] before.work_line@[j]),
        at <= before.work_line@.len(),
        at < before.work_line@.len() ==> unheard(before.work_line@[at as int]),
    ensures
        after.by_port(port) == (if before.port_to_work@.contains_key(port)
            && before.port_to_work@[port] == at {
            None
        } else {
            before.by_port(port)
        }),
        after.by_handle(handle) == (if before.handle_to_work@.contains_key(handle.0)
            && before.handle_to_work@[handle.0] == at {
            None
        } else {
            before.by_handle(handle)
        }),
{
    if at < before.work_line@.len() {
        let x = before.work_line@[at as int];
        if before.same(after) && forall|j: int|
            0 <= j < before.work_line@.len() ==> same.ensures(
                (&#[trigger] before.work_line@[j],),
                false,
            ) {
            assert(same.ensures((&before.work_line@[at as int],), false));
            assert(false);
        }
        let i = choose|i: usize|
            i < before.work_line@.len() && #[trigger] before.removed(after, i) && same.ensures(
                (&before.work_line@[i as int],),
                true,
            ) && forall|j: int|
                0 <= j < i ==> same.ensures((&#[trigger] before.work_line@[j],), false);
        assert(unheard(before.work_line@[i as int]));
        if at < i {
            assert(same.ensures((&before.work_line@[at as int],), false));
        }
        assert(i == at);
        dev::law_others_keep_senders(before, after, i);
        assert(after.by_handle(handle) == after.by_handle(handle));
    } else {
        assert forall|i: usize|
            i < before.work_line@.len() && #[trigger] before.removed(after, i) implies !same.ensures(
            (&before.work_line@[i as int],),
            true,
        ) by {
            assert(!unheard(before.work_line@[i as int]));
        }
        assert(before.same(after));
    }
}

} // verus!
