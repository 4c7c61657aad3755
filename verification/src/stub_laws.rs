//! Which device work is for, told by the fields of the work and by the lookups before and after it.
use crate::stub;
use crate::stub::{Happening, Routing};
use crate::usb::{IocUrb, PortStat, UrbHandle, UrbType, Work};
use crate::utils::three_key_map::Links;
use vstd::prelude::*;

verus! {

/// A port has come out of a reset that enabled it; a block is for the device without an address where it is
/// a control block to address zero, and sets that address where it asks the default endpoint to.
pub proof fn law_which_work(stat: PortStat, urb: IocUrb)
    ensures
        stub::reset_done(stat) <==> stat.reset_changed && stat.enable && !stat.reset,
        stub::for_unassigned(urb) <==> urb.typ == UrbType::Ctrl && urb.address == 0,
        stub::assigns_address(urb) <==> urb.typ == UrbType::Ctrl && urb.address == 0 && (
        urb.endpoint.0 % 16 == 0) && urb.setup_packet.bm_request_type == 0
            && urb.setup_packet.b_request == 5,
        (urb.setup_packet.w_value - stub::new_address(urb)) % 256 == 0,
        urb.setup_packet.w_value < 256 ==> stub::new_address(urb) == urb.setup_packet.w_value,
{
}

/// A change of a port goes to the receiver of that port. A port that came out of a reset waits, behind the
/// others, for an address, and only once; any other change touches nothing.
pub proof fn law_port_work<T>(queue: Seq<u8>, links: Links<u8, u8, u64, T>, stat: PortStat)
    requires
        links.wf(),
    ensures
        ({
            let (queue2, links2, receiver) = stub::routed(queue, links, Work::PortStat(stat));
            let out = stat.reset_changed && stat.enable && !stat.reset;
            &&& receiver == links.get1(stat.index)
            &&& out && !queue.contains(stat.index) ==> queue2 == queue.push(stat.index)
            &&& !out || queue.contains(stat.index) ==> queue2 == queue && links2 == links
            &&& out ==> queue2.contains(stat.index)
            &&& links2.get1(stat.index) == links.get1(stat.index)
        }),
{
    if !queue.contains(stat.index) {
        assert(queue.push(stat.index)[queue.len() as int] == stat.index);
    }
    if stub::reset_done(stat) && !queue.contains(stat.index) {
        if links.keys1.contains_key(stat.index) {
            stub::law_reset_unlinks_port(queue, links, stat);
        }
    }
}

/// A control block for the device without an address goes to the port that waits longest, without setting
/// an address; the port goes on waiting, and the block is found by its name.
pub proof fn law_unassigned_work<T>(
    queue: Seq<u8>,
    links: Links<u8, u8, u64, T>,
    urb: IocUrb,
    handle: UrbHandle,
)
    requires
        links.wf(),
        queue.len() > 0,
        urb.typ == UrbType::Ctrl,
        urb.address == 0,
        !(urb.endpoint.0 % 16 == 0 && urb.setup_packet.bm_request_type == 0
            && urb.setup_packet.b_request == 5),
        stub::routable(queue, links, Work::ProcessUrb(urb, handle)),
    ensures
        ({
            let (queue2, links2, receiver) = stub::routed(
                queue,
                links,
                Work::ProcessUrb(urb, handle),
            );
            &&& queue2 == queue
            &&& receiver is Some
            &&& receiver == links.get1(queue[0])
            &&& links2.get3(handle.0) == receiver
            &&& forall|p: u8| #[trigger] links2.get1(p) == links.get1(p)
            &&& forall|a: u8| #[trigger] links2.get2(a) == links.get2(a)
            &&& forall|h: u64| h != handle.0 ==> #[trigger] links2.get3(h) == links.get3(h)
        }),
{
    links.lemma_link3_to1(handle.0, queue[0]);
}

/// Any other block goes to the device with the block's address, and is found by its name.
pub proof fn law_addressed_work<T>(
    queue: Seq<u8>,
    links: Links<u8, u8, u64, T>,
    urb: IocUrb,
    handle: UrbHandle,
)
    requires
        links.wf(),
        queue.len() == 0 || urb.typ != UrbType::Ctrl || urb.address != 0,
        !links.keys3.contains_key(handle.0),
        stub::routable(queue, links, Work::ProcessUrb(urb, handle)),
    ensures
        ({
            let (queue2, links2, receiver) = stub::routed(
                queue,
                links,
                Work::ProcessUrb(urb, handle),
            );
            &&& queue2 == queue
            &&& receiver is Some
            &&& receiver == links.get2(urb.address)
            &&& links2.get3(handle.0) == receiver
            &&& forall|p: u8| #[trigger] links2.get1(p) == links.get1(p)
            &&& forall|a: u8| #[trigger] links2.get2(a) == links.get2(a)
            &&& forall|h: u64| h != handle.0 ==> #[trigger] links2.get3(h) == links.get3(h)
        }),
{
    links.lemma_link3_to2(handle.0, urb.address);
}

/// A cancel goes to the receiver of the block, and the block is forgotten; nothing else is.
pub proof fn law_cancel_work<T>(
    queue: Seq<u8>,
    links: Links<u8, u8, u64, T>,
    handle: UrbHandle,
)
    requires
        links.wf(),
    ensures
        ({
            let (queue2, links2, receiver) = stub::routed(queue, links, Work::CancelUrb(handle));
            &&& queue2 == queue
            &&& receiver == links.get3(handle.0)
            &&& links2.get3(handle.0) is None
            &&& forall|p: u8| #[trigger] links2.get1(p) == links.get1(p)
            &&& forall|a: u8| #[trigger] links2.get2(a) == links.get2(a)
            &&& forall|h: u64| h != handle.0 ==> #[trigger] links2.get3(h) == links.get3(h)
        }),
{
    stub::law_giveback_forgets_block(links, handle);
}

/// Which work can be routed: every change of a port and every cancel; a block for a port or an address that
/// is known and to which one key more can be linked, or two where an address of seven bits is set.
pub proof fn law_routable<T>(
    queue: Seq<u8>,
    links: Links<u8, u8, u64, T>,
    stat: PortStat,
    urb: IocUrb,
    handle: UrbHandle,
)
    requires
        links.wf(),
    ensures
        stub::routable(queue, links, Work::PortStat(stat)),
        stub::routable(queue, links, Work::CancelUrb(handle)),
        ({
            let unassigned = urb.typ == UrbType::Ctrl && urb.address == 0 && queue.len() > 0;
            let assigns = urb.endpoint.0 % 16 == 0 && urb.setup_packet.bm_request_type == 0
                && urb.setup_packet.b_request == 5;
            let port = queue[0];
            let known = links.keys3.contains_key(handle.0);
            let count1 = links.values[links.keys1[port] as int].1;
            let count2 = links.values[links.keys2[urb.address] as int].1;
            let routable = stub::routable(queue, links, Work::ProcessUrb(urb, handle));
            &&& unassigned && assigns ==> (routable <==> urb.setup_packet.w_value % 256 < 128
                && links.keys1.contains_key(port) && count1 + 2 <= usize::MAX && !known)
            &&& unassigned && !assigns ==> (routable <==> links.keys1.contains_key(port) && count1
                < usize::MAX && !known)
            &&& !unassigned ==> (routable <==> known || (links.keys2.contains_key(urb.address)
                && count2 < usize::MAX))
        }),
{
}

/// Whatever is plugged in, given back or asked for, what the demultiplexer knows changes as each of its
/// functions says.
pub proof fn law_routing_follows<T>(
    s: Routing<T>,
    port: u8,
    receiver: T,
    handle: UrbHandle,
    work: Work,
)
    requires
        s.links.wf(),
        !s.links.keys1.contains_key(port),
        s.links.values.len() < usize::MAX,
    ensures
        s.allows(Happening::Registered(port, receiver)),
        s.allows(Happening::Unregistered(port)),
        s.allows(Happening::GivenBack(handle)),
        s.next(Happening::Registered(port, receiver)).links.get1(port) == Some(receiver),
        s.next(Happening::Registered(port, receiver)).queue == s.queue,
        forall|p: u8|
            p != port ==> #[trigger] s.next(Happening::Registered(port, receiver)).links.get1(p)
                == s.links.get1(p),
        s.next(Happening::Unregistered(port)).queue == s.queue,
        s.next(Happening::GivenBack(handle)).queue == s.queue,
        s.next(Happening::GivenBack(handle)).links.get3(handle.0) is None,
        (s.next(Happening::Work(work)).queue, s.next(Happening::Work(work)).links) == (
            stub::routed(s.queue, s.links, work).0,
            stub::routed(s.queue, s.links, work).1,
        ),
        s.after(Seq::empty()) == s,
        s.after(seq![Happening::Work(work)]) == s.next(Happening::Work(work)),
{
    s.links.lemma_insert1(port, receiver);
    assert forall|p: u8|
        p != port implies #[trigger] s.next(Happening::Registered(port, receiver)).links.get1(p)
        == s.links.get1(p) by {
        assert(s.links.insert1(port, receiver).get1(p) == s.links.get1(p));
    }
    stub::law_giveback_forgets_block(s.links, handle);
    let one = seq![Happening::<T>::Work(work)];
    assert(one.drop_last() =~= Seq::<Happening<T>>::empty());
    assert(s.after(one.drop_last()) == s);
}

/// A port that is taken away has no receiver more.
pub proof fn law_unregistered_port<T>(links: Links<u8, u8, u64, T>, port: u8)
    requires
        links.wf(),
    ensures
        links.remove1(port).get1(port) is None,
        forall|p: u8| p != port ==> #[trigger] links.remove1(port).get1(p) == links.get1(p),
{
    links.lemma_remove1(port);
    assert(!links.remove1(port).keys1.dom().contains(port));
}

} // verus!
