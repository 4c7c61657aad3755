//! Which device the work of a virtual host controller is for.
use crate::usb::{IocUrb, PortStat, UrbHandle, UrbType, Work};
use crate::utils::simple_map::SimpleMap;
use crate::utils::three_key_map;
use crate::utils::three_key_map::{LinkResult, Links, ThreeKeyMap};
use std::collections::VecDeque;
use vstd::prelude::*;

verus! {

broadcast use vstd::std_specs::hash::group_hash_axioms;

/// The ports of a virtual host controller, the addresses of the devices on them and the request
/// blocks that are under way, each with the receiver `T` of its port's work.
pub struct Demuxer<T> {
    /// The ports that were reset and wait for their devices to get addresses, first come first.
    pub register_queue: VecDeque<u8>,
    /// Receivers by port, address and request block.
    pub mailer: ThreeKeyMap<u8, u8, u64, T>,
}

/// The port came out of a reset.
pub open spec fn reset_done(stat: PortStat) -> bool {
    stat.reset_changed && !stat.reset && stat.enable
}

/// The endpoint is the one that every device has.
pub open spec fn anycast(urb: IocUrb) -> bool {
    urb.endpoint.0 % 16 == 0
}

/// The block sets the address of the device that waits for one.
pub open spec fn assigns_address(urb: IocUrb) -> bool {
    &&& urb.typ == UrbType::Ctrl
    &&& urb.address == 0
    &&& anycast(urb)
    &&& urb.setup_packet.bm_request_type == 0x00
    &&& urb.setup_packet.b_request == 5
}

/// The block is for the device that waits for an address.
pub open spec fn for_unassigned(urb: IocUrb) -> bool {
    urb.typ == UrbType::Ctrl && urb.address == 0
}

/// The address that a block sets.
pub open spec fn new_address(urb: IocUrb) -> u8 {
    (urb.setup_packet.w_value % 256) as u8
}

/// The state after some work was routed, and the receiver that the work is for.
pub open spec fn routed<T>(
    queue: Seq<u8>,
    links: Links<u8, u8, u64, T>,
    work: Work,
) -> (Seq<u8>, Links<u8, u8, u64, T>, Option<T>) {
    match work {
        Work::PortStat(stat) => {
            let waits = reset_done(stat) && !queue.contains(stat.index);
            let queue2 = if waits {
                queue.push(stat.index)
            } else {
                queue
            };
            let links2 = if waits {
                links.unlink_all_but1(stat.index)
            } else {
                links
            };
            (queue2, links2, links2.get1(stat.index))
        },
        Work::ProcessUrb(urb, handle) => if assigns_address(urb) && queue.len() > 0 {
            let links2 = links.remove2(0).link2_to1(new_address(urb), queue[0]).link3_to1(
                handle.0,
                queue[0],
            );
            (queue.drop_first(), links2, links2.get1(queue[0]))
        } else if for_unassigned(urb) && queue.len() > 0 {
            let links2 = links.link3_to1(handle.0, queue[0]);
            (queue, links2, links2.get1(queue[0]))
        } else {
            let links2 = links.link3_to2(handle.0, urb.address);
            (queue, links2, links2.get2(urb.address))
        },
        Work::CancelUrb(handle) => (queue, links.remove3(handle.0), links.get3(handle.0)),
    }
}

/// The work is for a device that is known, to which the keys that the work brings can be linked: a
/// host controller asks for nothing else.
pub open spec fn routable<T>(queue: Seq<u8>, links: Links<u8, u8, u64, T>, work: Work) -> bool {
    match work {
        Work::ProcessUrb(urb, handle) => if assigns_address(urb) && queue.len() > 0 {
            &&& new_address(urb) <= 127
            &&& has_room(links.keys1, links.values, queue[0], 2)
            &&& !links.keys3.contains_key(handle.0)
        } else if for_unassigned(urb) && queue.len() > 0 {
            &&& has_room(links.keys1, links.values, queue[0], 1)
            &&& !links.keys3.contains_key(handle.0)
        } else {
            links.keys3.contains_key(handle.0) || has_room(
                links.keys2,
                links.values,
                urb.address,
                1,
            )
        },
        _ => true,
    }
}

/// The key has a value that `more` keys can be linked to.
pub open spec fn has_room<T>(
    keys: Map<u8, usize>,
    values: Seq<(T, usize)>,
    k: u8,
    more: usize,
) -> bool {
    keys.contains_key(k) && keys[k] < values.len() && values[keys[k] as int].1 + more <= usize::MAX
}

fn room_for<T>(
    keys: &SimpleMap<u8, usize>,
    values: &Vec<(T, usize)>,
    k: u8,
    more: usize,
) -> (b: bool)
    ensures
        b == has_room(keys@, values@, k, more),
{
    match keys.get(&k) {
        Some(index) => *index < values.len() && values[*index].1 <= usize::MAX - more,
        None => false,
    }
}

fn queue_contains(queue: &VecDeque<u8>, port: u8) -> (b: bool)
    ensures
        b <==> queue@.contains(port),
{
    let n: usize = queue.len();
    let mut i: usize = 0;
    while i < n
        invariant
            n == queue@.len(),
            i <= n,
            forall|j: int| 0 <= j < i ==> queue@[j] != port,
        decreases n - i,
    {
        if queue[i] == port {
            return true;
        }
        i = i + 1;
    }
    false
}

impl<T: Copy> Demuxer<T> {
    pub open spec fn wf(&self) -> bool {
        self.mailer.wf()
    }

    pub fn new() -> (d: Self)
        ensures
            d.wf(),
            d.register_queue@ == Seq::<u8>::empty(),
            d.mailer@ == (Links {
                keys1: Map::<u8, usize>::empty(),
                keys2: Map::<u8, usize>::empty(),
                keys3: Map::<u64, usize>::empty(),
                values: Seq::<(T, usize)>::empty(),
            }),
    {
        Demuxer {
            register_queue: VecDeque::new(),
            mailer: ThreeKeyMap::with_capacities(8, 8, 10, 1024),
        }
    }

    /// A device was plugged into a port that had none.
    pub fn on_registered(&mut self, port: u8, receiver: T)
        requires
            old(self).wf(),
            !old(self).mailer@.keys1.contains_key(port),
            old(self).mailer@.values.len() < usize::MAX,
        ensures
            final(self).wf(),
            final(self).register_queue@ == old(self).register_queue@,
            final(self).mailer@ == old(self).mailer@.insert1(port, receiver),
            final(self).mailer@.get1(port) == Some(receiver),
    {
        let _ = self.mailer.insert_by_key1(port, receiver);
        proof {
            three_key_map::law_insert_by_key1(old(self).mailer, self.mailer, port, receiver);
        }
    }

    /// The device on a port could not be told to its borrower: the port is free again.
    pub fn on_unregistered(&mut self, port: u8)
        requires
            old(self).wf(),
        ensures
            final(self).wf(),
            final(self).register_queue@ == old(self).register_queue@,
            final(self).mailer@ == old(self).mailer@.remove1(port),
    {
        let r = self.mailer.remove_by_key1(&port);
        proof {
            three_key_map::law_remove_by_key1(old(self).mailer, self.mailer, port, r);
        }
    }

    /// A request block was given back.
    pub fn on_giveback(&mut self, handle: UrbHandle)
        requires
            old(self).wf(),
        ensures
            final(self).wf(),
            final(self).register_queue@ == old(self).register_queue@,
            final(self).mailer@ == old(self).mailer@.remove3(handle.0),
    {
        let r = self.mailer.remove_by_key3(&handle.0);
        proof {
            three_key_map::law_remove_by_key3(old(self).mailer, self.mailer, handle.0, r);
        }
    }

    /// Tells whether some work is for a device that is known.
    pub fn is_routable(&self, work: &Work) -> (b: bool)
        ensures
            b == routable(self.register_queue@, self.mailer@, *work),
    {
        match work {
            Work::ProcessUrb(urb, handle) => {
                let is_ctrl = matches!(urb.typ, UrbType::Ctrl);
                if is_ctrl && urb.address == 0 && self.register_queue.len() > 0 {
                    let assigns = urb.endpoint.0 % 16 == 0 && urb.setup_packet.bm_request_type
                        == 0x00 && urb.setup_packet.b_request == 5;
                    (!assigns || urb.setup_packet.w_value % 256 <= 127)
                        && room_for(
                        &self.mailer.key1_map,
                        &self.mailer.values,
                        self.register_queue[0],
                        if assigns {
                            2
                        } else {
                            1
                        },
                    ) && !self.mailer.key3_map.contains_key(&handle.0)
                } else {
                    self.mailer.key3_map.contains_key(&handle.0) || room_for(
                        &self.mailer.key2_map,
                        &self.mailer.values,
                        urb.address,
                        1,
                    )
                }
            },
            _ => true,
        }
    }

    /// Takes note of some work; gives the receiver that it is for, if there is one.
    pub fn route(&mut self, work: &Work) -> (receiver: Option<T>)
        requires
            old(self).wf(),
            routable(old(self).register_queue@, old(self).mailer@, *work),
        ensures
            final(self).wf(),
            (final(self).register_queue@, final(self).mailer@, receiver) == routed(
                old(self).register_queue@,
                old(self).mailer@,
                *work,
            ),
    {
        match work {
            Work::PortStat(stat) => self.route_port_stat(stat),
            Work::CancelUrb(handle) => {
                let receiver = match self.mailer.get_by_key3(&handle.0) {
                    Some(t) => Some(*t),
                    None => None,
                };
                self.on_giveback(*handle);
                receiver
            },
            Work::ProcessUrb(urb, handle) => {
                let is_ctrl = matches!(urb.typ, UrbType::Ctrl);
                if is_ctrl && urb.address == 0 && self.register_queue.len() > 0 {
                    let assigns = urb.endpoint.0 % 16 == 0 && urb.setup_packet.bm_request_type
                        == 0x00 && urb.setup_packet.b_request == 5;
                    if assigns {
                        self.assign_address(urb, handle)
                    } else {
                        let port: u8 = self.register_queue[0];
                        self.link_to_port(handle, port);
                        self.receiver_of_port(port)
                    }
                } else {
                    let _ = self.mailer.link_key3_to_key2(handle.0, &urb.address);
                    proof {
                        if !old(self).mailer@.keys3.contains_key(handle.0) {
                            three_key_map::law_link_key3(
                                old(self).mailer,
                                self.mailer,
                                handle.0,
                                old(self).mailer@.keys2[urb.address],
                            );
                        }
                    }
                    match self.mailer.get_by_key2(&urb.address) {
                        Some(t) => Some(*t),
                        None => None,
                    }
                }
            },
        }
    }

    fn receiver_of_port(&self, port: u8) -> (receiver: Option<T>)
        ensures
            receiver == self.mailer@.get1(port),
    {
        match self.mailer.get_by_key1(&port) {
            Some(t) => Some(*t),
            None => None,
        }
    }

    fn link_to_port(&mut self, handle: &UrbHandle, port: u8)
        requires
            old(self).wf(),
            !old(self).mailer@.keys3.contains_key(handle.0),
            old(self).mailer@.keys1.contains_key(port),
            three_key_map::linkable(old(self).mailer@.values, old(self).mailer@.keys1[port]),
        ensures
            final(self).wf(),
            final(self).register_queue@ == old(self).register_queue@,
            final(self).mailer@ == old(self).mailer@.link3_to1(handle.0, port),
    {
        let _ = self.mailer.link_key3_to_key1(handle.0, &port);
        proof {
            three_key_map::law_link_key3(
                old(self).mailer,
                self.mailer,
                handle.0,
                old(self).mailer@.keys1[port],
            );
        }
    }

    fn route_port_stat(&mut self, stat: &PortStat) -> (receiver: Option<T>)
        requires
            old(self).wf(),
        ensures
            final(self).wf(),
            (final(self).register_queue@, final(self).mailer@, receiver) == routed(
                old(self).register_queue@,
                old(self).mailer@,
                Work::PortStat(*stat),
            ),
    {
        if stat.reset_changed && !stat.reset && stat.enable && !queue_contains(
            &self.register_queue,
            stat.index,
        ) {
            self.register_queue.push_back(stat.index);
            self.mailer.unlink_all_but_key1(&stat.index);
            proof {
                if old(self).mailer@.keys1.contains_key(stat.index) {
                    three_key_map::law_unlink_all_but_key1(
                        old(self).mailer,
                        self.mailer,
                        stat.index,
                    );
                }
            }
        }
        self.receiver_of_port(stat.index)
    }

    fn assign_address(&mut self, urb: &IocUrb, handle: &UrbHandle) -> (receiver: Option<T>)
        requires
            old(self).wf(),
            assigns_address(*urb),
            old(self).register_queue@.len() > 0,
            routable(
                old(self).register_queue@,
                old(self).mailer@,
                Work::ProcessUrb(*urb, *handle),
            ),
        ensures
            final(self).wf(),
            (final(self).register_queue@, final(self).mailer@, receiver) == routed(
                old(self).register_queue@,
                old(self).mailer@,
                Work::ProcessUrb(*urb, *handle),
            ),
    {
        let address: u8 = (urb.setup_packet.w_value % 256) as u8;
        let port: u8 = self.register_queue[0];
        let _ = self.register_queue.pop_front();
        assert(self.register_queue@ =~= old(self).register_queue@.drop_first());
        let ghost m0 = self.mailer;
        let r = self.mailer.remove_by_key2(&0);
        let ghost m1 = self.mailer;
        proof {
            three_key_map::law_remove_by_key2(m0, m1, 0, r);
            lemma_remove2(m0, m1, r, port);
        }
        let linked = self.mailer.link_key2_to_key1(address, &port);
        let ghost m2 = self.mailer;
        proof {
            if linked == LinkResult::Success {
                three_key_map::law_link_key2(m1, m2, address, m1@.keys1[port]);
            }
        }
        self.link_to_port(handle, port);
        self.receiver_of_port(port)
    }

    /// The ports with devices, each once; they are disconnected at the end.
    pub fn leftover_ports(&self) -> (ports: Vec<u8>)
        ensures
            ports@.no_duplicates(),
            ports@.to_set() == self.mailer@.keys1.dom(),
    {
        self.mailer.key1_iter()
    }
}

/// The device that waited longest for an address is found by the address that a block sets: the
/// block is for it, and so is what is later asked of that address. Ports, other request blocks and
/// other addresses, but for the address of no device, have the receivers that they had.
pub proof fn law_address_follows_port<T>(
    queue: Seq<u8>,
    links: Links<u8, u8, u64, T>,
    urb: IocUrb,
    handle: UrbHandle,
)
    requires
        links.wf(),
        queue.len() > 0,
        assigns_address(urb),
        routable(queue, links, Work::ProcessUrb(urb, handle)),
        new_address(urb) == 0 || !links.keys2.contains_key(new_address(urb)),
    ensures
        ({
            let (queue2, links2, receiver) = routed(queue, links, Work::ProcessUrb(urb, handle));
            &&& queue2 == queue.drop_first()
            &&& receiver is Some
            &&& receiver == links.get1(queue[0])
            &&& links2.get2(new_address(urb)) == receiver
            &&& links2.get3(handle.0) == receiver
            &&& forall|port: u8| #[trigger] links2.get1(port) == links.get1(port)
            &&& forall|a: u8|
                a != 0 && a != new_address(urb) ==> #[trigger] links2.get2(a) == links.get2(a)
            &&& forall|h: u64| h != handle.0 ==> #[trigger] links2.get3(h) == links.get3(h)
        }),
{
    let port = queue[0];
    let address = new_address(urb);
    links.lemma_remove2(0);
    let removed = links.remove2(0);
    assert(removed.get1(port) == links.get1(port));
    assert(removed.keys1.dom().contains(port));
    assert(!removed.keys2.dom().contains(address));
    let linked = removed.link2_to1(address, port);
    let links2 = linked.link3_to1(handle.0, port);
    assert(links2 == routed(queue, links, Work::ProcessUrb(urb, handle)).1);
    assert forall|p: u8| #[trigger] links2.get1(p) == links.get1(p) by {
        assert(removed.get1(p) == links.get1(p));
    }
    assert forall|a: u8| a != 0 && a != address implies #[trigger] links2.get2(a) == links.get2(
        a,
    ) by {
        assert(removed.get2(a) == links.get2(a));
    }
    assert(!removed.keys3.dom().contains(handle.0));
    assert forall|h: u64| h != handle.0 implies #[trigger] links2.get3(h) == links.get3(h) by {
        assert(removed.get3(h) == links.get3(h));
    }
}

/// A request block that is under way is cancelled where it went, and is then forgotten.
pub proof fn law_cancel_follows_block<T>(
    queue: Seq<u8>,
    links: Links<u8, u8, u64, T>,
    urb: IocUrb,
    handle: UrbHandle,
)
    requires
        links.wf(),
        routable(queue, links, Work::ProcessUrb(urb, handle)),
        !links.keys3.contains_key(handle.0),
    ensures
        ({
            let (queue2, links2, receiver) = routed(queue, links, Work::ProcessUrb(urb, handle));
            let (queue3, links3, canceller) = routed(queue2, links2, Work::CancelUrb(handle));
            &&& receiver is Some
            &&& canceller == receiver
            &&& queue3 == queue2
            &&& links3.get3(handle.0) is None
        }),
{
    links.lemma_remove2(0);
    let (queue2, links2, receiver) = routed(queue, links, Work::ProcessUrb(urb, handle));
    if assigns_address(urb) && queue.len() > 0 {
        assert(links.remove2(0).get1(queue[0]) == links.get1(queue[0]));
        assert(links.remove2(0).keys1.dom().contains(queue[0]));
        assert(!links.remove2(0).keys3.dom().contains(handle.0));
    }
    assert(links2.get3(handle.0) == receiver);
    assert(!links2.remove3(handle.0).keys3.contains_key(handle.0));
}

/// A request block that was given back is forgotten; everything else is found as it was.
pub proof fn law_giveback_forgets_block<T>(links: Links<u8, u8, u64, T>, handle: UrbHandle)
    requires
        links.wf(),
    ensures
        links.remove3(handle.0).get3(handle.0) is None,
        forall|port: u8| #[trigger] links.remove3(handle.0).get1(port) == links.get1(port),
        forall|a: u8| #[trigger] links.remove3(handle.0).get2(a) == links.get2(a),
        forall|h: u64|
            h != handle.0 ==> #[trigger] links.remove3(handle.0).get3(h) == links.get3(h),
{
    links.lemma_remove3(handle.0);
    assert(!links.remove3(handle.0).keys3.dom().contains(handle.0));
}

/// A port that comes out of a reset waits for an address and keeps its receiver; neither an address
/// nor a request block leads to it any more, and the ports with values of their own keep theirs.
pub proof fn law_reset_unlinks_port<T>(
    queue: Seq<u8>,
    links: Links<u8, u8, u64, T>,
    stat: PortStat,
)
    requires
        links.wf(),
        reset_done(stat),
        !queue.contains(stat.index),
        links.keys1.contains_key(stat.index),
    ensures
        ({
            let (queue2, links2, receiver) = routed(queue, links, Work::PortStat(stat));
            let at = links.keys1[stat.index];
            &&& queue2 == queue.push(stat.index)
            &&& receiver == links.get1(stat.index)
            &&& forall|port: u8|
                port == stat.index || links.keys1[port] != at ==> #[trigger] links2.get1(port)
                    == links.get1(port)
            &&& forall|a: u8|
                #[trigger] links2.get2(a) == if links.keys2[a] == at {
                    None
                } else {
                    links.get2(a)
                }
            &&& forall|h: u64|
                #[trigger] links2.get3(h) == if links.keys3[h] == at {
                    None
                } else {
                    links.get3(h)
                }
        }),
{
}

/// Something that happens to the demultiplexer.
pub enum Happening<T> {
    /// A device was plugged into the port.
    Registered(u8, T),
    /// The device on the port could not be told to its borrower.
    Unregistered(u8),
    /// A request block was given back.
    GivenBack(UrbHandle),
    /// The host controller asks for something.
    Work(Work),
}

/// What the demultiplexer knows.
#[verifier::ext_equal]
#[verifier::reject_recursive_types(T)]
pub struct Routing<T> {
    pub queue: Seq<u8>,
    pub links: Links<u8, u8, u64, T>,
}

impl<T> Routing<T> {
    /// What the demultiplexer does can be done.
    pub open spec fn allows(self, e: Happening<T>) -> bool {
        match e {
            Happening::Registered(port, _) => !self.links.keys1.contains_key(port)
                && self.links.values.len() < usize::MAX,
            Happening::Work(work) => routable(self.queue, self.links, work),
            _ => true,
        }
    }

    /// What the demultiplexer knows afterwards.
    pub open spec fn next(self, e: Happening<T>) -> Routing<T> {
        match e {
            Happening::Registered(port, receiver) => Routing {
                links: self.links.insert1(port, receiver),
                ..self
            },
            Happening::Unregistered(port) => Routing { links: self.links.remove1(port), ..self },
            Happening::GivenBack(handle) => Routing { links: self.links.remove3(handle.0), ..self },
            Happening::Work(work) => {
                let (queue, links, _) = routed(self.queue, self.links, work);
                Routing { queue, links }
            },
        }
    }

    /// What the demultiplexer knows after all these things, one after the other.
    pub open spec fn after(self, events: Seq<Happening<T>>) -> Routing<T>
        decreases events.len(),
    {
        if events.len() == 0 {
            self
        } else {
            self.after(events.drop_last()).next(events.last())
        }
    }

    /// What the demultiplexer knows before the thing at `i` happens.
    pub open spec fn before(self, events: Seq<Happening<T>>, i: int) -> Routing<T> {
        self.after(events.take(i))
    }

    /// Each of these things can be done when it happens.
    pub open spec fn allows_all(self, events: Seq<Happening<T>>) -> bool {
        forall|i: int| 0 <= i < events.len() ==> #[trigger] self.before(events, i).allows(events[i])
    }

    /// The block is given back or cancelled, or the port that it went to comes out of a reset.
    pub open spec fn ends_block(self, e: Happening<T>, handle: UrbHandle) -> bool {
        match e {
            Happening::GivenBack(h) => h == handle,
            Happening::Work(Work::CancelUrb(h)) => h == handle,
            Happening::Work(Work::PortStat(stat)) => reset_done(stat) && !self.queue.contains(
                stat.index,
            ) && self.links.keys1.contains_key(stat.index) && self.links.keys1[stat.index]
                == self.links.keys3[handle.0],
            _ => false,
        }
    }
}

/// The host controller hands out the block.
pub open spec fn starts_block<T>(e: Happening<T>, handle: UrbHandle) -> bool {
    e matches Happening::Work(Work::ProcessUrb(_, h)) && h == handle
}

/// One thing more.
proof fn lemma_next<T>(s: Routing<T>, e: Happening<T>, handle: UrbHandle)
    requires
        s.links.wf(),
        s.allows(e),
    ensures
        s.next(e).links.wf(),
        s.links.keys3.contains_key(handle.0) && !s.ends_block(e, handle) ==> s.next(
            e,
        ).links.keys3.contains_key(handle.0) && s.next(e).links.get3(handle.0) == s.links.get3(
            handle.0,
        ),
        !s.links.keys3.contains_key(handle.0) && !starts_block(e, handle) ==> !s.next(
            e,
        ).links.keys3.contains_key(handle.0),
{
    let links = s.links;
    let after = s.next(e).links;
    match e {
        Happening::Registered(port, receiver) => {
            links.lemma_insert1(port, receiver);
            assert(after.get3(handle.0) == links.get3(handle.0));
        },
        Happening::Unregistered(port) => {
            links.lemma_remove1(port);
            assert(after.get3(handle.0) == links.get3(handle.0));
            assert(after.keys3.dom().contains(handle.0) == links.keys3.dom().contains(handle.0));
        },
        Happening::GivenBack(h) => {
            links.lemma_remove3(h.0);
            assert(h != handle ==> after.get3(handle.0) == links.get3(handle.0));
            assert(after.keys3.dom().contains(handle.0) ==> links.keys3.dom().contains(handle.0));
            assert(h != handle && links.keys3.dom().contains(handle.0)
                ==> after.keys3.dom().contains(handle.0));
        },
        Happening::Work(Work::CancelUrb(h)) => {
            links.lemma_remove3(h.0);
            assert(h != handle ==> after.get3(handle.0) == links.get3(handle.0));
            assert(after.keys3.dom().contains(handle.0) ==> links.keys3.dom().contains(handle.0));
            assert(h != handle && links.keys3.dom().contains(handle.0)
                ==> after.keys3.dom().contains(handle.0));
        },
        Happening::Work(Work::PortStat(stat)) => {
            links.lemma_unlink_all_but1(stat.index);
        },
        Happening::Work(Work::ProcessUrb(urb, h)) => {
            if assigns_address(urb) && s.queue.len() > 0 {
                let port = s.queue[0];
                lemma_room_stays(links, port);
                links.lemma_remove2(0);
                let removed = links.remove2(0);
                assert(removed.get3(handle.0) == links.get3(handle.0));
                assert(removed.keys3.dom().contains(handle.0) == links.keys3.dom().contains(
                    handle.0,
                ));
                removed.lemma_link2_to1(new_address(urb), port);
                let linked = removed.link2_to1(new_address(urb), port);
                assert(linked.get3(handle.0) == removed.get3(handle.0));
                linked.lemma_link3_to1(h.0, port);
                assert(!removed.keys3.dom().contains(h.0));
                assert(h != handle ==> after.get3(handle.0) == linked.get3(handle.0));
            } else if for_unassigned(urb) && s.queue.len() > 0 {
                links.lemma_link3_to1(h.0, s.queue[0]);
                assert(h != handle ==> after.get3(handle.0) == links.get3(handle.0));
            } else {
                links.lemma_link3_to2(h.0, urb.address);
                assert(h != handle ==> after.get3(handle.0) == links.get3(handle.0));
            }
        },
    }
}

/// A block that is under way keeps its receiver over all these things.
proof fn lemma_block_stays<T>(s: Routing<T>, events: Seq<Happening<T>>, handle: UrbHandle)
    requires
        s.links.wf(),
        s.links.keys3.contains_key(handle.0),
        s.allows_all(events),
        forall|i: int|
            0 <= i < events.len() ==> !(#[trigger] s.before(events, i)).ends_block(
                events[i],
                handle,
            ),
    ensures
        s.after(events).links.wf(),
        s.after(events).links.keys3.contains_key(handle.0),
        s.after(events).links.get3(handle.0) == s.links.get3(handle.0),
    decreases events.len(),
{
    if events.len() > 0 {
        let fewer = events.drop_last();
        assert forall|i: int| 0 <= i < fewer.len() implies #[trigger] s.before(fewer, i).allows(
            fewer[i],
        ) by {
            assert(fewer.take(i) =~= events.take(i));
            assert(s.before(events, i).allows(events[i]));
        }
        assert forall|i: int| 0 <= i < fewer.len() implies !(#[trigger] s.before(
            fewer,
            i,
        )).ends_block(fewer[i], handle) by {
            assert(fewer.take(i) =~= events.take(i));
            assert(!s.before(events, i).ends_block(events[i], handle));
        }
        lemma_block_stays(s, fewer, handle);
        let last = events.len() - 1;
        assert(events.take(last) =~= fewer);
        assert(s.before(events, last).allows(events[last]));
        lemma_next(s.after(fewer), events.last(), handle);
    }
}

/// A request block is cancelled where it went, whatever else happens in between: as long as it was
/// neither given back nor cancelled, and the port that it went to was not reset. It is then
/// forgotten.
pub proof fn law_cancel_finds_block<T>(
    s: Routing<T>,
    urb: IocUrb,
    handle: UrbHandle,
    events: Seq<Happening<T>>,
)
    requires
        s.links.wf(),
        !s.links.keys3.contains_key(handle.0),
        s.allows(Happening::Work(Work::ProcessUrb(urb, handle))),
        ({
            let sent = s.next(Happening::Work(Work::ProcessUrb(urb, handle)));
            &&& sent.allows_all(events)
            &&& forall|i: int|
                0 <= i < events.len() ==> !(#[trigger] sent.before(events, i)).ends_block(
                    events[i],
                    handle,
                )
        }),
    ensures
        ({
            let receiver = routed(s.queue, s.links, Work::ProcessUrb(urb, handle)).2;
            let then = s.next(Happening::Work(Work::ProcessUrb(urb, handle))).after(events);
            let (_, links, canceller) = routed(then.queue, then.links, Work::CancelUrb(handle));
            &&& receiver is Some
            &&& canceller == receiver
            &&& links.wf()
            &&& !links.keys3.contains_key(handle.0)
        }),
{
    let work = Happening::Work(Work::ProcessUrb(urb, handle));
    let sent = s.next(work);
    let receiver = routed(s.queue, s.links, Work::ProcessUrb(urb, handle)).2;
    lemma_next(s, work, handle);
    law_cancel_follows_block(s.queue, s.links, urb, handle);
    assert(sent.links.get3(handle.0) == receiver);
    lemma_block_stays(sent, events, handle);
    let then = sent.after(events);
    then.links.lemma_remove3(handle.0);
    assert(!then.links.remove3(handle.0).keys3.dom().contains(handle.0));
}

/// A request block that is not under way is cancelled nowhere, whatever happens, until the host
/// controller hands it out.
pub proof fn law_unknown_block_stays_unknown<T>(
    s: Routing<T>,
    handle: UrbHandle,
    events: Seq<Happening<T>>,
)
    requires
        s.links.wf(),
        !s.links.keys3.contains_key(handle.0),
        s.allows_all(events),
        forall|i: int| 0 <= i < events.len() ==> !starts_block(#[trigger] events[i], handle),
    ensures
        ({
            let then = s.after(events);
            &&& then.links.wf()
            &&& !then.links.keys3.contains_key(handle.0)
            &&& routed(then.queue, then.links, Work::CancelUrb(handle)).2 is None
        }),
    decreases events.len(),
{
    if events.len() > 0 {
        let fewer = events.drop_last();
        assert forall|i: int| 0 <= i < fewer.len() implies #[trigger] s.before(fewer, i).allows(
            fewer[i],
        ) by {
            assert(fewer.take(i) =~= events.take(i));
            assert(s.before(events, i).allows(events[i]));
        }
        assert forall|i: int| 0 <= i < fewer.len() implies !starts_block(
            #[trigger] fewer[i],
            handle,
        ) by {
            assert(fewer[i] == events[i]);
        }
        law_unknown_block_stays_unknown(s, handle, fewer);
        let last = events.len() - 1;
        assert(events.take(last) =~= fewer);
        assert(s.before(events, last).allows(events[last]));
        assert(!starts_block(events[last], handle));
        lemma_next(s.after(fewer), events.last(), handle);
    }
}

/// Taking away an address leaves a port room for as many keys as it had.
proof fn lemma_room_stays<T>(links: Links<u8, u8, u64, T>, port: u8)
    requires
        links.wf(),
        has_room(links.keys1, links.values, port, 2),
    ensures
        has_room(links.remove2(0).keys1, links.remove2(0).values, port, 2),
{
    links.lemma_remove2(0);
    assert(links.remove2(0).keys1.dom().contains(port));
    if links.keys2.contains_key(0) && links.values[links.keys2[0] as int].1 == 1 {
        three_key_map::lemma_nothing_else(links.keys2, links.keys1, links.keys3, links.values, 0);
    }
}

/// Taking away an address leaves the ports and the request blocks that there are, and leaves room
/// for as many keys as there was.
proof fn lemma_remove2<T>(
    before: ThreeKeyMap<u8, u8, u64, T>,
    after: ThreeKeyMap<u8, u8, u64, T>,
    r: Option<T>,
    port: u8,
)
    requires
        before.wf(),
        before.removed_by_key2(after, 0, r),
        has_room(before.key1_map@, before.values@, port, 2),
    ensures
        after@ == before@.remove2(0),
        after.key3_map@.dom() == before.key3_map@.dom(),
        has_room(after.key1_map@, after.values@, port, 2),
{
    assert(after@ =~= before@.remove2(0));
    before@.lemma_remove2(0);
    lemma_room_stays(before@, port);
}

} // verus!
