//! The ports of a virtual host controller, and who gets the work for them.
use crate::usb::{Dir, IocUrb, PortStat, UrbHandle, UrbType, Work};
use crate::utils::simple_map::{key_list, SimpleMap};
use crate::utils::three_key_map;
use crate::utils::three_key_map::{drop_links, remap};
use vstd::prelude::*;

pub mod demux;
pub mod demux_laws;
pub mod heap;
pub mod task;
pub mod task_laws;

verus! {

broadcast use vstd::std_specs::hash::group_hash_axioms;

/// Senders of work, found by the port or by a request block. Any number of request blocks may
/// have the sender of a port.
pub struct Mailer<T> {
    pub port_to_work: SimpleMap<u8, usize>,
    pub handle_to_work: SimpleMap<u64, usize>,
    pub work_line: Vec<T>,
}

/// The entries once the sender at `index` is gone and the last has its place.
pub open spec fn entries_removed<K>(m: Map<K, usize>, len: nat, index: usize) -> Map<K, usize> {
    three_key_map::remapped(
        three_key_map::without_links(m, index, None),
        (len - 1) as usize,
        index,
    )
}

/// The port that a control block is for.
pub open spec fn ctrl_port(urb: IocUrb) -> u8 {
    (urb.setup_packet.w_index % 256 + 1) as u8
}

impl<T: Copy> Mailer<T> {
    /// Every port and every request block has a sender, and no two ports have the same.
    pub open spec fn wf(&self) -> bool {
        &&& forall|p: u8, q: u8|
            #![trigger self.port_to_work@[p], self.port_to_work@[q]]
            self.port_to_work@.contains_key(p) && self.port_to_work@.contains_key(q) && p != q
                ==> self.port_to_work@[p] != self.port_to_work@[q]
        &&& forall|p: u8| #[trigger]
            self.port_to_work@.contains_key(p) ==> self.port_to_work@[p] < self.work_line@.len()
        &&& forall|h: u64| #[trigger]
            self.handle_to_work@.contains_key(h) ==> self.handle_to_work@[h]
                < self.work_line@.len()
    }

    pub open spec fn by_port(&self, port: u8) -> Option<T> {
        if self.port_to_work@.contains_key(port) && self.port_to_work@[port]
            < self.work_line@.len() {
            Some(self.work_line@[self.port_to_work@[port] as int])
        } else {
            None
        }
    }

    pub open spec fn by_handle(&self, handle: UrbHandle) -> Option<T> {
        if self.handle_to_work@.contains_key(handle.0) && self.handle_to_work@[handle.0]
            < self.work_line@.len() {
            Some(self.work_line@[self.handle_to_work@[handle.0] as int])
        } else {
            None
        }
    }

    /// Nothing but the sender at `index`, and whatever had it, is gone.
    pub open spec fn removed(self, after: Self, index: usize) -> bool {
        let len = self.work_line@.len();
        &&& after.work_line@ == three_key_map::swap_removed(self.work_line@, index as int)
        &&& after.port_to_work@ == entries_removed(self.port_to_work@, len, index)
        &&& after.handle_to_work@ == entries_removed(self.handle_to_work@, len, index)
    }

    pub open spec fn same(self, after: Self) -> bool {
        &&& after.work_line@ == self.work_line@
        &&& after.port_to_work@ == self.port_to_work@
        &&& after.handle_to_work@ == self.handle_to_work@
    }

    pub fn with_capacity(cap: usize) -> (m: Self)
        ensures
            m.wf(),
            m.port_to_work@ == Map::<u8, usize>::empty(),
            m.handle_to_work@ == Map::<u64, usize>::empty(),
            m.work_line@ == Seq::<T>::empty(),
    {
        Mailer {
            port_to_work: SimpleMap::with_capacity(cap),
            handle_to_work: SimpleMap::with_capacity(cap),
            work_line: Vec::with_capacity(cap),
        }
    }

    /// Inserts a sender using a port as the key.
    pub fn insert_tx(&mut self, port: u8, tx: T)
        requires
            old(self).wf(),
        ensures
            final(self).wf(),
            final(self).work_line@ == old(self).work_line@.push(tx),
            final(self).port_to_work@ == old(self).port_to_work@.insert(
                port,
                old(self).work_line@.len() as usize,
            ),
            final(self).handle_to_work@ == old(self).handle_to_work@,
            final(self).by_port(port) == Some(tx),
    {
        self.work_line.push(tx);
        let index: usize = self.work_line.len() - 1;
        self.port_to_work.insert(port, index);
    }

    /// Links a request block to a port so that they both have the same sender.
    ///
    /// Returns `false` if the block has a sender already or the port has none.
    pub fn link_handle_to_port(&mut self, handle: UrbHandle, port: u8) -> (b: bool)
        requires
            old(self).wf(),
        ensures
            final(self).wf(),
            b <==> !old(self).handle_to_work@.contains_key(handle.0)
                && old(self).port_to_work@.contains_key(port),
            final(self).work_line@ == old(self).work_line@,
            final(self).port_to_work@ == old(self).port_to_work@,
            final(self).handle_to_work@ == (if b {
                old(self).handle_to_work@.insert(handle.0, old(self).port_to_work@[port])
            } else {
                old(self).handle_to_work@
            }),
            b ==> final(self).by_handle(handle) == old(self).by_port(port),
    {
        if self.handle_to_work.contains_key(&handle.0) {
            return false;
        }
        let index: Option<usize> = match self.port_to_work.get(&port) {
            Some(index) => Some(*index),
            None => None,
        };
        match index {
            Some(index) => {
                self.handle_to_work.insert(handle.0, index);
                true
            },
            None => false,
        }
    }

    /// Takes a request block's sender away; tells whether it had one.
    pub fn unlink_handle_from_port(&mut self, handle: &UrbHandle) -> (b: bool)
        requires
            old(self).wf(),
        ensures
            final(self).wf(),
            b <==> old(self).handle_to_work@.contains_key(handle.0),
            final(self).work_line@ == old(self).work_line@,
            final(self).port_to_work@ == old(self).port_to_work@,
            final(self).handle_to_work@ == old(self).handle_to_work@.remove(handle.0),
    {
        let r = self.handle_to_work.remove(&handle.0);
        assert(!old(self).handle_to_work@.contains_key(handle.0) ==> old(
            self,
        ).handle_to_work@.remove(handle.0) =~= old(self).handle_to_work@);
        r.is_some()
    }

    /// Removes the sender of a port, from the port and from every request block that has it.
    pub fn remove_by_port(&mut self, port: &u8)
        requires
            old(self).wf(),
        ensures
            final(self).wf(),
            old(self).port_to_work@.contains_key(*port) ==> old(self).removed(
                *final(self),
                old(self).port_to_work@[*port],
            ),
            !old(self).port_to_work@.contains_key(*port) ==> old(self).same(*final(self)),
    {
        let index: Option<usize> = match self.port_to_work.get(port) {
            Some(index) => Some(*index),
            None => None,
        };
        match index {
            Some(index) => self.remove_by_index(index),
            None => {},
        }
    }

    /// Nothing but the first sender that `same` holds of, and whatever had it, is gone; nothing at
    /// all where it holds of none.
    pub open spec fn first_removed<F: Fn(&T) -> bool>(self, after: Self, same: F) -> bool {
        ||| self.same(after) && forall|j: int|
            0 <= j < self.work_line@.len() ==> same.ensures(
                (&#[trigger] self.work_line@[j],),
                false,
            )
        ||| exists|i: usize|
            i < self.work_line@.len() && #[trigger] self.removed(after, i) && same.ensures(
                (&self.work_line@[i as int],),
                true,
            ) && forall|j: int|
                0 <= j < i ==> same.ensures((&#[trigger] self.work_line@[j],), false)
    }

    /// Removes the first sender that `same` holds of.
    pub fn remove_by_tx<F: Fn(&T) -> bool>(&mut self, same: F)
        requires
            old(self).wf(),
            forall|t: &T| #[trigger] same.requires((t,)),
        ensures
            final(self).wf(),
            old(self).first_removed(*final(self), same),
    {
        let n: usize = self.work_line.len();
        let mut i: usize = 0;
        while i < n
            invariant
                n == self.work_line@.len(),
                i <= n,
                *self == *old(self),
                self.wf(),
                forall|t: &T| #[trigger] same.requires((t,)),
                forall|j: int|
                    0 <= j < i ==> same.ensures((&#[trigger] old(self).work_line@[j],), false),
            decreases n - i,
        {
            let is_same = same(&self.work_line[i]);
            if is_same {
                self.remove_by_index(i);
                assert(old(self).removed(*self, i));
                return ;
            }
            i = i + 1;
        }
    }

    fn remove_by_index(&mut self, tx_index: usize)
        requires
            old(self).wf(),
            tx_index < old(self).work_line@.len(),
        ensures
            final(self).wf(),
            old(self).removed(*final(self), tx_index),
    {
        drop_links(&mut self.port_to_work, tx_index, None);
        drop_links(&mut self.handle_to_work, tx_index, None);
        let last_index: usize = self.work_line.len() - 1;
        let _ = self.work_line.swap_remove(tx_index);
        assert(self.work_line@ =~= three_key_map::swap_removed(
            old(self).work_line@,
            tx_index as int,
        ));
        remap(&mut self.handle_to_work, last_index, tx_index);
        remap(&mut self.port_to_work, last_index, tx_index);
    }

    pub fn get_tx_from_handle(&self, handle: UrbHandle) -> (tx: Option<T>)
        ensures
            tx == self.by_handle(handle),
    {
        match self.handle_to_work.get(&handle.0) {
            Some(index) => if *index < self.work_line.len() {
                Some(self.work_line[*index])
            } else {
                None
            },
            None => None,
        }
    }

    pub fn get_tx_from_port(&self, port: u8) -> (tx: Option<T>)
        ensures
            tx == self.by_port(port),
    {
        match self.port_to_work.get(&port) {
            Some(index) => if *index < self.work_line.len() {
                Some(self.work_line[*index])
            } else {
                None
            },
            None => None,
        }
    }

    pub fn contains_port(&self, port: &u8) -> (b: bool)
        ensures
            b <==> self.port_to_work@.contains_key(*port),
    {
        self.port_to_work.contains_key(port)
    }

    pub fn contains_handle(&self, handle: &UrbHandle) -> (b: bool)
        ensures
            b <==> self.handle_to_work@.contains_key(handle.0),
    {
        self.handle_to_work.contains_key(&handle.0)
    }

    /// The sender that some work is for. A control block tells its port, and has the sender of
    /// the port from then on; any other block has a sender already.
    pub fn get_tx_from_work(&mut self, work: &Work) -> (tx: Option<T>)
        requires
            old(self).wf(),
            *work matches Work::ProcessUrb(urb, _) ==> urb.typ == UrbType::Ctrl
                ==> urb.setup_packet.w_index % 256 < 255,
        ensures
            final(self).wf(),
            final(self).work_line@ == old(self).work_line@,
            final(self).port_to_work@ == old(self).port_to_work@,
            *work matches Work::PortStat(stat) ==> tx == old(self).by_port(stat.index)
                && final(self).handle_to_work@ == old(self).handle_to_work@,
            *work matches Work::CancelUrb(handle) ==> tx == old(self).by_handle(handle)
                && final(self).handle_to_work@ == old(self).handle_to_work@,
            *work matches Work::ProcessUrb(urb, handle) ==> if urb.typ == UrbType::Ctrl {
                &&& tx == old(self).by_port(ctrl_port(urb))
                &&& final(self).handle_to_work@ == (if !old(self).handle_to_work@.contains_key(
                    handle.0,
                ) && old(self).port_to_work@.contains_key(ctrl_port(urb)) {
                    old(self).handle_to_work@.insert(
                        handle.0,
                        old(self).port_to_work@[ctrl_port(urb)],
                    )
                } else {
                    old(self).handle_to_work@
                })
            } else {
                &&& tx == old(self).by_handle(handle)
                &&& final(self).handle_to_work@ == old(self).handle_to_work@
            },
    {
        match work {
            Work::CancelUrb(handle) => self.get_tx_from_handle(*handle),
            Work::ProcessUrb(urb, handle) => match urb.typ {
                UrbType::Ctrl => {
                    let port: u8 = (urb.setup_packet.w_index % 256) as u8 + 1;
                    let _ = self.link_handle_to_port(*handle, port);
                    self.get_tx_from_port(port)
                },
                _ => self.get_tx_from_handle(*handle),
            },
            Work::PortStat(stat) => self.get_tx_from_port(stat.index),
        }
    }

    /// The ports that have senders, each once.
    pub fn ports(&self) -> (ports: Vec<u8>)
        ensures
            ports@.no_duplicates(),
            ports@.to_set() == self.port_to_work@.dom(),
    {
        key_list(&self.port_to_work)
    }
}

/// Removing a sender leaves every other port and request block with the sender that it had.
pub proof fn law_others_keep_senders<T: Copy>(before: Mailer<T>, after: Mailer<T>, index: usize)
    requires
        before.wf(),
        index < before.work_line@.len(),
        before.removed(after, index),
    ensures
        after.wf(),
        forall|p: u8| #[trigger]
            after.by_port(p) == (if before.port_to_work@.contains_key(p) && before.port_to_work@[p]
                != index {
                before.by_port(p)
            } else {
                None
            }),
        forall|h: UrbHandle| #[trigger]
            after.by_handle(h) == (if before.handle_to_work@.contains_key(h.0)
                && before.handle_to_work@[h.0] != index {
                before.by_handle(h)
            } else {
                None
            }),
{
    assert(before.work_line@.len() == before.work_line.len());
}

/// Removing the sender of a port takes it from no other port, nor from the request blocks of another
/// port.
pub proof fn law_other_ports_keep_senders<T: Copy>(before: Mailer<T>, after: Mailer<T>, port: u8)
    requires
        before.wf(),
        before.port_to_work@.contains_key(port),
        before.removed(after, before.port_to_work@[port]),
    ensures
        after.wf(),
        after.by_port(port) is None,
        forall|q: u8| q != port ==> #[trigger] after.by_port(q) == before.by_port(q),
        forall|q: u8, h: UrbHandle|
            #![trigger before.port_to_work@[q], after.by_handle(h)]
            q != port && before.port_to_work@.contains_key(q)
                && before.handle_to_work@.contains_key(h.0) && before.handle_to_work@[h.0]
                == before.port_to_work@[q] ==> after.by_handle(h) == before.by_handle(h),
        forall|h: UrbHandle|
            before.handle_to_work@.contains_key(h.0) && before.handle_to_work@[h.0]
                == before.port_to_work@[port] ==> #[trigger] after.by_handle(h) is None,
{
    let index = before.port_to_work@[port];
    law_others_keep_senders(before, after, index);
    assert forall|q: u8| q != port implies #[trigger] after.by_port(q) == before.by_port(q) by {
        if before.port_to_work@.contains_key(q) {
            assert(before.port_to_work@[q] != index);
        }
    }
}

/// What is done with work that a host controller has while devices wait to be enumerated.
#[derive(Debug, Clone, Copy, PartialEq, Eq, Structural)]
pub enum WorkRoute {
    /// It goes to the device that waits longest.
    Enumerate,
    /// It goes to the demultiplexer.
    Forward,
}

/// A control block from a device that has no address goes to the device that waits longest,
/// where one waits.
pub fn route_new_work(work: &Work, any_waiting: bool) -> (r: WorkRoute)
    ensures
        r == (match *work {
            Work::ProcessUrb(urb, _) => if urb.typ == UrbType::Ctrl && any_waiting
                && urb.endpoint.dir() == Dir::In && urb.address == 0 {
                WorkRoute::Enumerate
            } else {
                WorkRoute::Forward
            },
            _ => WorkRoute::Forward,
        }),
{
    match work {
        Work::ProcessUrb(urb, _) => {
            let is_ctrl = matches!(urb.typ, UrbType::Ctrl);
            let is_in = matches!(urb.endpoint.direction(), Dir::In);
            if is_ctrl && any_waiting && is_in && urb.address == 0 {
                WorkRoute::Enumerate
            } else {
                WorkRoute::Forward
            }
        },
        _ => WorkRoute::Forward,
    }
}

/// How fetching work from a host controller failed.
#[derive(Debug, Clone, Copy, PartialEq, Eq, Structural)]
pub enum FetchError {
    TimedOut,
    Interrupted,
    NoData,
    Other,
}

/// What the thread that fetches work does next.
#[derive(Debug, Clone, Copy, PartialEq, Eq, Structural)]
pub enum FetchNext {
    Again,
    Done,
    Fail,
}

/// Decides whether to fetch work again. `fetched` tells whether the work that was fetched could
/// be passed on; `open` tells whether anyone listens.
pub fn after_fetch(fetched: Result<bool, FetchError>, open: bool) -> (next: FetchNext)
    ensures
        next == (match fetched {
            Ok(passed_on) => if passed_on {
                FetchNext::Again
            } else {
                FetchNext::Done
            },
            Err(FetchError::Other) => FetchNext::Fail,
            Err(_) => if open {
                FetchNext::Again
            } else {
                FetchNext::Done
            },
        }),
{
    match fetched {
        Ok(passed_on) => if passed_on {
            FetchNext::Again
        } else {
            FetchNext::Done
        },
        Err(FetchError::Other) => FetchNext::Fail,
        Err(_) => if open {
            FetchNext::Again
        } else {
            FetchNext::Done
        },
    }
}

/// Takes note of the state of a port that a device was plugged into; tells whether the port's
/// reset is to be completed.
pub fn enumeration_step(prev: &mut PortStat, next: &PortStat) -> (complete_reset: bool)
    ensures
        complete_reset <==> !old(prev).reset && next.reset && next.connection,
        *final(prev) == (if complete_reset {
            *next
        } else {
            *old(prev)
        }),
{
    if !prev.reset && next.reset && next.connection {
        *prev = *next;
        true
    } else {
        false
    }
}

} // verus!
