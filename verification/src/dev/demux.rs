//! What the demultiplexer of a virtual host controller does about each thing that happens.
use crate::dev;
use crate::dev::Mailer;
use crate::usb::{UrbType, Work};
use vstd::prelude::*;

verus! {

/// Which port to plug a virtual device into.
#[derive(Debug, Clone, Copy, PartialEq, Eq, Structural)]
pub enum RegisterPort {
    Any,
    Port(u8),
}

/// What happens to the demultiplexer. `E` is the error of the driver, `T` a sender of work.
pub enum Event<E, T> {
    /// Someone wants to plug in a device.
    Register(RegisterPort),
    /// Plugging in a device came to its end: its port, and the sender of the work for it. `told` says
    /// whether whoever wanted it could be told, and so listens to the sender.
    Registered { plugged: Result<(u8, T), E>, told: bool },
    /// Someone wants to unplug the device on a port.
    Disconnect(u8),
    /// The host controller asks for something.
    Work(Work),
    /// Nobody is left who could ask for anything.
    Closed,
}

/// What the demultiplexer does next.
#[derive(Debug, PartialEq, Eq, Structural)]
pub enum DemuxAction<T> {
    /// Plug a device into any port.
    ConnectAny,
    /// Plug a device into the port.
    Connect(u8),
    /// Unplug the device on the port.
    Disconnect(u8),
    /// Pass the work on.
    Send(T),
    Wait,
    /// Unplug all that is left, and end.
    Stop,
}

/// Passes the work of a host controller on to whoever has the device that it is for.
pub struct Demuxer<T> {
    pub mailer: Mailer<T>,
}

impl<T: Copy> Demuxer<T> {
    pub open spec fn wf(&self) -> bool {
        self.mailer.wf()
    }

    /// The event is one that a host controller can bring about.
    pub open spec fn possible<E>(event: Event<E, T>) -> bool {
        event matches Event::Work(Work::ProcessUrb(urb, _)) ==> urb.typ == UrbType::Ctrl
            ==> urb.setup_packet.w_index % 256 < 255
    }

    pub fn new() -> (d: Self)
        ensures
            d.wf(),
            d.mailer.port_to_work@ == Map::<u8, usize>::empty(),
            d.mailer.handle_to_work@ == Map::<u64, usize>::empty(),
            d.mailer.work_line@ == Seq::<T>::empty(),
    {
        Demuxer { mailer: Mailer::with_capacity(0) }
    }

    /// What the demultiplexer knows of its devices once one is plugged in: the work for its port goes
    /// to the sender.
    pub open spec fn plugged_in(self, after: Self, port: u8, tx: T) -> bool {
        &&& after.mailer.by_port(port) == Some(tx)
        &&& after.mailer.work_line@ == self.mailer.work_line@.push(tx)
        &&& after.mailer.port_to_work@ == self.mailer.port_to_work@.insert(
            port,
            self.mailer.work_line@.len() as usize,
        )
        &&& after.mailer.handle_to_work@ == self.mailer.handle_to_work@
    }

    /// What the demultiplexer knows of its devices once one is unplugged.
    pub open spec fn unplugged(self, after: Self, port: u8) -> bool {
        if self.mailer.port_to_work@.contains_key(port) {
            self.mailer.removed(after.mailer, self.mailer.port_to_work@[port])
        } else {
            self.mailer.same(after.mailer)
        }
    }

    /// The sender that the work is for, if there is one.
    pub open spec fn sender_of(self, work: Work) -> Option<T> {
        match work {
            Work::PortStat(stat) => self.mailer.by_port(stat.index),
            Work::CancelUrb(handle) => self.mailer.by_handle(handle),
            Work::ProcessUrb(urb, handle) => if urb.typ == UrbType::Ctrl {
                self.mailer.by_port(dev::ctrl_port(urb))
            } else {
                self.mailer.by_handle(handle)
            },
        }
    }

    /// What the demultiplexer knows of its devices once it has seen the work: a control block has
    /// the sender of its port from then on.
    pub open spec fn seen(self, after: Self, work: Work) -> bool {
        &&& after.mailer.work_line@ == self.mailer.work_line@
        &&& after.mailer.port_to_work@ == self.mailer.port_to_work@
        &&& after.mailer.handle_to_work@ == (match work {
            Work::ProcessUrb(urb, handle) => if urb.typ == UrbType::Ctrl
                && !self.mailer.handle_to_work@.contains_key(handle.0)
                && self.mailer.port_to_work@.contains_key(dev::ctrl_port(urb)) {
                self.mailer.handle_to_work@.insert(
                    handle.0,
                    self.mailer.port_to_work@[dev::ctrl_port(urb)],
                )
            } else {
                self.mailer.handle_to_work@
            },
            _ => self.mailer.handle_to_work@,
        })
    }

    /// Takes note of an event and says what to do about it.
    pub fn on_event<E>(&mut self, event: Event<E, T>) -> (action: DemuxAction<T>)
        requires
            old(self).wf(),
            Self::possible(event),
        ensures
            final(self).wf(),
            match event {
                Event::Register(RegisterPort::Any) => action == DemuxAction::<T>::ConnectAny && old(
                    self,
                ).mailer.same(final(self).mailer),
                Event::Register(RegisterPort::Port(port)) => action == DemuxAction::<T>::Connect(
                    port,
                ) && old(self).mailer.same(final(self).mailer),
                Event::Registered { plugged: Ok((port, tx)), told: true } => action
                    == DemuxAction::<T>::Wait && old(self).plugged_in(*final(self), port, tx),
                Event::Registered { plugged: Ok((port, _)), told: false } => action
                    == DemuxAction::<T>::Disconnect(port) && old(self).unplugged(
                    *final(self),
                    port,
                ),
                Event::Registered { plugged: Err(_), .. } => action == DemuxAction::<T>::Wait
                    && old(self).mailer.same(final(self).mailer),
                Event::Disconnect(port) => action == DemuxAction::<T>::Disconnect(port) && old(
                    self,
                ).unplugged(*final(self), port),
                Event::Work(work) => {
                    &&& old(self).seen(*final(self), work)
                    &&& action == (match old(self).sender_of(work) {
                        Some(tx) => DemuxAction::Send(tx),
                        None => DemuxAction::Wait,
                    })
                },
                Event::Closed => action == DemuxAction::<T>::Stop && old(self).mailer.same(
                    final(self).mailer,
                ),
            },
    {
        match event {
            Event::Register(RegisterPort::Any) => DemuxAction::ConnectAny,
            Event::Register(RegisterPort::Port(port)) => DemuxAction::Connect(port),
            Event::Registered { plugged: Ok((port, tx)), told: true } => {
                self.mailer.insert_tx(port, tx);
                DemuxAction::Wait
            },
            Event::Registered { plugged: Ok((port, _)), told: false } => {
                self.mailer.remove_by_port(&port);
                DemuxAction::Disconnect(port)
            },
            Event::Registered { plugged: Err(_), .. } => DemuxAction::Wait,
            Event::Disconnect(port) => {
                self.mailer.remove_by_port(&port);
                DemuxAction::Disconnect(port)
            },
            Event::Work(work) => match self.mailer.get_tx_from_work(&work) {
                Some(tx) => DemuxAction::Send(tx),
                None => DemuxAction::Wait,
            },
            Event::Closed => DemuxAction::Stop,
        }
    }

    /// Work could not be passed on, since nobody listens to the sender that `same` holds of.
    pub fn on_send_failed<F: Fn(&T) -> bool>(&mut self, same: F)
        requires
            old(self).wf(),
            forall|t: &T| #[trigger] same.requires((t,)),
        ensures
            final(self).wf(),
            old(self).mailer.first_removed(final(self).mailer, same),
    {
        self.mailer.remove_by_tx(same);
    }

    /// The ports with devices, each once; they are unplugged at the end.
    pub fn leftover_ports(&self) -> (ports: Vec<u8>)
        ensures
            ports@.no_duplicates(),
            ports@.to_set() == self.mailer.port_to_work@.dom(),
    {
        self.mailer.ports()
    }
}

} // verus!
