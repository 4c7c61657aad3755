//! Which stream a datagram belongs to.
use crate::buf;
use crate::utils::simple_map::SimpleMap;
use bytes::BytesMut;
use vstd::prelude::*;
use zerocopy::little_endian::U64;
use zerocopy::FromBytes;

verus! {

broadcast use vstd::std_specs::hash::group_hash_axioms;

/// The number that the first eight bytes of `b` stand for, least significant first.
pub open spec fn leading_u64(b: Seq<u8>) -> u64 {
    (b[0] + 0x100 * b[1] + 0x1_0000 * b[2] + 0x100_0000 * b[3] + 0x1_0000_0000 * b[4]
        + 0x100_0000_0000 * b[5] + 0x1_0000_0000_0000 * b[6] + 0x100_0000_0000_0000 * b[7]) as u64
}

/// The number in front of a datagram counts each byte two hundred and fifty-six times as much as the one
/// before it.
pub proof fn law_stream_number(b: Seq<u8>)
    requires
        b.len() >= 8,
    ensures
        leading_u64(b) == b[0] + 256 * (b[1] + 256 * (b[2] + 256 * (b[3] + 256 * (b[4] + 256 * (b[5]
            + 256 * (b[6] + 256 * b[7])))))),
{
}

/// Reads a little-endian number from the start of `b`.
///
/// Trusted: `zerocopy::FromBytes::read_from_prefix` on `zerocopy::little_endian::U64`, which
/// gives the number that the first eight bytes stand for, and an error only where there are
/// fewer than eight.
#[verifier::external_body]
fn u64_from_prefix(b: &[u8]) -> (r: Option<u64>)
    ensures
        r == (if b@.len() < 8 {
            None::<u64>
        } else {
            Some(leading_u64(b@))
        }),
{
    U64::read_from_prefix(b).ok().map(|(x, _)| x.get())
}

/// What happens to the demultiplexer. `T` is a receiver of datagrams, `E` the error of the connection.
pub enum Event<T, E> {
    /// A stream asked for its datagrams; `None` where nobody is left who could.
    Register(Option<(u64, T)>),
    /// A stream wants no more datagrams; `None` where nobody is left who could say so.
    Disconnect(Option<u64>),
    /// A datagram was read, or that failed.
    Datagram(Result<BytesMut, E>),
    /// The receiver of a stream's datagrams is gone.
    Gone(u64),
}

/// What the demultiplexer does next.
pub enum Action<T, E> {
    Wait,
    /// Hand what a datagram carries to the receiver of the stream.
    Deliver { id: u64, receiver: T, payload: BytesMut },
    /// End with this.
    End(Result<(), E>),
}

/// The streams that take datagrams, by their numbers, each with the receiver `T` of its
/// datagrams.
pub struct Demuxer<T> {
    pub mailer: SimpleMap<u64, T>,
}

impl<T: Copy> Demuxer<T> {
    pub fn new() -> (d: Self)
        ensures
            d.mailer@ == Map::<u64, T>::empty(),
    {
        Demuxer { mailer: SimpleMap::new() }
    }

    /// A stream asked for its datagrams.
    pub fn on_register(&mut self, id: u64, receiver: T)
        ensures
            final(self).mailer@ == old(self).mailer@.insert(id, receiver),
    {
        let _ = self.mailer.insert(id, receiver);
    }

    /// A stream wants no more datagrams, or nobody is there to take them.
    pub fn on_disconnect(&mut self, id: u64)
        ensures
            final(self).mailer@ == old(self).mailer@.remove(id),
    {
        let _ = self.mailer.remove(&id);
    }

    /// The stream that a datagram is for, its receiver and what the datagram carries. A datagram
    /// that names no stream, or one that has not asked for any, is for nobody.
    pub fn on_datagram(&self, datagram: BytesMut) -> (r: Option<(u64, T, BytesMut)>)
        ensures
            match r {
                Some((id, receiver, payload)) => {
                    &&& buf::bytes_of(datagram).len() >= 8
                    &&& id == leading_u64(buf::bytes_of(datagram))
                    &&& self.mailer@.contains_key(id)
                    &&& receiver == self.mailer@[id]
                    &&& buf::bytes_of(payload) == buf::bytes_of(datagram).skip(8)
                },
                None => {
                    ||| buf::bytes_of(datagram).len() < 8
                    ||| !self.mailer@.contains_key(leading_u64(buf::bytes_of(datagram)))
                },
            },
    {
        match u64_from_prefix(buf::as_slice(&datagram)) {
            None => None,
            Some(id) => match self.mailer.get(&id) {
                None => None,
                Some(receiver) => {
                    let mut payload = datagram;
                    buf::advance(&mut payload, 8);
                    Some((id, *receiver, payload))
                },
            },
        }
    }

    /// Takes note of an event and says what to do about it. The demultiplexer ends well where nobody
    /// is left to ask for anything, and with the error of a read that failed.
    pub fn on_event<E>(&mut self, event: Event<T, E>) -> (action: Action<T, E>)
        ensures
            match event {
                Event::Register(Some((id, receiver))) => action == Action::<T, E>::Wait
                    && final(self).mailer@ == old(self).mailer@.insert(id, receiver),
                Event::Disconnect(Some(id)) | Event::Gone(id) => action == Action::<T, E>::Wait
                    && final(self).mailer@ == old(self).mailer@.remove(id),
                Event::Register(None) | Event::Disconnect(None) => action == Action::<T, E>::End(
                    Ok(()),
                ) && final(self).mailer@ == old(self).mailer@,
                Event::Datagram(Err(e)) => action == Action::<T, E>::End(Err(e))
                    && final(self).mailer@ == old(self).mailer@,
                Event::Datagram(Ok(datagram)) => {
                    let b = buf::bytes_of(datagram);
                    &&& final(self).mailer@ == old(self).mailer@
                    &&& if b.len() >= 8 && old(self).mailer@.contains_key(leading_u64(b)) {
                        &&& action matches Action::Deliver { id, receiver, payload }
                        &&& id == leading_u64(b)
                        &&& receiver == old(self).mailer@[id]
                        &&& buf::bytes_of(payload) == b.skip(8)
                    } else {
                        action == Action::<T, E>::Wait
                    }
                },
            },
    {
        match event {
            Event::Register(Some((id, receiver))) => {
                self.on_register(id, receiver);
                Action::Wait
            },
            Event::Disconnect(Some(id)) => {
                self.on_disconnect(id);
                Action::Wait
            },
            Event::Gone(id) => {
                self.on_disconnect(id);
                Action::Wait
            },
            Event::Register(None) => Action::End(Ok(())),
            Event::Disconnect(None) => Action::End(Ok(())),
            Event::Datagram(Err(e)) => Action::End(Err(e)),
            Event::Datagram(Ok(datagram)) => match self.on_datagram(datagram) {
                Some((id, receiver, payload)) => Action::Deliver { id, receiver, payload },
                None => Action::Wait,
            },
        }
    }
}

} // verus!
