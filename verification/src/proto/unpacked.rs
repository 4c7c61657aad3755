//! Frames once they have been read from bytes.
use crate::proto::data::Data;
use crate::proto::msg::UrbFrame;
use vstd::prelude::*;

verus! {

/// A number that is unique for every frame that two peers exchange.
pub type Seqnum = u32;

/// A piece of data with the sequence number of the frame that it belongs to.
pub struct Sequenced<T> {
    pub seqnum: Seqnum,
    pub data: T,
}

/// A frame that peers exchange on a stream that carries a device.
pub enum Frame {
    Urb(Sequenced<Data<UrbFrame>>),
    PortReset(Seqnum),
    Unlink(Seqnum),
}

} // verus!
