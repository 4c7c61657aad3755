//! How a frame that carries a transfer is laid out, and that it is read back as it was written.
use crate::buf;
use crate::codec::Wire;
use crate::proto::data;
use crate::proto::data::ValidBytes;
use crate::proto::{GetSliceLen, GetSliceLenErr};
use crate::proto::msg::{Command, Header, QusbFrame, Status, UrbFrame, UrbHeader};
use crate::utils;
use crate::utils::align_to_usize;
use bytes::BytesMut;
use vstd::prelude::*;

verus! {

/// The number of eights in `len`, as far as the header of a frame can hold it.
pub open spec fn compressed(len: nat) -> u16 {
    (len / 8 % 65536) as u16
}

pub fn compress_frame_len(len: usize) -> (n: u16)
    ensures
        n == compressed(len as nat),
{
    (len / 8 % 65536) as u16
}

pub open spec fn zeros(n: nat) -> Seq<u8> {
    Seq::new(n, |i: int| 0u8)
}

/// The zeros that round a transfer buffer up to a multiple of eight bytes.
pub open spec fn padding_of(len: nat) -> Seq<u8> {
    zeros((utils::padded(len) - len) as nat)
}

/// The zeros that round a transfer buffer up to a multiple of eight bytes.
pub fn padding(actual_transfer_len: u16) -> (v: Vec<u8>)
    ensures
        v@ == padding_of(actual_transfer_len as nat),
{
    let len: usize = actual_transfer_len as usize;
    let n: usize = align_to_usize(len) - len;
    let mut v: Vec<u8> = Vec::new();
    let mut i: usize = 0;
    while i < n
        invariant
            i <= n,
            v@ == zeros(i as nat),
        decreases n - i,
    {
        v.push(0);
        i = i + 1;
        assert(v@ =~= zeros(i as nat));
    }
    v
}

/// The header of a frame that takes `frame_len` bytes.
pub open spec fn header_for(
    command: Command,
    status: Status,
    seqnum: u32,
    frame_len: nat,
) -> Header {
    Header { total_frame_len: compressed(frame_len), command, status, seqnum }
}

/// A frame that is a header alone.
pub open spec fn bare_frame(command: Command, status: Status, seqnum: u32) -> Seq<u8> {
    header_for(command, status, seqnum, 8).encoding()
}

/// A frame that carries a transfer: both headers, then what goes with them.
pub open spec fn urb_frame(
    command: Command,
    status: Status,
    seqnum: u32,
    urb_header: UrbHeader,
    body: Seq<u8>,
) -> Seq<u8> {
    header_for(command, status, seqnum, 32 + body.len()).encoding() + urb_header.encoding() + body
}

/// Appending pieces one by one appends them joined.
proof fn lemma_concat(
    before: Seq<u8>,
    a: Seq<u8>,
    b: Seq<u8>,
    c: Seq<u8>,
    d: Seq<u8>,
    e: Seq<u8>,
)
    ensures
        before + a + b + c + d + e == before + (a + b + ((c + d) + e)),
{
    assert(before + a + b + c + d + e =~= before + (a + b + ((c + d) + e)));
}

/// Joining three sequences, whichever two are joined first.
pub proof fn lemma_assoc(a: Seq<u8>, b: Seq<u8>, c: Seq<u8>)
    ensures
        a + b + c == a + (b + c),
{
    assert(a + b + c =~= a + (b + c));
}

/// Two joined sequences are taken apart where they were joined.
pub proof fn lemma_parts(a: Seq<u8>, b: Seq<u8>)
    ensures
        (a + b).len() == a.len() + b.len(),
        (a + b).take(a.len() as int) == a,
        (a + b).skip(a.len() as int) == b,
{
    assert((a + b).take(a.len() as int) =~= a);
    assert((a + b).skip(a.len() as int) =~= b);
}

/// Appends both headers, a transfer buffer with its padding, and packets.
pub(crate) fn put_frame(
    buf: &mut BytesMut,
    header: &Header,
    urb_header: &UrbHeader,
    transfer: &[u8],
    padding: &[u8],
    packets: &[u8],
)
    requires
        buf::bytes_of(*old(buf)).len() + 32 + transfer@.len() + padding@.len() + packets@.len()
            <= buf::max_len(),
    ensures
        buf::bytes_of(*final(buf)) == buf::bytes_of(*old(buf)) + (header.encoding()
            + urb_header.encoding() + ((transfer@ + padding@) + packets@)),
{
    let head = header.as_bytes();
    let urb_head = urb_header.as_bytes();
    proof {
        header.lemma_round_trip();
        urb_header.lemma_round_trip();
        lemma_concat(
            buf::bytes_of(*old(buf)),
            head@,
            urb_head@,
            transfer@,
            padding@,
            packets@,
        );
    }
    buf::put_slice(buf, head.as_slice());
    buf::put_slice(buf, urb_head.as_slice());
    buf::put_slice(buf, transfer);
    buf::put_slice(buf, padding);
    buf::put_slice(buf, packets);
}

/// The largest body of a frame whose header can hold the frame's length.
pub open spec fn max_body() -> nat {
    (8 * 65535 - 32) as nat
}

/// A header that tells the length of what it begins lets it be cut off from what follows.
#[verifier::rlimit(80)]
#[verifier::spinoff_prover]
pub proof fn lemma_cut(header: Header, tail: Seq<u8>, rest: Seq<u8>)
    requires
        8 * header.total_frame_len == 8 + tail.len(),
    ensures
        ({
            let frame = header.encoding() + tail;
            let bytes = frame + rest;
            &&& frame.len() == 8 + tail.len()
            &&& data::dst_size::<QusbFrame>(bytes) == Ok::<nat, data::ReadError>(frame.len())
            &&& bytes.take(frame.len() as int) == frame
            &&& bytes.skip(frame.len() as int) == rest
            &&& QusbFrame::valid(frame)
            &&& Header::decoding(frame.take(8)) == Some(header)
            &&& frame.skip(8) == tail
        }),
{
    let frame = header.encoding() + tail;
    let bytes = frame + rest;
    let e = header.encoding();
    header.lemma_round_trip();
    assert(frame.take(8) =~= e);
    assert(bytes.take(8) =~= e);
    assert(bytes.take(frame.len() as int) =~= frame);
    assert(bytes.skip(frame.len() as int) =~= rest);
    assert(frame.skip(8) =~= tail);
    assert(bytes[0] == e[0] && bytes[1] == e[1]);
    assert(crate::codec::u16_at(e, 0) == header.total_frame_len);
    let n = (frame.len() - 8) as nat;
    assert(<QusbFrame as GetSliceLen>::slice_len(bytes) == Ok::<nat, GetSliceLenErr>(n));
    let one = <QusbFrame as GetSliceLen>::elem_len();
    assert(n * one == n) by (nonlinear_arith)
        requires
            one == 1,
    ;
}

/// A frame that carries a transfer is cut off whole from whatever follows it, and what is read
/// from it is what was put in.
#[verifier::rlimit(80)]
#[verifier::spinoff_prover]
pub proof fn law_urb_frame_read_back(
    command: Command,
    status: Status,
    seqnum: u32,
    urb_header: UrbHeader,
    body: Seq<u8>,
    rest: Seq<u8>,
)
    requires
        body.len() % 8 == 0,
        body.len() <= max_body(),
    ensures
        ({
            let frame = urb_frame(command, status, seqnum, urb_header, body);
            let bytes = frame + rest;
            &&& data::dst_size::<QusbFrame>(bytes) == Ok::<nat, data::ReadError>(frame.len())
            &&& bytes.take(frame.len() as int) == frame
            &&& bytes.skip(frame.len() as int) == rest
            &&& QusbFrame::valid(frame)
            &&& Header::decoding(frame.take(8)) == Some(
                header_for(command, status, seqnum, frame.len()),
            )
            &&& UrbFrame::valid(frame.skip(8))
            &&& UrbHeader::decoding(frame.skip(8).take(24)) == Some(urb_header)
            &&& frame.skip(8).skip(24) == body
        }),
{
    let header = header_for(command, status, seqnum, 32 + body.len());
    urb_header.lemma_round_trip();
    let e = urb_header.encoding();
    lemma_assoc(header.encoding(), e, body);
    lemma_parts(e, body);
    lemma_cut(header, e + body, rest);
}

/// A frame that is a header alone is cut off whole from whatever follows it, and its header is
/// read back.
pub proof fn law_bare_frame_read_back(
    command: Command,
    status: Status,
    seqnum: u32,
    rest: Seq<u8>,
)
    ensures
        ({
            let frame = bare_frame(command, status, seqnum);
            let bytes = frame + rest;
            &&& frame.len() == 8
            &&& data::dst_size::<QusbFrame>(bytes) == Ok::<nat, data::ReadError>(8)
            &&& bytes.take(8) == frame
            &&& bytes.skip(8) == rest
            &&& QusbFrame::valid(frame)
            &&& Header::decoding(frame.take(8)) == Some(header_for(command, status, seqnum, 8))
        }),
{
    let header = header_for(command, status, seqnum, 8);
    let none = Seq::<u8>::empty();
    lemma_cut(header, none, rest);
    assert(header.encoding() + none =~= header.encoding());
}

} // verus!
