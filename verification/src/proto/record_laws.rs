//! How records are told from bytes, whatever the record.
use crate::codec;
use crate::codec::Wire;
use crate::proto::data;
use crate::proto::data::{Data, Dst, ReadError, ValidBytes};
use crate::proto::msg::{
    DeviceDescriptor, QusbFrame, UrbFrame, UrbHeader, UsbDeviceInfo, UsbDeviceInfoHeader,
};
use crate::proto::urb::IsoUrbSend;
use crate::proto::{GetSliceLen, GetSliceLenErr};
use crate::usb;
use vstd::prelude::*;
use vstd::std_specs::convert::FromSpec;

verus! {

/// Reading a record gives the one record whose bytes stand at the start. It fails where bytes are missing,
/// and tells how many, and otherwise just where no record has these bytes.
pub proof fn law_record_is_read<T: Wire>(b: Seq<u8>, x: T)
    requires
        T::wire_len() <= usize::MAX,
    ensures
        b.len() >= T::wire_len() ==> (data::peeked::<T>(b) == Ok::<T, ReadError>(x) <==> b.take(
            T::wire_len() as int,
        ) == x.encoding()),
        b.len() < T::wire_len() <==> (data::peeked::<T>(b) matches Err(
            ReadError::BufferShort { num_bytes_needed },
        ) && num_bytes_needed + b.len() == T::wire_len()),
        data::peeked::<T>(x.encoding() + b) == Ok::<T, ReadError>(x),
{
    x.lemma_round_trip();
    let w = T::wire_len() as int;
    if b.len() >= w {
        if T::decoding(b.take(w)) is Some {
            T::lemma_canonical(b.take(w));
        }
    }
    assert((x.encoding() + b).take(w) =~= x.encoding());
}

/// A record with a trailing slice is its header and the bytes of the slice, one after the other.
pub proof fn law_record_and_its_parts<T: Dst>(d: Data<T>)
    requires
        d.wf(),
    ensures
        d.bytes() == d.head().encoding() + d.tail(),
        d.tail().len() + T::Header::wire_len() == d.bytes().len(),
{
    T::lemma_valid(d.bytes());
    let w = T::Header::wire_len() as int;
    T::Header::lemma_canonical(d.bytes().take(w));
    assert(d.bytes() =~= d.bytes().take(w) + d.bytes().skip(w));
}

/// Bytes are a frame where they begin with a header; those of a device have whole interfaces after it.
pub proof fn law_valid_records(b: Seq<u8>)
    ensures
        QusbFrame::valid(b) <==> b.len() >= 8 && data::peeked::<crate::proto::msg::Header>(b) is Ok,
        UrbFrame::valid(b) <==> b.len() >= 24 && data::peeked::<UrbHeader>(b) is Ok,
        UsbDeviceInfo::valid(b) <==> b.len() >= 312 && (b.len() - 312) % 4 == 0
            && data::peeked::<UsbDeviceInfoHeader>(b) is Ok,
        DeviceDescriptor::valid(b) <==> b.len() == 18 && data::peeked::<DeviceDescriptor>(b) is Ok,
{
    if b.len() == 18 {
        assert(b.take(18) =~= b);
    }
}

/// A record whose length cannot be told is read with the same error.
pub proof fn law_read_errors(n: usize)
    ensures
        data::read_error(GetSliceLenErr::NoConfidence) == ReadError::CorruptedData,
        data::read_error(GetSliceLenErr::BufferShort { num_bytes_needed: n }) == (
        ReadError::BufferShort { num_bytes_needed: n }),
        <ReadError as FromSpec<GetSliceLenErr>>::from_spec(GetSliceLenErr::NoConfidence)
            == ReadError::CorruptedData,
        <ReadError as FromSpec<GetSliceLenErr>>::from_spec(
            (GetSliceLenErr::BufferShort { num_bytes_needed: n }),
        ) == (ReadError::BufferShort { num_bytes_needed: n }),
{
}

/// Records that stand one after the other: each has its own place, as many bytes behind the one before
/// as that takes.
pub proof fn law_records_have_places<T: Wire>(s: Seq<T>, i: int)
    requires
        0 <= i < s.len(),
    ensures
        i * T::wire_len() + T::wire_len() <= codec::encode_all(s).len(),
        codec::encode_all(s).subrange(
            i * T::wire_len() as int,
            i * T::wire_len() as int + T::wire_len() as int,
        ) == s[i].encoding(),
    decreases s.len(),
{
    let w = T::wire_len() as int;
    codec::lemma_encode_all_len(s);
    s[i].lemma_round_trip();
    assert(i * w + w <= s.len() * w && 0 <= i * w) by (nonlinear_arith)
        requires
            0 <= i < s.len(),
            0 <= w,
    ;
    let fewer = s.drop_last();
    codec::lemma_encode_all_len(fewer);
    if i == s.len() - 1 {
        assert(codec::encode_all(s).subrange(i * w, i * w + w) =~= s[i].encoding());
    } else {
        law_records_have_places(fewer, i);
        assert(fewer[i] == s[i]);
        assert(codec::encode_all(s).subrange(i * w, i * w + w) =~= codec::encode_all(
            fewer,
        ).subrange(i * w, i * w + w));
    }
}

/// Reading records one after the other gives those that were written, and then whatever can be read of
/// what follows; it stops at the first that is no record, and where bytes are missing.
pub proof fn law_records_are_read_in_order<T: Wire>(s: Seq<T>, rest: Seq<u8>)
    requires
        T::wire_len() > 0,
    ensures
        codec::decode_while::<T>(codec::encode_all(s) + rest) == s + codec::decode_while::<T>(rest),
        rest.len() < T::wire_len() ==> codec::decode_while::<T>(rest).len() == 0,
        T::decoding(rest.take(T::wire_len() as int)) is None ==> codec::decode_while::<T>(
            rest,
        ).len() == 0,
    decreases s.len(),
{
    let b = codec::encode_all(s) + rest;
    let w = T::wire_len() as int;
    if s.len() == 0 {
        assert(b =~= rest);
        assert(s + codec::decode_while::<T>(rest) =~= codec::decode_while::<T>(rest));
    } else {
        codec::lemma_encode_all_first(s);
        s[0].lemma_round_trip();
        let later = s.drop_first();
        law_records_are_read_in_order(later, rest);
        assert(b.take(w) =~= s[0].encoding());
        assert(b.skip(w) =~= codec::encode_all(later) + rest);
        assert(s + codec::decode_while::<T>(rest) =~= seq![s[0]] + (later
            + codec::decode_while::<T>(rest)));
    }
}

/// The header of a transfer tells its direction by the highest bit of the endpoint, and whether it is
/// still to be done; its packets take eight bytes each.
pub proof fn law_transfer_header(h: UrbHeader)
    ensures
        h.out() <==> h.endpoint.0 < 128,
        h.pending() <==> h.status == usb::Status::Pending,
        h.iso_len() == 8 * h.iso_packet_count,
        h.transfer_len() % 8 == 0,
        (h.endpoint.0 < 128) == (h.status == usb::Status::Pending) ==> h.actual_transfer_len
            <= h.transfer_len() < h.actual_transfer_len + 8,
        (h.endpoint.0 < 128) != (h.status == usb::Status::Pending) ==> h.transfer_len() == 0,
{
    crate::utils::law_padded(h.actual_transfer_len as nat);
}

/// What is handed out next of a block on its way out is all that is left of the block, or, once that is
/// gone, all that is left of its packets.
pub proof fn law_chunks(s: IsoUrbSend)
    requires
        s.pos() <= s.whole().len(),
        s.seam() <= s.whole().len(),
    ensures
        s.rest() == s.whole().skip(s.pos() as int),
        s.pos() < s.seam() ==> s.next_chunk() == s.whole().take(s.seam() as int).skip(
            s.pos() as int,
        ),
        s.pos() >= s.seam() ==> s.next_chunk() == s.whole().skip(s.pos() as int),
{
    if s.pos() < s.seam() {
        assert(s.next_chunk() =~= s.whole().take(s.seam() as int).skip(s.pos() as int));
    }
}

/// How many bytes an element of each slice takes.
pub proof fn law_element_sizes()
    ensures
        <QusbFrame as GetSliceLen>::elem_len() == 1,
        <UrbFrame as GetSliceLen>::elem_len() == 1,
        <UsbDeviceInfo as GetSliceLen>::elem_len() == 4,
{
}

} // verus!
