//! Records that own their bytes, and the buffer that they are cut from.
use crate::buf;
use crate::codec;
use crate::codec::{read_while, try_read_from_prefix, Wire};
use crate::proto::msg::{QusbFrame, UrbFrame, UsbDeviceInfo};
use crate::proto::{GetSliceLen, GetSliceLenErr};
use bytes::BytesMut;
use std::marker::PhantomData;
use vstd::prelude::*;
use vstd::slice::slice_subrange;

verus! {

/// Why a record could not be read.
#[derive(Debug, Clone, Copy, PartialEq, Eq, Structural)]
pub enum ReadError {
    /// The bytes are not those of a record of the type.
    CorruptedData,
    /// The buffer is too short to read the type.
    BufferShort { num_bytes_needed: usize },
}

impl From<GetSliceLenErr> for ReadError {
    fn from(value: GetSliceLenErr) -> (e: Self) {
        match value {
            GetSliceLenErr::NoConfidence => ReadError::CorruptedData,
            GetSliceLenErr::BufferShort { num_bytes_needed } => ReadError::BufferShort {
                num_bytes_needed,
            },
        }
    }
}

impl vstd::std_specs::convert::FromSpecImpl<GetSliceLenErr> for ReadError {
    open spec fn obeys_from_spec() -> bool {
        true
    }

    open spec fn from_spec(value: GetSliceLenErr) -> Self {
        match value {
            GetSliceLenErr::NoConfidence => ReadError::CorruptedData,
            GetSliceLenErr::BufferShort { num_bytes_needed } => ReadError::BufferShort {
                num_bytes_needed,
            },
        }
    }
}

/// The error of a record whose trailing slice has no length.
pub open spec fn read_error(e: GetSliceLenErr) -> ReadError {
    match e {
        GetSliceLenErr::NoConfidence => ReadError::CorruptedData,
        GetSliceLenErr::BufferShort { num_bytes_needed } => ReadError::BufferShort {
            num_bytes_needed,
        },
    }
}

/// A type that some sequences of bytes stand for.
pub trait ValidBytes: Sized {
    /// Tells whether the bytes stand for a value of the type.
    spec fn valid(b: Seq<u8>) -> bool;

    fn is_valid(b: &[u8]) -> (r: bool)
        ensures
            r == Self::valid(b@),
    ;
}

/// Bytes of any kind.
pub struct RawBytes;

impl ValidBytes for RawBytes {
    open spec fn valid(b: Seq<u8>) -> bool {
        true
    }

    fn is_valid(b: &[u8]) -> bool {
        true
    }
}

/// A record of a fixed size is valid where its bytes can be read.
impl<T: Wire> ValidBytes for T {
    open spec fn valid(b: Seq<u8>) -> bool {
        b.len() == T::wire_len() && T::decoding(b) is Some
    }

    fn is_valid(b: &[u8]) -> bool {
        b.len() == T::wire_size() && T::try_read_from_bytes(b).is_some()
    }
}

/// Tells whether bytes are a valid header and a whole number of elements.
pub open spec fn is_dst<T: GetSliceLen>(b: Seq<u8>) -> bool {
    let w = T::Header::wire_len() as int;
    &&& b.len() >= w
    &&& T::Header::decoding(b.take(w)) is Some
    &&& (b.len() - w) % (T::elem_len() as int) == 0
}

fn check_dst<T: GetSliceLen>(b: &[u8]) -> (r: bool)
    requires
        T::elem_len() > 0,
    ensures
        r == is_dst::<T>(b@),
{
    let w: usize = <T::Header>::wire_size();
    if b.len() < w {
        return false;
    }
    match try_read_from_prefix::<T::Header>(b) {
        Some(_) => (b.len() - w) % T::elem_size() == 0,
        None => false,
    }
}

impl ValidBytes for QusbFrame {
    open spec fn valid(b: Seq<u8>) -> bool {
        is_dst::<QusbFrame>(b)
    }

    fn is_valid(b: &[u8]) -> bool {
        check_dst::<QusbFrame>(b)
    }
}

impl ValidBytes for UrbFrame {
    open spec fn valid(b: Seq<u8>) -> bool {
        is_dst::<UrbFrame>(b)
    }

    fn is_valid(b: &[u8]) -> bool {
        check_dst::<UrbFrame>(b)
    }
}

impl ValidBytes for UsbDeviceInfo {
    open spec fn valid(b: Seq<u8>) -> bool {
        is_dst::<UsbDeviceInfo>(b)
    }

    fn is_valid(b: &[u8]) -> bool {
        check_dst::<UsbDeviceInfo>(b)
    }
}

/// A record with a header and a trailing slice, which every valid header begins.
pub trait Dst: GetSliceLen + ValidBytes {
    proof fn lemma_valid(b: Seq<u8>)
        ensures
            Self::valid(b) == is_dst::<Self>(b),
    ;
}

impl Dst for QusbFrame {
    proof fn lemma_valid(b: Seq<u8>) {
    }
}

impl Dst for UrbFrame {
    proof fn lemma_valid(b: Seq<u8>) {
    }
}

impl Dst for UsbDeviceInfo {
    proof fn lemma_valid(b: Seq<u8>) {
    }
}

/// The number of bytes that the record at the start of `buf` takes, header and slice.
pub open spec fn dst_size<T: GetSliceLen>(buf: Seq<u8>) -> Result<nat, ReadError> {
    match T::slice_len(buf) {
        Err(e) => Err(read_error(e)),
        Ok(n) => if T::Header::decoding(buf.take(T::Header::wire_len() as int)) is Some {
            Ok(T::Header::wire_len() + n * T::elem_len())
        } else {
            Err(ReadError::CorruptedData)
        },
    }
}

/// The size of the record at the start of `b`.
fn size_of_dst<T: GetSliceLen>(b: &[u8]) -> (r: Result<usize, ReadError>)
    ensures
        match dst_size::<T>(b@) {
            Ok(n) => r matches Ok(m) && m == n && n <= b@.len() && T::Header::wire_len() <= n,
            Err(e) => r == Err::<usize, ReadError>(e),
        },
{
    let len: usize = b.len();
    proof {
        T::lemma_slice_len(b@);
    }
    let n: usize = match T::get_slice_len(b) {
        Ok(n) => n,
        Err(GetSliceLenErr::NoConfidence) => return Err(ReadError::CorruptedData),
        Err(GetSliceLenErr::BufferShort { num_bytes_needed }) => return Err(
            ReadError::BufferShort { num_bytes_needed },
        ),
    };
    let w: usize = <T::Header>::wire_size();
    let e: usize = T::elem_size();
    assert(0 <= n * e) by (nonlinear_arith);
    assert(w + n * e <= len);
    match try_read_from_prefix::<T::Header>(b) {
        Some(_) => Ok(w + n * e),
        None => Err(ReadError::CorruptedData),
    }
}

/// A record in a buffer: its header and the bytes of its slice.
pub struct DstRef<'a, T: GetSliceLen> {
    pub header: T::Header,
    pub data: &'a [u8],
}

/// A record that owns its bytes.
pub struct Data<T: ValidBytes> {
    buf: BytesMut,
    _p: PhantomData<T>,
}

impl<T: ValidBytes> Data<T> {
    /// The record's bytes.
    pub closed spec fn bytes(&self) -> Seq<u8> {
        buf::bytes_of(self.buf)
    }

    /// The record's bytes are those of a record.
    pub open spec fn wf(&self) -> bool {
        T::valid(self.bytes())
    }

    /// Takes bytes for a record, where they are those of one.
    pub fn new(buf: BytesMut) -> (r: Option<Self>)
        ensures
            r is Some <==> T::valid(buf::bytes_of(buf)),
            r matches Some(d) ==> d.wf() && d.bytes() == buf::bytes_of(buf),
    {
        if T::is_valid(buf::as_slice(&buf)) {
            Some(Self { buf, _p: PhantomData })
        } else {
            None
        }
    }

    pub fn as_bytes(&self) -> (b: &[u8])
        ensures
            b@ == self.bytes(),
    {
        buf::as_slice(&self.buf)
    }

    pub fn len(&self) -> (n: usize)
        ensures
            n == self.bytes().len(),
    {
        buf::len(&self.buf)
    }

    pub fn is_empty(&self) -> (b: bool)
        ensures
            b <==> self.bytes().len() == 0,
    {
        buf::len(&self.buf) == 0
    }

    /// Hands the bytes out.
    pub fn into_bytes_mut(self) -> (b: BytesMut)
        ensures
            buf::bytes_of(b) == self.bytes(),
    {
        self.buf
    }
}

impl<T: Wire> Data<T> {
    /// Reads the record of a type that any bytes stand for, if there are enough of them.
    pub fn read(&self) -> (x: T)
        requires
            self.wf(),
        ensures
            T::decoding(self.bytes()) == Some(x),
            x.encoding() == self.bytes(),
    {
        self.try_read()
    }

    /// Reads the record.
    pub fn try_read(&self) -> (x: T)
        requires
            self.wf(),
        ensures
            T::decoding(self.bytes()) == Some(x),
            x.encoding() == self.bytes(),
    {
        proof {
            T::lemma_canonical(self.bytes());
        }
        match T::try_read_from_bytes(buf::as_slice(&self.buf)) {
            Some(x) => x,
            None => vstd::pervasive::unreached(),
        }
    }
}

impl<T: Dst> Data<T> {
    /// The record's header.
    pub open spec fn head(&self) -> T::Header {
        T::Header::decoding(self.bytes().take(T::Header::wire_len() as int))->0
    }

    /// The bytes of the record's slice.
    pub open spec fn tail(&self) -> Seq<u8> {
        self.bytes().skip(T::Header::wire_len() as int)
    }

    pub fn header(&self) -> (h: T::Header)
        requires
            self.wf(),
        ensures
            h == self.head(),
    {
        proof {
            T::lemma_valid(self.bytes());
        }
        match try_read_from_prefix::<T::Header>(buf::as_slice(&self.buf)) {
            Some(h) => h,
            None => vstd::pervasive::unreached(),
        }
    }

    pub fn get(&self) -> (r: DstRef<'_, T>)
        requires
            self.wf(),
        ensures
            r.header == self.head(),
            r.data@ == self.tail(),
    {
        proof {
            T::lemma_valid(self.bytes());
        }
        let b = buf::as_slice(&self.buf);
        let w: usize = <T::Header>::wire_size();
        let data = slice_subrange(b, w, b.len());
        assert(data@ =~= self.tail());
        DstRef { header: self.header(), data }
    }

    /// The record's slice, to be written to.
    pub fn get_mut(&mut self) -> (data: &mut [u8])
        requires
            old(self).wf(),
        ensures
            data@ == old(self).tail(),
            final(self).bytes() == old(self).bytes().take(T::Header::wire_len() as int)
                + final(data)@,
    {
        proof {
            T::lemma_valid(self.bytes());
        }
        let w: usize = <T::Header>::wire_size();
        let b = buf::as_mut_slice(&mut self.buf);
        let (_, data) = b.split_at_mut(w);
        data
    }

    /// Splits the record after its header; the second part is there where what follows the
    /// header stands for a `U`.
    pub fn split<U: ValidBytes>(self) -> (r: (Data<T::Header>, Option<Data<U>>))
        requires
            self.wf(),
        ensures
            r.0.wf(),
            r.0.bytes() == self.bytes().take(T::Header::wire_len() as int),
            r.1 is Some <==> U::valid(self.tail()),
            r.1 matches Some(d) ==> d.wf() && d.bytes() == self.tail(),
    {
        proof {
            T::lemma_valid(self.bytes());
        }
        let w: usize = <T::Header>::wire_size();
        let mut b = self.buf;
        let rest = buf::split_off(&mut b, w);
        assert(buf::bytes_of(rest) =~= self.tail());
        (Data { buf: b, _p: PhantomData }, Data::<U>::new(rest))
    }

    /// What follows the header, where it stands for a `U`.
    pub fn split_data<U: ValidBytes>(self) -> (r: Option<Data<U>>)
        requires
            self.wf(),
        ensures
            r is Some <==> U::valid(self.tail()),
            r matches Some(d) ==> d.wf() && d.bytes() == self.tail(),
    {
        self.split::<U>().1
    }
}

/// `item` is the record at the start of `before`, header and slice, and `after` is what follows it;
/// where there is no record, nothing is read.
pub open spec fn dst_next<T: GetSliceLen>(
    before: Seq<u8>,
    after: Seq<u8>,
    item: Option<(T::Header, Seq<u8>)>,
) -> bool {
    match dst_size::<T>(before) {
        Ok(n) => {
            let w = T::Header::wire_len() as int;
            &&& item matches Some((header, data))
            &&& T::Header::decoding(before.take(w)) == Some(header)
            &&& data == before.subrange(w, n as int)
            &&& after == before.skip(n as int)
        },
        Err(_) => item is None && after == before,
    }
}

/// The records that bytes are made of, one after the other, up to the first that cannot be read.
pub open spec fn dst_records<T: GetSliceLen>(b: Seq<u8>) -> Seq<(T::Header, Seq<u8>)>
    decreases b.len(),
{
    let w = T::Header::wire_len() as int;
    match dst_size::<T>(b) {
        Ok(n) => if 0 < n <= b.len() {
            seq![(T::Header::decoding(b.take(w))->0, b.subrange(w, n as int))] + dst_records::<T>(
                b.skip(n as int),
            )
        } else {
            Seq::empty()
        },
        Err(_) => Seq::empty(),
    }
}

/// Whoever asks for the next record again and again gets every record once and in order, and nothing
/// from the first on that cannot be read. `rests` is what was still to be read, before each call and
/// after the last; `items` is what the calls gave.
pub proof fn law_records_come_in_order<T: GetSliceLen>(
    rests: Seq<Seq<u8>>,
    items: Seq<Option<(T::Header, Seq<u8>)>>,
)
    requires
        T::Header::wire_len() > 0,
        rests.len() == items.len() + 1,
        forall|i: int|
            0 <= i < items.len() ==> dst_next::<T>(#[trigger] rests[i], rests[i + 1], items[i]),
    ensures
        forall|i: int|
            0 <= i < items.len() ==> #[trigger] items[i] == (if i < dst_records::<T>(
                rests[0],
            ).len() {
                Some(dst_records::<T>(rests[0])[i])
            } else {
                None
            }),
    decreases items.len(),
{
    if items.len() > 0 {
        let later = rests.drop_first();
        let others = items.drop_first();
        assert forall|i: int| 0 <= i < others.len() implies dst_next::<T>(
            #[trigger] later[i],
            later[i + 1],
            others[i],
        ) by {
            assert(dst_next::<T>(rests[i + 1], rests[i + 2], items[i + 1]));
        }
        law_records_come_in_order::<T>(later, others);
        T::lemma_slice_len(rests[0]);
        assert(dst_next::<T>(rests[0], rests[1], items[0]));
        let all = dst_records::<T>(rests[0]);
        assert(later[0] == rests[1]);
        assert forall|i: int| 0 <= i < items.len() implies #[trigger] items[i] == (if i
            < all.len() {
            Some(all[i])
        } else {
            None
        }) by {
            if i > 0 {
                assert(others[i - 1] == items[i]);
            }
        }
    }
}

/// The records at the start of a buffer, one after the other; each may have a size of its own.
pub struct IterDst<'a, T: GetSliceLen> {
    buf: &'a [u8],
    _p: PhantomData<T>,
}

impl<'a, T: GetSliceLen> IterDst<'a, T> {
    /// The bytes that are still to be read.
    pub closed spec fn rest(&self) -> Seq<u8> {
        self.buf@
    }

    /// The next record; `None`, with nothing read, where there is none.
    pub fn next(&mut self) -> (r: Option<DstRef<'a, T>>)
        ensures
            dst_next::<T>(
                old(self).rest(),
                final(self).rest(),
                match r {
                    Some(item) => Some((item.header, item.data@)),
                    None => None,
                },
            ),
    {
        let b = self.buf;
        let n: usize = match size_of_dst::<T>(b) {
            Ok(n) => n,
            Err(_) => return None,
        };
        let w: usize = <T::Header>::wire_size();
        match try_read_from_prefix::<T::Header>(b) {
            Some(header) => {
                let data = slice_subrange(b, w, n);
                self.buf = slice_subrange(b, n, b.len());
                assert(self.buf@ =~= b@.skip(n as int));
                Some(DstRef { header, data })
            },
            None => None,
        }
    }
}

/// The records at the start of a buffer that may be written to.
pub struct IterMutDst<'a, T: GetSliceLen> {
    pub buf: &'a mut [u8],
    pub _p: PhantomData<T>,
}

impl<'a, T: GetSliceLen> IterMutDst<'a, T> {
    /// The bytes of the next record, and the records after it; `None` where there is none.
    pub fn next(self) -> (r: Option<(&'a mut [u8], Self)>)
        ensures
            r is Some <==> dst_size::<T>(old(self.buf)@) is Ok,
            r matches Some((item, after)) ==> {
                let n = dst_size::<T>(old(self.buf)@)->Ok_0 as int;
                &&& item@ == old(self.buf)@.take(n)
                &&& after.buf@ == old(self.buf)@.skip(n)
                &&& final(self.buf)@ == final(item)@ + final(after.buf)@
            },
            r is None ==> final(self.buf)@ == old(self.buf)@,
    {
        let n: usize = match size_of_dst::<T>(self.buf) {
            Ok(n) => n,
            Err(_) => return None,
        };
        let (item, rest) = self.buf.split_at_mut(n);
        Some((item, Self { buf: rest, _p: PhantomData }))
    }
}

/// Records of one fixed size in a buffer that may be written to.
pub struct IterMut<'a, T: Wire> {
    pub buf: &'a mut [u8],
    pub _p: PhantomData<T>,
}

impl<'a, T: Wire> IterMut<'a, T> {
    /// The bytes of the next record, and the records after it; `None` where there is none.
    pub fn next(self) -> (r: Option<(&'a mut [u8], Self)>)
        ensures
            r is Some <==> old(self.buf)@.len() >= T::wire_len() && T::decoding(
                old(self.buf)@.take(T::wire_len() as int),
            ) is Some,
            r matches Some((item, after)) ==> {
                let n = T::wire_len() as int;
                &&& item@ == old(self.buf)@.take(n)
                &&& after.buf@ == old(self.buf)@.skip(n)
                &&& final(self.buf)@ == final(item)@ + final(after.buf)@
            },
            r is None ==> final(self.buf)@ == old(self.buf)@,
    {
        let n: usize = T::wire_size();
        if self.buf.len() < n || try_read_from_prefix::<T>(self.buf).is_none() {
            return None;
        }
        let (item, rest) = self.buf.split_at_mut(n);
        Some((item, Self { buf: rest, _p: PhantomData }))
    }
}

/// What reading a record of a fixed size from the start of a buffer gives.
pub open spec fn peeked<T: Wire>(b: Seq<u8>) -> Result<T, ReadError> {
    if b.len() < T::wire_len() {
        Err(ReadError::BufferShort { num_bytes_needed: (T::wire_len() - b.len()) as usize })
    } else {
        match T::decoding(b.take(T::wire_len() as int)) {
            Some(x) => Ok(x),
            None => Err(ReadError::CorruptedData),
        }
    }
}

/// Bytes that came from a peer and wait to be read as records.
pub struct Ring {
    buf: BytesMut,
}

impl View for Ring {
    type V = Seq<u8>;

    closed spec fn view(&self) -> Seq<u8> {
        buf::bytes_of(self.buf)
    }
}

impl Ring {
    /// Creates a new `Ring` with the specified capacity.
    pub fn with_capacity(cap: usize) -> (r: Self)
        requires
            cap <= isize::MAX,
        ensures
            r@ == Seq::<u8>::empty(),
    {
        Self { buf: buf::with_capacity(cap) }
    }

    /// Makes room for at least `additional` more bytes, and leaves the bytes as they are. How much
    /// room there is belongs to the allocation, of which nothing is said.
    pub fn reserve(&mut self, additional: usize)
        requires
            old(self)@.len() + additional <= buf::max_len(),
        ensures
            final(self)@ == old(self)@,
    {
        buf::reserve(&mut self.buf, additional);
    }

    /// Reads the record at the start without consuming it.
    pub fn peek<T: Wire>(&self) -> (r: Result<T, ReadError>)
        ensures
            r == peeked::<T>(self@),
    {
        let b = buf::as_slice(&self.buf);
        let n: usize = T::wire_size();
        if b.len() < n {
            return Err(ReadError::BufferShort { num_bytes_needed: n - b.len() });
        }
        match try_read_from_prefix::<T>(b) {
            Some(x) => Ok(x),
            None => Err(ReadError::CorruptedData),
        }
    }

    /// Reads the record with a trailing slice at the start without consuming it.
    pub fn peek_dst<T: GetSliceLen>(&self) -> (r: Result<DstRef<'_, T>, ReadError>)
        ensures
            match dst_size::<T>(self@) {
                Err(e) => r == Err::<DstRef<'_, T>, ReadError>(e),
                Ok(n) => r matches Ok(item) && Some(item.header) == T::Header::decoding(
                    self@.take(T::Header::wire_len() as int),
                ) && item.data@ == self@.subrange(T::Header::wire_len() as int, n as int),
            },
    {
        let b = buf::as_slice(&self.buf);
        let n: usize = size_of_dst::<T>(b)?;
        let w: usize = <T::Header>::wire_size();
        match try_read_from_prefix::<T::Header>(b) {
            Some(header) => Ok(DstRef { header, data: slice_subrange(b, w, n) }),
            None => Err(ReadError::CorruptedData),
        }
    }

    /// The bytes of the record at the start, to be written to.
    pub fn peek_mut<T: Wire>(&mut self) -> (r: Result<&mut [u8], ReadError>)
        ensures
            match peeked::<T>(old(self)@) {
                Err(e) => r matches Err(e2) && e2 == e && final(self)@ == old(self)@,
                Ok(_) => r matches Ok(item) && item@ == old(self)@.take(T::wire_len() as int)
                    && final(self)@ == final(item)@ + old(self)@.skip(T::wire_len() as int),
            },
    {
        let n: usize = T::wire_size();
        let len: usize = buf::len(&self.buf);
        if len < n {
            return Err(ReadError::BufferShort { num_bytes_needed: n - len });
        }
        if try_read_from_prefix::<T>(buf::as_slice(&self.buf)).is_none() {
            return Err(ReadError::CorruptedData);
        }
        let (item, _) = buf::as_mut_slice(&mut self.buf).split_at_mut(n);
        Ok(item)
    }

    /// The bytes of the record with a trailing slice at the start, to be written to.
    pub fn peek_mut_dst<T: GetSliceLen>(&mut self) -> (r: Result<&mut [u8], ReadError>)
        ensures
            match dst_size::<T>(old(self)@) {
                Err(e) => r matches Err(e2) && e2 == e && final(self)@ == old(self)@,
                Ok(n) => r matches Ok(item) && item@ == old(self)@.take(n as int) && final(self)@
                    == final(item)@ + old(self)@.skip(n as int),
            },
    {
        let n: usize = match size_of_dst::<T>(buf::as_slice(&self.buf)) {
            Ok(n) => n,
            Err(e) => return Err(e),
        };
        let (item, _) = buf::as_mut_slice(&mut self.buf).split_at_mut(n);
        Ok(item)
    }

    /// Reads the record at the start and consumes its bytes; on an error nothing is consumed.
    pub fn read<T: Wire>(&mut self) -> (r: Result<T, ReadError>)
        ensures
            r == peeked::<T>(old(self)@),
            final(self)@ == (if r is Ok {
                old(self)@.skip(T::wire_len() as int)
            } else {
                old(self)@
            }),
    {
        let item = self.peek::<T>()?;
        buf::advance(&mut self.buf, T::wire_size());
        Ok(item)
    }

    /// Drops the first `num_bytes` bytes.
    pub fn consume(&mut self, num_bytes: usize)
        requires
            num_bytes <= old(self)@.len(),
        ensures
            final(self)@ == old(self)@.skip(num_bytes as int),
    {
        buf::advance(&mut self.buf, num_bytes);
    }

    /// Takes ownership of the record at the start; on an error nothing is consumed.
    pub fn claim_dst<T: Dst>(&mut self) -> (r: Result<Data<T>, ReadError>)
        ensures
            match dst_size::<T>(old(self)@) {
                Err(e) => r == Err::<Data<T>, ReadError>(e) && final(self)@ == old(self)@,
                Ok(n) => r matches Ok(d) && d.wf() && d.bytes() == old(self)@.take(n as int)
                    && final(self)@ == old(self)@.skip(n as int),
            },
    {
        let n: usize = size_of_dst::<T>(buf::as_slice(&self.buf))?;
        let head = buf::split_to(&mut self.buf, n);
        proof {
            let w = T::Header::wire_len() as int;
            let k = T::slice_len(old(self)@)->Ok_0;
            assert(buf::bytes_of(head).take(w) =~= old(self)@.take(w));
            T::lemma_slice_len(old(self)@);
            T::lemma_valid(buf::bytes_of(head));
            vstd::arithmetic::div_mod::lemma_mod_multiples_basic(k as int, T::elem_len() as int);
        }
        Ok(Data { buf: head, _p: PhantomData })
    }

    /// The records of one fixed size at the start, up to the first that cannot be read.
    pub fn iter<T: Wire>(&self) -> (v: Vec<T>)
        requires
            T::wire_len() > 0,
        ensures
            v@ == codec::decode_while::<T>(self@),
    {
        read_while::<T>(buf::as_slice(&self.buf))
    }

    /// The records with trailing slices at the start, each of its own size.
    pub fn iter_dst<T: GetSliceLen>(&self) -> (it: IterDst<'_, T>)
        ensures
            it.rest() == self@,
    {
        IterDst { buf: buf::as_slice(&self.buf), _p: PhantomData }
    }

    /// The records of one fixed size at the start, to be written to.
    pub fn iter_mut<T: Wire>(&mut self) -> (it: IterMut<'_, T>)
        ensures
            it.buf@ == old(self)@,
            final(self)@ == final(it.buf)@,
    {
        IterMut { buf: buf::as_mut_slice(&mut self.buf), _p: PhantomData }
    }

    /// The records with trailing slices at the start, to be written to.
    pub fn iter_mut_dst<T: GetSliceLen>(&mut self) -> (it: IterMutDst<'_, T>)
        ensures
            it.buf@ == old(self)@,
            final(self)@ == final(it.buf)@,
    {
        IterMutDst { buf: buf::as_mut_slice(&mut self.buf), _p: PhantomData }
    }

    /// Shifts the bytes to the front of the allocation, where that is cheap. They stay as they are;
    /// whether they are shifted depends on the allocation and on the other handles to it, so that
    /// nothing is said of it.
    pub fn try_consolidate(&mut self)
        ensures
            final(self)@ == old(self)@,
    {
        let size: usize = buf::capacity(&self.buf) - buf::len(&self.buf);
        let _ = buf::try_reclaim(&mut self.buf, size);
    }

    /// Returns the number of bytes contained in this `Ring`.
    pub fn len(&self) -> (n: usize)
        ensures
            n == self@.len(),
            n <= isize::MAX,
    {
        buf::len(&self.buf)
    }

    /// Returns true if the `Ring` has a length of 0.
    pub fn is_empty(&self) -> (b: bool)
        ensures
            b <==> self@.len() == 0,
    {
        buf::len(&self.buf) == 0
    }

    /// The bytes that are still to be read.
    pub fn chunk(&self) -> (b: &[u8])
        ensures
            b@ == self@,
    {
        buf::as_slice(&self.buf)
    }

    /// Returns the number of bytes that are still to be read.
    pub fn remaining(&self) -> (n: usize)
        ensures
            n == self@.len(),
    {
        buf::len(&self.buf)
    }

    /// Prepares for more bytes where fewer than `num_bytes` are there; tells whether they are.
    ///
    /// Makes room for 16 KiB more where fewer than 64 bytes are free.
    pub fn prepare_fill(&mut self, num_bytes: usize) -> (done: bool)
        requires
            old(self)@.len() + 16384 <= buf::max_len(),
        ensures
            done <==> num_bytes <= old(self)@.len(),
            final(self)@ == old(self)@,
    {
        let len: usize = buf::len(&self.buf);
        if num_bytes <= len {
            return true;
        }
        if buf::capacity(&self.buf) < len + 64 {
            self.reserve(16384);
        }
        false
    }

    /// Takes in bytes that were read from the peer; tells whether there were any. That there
    /// were none means that the peer has closed its side.
    pub fn fill(&mut self, bytes: &[u8]) -> (open: bool)
        requires
            old(self)@.len() + bytes@.len() <= buf::max_len(),
        ensures
            final(self)@ == old(self)@ + bytes@,
            open <==> bytes@.len() > 0,
    {
        buf::put_slice(&mut self.buf, bytes);
        bytes.len() > 0
    }
}

} // verus!
