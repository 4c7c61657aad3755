//! Little-endian numbers and fixed-size records as bytes.
use vstd::prelude::*;
use vstd::slice::slice_subrange;

verus! {

/// The two bytes of `x`, least significant first.
pub open spec fn le16(x: u16) -> Seq<u8> {
    seq![(x % 256) as u8, (x / 256) as u8]
}

/// The four bytes of `x`, least significant first.
pub open spec fn le32(x: u32) -> Seq<u8> {
    seq![
        (x % 256) as u8,
        (x / 256 % 256) as u8,
        (x / 65536 % 256) as u8,
        (x / 16777216) as u8,
    ]
}

/// The number that the two bytes of `b` from `at` on stand for.
pub open spec fn u16_at(b: Seq<u8>, at: int) -> u16 {
    (b[at] + 256 * b[at + 1]) as u16
}

/// The number that the four bytes of `b` from `at` on stand for.
pub open spec fn u32_at(b: Seq<u8>, at: int) -> u32 {
    (b[at] + 256 * b[at + 1] + 65536 * b[at + 2] + 16777216 * b[at + 3]) as u32
}

/// A number is read back from its own two bytes, and two bytes from the number they stand for.
pub broadcast proof fn lemma_le16(x: u16)
    ensures
        (#[trigger] le16(x)).len() == 2,
        u16_at(le16(x), 0) == x,
{
}

/// A number is read back from its own four bytes.
pub broadcast proof fn lemma_le32(x: u32)
    ensures
        (#[trigger] le32(x)).len() == 4,
        u32_at(le32(x), 0) == x,
{
}

/// Four bytes are those of the number that they stand for.
pub proof fn lemma_le32_canonical(b: Seq<u8>, at: int)
    requires
        0 <= at,
        at + 4 <= b.len(),
    ensures
        le32(u32_at(b, at)) == b.subrange(at, at + 4),
{
    let b0 = b[at] as int;
    let b1 = b[at + 1] as int;
    let b2 = b[at + 2] as int;
    let b3 = b[at + 3] as int;
    let x = b0 + 256 * b1 + 65536 * b2 + 16777216 * b3;
    assert(x % 256 == b0);
    assert(x / 256 == b1 + 256 * b2 + 65536 * b3);
    assert(x / 256 % 256 == b1);
    assert(x / 65536 == b2 + 256 * b3);
    assert(x / 65536 % 256 == b2);
    assert(x / 16777216 == b3);
    assert(le32(u32_at(b, at)) =~= b.subrange(at, at + 4));
}

/// Two bytes are those of the number that they stand for.
pub proof fn lemma_le16_canonical(b: Seq<u8>, at: int)
    requires
        0 <= at,
        at + 2 <= b.len(),
    ensures
        le16(u16_at(b, at)) == b.subrange(at, at + 2),
{
    assert(le16(u16_at(b, at)) =~= b.subrange(at, at + 2));
}

/// The bits of a signed number, read as an unsigned one.
pub open spec fn bits_of(x: i32) -> u32 {
    if x < 0 {
        (x + 0x1_0000_0000) as u32
    } else {
        x as u32
    }
}

/// The signed number that has these bits.
pub open spec fn of_bits(x: u32) -> i32 {
    if x >= 0x8000_0000 {
        (x - 0x1_0000_0000) as i32
    } else {
        x as i32
    }
}

pub(crate) fn to_bits(x: i32) -> (r: u32)
    ensures
        r == bits_of(x),
{
    if x < 0 {
        (x as i64 + 0x1_0000_0000) as u32
    } else {
        x as u32
    }
}

pub(crate) fn from_bits(x: u32) -> (r: i32)
    ensures
        r == of_bits(x),
{
    if x >= 0x8000_0000 {
        (x as i64 - 0x1_0000_0000) as i32
    } else {
        x as i32
    }
}

pub(crate) fn push_u16(v: &mut Vec<u8>, x: u16)
    ensures
        final(v)@ == old(v)@ + le16(x),
{
    v.push((x % 256) as u8);
    v.push((x / 256) as u8);
    assert(v@ =~= old(v)@ + le16(x));
}

pub(crate) fn push_u32(v: &mut Vec<u8>, x: u32)
    ensures
        final(v)@ == old(v)@ + le32(x),
{
    v.push((x % 256) as u8);
    v.push((x / 256 % 256) as u8);
    v.push((x / 65536 % 256) as u8);
    v.push((x / 16777216) as u8);
    assert(v@ =~= old(v)@ + le32(x));
}

pub(crate) fn push_bytes(v: &mut Vec<u8>, s: &[u8])
    ensures
        final(v)@ == old(v)@ + s@,
{
    let n: usize = s.len();
    let mut i: usize = 0;
    while i < n
        invariant
            n == s@.len(),
            i <= n,
            v@ == old(v)@ + s@.take(i as int),
        decreases n - i,
    {
        v.push(s[i]);
        i = i + 1;
        assert(v@ =~= old(v)@ + s@.take(i as int));
    }
    assert(s@.take(n as int) =~= s@);
}

pub(crate) fn read_u16(b: &[u8], at: usize) -> (x: u16)
    requires
        at + 2 <= b@.len(),
    ensures
        x == u16_at(b@, at as int),
{
    b[at] as u16 + 256 * b[at + 1] as u16
}

pub(crate) fn read_u32(b: &[u8], at: usize) -> (x: u32)
    requires
        at + 4 <= b@.len(),
    ensures
        x == u32_at(b@, at as int),
{
    b[at] as u32 + 256 * b[at + 1] as u32 + 65536 * b[at + 2] as u32 + 16777216 * b[at + 3] as u32
}

/// The array whose elements are `s`, for an `s` of the right length.
pub open spec fn array_of<const N: usize>(s: Seq<u8>) -> [u8; N] {
    choose|a: [u8; N]| a@ == s
}

/// An array is the one that has its elements.
pub proof fn lemma_array_of<const N: usize>(a: [u8; N])
    ensures
        array_of::<N>(a@) == a,
{
    let c = array_of::<N>(a@);
    assert(c@ == a@);
    assert(c =~= a);
}

/// A sequence of the right length has an array with its elements.
pub proof fn lemma_array_exists<const N: usize>(s: Seq<u8>)
    requires
        s.len() == N,
    ensures
        array_of::<N>(s)@ == s,
{
    let a = array_with_prefix::<N>(s, N as nat);
    lemma_array_with_prefix::<N>(s, N as nat);
    assert(a@ =~= s);
}

/// An array that begins with the first `k` elements of `s`.
spec fn array_with_prefix<const N: usize>(s: Seq<u8>, k: nat) -> [u8; N]
    decreases k,
{
    if k == 0 {
        vstd::array::spec_array_fill_for_copy_type::<u8, N>(0)
    } else {
        vstd::array::spec_array_update(array_with_prefix::<N>(s, (k - 1) as nat), k - 1, s[k - 1])
    }
}

proof fn lemma_array_with_prefix<const N: usize>(s: Seq<u8>, k: nat)
    requires
        s.len() == N,
        k <= N,
    ensures
        forall|i: int| 0 <= i < k ==> array_with_prefix::<N>(s, k)@[i] == s[i],
    decreases k,
{
    if k > 0 {
        lemma_array_with_prefix::<N>(s, (k - 1) as nat);
    }
}

pub(crate) fn read_array<const N: usize>(b: &[u8], at: usize) -> (a: [u8; N])
    requires
        at + N <= b@.len(),
    ensures
        a@ == b@.subrange(at as int, at + N),
        a == array_of::<N>(b@.subrange(at as int, at + N)),
{
    assert(b@.len() == b.len());
    let mut a: [u8; N] = [0u8; N];
    let mut i: usize = 0;
    while i < N
        invariant
            i <= N,
            at + N <= b@.len(),
            b@.len() <= usize::MAX,
            a@.len() == N,
            forall|j: int| 0 <= j < i ==> a@[j] == b@[at + j],
        decreases N - i,
    {
        a[i] = b[at + i];
        i = i + 1;
    }
    proof {
        assert(a@ =~= b@.subrange(at as int, at + N));
        lemma_array_of(a);
    }
    a
}

/// A record that travels as a fixed number of bytes.
pub trait Wire: Sized {
    /// The number of bytes of every record of the type.
    spec fn wire_len() -> nat;

    /// The bytes of the record.
    spec fn encoding(&self) -> Seq<u8>;

    /// The record that `wire_len` bytes stand for, if they stand for one.
    spec fn decoding(b: Seq<u8>) -> Option<Self>;

    /// The size of a record in bytes.
    fn wire_size() -> (n: usize)
        ensures
            n == Self::wire_len(),
    ;

    /// The bytes of the record.
    fn as_bytes(&self) -> (v: Vec<u8>)
        ensures
            v@ == self.encoding(),
    ;

    /// Reads a record from exactly its number of bytes; `None` where a byte has a value that
    /// the field there cannot have.
    fn try_read_from_bytes(b: &[u8]) -> (r: Option<Self>)
        requires
            b@.len() == Self::wire_len(),
        ensures
            r == Self::decoding(b@),
    ;

    /// What was written is read back.
    proof fn lemma_round_trip(&self)
        ensures
            self.encoding().len() == Self::wire_len(),
            Self::decoding(self.encoding()) == Some(*self),
    ;

    /// What was read is written back byte for byte.
    proof fn lemma_canonical(b: Seq<u8>)
        requires
            b.len() == Self::wire_len(),
            Self::decoding(b) is Some,
        ensures
            Self::decoding(b)->0.encoding() == b,
    ;
}

/// The bytes of records that stand one after the other.
pub open spec fn encode_all<T: Wire>(s: Seq<T>) -> Seq<u8>
    decreases s.len(),
{
    if s.len() == 0 {
        Seq::empty()
    } else {
        encode_all(s.drop_last()) + s.last().encoding()
    }
}

/// The records that bytes stand for, read one after the other from the front, up to the first
/// that stands for none or for which bytes are missing.
pub open spec fn decode_while<T: Wire>(b: Seq<u8>) -> Seq<T>
    decreases b.len(),
{
    if T::wire_len() == 0 || b.len() < T::wire_len() {
        Seq::empty()
    } else {
        match T::decoding(b.take(T::wire_len() as int)) {
            Some(x) => seq![x] + decode_while::<T>(b.skip(T::wire_len() as int)),
            None => Seq::empty(),
        }
    }
}

/// Records that stand one after the other take the sum of their sizes.
pub proof fn lemma_encode_all_len<T: Wire>(s: Seq<T>)
    ensures
        encode_all(s).len() == s.len() * T::wire_len(),
    decreases s.len(),
{
    if s.len() > 0 {
        lemma_encode_all_len(s.drop_last());
        s.last().lemma_round_trip();
        assert(s.len() * T::wire_len() == (s.len() - 1) * T::wire_len() + T::wire_len())
            by (nonlinear_arith)
            requires
                s.len() > 0,
        ;
    } else {
        assert(s.len() * T::wire_len() == 0) by (nonlinear_arith)
            requires
                s.len() == 0,
        ;
    }
}

/// The first record's bytes come first.
pub proof fn lemma_encode_all_first<T: Wire>(s: Seq<T>)
    requires
        s.len() > 0,
    ensures
        encode_all(s) == s[0].encoding() + encode_all(s.drop_first()),
    decreases s.len(),
{
    if s.len() == 1 {
        assert(s.drop_last() =~= Seq::<T>::empty());
        assert(s.drop_first() =~= Seq::<T>::empty());
        assert(encode_all(s) =~= s[0].encoding() + encode_all(s.drop_first()));
    } else {
        lemma_encode_all_first(s.drop_last());
        assert(s.drop_last().drop_first() =~= s.drop_first().drop_last());
        assert(encode_all(s) =~= s[0].encoding() + encode_all(s.drop_first()));
    }
}

/// Records written one after the other are read back, whatever follows that is too short for
/// another.
pub proof fn lemma_decode_all<T: Wire>(s: Seq<T>, rest: Seq<u8>)
    requires
        T::wire_len() > 0,
        rest.len() < T::wire_len(),
    ensures
        decode_while::<T>(encode_all(s) + rest) == s,
    decreases s.len(),
{
    let b = encode_all(s) + rest;
    if s.len() == 0 {
        assert(b =~= rest);
    } else {
        lemma_encode_all_first(s);
        s[0].lemma_round_trip();
        assert(b.take(T::wire_len() as int) =~= s[0].encoding());
        assert(b.skip(T::wire_len() as int) =~= encode_all(s.drop_first()) + rest);
        lemma_decode_all(s.drop_first(), rest);
        assert(seq![s[0]] + s.drop_first() =~= s);
    }
}

/// Writes records one after the other.
pub(crate) fn write_all<T: Wire>(s: &[T]) -> (v: Vec<u8>)
    ensures
        v@ == encode_all(s@),
{
    let mut v: Vec<u8> = Vec::new();
    let n: usize = s.len();
    let mut i: usize = 0;
    assert(s@.take(0) =~= Seq::<T>::empty());
    while i < n
        invariant
            n == s@.len(),
            i <= n,
            v@ == encode_all(s@.take(i as int)),
        decreases n - i,
    {
        push_bytes(&mut v, s[i].as_bytes().as_slice());
        assert(s@.take(i + 1).drop_last() =~= s@.take(i as int));
        i = i + 1;
    }
    assert(s@.take(n as int) =~= s@);
    v
}

/// Reads records from the front, up to the first that cannot be read.
pub(crate) fn read_while<T: Wire>(b: &[u8]) -> (v: Vec<T>)
    requires
        T::wire_len() > 0,
    ensures
        v@ == decode_while::<T>(b@),
{
    let mut v: Vec<T> = Vec::new();
    let w: usize = T::wire_size();
    let n: usize = b.len();
    let mut at: usize = 0;
    assert(b@.skip(0) =~= b@);
    while n - at >= w
        invariant
            n == b@.len(),
            at <= n,
            w == T::wire_len(),
            w > 0,
            decode_while::<T>(b@) == v@ + decode_while::<T>(b@.skip(at as int)),
        decreases n - at,
    {
        let piece = slice_subrange(b, at, at + w);
        assert(piece@ =~= b@.skip(at as int).take(w as int));
        assert(b@.skip(at as int).skip(w as int) =~= b@.skip(at + w));
        match T::try_read_from_bytes(piece) {
            Some(x) => {
                assert(v@ + (seq![x] + decode_while::<T>(b@.skip(at + w))) =~= v@.push(x)
                    + decode_while::<T>(b@.skip(at + w)));
                v.push(x);
                at = at + w;
            },
            None => {
                assert(v@ + Seq::<T>::empty() =~= v@);
                return v;
            },
        }
    }
    assert(v@ + Seq::<T>::empty() =~= v@);
    v
}

/// Reads the record at the start of `b`.
pub(crate) fn try_read_from_prefix<T: Wire>(b: &[u8]) -> (r: Option<T>)
    requires
        T::wire_len() <= b@.len(),
    ensures
        r == T::decoding(b@.take(T::wire_len() as int)),
{
    let n: usize = T::wire_size();
    let head = slice_subrange(b, 0, n);
    assert(head@ =~= b@.take(n as int));
    T::try_read_from_bytes(head)
}

} // verus!
