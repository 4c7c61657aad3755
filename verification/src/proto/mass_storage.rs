//! Records of the mass storage class.
use crate::codec;
use crate::codec::{push_bytes, push_u32, read_array, read_u32, Wire};
use vstd::prelude::*;

verus! {

/// A command to a mass storage device.
#[derive(Debug, Clone, Copy)]
pub struct CommandBlockWrapper {
    pub d_cbw_signature: [u8; 4],
    pub d_cbw_tag: u32,
    pub d_cbw_data_transfer_length: u32,
    pub bm_cbw_flags: u8,
    pub b_cbw_lun: u8,
    pub b_cbw_cb_length: u8,
    pub cbw_cb: [u8; 16],
}

impl Wire for CommandBlockWrapper {
    open spec fn wire_len() -> nat {
        31
    }

    open spec fn encoding(&self) -> Seq<u8> {
        self.d_cbw_signature@
            + codec::le32(self.d_cbw_tag)
            + codec::le32(self.d_cbw_data_transfer_length)
            + seq![self.bm_cbw_flags, self.b_cbw_lun, self.b_cbw_cb_length]
            + self.cbw_cb@
    }

    open spec fn decoding(b: Seq<u8>) -> Option<Self> {
        Some(
            CommandBlockWrapper {
                d_cbw_signature: codec::array_of::<4>(b.subrange(0, 4)),
                d_cbw_tag: codec::u32_at(b, 4),
                d_cbw_data_transfer_length: codec::u32_at(b, 8),
                bm_cbw_flags: b[12],
                b_cbw_lun: b[13],
                b_cbw_cb_length: b[14],
                cbw_cb: codec::array_of::<16>(b.subrange(15, 31)),
            },
        )
    }

    fn wire_size() -> usize {
        31
    }

    fn as_bytes(&self) -> Vec<u8> {
        let mut v: Vec<u8> = Vec::new();
        push_bytes(&mut v, self.d_cbw_signature.as_slice());
        push_u32(&mut v, self.d_cbw_tag);
        push_u32(&mut v, self.d_cbw_data_transfer_length);
        v.push(self.bm_cbw_flags);
        v.push(self.b_cbw_lun);
        v.push(self.b_cbw_cb_length);
        push_bytes(&mut v, self.cbw_cb.as_slice());
        assert(v@ =~= self.encoding());
        v
    }

    fn try_read_from_bytes(b: &[u8]) -> Option<Self> {
        Some(
            CommandBlockWrapper {
                d_cbw_signature: read_array::<4>(b, 0),
                d_cbw_tag: read_u32(b, 4),
                d_cbw_data_transfer_length: read_u32(b, 8),
                bm_cbw_flags: b[12],
                b_cbw_lun: b[13],
                b_cbw_cb_length: b[14],
                cbw_cb: read_array::<16>(b, 15),
            },
        )
    }

    proof fn lemma_round_trip(&self) {
        let e = self.encoding();
        codec::lemma_array_of(self.d_cbw_signature);
        assert(e.subrange(0, 4) =~= self.d_cbw_signature@);
        codec::lemma_array_of(self.cbw_cb);
        assert(e.subrange(15, 31) =~= self.cbw_cb@);
        assert(codec::u32_at(e, 4) == codec::u32_at(codec::le32(self.d_cbw_tag), 0));
        codec::lemma_le32(self.d_cbw_tag);
        assert(codec::u32_at(e, 8) == codec::u32_at(codec::le32(self.d_cbw_data_transfer_length), 0));
        codec::lemma_le32(self.d_cbw_data_transfer_length);
    }

    proof fn lemma_canonical(b: Seq<u8>) {
        codec::lemma_array_exists::<4>(b.subrange(0, 4));
        codec::lemma_le32_canonical(b, 4);
        codec::lemma_le32_canonical(b, 8);
        codec::lemma_array_exists::<16>(b.subrange(15, 31));
        assert(Self::decoding(b)->0.encoding() =~= b);
    }
}

/// A mass storage device's answer.
#[derive(Debug, Clone, Copy)]
pub struct CommandStatusWrapper {
    pub d_cbw_signature: [u8; 4],
    pub d_cbw_tag: u32,
    pub d_cbw_data_residue: u32,
    pub bm_cbw_status: u8,
}

impl Wire for CommandStatusWrapper {
    open spec fn wire_len() -> nat {
        13
    }

    open spec fn encoding(&self) -> Seq<u8> {
        self.d_cbw_signature@
            + codec::le32(self.d_cbw_tag)
            + codec::le32(self.d_cbw_data_residue)
            + seq![self.bm_cbw_status]
    }

    open spec fn decoding(b: Seq<u8>) -> Option<Self> {
        Some(
            CommandStatusWrapper {
                d_cbw_signature: codec::array_of::<4>(b.subrange(0, 4)),
                d_cbw_tag: codec::u32_at(b, 4),
                d_cbw_data_residue: codec::u32_at(b, 8),
                bm_cbw_status: b[12],
            },
        )
    }

    fn wire_size() -> usize {
        13
    }

    fn as_bytes(&self) -> Vec<u8> {
        let mut v: Vec<u8> = Vec::new();
        push_bytes(&mut v, self.d_cbw_signature.as_slice());
        push_u32(&mut v, self.d_cbw_tag);
        push_u32(&mut v, self.d_cbw_data_residue);
        v.push(self.bm_cbw_status);
        assert(v@ =~= self.encoding());
        v
    }

    fn try_read_from_bytes(b: &[u8]) -> Option<Self> {
        Some(
            CommandStatusWrapper {
                d_cbw_signature: read_array::<4>(b, 0),
                d_cbw_tag: read_u32(b, 4),
                d_cbw_data_residue: read_u32(b, 8),
                bm_cbw_status: b[12],
            },
        )
    }

    proof fn lemma_round_trip(&self) {
        let e = self.encoding();
        codec::lemma_array_of(self.d_cbw_signature);
        assert(e.subrange(0, 4) =~= self.d_cbw_signature@);
        assert(codec::u32_at(e, 4) == codec::u32_at(codec::le32(self.d_cbw_tag), 0));
        codec::lemma_le32(self.d_cbw_tag);
        assert(codec::u32_at(e, 8) == codec::u32_at(codec::le32(self.d_cbw_data_residue), 0));
        codec::lemma_le32(self.d_cbw_data_residue);
    }

    proof fn lemma_canonical(b: Seq<u8>) {
        codec::lemma_array_exists::<4>(b.subrange(0, 4));
        codec::lemma_le32_canonical(b, 4);
        codec::lemma_le32_canonical(b, 8);
        assert(Self::decoding(b)->0.encoding() =~= b);
    }
}

} // verus!
