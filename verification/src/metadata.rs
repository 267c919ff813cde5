//! The metadata snapshot of an index.
//!
//! Serializing `{dimension, metric, next label, table name}` lets an
//! index be reopened without re-deriving the label counter by a full
//! scan of the stored labels.  The snapshot is never authoritative
//! over the data on disk: when the bytes are lost or unreadable the
//! manager falls back to the scan, so decoding returns `None` rather
//! than an error.
//!
//! The encoding is six little-endian sections: the dimension and the
//! next label as 64-bit words, then the metric and the table name,
//! each as a 64-bit byte length followed by its UTF-8 bytes.

use vstd::prelude::*;

use vstd::bytes::{
    lemma_auto_spec_u64_to_from_le_bytes, spec_u64_from_le_bytes, spec_u64_to_le_bytes,
    u64_from_le_bytes, u64_to_le_bytes,
};
use vstd::slice::{slice_subrange, slice_to_vec};
use vstd::string::StrSliceExecFns;
use vstd::utf8::{decode_utf8, encode_utf8, valid_utf8};

verus! {

/// The ghost image of a snapshot.
#[verifier::ext_equal]
pub struct MetaModel {
    pub dimension: usize,
    pub metric: Seq<char>,
    pub next_label: i64,
    pub table_name: Seq<char>,
}

/// A serializable snapshot of an index: enough to reopen it with the
/// same next-label guarantee as a direct reopen.
pub struct Metadata {
    pub dimension: usize,
    pub metric: String,
    pub next_label: i64,
    pub table_name: String,
}

impl View for Metadata {
    type V = MetaModel;

    open spec fn view(&self) -> MetaModel {
        MetaModel {
            dimension: self.dimension,
            metric: self.metric@,
            next_label: self.next_label,
            table_name: self.table_name@,
        }
    }
}

/// What every snapshot taken from a live index satisfies: a positive
/// dimension and a label counter inside the label space.
pub open spec fn meta_wf(m: MetaModel) -> bool {
    &&& m.dimension >= 1
    &&& m.next_label >= 0
}

/// The encoding of a snapshot.
pub open spec fn spec_encode(m: MetaModel) -> Seq<u8> {
    let mb = encode_utf8(m.metric);
    let nb = encode_utf8(m.table_name);
    spec_u64_to_le_bytes(m.dimension as u64) + spec_u64_to_le_bytes(m.next_label as u64)
        + spec_u64_to_le_bytes(mb.len() as u64) + mb + spec_u64_to_le_bytes(nb.len() as u64) + nb
}

/// The decoding of a byte string, `None` when it is not the encoding
/// of any snapshot.
pub open spec fn spec_decode(bytes: Seq<u8>) -> Option<MetaModel> {
    if bytes.len() < 32 {
        None
    } else {
        let dim = spec_u64_from_le_bytes(bytes.subrange(0, 8));
        let next = spec_u64_from_le_bytes(bytes.subrange(8, 16));
        let mlen = spec_u64_from_le_bytes(bytes.subrange(16, 24)) as int;
        if bytes.len() < 32 + mlen {
            None
        } else {
            let mb = bytes.subrange(24, 24 + mlen);
            let nlen = spec_u64_from_le_bytes(bytes.subrange(24 + mlen, 32 + mlen)) as int;
            if bytes.len() != 32 + mlen + nlen {
                None
            } else {
                let nb = bytes.subrange(32 + mlen, 32 + mlen + nlen);
                if dim > usize::MAX || next > i64::MAX || !valid_utf8(mb) || !valid_utf8(nb) {
                    None
                } else {
                    Some(
                        MetaModel {
                            dimension: dim as usize,
                            metric: decode_utf8(mb),
                            next_label: next as i64,
                            table_name: decode_utf8(nb),
                        },
                    )
                }
            }
        }
    }
}

/// Relies on `String::from_utf8`: it succeeds exactly on valid UTF-8
/// and returns the string those bytes encode.
#[verifier::external_body]
fn string_from_utf8(bytes: Vec<u8>) -> (r: Option<String>)
    ensures
        match r {
            Some(s) => valid_utf8(bytes@) && s@ == decode_utf8(bytes@),
            None => !valid_utf8(bytes@),
        },
{
    String::from_utf8(bytes).ok()
}

impl Metadata {
    /// Serializes the snapshot; `decode` inverts this exactly.
    pub fn encode(&self) -> (r: Vec<u8>)
        requires
            self@.next_label >= 0,
        ensures
            r@ == spec_encode(self@),
    {
        let mut out = u64_to_le_bytes(self.dimension as u64);
        let mut next = u64_to_le_bytes(self.next_label as u64);
        out.append(&mut next);
        let mut mb = self.metric.as_str().as_bytes_vec();
        let mut mlen = u64_to_le_bytes(mb.len() as u64);
        out.append(&mut mlen);
        out.append(&mut mb);
        let mut nb = self.table_name.as_str().as_bytes_vec();
        let mut nlen = u64_to_le_bytes(nb.len() as u64);
        out.append(&mut nlen);
        out.append(&mut nb);
        out
    }

    /// Deserializes a snapshot, `None` when the bytes are not the
    /// encoding of one; the caller then falls back to the stored
    /// maximum-label scan.
    pub fn decode(bytes: &Vec<u8>) -> (r: Option<Metadata>)
        ensures
            match r {
                Some(m) => spec_decode(bytes@) == Some(m@),
                None => spec_decode(bytes@) is None,
            },
    {
        let total = bytes.len();
        if total < 32 {
            return None;
        }
        let dim64 = u64_from_le_bytes(slice_subrange(bytes.as_slice(), 0, 8));
        let next64 = u64_from_le_bytes(slice_subrange(bytes.as_slice(), 8, 16));
        let mlen64 = u64_from_le_bytes(slice_subrange(bytes.as_slice(), 16, 24));
        if mlen64 > (total - 32) as u64 {
            return None;
        }
        let mlen = mlen64 as usize;
        let mb = slice_to_vec(slice_subrange(bytes.as_slice(), 24, 24 + mlen));
        let nlen64 = u64_from_le_bytes(slice_subrange(bytes.as_slice(), 24 + mlen, 32 + mlen));
        if nlen64 != (total - 32 - mlen) as u64 {
            return None;
        }
        let nlen = nlen64 as usize;
        let nb = slice_to_vec(slice_subrange(bytes.as_slice(), 32 + mlen, 32 + mlen + nlen));
        if dim64 > usize::MAX as u64 || next64 > i64::MAX as u64 {
            return None;
        }
        let metric = match string_from_utf8(mb) {
            Some(s) => s,
            None => {
                return None;
            },
        };
        let table_name = match string_from_utf8(nb) {
            Some(s) => s,
            None => {
                return None;
            },
        };
        Some(
            Metadata {
                dimension: dim64 as usize,
                metric,
                next_label: next64 as i64,
                table_name,
            },
        )
    }
}

/// Decoding inverts encoding: a serialized snapshot deserializes to
/// exactly the snapshot it was taken from, so reopening through
/// metadata never under-reports the next label.
pub proof fn lemma_metadata_round_trip(m: MetaModel)
    requires
        meta_wf(m),
        encode_utf8(m.metric).len() <= usize::MAX,
        encode_utf8(m.table_name).len() <= usize::MAX,
    ensures
        spec_decode(spec_encode(m)) == Some(m),
{
    broadcast use vstd::utf8::encode_utf8_valid_utf8;
    broadcast use vstd::utf8::encode_utf8_decode_utf8;

    lemma_auto_spec_u64_to_from_le_bytes();
    let mb = encode_utf8(m.metric);
    let nb = encode_utf8(m.table_name);
    let a = spec_u64_to_le_bytes(m.dimension as u64);
    let b = spec_u64_to_le_bytes(m.next_label as u64);
    let c = spec_u64_to_le_bytes(mb.len() as u64);
    let d = spec_u64_to_le_bytes(nb.len() as u64);
    let bytes = spec_encode(m);
    assert(bytes =~= a + b + c + mb + d + nb);
    assert(bytes.len() == 32 + mb.len() + nb.len());
    let mlen = mb.len() as int;
    let nlen = nb.len() as int;
    assert(bytes.subrange(0, 8) =~= a);
    assert(bytes.subrange(8, 16) =~= b);
    assert(bytes.subrange(16, 24) =~= c);
    assert(bytes.subrange(24, 24 + mlen) =~= mb);
    assert(bytes.subrange(24 + mlen, 32 + mlen) =~= d);
    assert(bytes.subrange(32 + mlen, 32 + mlen + nlen) =~= nb);
    assert(spec_u64_from_le_bytes(a) == m.dimension as u64);
    assert(spec_u64_from_le_bytes(b) == m.next_label as u64);
    assert(spec_u64_from_le_bytes(c) == mb.len() as u64);
    assert(spec_u64_from_le_bytes(d) == nb.len() as u64);
    assert(decode_utf8(mb) == m.metric);
    assert(decode_utf8(nb) == m.table_name);
    assert(spec_decode(bytes) == Some(m));
}

} // verus!
