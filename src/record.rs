//! The binary METADATA_BLOCK_PICTURE record: its layout, the encoder, and the
//! layout read back into fields.

use vstd::prelude::*;
use vstd::string::StringSliceAdditionalSpecFns;

verus! {

/// Big-endian bytes of a 32-bit value.
pub open spec fn be32(n: u32) -> Seq<u8> {
    seq![(n >> 24u32) as u8, (n >> 16u32) as u8, (n >> 8u32) as u8, n as u8]
}

/// The 32-bit value of four big-endian bytes.
pub open spec fn be32_value(b0: u8, b1: u8, b2: u8, b3: u8) -> u32 {
    ((b0 as u32) << 24u32) | ((b1 as u32) << 16u32) | ((b2 as u32) << 8u32) | (b3 as u32)
}

/// Picture type "cover (front)".
pub const PICTURE_TYPE_FRONT_COVER: u32 = 3;

/// The record for the given fields: picture type, MIME length, MIME, description
/// length, width, height, bit depth, indexed-color count, data length, data.
pub open spec fn record_spec(
    mime: Seq<u8>,
    width: u32,
    height: u32,
    bit_depth: u32,
    data: Seq<u8>,
) -> Seq<u8> {
    be32(3) + be32(mime.len() as u32) + mime + be32(0) + be32(width) + be32(height) + be32(
        bit_depth,
    ) + be32(0) + be32(data.len() as u32) + data
}

/// The record is 32 bytes longer than the MIME type and the data together:
/// eight fields of four bytes each.
pub proof fn lemma_record_len(
    mime: Seq<u8>,
    width: u32,
    height: u32,
    bit_depth: u32,
    data: Seq<u8>,
)
    ensures
        record_spec(mime, width, height, bit_depth, data).len() == 32 + mime.len() + data.len(),
{
    assert(be32(3).len() == 4);
    assert(be32(0).len() == 4);
    assert(be32(mime.len() as u32).len() == 4);
    assert(be32(width).len() == 4);
    assert(be32(height).len() == 4);
    assert(be32(bit_depth).len() == 4);
    assert(be32(data.len() as u32).len() == 4);
}

/// The fields of a record, as read back from its bytes.
pub struct RecordFields {
    pub picture_type: u32,
    pub mime: Seq<u8>,
    pub description: Seq<u8>,
    pub width: u32,
    pub height: u32,
    pub bit_depth: u32,
    pub index_count: u32,
    pub data: Seq<u8>,
}

/// The 32-bit big-endian value at position `i` of `s`.
pub open spec fn be32_at(s: Seq<u8>, i: int) -> u32 {
    be32_value(s[i], s[i + 1], s[i + 2], s[i + 3])
}

/// Reads a record back into its fields: `None` when the lengths that it
/// carries do not match the bytes that are there.
pub open spec fn parse_record(s: Seq<u8>) -> Option<RecordFields> {
    if s.len() < 8 {
        None
    } else {
        let m = be32_at(s, 4) as int;
        if s.len() < 12 + m {
            None
        } else {
            let k = be32_at(s, 8 + m) as int;
            let o = 12 + m + k;
            if s.len() < o + 20 {
                None
            } else {
                let d = be32_at(s, o + 16) as int;
                if s.len() != o + 20 + d {
                    None
                } else {
                    Some(
                        RecordFields {
                            picture_type: be32_at(s, 0),
                            mime: s.subrange(8, 8 + m),
                            description: s.subrange(12 + m, o),
                            width: be32_at(s, o),
                            height: be32_at(s, o + 4),
                            bit_depth: be32_at(s, o + 8),
                            index_count: be32_at(s, o + 12),
                            data: s.subrange(o + 20, s.len() as int),
                        },
                    )
                }
            }
        }
    }
}

proof fn lemma_be32_value(n: u32)
    by (bit_vector)
    ensures
        ((((n >> 24u32) as u8) as u32) << 24u32) | ((((n >> 16u32) as u8) as u32) << 16u32) | ((((
        n >> 8u32) as u8) as u32) << 8u32) | ((n as u8) as u32) == n,
{
}

proof fn lemma_be32_at(s: Seq<u8>, i: int, n: u32)
    requires
        0 <= i,
        i + 4 <= s.len(),
        s.subrange(i, i + 4) == be32(n),
    ensures
        be32_at(s, i) == n,
{
    assert(s[i] == s.subrange(i, i + 4)[0]);
    assert(s[i + 1] == s.subrange(i, i + 4)[1]);
    assert(s[i + 2] == s.subrange(i, i + 4)[2]);
    assert(s[i + 3] == s.subrange(i, i + 4)[3]);
    lemma_be32_value(n);
}

/// Reading a record back gives the fields it was written from: picture type
/// 3, the MIME type, an empty description, width, height, bit depth, an
/// indexed-color count of 0, and the data.
pub proof fn lemma_record_round_trip(
    mime: Seq<u8>,
    width: u32,
    height: u32,
    bit_depth: u32,
    data: Seq<u8>,
)
    requires
        mime.len() <= u32::MAX,
        data.len() <= u32::MAX,
    ensures
        parse_record(record_spec(mime, width, height, bit_depth, data)) == Some(
            RecordFields {
                picture_type: 3,
                mime,
                description: Seq::empty(),
                width,
                height,
                bit_depth,
                index_count: 0,
                data,
            },
        ),
{
    let s = record_spec(mime, width, height, bit_depth, data);
    let m = mime.len() as int;
    let o = 12 + m;
    lemma_record_len(mime, width, height, bit_depth, data);
    assert(s.subrange(0, 4) =~= be32(3));
    lemma_be32_at(s, 0, 3);
    assert(s.subrange(4, 8) =~= be32(mime.len() as u32));
    lemma_be32_at(s, 4, mime.len() as u32);
    assert(s.subrange(8, 8 + m) =~= mime);
    assert(s.subrange(8 + m, 12 + m) =~= be32(0));
    lemma_be32_at(s, 8 + m, 0);
    assert(s.subrange(12 + m, o) =~= Seq::<u8>::empty());
    assert(s.subrange(o, o + 4) =~= be32(width));
    lemma_be32_at(s, o, width);
    assert(s.subrange(o + 4, o + 8) =~= be32(height));
    lemma_be32_at(s, o + 4, height);
    assert(s.subrange(o + 8, o + 12) =~= be32(bit_depth));
    lemma_be32_at(s, o + 8, bit_depth);
    assert(s.subrange(o + 12, o + 16) =~= be32(0));
    lemma_be32_at(s, o + 12, 0);
    assert(s.subrange(o + 16, o + 20) =~= be32(data.len() as u32));
    lemma_be32_at(s, o + 16, data.len() as u32);
    assert(s.subrange(o + 20, s.len() as int) =~= data);
}

/// Why a record could not be written.
#[derive(Debug, Clone, Copy, PartialEq, Eq, Structural)]
pub enum EncodeError {
    /// The MIME type is longer than a 32-bit length can say.
    MimeTooLong,
    /// The picture data is longer than a 32-bit length can say.
    DataTooLong,
}

/// An image and the metadata that its picture record carries. The record
/// borrows the image bytes; they are never copied before being written.
#[derive(Debug, Clone, Copy)]
pub struct MetadataBlockPicture<'a> {
    pub mime: &'a str,
    pub width: u32,
    pub height: u32,
    pub bit_depth: u32,
    pub data: &'a [u8],
}

impl<'a> MetadataBlockPicture<'a> {
    /// The bytes of the MIME type.
    pub open spec fn mime_bytes(&self) -> Seq<u8> {
        self.mime.spec_bytes()
    }

    /// Whether both variable-length fields fit a 32-bit length.
    pub open spec fn fits(&self) -> bool {
        self.mime_bytes().len() <= u32::MAX && self.data@.len() <= u32::MAX
    }

    /// The record of this picture.
    pub open spec fn record(&self) -> Seq<u8> {
        record_spec(self.mime_bytes(), self.width, self.height, self.bit_depth, self.data@)
    }

    /// Appends the picture record to `w`. Nothing is written when a length
    /// does not fit in 32 bits.
    pub fn write_to(&self, w: &mut Vec<u8>) -> (r: Result<(), EncodeError>)
        ensures
            r is Ok <==> self.fits(),
            r == Err::<(), EncodeError>(EncodeError::MimeTooLong) <==> self.mime_bytes().len()
                > u32::MAX,
            r == Err::<(), EncodeError>(EncodeError::DataTooLong) <==> (self.mime_bytes().len()
                <= u32::MAX && self.data@.len() > u32::MAX),
            r is Ok ==> final(w)@ == old(w)@ + self.record(),
            r is Ok ==> final(w)@.len() == old(w)@.len() + 32 + self.mime_bytes().len()
                + self.data@.len(),
            r is Err ==> final(w)@ == old(w)@,
    {
        let mime = self.mime.as_bytes();
        if mime.len() > 0xffff_ffffusize {
            return Err(EncodeError::MimeTooLong);
        }
        if self.data.len() > 0xffff_ffffusize {
            return Err(EncodeError::DataTooLong);
        }
        let ghost start = w@;
        write_u32b(w, PICTURE_TYPE_FRONT_COVER);
        write_u32b(w, mime.len() as u32);
        write_all(w, mime);
        write_u32b(w, 0);
        write_u32b(w, self.width);
        write_u32b(w, self.height);
        write_u32b(w, self.bit_depth);
        write_u32b(w, 0);
        write_u32b(w, self.data.len() as u32);
        write_all(w, self.data);
        proof {
            assert(w@ =~= start + self.record());
            lemma_record_len(self.mime_bytes(), self.width, self.height, self.bit_depth, self.data@);
        }
        Ok(())
    }
}

/// Appends the big-endian bytes of `n`.
pub fn write_u32b(w: &mut Vec<u8>, n: u32)
    ensures
        final(w)@ == old(w)@ + be32(n),
{
    w.push((n >> 24u32) as u8);
    w.push((n >> 16u32) as u8);
    w.push((n >> 8u32) as u8);
    w.push(n as u8);
    proof {
        assert(final(w)@ =~= old(w)@ + be32(n));
    }
}

/// Appends every byte of `src`.
pub fn write_all(w: &mut Vec<u8>, src: &[u8])
    ensures
        final(w)@ == old(w)@ + src@,
{
    let ghost start = w@;
    let mut i: usize = 0;
    while i < src.len()
        invariant
            i <= src@.len(),
            w@ == start + src@.subrange(0, i as int),
        decreases src@.len() - i,
    {
        w.push(src[i]);
        i = i + 1;
        proof {
            assert(w@ =~= start + src@.subrange(0, i as int));
        }
    }
    proof {
        assert(src@.subrange(0, src@.len() as int) =~= src@);
    }
}

} // verus!
