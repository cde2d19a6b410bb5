//! Choosing the image type of an input and framing a picture record in one of
//! the three output forms.

use vstd::prelude::*;
use vstd::string::StringSliceAdditionalSpecFns;
use vstd::utf8::encode_utf8_decode_utf8;
use crate::base64_text::{base64_decode_spec, base64_encode, base64_spec, lemma_base64_round_trip};
use crate::extract::ImageType;
use crate::record::{write_all, EncodeError, MetadataBlockPicture};

verus! {

/// The form in which a picture record is emitted.
#[derive(Debug, Clone, Copy, PartialEq, Eq, Structural)]
pub enum OutputFormat {
    /// The record's bytes as they are.
    Binary,
    /// The record in base64, then a newline.
    Base64,
    /// An ffmpeg metadata file whose one key holds the record in base64.
    FFMetadata,
}

/// The image type that a file name extension stands for.
pub open spec fn extension_type(ext: Seq<char>) -> Option<ImageType> {
    if ext == "png"@ {
        Some(ImageType::Png)
    } else if ext == "jpg"@ || ext == "jpeg"@ {
        Some(ImageType::Jpeg)
    } else {
        None
    }
}

/// Two strings are equal exactly when their UTF-8 bytes are.
proof fn lemma_bytes_eq_chars(a: &str, b: &str)
    ensures
        (a.spec_bytes() == b.spec_bytes()) == (a@ == b@),
{
    encode_utf8_decode_utf8(a@);
    encode_utf8_decode_utf8(b@);
}

/// Whether two byte sequences are equal.
fn bytes_eq(a: &[u8], b: &[u8]) -> (r: bool)
    ensures
        r == (a@ == b@),
{
    if a.len() != b.len() {
        return false;
    }
    let mut i: usize = 0;
    while i < a.len()
        invariant
            a@.len() == b@.len(),
            i <= a@.len(),
            a@.subrange(0, i as int) == b@.subrange(0, i as int),
        decreases a@.len() - i,
    {
        if a[i] != b[i] {
            assert(a@.subrange(0, i + 1)[i as int] != b@.subrange(0, i + 1)[i as int]);
            return false;
        }
        assert(a@.subrange(0, i + 1) =~= a@.subrange(0, i as int).push(a[i as int]));
        assert(b@.subrange(0, i + 1) =~= b@.subrange(0, i as int).push(b[i as int]));
        i = i + 1;
    }
    assert(a@ =~= a@.subrange(0, i as int));
    assert(b@ =~= b@.subrange(0, i as int));
    true
}

/// The image type of an input: an explicit choice of PNG, else of JPEG, else
/// the one that the file name extension stands for (`png`; `jpg` or `jpeg`).
/// `None` when none of these gives one.
pub fn resolve_image_type(force_png: bool, force_jpeg: bool, extension: Option<&str>) -> (r:
    Option<ImageType>)
    ensures
        r == (if force_png {
            Some(ImageType::Png)
        } else if force_jpeg {
            Some(ImageType::Jpeg)
        } else {
            match extension {
                Some(e) => extension_type(e@),
                None => None,
            }
        }),
{
    if force_png {
        return Some(ImageType::Png);
    }
    if force_jpeg {
        return Some(ImageType::Jpeg);
    }
    match extension {
        Some(e) => {
            let ext = e.as_bytes();
            proof {
                lemma_bytes_eq_chars(e, "png");
                lemma_bytes_eq_chars(e, "jpg");
                lemma_bytes_eq_chars(e, "jpeg");
            }
            if bytes_eq(ext, "png".as_bytes()) {
                Some(ImageType::Png)
            } else if bytes_eq(ext, "jpg".as_bytes()) || bytes_eq(ext, "jpeg".as_bytes()) {
                Some(ImageType::Jpeg)
            } else {
                None
            }
        },
        None => None,
    }
}

/// The text that opens an ffmpeg metadata file, up to the value of the key.
pub open spec fn ffmetadata_header() -> Seq<u8> {
    ";FFMETADATA1\nMETADATA_BLOCK_PICTURE=".spec_bytes()
}

/// The newline that ends the text forms.
pub open spec fn newline() -> Seq<u8> {
    seq![10u8]
}

/// A record in the given output form.
pub open spec fn output_spec(record: Seq<u8>, format: OutputFormat) -> Seq<u8> {
    match format {
        OutputFormat::Binary => record,
        OutputFormat::Base64 => base64_spec(record) + newline(),
        OutputFormat::FFMetadata => ffmetadata_header() + base64_spec(record) + newline(),
    }
}

/// The bytes to emit for a picture in the given output form. Fails, as
/// `write_to` does, when a length does not fit in 32 bits.
pub fn encode_output(pic: &MetadataBlockPicture, format: OutputFormat) -> (r: Result<
    Vec<u8>,
    EncodeError,
>)
    ensures
        r is Ok <==> pic.fits(),
        r == Err::<Vec<u8>, EncodeError>(EncodeError::MimeTooLong) <==> pic.mime_bytes().len()
            > u32::MAX,
        r == Err::<Vec<u8>, EncodeError>(EncodeError::DataTooLong) <==> (pic.mime_bytes().len()
            <= u32::MAX && pic.data@.len() > u32::MAX),
        r is Ok ==> r->Ok_0@ == output_spec(pic.record(), format),
{
    let mut record: Vec<u8> = Vec::new();
    match pic.write_to(&mut record) {
        Ok(()) => {},
        Err(e) => {
            return Err(e);
        },
    }
    assert(record@ =~= pic.record());
    match format {
        OutputFormat::Binary => Ok(record),
        OutputFormat::Base64 => {
            let mut out = base64_encode(record.as_slice());
            out.push(10u8);
            assert(out@ =~= output_spec(pic.record(), format));
            Ok(out)
        },
        OutputFormat::FFMetadata => {
            let mut out: Vec<u8> = Vec::new();
            write_all(&mut out, ";FFMETADATA1\nMETADATA_BLOCK_PICTURE=".as_bytes());
            let text = base64_encode(record.as_slice());
            write_all(&mut out, text.as_slice());
            out.push(10u8);
            assert(out@ =~= output_spec(pic.record(), format));
            Ok(out)
        },
    }
}

/// The base64 form, without its closing newline, decodes to the binary form.
pub proof fn lemma_base64_output_decodes(record: Seq<u8>)
    ensures
        ({
            let out = output_spec(record, OutputFormat::Base64);
            &&& out.last() == 10u8
            &&& base64_decode_spec(out.drop_last()) == output_spec(record, OutputFormat::Binary)
        }),
{
    let out = output_spec(record, OutputFormat::Base64);
    assert(out.drop_last() =~= base64_spec(record));
    lemma_base64_round_trip(record);
}

/// The ffmetadata form opens with its header and closes with a newline; what
/// lies between decodes to the binary form.
pub proof fn lemma_ffmetadata_output_decodes(record: Seq<u8>)
    ensures
        ({
            let out = output_spec(record, OutputFormat::FFMetadata);
            let h = ffmetadata_header().len() as int;
            &&& out.subrange(0, h) == ffmetadata_header()
            &&& out.last() == 10u8
            &&& base64_decode_spec(out.subrange(h, out.len() - 1)) == output_spec(
                record,
                OutputFormat::Binary,
            )
        }),
{
    let out = output_spec(record, OutputFormat::FFMetadata);
    let h = ffmetadata_header().len() as int;
    assert(out.subrange(0, h) =~= ffmetadata_header());
    assert(out.subrange(h, out.len() - 1) =~= base64_spec(record));
    lemma_base64_round_trip(record);
}

} // verus!
