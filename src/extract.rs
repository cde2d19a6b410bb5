//! Reads the metadata that a picture record carries from the header of a PNG
//! or JPEG image, without decoding any pixel data.

use vstd::prelude::*;
use crate::record::MetadataBlockPicture;
use jpeg_decoder::PixelFormat;

verus! {

/// The container format of an image.
#[derive(Debug, Clone, Copy, PartialEq, Eq, Structural)]
pub enum ImageType {
    Png,
    Jpeg,
}

/// The pixel formats that a JPEG frame header can describe.
#[derive(Debug, Clone, Copy, PartialEq, Eq, Structural)]
pub enum JpegPixels {
    /// Luminance, 8 bits.
    L8,
    /// Luminance, 16 bits.
    L16,
    /// RGB, 8 bits per channel.
    Rgb24,
    /// CMYK, 8 bits per channel.
    Cmyk32,
}

/// Why no metadata could be read from an image.
#[derive(Debug, Clone, PartialEq, Eq)]
pub enum DecodeError {
    /// The PNG parser rejected the data; its message.
    Png(String),
    /// The JPEG parser rejected the data; its message.
    Jpeg(String),
    /// A PNG header with a color type or a sample depth outside the supported set.
    UnsupportedPng { color_type: u8, sample_bits: u8 },
}

/// What the PNG parser reads from the image header of `data`: color type,
/// bits per sample, width and height; `None` where it rejects the data.
pub uninterp spec fn png_header_of(data: Seq<u8>) -> Option<(u8, u8, u32, u32)>;

/// What the JPEG parser reads from the frame header of `data`: pixel format,
/// width and height; `None` where it rejects the data.
pub uninterp spec fn jpeg_header_of(data: Seq<u8>) -> Option<(JpegPixels, u16, u16)>;

/// Relies on png's `Decoder::read_info` and `Reader::info`: the header of the
/// image is parsed, no pixel data is decompressed. Its `ColorType` and
/// `BitDepth` are `repr(u8)` enums whose values are the PNG color type codes
/// 0, 2, 3, 4, 6 and the sample depths 1, 2, 4, 8, 16.
#[verifier::external_body]
fn read_png_header(data: &[u8]) -> (r: Result<(u8, u8, u32, u32), String>)
    ensures
        match r {
            Ok(h) => png_header_of(data@) == Some(h),
            Err(_) => png_header_of(data@) is None,
        },
        r is Ok ==> png_channels(r->Ok_0.0) is Some && png_sample_bits_ok(r->Ok_0.1),
{
    let decoder = png::Decoder::new(std::io::Cursor::new(data));
    let reader = decoder.read_info().map_err(|e| e.to_string())?;
    let info = reader.info();
    Ok((info.color_type as u8, info.bit_depth as u8, info.width, info.height))
}

/// Relies on jpeg_decoder's `Decoder::read_info` and `Decoder::info`: the
/// markers up to the frame header are parsed, no entropy-coded data is
/// decoded. A frame that `read_info` accepts has 1, 3 or 4 components and a
/// precision of 2 to 16 bits, so `info` is `Some` and does not panic.
#[verifier::external_body]
fn read_jpeg_header(data: &[u8]) -> (r: Result<(JpegPixels, u16, u16), String>)
    ensures
        match r {
            Ok(h) => jpeg_header_of(data@) == Some(h),
            Err(_) => jpeg_header_of(data@) is None,
        },
{
    let mut decoder = jpeg_decoder::Decoder::new(std::io::Cursor::new(data));
    decoder.read_info().map_err(|e| e.to_string())?;
    let info = decoder.info().ok_or_else(|| "no frame header".to_owned())?;
    let pixels = match info.pixel_format {
        PixelFormat::L8 => JpegPixels::L8,
        PixelFormat::L16 => JpegPixels::L16,
        PixelFormat::RGB24 => JpegPixels::Rgb24,
        PixelFormat::CMYK32 => JpegPixels::Cmyk32,
    };
    Ok((pixels, info.width, info.height))
}

/// Channels per pixel of a PNG color type. An indexed-color image counts as
/// one channel, like a grayscale one: the palette is not consulted.
pub open spec fn png_channels(color_type: u8) -> Option<u32> {
    if color_type == 0 {
        Some(1)  // grayscale
    } else if color_type == 2 {
        Some(3)  // RGB
    } else if color_type == 3 {
        Some(1)  // indexed color
    } else if color_type == 4 {
        Some(2)  // grayscale and alpha
    } else if color_type == 6 {
        Some(4)  // RGBA
    } else {
        None
    }
}

/// Whether `bits` is a PNG sample depth.
pub open spec fn png_sample_bits_ok(bits: u8) -> bool {
    bits == 1 || bits == 2 || bits == 4 || bits == 8 || bits == 16
}

/// Bits per pixel of a JPEG pixel format.
pub open spec fn jpeg_bits(pixels: JpegPixels) -> u32 {
    match pixels {
        JpegPixels::L8 => 8,
        JpegPixels::L16 => 16,
        JpegPixels::Rgb24 => 24,
        JpegPixels::Cmyk32 => 32,
    }
}

/// Width, height and bit depth from the fields of a PNG header.
pub open spec fn png_meta(h: (u8, u8, u32, u32)) -> (u32, u32, u32) {
    (h.2, h.3, (png_channels(h.0)->0 * h.1 as u32) as u32)
}

/// Width, height and bit depth from the fields of a JPEG frame header.
pub open spec fn jpeg_meta(h: (JpegPixels, u16, u16)) -> (u32, u32, u32) {
    (h.1 as u32, h.2 as u32, jpeg_bits(h.0))
}

/// Width, height and bit depth of an image of type `t`, or `None` where its
/// parser rejects the data.
pub open spec fn header_meta(data: Seq<u8>, t: ImageType) -> Option<(u32, u32, u32)> {
    match t {
        ImageType::Png => match png_header_of(data) {
            Some(h) => Some(png_meta(h)),
            None => None,
        },
        ImageType::Jpeg => match jpeg_header_of(data) {
            Some(h) => Some(jpeg_meta(h)),
            None => None,
        },
    }
}

/// The MIME type of an image type.
pub open spec fn mime_of(t: ImageType) -> Seq<char> {
    match t {
        ImageType::Png => "image/png"@,
        ImageType::Jpeg => "image/jpeg"@,
    }
}

/// The channel count of a PNG color type, `None` for an unknown one.
fn channels_of(color_type: u8) -> (r: Option<u32>)
    ensures
        r == png_channels(color_type),
{
    match color_type {
        0 => Some(1),
        2 => Some(3),
        3 => Some(1),
        4 => Some(2),
        6 => Some(4),
        _ => None,
    }
}

impl<'a> MetadataBlockPicture<'a> {
    /// The metadata of a PNG image, from the fields of its header. The bit
    /// depth is channels times bits per sample.
    pub fn from_png_header(
        data: &'a [u8],
        color_type: u8,
        sample_bits: u8,
        width: u32,
        height: u32,
    ) -> (r: Result<Self, DecodeError>)
        ensures
            r is Ok <==> png_channels(color_type) is Some && png_sample_bits_ok(sample_bits),
            r is Err ==> r == Err::<Self, DecodeError>(
                DecodeError::UnsupportedPng { color_type, sample_bits },
            ),
            r is Ok ==> ({
                let p = r->Ok_0;
                &&& p.mime@ == "image/png"@
                &&& p.width == width
                &&& p.height == height
                &&& p.bit_depth == png_channels(color_type)->0 * sample_bits as u32
                &&& p.data == data
            }),
    {
        let channels = match channels_of(color_type) {
            Some(c) => c,
            None => {
                return Err(DecodeError::UnsupportedPng { color_type, sample_bits });
            },
        };
        if !(sample_bits == 1 || sample_bits == 2 || sample_bits == 4 || sample_bits == 8
            || sample_bits == 16) {
            return Err(DecodeError::UnsupportedPng { color_type, sample_bits });
        }
        assert(channels * (sample_bits as u32) <= 64) by (nonlinear_arith)
            requires
                channels <= 4,
                sample_bits <= 16,
        ;
        Ok(MetadataBlockPicture {
            mime: "image/png",
            width,
            height,
            bit_depth: channels * sample_bits as u32,
            data,
        })
    }

    /// The metadata of a JPEG image, from the fields of its frame header.
    pub fn from_jpeg_header(data: &'a [u8], pixels: JpegPixels, width: u16, height: u16) -> (r:
        Self)
        ensures
            r.mime@ == "image/jpeg"@,
            r.width == width as u32,
            r.height == height as u32,
            r.bit_depth == jpeg_bits(pixels),
            r.data == data,
    {
        let bit_depth: u32 = match pixels {
            JpegPixels::L8 => 8,
            JpegPixels::L16 => 16,
            JpegPixels::Rgb24 => 24,
            JpegPixels::Cmyk32 => 32,
        };
        MetadataBlockPicture {
            mime: "image/jpeg",
            width: width as u32,
            height: height as u32,
            bit_depth,
            data,
        }
    }

    /// Whether this is the picture of `data`, an image of type `t`.
    pub open spec fn is_picture_of(&self, data: &[u8], t: ImageType) -> bool {
        &&& self.mime@ == mime_of(t)
        &&& header_meta(data@, t) == Some((self.width, self.height, self.bit_depth))
        &&& self.data == data
    }

    /// Reads the metadata of a PNG image from its header.
    pub fn from_png(data: &'a [u8]) -> (r: Result<Self, DecodeError>)
        ensures
            r is Ok <==> header_meta(data@, ImageType::Png) is Some,
            r is Ok ==> r->Ok_0.is_picture_of(data, ImageType::Png),
            r is Err ==> r->Err_0 is Png,
    {
        match read_png_header(data) {
            Ok((color_type, sample_bits, width, height)) => Self::from_png_header(
                data,
                color_type,
                sample_bits,
                width,
                height,
            ),
            Err(msg) => Err(DecodeError::Png(msg)),
        }
    }

    /// Reads the metadata of a JPEG image from its frame header.
    pub fn from_jpeg(data: &'a [u8]) -> (r: Result<Self, DecodeError>)
        ensures
            r is Ok <==> header_meta(data@, ImageType::Jpeg) is Some,
            r is Ok ==> r->Ok_0.is_picture_of(data, ImageType::Jpeg),
            r is Err ==> r->Err_0 is Jpeg,
    {
        match read_jpeg_header(data) {
            Ok((pixels, width, height)) => Ok(Self::from_jpeg_header(data, pixels, width, height)),
            Err(msg) => Err(DecodeError::Jpeg(msg)),
        }
    }

    /// Reads the metadata of an image of the given format.
    pub fn from_type(data: &'a [u8], image_type: ImageType) -> (r: Result<Self, DecodeError>)
        ensures
            r is Ok <==> header_meta(data@, image_type) is Some,
            r is Ok ==> r->Ok_0.is_picture_of(data, image_type),
            r is Err ==> (image_type == ImageType::Png <==> r->Err_0 is Png),
            r is Err ==> (image_type == ImageType::Jpeg <==> r->Err_0 is Jpeg),
    {
        match image_type {
            ImageType::Png => Self::from_png(data),
            ImageType::Jpeg => Self::from_jpeg(data),
        }
    }
}

} // verus!
