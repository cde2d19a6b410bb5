use ogg_coverart::record::MetadataBlockPicture;
use ogg_coverart::{encode_output, resolve_image_type, DecodeError, ImageType, OutputFormat};

fn png_image(width: u32, height: u32, color: png::ColorType, depth: png::BitDepth) -> Vec<u8> {
    let mut out = Vec::new();
    {
        let mut encoder = png::Encoder::new(&mut out, width, height);
        encoder.set_color(color);
        encoder.set_depth(depth);
        if color == png::ColorType::Indexed {
            encoder.set_palette(vec![0u8, 0, 0, 255, 255, 255]);
        }
        let mut writer = encoder.write_header().unwrap();
        let samples: usize = match color {
            png::ColorType::Grayscale | png::ColorType::Indexed => 1,
            png::ColorType::GrayscaleAlpha => 2,
            png::ColorType::Rgb => 3,
            png::ColorType::Rgba => 4,
        };
        let bits = depth as usize;
        let row = (width as usize * samples * bits + 7) / 8;
        writer.write_image_data(&vec![0u8; row * height as usize]).unwrap();
    }
    out
}

fn be32(n: u32) -> [u8; 4] {
    n.to_be_bytes()
}

fn record_of(p: &MetadataBlockPicture) -> Vec<u8> {
    let mut w = Vec::new();
    p.write_to(&mut w).unwrap();
    w
}

fn read_u32(b: &[u8], i: usize) -> u32 {
    u32::from_be_bytes([b[i], b[i + 1], b[i + 2], b[i + 3]])
}

#[test]
fn rgb8_png_metadata_and_record() {
    let data = png_image(100, 200, png::ColorType::Rgb, png::BitDepth::Eight);
    let p = MetadataBlockPicture::from_png(&data).unwrap();
    assert_eq!(p.mime, "image/png");
    assert_eq!(p.width, 100);
    assert_eq!(p.height, 200);
    assert_eq!(p.bit_depth, 24);
    let rec = record_of(&p);
    let mut expected: Vec<u8> = vec![0, 0, 0, 3, 0, 0, 0, 9];
    expected.extend_from_slice(b"image/png");
    expected.extend_from_slice(&[0, 0, 0, 0]);
    expected.extend_from_slice(&[0, 0, 0, 0x64]);
    expected.extend_from_slice(&[0, 0, 0, 0xC8]);
    expected.extend_from_slice(&[0, 0, 0, 0x18]);
    expected.extend_from_slice(&[0, 0, 0, 0]);
    expected.extend_from_slice(&be32(data.len() as u32));
    expected.extend_from_slice(&data);
    assert_eq!(rec, expected);
}

#[test]
fn grayscale_alpha_png_depth() {
    let data = png_image(3, 2, png::ColorType::GrayscaleAlpha, png::BitDepth::Eight);
    let p = MetadataBlockPicture::from_png(&data).unwrap();
    assert_eq!(p.bit_depth, 16);
}

#[test]
fn png_depth_table() {
    let cases = [
        (png::ColorType::Grayscale, png::BitDepth::One, 1),
        (png::ColorType::Grayscale, png::BitDepth::Sixteen, 16),
        (png::ColorType::Indexed, png::BitDepth::Four, 4),
        (png::ColorType::Indexed, png::BitDepth::Eight, 8),
        (png::ColorType::Rgb, png::BitDepth::Sixteen, 48),
        (png::ColorType::Rgba, png::BitDepth::Eight, 32),
        (png::ColorType::Rgba, png::BitDepth::Sixteen, 64),
        (png::ColorType::GrayscaleAlpha, png::BitDepth::Sixteen, 32),
    ];
    for (color, depth, bits) in cases {
        let data = png_image(4, 4, color, depth);
        let p = MetadataBlockPicture::from_png(&data).unwrap();
        assert_eq!(p.bit_depth, bits);
        assert_eq!((p.width, p.height), (4, 4));
    }
}

#[test]
fn png_header_fields_give_depth() {
    let data = [1u8, 2, 3];
    let p = MetadataBlockPicture::from_png_header(&data, 2, 8, 100, 200).unwrap();
    assert_eq!((p.mime, p.width, p.height, p.bit_depth), ("image/png", 100, 200, 24));
    assert_eq!(p.data, &data[..]);
    let p = MetadataBlockPicture::from_png_header(&data, 3, 2, 1, 1).unwrap();
    assert_eq!(p.bit_depth, 2);
    assert_eq!(
        MetadataBlockPicture::from_png_header(&data, 5, 8, 1, 1).unwrap_err(),
        DecodeError::UnsupportedPng { color_type: 5, sample_bits: 8 }
    );
    assert_eq!(
        MetadataBlockPicture::from_png_header(&data, 2, 3, 1, 1).unwrap_err(),
        DecodeError::UnsupportedPng { color_type: 2, sample_bits: 3 }
    );
}

#[test]
fn truncated_png_is_decode_error() {
    let data = png_image(100, 200, png::ColorType::Rgb, png::BitDepth::Eight);
    let cut = &data[..20];
    assert!(matches!(MetadataBlockPicture::from_png(cut), Err(DecodeError::Png(_))));
    let garbage = b"not a png at all";
    assert!(matches!(
        MetadataBlockPicture::from_type(garbage, ImageType::Png),
        Err(DecodeError::Png(_))
    ));
}

fn jpeg_header(marker: u8, precision: u8, width: u16, height: u16, components: u8) -> Vec<u8> {
    let mut v = vec![0xFF, 0xD8, 0xFF, marker];
    let len = 8 + 3 * components as u16;
    v.extend_from_slice(&len.to_be_bytes());
    v.push(precision);
    v.extend_from_slice(&height.to_be_bytes());
    v.extend_from_slice(&width.to_be_bytes());
    v.push(components);
    for id in 1..=components {
        v.extend_from_slice(&[id, 0x11, 0]);
    }
    v
}

#[test]
fn jpeg_metadata() {
    let gray = jpeg_header(0xC0, 8, 100, 200, 1);
    let p = MetadataBlockPicture::from_jpeg(&gray).unwrap();
    assert_eq!((p.mime, p.width, p.height, p.bit_depth), ("image/jpeg", 100, 200, 8));
    let rgb = jpeg_header(0xC0, 8, 640, 480, 3);
    let p = MetadataBlockPicture::from_type(&rgb, ImageType::Jpeg).unwrap();
    assert_eq!((p.width, p.height, p.bit_depth), (640, 480, 24));
    let gray16 = jpeg_header(0xC3, 16, 7, 9, 1);
    let p = MetadataBlockPicture::from_jpeg(&gray16).unwrap();
    assert_eq!((p.width, p.height, p.bit_depth), (7, 9, 16));
}

#[test]
fn jpeg_header_fields_give_depth() {
    let data = [0u8; 2];
    let p = MetadataBlockPicture::from_jpeg_header(&data, ogg_coverart::JpegPixels::Cmyk32, 5, 6);
    assert_eq!((p.mime, p.width, p.height, p.bit_depth), ("image/jpeg", 5, 6, 32));
    let p = MetadataBlockPicture::from_jpeg_header(&data, ogg_coverart::JpegPixels::L16, 5, 6);
    assert_eq!(p.bit_depth, 16);
}

#[test]
fn corrupt_jpeg_is_decode_error() {
    assert!(matches!(MetadataBlockPicture::from_jpeg(&[0x00, 0x01, 0x02]), Err(DecodeError::Jpeg(_))));
    let gray = jpeg_header(0xC0, 8, 100, 200, 1);
    assert!(matches!(MetadataBlockPicture::from_jpeg(&gray[..8]), Err(DecodeError::Jpeg(_))));
}

#[test]
fn record_length_and_round_trip() {
    let data: Vec<u8> = (0..=255u8).collect();
    let p = MetadataBlockPicture { mime: "image/jpeg", width: 7, height: 9, bit_depth: 24, data: &data };
    let mut w = vec![0xAAu8];
    p.write_to(&mut w).unwrap();
    assert_eq!(w[0], 0xAA);
    let rec = &w[1..];
    assert_eq!(rec.len(), 32 + 10 + 256);
    assert_eq!(read_u32(rec, 0), 3);
    let m = read_u32(rec, 4) as usize;
    assert_eq!(&rec[8..8 + m], b"image/jpeg");
    assert_eq!(read_u32(rec, 8 + m), 0);
    assert_eq!(read_u32(rec, 12 + m), 7);
    assert_eq!(read_u32(rec, 16 + m), 9);
    assert_eq!(read_u32(rec, 20 + m), 24);
    assert_eq!(read_u32(rec, 24 + m), 0);
    assert_eq!(read_u32(rec, 28 + m) as usize, 256);
    assert_eq!(&rec[32 + m..], &data[..]);
}

#[test]
fn empty_data_record() {
    let p = MetadataBlockPicture { mime: "image/png", width: 0, height: 0, bit_depth: 0, data: &[] };
    let rec = record_of(&p);
    assert_eq!(rec.len(), 41);
    assert_eq!(&rec[37..], &[0, 0, 0, 0]);
}

#[test]
fn binary_output_is_record() {
    let data = vec![9u8, 8, 7];
    let p = MetadataBlockPicture { mime: "image/png", width: 1, height: 2, bit_depth: 8, data: &data };
    assert_eq!(encode_output(&p, OutputFormat::Binary).unwrap(), record_of(&p));
}

#[test]
fn base64_output_decodes_to_binary() {
    let data = png_image(5, 3, png::ColorType::Rgb, png::BitDepth::Eight);
    let p = MetadataBlockPicture::from_png(&data).unwrap();
    let bin = encode_output(&p, OutputFormat::Binary).unwrap();
    let text = encode_output(&p, OutputFormat::Base64).unwrap();
    assert_eq!(*text.last().unwrap(), b'\n');
    assert_eq!(text.iter().filter(|&&c| c == b'\n').count(), 1);
    assert_eq!(base64::decode(&text[..text.len() - 1]).unwrap(), bin);
}

#[test]
fn base64_output_exact_text() {
    let p = MetadataBlockPicture { mime: "a", width: 0, height: 0, bit_depth: 0, data: &[0xFF] };
    let bin = record_of(&p);
    assert_eq!(bin.len(), 34);
    let text = encode_output(&p, OutputFormat::Base64).unwrap();
    let expected = "AAAAAwAAAAFhAAAAAAAAAAAAAAAAAAAAAAAAAAAAAAAB/w==\n";
    assert_eq!(String::from_utf8(text).unwrap(), expected);
}

#[test]
fn ffmetadata_output_decodes_to_binary() {
    let data = png_image(2, 2, png::ColorType::Rgba, png::BitDepth::Eight);
    let p = MetadataBlockPicture::from_png(&data).unwrap();
    let bin = encode_output(&p, OutputFormat::Binary).unwrap();
    let text = encode_output(&p, OutputFormat::FFMetadata).unwrap();
    let header = b";FFMETADATA1\nMETADATA_BLOCK_PICTURE=";
    assert!(text.starts_with(header));
    assert_eq!(*text.last().unwrap(), b'\n');
    let body = &text[header.len()..text.len() - 1];
    assert_eq!(base64::decode(body).unwrap(), bin);
}

#[test]
fn image_type_resolution() {
    assert_eq!(resolve_image_type(false, false, Some("png")), Some(ImageType::Png));
    assert_eq!(resolve_image_type(false, false, Some("jpg")), Some(ImageType::Jpeg));
    assert_eq!(resolve_image_type(false, false, Some("jpeg")), Some(ImageType::Jpeg));
    assert_eq!(resolve_image_type(true, false, Some("jpg")), Some(ImageType::Png));
    assert_eq!(resolve_image_type(false, true, None), Some(ImageType::Jpeg));
    assert_eq!(resolve_image_type(false, true, Some("png")), Some(ImageType::Jpeg));
}

#[test]
fn unrecognized_extension_is_unresolved() {
    assert_eq!(resolve_image_type(false, false, Some("gif")), None);
    assert_eq!(resolve_image_type(false, false, Some("PNG")), None);
    assert_eq!(resolve_image_type(false, false, Some("")), None);
    assert_eq!(resolve_image_type(false, false, None), None);
}
