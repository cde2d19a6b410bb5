//! Builds the METADATA_BLOCK_PICTURE record used by FLAC and Vorbis comments
//! from the bytes of a PNG or JPEG image.

pub mod base64_text;
pub mod extract;
pub mod output;
pub mod record;

pub use extract::{DecodeError, ImageType, JpegPixels};
pub use output::{encode_output, resolve_image_type, OutputFormat};
pub use record::{EncodeError, MetadataBlockPicture};
