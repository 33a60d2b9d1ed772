//! Metadata of a single image: pixel dimensions and color type obtained by
//! decoding the raw bytes, a container-format label read off the path's
//! extension, and the byte size. The application reads the file; this module
//! decides everything about the bytes it got.
use vstd::prelude::*;

use crate::classify::folded;
use crate::scan::ext_of;
use crate::scan::extension_of;
use crate::scan::FileManager;
use crate::classify::eq_ignore_case;
use crate::types::ImageMetadata;
use crate::types::MetadataError;

verus! {

/// What the image decoder makes of a byte string: pixel width, pixel height
/// and the color-type description, or nothing when the bytes decode as no
/// recognized image format. A pure function of the bytes.
pub uninterp spec fn decoded_image(bytes: Seq<u8>) -> Option<(u32, u32, Seq<char>)>;

/// Relies on image::load_from_memory, which guesses the format and decodes
/// purely from the given bytes, and on DynamicImage::width, ::height and
/// ::color, read off the decoded value. The decoded image never leaves this
/// wrapper, so the one name `decoded_image` stands for the decode together
/// with those three accessors; the color type is rendered through its Debug
/// form.
#[verifier::external_body]
fn decode_image(bytes: &Vec<u8>) -> (r: Option<(u32, u32, String)>)
    ensures
        r is Some <==> decoded_image(bytes@) is Some,
        r matches Some(t) ==> decoded_image(bytes@) == Some((t.0, t.1, t.2@)),
{
    match image::load_from_memory(bytes.as_slice()) {
        Ok(img) => Some((img.width(), img.height(), format!("{:?}", img.color()))),
        Err(_) => None,
    }
}

/// The container-format label read off a path's extension, or "Unknown"
/// when no format answers to it. The table mirrors the extensions that
/// image::ImageFormat::from_path recognizes, label for label.
pub open spec fn format_label_of(path: Seq<char>) -> Seq<char> {
    match ext_of(path) {
        Some(x) => {
            let f = folded(x);
            if f == folded("avif"@) {
                "Avif"@
            } else if f == folded("jpg"@) || f == folded("jpeg"@) || f == folded("jfif"@) {
                "Jpeg"@
            } else if f == folded("png"@) || f == folded("apng"@) {
                "Png"@
            } else if f == folded("gif"@) {
                "Gif"@
            } else if f == folded("webp"@) {
                "WebP"@
            } else if f == folded("tif"@) || f == folded("tiff"@) {
                "Tiff"@
            } else if f == folded("tga"@) {
                "Tga"@
            } else if f == folded("dds"@) {
                "Dds"@
            } else if f == folded("bmp"@) {
                "Bmp"@
            } else if f == folded("ico"@) {
                "Ico"@
            } else if f == folded("hdr"@) {
                "Hdr"@
            } else if f == folded("exr"@) {
                "OpenExr"@
            } else if f == folded("pbm"@) || f == folded("pam"@) || f == folded("ppm"@) || f
                == folded("pgm"@) || f == folded("pnm"@) {
                "Pnm"@
            } else if f == folded("ff"@) {
                "Farbfeld"@
            } else if f == folded("qoi"@) {
                "Qoi"@
            } else {
                "Unknown"@
            }
        },
        None => "Unknown"@,
    }
}

/// Renders the format label of a path, as executable code.
pub fn format_label(path: &str) -> (r: String)
    ensures
        r@ == format_label_of(path@),
{
    match extension_of(path) {
        Some(x) => {
            if eq_ignore_case(x, "avif") {
                "Avif".to_owned()
            } else if eq_ignore_case(x, "jpg") || eq_ignore_case(x, "jpeg") || eq_ignore_case(
                x,
                "jfif",
            ) {
                "Jpeg".to_owned()
            } else if eq_ignore_case(x, "png") || eq_ignore_case(x, "apng") {
                "Png".to_owned()
            } else if eq_ignore_case(x, "gif") {
                "Gif".to_owned()
            } else if eq_ignore_case(x, "webp") {
                "WebP".to_owned()
            } else if eq_ignore_case(x, "tif") || eq_ignore_case(x, "tiff") {
                "Tiff".to_owned()
            } else if eq_ignore_case(x, "tga") {
                "Tga".to_owned()
            } else if eq_ignore_case(x, "dds") {
                "Dds".to_owned()
            } else if eq_ignore_case(x, "bmp") {
                "Bmp".to_owned()
            } else if eq_ignore_case(x, "ico") {
                "Ico".to_owned()
            } else if eq_ignore_case(x, "hdr") {
                "Hdr".to_owned()
            } else if eq_ignore_case(x, "exr") {
                "OpenExr".to_owned()
            } else if eq_ignore_case(x, "pbm") || eq_ignore_case(x, "pam") || eq_ignore_case(
                x,
                "ppm",
            ) || eq_ignore_case(x, "pgm") || eq_ignore_case(x, "pnm") {
                "Pnm".to_owned()
            } else if eq_ignore_case(x, "ff") {
                "Farbfeld".to_owned()
            } else if eq_ignore_case(x, "qoi") {
                "Qoi".to_owned()
            } else {
                "Unknown".to_owned()
            }
        },
        None => "Unknown".to_owned(),
    }
}

impl FileManager {
    /// Metadata of one image: `data` holds the file's bytes, or `None` when
    /// they could not be read. Unreadable bytes are an I/O failure;
    /// undecodable bytes a decode failure; otherwise the decoder's
    /// dimensions and color type are reported together with the format label
    /// of the path and the byte size. An unknown format alone never fails
    /// the read.
    pub fn get_image_metadata(data: &Option<Vec<u8>>, path: &str) -> (r: Result<
        ImageMetadata,
        MetadataError,
    >)
        ensures
            (r matches Err(MetadataError::IoFailed)) <==> data is None,
            data matches Some(bytes) ==> ((r is Ok) <==> decoded_image(bytes@) is Some),
            r matches Ok(m) ==> {
                let bytes = data->Some_0;
                &&& decoded_image(bytes@) matches Some(t) && m.width == t.0 && m.height == t.1
                    && m.color_type@ == t.2
                &&& m.format@ == format_label_of(path@)
                &&& m.file_size == bytes@.len()
            },
    {
        let bytes = match data {
            Some(b) => b,
            None => {
                return Err(MetadataError::IoFailed);
            },
        };
        let (width, height, color_type) = match decode_image(bytes) {
            Some(t) => t,
            None => {
                return Err(MetadataError::DecodeFailed);
            },
        };
        let format = format_label(path);
        let file_size = bytes.len() as u64;
        Ok(ImageMetadata { width, height, format, color_type, file_size })
    }
}

} // verus!
