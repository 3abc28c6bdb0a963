//! Media handling around uploads: magic-byte detection of image types,
//! their MIME names, the content-addressed storage paths an upload is
//! filed under, and the digest that addresses it.

use vstd::prelude::*;

use crate::strutil::{bytes_prefix, bytes_starts_with};
use crypto::digest::Digest;

verus! {

/// The image container formats the detector knows.
#[derive(PartialEq, Eq, Structural, Clone, Copy, Debug)]
pub enum ImageFormat {
    Bmp,
    Gif,
    Hdr,
    Ico,
    Jpeg,
    Png,
    Ppm,
    Tga,
    Tiff,
    Webp,
}

/// Mapping of a detected image type to its typical file extension and
/// format, for files whose client-supplied name is missing or untrusted.
#[derive(Clone, Copy, Debug)]
pub struct ImageMeta {
    ext: &'static str,
    fmt: ImageFormat,
}

impl ImageMeta {
    /// The file extension this type is stored under.
    pub closed spec fn ext_view(&self) -> Seq<char> {
        self.ext@
    }

    /// The detected format.
    pub closed spec fn fmt_val(&self) -> ImageFormat {
        self.fmt
    }

    /// Pairs an extension with its format.
    pub fn from(extension: &'static str, format: ImageFormat) -> (r: ImageMeta)
        ensures
            r.ext_view() == extension@,
            r.fmt_val() == format,
    {
        ImageMeta { ext: extension, fmt: format }
    }

    /// Fetches this image's file extension.
    pub fn extension(&self) -> (r: &'static str)
        ensures
            r@ == self.ext_view(),
    {
        self.ext
    }

    /// Fetches this image's format enumeration.
    pub fn format(&self) -> (r: ImageFormat)
        ensures
            r == self.fmt_val(),
    {
        self.fmt
    }

    /// Fetches the MIME type (for use with a content-type header).
    pub fn mime(&self) -> (r: &'static str)
        ensures
            r@ == spec_mime_name(self.fmt_val()),
    {
        match self.fmt {
            ImageFormat::Bmp => "image/bmp",
            ImageFormat::Gif => "image/gif",
            ImageFormat::Hdr => "image/x-hdr",
            ImageFormat::Ico => "image/x-icon",
            ImageFormat::Jpeg => "image/jpeg",
            ImageFormat::Png => "image/png",
            ImageFormat::Ppm => "image/x-portable-pixmap",
            ImageFormat::Tga => "image/tga",
            ImageFormat::Tiff => "image/tiff",
            ImageFormat::Webp => "image/webp",
        }
    }
}

/// The MIME name of each known format.
pub open spec fn spec_mime_name(fmt: ImageFormat) -> Seq<char> {
    match fmt {
        ImageFormat::Bmp => "image/bmp"@,
        ImageFormat::Gif => "image/gif"@,
        ImageFormat::Hdr => "image/x-hdr"@,
        ImageFormat::Ico => "image/x-icon"@,
        ImageFormat::Jpeg => "image/jpeg"@,
        ImageFormat::Png => "image/png"@,
        ImageFormat::Ppm => "image/x-portable-pixmap"@,
        ImageFormat::Tga => "image/tga"@,
        ImageFormat::Tiff => "image/tiff"@,
        ImageFormat::Webp => "image/webp"@,
    }
}

/// What magic-byte detection yields on the given data: the extension and
/// format of the first header pattern the data starts with.
pub open spec fn spec_mime_detect(data: Seq<u8>) -> Option<(Seq<char>, ImageFormat)> {
    if bytes_prefix(data, seq![66u8, 77u8]) {
        Some(("bmp"@, ImageFormat::Bmp))
    } else if bytes_prefix(data, seq![71u8, 73u8, 70u8, 56u8, 55u8, 97u8]) {
        Some(("gif"@, ImageFormat::Gif))
    } else if bytes_prefix(data, seq![71u8, 73u8, 70u8, 56u8, 57u8, 97u8]) {
        Some(("gif"@, ImageFormat::Gif))
    } else if bytes_prefix(
        data,
        seq![35u8, 63u8, 82u8, 65u8, 68u8, 73u8, 65u8, 78u8, 67u8, 69u8],
    ) {
        Some(("hdr"@, ImageFormat::Hdr))
    } else if bytes_prefix(data, seq![0u8, 0u8, 1u8, 0u8]) {
        Some(("ico"@, ImageFormat::Ico))
    } else if bytes_prefix(data, seq![255u8, 216u8]) {
        Some(("jpg"@, ImageFormat::Jpeg))
    } else if bytes_prefix(data, seq![137u8, 80u8, 78u8, 71u8]) {
        Some(("png"@, ImageFormat::Png))
    } else if bytes_prefix(data, seq![77u8, 77u8, 46u8, 42u8]) {
        Some(("tiff"@, ImageFormat::Tiff))
    } else if bytes_prefix(data, seq![73u8, 73u8, 42u8, 46u8]) {
        Some(("tiff"@, ImageFormat::Tiff))
    } else {
        None
    }
}

/// Detects an image type from the leading bytes of a file, by a table of
/// magic-byte headers; the first matching header wins.
pub fn mime_detect(data: &[u8]) -> (r: Option<ImageMeta>)
    ensures
        match r {
            Some(m) => spec_mime_detect(data@) == Some((m.ext_view(), m.fmt_val())),
            None => spec_mime_detect(data@) is None,
        },
{
    let bmp: Vec<u8> = vec![66, 77];
    let gif87: Vec<u8> = vec![71, 73, 70, 56, 55, 97];
    let gif89: Vec<u8> = vec![71, 73, 70, 56, 57, 97];
    let hdr: Vec<u8> = vec![35, 63, 82, 65, 68, 73, 65, 78, 67, 69];
    let ico: Vec<u8> = vec![0, 0, 1, 0];
    let jpg: Vec<u8> = vec![255, 216];
    let png: Vec<u8> = vec![137, 80, 78, 71];
    let tiff_be: Vec<u8> = vec![77, 77, 46, 42];
    let tiff_le: Vec<u8> = vec![73, 73, 42, 46];
    if bytes_starts_with(data, bmp.as_slice()) {
        Some(ImageMeta::from("bmp", ImageFormat::Bmp))
    } else if bytes_starts_with(data, gif87.as_slice()) {
        Some(ImageMeta::from("gif", ImageFormat::Gif))
    } else if bytes_starts_with(data, gif89.as_slice()) {
        Some(ImageMeta::from("gif", ImageFormat::Gif))
    } else if bytes_starts_with(data, hdr.as_slice()) {
        Some(ImageMeta::from("hdr", ImageFormat::Hdr))
    } else if bytes_starts_with(data, ico.as_slice()) {
        Some(ImageMeta::from("ico", ImageFormat::Ico))
    } else if bytes_starts_with(data, jpg.as_slice()) {
        Some(ImageMeta::from("jpg", ImageFormat::Jpeg))
    } else if bytes_starts_with(data, png.as_slice()) {
        Some(ImageMeta::from("png", ImageFormat::Png))
    } else if bytes_starts_with(data, tiff_be.as_slice()) {
        Some(ImageMeta::from("tiff", ImageFormat::Tiff))
    } else if bytes_starts_with(data, tiff_le.as_slice()) {
        Some(ImageMeta::from("tiff", ImageFormat::Tiff))
    } else {
        None
    }
}

/// The hex form of the SHA-256 digest of a byte sequence.
pub uninterp spec fn sha256_hex_of(data: Seq<u8>) -> Seq<char>;

/// Relies on crypto's `Sha256` with `Digest::result_str`: the result is
/// the digest of exactly the bytes fed in, rendered as hex — two digits
/// per digest byte, 64 characters for SHA-256's 32-byte output — and a
/// function of the input bytes alone.
#[verifier::external_body]
fn sha256_hex(data: &[u8]) -> (r: String)
    ensures
        r@ == sha256_hex_of(data@),
        r@.len() == 64,
{
    let mut digest = crypto::sha2::Sha256::new();
    digest.input(data);
    digest.result_str()
}

/// Where an upload goes in the content-addressed store: the content and
/// thumbnail bucket directories, named by the first two digest
/// characters, and the file name, the digest with the detected
/// extension.
#[verifier::ext_equal]
pub struct UploadPlan {
    pub digest: String,
    pub content_dir: String,
    pub thumb_dir: String,
    pub content_name: String,
    pub meta: ImageMeta,
}

/// Plans the filing of an upload: digest the bytes, detect the image
/// type, and derive the storage paths; `None` when the bytes match no
/// known image header.
pub fn plan_upload(content_store: &str, data: &[u8]) -> (r: Option<UploadPlan>)
    ensures
        match r {
            Some(plan) => spec_mime_detect(data@) matches Some(m) && plan.digest@ == sha256_hex_of(
                data@,
            ) && plan.digest@.len() == 64 && plan.content_dir@ == content_store@ + "/f"@
                + sha256_hex_of(data@).take(2) && plan.thumb_dir@ == content_store@ + "/t"@
                + sha256_hex_of(data@).take(2) && plan.content_name@ == sha256_hex_of(data@) + "."@
                + m.0 && plan.meta.ext_view() == m.0 && plan.meta.fmt_val() == m.1,
            None => spec_mime_detect(data@) is None,
        },
{
    let meta = match mime_detect(data) {
        Some(meta) => meta,
        None => {
            return None;
        },
    };
    let digest = sha256_hex(data);
    let bucket = digest.as_str().substring_char(0, 2);
    let content_dir = content_store.to_owned().concat("/f").concat(bucket);
    let thumb_dir = content_store.to_owned().concat("/t").concat(bucket);
    let content_name = digest.as_str().to_owned().concat(".").concat(meta.extension());
    proof {
        assert(bucket@ =~= sha256_hex_of(data@).take(2));
    }
    Some(UploadPlan { digest, content_dir, thumb_dir, content_name, meta })
}

/// An ASCII hexadecimal digit, in either case.
pub open spec fn is_hex_digit_char(c: char) -> bool {
    (48 <= c as u32 && c as u32 <= 57) || (97 <= c as u32 && c as u32 <= 102) || (65 <= c as u32
        && c as u32 <= 70)
}

/// `s` has the shape of a content digest the store files under: hex
/// digits only, and long enough to name a bucket directory.
pub open spec fn spec_digest_shaped(s: Seq<char>) -> bool {
    s.len() >= 2 && forall|i: int| 0 <= i < s.len() ==> is_hex_digit_char(s[i])
}

/// Whether a client-supplied string may be used as a content digest:
/// hex digits only, long enough to name a bucket. Anything else names no
/// stored entry and must not reach path construction.
pub fn is_content_digest(digest: &str) -> (r: bool)
    ensures
        r == spec_digest_shaped(digest@),
{
    let n: usize = digest.unicode_len();
    if n < 2 {
        return false;
    }
    let mut i: usize = 0;
    while i < n
        invariant
            i <= n,
            n == digest@.len(),
            forall|k: int| 0 <= k < i ==> is_hex_digit_char(digest@[k]),
        decreases n - i,
    {
        let v = digest.get_char(i) as u32;
        if !((48 <= v && v <= 57) || (97 <= v && v <= 102) || (65 <= v && v <= 70)) {
            return false;
        }
        i += 1;
    }
    true
}

} // verus!
