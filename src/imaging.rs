//! Image validation and the payloads handed to the frontend: dimension
//! bounds, media types, base64 text and the typed payload object.
use vstd::prelude::*;
use vstd::string::StringExecFns;
use base64::Engine as _;
use crate::text::{decimal, push_decimal, joined};
use crate::sanitize::is_base64_char;

verus! {

/// Largest accepted width and height, in pixels.
pub const MAX_SIDE: u32 = 8000;

/// Smallest accepted width and height, in pixels.
pub const MIN_SIDE: u32 = 200;

/// The container format of an image file.
#[derive(PartialEq, Eq, Structural, Clone, Copy, Debug)]
pub enum ImageKind {
    Jpeg,
    Png,
    Gif,
    WebP,
    Bmp,
    Tiff,
    Avif,
    Pnm,
    Tga,
    Dds,
    Ico,
    Hdr,
    Farbfeld,
    Other,
}

/// The MIME type reported for each kind of image.
pub open spec fn media_type_of(kind: ImageKind) -> Seq<char> {
    match kind {
        ImageKind::Jpeg => "image/jpeg"@,
        ImageKind::Png => "image/png"@,
        ImageKind::Gif => "image/gif"@,
        ImageKind::WebP => "image/webp"@,
        ImageKind::Bmp => "image/bmp"@,
        ImageKind::Tiff => "image/tiff"@,
        ImageKind::Avif => "image/avif"@,
        ImageKind::Pnm => "image/x-portable-anymap"@,
        ImageKind::Tga => "image/x-tga"@,
        ImageKind::Dds => "image/vnd.ms-dds"@,
        ImageKind::Ico => "image/x-icon"@,
        ImageKind::Hdr => "image/vnd.radiance"@,
        ImageKind::Farbfeld => "image/farbfeld"@,
        ImageKind::Other => "application/octet-stream"@,
    }
}

/// The MIME type of an image kind.
pub fn media_type(kind: ImageKind) -> (r: String)
    ensures
        r@ == media_type_of(kind),
{
    let t = match kind {
        ImageKind::Jpeg => "image/jpeg",
        ImageKind::Png => "image/png",
        ImageKind::Gif => "image/gif",
        ImageKind::WebP => "image/webp",
        ImageKind::Bmp => "image/bmp",
        ImageKind::Tiff => "image/tiff",
        ImageKind::Avif => "image/avif",
        ImageKind::Pnm => "image/x-portable-anymap",
        ImageKind::Tga => "image/x-tga",
        ImageKind::Dds => "image/vnd.ms-dds",
        ImageKind::Ico => "image/x-icon",
        ImageKind::Hdr => "image/vnd.radiance",
        ImageKind::Farbfeld => "image/farbfeld",
        ImageKind::Other => "application/octet-stream",
    };
    String::from_str(t)
}

/// `WxH` in decimal.
pub open spec fn size_text(width: u32, height: u32) -> Seq<char> {
    decimal(width as nat) + seq!['x'] + decimal(height as nat)
}

/// The error for an image with a side over the maximum.
pub open spec fn too_large_message(width: u32, height: u32) -> Seq<char> {
    "Image dimensions too large: "@ + size_text(width, height) + " (max 8000x8000 px)"@
}

/// The error for an image with a side under the minimum.
pub open spec fn too_small_message(width: u32, height: u32) -> Seq<char> {
    "Image dimensions too small: "@ + size_text(width, height) + " (min 200x200 px)"@
}

fn size_message(prefix: &str, width: u32, height: u32, suffix: &str) -> (r: String)
    ensures
        r@ == prefix@ + size_text(width, height) + suffix@,
{
    let mut s = String::from_str(prefix);
    push_decimal(&mut s, width as u64);
    s.append("x");
    push_decimal(&mut s, height as u64);
    s.append(suffix);
    proof {
        reveal_strlit("x");
    }
    assert(s@ =~= prefix@ + size_text(width, height) + suffix@);
    s
}

/// Checks an image's dimensions: a side over 8000 pixels is too large (this
/// is checked first), a side under 200 pixels is too small.
pub fn check_image_dimensions(width: u32, height: u32) -> (r: Result<(), String>)
    ensures
        match r {
            Ok(_) => MIN_SIDE <= width <= MAX_SIDE && MIN_SIDE <= height <= MAX_SIDE,
            Err(m) => if width > MAX_SIDE || height > MAX_SIDE {
                m@ == too_large_message(width, height)
            } else {
                (width < MIN_SIDE || height < MIN_SIDE) && m@ == too_small_message(width, height)
            },
        },
{
    if width > MAX_SIDE || height > MAX_SIDE {
        return Err(
            size_message("Image dimensions too large: ", width, height, " (max 8000x8000 px)"),
        );
    }
    if width < MIN_SIDE || height < MIN_SIDE {
        return Err(
            size_message("Image dimensions too small: ", width, height, " (min 200x200 px)"),
        );
    }
    Ok(())
}

/// What the standard, padded base64 engine encodes `b` to.
pub uninterp spec fn standard_encoded(b: Seq<u8>) -> Seq<char>;

/// The length of the padded base64 text of `n` bytes.
pub open spec fn padded_base64_len(n: nat) -> nat {
    4 * ((n + 2) / 3)
}

/// The inputs whose encoded length the encoder can compute without overflow.
pub open spec fn encodable_len(n: nat) -> bool {
    4 * (n / 3) + 4 <= usize::MAX
}

/// Relies on `base64::engine::general_purpose::STANDARD.encode`: padded
/// output of four characters per started group of three bytes, each from the
/// standard alphabet (`A`-`Z`, `a`-`z`, `0`-`9`, `+`, `/`) or the padding `=`.
/// It panics only when that length overflows `usize`.
#[verifier::external_body]
fn encode_standard(b: &Vec<u8>) -> (r: String)
    requires
        encodable_len(b@.len()),
    ensures
        r@ == standard_encoded(b@),
        r@.len() == padded_base64_len(b@.len()),
        forall|i: int| 0 <= i < r@.len() ==> is_base64_char(#[trigger] r@[i]),
{
    base64::engine::general_purpose::STANDARD.encode(b)
}

/// The base64 text of an image file's bytes.
pub fn image_base64(bytes: &Vec<u8>) -> (r: String)
    requires
        encodable_len(bytes@.len()),
    ensures
        r@ == standard_encoded(bytes@),
        r@.len() == padded_base64_len(bytes@.len()),
        forall|i: int| 0 <= i < r@.len() ==> is_base64_char(#[trigger] r@[i]),
{
    encode_standard(bytes)
}

/// The payload object `{"base64Data":"<data>","mediaType":"<type>"}` in
/// compact JSON, keys in sorted order, for data that JSON need not escape.
pub open spec fn payload_text(data: Seq<char>, kind: ImageKind) -> Seq<char> {
    "{\"base64Data\":\""@ + data + "\",\"mediaType\":\""@ + media_type_of(kind) + "\"}"@
}

/// Text that JSON writes as it stands: no quote, backslash or control
/// character.
pub open spec fn json_plain(s: Seq<char>) -> bool {
    forall|i: int| 0 <= i < s.len() ==> #[trigger] s[i] != '"' && s[i] != '\\' && s[i] as u32
        >= 0x20
}

/// Frames base64 text and the media type of `kind` as the payload object.
pub fn payload_json(data: &str, kind: ImageKind) -> (r: String)
    requires
        json_plain(data@),
    ensures
        r@ == payload_text(data@, kind),
{
    let mut s = joined("{\"base64Data\":\"", data);
    s.append("\",\"mediaType\":\"");
    let t = media_type(kind);
    s.append(t.as_str());
    s.append("\"}");
    s
}

/// The payload object for an image file's bytes and kind.
pub fn image_payload(bytes: &Vec<u8>, kind: ImageKind) -> (r: String)
    requires
        encodable_len(bytes@.len()),
    ensures
        r@ == payload_text(standard_encoded(bytes@), kind),
{
    let data = encode_standard(bytes);
    assert(json_plain(data@)) by {
        assert forall|i: int| 0 <= i < data@.len() implies #[trigger] data@[i] != '"' && data@[i]
            != '\\' && data@[i] as u32 >= 0x20 by {
            assert(is_base64_char(data@[i]));
        }
    }
    payload_json(data.as_str(), kind)
}

} // verus!
