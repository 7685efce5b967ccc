//! Pictures: employee photos and service-order thumbnails, bounded in size
//! and re-encoded as PNG.
use vstd::prelude::*;
use base64::Engine;
use crate::text::{chars_of, has_prefix, is_ws, push_all, push_str, split_first, split_once, starts_with, string_of, white};

verus! {

/// The PNG encoding of the image `bytes` decode to (format guessed from the
/// bytes, at most `max_side` pixels wide and high, at most `max_alloc` bytes
/// allocated), scaled to fit `width` by `height` keeping its proportions.
pub uninterp spec fn png_thumbnail_of(
    bytes: Seq<u8>,
    width: u32,
    height: u32,
    max_side: u32,
    max_alloc: u64,
) -> Option<Seq<u8>>;

/// The largest picture side read, in pixels.
pub const MAX_SIDE: u32 = 12000;

/// Decodes with `image::ImageReader` (guessed format, `max_side` pixels a
/// side and `max_alloc` bytes at most), scales with
/// `DynamicImage::thumbnail` and writes PNG with `DynamicImage::write_to`.
/// Claims: the result is the named thumbnail of the arguments; `None` when
/// any step fails.
#[verifier::external_body]
fn png_thumbnail(bytes: &[u8], width: u32, height: u32, max_side: u32, max_alloc: u64) -> (r: Option<Vec<u8>>)
    ensures
        match (r, png_thumbnail_of(bytes@, width, height, max_side, max_alloc)) {
            (Some(v), Some(w)) => v@ == w,
            (None, None) => true,
            _ => false,
        },
{
    let mut reader = image::ImageReader::new(std::io::Cursor::new(bytes)).with_guessed_format().ok()?;
    let mut limits = image::Limits::default();
    limits.max_image_width = Some(max_side);
    limits.max_image_height = Some(max_side);
    limits.max_alloc = Some(max_alloc);
    reader.limits(limits);
    let image = reader.decode().ok()?.thumbnail(width, height);
    let mut out = std::io::Cursor::new(Vec::new());
    image.write_to(&mut out, image::ImageFormat::Png).ok()?;
    Some(out.into_inner())
}

/// What standard base64 (`base64::engine::general_purpose::STANDARD`) decodes from a text.
pub uninterp spec fn base64_decoded(text: Seq<char>) -> Option<Seq<u8>>;

/// The standard base64 text of some bytes.
pub uninterp spec fn base64_text(bytes: Seq<u8>) -> Seq<char>;

/// `STANDARD.decode`. Claims: the result is the named decoding of the text.
#[verifier::external_body]
fn base64_decode(text: &[char]) -> (r: Option<Vec<u8>>)
    ensures
        match (r, base64_decoded(text@)) {
            (Some(v), Some(w)) => v@ == w,
            (None, None) => true,
            _ => false,
        },
{
    base64::engine::general_purpose::STANDARD.decode(text.iter().collect::<String>()).ok()
}

/// `STANDARD.encode`. Claims: the result is the named encoding of the bytes,
/// and decoding it gives the bytes back.
#[verifier::external_body]
fn base64_encode(bytes: &[u8]) -> (r: Vec<char>)
    ensures
        r@ == base64_text(bytes@),
        base64_decoded(r@) == Some(bytes@),
{
    base64::engine::general_purpose::STANDARD.encode(bytes).chars().collect()
}

/// Why a picture was refused.
#[derive(Debug, PartialEq, Eq)]
pub enum MediaError {
    /// A photo larger than 12 MiB.
    PhotoTooLarge,
    /// A data URL without a `,` before its data.
    InvalidImage,
    /// More than 5,000,000 bytes of encoded data.
    Oversized,
    /// The data is not base64.
    InvalidBase64,
    /// The bytes are not an image that can be read within the limits.
    Undecodable,
}

/// A photo stored for an employee: refused above 12 MiB, else the PNG
/// thumbnail within 600 x 600 pixels.
pub open spec fn photo_result(bytes: Seq<u8>) -> Result<Seq<u8>, MediaError> {
    if bytes.len() > 12 * 1024 * 1024 {
        Err(MediaError::PhotoTooLarge)
    } else {
        match png_thumbnail_of(bytes, 600, 600, MAX_SIDE, 134217728u64) {
            Some(p) => Ok(p),
            None => Err(MediaError::Undecodable),
        }
    }
}

/// An employee photo as it is stored.
pub fn normalize_photo(bytes: &[u8]) -> (r: Result<Vec<u8>, MediaError>)
    ensures
        match (r, photo_result(bytes@)) {
            (Ok(v), Ok(w)) => v@ == w,
            (Err(a), Err(b)) => a == b,
            _ => false,
        },
{
    if bytes.len() > 12 * 1024 * 1024 {
        return Err(MediaError::PhotoTooLarge);
    }
    match png_thumbnail(bytes, 600, 600, MAX_SIDE, 128 * 1024 * 1024) {
        Some(p) => Ok(p),
        None => Err(MediaError::Undecodable),
    }
}

/// A prompt thumbnail from a data URL: the base64 after the first `,`, at
/// most 5,000,000 bytes of it, decoded and scaled within 320 x 240 pixels,
/// given back as a PNG data URL.
pub open spec fn thumbnail_result(data: Seq<char>) -> Result<Seq<char>, MediaError> {
    match split_first(data, ',') {
        None => Err(MediaError::InvalidImage),
        Some((_, encoded)) => if crate::number::byte_len(encoded) > 5_000_000 {
            Err(MediaError::Oversized)
        } else {
            match base64_decoded(encoded) {
                None => Err(MediaError::InvalidBase64),
                Some(bytes) => match png_thumbnail_of(bytes, 320, 240, MAX_SIDE, 67108864u64) {
                    None => Err(MediaError::Undecodable),
                    Some(png) => Ok("data:image/png;base64,"@ + base64_text(png)),
                },
            }
        },
    }
}

/// The thumbnail of a prompt picture.
pub fn thumbnail(data: &str) -> (r: Result<String, MediaError>)
    ensures
        match (r, thumbnail_result(data@)) {
            (Ok(v), Ok(w)) => v@ == w,
            (Err(a), Err(b)) => a == b,
            _ => false,
        },
{
    let v = chars_of(data);
    let encoded = match split_once(v.as_slice(), ',') {
        Some((_, e)) => e,
        None => return Err(MediaError::InvalidImage),
    };
    if crate::number::byte_length(encoded.as_slice()) > 5_000_000 {
        return Err(MediaError::Oversized);
    }
    let bytes = match base64_decode(encoded.as_slice()) {
        Some(b) => b,
        None => return Err(MediaError::InvalidBase64),
    };
    let png = match png_thumbnail(bytes.as_slice(), 320, 240, MAX_SIDE, 64 * 1024 * 1024) {
        Some(p) => p,
        None => return Err(MediaError::Undecodable),
    };
    let mut out: Vec<char> = Vec::new();
    push_str(&mut out, "data:image/png;base64,");
    let text = base64_encode(png.as_slice());
    push_all(&mut out, text.as_slice());
    Ok(string_of(out.as_slice()))
}

/// The text with every white-space character removed.
pub open spec fn without_ws(s: Seq<char>) -> Seq<char> {
    s.filter(|c: char| !is_ws(c))
}

/// The data URL of a stored employee photo: its base64 without white space,
/// typed PNG, JPEG or otherwise WebP by how the data starts; none when the
/// photo is missing or empty.
pub open spec fn photo_url(raw: Option<Seq<char>>) -> Option<Seq<char>> {
    match raw {
        None => None,
        Some(s) => {
            let clean = without_ws(s);
            if clean.len() == 0 {
                None
            } else {
                let mime = if has_prefix(clean, "iVBOR"@) {
                    "image/png"@
                } else if has_prefix(clean, "/9j/"@) {
                    "image/jpeg"@
                } else {
                    "image/webp"@
                };
                Some("data:"@ + mime + ";base64,"@ + clean)
            }
        },
    }
}

/// The picture shown for an employee's stored photo.
pub fn photo(raw: Option<&str>) -> (r: Option<String>)
    ensures
        match (r, photo_url(match raw {
            Some(s) => Some(s@),
            None => None,
        })) {
            (Some(a), Some(b)) => a@ == b,
            (None, None) => true,
            _ => false,
        },
{
    let s = match raw {
        Some(s) => s,
        None => return None,
    };
    let v = chars_of(s);
    let mut clean: Vec<char> = Vec::new();
    let mut i: usize = 0;
    while i < v.len()
        invariant
            i <= v@.len(),
            v@ == s@,
            clean@ == without_ws(v@.subrange(0, i as int)),
        decreases v@.len() - i,
    {
        if !white(v[i]) {
            clean.push(v[i]);
        }
        proof {
            let t = v@.subrange(0, i + 1);
            assert(t.drop_last() =~= v@.subrange(0, i as int));
            reveal_with_fuel(Seq::<_>::filter, 1);
            assert(clean@ =~= without_ws(t));
        }
        i = i + 1;
    }
    proof {
        assert(v@.subrange(0, i as int) =~= v@);
    }
    if clean.len() == 0 {
        return None;
    }
    let mut out: Vec<char> = Vec::new();
    push_str(&mut out, "data:");
    if starts_with(clean.as_slice(), chars_of("iVBOR").as_slice()) {
        push_str(&mut out, "image/png");
    } else if starts_with(clean.as_slice(), chars_of("/9j/").as_slice()) {
        push_str(&mut out, "image/jpeg");
    } else {
        push_str(&mut out, "image/webp");
    }
    push_str(&mut out, ";base64,");
    push_all(&mut out, clean.as_slice());
    Some(string_of(out.as_slice()))
}

} // verus!
