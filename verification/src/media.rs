//! Images for the vision model: the data URL they are sent as, and whether
//! an image must be scaled down first.

use vstd::prelude::*;

use crate::text::{owned, push_str};

verus! {

/// The digit of a six-bit value in the standard alphabet (RFC 4648):
/// `A`-`Z`, `a`-`z`, `0`-`9`, `+`, `/`.
pub open spec fn base64_digit(v: int) -> char {
    if v < 26 {
        (65 + v) as char
    } else if v < 52 {
        (97 + v - 26) as char
    } else if v < 62 {
        (48 + v - 52) as char
    } else if v == 62 {
        '+'
    } else {
        '/'
    }
}

/// Standard base64 with padding (RFC 4648, section 4): each group of three
/// bytes becomes four digits; a last group of one or two bytes becomes two
/// or three digits followed by `=` padding to four.
pub open spec fn base64_standard(bytes: Seq<u8>) -> Seq<char>
    decreases bytes.len(),
{
    if bytes.len() == 0 {
        Seq::empty()
    } else if bytes.len() == 1 {
        let a = bytes[0] as int;
        seq![base64_digit(a / 4), base64_digit((a % 4) * 16), '=', '=']
    } else if bytes.len() == 2 {
        let a = bytes[0] as int;
        let b = bytes[1] as int;
        seq![base64_digit(a / 4), base64_digit((a % 4) * 16 + b / 16), base64_digit((b % 16) * 4), '=']
    } else {
        let a = bytes[0] as int;
        let b = bytes[1] as int;
        let c = bytes[2] as int;
        seq![
            base64_digit(a / 4),
            base64_digit((a % 4) * 16 + b / 16),
            base64_digit((b % 16) * 4 + c / 64),
            base64_digit(c % 64),
        ] + base64_standard(bytes.skip(3))
    }
}

/// Encodes bytes with `base64::engine::general_purpose::STANDARD`
/// (base64-0.22.1, src/engine/mod.rs:115): standard alphabet, with padding.
/// The crate panics when the encoded length overflows, which the bound
/// rules out.
#[verifier::external_body]
fn encode_base64(bytes: &[u8]) -> (r: String)
    requires
        bytes@.len() <= 3 * (usize::MAX / 4),
    ensures
        r@ == base64_standard(bytes@),
{
    base64::Engine::encode(&base64::engine::general_purpose::STANDARD, bytes)
}

/// `data:{media_type};base64,{data}`.
pub open spec fn data_url_spec(bytes: Seq<u8>, media_type: Seq<char>) -> Seq<char> {
    "data:"@ + media_type + ";base64,"@ + base64_standard(bytes)
}

/// The data URL of an image.
pub fn encode_as_data_url(image_data: &[u8], media_type: &str) -> (r: String)
    requires
        image_data@.len() <= 3 * (usize::MAX / 4),
    ensures
        r@ == data_url_spec(image_data@, media_type@),
{
    let encoded = encode_base64(image_data);
    let mut r = owned("data:");
    push_str(&mut r, media_type);
    push_str(&mut r, ";base64,");
    push_str(&mut r, encoded.as_str());
    r
}

/// Width and height of the image that `image::load_from_memory` decodes from
/// the bytes; nothing when the bytes are not an image it can decode.
pub uninterp spec fn decoded_size(bytes: Seq<u8>) -> Option<(u32, u32)>;

/// Decodes the bytes with `image::load_from_memory` (image-0.25.10,
/// src/images/dynimage.rs:1676, which guesses the format from the bytes and
/// returns `Err` for what it cannot decode) and reads the decoded image's
/// `width` and `height`; the contract claims only that the result is the
/// crate's result for these bytes. Which bytes decode, and to what size, is
/// left unsaid.
#[verifier::external_body]
fn decode_size(bytes: &[u8]) -> (r: Option<(u32, u32)>)
    ensures
        r == decoded_size(bytes@),
{
    match image::load_from_memory(bytes) {
        Ok(img) => Some((img.width(), img.height())),
        Err(_) => None,
    }
}

/// Why an image cannot be prepared.
#[derive(Debug, Clone, Copy, PartialEq, Eq, Structural)]
pub enum MediaError {
    /// The bytes are not an image that can be decoded.
    Undecodable,
}

impl MediaError {
    /// The error message.
    pub fn message(&self) -> (r: &'static str)
        ensures
            r@ == "无法解析图片数据"@,
    {
        match self {
            MediaError::Undecodable => "无法解析图片数据",
        }
    }
}

/// What to do with an image before it is sent.
#[derive(Debug, Clone, Copy, PartialEq, Eq, Structural)]
pub enum ResizeDecision {
    /// Send the bytes as they are.
    Keep,
    /// Scale the image, of this size, down so that its longer side becomes
    /// the limit.
    Shrink { width: u32, height: u32 },
}

/// Decides whether an image must be scaled down: it must decode, and it is
/// kept when it fits within `max_size` on both sides.
pub fn plan_resize(image_data: &[u8], max_size: u32) -> (r: Result<ResizeDecision, MediaError>)
    ensures
        match decoded_size(image_data@) {
            None => r == Err::<ResizeDecision, MediaError>(MediaError::Undecodable),
            Some((w, h)) => if w <= max_size && h <= max_size {
                r == Ok::<ResizeDecision, MediaError>(ResizeDecision::Keep)
            } else {
                r == Ok::<ResizeDecision, MediaError>(ResizeDecision::Shrink { width: w, height: h })
            },
        },
{
    match decode_size(image_data) {
        None => Err(MediaError::Undecodable),
        Some((w, h)) => {
            if fits_within(w, h, max_size) {
                Ok(ResizeDecision::Keep)
            } else {
                Ok(ResizeDecision::Shrink { width: w, height: h })
            }
        },
    }
}

/// Whether an image of `width` by `height` pixels is kept as it is: neither
/// side exceeds `max_size`. Larger images are scaled down, keeping their
/// aspect ratio, so that the longer side becomes `max_size`.
pub fn fits_within(width: u32, height: u32, max_size: u32) -> (r: bool)
    ensures
        r == (width <= max_size && height <= max_size),
{
    width <= max_size && height <= max_size
}

} // verus!
