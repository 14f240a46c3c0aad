//! Screenshot payloads: PNG dimensions and the base64 text that carries
//! the image.
use vstd::prelude::*;
use base64::Engine;
use crate::error::Error;
use crate::types::ScreenshotResult;

verus! {

/// The number a big-endian 4-byte group stands for.
pub open spec fn be_u32(b0: u8, b1: u8, b2: u8, b3: u8) -> nat {
    b0 as nat * 16777216 + b1 as nat * 65536 + b2 as nat * 256 + b3 as nat
}

/// Width and height of a PNG image: the big-endian numbers at bytes 16..20
/// and 20..24 (after the 8-byte signature and the IHDR chunk's length and
/// type); nothing for data shorter than 24 bytes.
pub open spec fn png_dimensions(data: Seq<u8>) -> Option<(nat, nat)> {
    if data.len() < 24 {
        None
    } else {
        Some((be_u32(data[16], data[17], data[18], data[19]), be_u32(data[20], data[21], data[22], data[23])))
    }
}

/// The number a big-endian 4-byte group stands for.
fn from_be(b0: u8, b1: u8, b2: u8, b3: u8) -> (r: u32)
    ensures
        r == be_u32(b0, b1, b2, b3),
{
    (b0 as u32) * 16777216 + (b1 as u32) * 65536 + (b2 as u32) * 256 + (b3 as u32)
}

/// Reads the width and height from a PNG header.
pub fn parse_png_dimensions(data: &[u8]) -> (r: Option<(u32, u32)>)
    ensures
        match r {
            Some((w, h)) => png_dimensions(data@) == Some((w as nat, h as nat)),
            None => png_dimensions(data@) is None,
        },
{
    if data.len() < 24 {
        return None;
    }
    let width = from_be(data[16], data[17], data[18], data[19]);
    let height = from_be(data[20], data[21], data[22], data[23]);
    Some((width, height))
}

/// What standard base64 decoding makes of a text: the bytes, or the text
/// of the decoding error.
pub uninterp spec fn base64_decoded(s: Seq<char>) -> Result<Seq<u8>, Seq<char>>;

/// The standard base64 alphabet.
pub open spec fn base64_alphabet() -> Seq<char> {
    "ABCDEFGHIJKLMNOPQRSTUVWXYZabcdefghijklmnopqrstuvwxyz0123456789+/"@
}

/// The base64 digit of a six-bit value.
pub open spec fn b64_digit(v: int) -> char {
    base64_alphabet()[v]
}

/// The standard base64 encoding (RFC 4648, with `=` padding) of some bytes:
/// each group of three bytes becomes four digits of six bits each, and a
/// last group of one or two bytes is padded to four characters.
pub open spec fn standard_base64(b: Seq<u8>) -> Seq<char>
    decreases b.len(),
{
    if b.len() == 0 {
        Seq::empty()
    } else if b.len() == 1 {
        seq![b64_digit((b[0] as int) / 4), b64_digit(((b[0] as int) % 4) * 16), '=', '=']
    } else if b.len() == 2 {
        seq![b64_digit((b[0] as int) / 4), b64_digit(((b[0] as int) % 4) * 16 + (b[1] as int) / 16), b64_digit(((b[1] as int) % 16) * 4), '=']
    } else {
        seq![
            b64_digit((b[0] as int) / 4),
            b64_digit(((b[0] as int) % 4) * 16 + (b[1] as int) / 16),
            b64_digit(((b[1] as int) % 16) * 4 + (b[2] as int) / 64),
            b64_digit((b[2] as int) % 64),
        ] + standard_base64(b.skip(3))
    }
}

/// Decodes standard base64 with `base64::engine::general_purpose::STANDARD`
/// (`Engine::decode`); an error comes back as its display text. That engine
/// requires canonical padding and refuses trailing bits, so it accepts
/// exactly the standard encodings of byte strings. The contract claims that
/// the result is [`base64_decoded`] of the text, that decoded bytes encode
/// back to the text, and that a text it refuses encodes no bytes; it states
/// nothing of the error text beyond its name.
#[verifier::external_body]
fn base64_decode(s: &str) -> (r: Result<Vec<u8>, String>)
    ensures
        match r {
            Ok(v) => base64_decoded(s@) == Ok::<Seq<u8>, Seq<char>>(v@) && standard_base64(v@) == s@,
            Err(e) => base64_decoded(s@) == Err::<Seq<u8>, Seq<char>>(e@) && forall|b: Seq<u8>|
                standard_base64(b) != s@,
        },
{
    match base64::engine::general_purpose::STANDARD.decode(s) {
        Ok(v) => Ok(v),
        Err(e) => Err(format!("{}", e)),
    }
}

/// Encodes bytes as standard base64 with `base64::engine::general_purpose::STANDARD`
/// (`Engine::encode`). The contract claims that the result is
/// [`standard_base64`] of the bytes. The crate panics when the encoded length
/// overflows `usize`, which the bound on the input rules out.
#[verifier::external_body]
fn base64_encode(data: &[u8]) -> (r: String)
    requires
        data.len() <= usize::MAX / 2,
    ensures
        r@ == standard_base64(data@),
{
    base64::engine::general_purpose::STANDARD.encode(data)
}

/// The screenshot answer for base64 PNG data: the data as it came, format
/// `png`, and the dimensions from the PNG header (zero where the header is
/// too short). Data that does not decode is an error: data is accepted
/// exactly when it is the standard base64 encoding of some bytes.
pub fn screenshot_from_base64(data: String) -> (r: Result<ScreenshotResult, Error>)
    ensures
        r is Ok <==> exists|b: Seq<u8>| standard_base64(b) == data@,
        match base64_decoded(data@) {
            Ok(bytes) => r matches Ok(shot) && shot.data@ == data@ && shot.format@ == "png"@ && match png_dimensions(
                bytes,
            ) {
                Some((w, h)) => shot.width == w && shot.height == h,
                None => shot.width == 0 && shot.height == 0,
            },
            Err(msg) => r matches Err(Error::Other(m)) && m@ == "Base64 decode error: "@ + msg,
        },
{
    match base64_decode(data.as_str()) {
        Err(e) => {
            let mut m = String::from_str("Base64 decode error: ");
            m.append(e.as_str());
            Err(Error::Other(m))
        },
        Ok(bytes) => {
            let (width, height) = match parse_png_dimensions(bytes.as_slice()) {
                Some(d) => d,
                None => (0, 0),
            };
            Ok(ScreenshotResult { data, format: String::from_str("png"), width, height })
        },
    }
}

/// The screenshot answer for raw PNG bytes: the bytes in base64, format
/// `png`, and the dimensions from the PNG header (zero where the header is
/// too short). (A byte vector never holds more than `isize::MAX` bytes,
/// which the bound restates.)
pub fn screenshot_from_png(bytes: &Vec<u8>) -> (r: ScreenshotResult)
    requires
        bytes.len() <= usize::MAX / 2,
    ensures
        r.data@ == standard_base64(bytes@),
        r.format@ == "png"@,
        match png_dimensions(bytes@) {
            Some((w, h)) => r.width == w && r.height == h,
            None => r.width == 0 && r.height == 0,
        },
{
    let (width, height) = match parse_png_dimensions(bytes.as_slice()) {
        Some(d) => d,
        None => (0, 0),
    };
    let data = base64_encode(bytes.as_slice());
    ScreenshotResult { data, format: String::from_str("png"), width, height }
}

} // verus!
