//! The OCR backend protocol: encoding an OCR input for the backend
//! process, and decoding the backend's JSON reply into tokens or a typed
//! failure.
//!
//! The backend accepts one PNG image, base64-encoded, and answers a JSON
//! object with a status code and, on success, an array of recognized
//! tokens.  Encoding and JSON access go through trusted wrappers; every
//! decision over the extracted plain values is verified.

use vstd::prelude::*;

use crate::errors::ScanError;

verus! {

/// What the standard base64 encoding of a byte sequence is.
pub uninterp spec fn base64_of(bytes: Seq<u8>) -> Seq<char>;

/// Relies on base64: `Engine::encode` with the standard alphabet and
/// padding writes four characters for every three bytes, a function of
/// the bytes alone.
#[verifier::external_body]
fn base64_standard(bytes: &Vec<u8>) -> (r: String)
    ensures
        r@ == base64_of(bytes@),
        r@.len() == 4 * ((bytes@.len() + 2) / 3),
{
    base64::Engine::encode(&base64::engine::general_purpose::STANDARD, bytes)
}

/// What the PNG encoding of a gray buffer of the given dimensions is,
/// or nothing where the encoder refuses it.
pub uninterp spec fn png_of(gray: Seq<u8>, width: int, height: int) -> Option<Seq<u8>>;

/// Relies on image: `DynamicImage::write_to` encodes a gray image as a
/// PNG stream, or fails — a function of the bytes and dimensions alone.
#[verifier::external_body]
fn png_encode_gray(gray: &Vec<u8>, width: u32, height: u32) -> (r: Option<Vec<u8>>)
    requires
        gray@.len() == width * height,
        1 <= width <= 1920,
        1 <= height <= 1080,
    ensures
        r.deep_view() == png_of(gray@, width as int, height as int),
{
    let img = image::GrayImage::from_raw(width, height, gray.clone()).unwrap();
    let mut buf = std::io::Cursor::new(Vec::new());
    match image::DynamicImage::ImageLuma8(img).write_to(&mut buf, image::ImageFormat::Png) {
        Ok(()) => Some(buf.into_inner()),
        Err(_) => None,
    }
}

/// Encodes one OCR input for the backend: the gray bytes as a PNG
/// stream, base64-encoded.  The text is exactly the standard base64
/// encoding of that PNG stream; encoding fails exactly where the PNG
/// encoder refuses the buffer.
pub fn image_to_base64(gray: &Vec<u8>, width: u32, height: u32) -> (r: Option<String>)
    requires
        gray@.len() == width * height,
        1 <= width <= 1920,
        1 <= height <= 1080,
    ensures
        ({
            let png = png_of(gray@, width as int, height as int);
            match r {
                Some(s) => png is Some && s@ == base64_of(png->Some_0) && s@.len() == 4 * ((
                png->Some_0.len() + 2) / 3),
                None => png is None,
            }
        }),
{
    match png_encode_gray(gray, width, height) {
        Some(png) => {
            proof {
                assert(png.deep_view() =~= png@);
            }
            Some(base64_standard(&png))
        },
        None => None,
    }
}

/// What the backend's JSON reply text carries, read as plain values:
/// its integer "code" member, and the "text" member of every element of
/// its "data" array, in array order.  Either side is nothing where the
/// text is not JSON, the member is missing or of the wrong shape, or
/// any array element lacks a text.
pub uninterp spec fn backend_fields_of(s: Seq<char>) -> (Option<i64>, Option<Seq<Seq<char>>>);

/// Relies on serde_json: `from_str`, `Value::get`, `Value::as_i64`,
/// `Value::as_array` and `Value::as_str` parse the reply text and read
/// the two fields out of it — a function of the text alone.
#[verifier::external_body]
fn backend_reply_fields(s: &str) -> (r: (Option<i64>, Option<Vec<String>>))
    ensures
        r.0 == backend_fields_of(s@).0,
        r.1.deep_view() == backend_fields_of(s@).1,
{
    let v = serde_json::from_str::<serde_json::Value>(s).ok();
    let code = v.as_ref().and_then(|v| v.get("code")).and_then(|c| c.as_i64());
    let texts = v.as_ref().and_then(|v| v.get("data")).and_then(|d| d.as_array()).and_then(
        |arr|
            arr.iter().map(
                |e| e.get("text").and_then(|t| t.as_str()).map(str::to_string),
            ).collect::<Option<Vec<String>>>(),
    );
    (code, texts)
}

/// One decoded backend reply: the recognized tokens' texts in reply
/// order, or one of the two typed failures of the backend protocol.
#[derive(Debug)]
pub enum BackendReply {
    /// The backend recognized text; one entry per token.
    Tokens(Vec<String>),
    /// The backend answered, saying it found no text in the image.
    NoText,
    /// The reply could not be understood.
    Malformed,
}

/// How a reply's status code is read.
#[derive(Debug, Copy, Clone, PartialEq, Eq, Structural)]
pub enum ReplyKind {
    /// The success code: recognized tokens follow.
    Tokens,
    /// Any other code: the backend found no text.
    NoText,
    /// No integer status code at all.
    Malformed,
}

/// Decides what a status code means: the backend's success code 100
/// announces tokens, any other code is its "no text found" answer, and a
/// reply without an integer code cannot be understood.
pub fn reply_kind_of_code(code: Option<i64>) -> (r: ReplyKind)
    ensures
        r == (match code {
            Some(c) => if c == 100 {
                ReplyKind::Tokens
            } else {
                ReplyKind::NoText
            },
            None => ReplyKind::Malformed,
        }),
{
    match code {
        Some(c) => if c == 100 {
            ReplyKind::Tokens
        } else {
            ReplyKind::NoText
        },
        None => ReplyKind::Malformed,
    }
}

/// The concatenation of a list of texts.
pub open spec fn spec_concat_texts(ss: Seq<Seq<char>>) -> Seq<char>
    decreases ss.len(),
{
    if ss.len() == 0 {
        Seq::<char>::empty()
    } else {
        spec_concat_texts(ss.drop_last()) + ss.last()
    }
}

/// Joins recognized tokens into one field text, in reply order.
pub fn join_texts(texts: &Vec<String>) -> (r: String)
    ensures
        r@ == spec_concat_texts(texts@.map_values(|t: String| t@)),
{
    let mut out = String::new();
    let mut i: usize = 0;
    while i < texts.len()
        invariant
            i <= texts@.len(),
            out@ == spec_concat_texts(texts@.map_values(|t: String| t@).take(i as int)),
        decreases texts@.len() - i,
    {
        let ghost views = texts@.map_values(|t: String| t@);
        out.append(texts[i].as_str());
        proof {
            assert(views.take(i + 1).drop_last() =~= views.take(i as int));
            assert(views.take(i + 1).last() == texts@[i as int]@);
        }
        i += 1;
    }
    proof {
        assert(texts@.map_values(|t: String| t@).take(texts@.len() as int) =~= texts@.map_values(
            |t: String| t@,
        ));
    }
    out
}

/// Decodes the backend's JSON reply text: the reply's integer status
/// code and token texts are read out of it — `backend_fields_of` names
/// what the text carries — and `reply_kind_of_code` says what the code
/// means.  The success code with extractable texts answers exactly those
/// texts in reply order; any other code is the backend's "no text found"
/// answer; a reply without an integer code, or with the success code but
/// no extractable texts, cannot be understood.
pub fn decode_backend_reply(s: &str) -> (r: BackendReply)
    ensures
        ({
            let code = backend_fields_of(s@).0;
            let texts = backend_fields_of(s@).1;
            match r {
                BackendReply::Tokens(ts) => code == Some(100i64) && texts == Some(ts.deep_view()),
                BackendReply::NoText => code is Some && code != Some(100i64),
                BackendReply::Malformed => code is None || (code == Some(100i64)
                    && texts is None),
            }
        }),
{
    let (code, texts) = backend_reply_fields(s);
    match reply_kind_of_code(code) {
        ReplyKind::Malformed => BackendReply::Malformed,
        ReplyKind::NoText => BackendReply::NoText,
        ReplyKind::Tokens => match texts {
            Some(ts) => BackendReply::Tokens(ts),
            None => BackendReply::Malformed,
        },
    }
}

/// The typed failure a backend reply stands for, if any: the caller maps
/// a decoded reply onto the scanner's failure taxonomy.
pub fn reply_error(reply: &BackendReply) -> (r: Option<ScanError>)
    ensures
        (match reply {
            BackendReply::Tokens(_) => r is None,
            BackendReply::NoText => r == Some(ScanError::OcrNoTextFound),
            BackendReply::Malformed => r == Some(ScanError::OcrMalformedResponse),
        }),
{
    match reply {
        BackendReply::Tokens(_) => None,
        BackendReply::NoText => Some(ScanError::OcrNoTextFound),
        BackendReply::Malformed => Some(ScanError::OcrMalformedResponse),
    }
}

} // verus!
