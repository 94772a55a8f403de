//! The encodings of image data: base64, data URLs and image file formats.

use base64::Engine;
use image::ImageFormat;
use vstd::prelude::*;
use vstd::string::*;
use crate::text;

verus! {

/// What `base64` decodes `text` to, with the standard alphabet and padding: the
/// bytes, or its words on why there are none.
pub uninterp spec fn base64_decoded(text: Seq<char>) -> Result<Seq<u8>, Seq<char>>;

/// What `base64` encodes `data` as, with the standard alphabet and padding.
pub uninterp spec fn base64_encoded(data: Seq<u8>) -> Seq<char>;

/// Bytes or a message, over views.
pub open spec fn bytes_outcome(r: Result<Vec<u8>, String>) -> Result<Seq<u8>, Seq<char>> {
    match r {
        Ok(bytes) => Ok(bytes@),
        Err(e) => Err(e@),
    }
}

/// Whether the base64 text of `len` bytes fits into memory.
pub open spec fn is_encodable(len: nat) -> bool {
    4 * ((len + 2) / 3) <= isize::MAX
}

/// Whether the base64 text of `len` bytes fits into memory.
pub fn can_encode(len: usize) -> (b: bool)
    ensures
        b == is_encodable(len as nat),
{
    len <= isize::MAX as usize / 4 * 3
}

/// Whether `text` decodes to `data`.
pub open spec fn decodes_to(text: Seq<char>, data: Seq<u8>) -> bool {
    base64_decoded(text) is Ok && base64_decoded(text)->Ok_0 == data
}

/// Calls `base64::Engine::decode` of `base64::engine::general_purpose::STANDARD`.
/// Trusted: the outcome depends on the text alone; an error comes back as its
/// message.
#[verifier::external_body]
pub(crate) fn decode_base64(text: &str) -> (r: Result<Vec<u8>, String>)
    ensures
        bytes_outcome(r) == base64_decoded(text@),
{
    base64::engine::general_purpose::STANDARD.decode(text).map_err(|e| e.to_string())
}

/// Calls `base64::Engine::encode` of `base64::engine::general_purpose::STANDARD`.
/// Trusted: the text depends on the bytes alone, and decoding it gives the
/// bytes back.
#[verifier::external_body]
fn encode_base64(data: &[u8]) -> (r: String)
    requires
        is_encodable(data@.len()),
    ensures
        r@ == base64_encoded(data@),
        decodes_to(r@, data@),
{
    base64::engine::general_purpose::STANDARD.encode(data)
}

/// The data URL of the type `mime` with the base64 text `payload`.
pub open spec fn data_url_text(mime: Seq<char>, payload: Seq<char>) -> Seq<char> {
    "data:"@ + mime + ";base64,"@ + payload
}

/// What stands in a data URL behind its first comma; nothing where `url` is no
/// data URL.
pub open spec fn data_payload(url: Seq<char>) -> Option<Seq<char>> {
    match text::first_match(url, ","@, 0) {
        None => None,
        Some(i) => if text::begins_with(url.take(i), "data:"@) {
            Some(url.skip(i + ","@.len()))
        } else {
            None
        },
    }
}

/// What a URL that carries its image gives, whose payload was decoded with the
/// outcome `decoded`: the bytes, or the message that there are none.
pub open spec fn data_url_outcome(
    decoded: Result<Seq<u8>, Seq<char>>,
) -> Result<Seq<u8>, Seq<char>> {
    match decoded {
        Ok(bytes) => Ok(bytes),
        Err(why) => Err("decode data URL image: "@ + why),
    }
}

/// The data URL of the type `mime` with the base64 text `payload`.
pub fn data_url_of(mime: &str, payload: &str) -> (r: String)
    ensures
        r@ == data_url_text(mime@, payload@),
{
    let mut out = "data:".to_owned();
    out.append(mime);
    out.append(";base64,");
    out.append(payload);
    out
}

/// The data URL of the type `mime` that carries `data`. Where `mime` has no
/// comma, reading the URL gives `data` back.
pub fn data_url(mime: &str, data: &[u8]) -> (r: String)
    requires
        is_encodable(data@.len()),
    ensures
        r@ == data_url_text(mime@, base64_encoded(data@)),
        !mime@.contains(',') ==> (data_payload(r@) matches Some(payload) && decodes_to(
            payload,
            data@,
        )),
{
    let payload = encode_base64(data);
    proof {
        if !mime@.contains(',') {
            payload_of_data_url(mime@, payload@);
        }
    }
    data_url_of(mime, payload.as_str())
}

/// What stands in a data URL behind its first comma; nothing where `url` is no
/// data URL.
pub fn split_data_url<'a>(url: &'a str) -> (r: Option<&'a str>)
    ensures
        (match r {
            Some(payload) => Some(payload@),
            None => None,
        }) == data_payload(url@),
{
    let v = text::chars_of(url);
    let n: usize = v.len();
    let comma = text::chars_of(",");
    match text::find_from(&v, &comma, 0) {
        None => None,
        Some(i) => {
            let head = url.substring_char(0, i);
            assert(head@ =~= url@.take(i as int));
            if text::starts_with(head, "data:") {
                let payload = url.substring_char(i + comma.len(), n);
                assert(payload@ =~= url@.skip(i + ","@.len()));
                Some(payload)
            } else {
                None
            }
        },
    }
}

/// The image that a data URL carries; nothing where `url` is no data URL and
/// its image has to be downloaded.
pub fn read_data_url(url: &str) -> (r: Option<Result<Vec<u8>, String>>)
    ensures
        r is Some <==> data_payload(url@) is Some,
        r matches Some(bytes) ==> bytes_outcome(bytes) == data_url_outcome(
            base64_decoded(data_payload(url@)->0),
        ),
{
    match split_data_url(url) {
        None => None,
        Some(payload) => Some(data_url_image(decode_base64(payload))),
    }
}

/// The image that a data URL carries, whose payload was decoded with the
/// outcome `decoded`.
pub fn data_url_image(decoded: Result<Vec<u8>, String>) -> (r: Result<Vec<u8>, String>)
    ensures
        bytes_outcome(r) == data_url_outcome(bytes_outcome(decoded)),
{
    match decoded {
        Ok(bytes) => Ok(bytes),
        Err(why) => {
            let mut message = "decode data URL image: ".to_owned();
            message.append(why.as_str());
            Err(message)
        },
    }
}

/// The first comma of a data URL stands before its payload.
pub proof fn payload_of_data_url(mime: Seq<char>, payload: Seq<char>)
    requires
        !mime.contains(','),
    ensures
        data_payload(data_url_text(mime, payload)) == Some(payload),
{
    reveal_strlit("data:");
    reveal_strlit(";base64,");
    reveal_strlit(",");
    let url = data_url_text(mime, payload);
    let at: int = mime.len() as int + 12;
    assert(url[at] == ',');
    assert(url.subrange(at, at + 1) =~= ","@);
    assert(text::occurs_at(url, ","@, at));
    assert forall|j: int| 0 <= j < at implies !text::occurs_at(url, ","@, j) by {
        if 5 <= j < 5 + mime.len() {
            assert(url[j] == mime[j - 5]);
        }
        assert(url.subrange(j, j + 1)[0] == url[j]);
    }
    text::first_match_is_least(url, ","@, 0);
    assert(text::first_match(url, ","@, 0) == Some(at));
    assert(url.take(at).subrange(0, 5) =~= "data:"@);
    assert(url.skip(at + 1) =~= payload);
}

/// The image file formats that are kept under their own extension.
#[derive(Debug, Clone, Copy, PartialEq, Eq, Structural)]
pub enum ImageKind {
    Png,
    Jpeg,
    WebP,
    Gif,
    Bmp,
    Tiff,
    Avif,
}

/// Whether `bytes` holds `sig` at position `at`.
pub open spec fn has_bytes(bytes: Seq<u8>, at: int, sig: Seq<u8>) -> bool {
    at + sig.len() <= bytes.len() && bytes.subrange(at, at + sig.len()) =~= sig
}

/// The format whose signature `bytes` begins with. An AVIF file begins with two
/// zero bytes and has its brand at position 4; one that begins like an icon
/// file counts as that.
pub open spec fn signature_kind(bytes: Seq<u8>) -> Option<ImageKind> {
    if has_bytes(bytes, 0, seq![0x89u8, 0x50, 0x4e, 0x47, 0x0d, 0x0a, 0x1a, 0x0a]) {
        Some(ImageKind::Png)
    } else if has_bytes(bytes, 0, seq![0xffu8, 0xd8, 0xff]) {
        Some(ImageKind::Jpeg)
    } else if has_bytes(bytes, 0, seq![0x47u8, 0x49, 0x46, 0x38, 0x39, 0x61]) || has_bytes(
        bytes,
        0,
        seq![0x47u8, 0x49, 0x46, 0x38, 0x37, 0x61],
    ) {
        Some(ImageKind::Gif)
    } else if has_bytes(bytes, 0, seq![0x52u8, 0x49, 0x46, 0x46]) && has_bytes(
        bytes,
        8,
        seq![0x57u8, 0x45, 0x42, 0x50],
    ) {
        Some(ImageKind::WebP)
    } else if has_bytes(bytes, 0, seq![0x4du8, 0x4d, 0x00, 0x2a]) || has_bytes(
        bytes,
        0,
        seq![0x49u8, 0x49, 0x2a, 0x00],
    ) {
        Some(ImageKind::Tiff)
    } else if has_bytes(bytes, 0, seq![0x42u8, 0x4d]) {
        Some(ImageKind::Bmp)
    } else if has_bytes(bytes, 0, seq![0u8, 0]) && has_bytes(
        bytes,
        4,
        seq![0x66u8, 0x74, 0x79, 0x70, 0x61, 0x76, 0x69, 0x66],
    ) && !has_bytes(bytes, 2, seq![1u8, 0]) {
        Some(ImageKind::Avif)
    } else {
        None
    }
}

/// The extension of a file of the format `kind`; that of a PNG file where the
/// format is none of those.
pub open spec fn extension_of(kind: Option<ImageKind>) -> Seq<char> {
    match kind {
        Some(ImageKind::Jpeg) => "jpg"@,
        Some(ImageKind::WebP) => "webp"@,
        Some(ImageKind::Gif) => "gif"@,
        Some(ImageKind::Bmp) => "bmp"@,
        Some(ImageKind::Tiff) => "tiff"@,
        Some(ImageKind::Avif) => "avif"@,
        _ => "png"@,
    }
}

/// Calls `image::guess_format`. Trusted: the format goes by the signature at
/// the beginning of the data. A format that has no [`ImageKind`], or none,
/// comes back as nothing.
#[verifier::external_body]
fn guess_format(bytes: &[u8]) -> (r: Option<ImageKind>)
    ensures
        r == signature_kind(bytes@),
{
    match image::guess_format(bytes) {
        Ok(ImageFormat::Png) => Some(ImageKind::Png),
        Ok(ImageFormat::Jpeg) => Some(ImageKind::Jpeg),
        Ok(ImageFormat::WebP) => Some(ImageKind::WebP),
        Ok(ImageFormat::Gif) => Some(ImageKind::Gif),
        Ok(ImageFormat::Bmp) => Some(ImageKind::Bmp),
        Ok(ImageFormat::Tiff) => Some(ImageKind::Tiff),
        Ok(ImageFormat::Avif) => Some(ImageKind::Avif),
        _ => None,
    }
}

/// The extension under which a generated image is kept.
pub fn image_ext(bytes: &[u8]) -> (r: &'static str)
    ensures
        r@ == extension_of(signature_kind(bytes@)),
{
    match guess_format(bytes) {
        Some(ImageKind::Jpeg) => "jpg",
        Some(ImageKind::WebP) => "webp",
        Some(ImageKind::Gif) => "gif",
        Some(ImageKind::Bmp) => "bmp",
        Some(ImageKind::Tiff) => "tiff",
        Some(ImageKind::Avif) => "avif",
        _ => "png",
    }
}

/// A URL carries what follows its first comma exactly where it begins with
/// `data:` and has a comma.
pub proof fn data_urls_carry_what_follows_the_comma(
    url: Seq<char>,
    head: Seq<char>,
    payload: Seq<char>,
)
    requires
        !head.contains(','),
    ensures
        data_payload("data:"@ + head + ","@ + payload) == Some(payload),
        !("data:"@.is_prefix_of(url)) || !url.contains(',') ==> data_payload(url) is None,
{
    reveal_strlit("data:");
    reveal_strlit(",");
    let made = "data:"@ + head + ","@ + payload;
    let at: int = head.len() as int + 5;
    assert(made[at] == ',');
    assert(made.subrange(at, at + 1) =~= ","@);
    assert(text::occurs_at(made, ","@, at));
    assert forall|j: int| 0 <= j < at implies !text::occurs_at(made, ","@, j) by {
        if 5 <= j {
            assert(made[j] == head[j - 5]);
        }
        assert(made.subrange(j, j + 1)[0] == made[j]);
    }
    text::least_place_is_found(made, ","@, at);
    assert(made.take(at).subrange(0, 5) =~= "data:"@);
    assert(made.skip(at + 1) =~= payload);
    if data_payload(url) is Some {
        text::first_match_is_least(url, ","@, 0);
        let i = text::first_match(url, ","@, 0)->0;
        assert(url.subrange(i, i + 1)[0] == url[i]);
        assert(url[i] == ',');
        assert(url.take(i).subrange(0, 5) =~= url.subrange(0, 5));
        assert("data:"@.is_prefix_of(url));
    }
}

/// A data URL names its type and says that base64 text follows.
pub proof fn data_urls_name_their_type(mime: Seq<char>, payload: Seq<char>)
    ensures
        data_url_text(mime, payload) == "data:"@ + mime + ";base64,"@ + payload,
{
}

/// Data that begins with the signature of a format is kept under its extension,
/// whatever follows.
pub proof fn signatures_decide_the_extension(rest: Seq<u8>, size: Seq<u8>)
    requires
        size.len() == 4,
    ensures
        extension_of(
            signature_kind(seq![0x89u8, 0x50, 0x4e, 0x47, 0x0d, 0x0a, 0x1a, 0x0a] + rest),
        ) == "png"@,
        extension_of(signature_kind(seq![0xffu8, 0xd8, 0xff] + rest)) == "jpg"@,
        extension_of(signature_kind(seq![0x47u8, 0x49, 0x46, 0x38, 0x39, 0x61] + rest)) == "gif"@,
        extension_of(signature_kind(seq![0x47u8, 0x49, 0x46, 0x38, 0x37, 0x61] + rest)) == "gif"@,
        extension_of(
            signature_kind(
                seq![0x52u8, 0x49, 0x46, 0x46] + size + seq![0x57u8, 0x45, 0x42, 0x50] + rest,
            ),
        ) == "webp"@,
        extension_of(signature_kind(seq![0x4du8, 0x4d, 0x00, 0x2a] + rest)) == "tiff"@,
        extension_of(signature_kind(seq![0x49u8, 0x49, 0x2a, 0x00] + rest)) == "tiff"@,
        extension_of(signature_kind(seq![0x42u8, 0x4d] + rest)) == "bmp"@,
        extension_of(None) == "png"@,
{
    signature_is_kept(Seq::empty(), seq![0x89u8, 0x50, 0x4e, 0x47, 0x0d, 0x0a, 0x1a, 0x0a], rest);
    signature_is_kept(Seq::empty(), seq![0xffu8, 0xd8, 0xff], rest);
    signature_is_kept(Seq::empty(), seq![0x47u8, 0x49, 0x46, 0x38, 0x39, 0x61], rest);
    signature_is_kept(Seq::empty(), seq![0x47u8, 0x49, 0x46, 0x38, 0x37, 0x61], rest);
    signature_is_kept(Seq::empty(), seq![0x4du8, 0x4d, 0x00, 0x2a], rest);
    signature_is_kept(Seq::empty(), seq![0x49u8, 0x49, 0x2a, 0x00], rest);
    signature_is_kept(Seq::empty(), seq![0x42u8, 0x4d], rest);
    first_byte_decides(seq![0xffu8, 0xd8, 0xff] + rest);
    first_byte_decides(seq![0x47u8, 0x49, 0x46, 0x38, 0x39, 0x61] + rest);
    first_byte_decides(seq![0x47u8, 0x49, 0x46, 0x38, 0x37, 0x61] + rest);
    first_byte_decides(seq![0x4du8, 0x4d, 0x00, 0x2a] + rest);
    first_byte_decides(seq![0x49u8, 0x49, 0x2a, 0x00] + rest);
    first_byte_decides(seq![0x42u8, 0x4d] + rest);
    let riff = seq![0x52u8, 0x49, 0x46, 0x46];
    let webp = seq![0x57u8, 0x45, 0x42, 0x50];
    let file = riff + size + webp + rest;
    first_byte_decides(file);
    signature_is_kept(Seq::empty(), riff, size + webp + rest);
    assert(file =~= riff + (size + webp + rest));
    signature_is_kept(riff + size, webp, rest);
}

proof fn signature_is_kept(before: Seq<u8>, sig: Seq<u8>, rest: Seq<u8>)
    ensures
        has_bytes(before + sig + rest, before.len() as int, sig),
        before.len() == 0 ==> has_bytes(sig + rest, 0, sig),
{
    let n = before.len() as int;
    assert((before + sig + rest).subrange(n, n + sig.len()) =~= sig);
    if before.len() == 0 {
        assert((sig + rest).subrange(0, sig.len() as int) =~= sig);
    }
}

/// Data holds at its beginning only signatures that begin with its first byte.
proof fn first_byte_decides(bytes: Seq<u8>)
    requires
        bytes.len() > 0,
    ensures
        forall|sig: Seq<u8>| sig.len() > 0 && #[trigger] has_bytes(bytes, 0, sig) ==> sig[0]
            == bytes[0],
{
    assert forall|sig: Seq<u8>| sig.len() > 0 && #[trigger] has_bytes(
        bytes,
        0,
        sig,
    ) implies sig[0] == bytes[0] by {
        assert(bytes.subrange(0, sig.len() as int)[0] == bytes[0]);
    }
}

}
