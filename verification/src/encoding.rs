//! Base64 and DEFLATE, by the crates that implement them.
use vstd::utf8::*;
use vstd::prelude::*;

verus! {

/// What the standard Base64 alphabet, with padding, makes of bytes.
pub uninterp spec fn base64_of(data: Seq<u8>) -> Seq<char>;

/// The bytes of a text in the standard Base64 alphabet, with padding.
pub uninterp spec fn base64_bytes(text: Seq<char>) -> Option<Seq<u8>>;

/// What the URL-safe Base64 alphabet, without padding, makes of bytes.
pub uninterp spec fn base64url_of(data: Seq<u8>) -> Seq<char>;

/// The bytes of a text in the URL-safe Base64 alphabet, without padding.
pub uninterp spec fn base64url_bytes(text: Seq<char>) -> Option<Seq<u8>>;

/// What a raw DEFLATE stream inflates to, with an optional preset dictionary;
/// nothing where it is corrupt or cut short.
pub uninterp spec fn inflated(data: Seq<u8>, dictionary: Option<Seq<u8>>) -> Option<Seq<u8>>;

/// What bytes deflate to, with an optional preset dictionary.
pub uninterp spec fn deflated(data: Seq<u8>, dictionary: Option<Seq<u8>>) -> Option<Seq<u8>>;

/// What a gzip member inflates to; nothing where it is corrupt or cut short.
pub uninterp spec fn gunzipped(data: Seq<u8>) -> Option<Seq<u8>>;

/// Optional bytes.
pub open spec fn opt_bytes(o: Option<Vec<u8>>) -> Option<Seq<u8>> {
    match o {
        Some(v) => Some(v@),
        None => None,
    }
}

/// Optional borrowed bytes.
pub open spec fn opt_slice(o: Option<&[u8]>) -> Option<Seq<u8>> {
    match o {
        Some(v) => Some(v@),
        None => None,
    }
}

/// Replies by their bytes; a request that failed has none.
pub open spec fn reply_views(v: Seq<Option<Vec<u8>>>) -> Seq<Option<Seq<u8>>> {
    Seq::new(v.len(), |i: int| opt_bytes(v[i]))
}

/// The text of bytes that are UTF-8.
pub open spec fn utf8_text(data: Seq<u8>) -> Option<Seq<char>> {
    if valid_utf8(data) {
        Some(decode_utf8(data))
    } else {
        None
    }
}

/// True of the letters, digits and signs of the standard Base64 alphabet.
pub open spec fn is_base64_char(c: char) -> bool {
    ||| 'A' <= c <= 'Z'
    ||| 'a' <= c <= 'z'
    ||| '0' <= c <= '9'
    ||| c == '+'
    ||| c == '/'
}

/// The form of a text in the standard Base64 alphabet: groups of four
/// characters, padded with `=` at the very end.
pub open spec fn is_base64_form(text: Seq<char>, bytes: nat) -> bool {
    &&& text.len() == (bytes + 2) / 3 * 4
    &&& forall|i: int|
        0 <= i < text.len() ==> is_base64_char(#[trigger] text[i]) || (text[i] == '=' && i
            >= text.len() - 2)
}

/// `base64`'s `STANDARD` engine, `encode`: groups of four characters of the
/// standard alphabet with padding, which the engine decodes to the same bytes.
#[verifier::external_body]
pub(crate) fn base64_encode(data: &[u8]) -> (r: String)
    ensures
        r@ == base64_of(data@),
        is_base64_form(r@, data@.len()),
        base64_bytes(r@) == Some(data@),
{
    base64::Engine::encode(&base64::engine::general_purpose::STANDARD, data)
}

/// `base64`'s `STANDARD` engine, `decode`.
#[verifier::external_body]
pub(crate) fn base64_decode(text: &str) -> (r: Option<Vec<u8>>)
    ensures
        opt_bytes(r) == base64_bytes(text@),
{
    base64::Engine::decode(&base64::engine::general_purpose::STANDARD, text).ok()
}

/// `base64`'s `URL_SAFE_NO_PAD` engine, `encode`: the engine decodes what it
/// wrote to the same bytes.
#[verifier::external_body]
pub(crate) fn base64url_encode(data: &[u8]) -> (r: String)
    ensures
        r@ == base64url_of(data@),
        base64url_bytes(r@) == Some(data@),
{
    base64::Engine::encode(&base64::engine::general_purpose::URL_SAFE_NO_PAD, data)
}

/// `base64`'s `URL_SAFE_NO_PAD` engine, `decode`.
#[verifier::external_body]
pub(crate) fn base64url_decode(text: &str) -> (r: Option<Vec<u8>>)
    ensures
        opt_bytes(r) == base64url_bytes(text@),
{
    base64::Engine::decode(&base64::engine::general_purpose::URL_SAFE_NO_PAD, text).ok()
}

/// `flate2`'s decompressor in raw mode, read to the end of the stream: what
/// follows the stream is left unread.
#[verifier::external_body]
pub(crate) fn inflate(data: &[u8], dictionary: Option<&[u8]>) -> (r: Option<Vec<u8>>)
    ensures
        opt_bytes(r) == inflated(data@, opt_slice(dictionary)),
{
    let mut decompress = flate2::Decompress::new(false);
    if let Some(dict) = dictionary {
        decompress.set_dictionary(dict).ok()?;
    }
    let mut out: Vec<u8> = Vec::new();
    let mut reader = flate2::read::ZlibDecoder::new_with_decompress(data, decompress);
    std::io::Read::read_to_end(&mut reader, &mut out).ok()?;
    Some(out)
}

/// `flate2`'s compressor in raw mode at its default level: the stream inflates
/// to the same bytes under the same dictionary. Without the dictionary it
/// inflates to the same bytes too, or, where it refers to the dictionary, not
/// at all.
#[verifier::external_body]
pub(crate) fn deflate(data: &[u8], dictionary: Option<&[u8]>) -> (r: Option<Vec<u8>>)
    ensures
        opt_bytes(r) == deflated(data@, opt_slice(dictionary)),
        r matches Some(v) ==> inflated(v@, opt_slice(dictionary)) == Some(data@),
        r matches Some(v) ==> (inflated(v@, None) is None || inflated(v@, None) == Some(data@)),
{
    let mut compress = flate2::Compress::new(flate2::Compression::default(), false);
    if let Some(dict) = dictionary {
        compress.set_dictionary(dict).ok()?;
    }
    let mut out: Vec<u8> = Vec::new();
    let mut reader = flate2::read::ZlibEncoder::new_with_compress(data, compress);
    std::io::Read::read_to_end(&mut reader, &mut out).ok()?;
    Some(out)
}

/// `flate2::read::GzDecoder`, read to the end of the first member.
#[verifier::external_body]
pub(crate) fn gunzip(data: &[u8]) -> (r: Option<Vec<u8>>)
    ensures
        opt_bytes(r) == gunzipped(data@),
{
    let mut out: Vec<u8> = Vec::new();
    std::io::Read::read_to_end(&mut flate2::read::GzDecoder::new(data), &mut out).ok()?;
    Some(out)
}

/// `String::from_utf8`: the text of the bytes, where they are UTF-8.
#[verifier::external_body]
pub(crate) fn text_from_utf8(data: Vec<u8>) -> (r: Option<String>)
    ensures
        match r {
            Some(s) => utf8_text(data@) == Some(s@),
            None => utf8_text(data@) is None,
        },
{
    String::from_utf8(data).ok()
}

} // verus!
