//! SDP blobs on the wire: Base64 over raw DEFLATE with a preset dictionary.
//!
//! Only descriptions of 1201 bytes and more are compressed. The dictionary is
//! the caller's: both ends have to hold the same one.
use crate::encoding;
use crate::text;
use vstd::utf8::*;
use vstd::prelude::*;

verus! {

/// Minimum SDP size for compression, in bytes.
pub const COMPRESSION_THRESHOLD: usize = 1201;

/// Why a blob was refused.
#[derive(Debug, Clone, Copy, PartialEq, Eq, Structural)]
pub enum SdpError {
    /// Neither plain SDP nor Base64.
    NotBase64,
    /// The Base64 bytes do not inflate to text.
    Undecodable,
    /// What came out does not begin like SDP.
    NotSdp,
    /// The compressor failed.
    Deflate,
}

/// True of text that begins like SDP.
pub open spec fn looks_like_sdp(s: Seq<char>) -> bool {
    "v="@.is_prefix_of(s)
}

/// The text that raw DEFLATE bytes inflate to.
pub open spec fn inflated_text(data: Seq<u8>, dictionary: Option<Seq<u8>>) -> Option<Seq<char>> {
    match encoding::inflated(data, dictionary) {
        Some(b) => encoding::utf8_text(b),
        None => None,
    }
}

/// The SDP among the two ways to inflate a blob: without the dictionary, if
/// that gives SDP, else with it.
pub open spec fn chosen_sdp(plain: Option<Seq<char>>, with_dictionary: Option<Seq<char>>) -> Result<
    Seq<char>,
    SdpError,
> {
    if plain is Some && looks_like_sdp(plain->0) {
        Ok(plain->0)
    } else {
        match with_dictionary {
            Some(s) => if looks_like_sdp(s) {
                Ok(s)
            } else {
                Err(SdpError::NotSdp)
            },
            None => Err(SdpError::Undecodable),
        }
    }
}

/// The SDP that a blob stands for.
pub open spec fn decompressed(blob: Seq<char>, dictionary: Seq<u8>) -> Result<
    Seq<char>,
    SdpError,
> {
    let t = text::trimmed(blob);
    if looks_like_sdp(t) {
        Ok(t)
    } else {
        match encoding::base64_bytes(t) {
            Some(raw) => chosen_sdp(
                inflated_text(raw, None),
                inflated_text(raw, Some(dictionary)),
            ),
            None => Err(SdpError::NotBase64),
        }
    }
}

/// A result by its characters.
pub open spec fn result_view(r: Result<String, SdpError>) -> Result<Seq<char>, SdpError> {
    match r {
        Ok(s) => Ok(s@),
        Err(e) => Err(e),
    }
}

/// Chooses between the two ways to inflate a blob.
pub fn choose_sdp(plain: Option<String>, with_dictionary: Option<String>) -> (r: Result<
    String,
    SdpError,
>)
    ensures
        result_view(r) == chosen_sdp(text::opt_text(plain), text::opt_text(with_dictionary)),
{
    if let Some(s) = plain {
        if text::starts_with(s.as_str(), "v=") {
            return Ok(s);
        }
    }
    match with_dictionary {
        Some(s) => if text::starts_with(s.as_str(), "v=") {
            Ok(s)
        } else {
            Err(SdpError::NotSdp)
        },
        None => Err(SdpError::Undecodable),
    }
}

/// Decompresses an SDP blob from its wire format. Plain SDP is returned as it
/// is, without white space around it.
pub fn decompress_sdp(blob: &str, dictionary: &[u8]) -> (r: Result<String, SdpError>)
    ensures
        result_view(r) == decompressed(blob@, dictionary@),
{
    let trimmed = text::trim(blob);
    if text::starts_with(trimmed.as_str(), "v=") {
        return Ok(trimmed);
    }
    match encoding::base64_decode(trimmed.as_str()) {
        Some(raw) => choose_sdp(
            raw_inflate(raw.as_slice(), None),
            raw_inflate(raw.as_slice(), Some(dictionary)),
        ),
        None => Err(SdpError::NotBase64),
    }
}

/// The wire format of an SDP text that is long enough to compress.
pub open spec fn compressed(sdp: Seq<char>, dictionary: Seq<u8>) -> Option<Seq<char>> {
    match encoding::deflated(encode_utf8(sdp), Some(dictionary)) {
        Some(z) => Some(encoding::base64_of(z)),
        None => None,
    }
}

/// Compresses an SDP text into its wire format; nothing where it is too short
/// to compress. What was compressed decompresses to the same text.
pub fn compress_sdp(sdp: &str, dictionary: &[u8]) -> (r: Result<Option<String>, SdpError>)
    ensures
        encode_utf8(sdp@).len() < 1201 ==> r == Ok::<Option<String>, SdpError>(
            None,
        ),
        encode_utf8(sdp@).len() >= 1201 ==> match r {
            Ok(Some(blob)) => compressed(sdp@, dictionary@) == Some(blob@),
            Ok(None) => false,
            Err(e) => compressed(sdp@, dictionary@) is None && e == SdpError::Deflate,
        },
        r matches Ok(Some(blob)) ==> looks_like_sdp(sdp@) ==> decompressed(blob@, dictionary@)
            == Ok::<Seq<char>, SdpError>(sdp@),
{
    let data = sdp.as_bytes();
    if data.len() < COMPRESSION_THRESHOLD {
        return Ok(None);
    }
    match raw_deflate(data, Some(dictionary)) {
        Some(z) => {
            let blob = encoding::base64_encode(z.as_slice());
            proof {
                reveal_strlit("v=");
                assert forall|i: int| 0 <= i < blob@.len() implies !text::is_space(
                    #[trigger] blob@[i],
                ) by {}
                text::lemma_trimmed_tight(blob@);
                if blob@.len() >= 2 && looks_like_sdp(blob@) {
                    assert(blob@.subrange(0, 2)[1] == "v="@[1]);
                    assert(blob@[1] == '=');
                }
                assert(!looks_like_sdp(blob@));
                encode_utf8_valid_utf8(sdp@);
                encode_utf8_decode_utf8(sdp@);
            }
            Ok(Some(blob))
        },
        None => Err(SdpError::Deflate),
    }
}

/// Inflates raw DEFLATE bytes to text, with an optional preset dictionary.
pub fn raw_inflate(data: &[u8], dictionary: Option<&[u8]>) -> (r: Option<String>)
    ensures
        text::opt_text(r) == inflated_text(data@, encoding::opt_slice(dictionary)),
{
    match encoding::inflate(data, dictionary) {
        Some(b) => encoding::text_from_utf8(b),
        None => None,
    }
}

/// Deflates bytes, with an optional preset dictionary.
pub fn raw_deflate(data: &[u8], dictionary: Option<&[u8]>) -> (r: Option<Vec<u8>>)
    ensures
        encoding::opt_bytes(r) == encoding::deflated(data@, encoding::opt_slice(dictionary)),
        r matches Some(v) ==> encoding::inflated(v@, encoding::opt_slice(dictionary)) == Some(
            data@,
        ),
        r matches Some(v) ==> (encoding::inflated(v@, None) is None || encoding::inflated(v@, None)
            == Some(data@)),
{
    encoding::deflate(data, dictionary)
}

/// A description that comes in the clear is taken as it is, without the blanks around it.
pub proof fn law_plain_description_is_taken(blob: Seq<char>, dictionary: Seq<u8>)
    ensures
        "v="@.is_prefix_of(text::trimmed(blob)) ==> decompressed(blob, dictionary) == Ok::<
            Seq<char>,
            SdpError,
        >(text::trimmed(blob)),
        !"v="@.is_prefix_of(text::trimmed(blob)) && encoding::base64_bytes(text::trimmed(blob))
            is None ==> decompressed(blob, dictionary) == Err::<Seq<char>, SdpError>(
            SdpError::NotBase64,
        ),
{
}

/// What comes out is a description, whichever way it was found; the way without a
/// dictionary is preferred.
pub proof fn law_what_comes_out_is_a_description(
    plain: Option<Seq<char>>,
    with_dictionary: Option<Seq<char>>,
)
    ensures
        chosen_sdp(plain, with_dictionary) matches Ok(s) ==> "v="@.is_prefix_of(s),
        (plain matches Some(s) && "v="@.is_prefix_of(s)) ==> chosen_sdp(plain, with_dictionary)
            == Ok::<Seq<char>, SdpError>(plain->0),
        !(plain matches Some(s) && "v="@.is_prefix_of(s)) && (with_dictionary matches Some(t)
            && "v="@.is_prefix_of(t)) ==> chosen_sdp(plain, with_dictionary) == Ok::<
            Seq<char>,
            SdpError,
        >(with_dictionary->0),
        !(plain matches Some(s) && "v="@.is_prefix_of(s)) && with_dictionary is None ==> chosen_sdp(
            plain,
            with_dictionary,
        ) == Err::<Seq<char>, SdpError>(SdpError::Undecodable),
        !(plain matches Some(s) && "v="@.is_prefix_of(s)) && (with_dictionary matches Some(t)
            && !"v="@.is_prefix_of(t)) ==> chosen_sdp(plain, with_dictionary) == Err::<
            Seq<char>,
            SdpError,
        >(SdpError::NotSdp),
{
}

} // verus!
