//! Text decoding: a byte-order mark is trusted first, otherwise chardetng
//! guesses the encoding (legacy encodings such as GBK carry no BOM).

use vstd::prelude::*;
use encoding_rs::Encoding;

verus! {

/// encoding_rs's encoding descriptor, carried opaquely between the BOM
/// check or the guess and the decoder.
#[verifier::external_type_specification]
#[verifier::external_body]
pub struct ExEncoding(Encoding);

#[derive(Debug)]
pub enum TextProviderError {
    Io(std::io::Error),
    NotText,
}

/// Length of the byte-order mark that `bytes` starts with: 3 for UTF-8, 2
/// for UTF-16LE and UTF-16BE, 0 when there is none.
pub open spec fn bom_length(bytes: Seq<u8>) -> nat {
    if bytes.len() >= 3 && bytes[0] == 0xEFu8 && bytes[1] == 0xBBu8 && bytes[2] == 0xBFu8 {
        3
    } else if bytes.len() >= 2 && bytes[0] == 0xFFu8 && bytes[1] == 0xFEu8 {
        2
    } else if bytes.len() >= 2 && bytes[0] == 0xFEu8 && bytes[1] == 0xFFu8 {
        2
    } else {
        0
    }
}

/// The encoding that `Encoding::for_bom` reports for a buffer that starts
/// with a byte-order mark.
pub uninterp spec fn bom_encoding(bytes: Seq<u8>) -> Encoding;

/// Calls `encoding_rs::Encoding::for_bom`, which recognises the UTF-8,
/// UTF-16LE and UTF-16BE byte-order marks (in that order) and returns the
/// matching encoding with the length of the mark.
#[verifier::external_body]
fn sniff_bom(bytes: &[u8]) -> (found: Option<(&'static Encoding, usize)>)
    ensures
        found is Some <==> bom_length(bytes@) > 0,
        found matches Some((e, n)) ==> n == bom_length(bytes@) && *e == bom_encoding(bytes@),
{
    Encoding::for_bom(bytes)
}

/// The encoding that chardetng guesses for a complete input.
pub uninterp spec fn guessed_encoding(bytes: Seq<u8>) -> Encoding;

/// Feeds all of `bytes` to a fresh `chardetng::EncodingDetector` (with
/// ISO-2022-JP among the candidates) as the whole input, then asks
/// `EncodingDetector::guess` for a guess without a top-level domain and
/// with UTF-8 allowed.
#[verifier::external_body]
fn guess_encoding(bytes: &[u8]) -> (encoding: &'static Encoding)
    ensures
        *encoding == guessed_encoding(bytes@),
{
    let mut detector = chardetng::EncodingDetector::new(chardetng::Iso2022JpDetection::Allow);
    detector.feed(bytes, true);
    detector.guess(None, chardetng::Utf8Detection::Allow)
}

/// What `Encoding::decode` produces for `bytes` in `encoding` (with its own
/// BOM sniffing): the text, and whether malformed sequences were replaced.
pub uninterp spec fn decoding(encoding: Encoding, bytes: Seq<u8>) -> (Seq<char>, bool);

/// Calls `encoding_rs::Encoding::decode` and takes ownership of the text.
/// As encoding_rs documents, malformed sequences are replaced with the
/// REPLACEMENT CHARACTER, so a decode that reports errors has one in its
/// output.
#[verifier::external_body]
fn decode_in(encoding: &'static Encoding, bytes: &[u8]) -> (decoded: (String, bool))
    ensures
        (decoded.0@, decoded.1) == decoding(*encoding, bytes@),
        decoded.1 ==> decoded.0@.contains('\u{FFFD}'),
{
    let (text, _, had_errors) = encoding.decode(bytes);
    (text.into_owned(), had_errors)
}

/// The characters with the Unicode `White_Space` property, which is what
/// `char::is_whitespace` and `str::trim` go by.
pub open spec fn is_white_space(c: char) -> bool {
    let u = c as u32;
    ||| 0x09 <= u <= 0x0D
    ||| u == 0x20
    ||| u == 0x85
    ||| u == 0xA0
    ||| u == 0x1680
    ||| 0x2000 <= u <= 0x200A
    ||| u == 0x2028
    ||| u == 0x2029
    ||| u == 0x202F
    ||| u == 0x205F
    ||| u == 0x3000
}

/// True when trimming white space off `text` leaves nothing.
pub open spec fn is_blank(text: Seq<char>) -> bool {
    forall|i: int| 0 <= i < text.len() ==> is_white_space(#[trigger] text[i])
}

/// Space, tab, line feed, carriage return, no-break space and the
/// ideographic space are white space; letters, digits and the replacement
/// character are not, so text with a replacement character is never blank.
pub proof fn lemma_white_space_examples(text: Seq<char>)
    ensures
        is_white_space(' ') && is_white_space('\t') && is_white_space('\n') && is_white_space(
            '\r',
        ),
        is_white_space('\u{A0}') && is_white_space('\u{3000}'),
        forall|c: char|
            ('a' <= c <= 'z' || 'A' <= c <= 'Z' || '0' <= c <= '9' || c == '\u{FFFD}')
                ==> !is_white_space(c),
        text.contains('\u{FFFD}') ==> !is_blank(text),
        is_blank(Seq::<char>::empty()),
{
    if text.contains('\u{FFFD}') {
        let i = choose|i: int| 0 <= i < text.len() && text[i] == '\u{FFFD}';
        assert(!is_white_space(text[i]));
    }
}

pub fn white_space(c: char) -> (w: bool)
    ensures
        w == is_white_space(c),
{
    let u = c as u32;
    (0x09 <= u && u <= 0x0D) || u == 0x20 || u == 0x85 || u == 0xA0 || u == 0x1680 || (0x2000
        <= u && u <= 0x200A) || u == 0x2028 || u == 0x2029 || u == 0x202F || u == 0x205F || u
        == 0x3000
}

/// Whether `text` consists of white space only (so `text.trim()` is empty).
pub fn blank(text: &str) -> (b: bool)
    ensures
        b == is_blank(text@),
{
    let ghost s = text@;
    let mut all_white = true;
    for c in it: text.chars()
        invariant
            it.seq() == s,
            all_white == (forall|j: int| 0 <= j < it.index() ==> is_white_space(#[trigger] s[j])),
    {
        if !white_space(c) {
            all_white = false;
        }
    }
    all_white
}

/// The outcome of reading a file whose contents are `bytes` as text.
pub open spec fn text_result(bytes: Seq<u8>, out: Result<String, TextProviderError>) -> bool {
    if bom_length(bytes) > 0 {
        out matches Ok(s) && s@ == decoding(bom_encoding(bytes), bytes.skip(bom_length(bytes) as int)).0
    } else {
        let (text, had_errors) = decoding(guessed_encoding(bytes), bytes);
        if had_errors && is_blank(text) {
            out matches Err(TextProviderError::NotText)
        } else {
            out matches Ok(s) && s@ == text
        }
    }
}

/// A byte-order mark is recognised by its first bytes alone: EF BB BF
/// (UTF-8) is three bytes long, FF FE (UTF-16LE) and FE FF (UTF-16BE) are
/// two, and a buffer that starts with none of them has no mark.
pub proof fn lemma_bom_by_leading_bytes(bytes: Seq<u8>)
    ensures
        bytes.len() >= 3 && bytes[0] == 0xEF && bytes[1] == 0xBB && bytes[2] == 0xBF
            ==> bom_length(bytes) == 3,
        bytes.len() >= 2 && bytes[0] == 0xFF && bytes[1] == 0xFE ==> bom_length(bytes) == 2,
        bytes.len() >= 2 && bytes[0] == 0xFE && bytes[1] == 0xFF ==> bom_length(bytes) == 2,
        !(bytes.len() >= 3 && bytes[0] == 0xEF && bytes[1] == 0xBB && bytes[2] == 0xBF)
            && !(bytes.len() >= 2 && bytes[0] == 0xFF && bytes[1] == 0xFE) && !(bytes.len() >= 2
            && bytes[0] == 0xFE && bytes[1] == 0xFF) ==> bom_length(bytes) == 0,
        bom_length(bytes) <= bytes.len(),
{
}

/// Reading text decodes the file's own bytes: with a byte-order mark, the
/// bytes after the mark in the mark's encoding; without one, all the bytes
/// in the encoding guessed from those same bytes. The text is given back
/// unless that decode had errors and left nothing but white space.
pub proof fn lemma_text_decodes_own_bytes(bytes: Seq<u8>, out: Result<String, TextProviderError>)
    requires
        text_result(bytes, out),
    ensures
        bom_length(bytes) > 0 ==> (out matches Ok(s) && s@ == decoding(
            bom_encoding(bytes),
            bytes.subrange(bom_length(bytes) as int, bytes.len() as int),
        ).0),
        bom_length(bytes) == 0 && out is Ok ==> out->Ok_0@ == decoding(guessed_encoding(bytes), bytes).0,
        bom_length(bytes) == 0 && out is Err ==> decoding(guessed_encoding(bytes), bytes).1 && is_blank(
            decoding(guessed_encoding(bytes), bytes).0,
        ),
        bom_length(bytes) == 0 && !decoding(guessed_encoding(bytes), bytes).1 ==> out is Ok,
{
    lemma_bom_by_leading_bytes(bytes);
    assert(bytes.skip(bom_length(bytes) as int) =~= bytes.subrange(
        bom_length(bytes) as int,
        bytes.len() as int,
    ));
}

/// Decodes the contents of a text file. A byte-order mark decides the
/// encoding when there is one (and is not part of the text); otherwise the
/// guessed encoding is used, and input that decodes with errors to nothing
/// but white space is taken for a misdetected binary file.
///
/// Because the decoder marks every malformed sequence with U+FFFD, which is
/// not white space, the misdetection rule never fires: decoding always
/// yields text.
pub fn decode_text(bytes: &[u8]) -> (out: Result<String, TextProviderError>)
    ensures
        text_result(bytes@, out),
        out is Ok,
        bom_length(bytes@) == 0 ==> out->Ok_0@ == decoding(guessed_encoding(bytes@), bytes@).0,
        bom_length(bytes@) > 0 ==> out->Ok_0@ == decoding(
            bom_encoding(bytes@),
            bytes@.subrange(bom_length(bytes@) as int, bytes@.len() as int),
        ).0,
{
    if let Some((encoding, bom_len)) = sniff_bom(bytes) {
        let rest = vstd::slice::slice_subrange(bytes, bom_len, bytes.len());
        assert(rest@ == bytes@.skip(bom_len as int));
        let (text, _) = decode_in(encoding, rest);
        return Ok(text);
    }
    let encoding = guess_encoding(bytes);
    let (text, had_errors) = decode_in(encoding, bytes);
    proof {
        if had_errors {
            let i = choose|i: int| 0 <= i < text@.len() && text@[i] == '\u{FFFD}';
            assert(!is_white_space(text@[i]));
        }
    }
    if had_errors && blank(text.as_str()) {
        return Err(TextProviderError::NotText);
    }
    Ok(text)
}

} // verus!
