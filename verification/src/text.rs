//! Names on the wire: turning NUL-padded bytes into text.

use vstd::prelude::*;

verus! {

/// The text that lossy UTF-8 decoding makes of a byte string: invalid
/// sequences become U+FFFD.
pub uninterp spec fn utf8_lossy(bytes: Seq<u8>) -> Seq<char>;

/// Whether every byte is below 0x80.
pub open spec fn all_ascii(bytes: Seq<u8>) -> bool {
    forall|i: int| 0 <= i < bytes.len() ==> bytes[i] < 0x80
}

/// Each byte taken as one character.
pub open spec fn ascii_text(bytes: Seq<u8>) -> Seq<char> {
    Seq::new(bytes.len(), |i: int| bytes[i] as char)
}

/// `text` without the characters equal to `c` at its end.
pub open spec fn trim_end(text: Seq<char>, c: char) -> Seq<char>
    decreases text.len(),
{
    if text.len() > 0 && text.last() == c {
        trim_end(text.drop_last(), c)
    } else {
        text
    }
}

/// The text of a byte string: each byte its own character where all are
/// ASCII, the lossy decoding otherwise.
pub open spec fn lossy_text(bytes: Seq<u8>) -> Seq<char> {
    if all_ascii(bytes) {
        ascii_text(bytes)
    } else {
        utf8_lossy(bytes)
    }
}

/// `String::from_utf8_lossy`: the lossy decoding of `bytes`, as an owned
/// string. Bytes below 0x80 are valid UTF-8 of one character each, so a
/// string of them decodes to itself; of any other input only the name of the
/// result is known.
#[verifier::external_body]
pub(crate) fn string_from_utf8_lossy(bytes: &[u8]) -> (s: String)
    ensures
        all_ascii(bytes@) ==> s@ == ascii_text(bytes@),
        !all_ascii(bytes@) ==> s@ == utf8_lossy(bytes@),
{
    String::from_utf8_lossy(bytes).into_owned()
}

/// `str::trim_end_matches` with a character as the pattern: the string
/// without the run of `c` at its end.
#[verifier::external_body]
pub(crate) fn str_trim_end_matches<'a>(s: &'a str, c: char) -> (t: &'a str)
    ensures
        t@ == trim_end(s@, c),
{
    s.trim_end_matches(c)
}

} // verus!
