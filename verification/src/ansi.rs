//! Text without terminal escape sequences.

use vstd::prelude::*;
use vstd::utf8::decode_utf8;
use vstd::utf8::valid_utf8;

verus! {

/// Whether a terminal acts on `c` in place of showing it.
pub open spec fn is_control(c: char) -> bool {
    c <= '\u{1f}' || '\u{80}' <= c <= '\u{9f}'
}

/// Whether `c` can stand in a text without escape sequences.
pub open spec fn is_plain(c: char) -> bool {
    c == '\n' || !is_control(c)
}

/// The bytes that `strip_ansi_escapes::strip` leaves of a text.
pub uninterp spec fn stripped_bytes(text: Seq<char>) -> Seq<u8>;

/// The characters that are left of a text once its escape sequences are taken out.
pub open spec fn stripped(text: Seq<char>) -> Seq<char> {
    decode_utf8(stripped_bytes(text))
}

/// Calls `strip_ansi_escapes::strip`.
///
/// What it leaves depends on the text alone. It writes out whole characters, so the bytes are
/// UTF-8; of the characters that a terminal acts on it writes the line feed only. A text without
/// an escape character loses its other control characters and nothing else. Which characters an
/// escape sequence takes along is not stated.
#[verifier::external_body]
fn strip_escapes(text: &str) -> (bytes: Vec<u8>)
    ensures
        bytes@ == stripped_bytes(text@),
        valid_utf8(bytes@),
        forall|i: int|
            0 <= i < decode_utf8(bytes@).len() ==> is_plain(#[trigger] decode_utf8(bytes@)[i]),
        !text@.contains('\u{1b}') ==> decode_utf8(bytes@) == text@.filter(|c: char| is_plain(c)),
{
    strip_ansi_escapes::strip(text)
}

/// Calls `String::from_utf8_lossy` on bytes that are UTF-8, where it changes nothing.
#[verifier::external_body]
fn lossy_text(bytes: &Vec<u8>) -> (text: String)
    requires
        valid_utf8(bytes@),
    ensures
        text@ == decode_utf8(bytes@),
{
    String::from_utf8_lossy(bytes).into_owned()
}

/// `s` without its terminal escape sequences.
///
/// A text that comes out of this is plain, and a plain text comes back as it is: to strip a
/// second time changes nothing.
pub fn strip_ansi(s: &str) -> (r: String)
    ensures
        r@ == stripped(s@),
        r@ == decode_utf8(stripped_bytes(s@)),
        forall|i: int| 0 <= i < r@.len() ==> is_plain(#[trigger] r@[i]),
        !s@.contains('\u{1b}') ==> r@ == s@.filter(|c: char| is_plain(c)),
        (forall|i: int| 0 <= i < s@.len() ==> is_plain(#[trigger] s@[i])) ==> r@ == s@,
{
    proof {
        if forall|i: int| 0 <= i < s@.len() ==> is_plain(#[trigger] s@[i]) {
            lemma_plain_unfiltered(s@);
        }
    }
    let bytes: Vec<u8> = strip_escapes(s);
    lossy_text(&bytes)
}

/// To keep the plain characters of a plain text is to keep it whole.
proof fn lemma_plain_unfiltered(s: Seq<char>)
    requires
        forall|i: int| 0 <= i < s.len() ==> is_plain(#[trigger] s[i]),
    ensures
        s.filter(|c: char| is_plain(c)) == s,
    decreases s.len(),
{
    reveal(Seq::filter);
    if s.len() != 0 {
        let shorter = s.drop_last();
        assert forall|i: int| 0 <= i < shorter.len() implies is_plain(#[trigger] shorter[i]) by {
            assert(shorter[i] == s[i]);
        }
        lemma_plain_unfiltered(shorter);
        assert(is_plain(s[s.len() - 1]));
        assert(s.filter(|c: char| is_plain(c)) =~= s);
    }
}

/// A character is plain exactly where it is a line feed or one that a terminal shows: none below
/// the space, and none of the thirty-two from `0x80` on.
pub proof fn plain_characters_are_shown(c: char)
    ensures
        is_plain(c) <==> (c as int) == 10 || 0x20 <= (c as int) < 0x80 || 0xa0 <= (c as int),
{
}

} // verus!
