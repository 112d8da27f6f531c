//! Character classes and the string primitives the rest of the crate builds on.
//!
//! Text is modelled as `Seq<char>`, the view of `str` and `String`.

use vstd::prelude::*;
use vstd::utf8::is_ascii_chars;

verus! {

/// The characters with the Unicode property `White_Space`.
pub open spec fn white_space(c: char) -> bool {
    ||| '\u{9}' <= c <= '\u{d}'
    ||| c == ' '
    ||| c == '\u{85}'
    ||| c == '\u{a0}'
    ||| c == '\u{1680}'
    ||| '\u{2000}' <= c <= '\u{200a}'
    ||| c == '\u{2028}'
    ||| c == '\u{2029}'
    ||| c == '\u{202f}'
    ||| c == '\u{205f}'
    ||| c == '\u{3000}'
}

/// The ASCII capital letters.
pub open spec fn upper(c: char) -> bool {
    'A' <= c <= 'Z'
}

/// The ASCII letters and digits.
pub open spec fn alphanumeric(c: char) -> bool {
    'a' <= c <= 'z' || 'A' <= c <= 'Z' || '0' <= c <= '9'
}

/// The ASCII small letters and digits.
pub open spec fn lower_alphanumeric(c: char) -> bool {
    'a' <= c <= 'z' || '0' <= c <= '9'
}

/// `c` with an ASCII capital letter replaced by its small letter.
pub open spec fn lowered(c: char) -> char {
    if upper(c) {
        ((c as u8) + 32) as char
    } else {
        c
    }
}

/// `text` with every ASCII capital letter replaced by its small letter.
pub open spec fn ascii_lowered(text: Seq<char>) -> Seq<char> {
    text.map_values(|c: char| lowered(c))
}

/// `text` without its leading white space.
pub open spec fn trimmed_start(text: Seq<char>) -> Seq<char>
    decreases text.len(),
{
    if text.len() > 0 && white_space(text[0]) {
        trimmed_start(text.drop_first())
    } else {
        text
    }
}

/// `text` without its trailing white space.
pub open spec fn trimmed_end(text: Seq<char>) -> Seq<char>
    decreases text.len(),
{
    if text.len() > 0 && white_space(text.last()) {
        trimmed_end(text.drop_last())
    } else {
        text
    }
}

/// `text` without leading and trailing white space.
pub open spec fn trimmed(text: Seq<char>) -> Seq<char> {
    trimmed_end(trimmed_start(text))
}

/// The lowercase equivalent of `text` as `str::to_lowercase` computes it from
/// the Unicode case mappings.
pub uninterp spec fn lowercase_of(text: Seq<char>) -> Seq<char>;

/// `str::trim` returns the slice between the first and the last character
/// that does not have the `White_Space` property.
pub assume_specification[ str::trim ](s: &str) -> (r: &str)
    ensures
        r@ == trimmed(s@),
;

/// `str::to_lowercase` returns the lowercase equivalent of the slice. The
/// contract names that result and adds two facts about ASCII: the result
/// holds no ASCII capital letter, and on a slice of ASCII characters alone the
/// mapping is the ASCII one, character by character.
pub assume_specification[ str::to_lowercase ](s: &str) -> (r: String)
    ensures
        r@ == lowercase_of(s@),
        forall|i: int| 0 <= i < r@.len() ==> !upper(#[trigger] r@[i]),
        is_ascii_chars(s@) ==> r@ == ascii_lowered(s@),
;

/// `str`'s `==` tells whether the two slices hold the same text.
pub assume_specification[ <str as PartialEq>::eq ](a: &str, b: &str) -> (r: bool)
    ensures
        r == (a@ == b@),
;

/// `String::push` appends one character.
pub assume_specification[ String::push ](s: &mut String, c: char)
    ensures
        final(s)@ == old(s)@.push(c),
;

/// Tells whether `c` has the `White_Space` property.
pub fn is_white_space(c: char) -> (r: bool)
    ensures
        r == white_space(c),
{
    ('\u{9}' <= c && c <= '\u{d}')
        || c == ' '
        || c == '\u{85}'
        || c == '\u{a0}'
        || c == '\u{1680}'
        || ('\u{2000}' <= c && c <= '\u{200a}')
        || c == '\u{2028}'
        || c == '\u{2029}'
        || c == '\u{202f}'
        || c == '\u{205f}'
        || c == '\u{3000}'
}

/// Tells whether `c` is an ASCII letter or digit.
pub fn is_alphanumeric(c: char) -> (r: bool)
    ensures
        r == alphanumeric(c),
{
    ('a' <= c && c <= 'z') || ('A' <= c && c <= 'Z') || ('0' <= c && c <= '9')
}

/// Leading white space is a prefix: what is left is the text from some index on,
/// every character before that index is white space, and the character at it is not.
pub proof fn lemma_trimmed_start(text: Seq<char>) -> (k: int)
    ensures
        0 <= k <= text.len(),
        trimmed_start(text) == text.skip(k),
        forall|i: int| 0 <= i < k ==> white_space(#[trigger] text[i]),
        k < text.len() ==> !white_space(text[k]),
    decreases text.len(),
{
    if text.len() > 0 && white_space(text[0]) {
        let rest = text.drop_first();
        let j = lemma_trimmed_start(rest);
        assert(rest.skip(j) =~= text.skip(j + 1));
        assert forall|i: int| 0 <= i < j + 1 implies white_space(#[trigger] text[i]) by {
            if i > 0 {
                assert(text[i] == rest[i - 1]);
            }
        }
        if j + 1 < text.len() {
            assert(text[j + 1] == rest[j]);
        }
        j + 1
    } else {
        assert(text.skip(0) =~= text);
        0
    }
}

/// Trailing white space is a suffix: what is left is the text up to some index,
/// every character from that index on is white space, and the one before it is not.
pub proof fn lemma_trimmed_end(text: Seq<char>) -> (k: int)
    ensures
        0 <= k <= text.len(),
        trimmed_end(text) == text.take(k),
        forall|i: int| k <= i < text.len() ==> white_space(#[trigger] text[i]),
        k > 0 ==> !white_space(text[k - 1]),
    decreases text.len(),
{
    if text.len() > 0 && white_space(text.last()) {
        let rest = text.drop_last();
        let j = lemma_trimmed_end(rest);
        assert(rest.take(j) =~= text.take(j));
        assert forall|i: int| j <= i < text.len() implies white_space(#[trigger] text[i]) by {
            if i < text.len() - 1 {
                assert(text[i] == rest[i]);
            }
        }
        if j > 0 {
            assert(text[j - 1] == rest[j - 1]);
        }
        j
    } else {
        assert(text.take(text.len() as int) =~= text);
        text.len() as int
    }
}

/// Trimming keeps a stretch of the text: the result is the text between two
/// indices, everything outside them is white space, and the result neither
/// starts nor ends with white space.
pub proof fn lemma_trimmed(text: Seq<char>) -> (bounds: (int, int))
    ensures
        0 <= bounds.0 <= bounds.1 <= text.len(),
        trimmed(text) == text.subrange(bounds.0, bounds.1),
        forall|i: int|
            0 <= i < bounds.0 || bounds.1 <= i < text.len() ==> white_space(#[trigger] text[i]),
        trimmed(text).len() > 0 ==> !white_space(trimmed(text).first()) && !white_space(
            trimmed(text).last(),
        ),
{
    let from = lemma_trimmed_start(text);
    let rest = text.skip(from);
    let upto = lemma_trimmed_end(rest);
    assert(rest.take(upto) =~= text.subrange(from, from + upto));
    assert forall|i: int| from + upto <= i < text.len() implies white_space(
        #[trigger] text[i],
    ) by {
        assert(text[i] == rest[i - from]);
    }
    if upto > 0 {
        assert(rest[0] == text[from]);
        assert(!white_space(rest.take(upto).first()));
        assert(rest.take(upto).last() == rest[upto - 1]);
    }
    (from, from + upto)
}

} // verus!
