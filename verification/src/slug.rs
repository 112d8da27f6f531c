//! The slug encoder: from a free-text name to a token that can stand in a URL path.

use crate::text::{
    alphanumeric, ascii_lowered, is_alphanumeric, is_white_space, lemma_trimmed,
    lemma_trimmed_start, lower_alphanumeric, lowercase_of, lowered, trimmed, trimmed_start, upper,
    white_space,
};
use vstd::prelude::*;
use vstd::string::StrSliceExecFns;
use vstd::utf8::is_ascii_chars;

verus! {

/// The longest text, in characters, that is handed to the transliteration
/// when it holds a character outside ASCII. The encoder counts in 32 bits, and
/// on a text of `len` characters its running delta stays below
/// `len * 0x110000`, which fits for every text up to this length.
pub const MAX_ENCODED_CHARS: usize = 3855;

/// The characters of `text` that are ASCII, in their order.
pub open spec fn basic_code_points(text: Seq<char>) -> Seq<char>
    decreases text.len(),
{
    if text.len() == 0 {
        text
    } else if text[0] <= '\u{7f}' {
        seq![text[0]] + basic_code_points(text.drop_first())
    } else {
        basic_code_points(text.drop_first())
    }
}

/// The Punycode form of `text` (RFC 3492, without the `xn--` prefix), or
/// `None` where the encoder reports an overflow.
pub uninterp spec fn punycode_of(text: Seq<char>) -> Option<Seq<char>>;

/// Whether `text` is handed to the transliteration.
pub open spec fn encodable(text: Seq<char>) -> bool {
    text.len() <= MAX_ENCODED_CHARS || is_ascii_chars(text)
}

/// The ASCII transliteration of `text`: its Punycode form where there is one.
pub open spec fn transliterated(text: Seq<char>) -> Option<Seq<char>> {
    if encodable(text) {
        punycode_of(text)
    } else {
        None
    }
}

/// What a slug keeps of a text: ASCII letters, digits and the space.
pub open spec fn word_char(c: char) -> bool {
    alphanumeric(c) || c == ' '
}

/// `text` without the characters that are no letter, digit or space.
pub open spec fn stripped(text: Seq<char>) -> Seq<char>
    decreases text.len(),
{
    if text.len() == 0 {
        text
    } else if word_char(text[0]) {
        seq![text[0]] + stripped(text.drop_first())
    } else {
        stripped(text.drop_first())
    }
}

/// `text` with every maximal run of white space replaced by one hyphen.
pub open spec fn hyphenated(text: Seq<char>) -> Seq<char>
    decreases text.len(),
{
    if text.len() == 0 {
        text
    } else if white_space(text[0]) {
        proof {
            lemma_trimmed_start(text.drop_first());
        }
        seq!['-'] + hyphenated(trimmed_start(text.drop_first()))
    } else {
        seq![text[0]] + hyphenated(text.drop_first())
    }
}

/// The slug of a transliterated name: trimmed, reduced to letters, digits and
/// spaces, and the runs of spaces turned into hyphens.
pub open spec fn slug_of(encoded: Seq<char>) -> Seq<char> {
    hyphenated(stripped(trimmed(encoded)))
}

/// The transliterated form of a name: the name is trimmed, put in lower case
/// and transliterated; a name that cannot be transliterated counts as empty.
pub open spec fn encoded_name(name: Seq<char>) -> Seq<char> {
    match transliterated(lowercase_of(trimmed(name))) {
        Some(encoded) => encoded,
        None => Seq::empty(),
    }
}

/// The slug of a name.
pub open spec fn name_slug(name: Seq<char>) -> Seq<char> {
    slug_of(encoded_name(name))
}

/// The slug of a name of ASCII characters, for which lower case and
/// transliteration are the ASCII ones.
pub open spec fn ascii_name_slug(name: Seq<char>) -> Seq<char> {
    slug_of(delimited(ascii_lowered(trimmed(name))))
}

/// A slug that carries nothing: it is empty or made of hyphens alone.
pub open spec fn degenerate(slug: Seq<char>) -> bool {
    forall|i: int| 0 <= i < slug.len() ==> slug[i] == '-'
}

/// The characters a slug is made of.
pub open spec fn slug_char(c: char) -> bool {
    lower_alphanumeric(c) || c == '-'
}

/// What holds of every slug of a name: it is made of small letters, digits
/// and hyphens, and no hyphen follows another.
pub open spec fn url_safe(slug: Seq<char>) -> bool {
    &&& forall|i: int| 0 <= i < slug.len() ==> slug_char(#[trigger] slug[i])
    &&& forall|i: int| 0 <= i < slug.len() - 1 ==> !(#[trigger] slug[i] == '-' && slug[i + 1] == '-')
}

/// The text of an optional string.
pub open spec fn text_of(s: Option<String>) -> Option<Seq<char>> {
    match s {
        Some(s) => Some(s@),
        None => None,
    }
}

/// Whether `encoded` starts with the ASCII characters of `text` and goes on
/// with hyphens, small letters and digits only.
pub open spec fn extends_basic(text: Seq<char>, encoded: Seq<char>) -> bool {
    let basic = basic_code_points(text);
    &&& basic.is_prefix_of(encoded)
    &&& forall|i: int| basic.len() <= i < encoded.len() ==> slug_char(#[trigger] encoded[i])
}

/// The Punycode form of a text of ASCII characters: the text, and a hyphen
/// after it unless it is empty.
pub open spec fn delimited(text: Seq<char>) -> Seq<char> {
    if text.len() > 0 {
        text.push('-')
    } else {
        text
    }
}

/// `punycode::encode`. It copies the ASCII characters of the input in their
/// order, adds a hyphen if there were any, and then appends digits from `a-z`
/// and `0-9` only; on ASCII input it appends none and always succeeds. Its
/// unchecked 32-bit additions cannot overflow on the inputs admitted here.
#[verifier::external_body]
fn punycode_encode(text: &str) -> (r: Option<String>)
    requires
        encodable(text@),
    ensures
        text_of(r) == punycode_of(text@),
        r matches Some(encoded) ==> extends_basic(text@, encoded@),
        is_ascii_chars(text@) ==> text_of(r) == Some(delimited(text@)),
{
    punycode::encode(text).ok()
}

/// Transliterates `text` to ASCII. Texts that are too long for the encoder's
/// arithmetic are not handed to it and have no transliteration.
pub fn transliterate(text: &str) -> (r: Option<String>)
    ensures
        text_of(r) == transliterated(text@),
        r matches Some(encoded) ==> extends_basic(text@, encoded@),
        is_ascii_chars(text@) ==> text_of(r) == Some(delimited(text@)),
{
    if text.is_ascii() || text.unicode_len() <= MAX_ENCODED_CHARS {
        punycode_encode(text)
    } else {
        None
    }
}

/// Drops every character that is no ASCII letter, digit or space.
pub fn strip(text: &str) -> (r: String)
    ensures
        r@ == stripped(text@),
{
    let mut out = String::new();
    assert(text@.skip(0) =~= text@);
    for c in it: text.chars()
        invariant
            it.seq() == text@,
            out@ + stripped(text@.skip(it.index() as int)) == stripped(text@),
    {
        let ghost rest = text@.skip(it.index() as int);
        let ghost before = out@;
        assert(rest.drop_first() =~= text@.skip(it.index() as int + 1));
        assert(c == rest[0]);
        if is_alphanumeric(c) || c == ' ' {
            out.push(c);
            assert(out@ + stripped(rest.drop_first()) =~= before + stripped(rest));
        }
    }
    assert(text@.skip(text@.len() as int) =~= Seq::<char>::empty());
    out
}

/// Replaces every maximal run of white space by one hyphen.
pub fn hyphenate(text: &str) -> (r: String)
    ensures
        r@ == hyphenated(text@),
{
    let mut out = String::new();
    let mut in_run = false;
    assert(text@.skip(0) =~= text@);
    for c in it: text.chars()
        invariant
            it.seq() == text@,
            out@ + hyphenated(
                if in_run {
                    trimmed_start(text@.skip(it.index() as int))
                } else {
                    text@.skip(it.index() as int)
                },
            ) == hyphenated(text@),
    {
        let ghost rest = text@.skip(it.index() as int);
        let ghost before = out@;
        assert(rest.drop_first() =~= text@.skip(it.index() as int + 1));
        assert(c == rest[0]);
        if is_white_space(c) {
            if !in_run {
                out.push('-');
                in_run = true;
                assert(out@ + hyphenated(trimmed_start(rest.drop_first())) =~= before
                    + hyphenated(rest));
            }
        } else {
            out.push(c);
            in_run = false;
            assert(out@ + hyphenated(rest.drop_first()) =~= before + hyphenated(rest));
        }
    }
    assert(text@.skip(text@.len() as int) =~= Seq::<char>::empty());
    out
}

/// Tells whether `slug` is empty or made of hyphens alone.
pub fn is_degenerate(slug: &str) -> (r: bool)
    ensures
        r == degenerate(slug@),
{
    for c in it: slug.chars()
        invariant
            it.seq() == slug@,
            forall|i: int| 0 <= i < it.index() ==> slug@[i] == '-',
    {
        if c != '-' {
            assert(slug@[it.index() as int] != '-');
            return false;
        }
    }
    true
}

/// Turns a transliterated name into its slug.
pub fn slug_from_encoded(encoded: &str) -> (r: String)
    ensures
        r@ == slug_of(encoded@),
{
    let kept = strip(encoded.trim());
    hyphenate(kept.as_str())
}

/// Encodes a name as a slug. Whatever the name, the slug is made of small
/// letters, digits and hyphens, and no hyphen follows another.
pub fn encode_name(name: String) -> (r: String)
    ensures
        r@ == name_slug(name@),
        url_safe(r@),
        is_ascii_chars(name@) ==> r@ == ascii_name_slug(name@),
{
    let lowered = name.as_str().trim().to_lowercase();
    let encoded = match transliterate(lowered.as_str()) {
        Some(encoded) => encoded,
        None => String::new(),
    };
    proof {
        lemma_basic_code_points(lowered@);
        assert forall|i: int| 0 <= i < encoded@.len() implies !upper(#[trigger] encoded@[i]) by {
            let basic = basic_code_points(lowered@);
            if i < basic.len() {
                assert(encoded@[i] == basic[i]);
                let j = choose|j: int| 0 <= j < lowered@.len() && lowered@[j] == basic[i];
                assert(!upper(lowered@[j]));
            } else {
                assert(slug_char(encoded@[i]));
            }
        }
        lemma_slug_is_url_safe(encoded@);
        if is_ascii_chars(name@) {
            lemma_ascii_lowered(name@);
        }
    }
    slug_from_encoded(encoded.as_str())
}

/// Trimming and lowering a text of ASCII characters leaves ASCII characters.
pub proof fn lemma_ascii_lowered(name: Seq<char>)
    requires
        is_ascii_chars(name),
    ensures
        is_ascii_chars(trimmed(name)),
        is_ascii_chars(ascii_lowered(trimmed(name))),
{
    let bounds = lemma_trimmed(name);
    let inner = trimmed(name);
    assert forall|i: int| 0 <= i < inner.len() implies '\0' <= #[trigger] inner[i] <= '\u{7f}' by {
        assert(inner[i] == name[i + bounds.0]);
    }
    let low = ascii_lowered(inner);
    assert forall|i: int| 0 <= i < low.len() implies '\0' <= #[trigger] low[i] <= '\u{7f}' by {
        assert(low[i] == lowered(inner[i]));
    }
}

/// A name of ASCII characters that holds a letter or a digit has a slug that
/// is not degenerate.
pub proof fn lemma_ascii_name_slug(name: Seq<char>)
    requires
        exists|i: int| 0 <= i < name.len() && alphanumeric(#[trigger] name[i]),
    ensures
        !degenerate(ascii_name_slug(name)),
{
    let i = choose|i: int| 0 <= i < name.len() && alphanumeric(#[trigger] name[i]);
    let bounds = lemma_trimmed(name);
    let inner = trimmed(name);
    assert(inner[i - bounds.0] == name[i]);
    let low = ascii_lowered(inner);
    assert(low[i - bounds.0] == lowered(name[i]));
    let encoded = delimited(low);
    assert(alphanumeric(encoded[i - bounds.0]));
    lemma_slug_keeps_alphanumerics(encoded);
}

/// Every character of the ASCII part of a text is a character of the text.
pub proof fn lemma_basic_code_points(text: Seq<char>)
    ensures
        forall|i: int|
            0 <= i < basic_code_points(text).len() ==> text.contains(
                #[trigger] basic_code_points(text)[i],
            ),
        is_ascii_chars(text) ==> basic_code_points(text) == text,
    decreases text.len(),
{
    if text.len() > 0 {
        let rest = text.drop_first();
        lemma_basic_code_points(rest);
        let basic = basic_code_points(text);
        assert forall|i: int| 0 <= i < basic.len() implies text.contains(#[trigger] basic[i]) by {
            if text[0] <= '\u{7f}' && i == 0 {
                assert(text[0] == basic[0]);
            } else {
                let c = basic[i];
                assert(rest.contains(c)) by {
                    if text[0] <= '\u{7f}' {
                        assert(c == basic_code_points(rest)[i - 1]);
                    } else {
                        assert(c == basic_code_points(rest)[i]);
                    }
                }
                let j = choose|j: int| 0 <= j < rest.len() && rest[j] == c;
                assert(text[j + 1] == c);
            }
        }
        if is_ascii_chars(text) {
            assert(is_ascii_chars(rest)) by {
                assert forall|i: int| 0 <= i < rest.len() implies '\0' <= #[trigger] rest[i]
                    <= '\u{7f}' by {
                    assert(rest[i] == text[i + 1]);
                }
            }
            assert(text[0] <= '\u{7f}');
            assert(seq![text[0]] + rest =~= text);
        }
    }
}

/// Stripping keeps the letters, digits and spaces of a text and nothing else.
pub proof fn lemma_stripped(text: Seq<char>)
    ensures
        forall|i: int|
            0 <= i < stripped(text).len() ==> word_char(#[trigger] stripped(text)[i])
                && text.contains(stripped(text)[i]),
        forall|c: char| #[trigger] text.contains(c) && word_char(c) ==> stripped(text).contains(c),
        text.len() > 0 && word_char(text.first()) ==> stripped(text).len() > 0 && stripped(
            text,
        ).first() == text.first(),
        text.len() > 0 && word_char(text.last()) ==> stripped(text).len() > 0 && stripped(
            text,
        ).last() == text.last(),
    decreases text.len(),
{
    if text.len() > 0 {
        let rest = text.drop_first();
        let kept = stripped(text);
        lemma_stripped(rest);
        assert forall|i: int| 0 <= i < kept.len() implies word_char(#[trigger] kept[i])
            && text.contains(kept[i]) by {
            if word_char(text[0]) && i == 0 {
                assert(text[0] == kept[0]);
            } else {
                let c = kept[i];
                if word_char(text[0]) {
                    assert(c == stripped(rest)[i - 1]);
                } else {
                    assert(c == stripped(rest)[i]);
                }
                let j = choose|j: int| 0 <= j < rest.len() && rest[j] == c;
                assert(text[j + 1] == c);
            }
        }
        assert forall|c: char| #[trigger] text.contains(c) && word_char(c) implies kept.contains(
            c,
        ) by {
            let j = choose|j: int| 0 <= j < text.len() && text[j] == c;
            if j == 0 {
                assert(kept[0] == c);
            } else {
                assert(rest[j - 1] == c);
                assert(rest.contains(c));
                let k = choose|k: int| 0 <= k < stripped(rest).len() && stripped(rest)[k] == c;
                if word_char(text[0]) {
                    assert(kept[k + 1] == c);
                } else {
                    assert(kept[k] == c);
                }
            }
        }
        if word_char(text.last()) {
            if rest.len() > 0 {
                assert(rest.last() == text.last());
                assert(kept.last() == stripped(rest).last());
            }
        }
    }
}

/// The shape of hyphenated text. Each of its characters is a hyphen or a
/// character of the text that is no white space, and those all stay. Where
/// the text itself holds no hyphen, no two hyphens are adjacent, and the
/// result starts or ends with a hyphen exactly where the text starts or ends
/// with white space.
pub proof fn lemma_hyphenated(text: Seq<char>)
    ensures
        hyphenated(text).len() == 0 <==> text.len() == 0,
        forall|i: int|
            0 <= i < hyphenated(text).len() ==> #[trigger] hyphenated(text)[i] == '-' || (
            text.contains(hyphenated(text)[i]) && !white_space(hyphenated(text)[i])),
        forall|c: char|
            #[trigger] text.contains(c) && !white_space(c) ==> hyphenated(text).contains(c),
        !text.contains('-') ==> {
            let slug = hyphenated(text);
            &&& forall|i: int|
                0 <= i < slug.len() - 1 ==> !(#[trigger] slug[i] == '-' && slug[i + 1] == '-')
            &&& text.len() > 0 ==> (slug.first() == '-' <==> white_space(text.first()))
            &&& text.len() > 0 ==> (slug.last() == '-' <==> white_space(text.last()))
        },
    decreases text.len(),
{
    if text.len() > 0 {
        let rest = text.drop_first();
        let slug = hyphenated(text);
        let skipped = if white_space(text[0]) {
            lemma_trimmed_start(rest)
        } else {
            0
        };
        let tail = rest.skip(skipped);
        assert(rest.skip(0) =~= rest);
        assert(slug == seq![if white_space(text[0]) { '-' } else { text[0] }] + hyphenated(tail));
        lemma_hyphenated(tail);
        let inner = hyphenated(tail);
        assert forall|i: int| 0 <= i < slug.len() implies #[trigger] slug[i] == '-' || (
        text.contains(slug[i]) && !white_space(slug[i])) by {
            if i == 0 {
                assert(text[0] == text[0]);
            } else {
                assert(slug[i] == inner[i - 1]);
                if inner[i - 1] != '-' {
                    let j = choose|j: int| 0 <= j < tail.len() && tail[j] == inner[i - 1];
                    assert(text[j + skipped + 1] == slug[i]);
                }
            }
        }
        assert forall|c: char| #[trigger] text.contains(c) && !white_space(c) implies slug.contains(
            c,
        ) by {
            let j = choose|j: int| 0 <= j < text.len() && text[j] == c;
            if j == 0 {
                assert(slug[0] == c);
            } else {
                assert(j - 1 >= skipped) by {
                    if j - 1 < skipped {
                        assert(white_space(rest[j - 1]));
                    }
                }
                assert(tail[j - 1 - skipped] == c);
                assert(tail.contains(c));
                let k = choose|k: int| 0 <= k < inner.len() && inner[k] == c;
                assert(slug[k + 1] == c);
            }
        }
        if !text.contains('-') {
            assert(!tail.contains('-')) by {
                if tail.contains('-') {
                    let j = choose|j: int| 0 <= j < tail.len() && tail[j] == '-';
                    assert(text[j + skipped + 1] == '-');
                }
            }
            assert(text[0] != '-');
            assert forall|i: int| 0 <= i < slug.len() - 1 implies !(#[trigger] slug[i] == '-'
                && slug[i + 1] == '-') by {
                if i == 0 {
                    assert(slug[1] == inner[0]);
                    if white_space(text[0]) {
                        assert(!white_space(tail.first()));
                    }
                } else {
                    assert(slug[i] == inner[i - 1]);
                    assert(slug[i + 1] == inner[i]);
                }
            }
            if tail.len() > 0 {
                assert(slug.last() == inner.last());
                assert(tail.last() == text.last());
            } else if rest.len() > 0 {
                assert(white_space(rest[rest.len() - 1]));
                assert(rest[rest.len() - 1] == text.last());
            }
        }
    }
}

/// A slug is safe for a URL path wherever the transliterated name that it is
/// made from holds no ASCII capital letter.
pub proof fn lemma_slug_is_url_safe(encoded: Seq<char>)
    requires
        forall|i: int| 0 <= i < encoded.len() ==> !upper(#[trigger] encoded[i]),
    ensures
        url_safe(slug_of(encoded)),
{
    let bounds = lemma_trimmed(encoded);
    let inner = trimmed(encoded);
    let kept = stripped(inner);
    let slug = slug_of(encoded);
    lemma_stripped(inner);
    lemma_hyphenated(kept);
    assert(!kept.contains('-')) by {
        if kept.contains('-') {
            let j = choose|j: int| 0 <= j < kept.len() && kept[j] == '-';
            assert(word_char(kept[j]));
        }
    }
    assert forall|i: int| 0 <= i < slug.len() implies slug_char(#[trigger] slug[i]) by {
        let c = slug[i];
        if c != '-' {
            let j = choose|j: int| 0 <= j < kept.len() && kept[j] == c;
            assert(word_char(kept[j]));
            let k = choose|k: int| 0 <= k < inner.len() && inner[k] == c;
            assert(encoded[k + bounds.0] == c);
        }
    }
}

/// A slug starts with a hyphen exactly where what is kept of the name starts
/// with a space, and ends with one exactly where that ends with a space.
pub proof fn lemma_slug_edges(encoded: Seq<char>)
    ensures
        slug_of(encoded).len() == 0 <==> stripped(trimmed(encoded)).len() == 0,
        slug_of(encoded).len() > 0 ==> (slug_of(encoded).first() == '-' <==> stripped(
            trimmed(encoded),
        ).first() == ' '),
        slug_of(encoded).len() > 0 ==> (slug_of(encoded).last() == '-' <==> stripped(
            trimmed(encoded),
        ).last() == ' '),
{
    let kept = stripped(trimmed(encoded));
    lemma_stripped(trimmed(encoded));
    lemma_hyphenated(kept);
    assert(!kept.contains('-')) by {
        if kept.contains('-') {
            let j = choose|j: int| 0 <= j < kept.len() && kept[j] == '-';
            assert(word_char(kept[j]));
        }
    }
    if kept.len() > 0 {
        assert(word_char(kept[0]));
        assert(word_char(kept[kept.len() - 1]));
    }
}

/// The slug of a name has a hyphen at its start or end exactly where what is
/// kept of the transliterated name has a space there: where a character that
/// is dropped stood between the edge and a space. Every other slug starts and
/// ends with a letter or a digit.
pub proof fn lemma_name_slug_edges(name: Seq<char>)
    ensures
        name_slug(name).len() > 0 ==> (name_slug(name).first() == '-' <==> stripped(
            trimmed(encoded_name(name)),
        ).first() == ' '),
        name_slug(name).len() > 0 ==> (name_slug(name).last() == '-' <==> stripped(
            trimmed(encoded_name(name)),
        ).last() == ' '),
{
    lemma_slug_edges(encoded_name(name));
}

/// A transliterated name that holds a letter or a digit has a slug that is not
/// degenerate.
pub proof fn lemma_slug_keeps_alphanumerics(encoded: Seq<char>)
    requires
        exists|i: int| 0 <= i < encoded.len() && alphanumeric(#[trigger] encoded[i]),
    ensures
        !degenerate(slug_of(encoded)),
{
    let i = choose|i: int| 0 <= i < encoded.len() && alphanumeric(#[trigger] encoded[i]);
    let c = encoded[i];
    let bounds = lemma_trimmed(encoded);
    let inner = trimmed(encoded);
    assert(inner.contains(c)) by {
        assert(inner[i - bounds.0] == c);
    }
    lemma_stripped(inner);
    assert(word_char(c));
    assert(stripped(inner).contains(c));
    lemma_hyphenated(stripped(inner));
    let slug = slug_of(encoded);
    assert(slug.contains(c));
    let k = choose|k: int| 0 <= k < slug.len() && slug[k] == c;
    assert(slug[k] != '-');
}

} // verus!
