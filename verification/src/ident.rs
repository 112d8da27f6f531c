//! The identifier allocator's arithmetic: a slug, a hyphen and a number of
//! six digits.

use crate::names::{generate_name, lemma_offered_name, WordLists};
use crate::slug::{
    ascii_name_slug, degenerate, encode_name, is_degenerate, lemma_ascii_name_slug, name_slug,
    url_safe,
};
use crate::text::alphanumeric;
use rand::Rng;
use vstd::prelude::*;
use vstd::utf8::is_ascii_chars;

verus! {

/// The smallest number that an identifier ends with.
pub const FIRST_SUFFIX: u32 = 100_000;

/// The largest number that an identifier ends with.
pub const LAST_SUFFIX: u32 = 999_999;

/// The character of a decimal digit.
pub open spec fn digit(d: nat) -> char
    recommends
        d < 10,
{
    (48 + d) as char
}

/// The decimal numeral of `n`, without leading zeros.
pub open spec fn decimal(n: nat) -> Seq<char>
    decreases n,
{
    if n < 10 {
        seq![digit(n)]
    } else {
        decimal(n / 10).push(digit(n % 10))
    }
}

/// The identifier made of a slug and a number.
pub open spec fn identifier(slug: Seq<char>, number: nat) -> Seq<char> {
    slug + seq!['-'] + decimal(number)
}

/// Whether `id` is `slug` followed by a hyphen and a number of six digits.
pub open spec fn suffixed(slug: Seq<char>, id: Seq<char>) -> bool {
    exists|number: nat|
        FIRST_SUFFIX <= number <= LAST_SUFFIX && id == #[trigger] identifier(slug, number)
}

/// Whether `slug` may stand in the identifier of an event called `name`: it
/// is the slug of the name, or, where that one is degenerate, the slug of a
/// name drawn from the word lists.
pub open spec fn slug_for_name(words: WordLists, name: Seq<char>, slug: Seq<char>) -> bool {
    if degenerate(name_slug(name)) {
        exists|fallback: Seq<char>| #[trigger] words.offers(fallback) && slug == name_slug(fallback)
    } else {
        slug == name_slug(name)
    }
}

/// `Rng::gen_range` on the thread's generator, over the closed range from
/// `low` to `high`, which must not be empty. Which number comes is left open.
#[verifier::external_body]
fn random_between(low: u32, high: u32) -> (number: u32)
    requires
        low <= high,
    ensures
        low <= number <= high,
{
    rand::thread_rng().gen_range(low..=high)
}

/// Appends the decimal numeral of `n`.
fn push_decimal(out: &mut String, n: u32)
    ensures
        final(out)@ == old(out)@ + decimal(n as nat),
    decreases n,
{
    if n >= 10 {
        push_decimal(out, n / 10);
    }
    let d: u8 = (n % 10) as u8;
    let ghost before = out@;
    out.push((48u8 + d) as char);
    proof {
        if n >= 10 {
            assert(out@ =~= old(out)@ + decimal(n as nat));
        } else {
            assert(out@ =~= old(out)@ + decimal(n as nat));
        }
    }
}

/// Writes an identifier: the slug, a hyphen and the number in decimal.
pub fn format_id(slug: &str, number: u32) -> (id: String)
    ensures
        id@ == identifier(slug@, number as nat),
{
    let mut id = slug.to_owned();
    id.push('-');
    push_decimal(&mut id, number);
    assert(id@ =~= identifier(slug@, number as nat));
    id
}

/// Draws a fresh identifier for a slug.
pub fn candidate_id(slug: &str) -> (id: String)
    ensures
        suffixed(slug@, id@),
{
    let number = random_between(FIRST_SUFFIX, LAST_SUFFIX);
    format_id(slug, number)
}

/// Picks the slug for an event's identifier: the slug of its name, or the slug
/// of a generated name where the name has none to speak of. With word lists
/// of ASCII characters the result is never degenerate.
pub fn slug_for(name: &str, words: &WordLists) -> (slug: String)
    ensures
        slug_for_name(*words, name@, slug@),
        url_safe(slug@),
        words.ascii() ==> !degenerate(slug@),
{
    let slug = encode_name(name.to_owned());
    if is_degenerate(slug.as_str()) {
        let fallback = generate_name(words);
        proof {
            lemma_offered_name(*words, fallback@);
            assert(alphanumeric(fallback@[fallback@.len() - 1]));
            lemma_ascii_name_slug(fallback@);
        }
        encode_name(fallback)
    } else {
        slug
    }
}

/// Generates an identifier for an event called `name`.
pub fn generate_id(name: &str, words: &WordLists) -> (id: String)
    ensures
        exists|slug: Seq<char>| #[trigger] slug_for_name(*words, name@, slug) && suffixed(slug, id@),
{
    let slug = slug_for(name, words);
    candidate_id(slug.as_str())
}

/// The numbers that identifiers end with have six digits.
pub proof fn lemma_six_digits(number: nat)
    requires
        FIRST_SUFFIX <= number <= LAST_SUFFIX,
    ensures
        decimal(number).len() == 6,
        forall|i: int| 0 <= i < 6 ==> '0' <= #[trigger] decimal(number)[i] <= '9',
{
    reveal_with_fuel(decimal, 6);
}

} // verus!
