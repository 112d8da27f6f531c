//! The name generator: display names made of an adjective, a creature and
//! the word "Jelly", drawn from two word lists.

use rand::seq::SliceRandom;
use vstd::prelude::*;
use vstd::string::StringExecFns;
use vstd::utf8::is_ascii_chars;

verus! {

/// The texts of a list of words.
pub open spec fn texts(words: Seq<String>) -> Seq<Seq<char>> {
    words.map_values(|word: String| word@)
}

/// The texts of an optional list of words.
pub open spec fn texts_of(words: Option<Vec<String>>) -> Option<Seq<Seq<char>>> {
    match words {
        Some(words) => Some(texts(words@)),
        None => None,
    }
}

/// What every generated name ends with.
pub open spec fn family() -> Seq<char> {
    seq![' ', 'J', 'e', 'l', 'l', 'y']
}

/// The display name made of an adjective and a creature.
pub open spec fn display_name(adjective: Seq<char>, creature: Seq<char>) -> Seq<char> {
    adjective + seq![' '] + creature + family()
}

/// The list of strings that a JSON text holds, or `None` where the text is
/// not one JSON array of strings.
pub uninterp spec fn json_strings(bytes: Seq<u8>) -> Option<Seq<Seq<char>>>;

/// `serde_json::from_slice` at the type `Vec<String>`: the strings of the JSON
/// array in their order, or `None` where it reports an error.
#[verifier::external_body]
fn parse_strings(bytes: &[u8]) -> (r: Option<Vec<String>>)
    ensures
        texts_of(r) == json_strings(bytes@),
{
    serde_json::from_slice(bytes).ok()
}

/// `SliceRandom::choose` on the thread's generator: one of the words, or
/// `None` where there is none. Which one is left open.
#[verifier::external_body]
fn pick(words: &Vec<String>) -> (r: Option<&String>)
    ensures
        r is Some <==> words@.len() > 0,
        r matches Some(word) ==> words@.contains(*word),
{
    words.choose(&mut rand::thread_rng())
}

/// The two word lists that names are drawn from. Neither is empty.
pub struct WordLists {
    adjectives: Vec<String>,
    creatures: Vec<String>,
}

impl WordLists {
    /// The adjectives.
    pub closed spec fn adjectives(&self) -> Seq<Seq<char>> {
        texts(self.adjectives@)
    }

    /// The creature names.
    pub closed spec fn creatures(&self) -> Seq<Seq<char>> {
        texts(self.creatures@)
    }

    /// Neither list is empty.
    pub open spec fn wf(&self) -> bool {
        self.adjectives().len() > 0 && self.creatures().len() > 0
    }

    #[verifier::type_invariant]
    spec fn inv(&self) -> bool {
        self.wf()
    }

    /// Whether `name` can be drawn from the lists.
    pub open spec fn offers(&self, name: Seq<char>) -> bool {
        exists|i: int, j: int|
            0 <= i < self.adjectives().len() && 0 <= j < self.creatures().len() && name
                == display_name(#[trigger] self.adjectives()[i], #[trigger] self.creatures()[j])
    }

    /// Whether every word of both lists is made of ASCII characters.
    pub open spec fn ascii(&self) -> bool {
        &&& forall|i: int|
            0 <= i < self.adjectives().len() ==> is_ascii_chars(#[trigger] self.adjectives()[i])
        &&& forall|j: int|
            0 <= j < self.creatures().len() ==> is_ascii_chars(#[trigger] self.creatures()[j])
    }

    /// Makes the word lists, unless one of them is empty.
    pub fn new(adjectives: Vec<String>, creatures: Vec<String>) -> (r: Option<WordLists>)
        ensures
            r is Some <==> adjectives@.len() > 0 && creatures@.len() > 0,
            r matches Some(words) ==> words.wf() && words.adjectives() == texts(adjectives@)
                && words.creatures() == texts(creatures@),
    {
        if adjectives.len() > 0 && creatures.len() > 0 {
            Some(WordLists { adjectives, creatures })
        } else {
            None
        }
    }

    /// Reads the word lists from two JSON arrays of strings. There are none
    /// where either text is no such array or holds no word.
    pub fn from_json(adjectives: &[u8], creatures: &[u8]) -> (r: Option<WordLists>)
        ensures
            r is Some <==> (json_strings(adjectives@) matches Some(list) && list.len() > 0) && (
            json_strings(creatures@) matches Some(list) && list.len() > 0),
            r matches Some(words) ==> words.wf() && Some(words.adjectives()) == json_strings(
                adjectives@,
            ) && Some(words.creatures()) == json_strings(creatures@),
    {
        match parse_strings(adjectives) {
            Some(adjectives) => match parse_strings(creatures) {
                Some(creatures) => WordLists::new(adjectives, creatures),
                None => None,
            },
            None => None,
        }
    }

    /// Tells whether every word of both lists is made of ASCII characters.
    pub fn is_ascii(&self) -> (r: bool)
        ensures
            r == self.ascii(),
    {
        let adjectives = all_ascii(&self.adjectives);
        let creatures = all_ascii(&self.creatures);
        proof {
            let first = self.adjectives();
            let second = self.creatures();
            if adjectives && creatures {
                assert forall|i: int| 0 <= i < first.len() implies is_ascii_chars(
                    #[trigger] first[i],
                ) by {
                    assert(first[i] == texts(self.adjectives@)[i]);
                }
                assert forall|j: int| 0 <= j < second.len() implies is_ascii_chars(
                    #[trigger] second[j],
                ) by {
                    assert(second[j] == texts(self.creatures@)[j]);
                }
            } else if !adjectives {
                let i = choose|i: int|
                    0 <= i < self.adjectives@.len() && !is_ascii_chars(
                        #[trigger] texts(self.adjectives@)[i],
                    );
                assert(!is_ascii_chars(first[i]));
            } else {
                let j = choose|j: int|
                    0 <= j < self.creatures@.len() && !is_ascii_chars(
                        #[trigger] texts(self.creatures@)[j],
                    );
                assert(!is_ascii_chars(second[j]));
            }
        }
        adjectives && creatures
    }

    /// The number of adjectives.
    pub fn adjective_count(&self) -> (n: usize)
        ensures
            n == self.adjectives().len(),
    {
        self.adjectives.len()
    }

    /// The number of creature names.
    pub fn creature_count(&self) -> (n: usize)
        ensures
            n == self.creatures().len(),
    {
        self.creatures.len()
    }
}

/// Tells whether every one of the words is made of ASCII characters.
fn all_ascii(words: &Vec<String>) -> (r: bool)
    ensures
        r == forall|i: int| 0 <= i < words@.len() ==> is_ascii_chars(#[trigger] texts(words@)[i]),
{
    let mut at: usize = 0;
    while at < words.len()
        invariant
            at <= words@.len(),
            forall|i: int| 0 <= i < at ==> is_ascii_chars(#[trigger] texts(words@)[i]),
        decreases words@.len() - at,
    {
        if !words[at].as_str().is_ascii() {
            assert(!is_ascii_chars(texts(words@)[at as int]));
            return false;
        }
        at += 1;
    }
    true
}

/// Puts a display name together.
pub fn compose_name(adjective: &str, creature: &str) -> (name: String)
    ensures
        name@ == display_name(adjective@, creature@),
{
    let mut name = adjective.to_owned();
    name.push(' ');
    name.append(creature);
    name.append(" Jelly");
    proof {
        reveal_strlit(" Jelly");
        assert(" Jelly"@ =~= family());
        assert(name@ =~= display_name(adjective@, creature@));
    }
    name
}

/// Draws a display name from the word lists.
pub fn generate_name(words: &WordLists) -> (name: String)
    ensures
        words.offers(name@),
{
    proof {
        use_type_invariant(words);
    }
    let adjective = pick(&words.adjectives).unwrap();
    let creature = pick(&words.creatures).unwrap();
    proof {
        let i = choose|i: int| 0 <= i < words.adjectives@.len() && words.adjectives@[i] == *adjective;
        let j = choose|j: int| 0 <= j < words.creatures@.len() && words.creatures@[j] == *creature;
        assert(words.adjectives()[i] == adjective@);
        assert(words.creatures()[j] == creature@);
    }
    compose_name(adjective.as_str(), creature.as_str())
}

/// Every name that can be drawn ends with a letter, and is made of ASCII
/// characters where the words are.
pub proof fn lemma_offered_name(words: WordLists, name: Seq<char>)
    requires
        words.offers(name),
    ensures
        name.len() > 0 && name.last() == 'y',
        words.ascii() ==> is_ascii_chars(name),
{
    let (i, j) = choose|i: int, j: int|
        0 <= i < words.adjectives().len() && 0 <= j < words.creatures().len() && name
            == display_name(#[trigger] words.adjectives()[i], #[trigger] words.creatures()[j]);
    let adjective = words.adjectives()[i];
    let creature = words.creatures()[j];
    assert(name.last() == family()[5]);
    if words.ascii() {
        assert forall|k: int| 0 <= k < name.len() implies '\0' <= #[trigger] name[k] <= '\u{7f}' by {
            if k < adjective.len() {
                assert(name[k] == adjective[k]);
            } else if k == adjective.len() {
            } else if k < adjective.len() + 1 + creature.len() {
                assert(name[k] == creature[k - adjective.len() - 1]);
            } else {
                assert(name[k] == family()[k - adjective.len() - 1 - creature.len()]);
            }
        }
    }
}

} // verus!
