//! Capitalizes each word of a value.

use vstd::prelude::*;

verus! {

use vstd::string::{StrSliceExecFns, StringExecFns};
use unicode_segmentation::UnicodeSegmentation;
use crate::text::join_spaced;
use crate::transformer::{OutcomeV, TransformResult, Transformer};

/// The words of `s` under the standard Unicode word-boundary segmentation,
/// keeping only segments with an alphanumeric character, as produced by the
/// `unicode-segmentation` crate.  A function of the characters alone.
pub uninterp spec fn unicode_words_of(s: Seq<char>) -> Seq<Seq<char>>;

/// The uppercase mapping of `c`, as produced by `char::to_uppercase`.
/// A function of the character alone.
pub uninterp spec fn char_upper(c: char) -> Seq<char>;

/// The lowercase mapping of `c`, as produced by `char::to_lowercase`.
/// A function of the character alone.
pub uninterp spec fn char_lower(c: char) -> Seq<char>;

/// Relies on `unicode_words` of the `unicode-segmentation` crate: the word
/// segments of the string, in order, by character content alone.
#[verifier::external_body]
fn unicode_words_exec(s: &str) -> (r: Vec<String>)
    ensures
        r.deep_view() == unicode_words_of(s@),
{
    s.unicode_words().map(|w| w.to_string()).collect()
}

/// Relies on `char::to_uppercase`: the uppercase mapping of the character.
#[verifier::external_body]
fn char_upper_exec(c: char) -> (r: String)
    ensures
        r@ == char_upper(c),
{
    c.to_uppercase().collect()
}

/// Relies on `char::to_lowercase`: the lowercase mapping of the character.
#[verifier::external_body]
fn char_lower_exec(c: char) -> (r: String)
    ensures
        r@ == char_lower(c),
{
    c.to_lowercase().collect()
}

/// Every character of `s` mapped to lowercase, concatenated.
pub open spec fn lower_all(s: Seq<char>) -> Seq<char>
    decreases s.len(),
{
    if s.len() == 0 {
        Seq::empty()
    } else {
        char_lower(s[0]) + lower_all(s.skip(1))
    }
}

/// A word with its first character uppercased and the rest lowercased.
pub open spec fn capitalize_word_spec(w: Seq<char>) -> Seq<char> {
    if w.len() == 0 {
        Seq::empty()
    } else {
        char_upper(w[0]) + lower_all(w.skip(1))
    }
}

/// Every word of `s` capitalized, rejoined with single spaces.
pub open spec fn capitalize_spec(s: Seq<char>) -> Seq<char> {
    join_spaced(unicode_words_of(s).map_values(|w: Seq<char>| capitalize_word_spec(w)))
}

proof fn lemma_lower_all_push(t: Seq<char>, c: char)
    ensures
        lower_all(t.push(c)) == lower_all(t) + char_lower(c),
    decreases t.len(),
{
    if t.len() == 0 {
        assert(t.push(c)[0] == c);
        assert(t.push(c).skip(1) =~= Seq::<char>::empty());
        assert(lower_all(t.push(c)) == char_lower(c) + lower_all(Seq::<char>::empty()));
        assert(char_lower(c) + Seq::<char>::empty() =~= char_lower(c));
        assert(lower_all(t) + char_lower(c) =~= char_lower(c));
    } else {
        assert(t.push(c)[0] == t[0]);
        assert(t.push(c).skip(1) =~= t.skip(1).push(c));
        lemma_lower_all_push(t.skip(1), c);
        assert(lower_all(t.push(c)) == char_lower(t[0]) + (lower_all(t.skip(1)) + char_lower(c)));
        assert(char_lower(t[0]) + (lower_all(t.skip(1)) + char_lower(c)) =~= (char_lower(t[0])
            + lower_all(t.skip(1))) + char_lower(c));
    }
}

/// Capitalizes one word: uppercases its first character and lowercases the
/// rest.
fn capitalize_word(word: &str) -> (r: String)
    ensures
        r@ == capitalize_word_spec(word@),
{
    let n = word.unicode_len();
    if n == 0 {
        return String::new();
    }
    let mut r = char_upper_exec(word.get_char(0));
    let mut i: usize = 1;
    while i < n
        invariant
            n == word@.len(),
            1 <= i <= n,
            r@ == char_upper(word@[0]) + lower_all(word@.skip(1).take(i - 1)),
        decreases n - i,
    {
        let low = char_lower_exec(word.get_char(i));
        r.append(low.as_str());
        proof {
            assert(word@.skip(1).take(i as int) =~= word@.skip(1).take(i - 1).push(word@[i as int]));
            lemma_lower_all_push(word@.skip(1).take(i - 1), word@[i as int]);
        }
        i = i + 1;
    }
    proof {
        assert(word@.skip(1).take(n - 1) =~= word@.skip(1));
        assert(word@.skip(1).take(0) =~= Seq::<char>::empty());
    }
    r
}

/// Splits `string` into Unicode words, capitalizes each, and rejoins them
/// with single spaces.
pub fn capitalize(string: &str) -> (r: String)
    ensures
        r@ == capitalize_spec(string@),
{
    let words = unicode_words_exec(string);
    let ghost mapped = unicode_words_of(string@).map_values(|w: Seq<char>| capitalize_word_spec(w));
    let mut r = String::new();
    let mut i: usize = 0;
    while i < words.len()
        invariant
            words.deep_view() == unicode_words_of(string@),
            mapped == unicode_words_of(string@).map_values(|w: Seq<char>| capitalize_word_spec(w)),
            mapped.len() == words.len(),
            i <= words.len(),
            r@ == join_spaced(mapped.take(i as int)),
        decreases words.len() - i,
    {
        if i > 0 {
            r.append(" ");
        }
        let cw = capitalize_word(words[i].as_str());
        r.append(cw.as_str());
        proof {
            reveal_strlit(" ");
            assert(words.deep_view()[i as int] == words@[i as int]@);
            assert(mapped.take(i + 1).drop_last() =~= mapped.take(i as int));
            assert(mapped.take(i + 1).last() == capitalize_word_spec(words@[i as int]@));
            if i > 0 {
                assert(r@ =~= join_spaced(mapped.take(i + 1)));
            } else {
                assert(join_spaced(mapped.take(1)) == mapped.take(1)[0]);
                assert(r@ =~= join_spaced(mapped.take(i + 1)));
            }
        }
        i = i + 1;
    }
    proof {
        assert(mapped.take(words@.len() as int) =~= mapped);
    }
    r
}

/// Splits a value into Unicode words, capitalizes each word, and rejoins
/// them with single spaces; always succeeds.
#[derive(Debug)]
pub struct CapitalizeTransformer {

}

impl CapitalizeTransformer {
    pub fn new() -> (t: CapitalizeTransformer)
        ensures
            t == (CapitalizeTransformer {  }),
    {
        CapitalizeTransformer {  }
    }
}

impl Transformer for CapitalizeTransformer {
    open spec fn transform_spec(&self, field_value: Seq<char>, field_name: Seq<char>, record_n: int)
        -> OutcomeV {
        OutcomeV::Present(capitalize_spec(field_value))
    }

    fn transform(&self, field_value: &str, field_name: &str, record_n: usize) -> (r:
        TransformResult) {
        let capitalized = capitalize(field_value);
        Ok(Some(capitalized))
    }
}

} // verus!
