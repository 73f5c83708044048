//! Canonical key fragments for place names, and the lookup keys built from
//! them.

use crate::text::{chars_of, join, join_chars, split_chars, split_on, string_of, texts};
use vstd::prelude::*;
use vstd::string::StringExecFns;
use vstd::utf8::is_ascii_chars;

verus! {

/// The canonical decomposition (Unicode normalization form NFD) of a text,
/// as `unicode_normalization` computes it.
pub uninterp spec fn canonical_decomposition(text: Seq<char>) -> Seq<char>;

/// The decomposed form of a text. ASCII text is its own decomposition.
pub open spec fn decomposed(text: Seq<char>) -> Seq<char> {
    if is_ascii_chars(text) {
        text
    } else {
        canonical_decomposition(text)
    }
}

/// Decomposes a text canonically.
///
/// Trusted: calls `UnicodeNormalization::nfd` of `unicode_normalization` on
/// the text and collects the characters it yields. The result is named, not
/// described, except for one fact that the crate's decomposition routine
/// shows directly: a character up to U+007F is emitted as it is, so a text
/// of such characters alone comes back unchanged.
#[verifier::external_body]
fn decompose(text: &str) -> (out: String)
    ensures
        out@ == canonical_decomposition(text@),
        is_ascii_chars(text@) ==> out@ == text@,
{
    unicode_normalization::UnicodeNormalization::nfd(text).collect::<String>()
}

/// Whether a decomposed character is kept: the ASCII letters and digits, and
/// the space, which separates words. Every other character is dropped:
/// diacritics, punctuation, control characters, and all that is not ASCII.
pub open spec fn is_key_char(c: char) -> bool {
    c == ' ' || '0' <= c <= '9' || 'A' <= c <= 'Z' || 'a' <= c <= 'z'
}

/// The kept characters of a text, in order.
pub open spec fn kept(text: Seq<char>) -> Seq<char> {
    text.filter(|c: char| is_key_char(c))
}

/// The fields that are not empty, in order.
pub open spec fn words_among(fields: Seq<Seq<char>>) -> Seq<Seq<char>> {
    fields.filter(|w: Seq<char>| w.len() > 0)
}

/// The words of a text: its maximal runs of characters other than the space.
pub open spec fn words(text: Seq<char>) -> Seq<Seq<char>> {
    words_among(split_on(text, ' '))
}

/// The lower-case form of an ASCII capital; any other character itself.
pub open spec fn lower_char(c: char) -> char {
    if 'A' <= c <= 'Z' {
        ((c as u8) + 32) as char
    } else {
        c
    }
}

/// The text with every ASCII capital in lower case.
pub open spec fn lowered(text: Seq<char>) -> Seq<char> {
    text.map_values(|c: char| lower_char(c))
}

/// The key fragment of a decomposed text: its letters, digits and spaces
/// are kept, the words joined with underscores, and the result put in lower
/// case.
pub open spec fn fragment_of(plain: Seq<char>) -> Seq<char> {
    lowered(join(words(kept(plain)), seq!['_']))
}

/// The key fragment of a text: that of its decomposed form.
pub open spec fn normalized(text: Seq<char>) -> Seq<char> {
    fragment_of(decomposed(text))
}

/// Tests whether a character is kept.
pub fn is_key_char_exec(c: char) -> (b: bool)
    ensures
        b == is_key_char(c),
{
    c == ' ' || ('0' <= c && c <= '9') || ('A' <= c && c <= 'Z') || ('a' <= c && c <= 'z')
}

/// Keeps the letters, digits and spaces of a text.
pub fn keep_key_chars(text: &Vec<char>) -> (out: Vec<char>)
    ensures
        out@ == kept(text@),
{
    let mut out: Vec<char> = Vec::new();
    let mut i: usize = 0;
    while i < text.len()
        invariant
            i <= text.len(),
            out@ == kept(text@.take(i as int)),
        decreases text.len() - i,
    {
        let c = text[i];
        proof {
            assert(text@.take(i + 1) == text@.take(i as int).push(c));
            text@.take(i as int).lemma_filter_push(c, |c: char| is_key_char(c));
        }
        if is_key_char_exec(c) {
            out.push(c);
        }
        i += 1;
    }
    assert(text@.take(text.len() as int) == text@);
    out
}

/// Splits a text into its words.
pub fn split_words(text: &Vec<char>) -> (out: Vec<Vec<char>>)
    ensures
        texts(out@) == words(text@),
{
    let fields = split_chars(text, ' ');
    let ghost all = fields@;
    let mut out: Vec<Vec<char>> = Vec::new();
    for field in it: fields
        invariant
            it.seq() == all,
            texts(out@) == words_among(texts(all.take(it.index() as int))),
    {
        proof {
            let i = it.index() as int;
            assert(texts(all.take(i + 1)) == texts(all.take(i)).push(field@));
            texts(all.take(i)).lemma_filter_push(field@, |w: Seq<char>| w.len() > 0);
        }
        if field.len() > 0 {
            out.push(field);
        }
    }
    assert(all.take(all.len() as int) == all);
    out
}

/// Puts one character in lower case.
pub fn lower_char_exec(c: char) -> (out: char)
    ensures
        out == lower_char(c),
{
    if 'A' <= c && c <= 'Z' {
        let b: u8 = c as u8;
        (b + 32) as char
    } else {
        c
    }
}

/// Puts the ASCII capitals of a text in lower case.
pub fn lower_chars(text: &Vec<char>) -> (out: Vec<char>)
    ensures
        out@ == lowered(text@),
{
    let mut out: Vec<char> = Vec::new();
    let mut i: usize = 0;
    while i < text.len()
        invariant
            i <= text.len(),
            out@ == lowered(text@.take(i as int)),
        decreases text.len() - i,
    {
        out.push(lower_char_exec(text[i]));
        i += 1;
    }
    out
}

/// Turns a decomposed text into its key fragment.
pub fn key_fragment(plain: &str) -> (key: String)
    ensures
        key@ == fragment_of(plain@),
{
    let chars = chars_of(plain);
    let kept = keep_key_chars(&chars);
    let words = split_words(&kept);
    let joined = join_chars(&words, '_');
    let lowered = lower_chars(&joined);
    string_of(&lowered)
}

/// Turns a place name into its key fragment.
///
/// The empty text gives the empty fragment.
pub fn normalize_location_str(location_str: &str) -> (key: String)
    ensures
        key@ == normalized(location_str@),
{
    let plain = decompose(location_str);
    key_fragment(plain.as_str())
}

/// The part as a list: one text where it is present, none where it is not.
pub open spec fn present(part: Option<Seq<char>>) -> Seq<Seq<char>> {
    match part {
        Some(p) => seq![p],
        None => Seq::empty(),
    }
}

/// The lookup key of a place: the fragments that are present, in the order
/// city, state, country, joined with underscores.
pub open spec fn location_key_of(
    city: Option<Seq<char>>,
    state: Option<Seq<char>>,
    country: Option<Seq<char>>,
) -> Seq<char> {
    join(present(city) + present(state) + present(country), seq!['_'])
}

/// The text of an optional string.
pub open spec fn text_of(part: Option<&str>) -> Option<Seq<char>> {
    match part {
        Some(s) => Some(s@),
        None => None,
    }
}

/// The texts of a list of strings.
pub open spec fn str_texts(parts: Seq<&str>) -> Seq<Seq<char>> {
    Seq::new(parts.len(), |i: int| parts[i]@)
}

/// Joins strings with `sep` between neighbours.
pub fn join_strs(parts: &Vec<&str>, sep: &str) -> (out: String)
    ensures
        out@ == join(str_texts(parts@), sep@),
{
    let mut out = String::new();
    let mut i: usize = 0;
    while i < parts.len()
        invariant
            i <= parts.len(),
            out@ == join(str_texts(parts@).take(i as int), sep@),
        decreases parts.len() - i,
    {
        proof {
            let after = str_texts(parts@).take(i + 1);
            assert(after.drop_last() == str_texts(parts@).take(i as int));
        }
        if i > 0 {
            out.append(sep);
        }
        out.append(parts[i]);
        i += 1;
    }
    assert(str_texts(parts@).take(parts.len() as int) == str_texts(parts@));
    out
}

/// Builds the lookup key from the fragments that are present.
///
/// Leaving out the state gives the coarser key under which a city is found
/// by city and country alone.
pub fn location_key(
    normalized_city: Option<&str>,
    normalized_state: Option<&str>,
    normalized_country: Option<&str>,
) -> (key: String)
    ensures
        key@ == location_key_of(
            text_of(normalized_city),
            text_of(normalized_state),
            text_of(normalized_country),
        ),
{
    let mut key_parts: Vec<&str> = Vec::new();
    if let Some(normalized_city) = normalized_city {
        key_parts.push(normalized_city);
    }
    if let Some(normalized_state) = normalized_state {
        key_parts.push(normalized_state);
    }
    if let Some(normalized_country) = normalized_country {
        key_parts.push(normalized_country);
    }
    assert(str_texts(key_parts@) == present(text_of(normalized_city)) + present(
        text_of(normalized_state),
    ) + present(text_of(normalized_country)));
    proof {
        reveal_strlit("_");
        assert("_"@ == seq!['_']);
    }
    join_strs(&key_parts, "_")
}

} // verus!
