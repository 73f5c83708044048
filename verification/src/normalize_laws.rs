//! What holds of key fragments: their alphabet, and what normalizing a
//! fragment once more does to it.

use crate::normalize::{decomposed, is_key_char, kept, lower_char, lowered, normalized, words};
use crate::seqs::{all_of, lemma_filter_agree, lemma_filter_all, lemma_filter_kept};
use crate::text::{first_index, join, lemma_first_index, split_on};
use vstd::prelude::*;
use vstd::utf8::is_ascii_chars;

verus! {

/// Whether `c` can stand in a key fragment: a lower-case ASCII letter, a
/// digit, or the underscore that joins words.
pub open spec fn is_fragment_char(c: char) -> bool {
    c == '_' || '0' <= c <= '9' || 'a' <= c <= 'z'
}

/// Whether every character of `text` can stand in a key fragment.
pub open spec fn is_fragment(text: Seq<char>) -> bool {
    forall|i: int| 0 <= i < text.len() ==> is_fragment_char(#[trigger] text[i])
}

/// `text` without its underscores.
pub open spec fn without_underscores(text: Seq<char>) -> Seq<char> {
    text.filter(|c: char| c != '_')
}

/// Every field of a split holds characters of the text only, and none of
/// them is the separator.
pub proof fn lemma_split_fields(text: Seq<char>, sep: char, p: spec_fn(char) -> bool)
    requires
        all_of(text, p),
    ensures
        forall|k: int|
            0 <= k < split_on(text, sep).len() ==> all_of(
                #[trigger] split_on(text, sep)[k],
                |c: char| p(c) && c != sep,
            ),
    decreases text.len(),
{
    let n = first_index(text, sep);
    lemma_first_index(text, sep);
    let q = |c: char| p(c) && c != sep;
    if 0 <= n < text.len() {
        let rest = text.skip(n + 1);
        assert(all_of(rest, p));
        lemma_split_fields(rest, sep, p);
        assert(all_of(text.take(n), q));
        assert forall|k: int| 0 <= k < split_on(text, sep).len() implies all_of(
            #[trigger] split_on(text, sep)[k],
            q,
        ) by {
            if k > 0 {
                assert(split_on(text, sep)[k] == split_on(rest, sep)[k - 1]);
            }
        }
    }
}

/// A text without the separator is the one field of its split.
pub proof fn lemma_split_none(text: Seq<char>, sep: char)
    requires
        all_of(text, |c: char| c != sep),
    ensures
        split_on(text, sep) == seq![text],
{
    lemma_first_index(text, sep);
}

/// Where the parts and the separator hold only characters that satisfy `p`,
/// so does the joined text.
pub proof fn lemma_join_chars(parts: Seq<Seq<char>>, sep: Seq<char>, p: spec_fn(char) -> bool)
    requires
        forall|k: int| 0 <= k < parts.len() ==> all_of(#[trigger] parts[k], p),
        all_of(sep, p),
    ensures
        all_of(join(parts, sep), p),
    decreases parts.len(),
{
    if parts.len() >= 2 {
        let front = parts.drop_last();
        assert forall|k: int| 0 <= k < front.len() implies all_of(#[trigger] front[k], p) by {
            assert(front[k] == parts[k]);
        }
        lemma_join_chars(front, sep, p);
    }
}

/// A key fragment holds lower-case letters, digits and underscores only.
pub proof fn lemma_normalized_is_fragment(text: Seq<char>)
    ensures
        is_fragment(normalized(text)),
{
    let plain = decomposed(text);
    let key_chars = kept(plain);
    let key_char = |c: char| is_key_char(c);
    let word_char = |c: char| key_char(c) && c != ' ';
    let joined_char = |c: char| is_key_char(c) && c != ' ' || c == '_';
    lemma_filter_kept(plain, key_char);
    lemma_split_fields(key_chars, ' ', key_char);
    let fields = split_on(key_chars, ' ');
    let ws = words(key_chars);
    assert forall|k: int| 0 <= k < ws.len() implies all_of(#[trigger] ws[k], joined_char) by {
        let nonempty = |w: Seq<char>| w.len() > 0;
        fields.lemma_filter_contains_rev(nonempty, ws[k]);
        let j = choose|j: int| 0 <= j < fields.len() && fields[j] == ws[k];
        assert(all_of(fields[j], word_char));
    }
    lemma_join_chars(ws, seq!['_'], joined_char);
    let joined = join(ws, seq!['_']);
    assert forall|i: int| 0 <= i < normalized(text).len() implies is_fragment_char(
        #[trigger] normalized(text)[i],
    ) by {
        lemma_lower_char(joined[i]);
    }
}

/// The lower-case form of a letter is the matching lower-case letter; digits
/// and the underscore stay.
pub proof fn lemma_lower_char(c: char)
    ensures
        'A' <= c <= 'Z' ==> 'a' <= lower_char(c) <= 'z',
        !('A' <= c <= 'Z') ==> lower_char(c) == c,
{
}

/// The empty text has the empty key fragment.
pub proof fn lemma_normalized_empty()
    ensures
        normalized(Seq::<char>::empty()) == Seq::<char>::empty(),
{
    lemma_fragment_normalized(Seq::<char>::empty());
    reveal(Seq::filter);
}

/// Normalizing a text of fragment characters removes its underscores and
/// changes nothing else.
pub proof fn lemma_fragment_normalized(text: Seq<char>)
    requires
        is_fragment(text),
    ensures
        normalized(text) == without_underscores(text),
{
    assert(is_ascii_chars(text)) by {
        assert forall|i: int| 0 <= i < text.len() implies '\0' <= #[trigger] text[i]
            <= '\u{7f}' by {
            assert(is_fragment_char(text[i]));
        }
    }
    let stripped = without_underscores(text);
    assert(kept(text) == stripped) by {
        assert forall|i: int| 0 <= i < text.len() implies is_key_char(#[trigger] text[i]) == (
        text[i] != '_') by {
            assert(is_fragment_char(text[i]));
        }
        lemma_filter_agree(text, |c: char| is_key_char(c), |c: char| c != '_');
    }
    lemma_filter_kept(text, |c: char| c != '_');
    assert forall|i: int| 0 <= i < stripped.len() implies 'a' <= #[trigger] stripped[i] <= 'z'
        || '0' <= stripped[i] <= '9' by {
        let k = choose|k: int| 0 <= k < text.len() && text[k] == stripped[i];
        assert(is_fragment_char(text[k]));
    }
    lemma_split_none(stripped, ' ');
    assert(join(words(stripped), seq!['_']) == stripped) by {
        reveal_with_fuel(Seq::filter, 2);
    }
}

/// Normalizing a key fragment once more removes the underscores between its
/// words and changes nothing else.
pub proof fn lemma_normalized_twice(text: Seq<char>)
    ensures
        normalized(normalized(text)) == without_underscores(normalized(text)),
{
    lemma_normalized_is_fragment(text);
    lemma_fragment_normalized(normalized(text));
}

/// Normalization is idempotent on every text whose key fragment is a single
/// word, and on no other: a fragment of several words holds underscores,
/// which a second normalization drops as punctuation.
pub proof fn lemma_normalize_idempotent_iff(text: Seq<char>)
    ensures
        normalized(normalized(text)) == normalized(text) <==> !normalized(text).contains('_'),
{
    let key = normalized(text);
    lemma_normalized_twice(text);
    lemma_filter_all(key, |c: char| c != '_');
    if key.contains('_') {
        let k = choose|k: int| 0 <= k < key.len() && key[k] == '_';
        assert(!all_of(key, |c: char| c != '_')) by {
            assert(key[k] == '_');
        }
    } else {
        assert forall|i: int| 0 <= i < key.len() implies #[trigger] key[i] != '_' by {
            assert(key.contains(key[i]));
        }
    }
}

/// Normalizing twice gives what normalizing once gives, for every text whose
/// key fragment holds no underscore.
pub proof fn lemma_normalize_idempotent(text: Seq<char>)
    requires
        !normalized(text).contains('_'),
    ensures
        normalized(normalized(text)) == normalized(text),
{
    lemma_normalize_idempotent_iff(text);
}

} // verus!
