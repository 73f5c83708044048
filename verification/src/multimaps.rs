//! The multi-valued maps of the `multimap` crate, as the rest of the crate
//! sees them: a map from a text to the values inserted under it, in the
//! order of insertion.

use multimap::MultiMap;
use vstd::prelude::*;

verus! {

/// `multimap::MultiMap`. Nothing is known of what a value holds but through
/// `id_entries` and `text_entries`.
#[verifier::external_type_specification]
#[verifier::external_body]
#[verifier::reject_recursive_types(K)]
#[verifier::reject_recursive_types(V)]
#[verifier::reject_recursive_types(S)]
pub struct ExMultiMap<K, V, S>(MultiMap<K, V, S>);

/// What a map from texts to identifiers holds: under each key that is
/// present, the identifiers inserted under it, oldest first.
pub uninterp spec fn id_entries(map: MultiMap<String, u64>) -> Map<Seq<char>, Seq<u64>>;

/// What a map from texts to texts holds: under each key that is present, the
/// texts inserted under it, oldest first.
pub uninterp spec fn text_entries(map: MultiMap<String, String>) -> Map<Seq<char>, Seq<Seq<char>>>;

/// The entries of an empty map.
pub open spec fn no_entries<V>() -> Map<Seq<char>, Seq<V>> {
    Map::empty()
}

/// The entries after `value` is inserted under `key`: appended to the values
/// of a key that is present, alone under a new key.
pub open spec fn with_entry<V>(entries: Map<Seq<char>, Seq<V>>, key: Seq<char>, value: V) -> Map<
    Seq<char>,
    Seq<V>,
> {
    if entries.contains_key(key) {
        entries.insert(key, entries[key].push(value))
    } else {
        entries.insert(key, seq![value])
    }
}

/// The values under `key`, none where the key is absent.
pub open spec fn values_under<V>(entries: Map<Seq<char>, Seq<V>>, key: Seq<char>) -> Seq<V> {
    if entries.contains_key(key) {
        entries[key]
    } else {
        Seq::empty()
    }
}

/// The texts of a list of strings.
pub open spec fn string_texts(strings: Seq<String>) -> Seq<Seq<char>> {
    Seq::new(strings.len(), |i: int| strings[i]@)
}

/// An empty map from texts to identifiers.
///
/// Trusted: calls `MultiMap::new`, which creates an empty map.
#[verifier::external_body]
pub(crate) fn new_id_map() -> (fresh: MultiMap<String, u64>)
    ensures
        id_entries(fresh) == no_entries::<u64>(),
{
    MultiMap::new()
}

/// Inserts `id` under `key`.
///
/// Trusted: calls `MultiMap::insert`, which pushes the value to the vector
/// of a key that exists and inserts a new vector with the value for one
/// that does not. Other keys are not touched.
#[verifier::external_body]
pub(crate) fn insert_id(map: &mut MultiMap<String, u64>, key: String, id: u64)
    ensures
        id_entries(*final(map)) == with_entry(id_entries(*old(map)), key@, id),
{
    map.insert(key, id);
}

/// The identifiers under `key`, where the key is present.
///
/// Trusted: calls `MultiMap::get_vec`, which returns a reference to the
/// vector of the key, or `None` for a key that is absent.
#[verifier::external_body]
pub(crate) fn ids_under<'a>(map: &'a MultiMap<String, u64>, key: &str) -> (found: Option<
    &'a Vec<u64>,
>)
    ensures
        match found {
            Some(ids) => id_entries(*map).contains_key(key@) && ids@ == id_entries(*map)[key@],
            None => !id_entries(*map).contains_key(key@),
        },
{
    map.get_vec(key)
}

/// An empty map from texts to texts.
///
/// Trusted: calls `MultiMap::new`, which creates an empty map.
#[verifier::external_body]
pub(crate) fn new_text_map() -> (fresh: MultiMap<String, String>)
    ensures
        text_entries(fresh) == no_entries::<Seq<char>>(),
{
    MultiMap::new()
}

/// Inserts `value` under `key`.
///
/// Trusted: calls `MultiMap::insert`, which pushes the value to the vector
/// of a key that exists and inserts a new vector with the value for one
/// that does not. Other keys are not touched.
#[verifier::external_body]
pub(crate) fn insert_text(map: &mut MultiMap<String, String>, key: String, value: String)
    ensures
        text_entries(*final(map)) == with_entry(text_entries(*old(map)), key@, value@),
{
    map.insert(key, value);
}

/// The texts under `key`, where the key is present.
///
/// Trusted: calls `MultiMap::get_vec`, which returns a reference to the
/// vector of the key, or `None` for a key that is absent.
#[verifier::external_body]
pub(crate) fn texts_under<'a>(map: &'a MultiMap<String, String>, key: &str) -> (found: Option<
    &'a Vec<String>,
>)
    ensures
        match found {
            Some(values) => text_entries(*map).contains_key(key@) && string_texts(values@)
                == text_entries(*map)[key@],
            None => !text_entries(*map).contains_key(key@),
        },
{
    map.get_vec(key)
}

} // verus!
