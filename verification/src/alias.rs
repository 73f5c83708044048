//! The table of alternate place names.
//!
//! A line of the table has the form `display name | alternate`. The display
//! name of a city is `City, State, Country`, that of a state is
//! `State, Country`; the alternate of a city is `City, State`, that of a
//! state begins with its name.

use crate::multimaps::{
    insert_text, new_text_map, no_entries, string_texts, text_entries, texts_under, with_entry,
};
use crate::records::{LocationCity, LocationState};
use crate::text::{chars_of, split_chars, split_on, string_of, texts, trim_chars, trimmed};
use multimap::MultiMap;
use vstd::prelude::*;
use vstd::string::StringExecFns;

verus! {

/// The fields of `text` between occurrences of `sep`, each without leading
/// and trailing white space.
pub open spec fn trimmed_fields(text: Seq<char>, sep: char) -> Seq<Seq<char>> {
    split_on(text, sep).map_values(|field: Seq<char>| trimmed(field))
}

/// Splits `text` at every `sep` and trims each field.
pub fn split_trimmed(text: &str, sep: char) -> (fields: Vec<Vec<char>>)
    ensures
        texts(fields@) == trimmed_fields(text@, sep),
{
    let chars = chars_of(text);
    let raw = split_chars(&chars, sep);
    let mut fields: Vec<Vec<char>> = Vec::new();
    let mut i: usize = 0;
    while i < raw.len()
        invariant
            i <= raw.len(),
            texts(raw@) == split_on(text@, sep),
            texts(fields@) == trimmed_fields(text@, sep).take(i as int),
        decreases raw.len() - i,
    {
        let field = trim_chars(&raw[i]);
        proof {
            assert(texts(fields@.push(field)) == texts(fields@).push(field@));
        }
        fields.push(field);
        i += 1;
    }
    fields
}

/// The entry that a line of the alias table stands for: its two fields
/// around the one `|`, trimmed. A line with another number of fields stands
/// for none.
pub open spec fn alias_entry(line: Seq<char>) -> Option<(Seq<char>, Seq<char>)> {
    let fields = trimmed_fields(line, '|');
    if fields.len() == 2 {
        Some((fields[0], fields[1]))
    } else {
        None
    }
}

/// The alias table that the lines stand for: under each display name its
/// alternates, in the order of the lines.
pub open spec fn alias_table(lines: Seq<Seq<char>>) -> Map<Seq<char>, Seq<Seq<char>>>
    decreases lines.len(),
{
    if lines.len() == 0 {
        no_entries()
    } else {
        let table = alias_table(lines.drop_last());
        match alias_entry(lines.last()) {
            Some((name, alternate)) => with_entry(table, name, alternate),
            None => table,
        }
    }
}

/// Builds the alias table from the lines of its file. Blank lines and lines
/// with a wrong number of fields are skipped.
pub fn init_place_alias_map(lines: &Vec<String>) -> (place_alias_map: MultiMap<String, String>)
    ensures
        text_entries(place_alias_map) == alias_table(string_texts(lines@)),
{
    let mut place_alias_map = new_text_map();
    let mut i: usize = 0;
    while i < lines.len()
        invariant
            i <= lines.len(),
            text_entries(place_alias_map) == alias_table(string_texts(lines@).take(i as int)),
        decreases lines.len() - i,
    {
        proof {
            let after = string_texts(lines@).take(i + 1);
            assert(after.drop_last() == string_texts(lines@).take(i as int));
        }
        let line_vec = split_trimmed(lines[i].as_str(), '|');
        if line_vec.len() == 2 {
            let name = string_of(&line_vec[0]);
            let alternate = string_of(&line_vec[1]);
            insert_text(&mut place_alias_map, name, alternate);
        }
        i += 1;
    }
    assert(string_texts(lines@).take(lines.len() as int) == string_texts(lines@));
    place_alias_map
}

/// The text `, ` that separates the parts of a display name.
pub open spec fn comma_space() -> Seq<char> {
    seq![',', ' ']
}

/// The display name of a city: `City, State, Country`, from the names that
/// the city record carries.
pub open spec fn city_display_name(city: LocationCity) -> Seq<char> {
    city.name@ + comma_space() + city.state_name@ + comma_space() + city.country_name@
}

/// The display name of a state: `State, Country`.
pub open spec fn state_display_name(state: LocationState) -> Seq<char> {
    state.name@ + comma_space() + state.country_name@
}

/// The alternates that the alias table lists for a city, if any.
pub fn find_alias_city_names<'a>(
    place_alias_map: &'a MultiMap<String, String>,
    city_record: &LocationCity,
) -> (found: Option<&'a Vec<String>>)
    ensures
        match found {
            Some(names) => text_entries(*place_alias_map).contains_key(
                city_display_name(*city_record),
            ) && string_texts(names@) == text_entries(*place_alias_map)[city_display_name(
                *city_record,
            )],
            None => !text_entries(*place_alias_map).contains_key(city_display_name(*city_record)),
        },
{
    proof {
        reveal_strlit(", ");
        assert(", "@ == comma_space());
    }
    let mut alias_place_lookup_key = String::new();
    alias_place_lookup_key.append(city_record.name.as_str());
    alias_place_lookup_key.append(", ");
    alias_place_lookup_key.append(city_record.state_name.as_str());
    alias_place_lookup_key.append(", ");
    alias_place_lookup_key.append(city_record.country_name.as_str());
    texts_under(place_alias_map, alias_place_lookup_key.as_str())
}

/// The alternates that the alias table lists for a state, if any.
pub fn find_alias_state_names<'a>(
    place_alias_map: &'a MultiMap<String, String>,
    state_record: &LocationState,
) -> (found: Option<&'a Vec<String>>)
    ensures
        match found {
            Some(names) => text_entries(*place_alias_map).contains_key(
                state_display_name(*state_record),
            ) && string_texts(names@) == text_entries(*place_alias_map)[state_display_name(
                *state_record,
            )],
            None => !text_entries(*place_alias_map).contains_key(
                state_display_name(*state_record),
            ),
        },
{
    proof {
        reveal_strlit(", ");
        assert(", "@ == comma_space());
    }
    let mut alias_place_lookup_key = String::new();
    alias_place_lookup_key.append(state_record.name.as_str());
    alias_place_lookup_key.append(", ");
    alias_place_lookup_key.append(state_record.country_name.as_str());
    texts_under(place_alias_map, alias_place_lookup_key.as_str())
}

/// The parts written one after the other with `, ` between them, where
/// parts that leave the line empty so far are passed over.
pub open spec fn chained(parts: Seq<Seq<char>>) -> Seq<char>
    decreases parts.len(),
{
    if parts.len() == 0 {
        Seq::empty()
    } else {
        let before = chained(parts.drop_last());
        if before.len() == 0 {
            parts.last()
        } else {
            before + comma_space() + parts.last()
        }
    }
}

/// The key by which a line of the alias table is sorted: the parts of its
/// display name from the largest to the smallest, `Country, State, City`.
/// A line with a wrong number of fields has none.
pub open spec fn alias_sort_key(line: Seq<char>) -> Option<Seq<char>> {
    let fields = trimmed_fields(line, '|');
    if fields.len() == 2 {
        Some(chained(trimmed_fields(fields[0], ',').reverse()))
    } else {
        None
    }
}

/// Computes the key by which a line of the alias table is sorted.
pub fn place_alias_sort_key(line: &str) -> (key: Option<String>)
    ensures
        match key {
            Some(key) => alias_sort_key(line@) == Some(key@),
            None => alias_sort_key(line@) is None,
        },
{
    let line_vec = split_trimmed(line, '|');
    if line_vec.len() != 2 {
        return None;
    }
    let name = string_of(&line_vec[0]);
    let place_key_vec = split_trimmed(name.as_str(), ',');
    let ghost parts = texts(place_key_vec@);
    let mut key: Vec<char> = Vec::new();
    let mut left: usize = place_key_vec.len();
    while left > 0
        invariant
            left <= place_key_vec.len(),
            parts == texts(place_key_vec@),
            key@ == chained(parts.reverse().take(place_key_vec.len() - left)),
        decreases left,
    {
        let ghost done = place_key_vec.len() - left;
        left -= 1;
        let part = &place_key_vec[left];
        proof {
            let after = parts.reverse().take(done + 1);
            assert(after.drop_last() == parts.reverse().take(done));
        }
        if key.len() > 0 {
            key.push(',');
            key.push(' ');
        }
        let ghost base = key@;
        let mut j: usize = 0;
        while j < part.len()
            invariant
                j <= part.len(),
                key@ == base + part@.take(j as int),
            decreases part.len() - j,
        {
            key.push(part[j]);
            j += 1;
        }
    }
    assert(parts.reverse().take(place_key_vec.len() as int) == parts.reverse());
    Some(string_of(&key))
}

} // verus!
