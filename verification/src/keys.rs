//! The lookup keys under which a city is found.

use crate::alias::{
    city_display_name, find_alias_city_names, find_alias_state_names, split_trimmed,
    state_display_name, trimmed_fields,
};
use crate::error::LocationFinderError;
use crate::multimaps::{string_texts, text_entries, values_under};
use crate::normalize::{location_key, location_key_of, normalize_location_str, normalized};
use crate::records::{LocationCity, LocationCountry, LocationState};
use crate::seqs::{lemma_concat_contains, lemma_push_contains};
use crate::text::{lemma_first_index, split_on, string_of, texts};
use multimap::MultiMap;
use vstd::prelude::*;

verus! {

/// The text that stands for a name: the alternate where one is given, the
/// name itself where none is.
pub open spec fn name_or(alias: Option<Seq<char>>, name: Seq<char>) -> Seq<char> {
    match alias {
        Some(alternate) => alternate,
        None => name,
    }
}

/// The seven keys of a city under one spelling of its name and of its
/// state's name:
/// city + state name + country name; city + country name;
/// city + state code + country name; city + state code + two-letter code;
/// city + two-letter code; city + state code + three-letter code;
/// city + three-letter code.
///
/// The state's code comes from the state record, the country's codes from
/// the country record, the names from the city record.
pub open spec fn city_location_keys(
    city: LocationCity,
    state: LocationState,
    country: LocationCountry,
    city_alias: Option<Seq<char>>,
    state_alias: Option<Seq<char>>,
) -> Seq<Seq<char>> {
    let city_name = normalized(name_or(city_alias, city.name@));
    let state_name = normalized(name_or(state_alias, city.state_name@));
    let country_name = normalized(city.country_name@);
    let state_code = normalized(state.state_code@);
    let iso2 = normalized(country.iso2@);
    let iso3 = normalized(country.iso3@);
    seq![
        location_key_of(Some(city_name), Some(state_name), Some(country_name)),
        location_key_of(Some(city_name), None, Some(country_name)),
        location_key_of(Some(city_name), Some(state_code), Some(country_name)),
        location_key_of(Some(city_name), Some(state_code), Some(iso2)),
        location_key_of(Some(city_name), None, Some(iso2)),
        location_key_of(Some(city_name), Some(state_code), Some(iso3)),
        location_key_of(Some(city_name), None, Some(iso3)),
    ]
}

/// The text of an optional string.
pub open spec fn alias_text(alias: Option<&str>) -> Option<Seq<char>> {
    match alias {
        Some(s) => Some(s@),
        None => None,
    }
}

/// Lists the seven keys of a city under the given spelling.
pub fn list_city_location_keys(
    city_record: &LocationCity,
    state_record: &LocationState,
    country_record: &LocationCountry,
    city_alias: Option<&str>,
    state_alias: Option<&str>,
) -> (location_keys: Vec<String>)
    ensures
        string_texts(location_keys@) == city_location_keys(
            *city_record,
            *state_record,
            *country_record,
            alias_text(city_alias),
            alias_text(state_alias),
        ),
{
    let mut location_keys: Vec<String> = Vec::new();
    let city_name = normalize_location_str(
        match city_alias {
            Some(alternate) => alternate,
            None => city_record.name.as_str(),
        },
    );
    let state_name = normalize_location_str(
        match state_alias {
            Some(alternate) => alternate,
            None => city_record.state_name.as_str(),
        },
    );
    let country_name = normalize_location_str(city_record.country_name.as_str());
    location_keys.push(
        location_key(
            Some(city_name.as_str()),
            Some(state_name.as_str()),
            Some(country_name.as_str()),
        ),
    );
    location_keys.push(location_key(Some(city_name.as_str()), None, Some(country_name.as_str())));
    let state_code = normalize_location_str(state_record.state_code.as_str());
    location_keys.push(
        location_key(
            Some(city_name.as_str()),
            Some(state_code.as_str()),
            Some(country_name.as_str()),
        ),
    );
    let country_code_iso2 = normalize_location_str(country_record.iso2.as_str());
    location_keys.push(
        location_key(
            Some(city_name.as_str()),
            Some(state_code.as_str()),
            Some(country_code_iso2.as_str()),
        ),
    );
    location_keys.push(
        location_key(Some(city_name.as_str()), None, Some(country_code_iso2.as_str())),
    );
    let country_code_iso3 = normalize_location_str(country_record.iso3.as_str());
    location_keys.push(
        location_key(
            Some(city_name.as_str()),
            Some(state_code.as_str()),
            Some(country_code_iso3.as_str()),
        ),
    );
    location_keys.push(
        location_key(Some(city_name.as_str()), None, Some(country_code_iso3.as_str())),
    );
    assert(string_texts(location_keys@) =~= city_location_keys(
        *city_record,
        *state_record,
        *country_record,
        alias_text(city_alias),
        alias_text(state_alias),
    ));
    location_keys
}

/// Whether `key` is among `keys`.
pub fn contains_key_text(keys: &Vec<String>, key: &String) -> (found: bool)
    ensures
        found == string_texts(keys@).contains(key@),
{
    let mut i: usize = 0;
    while i < keys.len()
        invariant
            i <= keys.len(),
            forall|k: int| 0 <= k < i ==> string_texts(keys@)[k] != key@,
        decreases keys.len() - i,
    {
        if keys[i] == *key {
            assert(string_texts(keys@)[i as int] == key@);
            return true;
        }
        i += 1;
    }
    false
}

/// Adds to `keys` each of `more` that it does not hold yet. Keys that held
/// no key twice hold none twice afterwards.
pub fn add_keys(keys: &mut Vec<String>, more: Vec<String>)
    ensures
        string_texts(old(keys)@).no_duplicates() ==> string_texts(final(keys)@).no_duplicates(),
        forall|key: Seq<char>|
            #![trigger string_texts(final(keys)@).contains(key)]
            string_texts(final(keys)@).contains(key) <==> string_texts(old(keys)@).contains(key)
                || string_texts(more@).contains(key),
{
    let ghost start = string_texts(keys@);
    let ghost all = more@;
    for key in it: more
        invariant
            it.seq() == all,
            start.no_duplicates() ==> string_texts(keys@).no_duplicates(),
            forall|k: Seq<char>|
                #![trigger string_texts(keys@).contains(k)]
                string_texts(keys@).contains(k) <==> start.contains(k) || string_texts(
                    all.take(it.index() as int),
                ).contains(k),
    {
        let ghost before = string_texts(keys@);
        let ghost seen = string_texts(all.take(it.index() as int));
        proof {
            assert(string_texts(all.take(it.index() + 1)) == seen.push(key@));
            lemma_push_contains(seen, key@);
            lemma_push_contains(before, key@);
        }
        if !contains_key_text(keys, &key) {
            keys.push(key);
            assert(string_texts(keys@) == before.push(key@));
        }
    }
    assert(all.take(all.len() as int) == all);
}

/// Whether an alternate of a city has the form `City, State`: at least two
/// fields around commas.
pub open spec fn is_pair(alternate: Seq<char>) -> bool {
    trimmed_fields(alternate, ',').len() >= 2
}

/// Whether every one of the alternates has the form `City, State`.
pub open spec fn pairs_only(alternates: Seq<Seq<char>>) -> bool {
    forall|i: int| 0 <= i < alternates.len() ==> is_pair(#[trigger] alternates[i])
}

/// The keys that one alternate `City, State` of a city adds: the seven keys
/// under both alternate names where both differ from the city's own, under
/// the alternate state name where that differs, and under the alternate
/// city name where that differs.
pub open spec fn city_alternate_keys(
    city: LocationCity,
    state: LocationState,
    country: LocationCountry,
    alternate: Seq<char>,
) -> Seq<Seq<char>> {
    let fields = trimmed_fields(alternate, ',');
    let alt_city = fields[0];
    let alt_state = fields[1];
    let both = if city.name@ != alt_city && city.state_name@ != alt_state {
        city_location_keys(city, state, country, Some(alt_city), Some(alt_state))
    } else {
        Seq::empty()
    };
    let by_state = if city.state_name@ != alt_state {
        city_location_keys(city, state, country, None, Some(alt_state))
    } else {
        Seq::empty()
    };
    let by_city = if city.name@ != alt_city {
        city_location_keys(city, state, country, Some(alt_city), None)
    } else {
        Seq::empty()
    };
    both + by_state + by_city
}

/// The keys that one alternate of a city's state adds: the seven keys under
/// the alternate state name, where that differs from the state's own.
pub open spec fn state_alternate_keys(
    city: LocationCity,
    state: LocationState,
    country: LocationCountry,
    alternate: Seq<char>,
) -> Seq<Seq<char>> {
    let alt_state = trimmed_fields(alternate, ',')[0];
    if state.name@ != alt_state {
        city_location_keys(city, state, country, None, Some(alt_state))
    } else {
        Seq::empty()
    }
}

/// Whether one of the first `n` alternates of the city adds `key`.
pub open spec fn city_alternate_gives(
    city: LocationCity,
    state: LocationState,
    country: LocationCountry,
    alternates: Seq<Seq<char>>,
    n: int,
    key: Seq<char>,
) -> bool {
    exists|i: int|
        0 <= i < n && (#[trigger] city_alternate_keys(city, state, country, alternates[i])).contains(
            key,
        )
}

/// Whether one of the first `n` alternates of the city's state adds `key`.
pub open spec fn state_alternate_gives(
    city: LocationCity,
    state: LocationState,
    country: LocationCountry,
    alternates: Seq<Seq<char>>,
    n: int,
    key: Seq<char>,
) -> bool {
    exists|i: int|
        0 <= i < n && (#[trigger] state_alternate_keys(
            city,
            state,
            country,
            alternates[i],
        )).contains(key)
}

/// The alternates that the alias table lists for the city.
pub open spec fn city_alternates(
    aliases: Map<Seq<char>, Seq<Seq<char>>>,
    city: LocationCity,
) -> Seq<Seq<char>> {
    values_under(aliases, city_display_name(city))
}

/// The alternates that the alias table lists for the state.
pub open spec fn state_alternates(
    aliases: Map<Seq<char>, Seq<Seq<char>>>,
    state: LocationState,
) -> Seq<Seq<char>> {
    values_under(aliases, state_display_name(state))
}

/// Whether the city is found under `key`: the key is one of the seven under
/// the city's own names, or an alternate of the city or of its state adds
/// it.
pub open spec fn is_city_key(
    aliases: Map<Seq<char>, Seq<Seq<char>>>,
    city: LocationCity,
    state: LocationState,
    country: LocationCountry,
    key: Seq<char>,
) -> bool {
    let for_city = city_alternates(aliases, city);
    let for_state = state_alternates(aliases, state);
    ||| city_location_keys(city, state, country, None, None).contains(key)
    ||| city_alternate_gives(city, state, country, for_city, for_city.len() as int, key)
    ||| state_alternate_gives(city, state, country, for_state, for_state.len() as int, key)
}

/// A split has at least one field.
pub proof fn lemma_split_nonempty(text: Seq<char>, sep: char)
    ensures
        split_on(text, sep).len() >= 1,
{
    lemma_first_index(text, sep);
}

/// Whether two strings hold different texts.
fn differ(a: &String, b: &String) -> (d: bool)
    ensures
        d == (a@ != b@),
{
    !(*a == *b)
}

/// Collects the keys under which a city is found, each once.
///
/// Fails with `Loader` exactly when an alternate of the city lacks its
/// second field.
#[verifier::loop_isolation(false)]
pub fn city_key_set(
    place_alias_map: &MultiMap<String, String>,
    city_record: &LocationCity,
    state_record: &LocationState,
    country_record: &LocationCountry,
) -> (collected: Result<Vec<String>, LocationFinderError>)
    ensures
        match collected {
            Ok(keys) => {
                &&& pairs_only(city_alternates(text_entries(*place_alias_map), *city_record))
                &&& string_texts(keys@).no_duplicates()
                &&& forall|key: Seq<char>|
                    #![trigger string_texts(keys@).contains(key)]
                    string_texts(keys@).contains(key) <==> is_city_key(
                        text_entries(*place_alias_map),
                        *city_record,
                        *state_record,
                        *country_record,
                        key,
                    )
            },
            Err(error) => error is Loader && !pairs_only(
                city_alternates(text_entries(*place_alias_map), *city_record),
            ),
        },
{
    let ghost aliases = text_entries(*place_alias_map);
    let ghost city = *city_record;
    let ghost state = *state_record;
    let ghost country = *country_record;
    let ghost own = city_location_keys(city, state, country, None, None);
    let ghost for_city = city_alternates(aliases, city);
    let ghost for_state = state_alternates(aliases, state);

    let mut location_keys_set: Vec<String> = Vec::new();
    add_keys(
        &mut location_keys_set,
        list_city_location_keys(city_record, state_record, country_record, None, None),
    );

    match find_alias_city_names(place_alias_map, city_record) {
        Some(alias_place_names) => {
            let mut i: usize = 0;
            while i < alias_place_names.len()
                invariant
                    i <= alias_place_names.len(),
                    string_texts(alias_place_names@) == for_city,
                    city == *city_record,
                    state == *state_record,
                    country == *country_record,
                    own == city_location_keys(city, state, country, None, None),
                    pairs_only(for_city.take(i as int)),
                    string_texts(location_keys_set@).no_duplicates(),
                    forall|key: Seq<char>|
                        #![trigger string_texts(location_keys_set@).contains(key)]
                        string_texts(location_keys_set@).contains(key) <==> own.contains(key)
                            || city_alternate_gives(city, state, country, for_city, i as int, key),
                decreases alias_place_names.len() - i,
            {
                let ghost alternate = for_city[i as int];
                assert(alternate == alias_place_names@[i as int]@);
                let ghost before = string_texts(location_keys_set@);
                let name_vec = split_trimmed(alias_place_names[i].as_str(), ',');
                if name_vec.len() < 2 {
                    assert(!is_pair(for_city[i as int]));
                    return Err(LocationFinderError::Loader);
                }
                assert(texts(name_vec@)[0] == name_vec@[0]@ && texts(name_vec@)[1] == name_vec@[1]@);
                let alt_city = string_of(&name_vec[0]);
                let alt_state = string_of(&name_vec[1]);
                let city_differs = differ(&city_record.name, &alt_city);
                let state_differs = differ(&city_record.state_name, &alt_state);
                let ghost both = if city_differs && state_differs {
                    city_location_keys(city, state, country, Some(alt_city@), Some(alt_state@))
                } else {
                    Seq::empty()
                };
                let ghost by_state = if state_differs {
                    city_location_keys(city, state, country, None, Some(alt_state@))
                } else {
                    Seq::empty()
                };
                let ghost by_city = if city_differs {
                    city_location_keys(city, state, country, Some(alt_city@), None)
                } else {
                    Seq::empty()
                };
                if city_differs && state_differs {
                    add_keys(
                        &mut location_keys_set,
                        list_city_location_keys(
                            city_record,
                            state_record,
                            country_record,
                            Some(alt_city.as_str()),
                            Some(alt_state.as_str()),
                        ),
                    );
                }
                let ghost after_both = string_texts(location_keys_set@);
                assert(forall|key: Seq<char>|
                    #![trigger after_both.contains(key)]
                    after_both.contains(key) <==> before.contains(key) || both.contains(key));
                if state_differs {
                    add_keys(
                        &mut location_keys_set,
                        list_city_location_keys(
                            city_record,
                            state_record,
                            country_record,
                            None,
                            Some(alt_state.as_str()),
                        ),
                    );
                }
                let ghost after_state = string_texts(location_keys_set@);
                assert(forall|key: Seq<char>|
                    #![trigger after_state.contains(key)]
                    after_state.contains(key) <==> after_both.contains(key) || by_state.contains(
                        key,
                    ));
                if city_differs {
                    add_keys(
                        &mut location_keys_set,
                        list_city_location_keys(
                            city_record,
                            state_record,
                            country_record,
                            Some(alt_city.as_str()),
                            None,
                        ),
                    );
                }
                assert(forall|key: Seq<char>|
                    #![trigger string_texts(location_keys_set@).contains(key)]
                    string_texts(location_keys_set@).contains(key) <==> after_state.contains(key)
                        || by_city.contains(key));
                proof {
                    let added = city_alternate_keys(city, state, country, alternate);
                    assert(added == both + by_state + by_city);
                    lemma_concat_contains(both, by_state);
                    lemma_concat_contains(both + by_state, by_city);
                    assert(forall|key: Seq<char>|
                        #![trigger string_texts(location_keys_set@).contains(key)]
                        string_texts(location_keys_set@).contains(key) <==> before.contains(key)
                            || added.contains(key));
                    assert forall|key: Seq<char>|
                        #![trigger city_alternate_gives(city, state, country, for_city, i + 1, key)]
                        city_alternate_gives(city, state, country, for_city, i + 1, key)
                            <==> city_alternate_gives(city, state, country, for_city, i as int, key)
                            || added.contains(key) by {
                        if added.contains(key) {
                            assert(city_alternate_keys(
                                city,
                                state,
                                country,
                                for_city[i as int],
                            ).contains(key));
                        }
                    }
                    assert forall|k: int| 0 <= k < i + 1 implies is_pair(
                        #[trigger] for_city.take(i + 1)[k],
                    ) by {
                        if k < i {
                            assert(for_city.take(i + 1)[k] == for_city.take(i as int)[k]);
                        }
                    }
                }
                i += 1;
            }
            assert(for_city.take(for_city.len() as int) == for_city);
        },
        None => {
            assert(for_city.len() == 0);
        },
    }

    match find_alias_state_names(place_alias_map, state_record) {
        Some(alias_place_names) => {
            let mut i: usize = 0;
            while i < alias_place_names.len()
                invariant
                    i <= alias_place_names.len(),
                    string_texts(alias_place_names@) == for_state,
                    city == *city_record,
                    state == *state_record,
                    country == *country_record,
                    own == city_location_keys(city, state, country, None, None),
                    string_texts(location_keys_set@).no_duplicates(),
                    forall|key: Seq<char>|
                        #![trigger string_texts(location_keys_set@).contains(key)]
                        string_texts(location_keys_set@).contains(key) <==> own.contains(key)
                            || city_alternate_gives(
                            city,
                            state,
                            country,
                            for_city,
                            for_city.len() as int,
                            key,
                        ) || state_alternate_gives(city, state, country, for_state, i as int, key),
                decreases alias_place_names.len() - i,
            {
                let ghost alternate = for_state[i as int];
                assert(alternate == alias_place_names@[i as int]@);
                let ghost before = string_texts(location_keys_set@);
                let name_vec = split_trimmed(alias_place_names[i].as_str(), ',');
                proof {
                    lemma_split_nonempty(alternate, ',');
                    assert(texts(name_vec@).len() == split_on(alternate, ',').len());
                    assert(texts(name_vec@)[0] == name_vec@[0]@);
                }
                let alt_state = string_of(&name_vec[0]);
                let state_differs = differ(&state_record.name, &alt_state);
                if state_differs {
                    add_keys(
                        &mut location_keys_set,
                        list_city_location_keys(
                            city_record,
                            state_record,
                            country_record,
                            None,
                            Some(alt_state.as_str()),
                        ),
                    );
                }
                proof {
                    let added = state_alternate_keys(city, state, country, alternate);
                    assert(forall|key: Seq<char>|
                        #![trigger string_texts(location_keys_set@).contains(key)]
                        string_texts(location_keys_set@).contains(key) <==> before.contains(key)
                            || added.contains(key));
                    assert forall|key: Seq<char>|
                        #![trigger state_alternate_gives(city, state, country, for_state, i + 1, key)]
                        state_alternate_gives(city, state, country, for_state, i + 1, key)
                            <==> state_alternate_gives(
                            city,
                            state,
                            country,
                            for_state,
                            i as int,
                            key,
                        ) || added.contains(key) by {
                        if added.contains(key) {
                            assert(state_alternate_keys(
                                city,
                                state,
                                country,
                                for_state[i as int],
                            ).contains(key));
                        }
                    }
                }
                i += 1;
            }
        },
        None => {
            assert(for_state.len() == 0);
        },
    }
    Ok(location_keys_set)
}

} // verus!
