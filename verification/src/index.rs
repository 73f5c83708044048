//! The index from lookup keys to cities.

use crate::error::LocationFinderError;
use crate::keys::{city_alternates, city_key_set, is_city_key, pairs_only};
use crate::multimaps::{
    id_entries, insert_id, new_id_map, string_texts, text_entries, values_under, with_entry,
};
use crate::records::{LocationCity, LocationCountry, LocationState};
use crate::seqs::lemma_push_contains;
use crate::table::{by_id, distinct_ids, has_id, IdTable};
use multimap::MultiMap;
use vstd::prelude::*;

verus! {

/// A gazetteer as the index sees it: the three tables in load order and the
/// alias table.
pub struct Gazetteer {
    pub countries: Seq<LocationCountry>,
    pub states: Seq<LocationState>,
    pub cities: Seq<LocationCity>,
    pub aliases: Map<Seq<char>, Seq<Seq<char>>>,
}

impl Gazetteer {
    /// The state that the city refers to.
    pub open spec fn state_of(self, city: LocationCity) -> LocationState {
        by_id(self.states, city.state_id)->0
    }

    /// The country that the city refers to.
    pub open spec fn country_of(self, city: LocationCity) -> LocationCountry {
        by_id(self.countries, city.country_id)->0
    }

    /// Whether the city is found under `key`.
    pub open spec fn finds(self, city: LocationCity, key: Seq<char>) -> bool {
        is_city_key(self.aliases, city, self.state_of(city), self.country_of(city), key)
    }

    /// Whether the city's state and country exist, and each of its
    /// alternates has the form `City, State`.
    pub open spec fn city_sound(self, city: LocationCity) -> bool {
        &&& has_id(self.states, city.state_id)
        &&& has_id(self.countries, city.country_id)
        &&& pairs_only(city_alternates(self.aliases, city))
    }

    /// Whether every city of `cities` is sound.
    pub open spec fn cities_sound(self, cities: Seq<LocationCity>) -> bool {
        forall|i: int| 0 <= i < cities.len() ==> self.city_sound(#[trigger] cities[i])
    }

    /// Whether an index can be built: identifiers are unique within each
    /// table and every city is sound.
    pub open spec fn sound(self) -> bool {
        &&& distinct_ids(self.countries)
        &&& distinct_ids(self.states)
        &&& distinct_ids(self.cities)
        &&& self.cities_sound(self.cities)
    }

    /// The identifiers of the cities among `cities` that are found under
    /// `key`, in the order of `cities`.
    pub open spec fn ids_under(self, cities: Seq<LocationCity>, key: Seq<char>) -> Seq<u64> {
        cities.filter(|city: LocationCity| self.finds(city, key)).map_values(
            |city: LocationCity| city.id,
        )
    }

    /// The index of `cities`: every key under which one of them is found,
    /// with the identifiers of those found under it.
    pub open spec fn index_of(self, cities: Seq<LocationCity>) -> Map<Seq<char>, Seq<u64>> {
        Map::new(
            |key: Seq<char>| self.ids_under(cities, key).len() > 0,
            |key: Seq<char>| self.ids_under(cities, key),
        )
    }

    /// The index of the gazetteer's cities.
    pub open spec fn index(self) -> Map<Seq<char>, Seq<u64>> {
        self.index_of(self.cities)
    }

    /// The identifiers found under `key` after one more city: those found
    /// before, and the city's own at the end where the city is found under
    /// `key`.
    pub proof fn lemma_ids_under_push(self, cities: Seq<LocationCity>, city: LocationCity)
        ensures
            forall|key: Seq<char>| #[trigger]
                self.ids_under(cities.push(city), key) == if self.finds(city, key) {
                    self.ids_under(cities, key).push(city.id)
                } else {
                    self.ids_under(cities, key)
                },
    {
        assert forall|key: Seq<char>| #[trigger]
            self.ids_under(cities.push(city), key) == if self.finds(city, key) {
                self.ids_under(cities, key).push(city.id)
            } else {
                self.ids_under(cities, key)
            } by {
            let found = |c: LocationCity| self.finds(c, key);
            cities.lemma_filter_push(city, found);
            if self.finds(city, key) {
                assert(cities.filter(found).push(city).map_values(|c: LocationCity| c.id)
                    == cities.filter(found).map_values(|c: LocationCity| c.id).push(city.id));
            }
        }
    }
}

/// The gazetteer made of the given tables.
pub open spec fn gazetteer_of(
    countries: Seq<LocationCountry>,
    states: Seq<LocationState>,
    cities: Seq<LocationCity>,
    aliases: Map<Seq<char>, Seq<Seq<char>>>,
) -> Gazetteer {
    Gazetteer { countries, states, cities, aliases }
}

/// Inserts `id` under each of `keys`.
fn insert_under_keys(city_name_map: &mut MultiMap<String, u64>, keys: Vec<String>, id: u64)
    requires
        string_texts(keys@).no_duplicates(),
    ensures
        forall|key: Seq<char>| #[trigger]
            id_entries(*final(city_name_map)).contains_key(key) <==> id_entries(
                *old(city_name_map),
            ).contains_key(key) || string_texts(keys@).contains(key),
        forall|key: Seq<char>| #[trigger]
            values_under(id_entries(*final(city_name_map)), key) == if string_texts(
                keys@,
            ).contains(key) {
                values_under(id_entries(*old(city_name_map)), key).push(id)
            } else {
                values_under(id_entries(*old(city_name_map)), key)
            },
{
    let ghost start = id_entries(*city_name_map);
    let ghost all = keys@;
    for location_key in it: keys
        invariant
            it.seq() == all,
            string_texts(all).no_duplicates(),
            forall|key: Seq<char>| #[trigger]
                id_entries(*city_name_map).contains_key(key) <==> start.contains_key(key)
                    || string_texts(all.take(it.index() as int)).contains(key),
            forall|key: Seq<char>| #[trigger]
                values_under(id_entries(*city_name_map), key) == if string_texts(
                    all.take(it.index() as int),
                ).contains(key) {
                    values_under(start, key).push(id)
                } else {
                    values_under(start, key)
                },
    {
        let ghost before = id_entries(*city_name_map);
        let ghost seen = string_texts(all.take(it.index() as int));
        let ghost seen_next = string_texts(all.take(it.index() + 1));
        let ghost this = location_key@;
        proof {
            assert(seen_next == seen.push(this));
            lemma_push_contains(seen, this);
            assert(!seen.contains(this)) by {
                if seen.contains(this) {
                    let j = choose|j: int| 0 <= j < seen.len() && seen[j] == this;
                    assert(string_texts(all)[j] == this);
                    assert(string_texts(all)[it.index() as int] == this);
                }
            }
            assert(values_under(before, this) == values_under(start, this));
        }
        insert_id(city_name_map, location_key, id);
        proof {
            let after = id_entries(*city_name_map);
            assert(after == with_entry(before, this, id));
            assert forall|key: Seq<char>| #[trigger]
                values_under(after, key) == if seen_next.contains(key) {
                    values_under(start, key).push(id)
                } else {
                    values_under(start, key)
                } by {
                if key == this {
                    assert(values_under(after, key) == values_under(before, this).push(id));
                } else {
                    assert(values_under(after, key) == values_under(before, key));
                }
            }
            assert forall|key: Seq<char>| #[trigger]
                after.contains_key(key) <==> start.contains_key(key) || seen_next.contains(
                    key,
                ) by {
                if key != this {
                    assert(after.contains_key(key) == before.contains_key(key));
                }
            }
        }
    }
    assert(all.take(all.len() as int) == all);
}

/// Builds the index from lookup keys to cities.
///
/// The cities are taken in load order, so that under each key the cities
/// stand in that order. Fails with `Loader` exactly when the gazetteer is
/// not sound: a city refers to a state or country that does not exist, or
/// one of its alternates lacks the second field.
pub fn init_city_name_map(
    countries: &IdTable<LocationCountry>,
    states: &IdTable<LocationState>,
    cities: &IdTable<LocationCity>,
    place_alias_map: &MultiMap<String, String>,
) -> (built: Result<MultiMap<String, u64>, LocationFinderError>)
    ensures
        match built {
            Ok(city_name_map) => {
                &&& gazetteer_of(
                    countries@,
                    states@,
                    cities@,
                    text_entries(*place_alias_map),
                ).sound()
                &&& id_entries(city_name_map) == gazetteer_of(
                    countries@,
                    states@,
                    cities@,
                    text_entries(*place_alias_map),
                ).index()
            },
            Err(error) => error is Loader && !gazetteer_of(
                countries@,
                states@,
                cities@,
                text_entries(*place_alias_map),
            ).sound(),
        },
{
    let ghost g = gazetteer_of(countries@, states@, cities@, text_entries(*place_alias_map));
    let mut city_name_map = new_id_map();
    let city_count = cities.len();
    let mut i: usize = 0;
    proof {
        use_type_invariant(countries);
        use_type_invariant(states);
        use_type_invariant(cities);
        countries.lemma_distinct();
        states.lemma_distinct();
        cities.lemma_distinct();
        assert(g.cities.take(0) == Seq::<LocationCity>::empty());
        assert forall|key: Seq<char>| g.ids_under(g.cities.take(0), key).len() == 0 by {
            reveal(Seq::filter);
        }
        assert(id_entries(city_name_map) =~= g.index_of(g.cities.take(0)));
    }
    while i < city_count
        invariant
            i <= city_count == cities@.len(),
            g == gazetteer_of(countries@, states@, cities@, text_entries(*place_alias_map)),
            distinct_ids(g.countries),
            distinct_ids(g.states),
            distinct_ids(g.cities),
            g.cities_sound(g.cities.take(i as int)),
            id_entries(city_name_map) == g.index_of(g.cities.take(i as int)),
        decreases city_count - i,
    {
        let city_record = cities.record(i);
        let ghost city = g.cities[i as int];
        let state_record = match states.get(city_record.state_id) {
            Some(state_record) => state_record,
            None => {
                assert(!g.city_sound(g.cities[i as int]));
                return Err(LocationFinderError::Loader);
            },
        };
        let country_record = match countries.get(city_record.country_id) {
            Some(country_record) => country_record,
            None => {
                assert(!g.city_sound(g.cities[i as int]));
                return Err(LocationFinderError::Loader);
            },
        };
        let keys = match city_key_set(place_alias_map, city_record, state_record, country_record) {
            Ok(keys) => keys,
            Err(error) => {
                assert(!g.city_sound(g.cities[i as int]));
                return Err(error);
            },
        };
        let ghost before = id_entries(city_name_map);
        insert_under_keys(&mut city_name_map, keys, city_record.id);
        proof {
            let seen = g.cities.take(i as int);
            let seen_next = g.cities.take(i + 1);
            let after = id_entries(city_name_map);
            assert(seen_next == seen.push(city));
            assert(*state_record == g.state_of(city));
            assert(*country_record == g.country_of(city));
            g.lemma_ids_under_push(seen, city);
            assert forall|key: Seq<char>| #[trigger]
                after.contains_key(key) == g.index_of(seen_next).contains_key(key) by {
                assert(before.contains_key(key) == (g.ids_under(seen, key).len() > 0));
                assert(string_texts(keys@).contains(key) == g.finds(city, key));
            }
            assert forall|key: Seq<char>| #[trigger]
                after.contains_key(key) implies after[key] == g.index_of(seen_next)[key] by {
                assert(string_texts(keys@).contains(key) == g.finds(city, key));
                assert(values_under(after, key) == after[key]);
                assert(values_under(before, key) == g.ids_under(seen, key));
            }
            assert(after =~= g.index_of(seen_next));
            assert forall|k: int| 0 <= k < seen_next.len() implies g.city_sound(
                #[trigger] seen_next[k],
            ) by {
                if k < i {
                    assert(seen_next[k] == seen[k]);
                }
            }
        }
        i += 1;
    }
    assert(g.cities.take(city_count as int) == g.cities);
    Ok(city_name_map)
}

} // verus!
