//! The location records of a process, loaded once, and the resolution of
//! places against them.

use crate::alias::{alias_table, init_place_alias_map};
use crate::error::LocationFinderError;
use crate::index::{gazetteer_of, init_city_name_map, Gazetteer};
use crate::matcher::{partial_match, LocationMatchType, MatchRules, Verdict};
use crate::multimaps::{id_entries, ids_under, string_texts, text_entries};
use crate::normalize::{location_key, normalize_location_str};
use crate::records::{LocationCity, LocationCountry, LocationState};
use crate::seqs::lemma_filter_some;
use crate::table::{by_id, load_records_by_id, IdTable};
use multimap::MultiMap;
use vstd::prelude::*;
use vstd::string::StringExecFns;

verus! {

/// The loaded tables with the alias table and the index built from them.
struct LocationData {
    countries: IdTable<LocationCountry>,
    states: IdTable<LocationState>,
    cities: IdTable<LocationCity>,
    place_alias_map: MultiMap<String, String>,
    city_name_map: MultiMap<String, u64>,
}

impl LocationData {
    spec fn gazetteer(&self) -> Gazetteer {
        gazetteer_of(
            self.countries@,
            self.states@,
            self.cities@,
            text_entries(self.place_alias_map),
        )
    }

    #[verifier::type_invariant]
    spec fn well_formed(&self) -> bool {
        &&& self.gazetteer().sound()
        &&& id_entries(self.city_name_map) == self.gazetteer().index()
    }
}

/// The location records of a process: where the dataset lies, and the
/// records once they are loaded. Both are set at most once; what is loaded
/// does not change afterwards.
///
/// Loading takes the store exclusively and resolving shares it, so that no
/// reader sees records that are half loaded.
pub struct LocationStore {
    location_dataset_dir: Option<String>,
    rules: MatchRules,
    data: Option<LocationData>,
}

/// The directory in which the dataset is looked for when none was set.
pub open spec fn default_dataset_dir() -> Seq<char> {
    "./submodules/countries-states-cities-database/csv"@
}

/// The directory in which the dataset is looked for when none was set.
pub fn init_location_dataset_dir() -> (dir: String)
    ensures
        dir@ == default_dataset_dir(),
{
    "./submodules/countries-states-cities-database/csv".to_string()
}

impl LocationStore {
    /// The directory of the dataset, once it is fixed.
    pub closed spec fn dataset_dir(&self) -> Option<Seq<char>> {
        match self.location_dataset_dir {
            Some(dir) => Some(dir@),
            None => None,
        }
    }

    /// Whether the records are loaded.
    pub closed spec fn is_loaded(&self) -> bool {
        self.data is Some
    }

    /// The gazetteer that is loaded.
    pub closed spec fn gazetteer(&self) -> Gazetteer
        recommends
            self.is_loaded(),
    {
        self.data->0.gazetteer()
    }

    /// A store with no directory fixed and nothing loaded.
    pub fn new() -> (store: LocationStore)
        ensures
            store.dataset_dir() is None,
            !store.is_loaded(),
    {
        LocationStore { location_dataset_dir: None, rules: MatchRules::new(), data: None }
    }

    /// Tells whether the directory of the dataset is fixed.
    pub fn has_dataset_dir(&self) -> (fixed: bool)
        ensures
            fixed == self.dataset_dir() is Some,
    {
        self.location_dataset_dir.is_some()
    }

    /// Tells whether the records are loaded. What is loaded is sound.
    pub fn loaded(&self) -> (loaded: bool)
        ensures
            loaded == self.is_loaded(),
            loaded ==> self.gazetteer().sound(),
    {
        match &self.data {
            Some(data) => {
                proof {
                    use_type_invariant(data);
                }
                true
            },
            None => false,
        }
    }
}

/// Fixes the directory of the dataset, where one is given.
///
/// The directory can be fixed once: a second directory must not be given.
pub fn set_location_dataset_dir(store: &mut LocationStore, location_dataset_dir: Option<String>)
    requires
        location_dataset_dir is Some ==> old(store).dataset_dir() is None,
    ensures
        final(store).dataset_dir() == match location_dataset_dir {
            Some(dir) => Some(dir@),
            None => old(store).dataset_dir(),
        },
        final(store).is_loaded() == old(store).is_loaded(),
        final(store).is_loaded() ==> final(store).gazetteer() == old(store).gazetteer(),
{
    if let Some(location_dataset_dir) = location_dataset_dir {
        store.location_dataset_dir = Some(location_dataset_dir);
    }
}

/// The directory of the dataset. Where none was set, the default is fixed
/// and returned.
pub fn location_dataset_dir(store: &mut LocationStore) -> (dir: String)
    ensures
        dir@ == match old(store).dataset_dir() {
            Some(fixed) => fixed,
            None => default_dataset_dir(),
        },
        final(store).dataset_dir() == Some(dir@),
        final(store).is_loaded() == old(store).is_loaded(),
        final(store).is_loaded() ==> final(store).gazetteer() == old(store).gazetteer(),
{
    if store.location_dataset_dir.is_none() {
        store.location_dataset_dir = Some(init_location_dataset_dir());
    }
    match &store.location_dataset_dir {
        Some(dir) => dir.clone(),
        None => init_location_dataset_dir(),
    }
}

/// The path of a table of the dataset: the directory, a slash, and the
/// table's file name.
pub fn dataset_file(location_dataset_dir: &str, file_name: &str) -> (path: String)
    ensures
        path@ == location_dataset_dir@ + seq!['/'] + file_name@,
{
    proof {
        reveal_strlit("/");
        assert("/"@ == seq!['/']);
    }
    let mut path = String::new();
    path.append(location_dataset_dir);
    path.append("/");
    path.append(file_name);
    path
}

/// Loads the location records: the three tables and the lines of the alias
/// table, and builds the index from lookup keys to cities.
///
/// Succeeds exactly when nothing was loaded before and the gazetteer is
/// sound: no two records of a table share an identifier, every city refers
/// to a state and a country that exist, and every alternate of a city has
/// the form `City, State`. On failure the error is `Loader` and the store
/// is as it was: nothing of what was given is kept.
pub fn load_location_records(
    store: &mut LocationStore,
    countries: Vec<LocationCountry>,
    states: Vec<LocationState>,
    cities: Vec<LocationCity>,
    place_alias_lines: &Vec<String>,
) -> (loaded: Result<(), LocationFinderError>)
    ensures
        loaded is Ok <==> !old(store).is_loaded() && gazetteer_of(
            countries@,
            states@,
            cities@,
            alias_table(string_texts(place_alias_lines@)),
        ).sound(),
        loaded is Ok ==> final(store).is_loaded() && final(store).gazetteer() == gazetteer_of(
            countries@,
            states@,
            cities@,
            alias_table(string_texts(place_alias_lines@)),
        ) && final(store).dataset_dir() == old(store).dataset_dir(),
        loaded is Err ==> loaded->Err_0 is Loader && *final(store) == *old(store),
{
    if store.data.is_some() {
        return Err(LocationFinderError::Loader);
    }
    let countries = match load_records_by_id(countries) {
        Ok(table) => table,
        Err(error) => {
            return Err(error);
        },
    };
    let states = match load_records_by_id(states) {
        Ok(table) => table,
        Err(error) => {
            return Err(error);
        },
    };
    let cities = match load_records_by_id(cities) {
        Ok(table) => table,
        Err(error) => {
            return Err(error);
        },
    };
    let place_alias_map = init_place_alias_map(place_alias_lines);
    let city_name_map = match init_city_name_map(&countries, &states, &cities, &place_alias_map) {
        Ok(city_name_map) => city_name_map,
        Err(error) => {
            return Err(error);
        },
    };
    store.data = Some(LocationData { countries, states, cities, place_alias_map, city_name_map });
    Ok(())
}

/// The city with the identifier `id`, if there is one. While nothing is
/// loaded there is none.
pub fn get_city_by_id(store: &LocationStore, id: u64) -> (found: Option<&LocationCity>)
    ensures
        match found {
            Some(city) => store.is_loaded() && by_id(store.gazetteer().cities, id) == Some(
                *city,
            ),
            None => !store.is_loaded() || by_id(store.gazetteer().cities, id) is None,
        },
{
    match &store.data {
        Some(data) => data.cities.get(id),
        None => None,
    }
}

/// The state with the identifier `id`, if there is one. While nothing is
/// loaded there is none.
pub fn get_state_by_id(store: &LocationStore, id: u64) -> (found: Option<&LocationState>)
    ensures
        match found {
            Some(state) => store.is_loaded() && by_id(store.gazetteer().states, id) == Some(
                *state,
            ),
            None => !store.is_loaded() || by_id(store.gazetteer().states, id) is None,
        },
{
    match &store.data {
        Some(data) => data.states.get(id),
        None => None,
    }
}

/// The country with the identifier `id`, if there is one. While nothing is
/// loaded there is none.
pub fn get_country_by_id(store: &LocationStore, id: u64) -> (found: Option<&LocationCountry>)
    ensures
        match found {
            Some(country) => store.is_loaded() && by_id(store.gazetteer().countries, id) == Some(
                *country,
            ),
            None => !store.is_loaded() || by_id(store.gazetteer().countries, id) is None,
        },
{
    match &store.data {
        Some(data) => data.countries.get(id),
        None => None,
    }
}

/// The state with the identifier `id`, if there is one.
///
/// Fails with `Loader` exactly when nothing is loaded.
pub fn find_state_by_id(store: &LocationStore, state_id: u64) -> (found: Result<
    Option<&LocationState>,
    LocationFinderError,
>)
    ensures
        match found {
            Ok(Some(state)) => store.is_loaded() && by_id(store.gazetteer().states, state_id)
                == Some(*state),
            Ok(None) => store.is_loaded() && by_id(store.gazetteer().states, state_id) is None,
            Err(error) => error is Loader && !store.is_loaded(),
        },
{
    match &store.data {
        Some(data) => Ok(data.states.get(state_id)),
        None => Err(LocationFinderError::Loader),
    }
}

impl LocationData {
    /// Whether `id` is the identifier of a city whose state and country
    /// exist.
    spec fn is_candidate(&self, id: u64) -> bool {
        &&& by_id(self.cities@, id) is Some
        &&& self.gazetteer().city(id).id == id
        &&& self.gazetteer().city_sound(self.gazetteer().city(id))
    }

    /// Judges the candidates that were found by city and country alone, in
    /// order, for the state fragment `state`.
    fn reconcile(&self, rules: &MatchRules, city_name_matches: &Vec<u64>, state: &str) -> (outcome:
        LocationMatchType)
        requires
            forall|k: int|
                0 <= k < city_name_matches@.len() ==> self.is_candidate(
                    #[trigger] city_name_matches@[k],
                ),
        ensures
            outcome == self.gazetteer().reconcile(city_name_matches@, state@),
    {
        let ghost g = self.gazetteer();
        let ghost ids = city_name_matches@;
        let mut partial_matches: Vec<LocationMatchType> = Vec::new();
        let mut i: usize = 0;
        proof {
            reveal(Seq::filter);
            assert(ids.take(0) == Seq::<u64>::empty());
        }
        while i < city_name_matches.len()
            invariant
                i <= city_name_matches.len(),
                city_name_matches@ == ids,
                g == self.gazetteer(),
                forall|k: int| 0 <= k < ids.len() ==> self.is_candidate(#[trigger] ids[k]),
                g.accepted(ids.take(i as int), state@).len() == 0,
                partial_matches@ == g.unreconciled(ids.take(i as int), state@).map_values(
                    |id: u64| partial_match(g.city(id)),
                ),
            decreases city_name_matches.len() - i,
        {
            let city_id = city_name_matches[i];
            proof {
                assert(self.is_candidate(ids[i as int]));
                assert(ids.take(i + 1) == ids.take(i as int).push(city_id));
                ids.take(i as int).lemma_filter_push(
                    city_id,
                    |id: u64| g.verdict(id, state@) is Accepted,
                );
                ids.take(i as int).lemma_filter_push(
                    city_id,
                    |id: u64| g.verdict(id, state@) is Unreconciled,
                );
            }
            let city_record = self.cities.get(city_id).unwrap();
            let country_record = self.countries.get(city_record.country_id).unwrap();
            let state_record = self.states.get(city_record.state_id).unwrap();
            match rules.judge_candidate(
                country_record.name.as_str(),
                state_record.name.as_str(),
                state,
            ) {
                Verdict::Skipped => {},
                Verdict::Accepted => {
                    proof {
                        let accepts = |id: u64| g.verdict(id, state@) is Accepted;
                        let seen = ids.take(i as int);
                        assert forall|k: int| 0 <= k < i implies !accepts(ids[k]) by {
                            if accepts(ids[k]) {
                                assert(seen[k] == ids[k]);
                                lemma_filter_some(seen, accepts, k);
                            }
                        }
                        lemma_filter_some(ids, accepts, i as int);
                    }
                    return LocationMatchType::FullMatch {
                        city: city_record.id,
                        state: city_record.state_id,
                        country: city_record.country_id,
                    };
                },
                Verdict::Unreconciled => {
                    let ghost before = g.unreconciled(ids.take(i as int), state@);
                    assert(before.push(city_id).map_values(|id: u64| partial_match(g.city(id)))
                        == before.map_values(|id: u64| partial_match(g.city(id))).push(
                        partial_match(g.city(city_id)),
                    ));
                    partial_matches.push(
                        LocationMatchType::PartialMatch {
                            city: city_record.id,
                            country: city_record.country_id,
                            unmatched_state: city_record.state_id,
                        },
                    );
                },
            }
            i += 1;
        }
        assert(ids.take(ids.len() as int) == ids);
        if partial_matches.len() == 1 {
            return partial_matches[0];
        }
        LocationMatchType::NoMatch
    }

    /// The candidates under `key`, with what holds of each of them.
    fn candidates(&self, key: &str) -> (found: Option<&Vec<u64>>)
        ensures
            match found {
                Some(ids) => {
                    &&& ids@ == self.gazetteer().candidates(key@)
                    &&& ids@.len() > 0
                    &&& forall|k: int| 0 <= k < ids@.len() ==> self.is_candidate(#[trigger] ids@[k])
                },
                None => self.gazetteer().candidates(key@).len() == 0,
            },
    {
        proof {
            use_type_invariant(self);
        }
        let found = ids_under(&self.city_name_map, key);
        proof {
            let g = self.gazetteer();
            assert forall|k: int| 0 <= k < g.candidates(key@).len() implies self.is_candidate(
                #[trigger] g.candidates(key@)[k],
            ) by {
                g.lemma_candidate(key@, k);
            }
        }
        found
    }
}

/// Resolves a place given as free text.
///
/// The three texts are normalized. A city found under the key of city,
/// state and country gives a full match. Otherwise the cities found under
/// the key of city and country are judged in order: the first that is
/// accepted gives a full match; where none is accepted and exactly one is
/// left with its state unreconciled, that one gives a partial match; in
/// every other case there is no match.
///
/// Several unreconciled candidates are ambiguous and give no match. To
/// return the first of them instead would be the other possible policy; it
/// would prefer one of several equally doubtful cities by load order alone,
/// and is not offered.
///
/// Fails with `Loader` exactly when nothing is loaded.
pub fn find_location(store: &LocationStore, city_in: &str, state_in: &str, country_in: &str) -> (found:
    Result<LocationMatchType, LocationFinderError>)
    ensures
        match found {
            Ok(outcome) => store.is_loaded() && outcome == store.gazetteer().resolve(
                city_in@,
                state_in@,
                country_in@,
            ),
            Err(error) => error is Loader && !store.is_loaded(),
        },
{
    let data = match &store.data {
        Some(data) => data,
        None => {
            return Err(LocationFinderError::Loader);
        },
    };
    let city = normalize_location_str(city_in);
    let state = normalize_location_str(state_in);
    let country = normalize_location_str(country_in);

    let city_map_key = location_key(
        Some(city.as_str()),
        Some(state.as_str()),
        Some(country.as_str()),
    );
    if let Some(city_name_matches) = data.candidates(city_map_key.as_str()) {
        let city_id = city_name_matches[0];
        assert(data.is_candidate(city_name_matches@[0]));
        let city_record = data.cities.get(city_id).unwrap();
        let state_record = data.states.get(city_record.state_id).unwrap();
        let country_record = data.countries.get(city_record.country_id).unwrap();
        return Ok(
            LocationMatchType::FullMatch {
                city: city_record.id,
                state: state_record.id,
                country: country_record.id,
            },
        );
    }
    let city_map_key = location_key(Some(city.as_str()), None, Some(country.as_str()));
    match data.candidates(city_map_key.as_str()) {
        Some(city_name_matches) => Ok(
            data.reconcile(&store.rules, city_name_matches, state.as_str()),
        ),
        None => {
            proof {
                reveal(Seq::filter);
            }
            Ok(LocationMatchType::NoMatch)
        },
    }
}

} // verus!
