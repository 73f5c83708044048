use location_finder::batch::{count_matches, place_display_name, LocationInput, OrgRecord};
use location_finder::error::LocationFinderError;
use location_finder::matcher::LocationMatchType;
use location_finder::records::{LocationCity, LocationCountry, LocationState};
use location_finder::store::{
    dataset_file, find_location, find_state_by_id, get_city_by_id, get_country_by_id,
    get_state_by_id, init_location_dataset_dir, load_location_records, location_dataset_dir,
    set_location_dataset_dir, LocationStore,
};

fn country(id: u64, name: &str, iso2: &str, iso3: &str) -> LocationCountry {
    LocationCountry {
        id,
        name: name.to_string(),
        iso3: iso3.to_string(),
        iso2: iso2.to_string(),
        numeric_code: 0,
        phone_code: String::new(),
        capital: String::new(),
        currency: String::new(),
        currency_name: String::new(),
        currency_symbol: String::new(),
        tld: String::new(),
        native: String::new(),
        region: String::new(),
        subregion: String::new(),
        timezones: String::new(),
        emoji: String::new(),
        emoji_u: String::new(),
    }
}

fn state(id: u64, name: &str, code: &str, of: &LocationCountry) -> LocationState {
    LocationState {
        id,
        name: name.to_string(),
        country_id: of.id,
        country_code: of.iso2.clone(),
        country_name: of.name.clone(),
        state_code: code.to_string(),
        state_type: String::new(),
    }
}

fn city(id: u64, name: &str, of: &LocationState) -> LocationCity {
    LocationCity {
        id,
        name: name.to_string(),
        state_id: of.id,
        state_code: of.state_code.clone(),
        state_name: of.name.clone(),
        country_id: of.country_id,
        country_code: of.country_code.clone(),
        country_name: of.country_name.clone(),
        wiki_data_id: String::new(),
    }
}

fn countries() -> Vec<LocationCountry> {
    vec![
        country(1, "France", "FR", "FRA"),
        country(2, "Italy", "IT", "ITA"),
        country(3, "United States", "US", "USA"),
        country(4, "United Kingdom", "GB", "GBR"),
        country(5, "Germany", "DE", "DEU"),
    ]
}

fn states() -> Vec<LocationState> {
    let countries = countries();
    vec![
        state(10, "Île-de-France", "IDF", &countries[0]),
        state(20, "Lombardy", "25", &countries[1]),
        state(30, "Texas", "TX", &countries[2]),
        state(31, "Illinois", "IL", &countries[2]),
        state(40, "England", "ENG", &countries[3]),
        state(50, "Bavaria", "BY", &countries[4]),
        state(51, "Saxony", "SN", &countries[4]),
        state(52, "Hesse", "HE", &countries[4]),
    ]
}

fn cities() -> Vec<LocationCity> {
    let states = states();
    vec![
        city(100, "Paris", &states[0]),
        city(200, "Milan", &states[1]),
        city(300, "Paris", &states[2]),
        city(301, "Springfield", &states[3]),
        city(400, "London", &states[4]),
        city(500, "Neustadt", &states[5]),
        city(501, "Neustadt", &states[6]),
        city(502, "Kassel", &states[7]),
    ]
}

fn lines(lines: &[&str]) -> Vec<String> {
    lines.iter().map(|line| line.to_string()).collect()
}

fn loaded(aliases: &[&str]) -> LocationStore {
    let mut store = LocationStore::new();
    load_location_records(&mut store, countries(), states(), cities(), &lines(aliases)).unwrap();
    store
}

fn full(city: u64, state: u64, country: u64) -> LocationMatchType {
    LocationMatchType::FullMatch { city, state, country }
}

fn partial(city: u64, country: u64, unmatched_state: u64) -> LocationMatchType {
    LocationMatchType::PartialMatch { city, country, unmatched_state }
}

#[test]
fn exact_match_ignores_diacritics() {
    let store = loaded(&[]);
    assert_eq!(find_location(&store, "Paris", "Ile-de-France", "France").unwrap(), full(100, 10, 1));
    assert_eq!(find_location(&store, "Paris", "Île-de-France", "France").unwrap(), full(100, 10, 1));
    assert_eq!(find_location(&store, " paris ", "ILE-DE-FRANCE", "france").unwrap(), full(100, 10, 1));
}

#[test]
fn words_of_the_state_must_agree() {
    let store = loaded(&[]);
    assert_eq!(
        find_location(&store, "Paris", "Ile de France", "France").unwrap(),
        partial(100, 1, 10)
    );
}

#[test]
fn exact_match_by_codes() {
    let store = loaded(&[]);
    assert_eq!(find_location(&store, "Paris", "IDF", "France").unwrap(), full(100, 10, 1));
    assert_eq!(find_location(&store, "Paris", "IDF", "FR").unwrap(), full(100, 10, 1));
    assert_eq!(find_location(&store, "Paris", "IDF", "FRA").unwrap(), full(100, 10, 1));
    assert_eq!(find_location(&store, "Paris", "TX", "US").unwrap(), full(300, 30, 3));
    assert_eq!(find_location(&store, "Paris", "Texas", "United States").unwrap(), full(300, 30, 3));
}

#[test]
fn exact_match_in_a_skipped_country() {
    let store = loaded(&[]);
    assert_eq!(
        find_location(&store, "Springfield", "Illinois", "United States").unwrap(),
        full(301, 31, 3)
    );
}

#[test]
fn skipped_country_gives_no_match_without_the_state() {
    let store = loaded(&[]);
    assert_eq!(
        find_location(&store, "Paris", "Ontario", "United States").unwrap(),
        LocationMatchType::NoMatch
    );
    assert_eq!(
        find_location(&store, "Springfield", "", "United States").unwrap(),
        LocationMatchType::NoMatch
    );
    assert_eq!(
        find_location(&store, "Springfield", "Illinoi", "USA").unwrap(),
        LocationMatchType::NoMatch
    );
}

#[test]
fn override_country_gives_full_match_whatever_the_state() {
    let store = loaded(&[]);
    assert_eq!(find_location(&store, "London", "Wessex", "United Kingdom").unwrap(), full(400, 40, 4));
    assert_eq!(find_location(&store, "London", "", "GB").unwrap(), full(400, 40, 4));
    assert_eq!(find_location(&store, "London", "Greater London", "GBR").unwrap(), full(400, 40, 4));
}

#[test]
fn state_that_is_part_of_the_name_is_accepted() {
    let store = loaded(&[]);
    assert_eq!(find_location(&store, "Neustadt", "Bavar", "Germany").unwrap(), full(500, 50, 5));
    assert_eq!(find_location(&store, "Neustadt", "Free State of Saxony", "Germany").unwrap(), full(501, 51, 5));
    assert_eq!(find_location(&store, "Kassel", "", "Germany").unwrap(), full(502, 52, 5));
}

#[test]
fn empty_state_accepts_the_first_candidate() {
    let store = loaded(&[]);
    assert_eq!(find_location(&store, "Neustadt", "", "Germany").unwrap(), full(500, 50, 5));
    assert_eq!(find_location(&store, "Paris", "", "FRA").unwrap(), full(100, 10, 1));
}

#[test]
fn equivalent_state_names_are_accepted_both_ways() {
    let store = loaded(&[]);
    assert_eq!(find_location(&store, "Milan", "Lombardia", "Italy").unwrap(), full(200, 20, 2));
    assert_eq!(find_location(&store, "Milan", "Lombardy", "Italy").unwrap(), full(200, 20, 2));
    assert_eq!(find_location(&store, "Neustadt", "Bayern", "Germany").unwrap(), full(500, 50, 5));
    assert_eq!(find_location(&store, "Neustadt", "Sachsen", "Germany").unwrap(), full(501, 51, 5));

    let italy = country(2, "Italy", "IT", "ITA");
    let lombardia = state(20, "Lombardia", "25", &italy);
    let milano = city(200, "Milan", &lombardia);
    let mut store = LocationStore::new();
    load_location_records(&mut store, vec![italy], vec![lombardia], vec![milano], &Vec::new()).unwrap();
    assert_eq!(find_location(&store, "Milan", "Lombardy", "Italy").unwrap(), full(200, 20, 2));
    assert_eq!(find_location(&store, "Milan", "Lombardia", "Italy").unwrap(), full(200, 20, 2));
}

#[test]
fn single_unreconciled_candidate_is_a_partial_match() {
    let store = loaded(&[]);
    assert_eq!(find_location(&store, "Kassel", "Thuringia", "Germany").unwrap(), partial(502, 5, 52));
    assert_eq!(find_location(&store, "Milan", "Piedmont", "ITA").unwrap(), partial(200, 2, 20));
    assert_eq!(find_location(&store, "Paris", "Normandy", "France").unwrap(), partial(100, 1, 10));
}

#[test]
fn several_unreconciled_candidates_are_no_match() {
    let store = loaded(&[]);
    assert_eq!(
        find_location(&store, "Neustadt", "Thuringia", "Germany").unwrap(),
        LocationMatchType::NoMatch
    );
    assert_eq!(
        find_location(&store, "Neustadt", "Thuringia", "DE").unwrap(),
        LocationMatchType::NoMatch
    );
}

#[test]
fn unknown_place_is_no_match() {
    let store = loaded(&[]);
    assert_eq!(find_location(&store, "Atlantis", "", "").unwrap(), LocationMatchType::NoMatch);
    assert_eq!(find_location(&store, "Paris", "Île-de-France", "Spain").unwrap(), LocationMatchType::NoMatch);
    assert_eq!(find_location(&store, "", "", "").unwrap(), LocationMatchType::NoMatch);
}

#[test]
fn city_alternates_are_found() {
    let store = loaded(&["Milan, Lombardy, Italy | Milano, Lombardia", "", "not an entry"]);
    assert_eq!(find_location(&store, "Milano", "Lombardia", "Italy").unwrap(), full(200, 20, 2));
    assert_eq!(find_location(&store, "Milano", "Lombardy", "IT").unwrap(), full(200, 20, 2));
    assert_eq!(find_location(&store, "Milano", "25", "ITA").unwrap(), full(200, 20, 2));
    assert_eq!(find_location(&store, "Milano", "Veneto", "Italy").unwrap(), partial(200, 2, 20));
    let store = loaded(&[]);
    assert_eq!(find_location(&store, "Milano", "Lombardia", "Italy").unwrap(), LocationMatchType::NoMatch);
}

#[test]
fn state_alternates_are_found() {
    let store = loaded(&["Hesse, Germany | Hassia"]);
    assert_eq!(find_location(&store, "Kassel", "Hassia", "Germany").unwrap(), full(502, 52, 5));
    let store = loaded(&[]);
    assert_eq!(find_location(&store, "Kassel", "Hassia", "Germany").unwrap(), partial(502, 5, 52));
}

#[test]
fn candidates_stand_in_load_order() {
    let france = country(1, "France", "FR", "FRA");
    let first = state(10, "Nord", "N", &france);
    let second = state(11, "Sud", "N", &france);
    let cities = vec![city(7, "Ville", &second), city(3, "Ville", &first)];
    let mut store = LocationStore::new();
    load_location_records(&mut store, vec![france], vec![first, second], cities, &Vec::new()).unwrap();
    assert_eq!(find_location(&store, "Ville", "N", "France").unwrap(), full(7, 11, 1));
    assert_eq!(find_location(&store, "Ville", "Nord", "France").unwrap(), full(3, 10, 1));
    assert_eq!(find_location(&store, "Ville", "d", "France").unwrap(), full(7, 11, 1));
    assert_eq!(find_location(&store, "Ville", "or", "France").unwrap(), full(3, 10, 1));
}

#[test]
fn nothing_loaded_is_an_error() {
    let store = LocationStore::new();
    assert!(!store.loaded());
    assert!(matches!(find_location(&store, "Paris", "", "France"), Err(LocationFinderError::Loader)));
    assert!(matches!(find_state_by_id(&store, 10), Err(LocationFinderError::Loader)));
    assert!(get_city_by_id(&store, 100).is_none());
    assert!(get_state_by_id(&store, 10).is_none());
    assert!(get_country_by_id(&store, 1).is_none());
}

#[test]
fn duplicate_id_fails_the_load_and_keeps_nothing() {
    let mut doubled = cities();
    doubled.push(doubled[0].clone());
    let mut store = LocationStore::new();
    let failed = load_location_records(&mut store, countries(), states(), doubled, &Vec::new());
    assert!(matches!(failed, Err(LocationFinderError::Loader)));
    assert!(!store.loaded());
    assert!(matches!(find_location(&store, "Paris", "", "France"), Err(LocationFinderError::Loader)));

    let mut doubled = countries();
    doubled.push(country(1, "Elsewhere", "EW", "ELS"));
    assert!(load_location_records(&mut store, doubled, states(), cities(), &Vec::new()).is_err());
    assert!(!store.loaded());

    let mut doubled = states();
    doubled.insert(0, doubled[3].clone());
    assert!(load_location_records(&mut store, countries(), doubled, cities(), &Vec::new()).is_err());
    assert!(!store.loaded());

    assert!(load_location_records(&mut store, countries(), states(), cities(), &Vec::new()).is_ok());
    assert!(store.loaded());
    assert_eq!(find_location(&store, "Paris", "Ile-de-France", "France").unwrap(), full(100, 10, 1));
}

#[test]
fn load_fails_on_missing_state_or_country() {
    let mut store = LocationStore::new();
    let mut fewer = states();
    fewer.remove(1);
    assert!(load_location_records(&mut store, countries(), fewer, cities(), &Vec::new()).is_err());
    assert!(!store.loaded());
    let mut fewer = countries();
    fewer.remove(4);
    assert!(load_location_records(&mut store, fewer, states(), cities(), &Vec::new()).is_err());
    assert!(!store.loaded());
}

#[test]
fn load_fails_on_alternate_without_state() {
    let mut store = LocationStore::new();
    let failed = load_location_records(
        &mut store,
        countries(),
        states(),
        cities(),
        &lines(&["Milan, Lombardy, Italy | Milano"]),
    );
    assert!(matches!(failed, Err(LocationFinderError::Loader)));
    assert!(!store.loaded());
}

#[test]
fn records_are_loaded_once() {
    let mut store = loaded(&[]);
    let again = load_location_records(&mut store, Vec::new(), Vec::new(), Vec::new(), &Vec::new());
    assert!(matches!(again, Err(LocationFinderError::Loader)));
    assert!(store.loaded());
    assert_eq!(find_location(&store, "Paris", "Ile-de-France", "France").unwrap(), full(100, 10, 1));
}

#[test]
fn empty_gazetteer_loads() {
    let mut store = LocationStore::new();
    load_location_records(&mut store, Vec::new(), Vec::new(), Vec::new(), &Vec::new()).unwrap();
    assert_eq!(find_location(&store, "Paris", "", "France").unwrap(), LocationMatchType::NoMatch);
}

#[test]
fn records_are_found_by_id() {
    let store = loaded(&[]);
    assert_eq!(get_city_by_id(&store, 200).unwrap().name, "Milan");
    assert!(get_city_by_id(&store, 201).is_none());
    assert_eq!(get_state_by_id(&store, 20).unwrap().name, "Lombardy");
    assert!(get_state_by_id(&store, 21).is_none());
    assert_eq!(get_country_by_id(&store, 2).unwrap().name, "Italy");
    assert!(get_country_by_id(&store, 9).is_none());
    assert_eq!(find_state_by_id(&store, 52).unwrap().unwrap().name, "Hesse");
    assert!(find_state_by_id(&store, 53).unwrap().is_none());
}

#[test]
fn dataset_dir_is_fixed_once() {
    let mut store = LocationStore::new();
    assert!(!store.has_dataset_dir());
    set_location_dataset_dir(&mut store, None);
    assert!(!store.has_dataset_dir());
    set_location_dataset_dir(&mut store, Some("/data/csv".to_string()));
    assert!(store.has_dataset_dir());
    set_location_dataset_dir(&mut store, None);
    assert_eq!(location_dataset_dir(&mut store), "/data/csv");
    assert_eq!(location_dataset_dir(&mut store), "/data/csv");
}

#[test]
fn dataset_dir_defaults() {
    assert_eq!(init_location_dataset_dir(), "./submodules/countries-states-cities-database/csv");
    let mut store = LocationStore::new();
    assert_eq!(location_dataset_dir(&mut store), "./submodules/countries-states-cities-database/csv");
    assert!(store.has_dataset_dir());
    assert_eq!(dataset_file("/data/csv", "cities.csv"), "/data/csv/cities.csv");
    assert_eq!(dataset_file("", ""), "/");
}

#[test]
fn inputs_are_resolved_and_counted() {
    let store = loaded(&[]);
    let input = |id: u64, city: &str, state: &str, country: &str| LocationInput {
        id,
        city: city.to_string(),
        state: state.to_string(),
        country: country.to_string(),
    };
    let inputs = vec![
        input(1, "Paris", "Ile-de-France", "France"),
        input(2, "Kassel", "Thuringia", "Germany"),
        input(3, "Atlantis", "", ""),
        input(4, "London", "", "United Kingdom"),
        input(5, "Neustadt", "Thuringia", "Germany"),
    ];
    let outcomes: Vec<LocationMatchType> = inputs.iter().map(|input| input.find(&store).unwrap()).collect();
    assert_eq!(outcomes[0], full(100, 10, 1));
    assert_eq!(outcomes[1], partial(502, 5, 52));
    let counts = count_matches(&outcomes);
    assert_eq!(counts.total(), 5);
    assert_eq!(counts.full(), 2);
    assert_eq!(counts.partial(), 1);
    assert_eq!(counts.matched(), 3);
    assert_eq!(counts.unmatched(), 2);
    assert_eq!(inputs[1].display_name(), "Kassel, Thuringia, Germany");
    assert!(matches!(inputs[0].find(&LocationStore::new()), Err(LocationFinderError::Loader)));
}

#[test]
fn counts_of_nothing_are_zero() {
    let counts = count_matches(&Vec::new());
    assert_eq!(counts.total(), 0);
    assert_eq!(counts.matched(), 0);
    assert_eq!(counts.unmatched(), 0);
}

#[test]
fn display_names() {
    assert_eq!(place_display_name("Milan", "Lombardy", "Italy"), "Milan, Lombardy, Italy");
    assert_eq!(place_display_name("", "", ""), ", , ");
    let org = OrgRecord {
        id: 1,
        org_handle: "acme".to_string(),
        name: "Acme".to_string(),
        website: "https://acme.example".to_string(),
        location_id: 4,
        favicon: None,
        city: "London".to_string(),
        state: "".to_string(),
        country: "United Kingdom".to_string(),
    };
    assert_eq!(org.display_name(), "London, , United Kingdom");
}
