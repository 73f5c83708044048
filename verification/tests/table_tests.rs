use location_finder::error::LocationFinderError;
use location_finder::records::{LocationBase, LocationCity, LocationCountry, LocationState};
use location_finder::table::{load_records, load_records_by_id, IdTable};

fn country(id: u64, name: &str) -> LocationCountry {
    LocationCountry {
        id,
        name: name.to_string(),
        iso3: "ZZZ".to_string(),
        iso2: "ZZ".to_string(),
        numeric_code: 0,
        phone_code: String::new(),
        capital: String::new(),
        currency: String::new(),
        currency_name: String::new(),
        currency_symbol: String::new(),
        tld: String::new(),
        native: String::new(),
        region: String::new(),
        subregion: String::new(),
        timezones: String::new(),
        emoji: String::new(),
        emoji_u: String::new(),
    }
}

#[test]
fn records_give_id_and_name() {
    let france = country(75, "France");
    assert_eq!(france.id(), 75);
    assert_eq!(france.name(), "France");
    let state = LocationState {
        id: 4796,
        name: "Île-de-France".to_string(),
        country_id: 75,
        country_code: "FR".to_string(),
        country_name: "France".to_string(),
        state_code: "IDF".to_string(),
        state_type: "region".to_string(),
    };
    assert_eq!(state.id(), 4796);
    assert_eq!(state.name(), "Île-de-France");
    let city = LocationCity {
        id: 44856,
        name: "Paris".to_string(),
        state_id: 4796,
        state_code: "IDF".to_string(),
        state_name: "Île-de-France".to_string(),
        country_id: 75,
        country_code: "FR".to_string(),
        country_name: "France".to_string(),
        wiki_data_id: "Q90".to_string(),
    };
    assert_eq!(city.id(), 44856);
    assert_eq!(city.name(), "Paris");
}

#[test]
fn table_finds_records_by_id() {
    let table = load_records_by_id(vec![country(1, "France"), country(7, "Italy"), country(3, "Spain")])
        .unwrap();
    assert_eq!(table.len(), 3);
    assert_eq!(table.get(7).unwrap().name, "Italy");
    assert_eq!(table.get(1).unwrap().name, "France");
    assert_eq!(table.get(3).unwrap().name, "Spain");
    assert!(table.get(2).is_none());
    assert_eq!(table.record(0).id, 1);
    assert_eq!(table.record(1).id, 7);
    assert_eq!(table.record(2).id, 3);
}

#[test]
fn empty_table_loads() {
    let table = load_records_by_id(Vec::<LocationCountry>::new()).unwrap();
    assert_eq!(table.len(), 0);
    assert!(table.get(0).is_none());
}

#[test]
fn duplicate_id_fails_the_load() {
    let loaded = load_records_by_id(vec![country(1, "France"), country(2, "Italy"), country(1, "Spain")]);
    assert!(matches!(loaded, Err(LocationFinderError::Loader)));
    let loaded = load_records_by_id(vec![country(5, "France"), country(5, "France")]);
    assert!(matches!(loaded, Err(LocationFinderError::Loader)));
}

#[test]
fn slot_is_filled_once() {
    let mut slot: Option<IdTable<LocationCountry>> = None;
    assert!(load_records(vec![country(1, "France")], &mut slot).is_ok());
    assert_eq!(slot.as_ref().unwrap().len(), 1);
    let again = load_records(vec![country(2, "Italy")], &mut slot);
    assert!(matches!(again, Err(LocationFinderError::Loader)));
    assert_eq!(slot.as_ref().unwrap().len(), 1);
    assert_eq!(slot.as_ref().unwrap().get(1).unwrap().name, "France");
    assert!(slot.as_ref().unwrap().get(2).is_none());
}

#[test]
fn slot_stays_empty_after_duplicates() {
    let mut slot: Option<IdTable<LocationCountry>> = None;
    let loaded = load_records(vec![country(1, "France"), country(1, "Italy")], &mut slot);
    assert!(matches!(loaded, Err(LocationFinderError::Loader)));
    assert!(slot.is_none());
    assert!(load_records(vec![country(1, "France"), country(2, "Italy")], &mut slot).is_ok());
    assert_eq!(slot.as_ref().unwrap().len(), 2);
}

#[test]
fn error_messages() {
    assert_eq!(LocationFinderError::Loader.message(), "Error loading location records");
    let broken = csv::Reader::from_reader("a,b\n1,2,3\n".as_bytes()).records().nth(0).unwrap();
    let error = LocationFinderError::from(broken.unwrap_err());
    assert!(matches!(error, LocationFinderError::CSV(_)));
    assert_eq!(error.message(), "Error parsing CSV file");
}
