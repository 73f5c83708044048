use location_finder::alias::init_place_alias_map;
use location_finder::error::LocationFinderError;
use location_finder::keys::{add_keys, city_key_set, contains_key_text, list_city_location_keys};
use location_finder::records::{LocationCity, LocationCountry, LocationState};

fn milan() -> LocationCity {
    LocationCity {
        id: 200,
        name: "Milan".to_string(),
        state_id: 20,
        state_code: "ignored".to_string(),
        state_name: "Lombardy".to_string(),
        country_id: 2,
        country_code: "ignored".to_string(),
        country_name: "Italy".to_string(),
        wiki_data_id: "Q490".to_string(),
    }
}

fn lombardy() -> LocationState {
    LocationState {
        id: 20,
        name: "Lombardy".to_string(),
        country_id: 2,
        country_code: "IT".to_string(),
        country_name: "Italy".to_string(),
        state_code: "25".to_string(),
        state_type: "region".to_string(),
    }
}

fn italy() -> LocationCountry {
    LocationCountry {
        id: 2,
        name: "Italy".to_string(),
        iso3: "ITA".to_string(),
        iso2: "IT".to_string(),
        numeric_code: 380,
        phone_code: "39".to_string(),
        capital: "Rome".to_string(),
        currency: "EUR".to_string(),
        currency_name: "Euro".to_string(),
        currency_symbol: "€".to_string(),
        tld: ".it".to_string(),
        native: "Italia".to_string(),
        region: "Europe".to_string(),
        subregion: "Southern Europe".to_string(),
        timezones: String::new(),
        emoji: String::new(),
        emoji_u: String::new(),
    }
}

fn lines(lines: &[&str]) -> Vec<String> {
    lines.iter().map(|line| line.to_string()).collect()
}

fn sorted(mut keys: Vec<String>) -> Vec<String> {
    keys.sort();
    keys
}

#[test]
fn seven_keys_of_a_city() {
    let keys = list_city_location_keys(&milan(), &lombardy(), &italy(), None, None);
    assert_eq!(
        keys,
        vec![
            "milan_lombardy_italy",
            "milan_italy",
            "milan_25_italy",
            "milan_25_it",
            "milan_it",
            "milan_25_ita",
            "milan_ita",
        ]
    );
}

#[test]
fn seven_keys_under_alternate_names() {
    let keys =
        list_city_location_keys(&milan(), &lombardy(), &italy(), Some("Milano"), Some("Lombardia"));
    assert_eq!(
        keys,
        vec![
            "milano_lombardia_italy",
            "milano_italy",
            "milano_25_italy",
            "milano_25_it",
            "milano_it",
            "milano_25_ita",
            "milano_ita",
        ]
    );
    let keys = list_city_location_keys(&milan(), &lombardy(), &italy(), None, Some("Lombardia"));
    assert_eq!(keys[0], "milan_lombardia_italy");
    assert_eq!(keys[1], "milan_italy");
    let keys = list_city_location_keys(&milan(), &lombardy(), &italy(), Some("Milano"), None);
    assert_eq!(keys[0], "milano_lombardy_italy");
}

#[test]
fn add_keys_keeps_each_key_once() {
    let mut keys = vec!["a".to_string(), "b".to_string()];
    add_keys(&mut keys, vec!["b".to_string(), "c".to_string(), "c".to_string(), "a".to_string()]);
    assert_eq!(keys, vec!["a", "b", "c"]);
    assert!(contains_key_text(&keys, &"c".to_string()));
    assert!(!contains_key_text(&keys, &"d".to_string()));
}

#[test]
fn key_set_without_aliases_is_the_seven_keys() {
    let aliases = init_place_alias_map(&Vec::new());
    let keys = city_key_set(&aliases, &milan(), &lombardy(), &italy()).unwrap();
    assert_eq!(keys.len(), 7);
    assert_eq!(keys[0], "milan_lombardy_italy");
}

#[test]
fn key_set_has_no_duplicates() {
    let mut city = milan();
    city.state_name = "25".to_string();
    let aliases = init_place_alias_map(&Vec::new());
    let keys = city_key_set(&aliases, &city, &lombardy(), &italy()).unwrap();
    assert_eq!(keys, vec!["milan_25_italy", "milan_italy", "milan_25_it", "milan_it", "milan_25_ita", "milan_ita"]);
}

#[test]
fn key_set_with_city_alternate() {
    let aliases = init_place_alias_map(&lines(&["Milan, Lombardy, Italy | Milano, Lombardia"]));
    let keys = sorted(city_key_set(&aliases, &milan(), &lombardy(), &italy()).unwrap());
    let expected = sorted(
        [
            "milan_lombardy_italy",
            "milan_italy",
            "milan_25_italy",
            "milan_25_it",
            "milan_it",
            "milan_25_ita",
            "milan_ita",
            "milano_lombardia_italy",
            "milano_italy",
            "milano_25_italy",
            "milano_25_it",
            "milano_it",
            "milano_25_ita",
            "milano_ita",
            "milan_lombardia_italy",
            "milano_lombardy_italy",
        ]
        .iter()
        .map(|key| key.to_string())
        .collect(),
    );
    assert_eq!(keys, expected);
}

#[test]
fn key_set_with_alternate_for_the_city_alone() {
    let aliases = init_place_alias_map(&lines(&["Milan, Lombardy, Italy | Milano, Lombardy"]));
    let keys = city_key_set(&aliases, &milan(), &lombardy(), &italy()).unwrap();
    assert_eq!(keys.len(), 14);
    assert!(keys.contains(&"milano_lombardy_italy".to_string()));
    assert!(!keys.contains(&"milan_lombardia_italy".to_string()));
}

#[test]
fn key_set_with_alternate_equal_to_the_names() {
    let aliases = init_place_alias_map(&lines(&["Milan, Lombardy, Italy | Milan, Lombardy"]));
    let keys = city_key_set(&aliases, &milan(), &lombardy(), &italy()).unwrap();
    assert_eq!(keys.len(), 7);
}

#[test]
fn key_set_with_state_alternate() {
    let aliases = init_place_alias_map(&lines(&["Lombardy, Italy | Lombardia", "Lombardy, Italy | Lombardy"]));
    let keys = city_key_set(&aliases, &milan(), &lombardy(), &italy()).unwrap();
    assert_eq!(keys.len(), 8);
    assert_eq!(keys[7], "milan_lombardia_italy");
}

#[test]
fn key_set_fails_on_alternate_without_state() {
    let aliases = init_place_alias_map(&lines(&[
        "Milan, Lombardy, Italy | Milano, Lombardia",
        "Milan, Lombardy, Italy | Mailand",
    ]));
    let keys = city_key_set(&aliases, &milan(), &lombardy(), &italy());
    assert!(matches!(keys, Err(LocationFinderError::Loader)));
}
