use location_finder::alias::{
    find_alias_city_names, find_alias_state_names, init_place_alias_map, place_alias_sort_key,
    split_trimmed,
};
use location_finder::records::{LocationCity, LocationState};

fn lines(lines: &[&str]) -> Vec<String> {
    lines.iter().map(|line| line.to_string()).collect()
}

fn milan() -> LocationCity {
    LocationCity {
        id: 200,
        name: "Milan".to_string(),
        state_id: 20,
        state_code: "25".to_string(),
        state_name: "Lombardy".to_string(),
        country_id: 2,
        country_code: "IT".to_string(),
        country_name: "Italy".to_string(),
        wiki_data_id: String::new(),
    }
}

fn lombardy() -> LocationState {
    LocationState {
        id: 20,
        name: "Lombardy".to_string(),
        country_id: 2,
        country_code: "IT".to_string(),
        country_name: "Italy".to_string(),
        state_code: "25".to_string(),
        state_type: String::new(),
    }
}

fn fields(text: &str, sep: char) -> Vec<String> {
    split_trimmed(text, sep).into_iter().map(|field| field.into_iter().collect()).collect()
}

#[test]
fn split_trimmed_trims_each_field() {
    assert_eq!(fields(" Milan, Lombardy , Italy ", ','), vec!["Milan", "Lombardy", "Italy"]);
    assert_eq!(fields("a | b", '|'), vec!["a", "b"]);
    assert_eq!(fields("", '|'), vec![""]);
    assert_eq!(fields(" | ", '|'), vec!["", ""]);
    assert_eq!(fields("Milano", ','), vec!["Milano"]);
}

#[test]
fn alias_table_lists_alternates_in_line_order() {
    let table = init_place_alias_map(&lines(&[
        "Milan, Lombardy, Italy | Milano, Lombardia",
        "Lombardy, Italy | Lombardia",
        "Milan, Lombardy, Italy|Mailand, Lombardei",
    ]));
    let names = find_alias_city_names(&table, &milan()).unwrap();
    assert_eq!(names, &vec!["Milano, Lombardia".to_string(), "Mailand, Lombardei".to_string()]);
    let names = find_alias_state_names(&table, &lombardy()).unwrap();
    assert_eq!(names, &vec!["Lombardia".to_string()]);
}

#[test]
fn alias_table_skips_blank_and_malformed_lines() {
    let table = init_place_alias_map(&lines(&[
        "",
        "   ",
        "Milan, Lombardy, Italy",
        "Milan, Lombardy, Italy | Milano, Lombardia | extra",
        "Lombardy, Italy | Lombardia",
    ]));
    assert!(find_alias_city_names(&table, &milan()).is_none());
    assert_eq!(find_alias_state_names(&table, &lombardy()).unwrap().len(), 1);
    assert_eq!(table.len(), 1);
}

#[test]
fn alias_table_of_no_lines_is_empty() {
    let table = init_place_alias_map(&Vec::new());
    assert!(table.is_empty());
    assert!(find_alias_city_names(&table, &milan()).is_none());
    assert!(find_alias_state_names(&table, &lombardy()).is_none());
}

#[test]
fn alias_lookup_uses_the_names_as_given() {
    let table = init_place_alias_map(&lines(&["milan, lombardy, italy | Milano, Lombardia"]));
    assert!(find_alias_city_names(&table, &milan()).is_none());
    let table = init_place_alias_map(&lines(&["Milan,Lombardy,Italy | Milano, Lombardia"]));
    assert!(find_alias_city_names(&table, &milan()).is_none());
}

#[test]
fn sort_key_reverses_the_display_name() {
    assert_eq!(
        place_alias_sort_key("Milan, Lombardy, Italy | Milano, Lombardia").unwrap(),
        "Italy, Lombardy, Milan"
    );
    assert_eq!(place_alias_sort_key("Lombardy, Italy | Lombardia").unwrap(), "Italy, Lombardy");
    assert_eq!(place_alias_sort_key("Italy | Italia").unwrap(), "Italy");
}

#[test]
fn sort_key_passes_over_leading_empty_parts() {
    assert_eq!(place_alias_sort_key("Milan, , | x").unwrap(), "Milan");
    assert_eq!(place_alias_sort_key("Milan, , Italy | x").unwrap(), "Italy, , Milan");
    assert_eq!(place_alias_sort_key(" | x").unwrap(), "");
}

#[test]
fn sort_key_of_a_malformed_line_is_none() {
    assert!(place_alias_sort_key("").is_none());
    assert!(place_alias_sort_key("Milan, Lombardy, Italy").is_none());
    assert!(place_alias_sort_key("a | b | c").is_none());
}
