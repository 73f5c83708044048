//! The records of the gazetteer: countries, states and cities.

use vstd::prelude::*;

verus! {

/// What every kind of location record offers: its identifier and its name.
pub trait LocationBase {
    /// The identifier of the record.
    spec fn id_of(&self) -> u64;

    /// The name of the record, as text.
    spec fn name_of(&self) -> Seq<char>;

    /// Returns the identifier, which is unique within the record's table.
    fn id(&self) -> (id: u64)
        ensures
            id == self.id_of(),
    ;

    /// Returns the name as the table gives it.
    fn name(&self) -> (name: &str)
        ensures
            name@ == self.name_of(),
    ;
}

/// A country, with the codes under which cities of it are also found.
/// Matching reads the identifier, the name and the two ISO codes; the other
/// fields describe the country. Coordinates are not kept.
#[derive(Debug, Clone)]
pub struct LocationCountry {
    pub id: u64,
    pub name: String,
    /// The three-letter ISO code.
    pub iso3: String,
    /// The two-letter ISO code.
    pub iso2: String,
    pub numeric_code: u32,
    pub phone_code: String,
    pub capital: String,
    pub currency: String,
    pub currency_name: String,
    pub currency_symbol: String,
    pub tld: String,
    pub native: String,
    pub region: String,
    pub subregion: String,
    pub timezones: String,
    pub emoji: String,
    pub emoji_u: String,
}

/// A state or province of a country. Coordinates are not kept.
#[derive(Debug, Clone)]
pub struct LocationState {
    pub id: u64,
    pub name: String,
    /// The country that the state belongs to.
    pub country_id: u64,
    pub country_code: String,
    pub country_name: String,
    pub state_code: String,
    /// The kind of subdivision, such as province or region.
    pub state_type: String,
}

/// A city. Besides the identifiers of its state and country it carries
/// copies of their names and codes, which are expected to agree with the
/// records of the state and the country. Coordinates are not kept.
#[derive(Debug, Clone)]
pub struct LocationCity {
    pub id: u64,
    pub name: String,
    /// The state that the city belongs to.
    pub state_id: u64,
    pub state_code: String,
    pub state_name: String,
    /// The country that the city belongs to.
    pub country_id: u64,
    pub country_code: String,
    pub country_name: String,
    pub wiki_data_id: String,
}

impl LocationBase for LocationCountry {
    open spec fn id_of(&self) -> u64 {
        self.id
    }

    open spec fn name_of(&self) -> Seq<char> {
        self.name@
    }

    fn id(&self) -> (id: u64) {
        self.id
    }

    fn name(&self) -> (name: &str) {
        self.name.as_str()
    }
}

impl LocationBase for LocationState {
    open spec fn id_of(&self) -> u64 {
        self.id
    }

    open spec fn name_of(&self) -> Seq<char> {
        self.name@
    }

    fn id(&self) -> (id: u64) {
        self.id
    }

    fn name(&self) -> (name: &str) {
        self.name.as_str()
    }
}

impl LocationBase for LocationCity {
    open spec fn id_of(&self) -> u64 {
        self.id
    }

    open spec fn name_of(&self) -> Seq<char> {
        self.name@
    }

    fn id(&self) -> (id: u64) {
        self.id
    }

    fn name(&self) -> (name: &str) {
        self.name.as_str()
    }
}

} // verus!
