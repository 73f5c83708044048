//! The rules by which a candidate city is accepted, set aside or skipped
//! when it was found by city and country alone.

use crate::index::Gazetteer;
use crate::multimaps::values_under;
use crate::normalize::{location_key_of, normalize_location_str, normalized};
use crate::records::LocationCity;
use crate::seqs::lemma_push_contains;
use crate::table::{by_id, has_id, lemma_position_unique};
use crate::text::{chars_of, contains_chars, contains_text, same_text};
use vstd::prelude::*;

verus! {

/// The outcome of resolving a place.
#[derive(Debug, Clone, Copy, PartialEq, Eq, Structural)]
pub enum LocationMatchType {
    /// City, state and country are resolved.
    FullMatch { city: u64, state: u64, country: u64 },
    /// City and country are resolved; the state that was asked for could not
    /// be reconciled with the city's own, which is given.
    PartialMatch { city: u64, country: u64, unmatched_state: u64 },
    /// No confident resolution exists.
    NoMatch,
}

/// The names of the countries whose cities are never resolved without the
/// state: too many of their cities share a name.
pub open spec fn skipped_countries() -> Seq<Seq<char>> {
    seq!["United States"@]
}

/// The names of the countries whose cities are resolved whatever the state
/// says: their subdivisions are named too inconsistently.
pub open spec fn override_countries() -> Seq<Seq<char>> {
    seq!["United Kingdom"@]
}

/// The texts of a list of strings.
pub open spec fn name_texts(names: Seq<&'static str>) -> Seq<Seq<char>> {
    Seq::new(names.len(), |i: int| names[i]@)
}

/// The countries to skip.
pub fn init_partial_match_countries_to_skip() -> (countries_to_skip: Vec<&'static str>)
    ensures
        name_texts(countries_to_skip@) == skipped_countries(),
{
    let mut countries_to_skip: Vec<&'static str> = Vec::new();
    countries_to_skip.push("United States");
    countries_to_skip
}

/// The countries to accept whatever the state.
pub fn init_partial_match_countries_to_override() -> (countries_to_override: Vec<&'static str>)
    ensures
        name_texts(countries_to_override@) == override_countries(),
{
    let mut countries_to_override: Vec<&'static str> = Vec::new();
    countries_to_override.push("United Kingdom");
    countries_to_override
}

/// Whether `name` is among `names`.
pub fn has_name(names: &Vec<&'static str>, name: &str) -> (found: bool)
    ensures
        found == name_texts(names@).contains(name@),
{
    let mut i: usize = 0;
    while i < names.len()
        invariant
            i <= names.len(),
            forall|k: int| 0 <= k < i ==> name_texts(names@)[k] != name@,
        decreases names.len() - i,
    {
        if same_text(names[i], name) {
            assert(name_texts(names@)[i as int] == name@);
            return true;
        }
        i += 1;
    }
    false
}

/// The pairs of state names, as key fragments, that stand for the same
/// region: the name in two languages, a province and the region around it,
/// a region and the one it was merged into.
pub open spec fn state_name_pairs() -> Seq<(Seq<char>, Seq<char>)> {
    seq![
        ("lombardia"@, "lombardy"@),
        ("toscana"@, "tuscany"@),
        ("piemonte"@, "piedmont"@),
        ("sardegna"@, "sardinia"@),
        ("sicilia"@, "sicily"@),
        ("puglia"@, "apulia"@),
        ("trentinoalto_adige"@, "trentinosouth_tyrol"@),
        ("bayern"@, "bavaria"@),
        ("sachsen"@, "saxony"@),
        ("niedersachsen"@, "lower_saxony"@),
        ("rheinlandpfalz"@, "rhinelandpalatinate"@),
        ("nordrheinwestfalen"@, "north_rhinewestphalia"@),
        ("catalonia"@, "barcelona"@),
        ("pais_vasco"@, "gipuzkoa"@),
        ("pais_vasco"@, "bizkaia"@),
        ("galicia"@, "pontevedra"@),
        ("galicia"@, "a_coruna"@),
        ("andalucia"@, "sevilla"@),
        ("stockholms_lan"@, "stockholm_county"@),
        ("skane_lan"@, "skane_county"@),
        ("kalmar_lan"@, "kalmar_county"@),
        ("vasternorrlands_lan"@, "vasternorrland_county"@),
        ("vasterbottens_lan"@, "vasterbotten_county"@),
        ("uppsala_lan"@, "uppsala_county"@),
        ("norrbottens_lan"@, "norrbotten_county"@),
        ("hallands_lan"@, "halland_county"@),
        ("ostergotlands_lan"@, "ostergotland_county"@),
        ("dalarnas_lan"@, "dalarna_county"@),
        ("vastmanlands_lan"@, "vastmanland_county"@),
        ("varmlands_lan"@, "varmland_county"@),
        ("sodermanlands_lan"@, "sodermanland_county"@),
        ("kronobergs_lan"@, "skane_county"@),
        ("gotlands_lan"@, "gotland_county"@),
        ("wien"@, "vienna"@),
        ("geneve"@, "geneva"@),
        ("nordpasdecalais"@, "hautsdefrance"@),
        ("midipyrenees"@, "occitanie"@),
        ("languedocroussillon"@, "occitanie"@),
        ("provencealpescote_dazur"@, "provencealpescotedazur"@),
        ("pays_de_la_loire"@, "paysdelaloire"@),
        ("andhra_pradesh"@, "telangana"@),
        ("hamerkaz"@, "central_district"@),
        ("al_qahirah"@, "cairo"@),
        ("adis_abeba"@, "addis_ababa"@),
        ("na_south_africa"@, "gauteng"@),
    ]
}

/// Whether two key fragments are known names of one region. The order of the
/// two does not matter.
pub open spec fn state_names_equivalent(a: Seq<char>, b: Seq<char>) -> bool {
    state_name_pairs().contains((a, b)) || state_name_pairs().contains((b, a))
}

/// The texts of a list of pairs of strings.
pub open spec fn pair_texts(pairs: Seq<(&'static str, &'static str)>) -> Seq<
    (Seq<char>, Seq<char>),
> {
    Seq::new(pairs.len(), |i: int| (pairs[i].0@, pairs[i].1@))
}

/// The table of equivalent state names. It holds every pair in both orders.
pub fn init_partial_match_state_names() -> (state_names: Vec<(&'static str, &'static str)>)
    ensures
        forall|a: Seq<char>, b: Seq<char>| #[trigger]
            pair_texts(state_names@).contains((a, b)) <==> state_names_equivalent(a, b),
{
    let state_names_vec: Vec<(&'static str, &'static str)> = vec![
        ("lombardia", "lombardy"),
        ("toscana", "tuscany"),
        ("piemonte", "piedmont"),
        ("sardegna", "sardinia"),
        ("sicilia", "sicily"),
        ("puglia", "apulia"),
        ("trentinoalto_adige", "trentinosouth_tyrol"),
        ("bayern", "bavaria"),
        ("sachsen", "saxony"),
        ("niedersachsen", "lower_saxony"),
        ("rheinlandpfalz", "rhinelandpalatinate"),
        ("nordrheinwestfalen", "north_rhinewestphalia"),
        ("catalonia", "barcelona"),
        ("pais_vasco", "gipuzkoa"),
        ("pais_vasco", "bizkaia"),
        ("galicia", "pontevedra"),
        ("galicia", "a_coruna"),
        ("andalucia", "sevilla"),
        ("stockholms_lan", "stockholm_county"),
        ("skane_lan", "skane_county"),
        ("kalmar_lan", "kalmar_county"),
        ("vasternorrlands_lan", "vasternorrland_county"),
        ("vasterbottens_lan", "vasterbotten_county"),
        ("uppsala_lan", "uppsala_county"),
        ("norrbottens_lan", "norrbotten_county"),
        ("hallands_lan", "halland_county"),
        ("ostergotlands_lan", "ostergotland_county"),
        ("dalarnas_lan", "dalarna_county"),
        ("vastmanlands_lan", "vastmanland_county"),
        ("varmlands_lan", "varmland_county"),
        ("sodermanlands_lan", "sodermanland_county"),
        ("kronobergs_lan", "skane_county"),
        ("gotlands_lan", "gotland_county"),
        ("wien", "vienna"),
        ("geneve", "geneva"),
        ("nordpasdecalais", "hautsdefrance"),
        ("midipyrenees", "occitanie"),
        ("languedocroussillon", "occitanie"),
        ("provencealpescote_dazur", "provencealpescotedazur"),
        ("pays_de_la_loire", "paysdelaloire"),
        ("andhra_pradesh", "telangana"),
        ("hamerkaz", "central_district"),
        ("al_qahirah", "cairo"),
        ("adis_abeba", "addis_ababa"),
        ("na_south_africa", "gauteng"),
    ];
    let mut state_names: Vec<(&'static str, &'static str)> = Vec::new();
    let mut i: usize = 0;
    while i < state_names_vec.len()
        invariant
            i <= state_names_vec.len(),
            pair_texts(state_names_vec@) == state_name_pairs(),
            forall|a: Seq<char>, b: Seq<char>| #[trigger]
                pair_texts(state_names@).contains((a, b)) <==> state_name_pairs().take(
                    i as int,
                ).contains((a, b)) || state_name_pairs().take(i as int).contains((b, a)),
        decreases state_names_vec.len() - i,
    {
        let (state_name, unmatched_state_name) = state_names_vec[i];
        let ghost before = pair_texts(state_names@);
        let ghost pair = (state_name@, unmatched_state_name@);
        let ghost seen = state_name_pairs().take(i as int);
        let ghost seen_next = state_name_pairs().take(i + 1);
        state_names.push((state_name, unmatched_state_name));
        state_names.push((unmatched_state_name, state_name));
        proof {
            let after = pair_texts(state_names@);
            assert(seen_next == seen.push(pair));
            assert(after == before.push(pair).push((pair.1, pair.0)));
            lemma_push_contains(before, pair);
            lemma_push_contains(before.push(pair), (pair.1, pair.0));
            lemma_push_contains(seen, pair);
        }
        i += 1;
    }
    assert(state_name_pairs().take(state_names_vec.len() as int) == state_name_pairs());
    state_names
}

/// Whether the pair of `a` and `b`, in this order, is in the table.
pub fn has_pair(state_names: &Vec<(&'static str, &'static str)>, a: &str, b: &str) -> (found: bool)
    ensures
        found == pair_texts(state_names@).contains((a@, b@)),
{
    let mut i: usize = 0;
    while i < state_names.len()
        invariant
            i <= state_names.len(),
            forall|k: int| 0 <= k < i ==> pair_texts(state_names@)[k] != (a@, b@),
        decreases state_names.len() - i,
    {
        let (first, second) = state_names[i];
        if same_text(first, a) && same_text(second, b) {
            assert(pair_texts(state_names@)[i as int] == (a@, b@));
            return true;
        }
        i += 1;
    }
    false
}

/// What the rules say of one candidate city.
#[derive(Debug, Clone, Copy, PartialEq, Eq, Structural)]
pub enum Verdict {
    /// The candidate is set aside and can give no match.
    Skipped,
    /// The candidate is the place that was asked for.
    Accepted,
    /// City and country fit, the state could not be reconciled.
    Unreconciled,
}

/// The verdict on a candidate, by the first rule that applies:
/// a country to skip sets the candidate aside; a country to override
/// accepts it; so does a state that was asked for and is a part of the
/// candidate's state name, or has it as a part; so does a pair of known
/// names of one region; otherwise the state is unreconciled.
///
/// `country_name` is the name of the candidate's country as its record
/// gives it; `canonical_state` and `state` are key fragments.
pub open spec fn judge(
    country_name: Seq<char>,
    canonical_state: Seq<char>,
    state: Seq<char>,
) -> Verdict {
    if skipped_countries().contains(country_name) {
        Verdict::Skipped
    } else if override_countries().contains(country_name) {
        Verdict::Accepted
    } else if contains_text(canonical_state, state) || contains_text(state, canonical_state) {
        Verdict::Accepted
    } else if state_names_equivalent(state, canonical_state) {
        Verdict::Accepted
    } else {
        Verdict::Unreconciled
    }
}

/// The fixed tables of the rules.
pub struct MatchRules {
    countries_to_skip: Vec<&'static str>,
    countries_to_override: Vec<&'static str>,
    state_names: Vec<(&'static str, &'static str)>,
}

impl MatchRules {
    #[verifier::type_invariant]
    spec fn well_formed(&self) -> bool {
        &&& name_texts(self.countries_to_skip@) == skipped_countries()
        &&& name_texts(self.countries_to_override@) == override_countries()
        &&& forall|a: Seq<char>, b: Seq<char>| #[trigger]
            pair_texts(self.state_names@).contains((a, b)) <==> state_names_equivalent(a, b)
    }

    /// Builds the tables: the countries to skip, the countries to override,
    /// and the pairs of equivalent state names, each pair in both orders.
    pub fn new() -> (rules: MatchRules)
        ensures
            rules.skipped() == skipped_countries(),
            rules.overridden() == override_countries(),
            forall|a: Seq<char>, b: Seq<char>| #[trigger]
                rules.state_name_table().contains((a, b)) <==> state_names_equivalent(a, b),
    {
        MatchRules {
            countries_to_skip: init_partial_match_countries_to_skip(),
            countries_to_override: init_partial_match_countries_to_override(),
            state_names: init_partial_match_state_names(),
        }
    }

    /// Judges a candidate whose country is named `country_name` and whose
    /// state is named `state_name`, for the state fragment `state` that was
    /// asked for.
    pub fn judge_candidate(&self, country_name: &str, state_name: &str, state: &str) -> (verdict:
        Verdict)
        ensures
            verdict == judge(country_name@, normalized(state_name@), state@),
    {
        proof {
            use_type_invariant(self);
        }
        if has_name(&self.countries_to_skip, country_name) {
            return Verdict::Skipped;
        }
        if has_name(&self.countries_to_override, country_name) {
            return Verdict::Accepted;
        }
        let unmatched_state_name = normalize_location_str(state_name);
        let canonical = chars_of(unmatched_state_name.as_str());
        let asked = chars_of(state);
        if contains_chars(&canonical, &asked) || contains_chars(&asked, &canonical) {
            return Verdict::Accepted;
        }
        if has_pair(&self.state_names, state, unmatched_state_name.as_str()) {
            return Verdict::Accepted;
        }
        Verdict::Unreconciled
    }

    /// The names of the countries that these rules skip.
    pub closed spec fn skipped(&self) -> Seq<Seq<char>> {
        name_texts(self.countries_to_skip@)
    }

    /// The names of the countries that these rules override.
    pub closed spec fn overridden(&self) -> Seq<Seq<char>> {
        name_texts(self.countries_to_override@)
    }

    /// The pairs of state names that these rules hold as equivalent.
    pub closed spec fn state_name_table(&self) -> Seq<(Seq<char>, Seq<char>)> {
        pair_texts(self.state_names@)
    }
}

/// The full match on a city: its own identifier and those of its state and
/// country.
pub open spec fn full_match(city: LocationCity) -> LocationMatchType {
    LocationMatchType::FullMatch { city: city.id, state: city.state_id, country: city.country_id }
}

/// The partial match on a city: its own and its country's identifier, and
/// its state's as the one that was not reconciled.
pub open spec fn partial_match(city: LocationCity) -> LocationMatchType {
    LocationMatchType::PartialMatch {
        city: city.id,
        country: city.country_id,
        unmatched_state: city.state_id,
    }
}

impl Gazetteer {
    /// The city with the identifier `id`.
    pub open spec fn city(self, id: u64) -> LocationCity {
        by_id(self.cities, id)->0
    }

    /// The identifiers of the cities found under `key`, none where the key
    /// is unknown.
    pub open spec fn candidates(self, key: Seq<char>) -> Seq<u64> {
        values_under(self.index(), key)
    }

    /// Every candidate under a key of a sound gazetteer is the identifier of
    /// a city of it, which is sound and found under that key.
    pub proof fn lemma_candidate(self, key: Seq<char>, k: int)
        requires
            self.sound(),
            0 <= k < self.candidates(key).len(),
        ensures
            has_id(self.cities, self.candidates(key)[k]),
            self.city(self.candidates(key)[k]).id == self.candidates(key)[k],
            self.cities.contains(self.city(self.candidates(key)[k])),
            self.city_sound(self.city(self.candidates(key)[k])),
            self.finds(self.city(self.candidates(key)[k]), key),
    {
        let found = |city: LocationCity| self.finds(city, key);
        let under = self.cities.filter(found);
        let city = under[k];
        self.cities.lemma_filter_contains_rev(found, city);
        self.cities.lemma_filter_pred(found, k);
        let j = choose|j: int| 0 <= j < self.cities.len() && self.cities[j] == city;
        lemma_position_unique(self.cities, city.id, j);
    }

    /// Every city is a candidate under each key under which it is found.
    pub proof fn lemma_found_is_candidate(self, k: int, key: Seq<char>)
        requires
            0 <= k < self.cities.len(),
            self.finds(self.cities[k], key),
        ensures
            self.candidates(key).contains(self.cities[k].id),
    {
        let found = |city: LocationCity| self.finds(city, key);
        let under = self.cities.filter(found);
        self.cities.lemma_filter_contains(found, k);
        let j = choose|j: int| 0 <= j < under.len() && under[j] == self.cities[k];
        assert(self.ids_under(self.cities, key)[j] == self.cities[k].id);
    }

    /// The verdict on the city with the identifier `id` for the state
    /// fragment `state`.
    pub open spec fn verdict(self, id: u64, state: Seq<char>) -> Verdict {
        let city = self.city(id);
        judge(self.country_of(city).name@, normalized(self.state_of(city).name@), state)
    }

    /// The candidates that are accepted, in order.
    pub open spec fn accepted(self, ids: Seq<u64>, state: Seq<char>) -> Seq<u64> {
        ids.filter(|id: u64| self.verdict(id, state) is Accepted)
    }

    /// The candidates whose state is unreconciled, in order.
    pub open spec fn unreconciled(self, ids: Seq<u64>, state: Seq<char>) -> Seq<u64> {
        ids.filter(|id: u64| self.verdict(id, state) is Unreconciled)
    }

    /// The outcome for candidates that were found by city and country alone:
    /// a full match on the first that is accepted; where none is, a partial
    /// match on the one that is unreconciled, if it is the only one; else no
    /// match.
    pub open spec fn reconcile(self, ids: Seq<u64>, state: Seq<char>) -> LocationMatchType {
        let accepted = self.accepted(ids, state);
        let unreconciled = self.unreconciled(ids, state);
        if accepted.len() > 0 {
            full_match(self.city(accepted[0]))
        } else if unreconciled.len() == 1 {
            partial_match(self.city(unreconciled[0]))
        } else {
            LocationMatchType::NoMatch
        }
    }

    /// The outcome for a place given as free text: a full match on the first
    /// city found under the key of city, state and country; where there is
    /// none, what the cities found under the key of city and country give.
    pub open spec fn resolve(
        self,
        city_in: Seq<char>,
        state_in: Seq<char>,
        country_in: Seq<char>,
    ) -> LocationMatchType {
        let city = normalized(city_in);
        let state = normalized(state_in);
        let country = normalized(country_in);
        let exact = self.candidates(location_key_of(Some(city), Some(state), Some(country)));
        if exact.len() > 0 {
            full_match(self.city(exact[0]))
        } else {
            self.reconcile(self.candidates(location_key_of(Some(city), None, Some(country))), state)
        }
    }
}

} // verus!
