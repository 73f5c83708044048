//! What holds of every resolution, whatever the gazetteer.

use crate::index::Gazetteer;
use crate::keys::city_location_keys;
use crate::matcher::{
    full_match, judge, override_countries, partial_match, skipped_countries,
    state_names_equivalent, LocationMatchType,
};
use crate::normalize::{location_key_of, normalized};
use crate::records::LocationCity;
use crate::seqs::{lemma_filter_none, lemma_filter_some, lemma_filter_two};
use crate::table::{distinct_ids, has_id, lemma_position_unique};
use crate::text::occurs_at;
use vstd::prelude::*;

verus! {

/// The order of the two names does not matter to their equivalence.
pub proof fn lemma_state_names_symmetric(a: Seq<char>, b: Seq<char>)
    ensures
        state_names_equivalent(a, b) == state_names_equivalent(b, a),
{
}

/// The verdict on a candidate does not change when the state that was asked
/// for and the candidate's own state change places.
pub proof fn lemma_judge_symmetric(country_name: Seq<char>, a: Seq<char>, b: Seq<char>)
    ensures
        judge(country_name, a, b) == judge(country_name, b, a),
{
}

/// Outside the countries to skip, a candidate is accepted when the state that
/// was asked for is its own state, or the two are known names of one region.
pub proof fn lemma_equivalent_names_accepted(
    country_name: Seq<char>,
    canonical_state: Seq<char>,
    state: Seq<char>,
)
    requires
        !skipped_countries().contains(country_name),
        state == canonical_state || state_names_equivalent(state, canonical_state),
    ensures
        judge(country_name, canonical_state, state) is Accepted,
{
    if state == canonical_state {
        assert(canonical_state.subrange(0, state.len() as int) == state);
        assert(occurs_at(canonical_state, state, 0));
    }
}

/// No country is both skipped and overridden.
pub proof fn lemma_lists_disjoint(country_name: Seq<char>)
    ensures
        !(skipped_countries().contains(country_name) && override_countries().contains(
            country_name,
        )),
{
    reveal_strlit("United States");
    reveal_strlit("United Kingdom");
    if skipped_countries().contains(country_name) && override_countries().contains(country_name) {
        assert(country_name == "United States"@);
        assert(country_name == "United Kingdom"@);
        assert("United States"@.len() == 13);
        assert("United Kingdom"@.len() == 14);
    }
}

impl Gazetteer {
    /// The name of the country of the city with the identifier `id`.
    pub open spec fn country_name_of(self, id: u64) -> Seq<char> {
        self.country_of(self.city(id)).name@
    }

    /// The key fragment of the name of the state of the city with the
    /// identifier `id`.
    pub open spec fn canonical_state_of(self, id: u64) -> Seq<char> {
        normalized(self.state_of(self.city(id)).name@)
    }

    /// Candidates that all lie in countries to skip give no match, whatever
    /// state was asked for.
    pub proof fn lemma_skipped_give_no_match(self, ids: Seq<u64>, state: Seq<char>)
        requires
            forall|k: int|
                0 <= k < ids.len() ==> skipped_countries().contains(
                    self.country_name_of(#[trigger] ids[k]),
                ),
        ensures
            self.reconcile(ids, state) is NoMatch,
    {
        lemma_filter_none(ids, |id: u64| self.verdict(id, state) is Accepted);
        lemma_filter_none(ids, |id: u64| self.verdict(id, state) is Unreconciled);
    }

    /// A place whose candidates by city and country all lie in countries to
    /// skip, and which is not found with its state, is not resolved: neither
    /// fully nor partially.
    pub proof fn lemma_skip_list(
        self,
        city_in: Seq<char>,
        state_in: Seq<char>,
        country_in: Seq<char>,
    )
        requires
            self.candidates(
                location_key_of(
                    Some(normalized(city_in)),
                    Some(normalized(state_in)),
                    Some(normalized(country_in)),
                ),
            ).len() == 0,
            forall|k: int|
                0 <= k < self.candidates(
                    location_key_of(Some(normalized(city_in)), None, Some(normalized(country_in))),
                ).len() ==> skipped_countries().contains(
                    self.country_name_of(
                        #[trigger] self.candidates(
                            location_key_of(
                                Some(normalized(city_in)),
                                None,
                                Some(normalized(country_in)),
                            ),
                        )[k],
                    ),
                ),
        ensures
            self.resolve(city_in, state_in, country_in) is NoMatch,
    {
        self.lemma_skipped_give_no_match(
            self.candidates(
                location_key_of(Some(normalized(city_in)), None, Some(normalized(country_in))),
            ),
            normalized(state_in),
        );
    }

    /// A partial match never names a city in a country to skip.
    pub proof fn lemma_partial_match_not_skipped(self, ids: Seq<u64>, state: Seq<char>)
        requires
            self.reconcile(ids, state) is PartialMatch,
        ensures
            exists|k: int|
                0 <= k < ids.len() && self.reconcile(ids, state)->PartialMatch_city == self.city(
                    #[trigger] ids[k],
                ).id && !skipped_countries().contains(self.country_name_of(ids[k])),
    {
        let leaves = |id: u64| self.verdict(id, state) is Unreconciled;
        let left = ids.filter(leaves);
        assert(left.contains(left[0]));
        ids.lemma_filter_contains_rev(leaves, left[0]);
        ids.lemma_filter_pred(leaves, 0);
        let k = choose|k: int| 0 <= k < ids.len() && ids[k] == left[0];
        assert(self.verdict(ids[k], state) is Unreconciled);
    }

    /// An accepted candidate gives a full match: on its own city, where no
    /// candidate before it is accepted.
    pub proof fn lemma_accepted_gives_full_match(self, ids: Seq<u64>, state: Seq<char>, k: int)
        requires
            0 <= k < ids.len(),
            self.verdict(ids[k], state) is Accepted,
        ensures
            self.reconcile(ids, state) is FullMatch,
            (forall|j: int| 0 <= j < k ==> !(self.verdict(ids[j], state) is Accepted))
                ==> self.reconcile(ids, state) == full_match(self.city(ids[k])),
    {
        lemma_filter_some(ids, |id: u64| self.verdict(id, state) is Accepted, k);
    }

    /// A candidate in a country to override is accepted and gives a full
    /// match, whatever state was asked for: on its own city, where no
    /// candidate before it is accepted.
    pub proof fn lemma_override_accepted(self, ids: Seq<u64>, state: Seq<char>, k: int)
        requires
            0 <= k < ids.len(),
            override_countries().contains(self.country_name_of(ids[k])),
        ensures
            self.verdict(ids[k], state) is Accepted,
            self.reconcile(ids, state) is FullMatch,
            (forall|j: int| 0 <= j < k ==> !(self.verdict(ids[j], state) is Accepted))
                ==> self.reconcile(ids, state) == full_match(self.city(ids[k])),
    {
        lemma_lists_disjoint(self.country_name_of(ids[k]));
        self.lemma_accepted_gives_full_match(ids, state, k);
    }

    /// A candidate outside the countries to skip, whose state is the one
    /// asked for or a known name of the same region, gives a full match: on
    /// its own city, where no candidate before it is accepted. It does not
    /// matter which of the two names the record holds and which was asked
    /// for.
    pub proof fn lemma_equivalent_state_gives_full_match(
        self,
        ids: Seq<u64>,
        state: Seq<char>,
        k: int,
    )
        requires
            0 <= k < ids.len(),
            !skipped_countries().contains(self.country_name_of(ids[k])),
            state == self.canonical_state_of(ids[k]) || state_names_equivalent(
                state,
                self.canonical_state_of(ids[k]),
            ) || state_names_equivalent(self.canonical_state_of(ids[k]), state),
        ensures
            self.reconcile(ids, state) is FullMatch,
            (forall|j: int| 0 <= j < k ==> !(self.verdict(ids[j], state) is Accepted))
                ==> self.reconcile(ids, state) == full_match(self.city(ids[k])),
    {
        lemma_equivalent_names_accepted(
            self.country_name_of(ids[k]),
            self.canonical_state_of(ids[k]),
            state,
        );
        self.lemma_accepted_gives_full_match(ids, state, k);
    }

    /// A place with a candidate by city and country in a country to override
    /// is resolved fully, whatever state was asked for.
    pub proof fn lemma_override_list(
        self,
        city_in: Seq<char>,
        state_in: Seq<char>,
        country_in: Seq<char>,
        k: int,
    )
        requires
            0 <= k < self.candidates(
                location_key_of(Some(normalized(city_in)), None, Some(normalized(country_in))),
            ).len(),
            override_countries().contains(
                self.country_name_of(
                    self.candidates(
                        location_key_of(
                            Some(normalized(city_in)),
                            None,
                            Some(normalized(country_in)),
                        ),
                    )[k],
                ),
            ),
        ensures
            self.resolve(city_in, state_in, country_in) is FullMatch,
    {
        self.lemma_override_accepted(
            self.candidates(
                location_key_of(Some(normalized(city_in)), None, Some(normalized(country_in))),
            ),
            normalized(state_in),
            k,
        );
    }

    /// Two candidates whose state is unreconciled, with none accepted, are
    /// ambiguous: there is no match, not a partial match on the first.
    pub proof fn lemma_ambiguous_no_match(self, ids: Seq<u64>, state: Seq<char>, i: int, j: int)
        requires
            0 <= i < j < ids.len(),
            self.verdict(ids[i], state) is Unreconciled,
            self.verdict(ids[j], state) is Unreconciled,
            forall|k: int| 0 <= k < ids.len() ==> !(self.verdict(#[trigger] ids[k], state) is Accepted),
        ensures
            self.reconcile(ids, state) is NoMatch,
    {
        lemma_filter_none(ids, |id: u64| self.verdict(id, state) is Accepted);
        lemma_filter_two(ids, |id: u64| self.verdict(id, state) is Unreconciled, i, j);
    }

    /// The one candidate whose state is unreconciled, with none accepted,
    /// gives a partial match on its city.
    pub proof fn lemma_single_partial_match(self, ids: Seq<u64>, state: Seq<char>)
        requires
            ids.len() == 1,
            self.verdict(ids[0], state) is Unreconciled,
        ensures
            self.reconcile(ids, state) == partial_match(self.city(ids[0])),
    {
        reveal_with_fuel(Seq::filter, 2);
        assert(ids.drop_last() == Seq::<u64>::empty());
    }

    /// Whether the identifiers are those of a city of the gazetteer, of the
    /// state it refers to and of the country it refers to, which both exist.
    pub open spec fn is_place(self, city: u64, state: u64, country: u64) -> bool {
        &&& has_id(self.cities, city)
        &&& self.city(city).id == city
        &&& self.city(city).state_id == state
        &&& self.city(city).country_id == country
        &&& has_id(self.states, state)
        &&& has_id(self.countries, country)
    }

    /// What a sound gazetteer resolves a place to is a place of its own: a
    /// match, full or partial, names a city of the gazetteer with the state
    /// and the country that the city refers to.
    pub proof fn lemma_match_is_place(
        self,
        city_in: Seq<char>,
        state_in: Seq<char>,
        country_in: Seq<char>,
    )
        requires
            self.sound(),
        ensures
            match self.resolve(city_in, state_in, country_in) {
                LocationMatchType::FullMatch { city, state, country } => self.is_place(
                    city,
                    state,
                    country,
                ),
                LocationMatchType::PartialMatch { city, country, unmatched_state } => self.is_place(
                    city,
                    unmatched_state,
                    country,
                ),
                LocationMatchType::NoMatch => true,
            },
    {
        let city = normalized(city_in);
        let state = normalized(state_in);
        let country = normalized(country_in);
        let exact_key = location_key_of(Some(city), Some(state), Some(country));
        let coarse_key = location_key_of(Some(city), None, Some(country));
        let ids = self.candidates(coarse_key);
        if self.candidates(exact_key).len() > 0 {
            self.lemma_candidate(exact_key, 0);
        } else {
            let accepts = |id: u64| self.verdict(id, state) is Accepted;
            let leaves = |id: u64| self.verdict(id, state) is Unreconciled;
            if ids.filter(accepts).len() > 0 {
                let id = ids.filter(accepts)[0];
                assert(ids.filter(accepts).contains(id));
                ids.lemma_filter_contains_rev(accepts, id);
                let k = choose|k: int| 0 <= k < ids.len() && ids[k] == id;
                self.lemma_candidate(coarse_key, k);
            } else if ids.filter(leaves).len() == 1 {
                let id = ids.filter(leaves)[0];
                assert(ids.filter(leaves).contains(id));
                ids.lemma_filter_contains_rev(leaves, id);
                let k = choose|k: int| 0 <= k < ids.len() && ids[k] == id;
                self.lemma_candidate(coarse_key, k);
            }
        }
    }

    /// The key of a city under its own name, the name of its state and the
    /// name of its country, as its record gives them.
    pub open spec fn own_key(self, city: LocationCity) -> Seq<char> {
        location_key_of(
            Some(normalized(city.name@)),
            Some(normalized(city.state_name@)),
            Some(normalized(city.country_name@)),
        )
    }

    /// Every city of a gazetteer is resolved fully by its own name, the name
    /// of its state and the name of its country, as its record gives them:
    /// to itself, where no city before it in load order is found under the
    /// same key and identifiers are unique.
    pub proof fn lemma_own_names_match(self, k: int)
        requires
            0 <= k < self.cities.len(),
        ensures
            self.resolve(
                self.cities[k].name@,
                self.cities[k].state_name@,
                self.cities[k].country_name@,
            ) is FullMatch,
            distinct_ids(self.cities) && (forall|j: int|
                0 <= j < k ==> !self.finds(#[trigger] self.cities[j], self.own_key(self.cities[k])))
                ==> self.resolve(
                self.cities[k].name@,
                self.cities[k].state_name@,
                self.cities[k].country_name@,
            ) == full_match(self.cities[k]),
    {
        let city = self.cities[k];
        let key = self.own_key(city);
        let own = city_location_keys(city, self.state_of(city), self.country_of(city), None, None);
        assert(own[0] == key);
        assert(self.finds(city, key));
        let found = |c: LocationCity| self.finds(c, key);
        lemma_filter_some(self.cities, found, k);
        if distinct_ids(self.cities) && (forall|j: int|
            0 <= j < k ==> !self.finds(#[trigger] self.cities[j], key)) {
            assert(self.cities.filter(found)[0] == city);
            lemma_position_unique(self.cities, city.id, k);
        }
    }
}

} // verus!
