//! Places to resolve in a batch, and the counts of what came out.

use crate::error::LocationFinderError;
use crate::matcher::LocationMatchType;
use crate::store::{find_location, LocationStore};
use vstd::prelude::*;
use vstd::string::StringExecFns;

verus! {

/// A place to resolve, as free text.
#[derive(Debug, Clone)]
pub struct LocationInput {
    pub id: u64,
    pub city: String,
    pub state: String,
    pub country: String,
}

/// An organisation with the place it gives for itself.
#[derive(Debug, Clone)]
pub struct OrgRecord {
    pub id: u64,
    pub org_handle: String,
    pub name: String,
    pub website: String,
    /// The identifier of the place among the places to resolve.
    pub location_id: u64,
    pub favicon: Option<String>,
    pub city: String,
    pub state: String,
    pub country: String,
}

/// The three names of a place in one line: `City, State, Country`.
pub open spec fn place_line(city: Seq<char>, state: Seq<char>, country: Seq<char>) -> Seq<char> {
    city + seq![',', ' '] + state + seq![',', ' '] + country
}

/// Writes the three names of a place in one line.
pub fn place_display_name(city: &str, state: &str, country: &str) -> (line: String)
    ensures
        line@ == place_line(city@, state@, country@),
{
    proof {
        reveal_strlit(", ");
    }
    let mut line = String::new();
    line.append(city);
    line.append(", ");
    line.append(state);
    line.append(", ");
    line.append(country);
    line
}

impl LocationInput {
    /// The place in one line.
    pub fn display_name(&self) -> (line: String)
        ensures
            line@ == place_line(self.city@, self.state@, self.country@),
    {
        place_display_name(self.city.as_str(), self.state.as_str(), self.country.as_str())
    }

    /// Resolves the place against the loaded records.
    ///
    /// Fails with `Loader` exactly when nothing is loaded.
    pub fn find(&self, store: &LocationStore) -> (found: Result<
        LocationMatchType,
        LocationFinderError,
    >)
        ensures
            match found {
                Ok(outcome) => store.is_loaded() && outcome == store.gazetteer().resolve(
                    self.city@,
                    self.state@,
                    self.country@,
                ),
                Err(error) => error is Loader && !store.is_loaded(),
            },
    {
        find_location(store, self.city.as_str(), self.state.as_str(), self.country.as_str())
    }
}

impl OrgRecord {
    /// The place of the organisation in one line.
    pub fn display_name(&self) -> (line: String)
        ensures
            line@ == place_line(self.city@, self.state@, self.country@),
    {
        place_display_name(self.city.as_str(), self.state.as_str(), self.country.as_str())
    }
}

/// The full matches among the outcomes.
pub open spec fn full_matches(outcomes: Seq<LocationMatchType>) -> Seq<LocationMatchType> {
    outcomes.filter(|outcome: LocationMatchType| outcome is FullMatch)
}

/// The partial matches among the outcomes.
pub open spec fn partial_matches(outcomes: Seq<LocationMatchType>) -> Seq<LocationMatchType> {
    outcomes.filter(|outcome: LocationMatchType| outcome is PartialMatch)
}

/// How many places of a batch were resolved, and how.
#[derive(Debug, Clone, Copy)]
pub struct MatchCounts {
    total: usize,
    full: usize,
    partial: usize,
}

impl MatchCounts {
    #[verifier::type_invariant]
    spec fn well_formed(&self) -> bool {
        self.full + self.partial <= self.total
    }

    /// The number of places.
    pub closed spec fn total_count(&self) -> nat {
        self.total as nat
    }

    /// The number of full matches.
    pub closed spec fn full_count(&self) -> nat {
        self.full as nat
    }

    /// The number of partial matches.
    pub closed spec fn partial_count(&self) -> nat {
        self.partial as nat
    }

    /// The number of places.
    pub fn total(&self) -> (n: usize)
        ensures
            n == self.total_count(),
    {
        self.total
    }

    /// The number of full matches.
    pub fn full(&self) -> (n: usize)
        ensures
            n == self.full_count(),
    {
        self.full
    }

    /// The number of partial matches.
    pub fn partial(&self) -> (n: usize)
        ensures
            n == self.partial_count(),
    {
        self.partial
    }

    /// The number of places resolved, fully or partially.
    pub fn matched(&self) -> (n: usize)
        ensures
            n == self.full_count() + self.partial_count(),
            n <= self.total_count(),
    {
        proof {
            use_type_invariant(self);
        }
        self.full + self.partial
    }

    /// The number of places that were not resolved.
    pub fn unmatched(&self) -> (n: usize)
        ensures
            n == self.total_count() - self.full_count() - self.partial_count(),
    {
        proof {
            use_type_invariant(self);
        }
        self.total - (self.full + self.partial)
    }
}

/// Counts the outcomes of a batch.
pub fn count_matches(outcomes: &Vec<LocationMatchType>) -> (counts: MatchCounts)
    ensures
        counts.total_count() == outcomes@.len(),
        counts.full_count() == full_matches(outcomes@).len(),
        counts.partial_count() == partial_matches(outcomes@).len(),
{
    let mut full: usize = 0;
    let mut partial: usize = 0;
    let mut i: usize = 0;
    proof {
        reveal(Seq::filter);
    }
    while i < outcomes.len()
        invariant
            i <= outcomes.len(),
            full == full_matches(outcomes@.take(i as int)).len(),
            partial == partial_matches(outcomes@.take(i as int)).len(),
            full + partial <= i,
        decreases outcomes.len() - i,
    {
        proof {
            let seen = outcomes@.take(i as int);
            assert(outcomes@.take(i + 1) == seen.push(outcomes@[i as int]));
            seen.lemma_filter_push(
                outcomes@[i as int],
                |outcome: LocationMatchType| outcome is FullMatch,
            );
            seen.lemma_filter_push(
                outcomes@[i as int],
                |outcome: LocationMatchType| outcome is PartialMatch,
            );
        }
        match outcomes[i] {
            LocationMatchType::FullMatch { .. } => {
                full += 1;
            },
            LocationMatchType::PartialMatch { .. } => {
                partial += 1;
            },
            LocationMatchType::NoMatch => {},
        }
        i += 1;
    }
    assert(outcomes@.take(outcomes.len() as int) == outcomes@);
    MatchCounts { total: outcomes.len(), full, partial }
}

} // verus!
