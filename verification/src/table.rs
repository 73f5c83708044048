//! Tables of location records, found by identifier.

use crate::error::LocationFinderError;
use crate::records::LocationBase;
use std::collections::HashMap;
use vstd::prelude::*;

verus! {

/// Whether some record of `records` has the identifier `id`.
pub open spec fn has_id<T: LocationBase>(records: Seq<T>, id: u64) -> bool {
    exists|i: int| 0 <= i < records.len() && (#[trigger] records[i]).id_of() == id
}

/// A position in `records` of a record with the identifier `id`.
pub open spec fn position_of<T: LocationBase>(records: Seq<T>, id: u64) -> int {
    choose|i: int| 0 <= i < records.len() && (#[trigger] records[i]).id_of() == id
}

/// The record of `records` with the identifier `id`, where there is one.
pub open spec fn by_id<T: LocationBase>(records: Seq<T>, id: u64) -> Option<T> {
    if has_id(records, id) {
        Some(records[position_of(records, id)])
    } else {
        None
    }
}

/// Whether no two records of `records` share an identifier.
pub open spec fn distinct_ids<T: LocationBase>(records: Seq<T>) -> bool {
    forall|i: int, j: int|
        0 <= i < j < records.len() ==> (#[trigger] records[i]).id_of() != (
        #[trigger] records[j]).id_of()
}

/// The records of one kind, in the order in which they were loaded, with an
/// index from identifier to record. No two records share an identifier.
pub struct IdTable<T: LocationBase> {
    records: Vec<T>,
    positions: HashMap<u64, usize>,
}

impl<T: LocationBase> View for IdTable<T> {
    type V = Seq<T>;

    /// The records in load order.
    closed spec fn view(&self) -> Seq<T> {
        self.records@
    }
}

impl<T: LocationBase> IdTable<T> {
    /// Whether the index covers the records. This holds of every table.
    #[verifier::type_invariant]
    pub closed spec fn well_formed(&self) -> bool {
        indexes(self.positions@, self.records@)
    }

    /// The records of a table have distinct identifiers.
    pub proof fn lemma_distinct(&self)
        requires
            self.well_formed(),
        ensures
            distinct_ids(self@),
    {
        lemma_indexed_distinct(self.positions@, self.records@);
    }

    /// The number of records.
    pub fn len(&self) -> (n: usize)
        ensures
            n == self@.len(),
    {
        self.records.len()
    }

    /// The record at position `i` of the load order.
    pub fn record(&self, i: usize) -> (record: &T)
        requires
            i < self@.len(),
        ensures
            *record == self@[i as int],
    {
        &self.records[i]
    }

    /// Finds the record with the identifier `id`.
    pub fn get(&self, id: u64) -> (found: Option<&T>)
        ensures
            match found {
                Some(record) => by_id(self@, id) == Some(*record),
                None => by_id(self@, id) is None,
            },
    {
        broadcast use vstd::std_specs::hash::group_hash_axioms;

        proof {
            use_type_invariant(self);
            self.lemma_distinct();
        }
        match self.positions.get(&id) {
            Some(position) => {
                assert(self.records@[*position as int].id_of() == id);
                proof {
                    lemma_position_unique(self.records@, id, *position as int);
                }
                Some(&self.records[*position])
            },
            None => {
                assert(!has_id(self.records@, id)) by {
                    if has_id(self.records@, id) {
                        let i = position_of(self.records@, id);
                        assert(self.positions@.contains_key(self.records@[i].id_of()));
                    }
                }
                None
            },
        }
    }
}

/// Whether `positions` maps the identifier of every record to the record's
/// position, and nothing else.
pub open spec fn indexes<T: LocationBase>(positions: Map<u64, usize>, records: Seq<T>) -> bool {
    &&& forall|i: int|
        0 <= i < records.len() ==> positions.contains_key((#[trigger] records[i]).id_of())
            && positions[records[i].id_of()] == i
    &&& forall|id: u64| #[trigger]
        positions.contains_key(id) ==> 0 <= positions[id] < records.len()
            && records[positions[id] as int].id_of() == id
}

/// Records that an index covers have distinct identifiers.
pub proof fn lemma_indexed_distinct<T: LocationBase>(positions: Map<u64, usize>, records: Seq<T>)
    requires
        indexes(positions, records),
    ensures
        distinct_ids(records),
{
    assert forall|i: int, j: int| 0 <= i < j < records.len() implies (
    #[trigger] records[i]).id_of() != (#[trigger] records[j]).id_of() by {
        assert(positions[records[i].id_of()] == i);
        assert(positions[records[j].id_of()] == j);
    }
}

/// Among records with distinct identifiers, a record with the identifier
/// `id` is the one that `by_id` gives.
pub proof fn lemma_position_unique<T: LocationBase>(records: Seq<T>, id: u64, i: int)
    requires
        distinct_ids(records),
        0 <= i < records.len(),
        records[i].id_of() == id,
    ensures
        has_id(records, id),
        position_of(records, id) == i,
        by_id(records, id) == Some(records[i]),
{
    let j = position_of(records, id);
    assert(records[j].id_of() == id);
    if j < i {
        assert(records[j].id_of() != records[i].id_of());
    } else if i < j {
        assert(records[i].id_of() != records[j].id_of());
    }
}

/// Builds the table of the given records.
///
/// Fails with `Loader` exactly when two records share an identifier; no
/// table exists then. Otherwise the table holds the records as given.
pub fn load_records_by_id<T: LocationBase>(records: Vec<T>) -> (loaded: Result<
    IdTable<T>,
    LocationFinderError,
>)
    ensures
        match loaded {
            Ok(table) => distinct_ids(records@) && table@ == records@,
            Err(error) => error is Loader && !distinct_ids(records@),
        },
{
    broadcast use vstd::std_specs::hash::group_hash_axioms;

    let mut positions: HashMap<u64, usize> = HashMap::new();
    let mut i: usize = 0;
    while i < records.len()
        invariant
            i <= records.len(),
            indexes(positions@, records@.take(i as int)),
        decreases records.len() - i,
    {
        let id = records[i].id();
        let previous = positions.insert(id, i);
        if previous.is_some() {
            proof {
                let j = previous->0 as int;
                assert(records@.take(i as int)[j].id_of() == id);
                assert(records@[j].id_of() == records@[i as int].id_of());
            }
            return Err(LocationFinderError::Loader);
        }
        proof {
            let before = records@.take(i as int);
            let after = records@.take(i + 1);
            assert forall|k: int| 0 <= k < after.len() implies positions@.contains_key(
                (#[trigger] after[k]).id_of(),
            ) && positions@[after[k].id_of()] == k by {
                if k < i {
                    assert(after[k] == before[k]);
                }
            }
            assert forall|key: u64| #[trigger] positions@.contains_key(key) implies 0
                <= positions@[key] < after.len() && after[positions@[key] as int].id_of()
                == key by {
                if key != id {
                    assert(after[positions@[key] as int] == before[positions@[key] as int]);
                }
            }
        }
        i += 1;
    }
    proof {
        assert(records@.take(records.len() as int) == records@);
        lemma_indexed_distinct(positions@, records@);
    }
    Ok(IdTable { records, positions })
}

/// Loads the given records into a slot that is filled at most once.
///
/// Fails with `Loader` when two records share an identifier or the slot is
/// already filled, and leaves the slot as it was. Otherwise the slot holds
/// the table of the records.
pub fn load_records<T: LocationBase>(records: Vec<T>, slot: &mut Option<IdTable<T>>) -> (loaded:
    Result<(), LocationFinderError>)
    ensures
        loaded is Ok <==> distinct_ids(records@) && *old(slot) is None,
        loaded is Ok ==> *final(slot) is Some && final(slot)->0@ == records@,
        loaded is Err ==> loaded->Err_0 is Loader && *final(slot) == *old(slot),
{
    if slot.is_some() {
        return Err(LocationFinderError::Loader);
    }
    match load_records_by_id(records) {
        Ok(table) => {
            *slot = Some(table);
            Ok(())
        },
        Err(error) => Err(error),
    }
}

} // verus!
