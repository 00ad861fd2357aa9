//! Reconciliation of two record lists by primary key.
//!
//! Each list is indexed by id, a later record taking the place of an
//! earlier one with the same id. The two indexes are then compared id by
//! id. In what order the ids of a mismatch are reported is left open.

use std::collections::HashMap;
use vstd::prelude::*;
use crate::record::{Transaction, TransactionView, TxId};

verus! {

/// The result of comparing two sets of transaction records.
#[derive(Debug)]
pub enum CompareResult {
    /// Both sources contain identical transaction records.
    Identical,
    /// The sources differ.
    Mismatch {
        /// Transaction IDs present in source 2 but missing in source 1.
        missing_in_1: Vec<TxId>,
        /// Transaction IDs present in source 1 but missing in source 2.
        missing_in_2: Vec<TxId>,
        /// Transactions present in both sources but with differing fields:
        /// the id, the record of source 1 and the record of source 2.
        differing: Vec<(TxId, Transaction, Transaction)>,
    },
}

/// The records of a list by id. The last record with an id is the one
/// that counts.
pub open spec fn index_of(records: Seq<TransactionView>) -> Map<TxId, TransactionView>
    decreases records.len(),
{
    if records.len() == 0 {
        Map::empty()
    } else {
        index_of(records.drop_last()).insert(records.last().tx_id, records.last())
    }
}

/// Whether two lists hold the same record under every id.
pub open spec fn identical(a: Seq<TransactionView>, b: Seq<TransactionView>) -> bool {
    index_of(a) == index_of(b)
}

/// The ids of a list of differing records.
pub open spec fn differing_ids(differing: Seq<(TxId, Transaction, Transaction)>) -> Seq<TxId> {
    differing.map_values(|entry: (TxId, Transaction, Transaction)| entry.0)
}

/// Whether `missing` lists, each once, the ids that `there` has and `here`
/// lacks.
pub open spec fn lists_missing(
    missing: Seq<TxId>,
    here: Map<TxId, TransactionView>,
    there: Map<TxId, TransactionView>,
) -> bool {
    &&& missing.no_duplicates()
    &&& forall|id: TxId|
        missing.contains(id) <==> there.contains_key(id) && !here.contains_key(id)
}

/// Whether `differing` lists, each once and with both records, the ids
/// that both sides have with records that are not equal.
pub open spec fn lists_differing(
    differing: Seq<(TxId, Transaction, Transaction)>,
    one: Map<TxId, TransactionView>,
    two: Map<TxId, TransactionView>,
) -> bool {
    &&& differing_ids(differing).no_duplicates()
    &&& forall|i: int|
        0 <= i < differing.len() ==> {
            let entry = #[trigger] differing[i];
            &&& one.contains_key(entry.0)
            &&& two.contains_key(entry.0)
            &&& entry.1@ == one[entry.0]
            &&& entry.2@ == two[entry.0]
            &&& entry.1@ != entry.2@
        }
    &&& forall|id: TxId|
        one.contains_key(id) && two.contains_key(id) && one[id] != two[id]
            ==> differing_ids(differing).contains(id)
}

/// Whether `result` is what comparing the indexes `one` and `two` gives.
pub open spec fn reconciles(
    result: CompareResult,
    one: Map<TxId, TransactionView>,
    two: Map<TxId, TransactionView>,
) -> bool {
    match result {
        CompareResult::Identical => one == two,
        CompareResult::Mismatch { missing_in_1, missing_in_2, differing } => {
            &&& one != two
            &&& lists_missing(missing_in_1@, one, two)
            &&& lists_missing(missing_in_2@, two, one)
            &&& lists_differing(differing@, one, two)
        },
    }
}

/// Whether `slots` gives, for each id of `records`, the place of the last
/// record with that id.
pub open spec fn indexes(slots: Map<TxId, usize>, records: Seq<TransactionView>) -> bool {
    &&& slots.dom() == index_of(records).dom()
    &&& forall|id: TxId| #[trigger]
        slots.contains_key(id) ==> slots[id] < records.len() && records[slots[id] as int]
            == index_of(records)[id]
}

/// Indexes a list by id: for each id the place of the last record with it.
fn index_by_id(records: &[Transaction]) -> (slots: HashMap<TxId, usize>)
    ensures
        indexes(slots@, records.deep_view()),
{
    let ghost all = records.deep_view();
    let mut slots: HashMap<TxId, usize> = HashMap::new();
    let mut i: usize = 0;
    assert(slots@.dom() =~= index_of(all.take(0)).dom());
    while i < records.len()
        invariant
            i <= records.len(),
            all == records.deep_view(),
            indexes(slots@, all.take(i as int)),
        decreases records.len() - i,
    {
        let ghost before = slots@;
        let ghost seen = all.take(i as int);
        let ghost next = all.take(i + 1);
        slots.insert(records[i].tx_id, i);
        proof {
            assert(next.drop_last() =~= seen);
            assert(next.last() == records[i as int]@);
            assert(slots@.dom() =~= index_of(next).dom());
            assert forall|id: TxId| #[trigger] slots@.contains_key(id) implies slots@[id]
                < next.len() && next[slots@[id] as int] == index_of(next)[id] by {
                if id != records[i as int].tx_id {
                    assert(before.contains_key(id));
                    assert(seen[before[id] as int] == next[before[id] as int]);
                }
            }
        }
        i += 1;
    }
    assert(all.take(i as int) =~= all);
    slots
}

/// The ids of an index, each once, in the order in which the index hands
/// them out.
fn ids_of(slots: &HashMap<TxId, usize>) -> (ids: Vec<TxId>)
    ensures
        ids@.no_duplicates(),
        forall|id: TxId| ids@.contains(id) <==> slots@.contains_key(id),
{
    let mut ids: Vec<TxId> = Vec::new();
    for id in it: slots.keys()
        invariant
            it.seq().unref().to_set() == slots@.dom(),
            it.seq().no_duplicates(),
            ids@ == it.seq().take(it.index() as int).unref(),
            it.index() == it.seq().len() ==> ids@.to_set() == slots@.dom(),
            ids@.no_duplicates(),
    {
        ids.push(*id);
        assert(ids@ =~= it.seq().take(it.index() + 1).unref());
        assert(it.index() + 1 == it.seq().len() ==> it.seq().take(it.index() + 1) =~= it.seq());
        assert forall|i: int, j: int| 0 <= i < j < ids@.len() implies ids@[i] != ids@[j] by {
            assert(it.seq()[i] != it.seq()[j]);
        }
    }
    assert forall|id: TxId| ids@.contains(id) <==> slots@.contains_key(id) by {
        assert(ids@.to_set().contains(id) <==> ids@.contains(id));
    }
    ids
}

/// Compares two record lists by id.
pub fn compare_records(one: &[Transaction], two: &[Transaction]) -> (result: CompareResult)
    ensures
        reconciles(result, index_of(one.deep_view()), index_of(two.deep_view())),
{
    let ghost m1 = index_of(one.deep_view());
    let ghost m2 = index_of(two.deep_view());
    let slots1 = index_by_id(one);
    let slots2 = index_by_id(two);
    let ids1 = ids_of(&slots1);
    let ids2 = ids_of(&slots2);
    let mut missing_in_2: Vec<TxId> = Vec::new();
    let mut missing_in_1: Vec<TxId> = Vec::new();
    let mut differing: Vec<(TxId, Transaction, Transaction)> = Vec::new();

    let mut k: usize = 0;
    while k < ids1.len()
        invariant
            k <= ids1.len(),
            m1 == index_of(one.deep_view()),
            m2 == index_of(two.deep_view()),
            indexes(slots1@, one.deep_view()),
            indexes(slots2@, two.deep_view()),
            ids1@.no_duplicates(),
            forall|id: TxId| ids1@.contains(id) <==> slots1@.contains_key(id),
            missing_in_2@.no_duplicates(),
            forall|id: TxId|
                missing_in_2@.contains(id) <==> ids1@.take(k as int).contains(id)
                    && !m2.contains_key(id),
            differing_ids(differing@).no_duplicates(),
            forall|i: int|
                0 <= i < differing.len() ==> {
                    let entry = #[trigger] differing[i];
                    &&& ids1@.take(k as int).contains(entry.0)
                    &&& m2.contains_key(entry.0)
                    &&& entry.1@ == m1[entry.0]
                    &&& entry.2@ == m2[entry.0]
                    &&& entry.1@ != entry.2@
                },
            forall|id: TxId|
                ids1@.take(k as int).contains(id) && m2.contains_key(id) && m1[id] != m2[id]
                    ==> differing_ids(differing@).contains(id),
        decreases ids1.len() - k,
    {
        let id = ids1[k];
        let ghost seen = ids1@.take(k as int);
        let ghost next = ids1@.take(k + 1);
        let ghost old_missing = missing_in_2@;
        let ghost old_differing = differing@;
        proof {
            assert(next =~= seen.push(id));
            assert(ids1@.contains(id));
            assert(!seen.contains(id));
            assert forall|x: TxId| next.contains(x) <==> seen.contains(x) || x == id by {
                if seen.contains(x) {
                    let j = choose|j: int| 0 <= j < seen.len() && seen[j] == x;
                    assert(next[j] == x);
                }
                if x == id {
                    assert(next[k as int] == x);
                }
            }
        }
        let at1 = slots1.get(&id);
        assert(at1 is Some);
        let i1: usize = *at1.unwrap();
        match slots2.get(&id) {
            None => {
                missing_in_2.push(id);
                proof {
                    assert(missing_in_2@ =~= old_missing.push(id));
                    assert(!old_missing.contains(id));
                    assert forall|x: TxId|
                        missing_in_2@.contains(x) <==> next.contains(x) && !m2.contains_key(
                            x,
                        ) by {
                        if old_missing.contains(x) {
                            let j = choose|j: int| 0 <= j < old_missing.len() && old_missing[j] == x;
                            assert(missing_in_2@[j] == x);
                        }
                        if x == id {
                            assert(missing_in_2@[old_missing.len() as int] == x);
                        }
                    }
                }
            },
            Some(at2) => {
                let i2: usize = *at2;
                if !(one[i1] == two[i2]) {
                    differing.push((id, one[i1].clone(), two[i2].clone()));
                    proof {
                        let ids = differing_ids(old_differing);
                        let new_ids = differing_ids(differing@);
                        assert(new_ids =~= ids.push(id));
                        assert(!ids.contains(id)) by {
                            if ids.contains(id) {
                                let j = choose|j: int| 0 <= j < ids.len() && ids[j] == id;
                                assert(old_differing[j].0 == id);
                            }
                        }
                        assert forall|i: int| 0 <= i < differing.len() implies ({
                            let entry = #[trigger] differing[i];
                            &&& next.contains(entry.0)
                            &&& m2.contains_key(entry.0)
                            &&& entry.1@ == m1[entry.0]
                            &&& entry.2@ == m2[entry.0]
                            &&& entry.1@ != entry.2@
                        }) by {
                            if i < old_differing.len() {
                                assert(differing[i] == old_differing[i]);
                            }
                        }
                        assert forall|x: TxId|
                            next.contains(x) && m2.contains_key(x) && m1[x] != m2[x]
                                implies new_ids.contains(x) by {
                            if x == id {
                                assert(new_ids[ids.len() as int] == x);
                            } else {
                                let j = choose|j: int| 0 <= j < ids.len() && ids[j] == x;
                                assert(new_ids[j] == x);
                            }
                        }
                    }
                }
            },
        }
        k += 1;
    }
    assert(ids1@.take(k as int) =~= ids1@);

    let mut k: usize = 0;
    while k < ids2.len()
        invariant
            k <= ids2.len(),
            m1 == index_of(one.deep_view()),
            indexes(slots1@, one.deep_view()),
            ids2@.no_duplicates(),
            missing_in_1@.no_duplicates(),
            forall|id: TxId|
                missing_in_1@.contains(id) <==> ids2@.take(k as int).contains(id)
                    && !m1.contains_key(id),
        decreases ids2.len() - k,
    {
        let id = ids2[k];
        let ghost seen = ids2@.take(k as int);
        let ghost next = ids2@.take(k + 1);
        let ghost old_missing = missing_in_1@;
        proof {
            assert(next =~= seen.push(id));
            assert(!seen.contains(id));
            assert forall|x: TxId| next.contains(x) <==> seen.contains(x) || x == id by {
                if seen.contains(x) {
                    let j = choose|j: int| 0 <= j < seen.len() && seen[j] == x;
                    assert(next[j] == x);
                }
                if x == id {
                    assert(next[k as int] == x);
                }
            }
        }
        if !slots1.contains_key(&id) {
            missing_in_1.push(id);
            proof {
                assert(missing_in_1@ =~= old_missing.push(id));
                assert forall|x: TxId|
                    missing_in_1@.contains(x) <==> next.contains(x) && !m1.contains_key(x) by {
                    if old_missing.contains(x) {
                        let j = choose|j: int| 0 <= j < old_missing.len() && old_missing[j] == x;
                        assert(missing_in_1@[j] == x);
                    }
                    if x == id {
                        assert(missing_in_1@[old_missing.len() as int] == x);
                    }
                }
            }
        }
        k += 1;
    }
    assert(ids2@.take(k as int) =~= ids2@);

    if missing_in_1.len() == 0 && missing_in_2.len() == 0 && differing.len() == 0 {
        proof {
            assert forall|id: TxId| m1.contains_key(id) <==> m2.contains_key(id) by {
                if m1.contains_key(id) && !m2.contains_key(id) {
                    assert(missing_in_2@.contains(id));
                }
                if m2.contains_key(id) && !m1.contains_key(id) {
                    assert(missing_in_1@.contains(id));
                }
            }
            assert forall|id: TxId| m1.contains_key(id) implies m1[id] == m2[id] by {
                if m1[id] != m2[id] {
                    assert(differing_ids(differing@).contains(id));
                }
            }
            assert(m1 =~= m2);
        }
        CompareResult::Identical
    } else {
        proof {
            if missing_in_1.len() > 0 {
                assert(missing_in_1@.contains(missing_in_1@[0]));
            } else if missing_in_2.len() > 0 {
                assert(missing_in_2@.contains(missing_in_2@[0]));
            } else {
                let entry = differing@[0];
                assert(m1[entry.0] != m2[entry.0]);
            }
            assert forall|i: int| 0 <= i < differing.len() implies m1.contains_key(
                (#[trigger] differing[i]).0,
            ) by {
                assert(ids1@.contains(differing[i].0));
            }
        }
        CompareResult::Mismatch { missing_in_1, missing_in_2, differing }
    }
}

} // verus!
