//! The player's own locations and whether each is checked.
use vstd::prelude::*;

use crate::location::Location;

verus! {

/// Whether a location of the player's own game has been checked.
#[derive(Debug, Clone, Copy, PartialEq, Eq, Structural)]
pub struct LocalLocation {
    pub id: i64,
    pub checked: bool,
}

/// Whether `local` has an entry for location `id`.
pub open spec fn local_has(local: Seq<LocalLocation>, id: i64) -> bool {
    exists|k: int| 0 <= k < local.len() && (#[trigger] local[k]).id == id
}

/// Whether `local` records location `id` as checked.
pub open spec fn local_checked(local: Seq<LocalLocation>, id: i64) -> bool {
    exists|k: int| 0 <= k < local.len() && (#[trigger] local[k]).id == id && local[k].checked
}

/// The IDs that `local` records as checked.
pub open spec fn checked_set(local: Seq<LocalLocation>) -> Set<i64> {
    Set::new(|id: i64| local_checked(local, id))
}

/// Whether no two entries of `local` share an ID.
pub open spec fn local_unique(local: Seq<LocalLocation>) -> bool {
    forall|i: int, j: int|
        0 <= i < local.len() && 0 <= j < local.len() && (#[trigger] local[i]).id == (#[trigger] local[j]).id
            ==> i == j
}

/// Records location `id` as `checked`, adding an entry when there is none.
pub(crate) fn set_local(local: &mut Vec<LocalLocation>, id: i64, checked: bool)
    requires
        local_unique(old(local)@),
    ensures
        local_unique(final(local)@),
        local_has(final(local)@, id),
        local_checked(final(local)@, id) == checked,
        forall|other: i64| other != id ==> local_has(final(local)@, other) == local_has(old(local)@, other),
        forall|other: i64| other != id ==> local_checked(final(local)@, other) == local_checked(old(local)@, other),
        forall|k: int| 0 <= k < final(local)@.len() ==> (#[trigger] final(local)@[k]).id == id
            || local_has(old(local)@, final(local)@[k].id),
        final(local)@.len() == old(local)@.len() + if local_has(old(local)@, id) { 0int } else { 1int },
{
    let mut j: usize = 0;
    while j < local.len()
        invariant
            j <= local.len(),
            local@ == old(local)@,
            local_unique(local@),
            forall|i: int| 0 <= i < j ==> (#[trigger] local@[i]).id != id,
        decreases local.len() - j,
    {
        if local[j].id == id {
            let ghost before = local@;
            local.set(j, LocalLocation { id, checked });
            proof {
                assert forall|a: int, b: int|
                    0 <= a < local@.len() && 0 <= b < local@.len() && (#[trigger] local@[a]).id == (#[trigger] local@[b]).id
                    implies a == b by {
                    assert(before[a].id == before[b].id);
                }
                assert(local@[j as int].id == id);
                assert forall|other: i64| other != id implies local_has(local@, other) == local_has(before, other) by {
                    if local_has(before, other) {
                        let k = choose|k: int| 0 <= k < before.len() && (#[trigger] before[k]).id == other;
                        assert(local@[k].id == other);
                    }
                    if local_has(local@, other) {
                        let k = choose|k: int| 0 <= k < local@.len() && (#[trigger] local@[k]).id == other;
                        assert(before[k].id == other);
                    }
                }
                assert forall|other: i64| other != id implies local_checked(local@, other) == local_checked(before, other) by {
                    if local_checked(before, other) {
                        let k = choose|k: int| 0 <= k < before.len() && (#[trigger] before[k]).id == other && before[k].checked;
                        assert(local@[k].id == other);
                    }
                    if local_checked(local@, other) {
                        let k = choose|k: int| 0 <= k < local@.len() && (#[trigger] local@[k]).id == other && local@[k].checked;
                        assert(before[k].id == other);
                    }
                }
                if local_checked(local@, id) != checked {
                    let k = choose|k: int| 0 <= k < local@.len() && (#[trigger] local@[k]).id == id && local@[k].checked;
                    assert(local@[k].id == local@[j as int].id);
                }
                assert forall|k: int| 0 <= k < local@.len() implies (#[trigger] local@[k]).id == id
                    || local_has(before, local@[k].id) by {
                    if k != j {
                        assert(before[k] == local@[k]);
                    }
                }
                assert(local_has(before, id)) by {
                    assert(before[j as int].id == id);
                }
            }
            return;
        }
        j = j + 1;
    }
    let ghost before = local@;
    local.push(LocalLocation { id, checked });
    proof {
        assert(!local_has(before, id));
        assert forall|a: int, b: int|
            0 <= a < local@.len() && 0 <= b < local@.len() && (#[trigger] local@[a]).id == (#[trigger] local@[b]).id
            implies a == b by {
            if a < before.len() && b < before.len() {
                assert(before[a].id == before[b].id);
            }
        }
        let n = before.len() as int;
        assert(local@[n].id == id);
        assert forall|other: i64| other != id implies local_has(local@, other) == local_has(before, other) by {
            if local_has(before, other) {
                let k = choose|k: int| 0 <= k < before.len() && (#[trigger] before[k]).id == other;
                assert(local@[k].id == other);
            }
            if local_has(local@, other) {
                let k = choose|k: int| 0 <= k < local@.len() && (#[trigger] local@[k]).id == other;
                assert(before[k].id == other);
            }
        }
        assert forall|other: i64| other != id implies local_checked(local@, other) == local_checked(before, other) by {
            if local_checked(before, other) {
                let k = choose|k: int| 0 <= k < before.len() && (#[trigger] before[k]).id == other && before[k].checked;
                assert(local@[k].id == other);
            }
            if local_checked(local@, other) {
                let k = choose|k: int| 0 <= k < local@.len() && (#[trigger] local@[k]).id == other && local@[k].checked;
                assert(before[k].id == other);
            }
        }
        if local_checked(local@, id) != checked {
            let k = choose|k: int| 0 <= k < local@.len() && (#[trigger] local@[k]).id == id && local@[k].checked;
            assert(k == n);
        }
        assert forall|k: int| 0 <= k < local@.len() implies (#[trigger] local@[k]).id == id
            || local_has(before, local@[k].id) by {
            if k < n {
                assert(before[k] == local@[k]);
            }
        }
    }
}

/// The number of distinct IDs of `ids` that `checked` does not hold yet.
pub open spec fn fresh_count(checked: Set<i64>, ids: Seq<i64>) -> nat
    decreases ids.len(),
{
    if ids.len() == 0 {
        0
    } else if checked.contains(ids[0]) {
        fresh_count(checked, ids.drop_first())
    } else {
        1 + fresh_count(checked.insert(ids[0]), ids.drop_first())
    }
}

/// `points` plus `count` times `per_check`, saturated at the largest `u64`.
pub open spec fn credited(points: u64, per_check: u64, count: nat) -> u64 {
    if points + count * per_check > u64::MAX {
        u64::MAX
    } else {
        (points + count * per_check) as u64
    }
}

/// Whether `local` records location `id` as checked.
pub(crate) fn local_is_checked(local: &Vec<LocalLocation>, id: i64) -> (r: bool)
    requires
        local_unique(local@),
    ensures
        r == local_checked(local@, id),
{
    let mut j: usize = 0;
    while j < local.len()
        invariant
            j <= local.len(),
            local_unique(local@),
            forall|i: int| 0 <= i < j ==> (#[trigger] local@[i]).id != id,
        decreases local.len() - j,
    {
        if local[j].id == id {
            let r = local[j].checked;
            proof {
                if !r && local_checked(local@, id) {
                    let k = choose|k: int| 0 <= k < local@.len() && (#[trigger] local@[k]).id == id && local@[k].checked;
                    assert(local@[k].id == local@[j as int].id);
                }
            }
            return r;
        }
        j = j + 1;
    }
    false
}

/// Whether `local` has an entry for `id` in the given checked state.
pub open spec fn local_state(local: Seq<LocalLocation>, id: i64, checked: bool) -> bool {
    exists|k: int| 0 <= k < local.len() && (#[trigger] local[k]).id == id && local[k].checked == checked
}

/// Whether some location of `locations` has ID `id`.
pub open spec fn listed(locations: Seq<Location>, id: i64) -> bool {
    exists|i: int| 0 <= i < locations.len() && (#[trigger] locations[i]).id == id
}


/// Whether `local` has an entry for location `id`.
pub(crate) fn local_contains(local: &Vec<LocalLocation>, id: i64) -> (r: bool)
    ensures
        r == local_has(local@, id),
{
    let mut j: usize = 0;
    while j < local.len()
        invariant
            j <= local.len(),
            forall|i: int| 0 <= i < j ==> (#[trigger] local@[i]).id != id,
        decreases local.len() - j,
    {
        if local[j].id == id {
            return true;
        }
        j = j + 1;
    }
    false
}

} // verus!
