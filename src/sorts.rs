//! Splitting educator ids into new, stale and stable ones.
use std::collections::HashSet;
use vstd::prelude::*;
use vstd::std_specs::iter::IteratorSpec;

verus! {

/// Splits educator ids by whether they are watched and whether they are
/// stored. Returns (watched but not stored, stored but no longer watched,
/// watched and stored).
pub fn generate_sorts_of_educators(
    watched_educators: &HashSet<u32>,
    educators_in_db: &HashSet<u32>,
) -> (r: (HashSet<u32>, HashSet<u32>, HashSet<u32>))
    ensures
        r.0@ == watched_educators@.difference(educators_in_db@),
        r.1@ == educators_in_db@.difference(watched_educators@),
        r.2@ == watched_educators@.intersect(educators_in_db@),
{
    let mut new_educators: HashSet<u32> = HashSet::new();
    let mut stable_educators: HashSet<u32> = HashSet::new();
    let ghost watched = watched_educators.iter().remaining().unref();
    for id in it: watched_educators.iter()
        invariant
            it.seq().unref() == watched,
            new_educators@ == watched.subrange(0, it.index() as int).to_set().difference(
                educators_in_db@,
            ),
            stable_educators@ == watched.subrange(0, it.index() as int).to_set().intersect(
                educators_in_db@,
            ),
    {
        let ghost seen = watched.subrange(0, it.index() as int).to_set();
        proof {
            let prefix = watched.subrange(0, it.index() as int);
            assert(watched.subrange(0, it.index() + 1) =~= prefix.push(*id));
            assert forall|x: u32| #[trigger] prefix.push(*id).contains(x) == seen.insert(*id).contains(x) by {
                if x != *id && prefix.push(*id).contains(x) {
                    let j = choose|j: int| 0 <= j < prefix.len() + 1 && prefix.push(*id)[j] == x;
                    assert(prefix[j] == x);
                }
                if prefix.contains(x) {
                    let j = choose|j: int| 0 <= j < prefix.len() && prefix[j] == x;
                    assert(prefix.push(*id)[j] == x);
                }
                assert(prefix.push(*id)[prefix.len() as int] == *id);
            }
            assert(watched.subrange(0, it.index() + 1).to_set() =~= seen.insert(*id));
        }
        if educators_in_db.contains(id) {
            stable_educators.insert(*id);
        } else {
            new_educators.insert(*id);
        }
        assert(new_educators@ =~= seen.insert(*id).difference(educators_in_db@));
        assert(stable_educators@ =~= seen.insert(*id).intersect(educators_in_db@));
    }
    assert(watched.subrange(0, watched.len() as int) =~= watched);
    let mut stale_educators: HashSet<u32> = HashSet::new();
    let ghost stored = educators_in_db.iter().remaining().unref();
    for id in it: educators_in_db.iter()
        invariant
            it.seq().unref() == stored,
            stale_educators@ == stored.subrange(0, it.index() as int).to_set().difference(
                watched_educators@,
            ),
    {
        let ghost seen = stored.subrange(0, it.index() as int).to_set();
        proof {
            let prefix = stored.subrange(0, it.index() as int);
            assert(stored.subrange(0, it.index() + 1) =~= prefix.push(*id));
            assert forall|x: u32| #[trigger] prefix.push(*id).contains(x) == seen.insert(*id).contains(x) by {
                if x != *id && prefix.push(*id).contains(x) {
                    let j = choose|j: int| 0 <= j < prefix.len() + 1 && prefix.push(*id)[j] == x;
                    assert(prefix[j] == x);
                }
                if prefix.contains(x) {
                    let j = choose|j: int| 0 <= j < prefix.len() && prefix[j] == x;
                    assert(prefix.push(*id)[j] == x);
                }
                assert(prefix.push(*id)[prefix.len() as int] == *id);
            }
            assert(stored.subrange(0, it.index() + 1).to_set() =~= seen.insert(*id));
        }
        if !watched_educators.contains(id) {
            stale_educators.insert(*id);
        }
        assert(stale_educators@ =~= seen.insert(*id).difference(watched_educators@));
    }
    assert(stored.subrange(0, stored.len() as int) =~= stored);
    (new_educators, stale_educators, stable_educators)
}

} // verus!
