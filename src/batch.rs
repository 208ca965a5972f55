//! Diffs of many educators at once: old snapshots against new ones.
use std::collections::BTreeMap;
use vstd::prelude::*;
use vstd::std_specs::iter::IteratorSpec;

use crate::educator_diff::{changes_upto, day_change, educator_changes, old_day_at};
use crate::models::{EducatorEvents, ScheduleView, DAYS_IN_WEEK};
use crate::render::{
    add_day_to_diff, change_lines, diff_educator_day, heading_line, lines_of, render_text, LINE_BREAK,
};
use crate::text::{join, push_line, views};

verus! {

/// Every schedule of a snapshot set has its six days.
pub open spec fn all_well_formed(snapshots: Map<u32, EducatorEvents>) -> bool {
    forall|id: u32| #[trigger] snapshots.contains_key(id) ==> snapshots[id]@.well_formed()
}

/// The old schedule of educator `id`, if there is one.
pub open spec fn prior(old: Map<u32, EducatorEvents>, id: u32) -> Option<ScheduleView> {
    if old.contains_key(id) {
        Some(old[id]@)
    } else {
        None
    }
}

/// The rendered changes of educator `id` from `old` to `new`.
pub open spec fn educator_message(
    old: Map<u32, EducatorEvents>,
    new: Map<u32, EducatorEvents>,
    id: u32,
) -> Seq<char> {
    render_text(educator_changes(prior(old, id), new[id]@))
}

/// For each educator of `new` whose rendered changes are not empty, those
/// changes; educators found only in `old` are left out.
pub open spec fn changed_messages(old: Map<u32, EducatorEvents>, new: Map<u32, EducatorEvents>) -> Map<
    u32,
    Seq<char>,
> {
    Map::new(
        |id: u32| new.contains_key(id) && educator_message(old, new, id).len() > 0,
        |id: u32| educator_message(old, new, id),
    )
}

/// The snapshot set of a stored list of schedules, keyed by educator id; a
/// later schedule of the same educator replaces an earlier one.
pub open spec fn snapshot_of(list: Seq<EducatorEvents>) -> Map<u32, EducatorEvents>
    decreases list.len(),
{
    if list.len() == 0 {
        Map::empty()
    } else {
        snapshot_of(list.drop_last()).insert(list.last().educator_master_id, list.last())
    }
}

/// Builds the snapshot set of a stored list of schedules, keyed by educator
/// id; a later schedule of the same educator replaces an earlier one.
pub fn snapshot_from_list(events: Vec<EducatorEvents>) -> (r: BTreeMap<u32, EducatorEvents>)
    ensures
        r@ == snapshot_of(events@),
{
    proof {
        assert(vstd::laws_cmp::obeys_cmp::<u32>());
    }
    let ghost all = events@;
    let mut r: BTreeMap<u32, EducatorEvents> = BTreeMap::new();
    for e in it: events.into_iter()
        invariant
            it.seq() == all,
            vstd::laws_cmp::obeys_cmp::<u32>(),
            r@ == snapshot_of(all.subrange(0, it.index() as int)),
    {
        proof {
            assert(all.subrange(0, it.index() + 1).drop_last() =~= all.subrange(0, it.index() as int));
        }
        r.insert(e.educator_master_id, e);
    }
    assert(all.subrange(0, all.len() as int) =~= all);
    r
}

/// The lines of one more day appended to the lines of the days before it.
proof fn lemma_lines_step(old: Option<ScheduleView>, new: ScheduleView, i: int)
    requires
        0 <= i,
    ensures
        lines_of(changes_upto(old, new, i + 1)) == lines_of(changes_upto(old, new, i)) + match day_change(
            old_day_at(old, i),
            new.days[i],
        ) {
            Some(c) => change_lines(c),
            None => Seq::empty(),
        },
{
    let rest = changes_upto(old, new, i);
    match day_change(old_day_at(old, i), new.days[i]) {
        Some(c) => {
            assert(rest.push(c).drop_last() =~= rest);
        },
        None => {
            assert(lines_of(rest) =~= lines_of(rest) + Seq::<Seq<char>>::empty());
        },
    }
}

/// The lines describing how a known educator's week changed, day by day.
pub fn add_tracked_educator_to_diff(
    educator_old_events: &EducatorEvents,
    educator_new_events: &EducatorEvents,
) -> (r: Vec<String>)
    requires
        educator_old_events@.well_formed(),
        educator_new_events@.well_formed(),
    ensures
        views(r@) == lines_of(educator_changes(Some(educator_old_events@), educator_new_events@)),
{
    let ghost old = Some(educator_old_events@);
    let ghost new = educator_new_events@;
    let mut cur_educator_diff: Vec<String> = Vec::new();
    let mut day: usize = 0;
    while day < DAYS_IN_WEEK
        invariant
            day <= DAYS_IN_WEEK,
            old == Some(educator_old_events@),
            new == educator_new_events@,
            educator_old_events@.well_formed(),
            new.well_formed(),
            views(cur_educator_diff@) == lines_of(changes_upto(old, new, day as int)),
        decreases DAYS_IN_WEEK - day,
    {
        let old_day = &educator_old_events.educator_events_days[day];
        let new_day = &educator_new_events.educator_events_days[day];
        proof {
            lemma_lines_step(old, new, day as int);
            assert(old_day_at(old, day as int) == Some(old_day@));
            assert(new.days[day as int] == new_day@);
            assert(new.days[day as int].well_formed());
            assert(educator_old_events@.days[day as int].well_formed());
        }
        if old_day.day_study_events_count == 0 {
            if new_day.day_study_events_count != 0 {
                add_day_to_diff(&mut cur_educator_diff, new_day);
            } else {
                assert(views(cur_educator_diff@) =~= views(cur_educator_diff@) + Seq::<
                    Seq<char>,
                >::empty());
            }
        } else {
            let ghost start = views(cur_educator_diff@);
            let (removed, added) = diff_educator_day(old_day, new_day);
            let mut combined = added;
            let mut removed = removed;
            combined.append(&mut removed);
            if combined.len() != 0 {
                push_line(&mut cur_educator_diff, heading_line(&new_day.day_string));
                let ghost mid = cur_educator_diff@;
                cur_educator_diff.append(&mut combined);
                assert(views(cur_educator_diff@) =~= views(mid) + views(
                    cur_educator_diff@.subrange(mid.len() as int, cur_educator_diff@.len() as int),
                ));
            }
            assert(views(cur_educator_diff@) =~= start + match day_change(
                old_day_at(old, day as int),
                new.days[day as int],
            ) {
                Some(c) => change_lines(c),
                None => Seq::empty(),
            });
        }
        day += 1;
    }
    cur_educator_diff
}

/// The lines describing an educator seen for the first time: every day
/// with events is a new day.
pub fn add_untracked_educator_to_diff(educator_events: &EducatorEvents) -> (r: Vec<String>)
    requires
        educator_events@.well_formed(),
    ensures
        views(r@) == lines_of(educator_changes(None, educator_events@)),
{
    let ghost new = educator_events@;
    let mut cur_educator_diff: Vec<String> = Vec::new();
    let mut day: usize = 0;
    while day < educator_events.educator_events_days.len()
        invariant
            day <= new.days.len(),
            new == educator_events@,
            new.well_formed(),
            views(cur_educator_diff@) == lines_of(changes_upto(None, new, day as int)),
        decreases new.days.len() - day,
    {
        proof {
            lemma_lines_step(None, new, day as int);
            assert(new.days[day as int].well_formed());
        }
        add_day_to_diff(&mut cur_educator_diff, &educator_events.educator_events_days[day]);
        day += 1;
    }
    cur_educator_diff
}

/// Diffs every educator of `educators_new` against their schedule in
/// `educators_old` (or, if absent there, as a new educator). Keeps those whose
/// rendered changes are not empty, with their new schedule.
pub fn generate_diff_messages<'a>(
    educators_old: &'a BTreeMap<u32, EducatorEvents>,
    educators_new: &'a BTreeMap<u32, EducatorEvents>,
) -> (r: BTreeMap<u32, (&'a EducatorEvents, String)>)
    requires
        all_well_formed(educators_old@),
        all_well_formed(educators_new@),
    ensures
        r@.dom() == changed_messages(educators_old@, educators_new@).dom(),
        forall|id: u32| #[trigger]
            r@.contains_key(id) ==> *r@[id].0 == educators_new@[id] && r@[id].1@ == changed_messages(
                educators_old@,
                educators_new@,
            )[id],
{
    proof {
        assert(vstd::laws_cmp::obeys_cmp::<u32>());
    }
    let ghost old = educators_old@;
    let ghost new = educators_new@;
    let ghost expected = changed_messages(old, new);
    let mut educators_new_w_messages: BTreeMap<u32, (&'a EducatorEvents, String)> = BTreeMap::new();
    let ghost kvs = educators_new.iter().remaining();
    for (educator_id, new_events) in it: educators_new.iter()
        invariant
            it.seq() == kvs,
            old == educators_old@,
            new == educators_new@,
            expected == changed_messages(old, new),
            all_well_formed(old),
            all_well_formed(new),
            vstd::laws_cmp::obeys_cmp::<u32>(),
            forall|id: u32| #[trigger]
                educators_new_w_messages@.contains_key(id) ==> expected.contains_key(id)
                    && *educators_new_w_messages@[id].0 == new[id]
                    && educators_new_w_messages@[id].1@ == expected[id],
            forall|j: int|
                0 <= j < it.index() && #[trigger] expected.contains_key(*kvs[j].0)
                    ==> educators_new_w_messages@.contains_key(*kvs[j].0),
    {
        let id = *educator_id;
        assert(new.contains_key(id) && new[id] == *new_events);
        let educator_diff = match educators_old.get(&id) {
            Some(old_events) => add_tracked_educator_to_diff(old_events, new_events),
            None => add_untracked_educator_to_diff(new_events),
        };
        let message = join(&educator_diff, LINE_BREAK);
        assert(message@ == educator_message(old, new, id));
        if !message.as_str().is_empty() {
            educators_new_w_messages.insert(id, (new_events, message));
        }
    }
    proof {
        assert forall|id: u32| #[trigger] expected.contains_key(id) implies educators_new_w_messages@.contains_key(
            id,
        ) by {
            assert(new.contains_key(id));
            assert(kvs.contains((&id, &new[id])));
            let j = choose|j: int| 0 <= j < kvs.len() && kvs[j] == (&id, &new[id]);
            assert(expected.contains_key(*kvs[j].0));
        }
        assert(educators_new_w_messages@.dom() =~= expected.dom());
    }
    educators_new_w_messages
}

} // verus!
