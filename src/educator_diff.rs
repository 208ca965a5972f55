//! The changes of one educator's week, day by day.
use vstd::prelude::*;

use crate::day_diff::{diff_day, lemma_unmatched_within, unmatched};
use crate::models::{events_well_formed, DayStudyEvent, DayView, EducatorDay, EducatorEvents, EventView, ScheduleView, DAYS_IN_WEEK};
use crate::text::views;

verus! {

/// How one weekday changed.
pub enum DayChange<'a> {
    /// The day had no events before and has some now.
    NewDay(&'a EducatorDay),
    /// The day had events before; `day` is its new record. As built by
    /// `diff_educator`, `added` and `removed` are not both empty.
    ChangedDay {
        day: &'a EducatorDay,
        added: Vec<&'a DayStudyEvent>,
        removed: Vec<&'a DayStudyEvent>,
    },
}

/// How one weekday changed, as mathematical values.
pub enum ChangeView {
    NewDay(DayView),
    ChangedDay { label: Seq<char>, added: Seq<EventView>, removed: Seq<EventView> },
}

impl ChangeView {
    /// The events that the change carries are well formed.
    pub open spec fn well_formed(self) -> bool {
        match self {
            ChangeView::NewDay(d) => d.well_formed(),
            ChangeView::ChangedDay { added, removed, .. } => events_well_formed(added)
                && events_well_formed(removed),
        }
    }
}

/// Every change of the sequence is well formed.
pub open spec fn changes_well_formed(changes: Seq<ChangeView>) -> bool {
    forall|i: int| 0 <= i < changes.len() ==> #[trigger] changes[i].well_formed()
}

impl<'a> View for DayChange<'a> {
    type V = ChangeView;

    open spec fn view(&self) -> ChangeView {
        match self {
            DayChange::NewDay(day) => ChangeView::NewDay(day@),
            DayChange::ChangedDay { day, added, removed } => ChangeView::ChangedDay {
                label: day@.label,
                added: views(added@),
                removed: views(removed@),
            },
        }
    }
}

/// How a weekday changed between its old record (absent when the educator
/// was not known before) and its new one; `None` when it is untouched.
pub open spec fn day_change(old_day: Option<DayView>, new_day: DayView) -> Option<ChangeView> {
    if old_day is Some && old_day->0.count != 0 {
        let added = unmatched(new_day.events, old_day->0.events);
        let removed = unmatched(old_day->0.events, new_day.events);
        if added.len() == 0 && removed.len() == 0 {
            None
        } else {
            Some(ChangeView::ChangedDay { label: new_day.label, added, removed })
        }
    } else if new_day.count != 0 {
        Some(ChangeView::NewDay(new_day))
    } else {
        None
    }
}

/// The old record of day `i`, if there is an old schedule.
pub open spec fn old_day_at(old: Option<ScheduleView>, i: int) -> Option<DayView> {
    match old {
        Some(o) => Some(o.days[i]),
        None => None,
    }
}

/// The changes of the first `n` days, in day order.
pub open spec fn changes_upto(old: Option<ScheduleView>, new: ScheduleView, n: int) -> Seq<
    ChangeView,
>
    decreases n,
{
    if n <= 0 {
        Seq::empty()
    } else {
        let rest = changes_upto(old, new, n - 1);
        match day_change(old_day_at(old, n - 1), new.days[n - 1]) {
            Some(c) => rest.push(c),
            None => rest,
        }
    }
}

/// The changes of a week, in day order, untouched days left out.
pub open spec fn educator_changes(old: Option<ScheduleView>, new: ScheduleView) -> Seq<ChangeView> {
    changes_upto(old, new, new.days.len() as int)
}

/// The changes of well-formed weeks are well formed.
pub proof fn lemma_changes_well_formed(old: Option<ScheduleView>, new: ScheduleView, n: int)
    requires
        new.well_formed(),
        old matches Some(o) ==> o.well_formed(),
        0 <= n <= new.days.len(),
    ensures
        changes_well_formed(changes_upto(old, new, n)),
    decreases n,
{
    if n > 0 {
        lemma_changes_well_formed(old, new, n - 1);
        let nd = new.days[n - 1];
        assert(nd.well_formed());
        match old_day_at(old, n - 1) {
            Some(od) => {
                assert(od.well_formed());
                lemma_unmatched_within(nd.events, od.events);
                lemma_unmatched_within(od.events, nd.events);
            },
            None => {},
        }
        let rest = changes_upto(old, new, n - 1);
        match day_change(old_day_at(old, n - 1), nd) {
            Some(c) => {
                assert(c.well_formed());
                assert forall|i: int| 0 <= i < rest.push(c).len() implies #[trigger] rest.push(c)[i].well_formed() by {
                    if i < rest.len() {
                        assert(rest[i].well_formed());
                    }
                }
            },
            None => {},
        }
    }
}

/// The view of an optional schedule.
pub open spec fn schedule_view(s: Option<&EducatorEvents>) -> Option<ScheduleView> {
    match s {
        Some(e) => Some(e@),
        None => None,
    }
}

/// Classifies one weekday, given its old record (if any) and its new one.
fn classify_day<'a>(old_day: Option<&'a EducatorDay>, new_day: &'a EducatorDay) -> (r: Option<
    DayChange<'a>,
>)
    ensures
        match r {
            Some(c) => day_change(schedule_day_view(old_day), new_day@) == Some(c@),
            None => day_change(schedule_day_view(old_day), new_day@) is None,
        },
{
    match old_day {
        Some(od) if od.day_study_events_count != 0 => {
            let (added, removed) = diff_day(od, new_day);
            if added.len() == 0 && removed.len() == 0 {
                None
            } else {
                Some(DayChange::ChangedDay { day: new_day, added, removed })
            }
        },
        _ => {
            if new_day.day_study_events_count != 0 {
                Some(DayChange::NewDay(new_day))
            } else {
                None
            }
        },
    }
}

/// The view of an optional day.
pub open spec fn schedule_day_view(d: Option<&EducatorDay>) -> Option<DayView> {
    match d {
        Some(e) => Some(e@),
        None => None,
    }
}

/// Compares an educator's new week with the old one (`None` when the
/// educator was not known before), day by day in calendar order. Days
/// without change are left out.
pub fn diff_educator<'a>(old: Option<&'a EducatorEvents>, new: &'a EducatorEvents) -> (r: Vec<
    DayChange<'a>,
>)
    requires
        new@.well_formed(),
        old matches Some(o) ==> o@.well_formed(),
    ensures
        views(r@) == educator_changes(schedule_view(old), new@),
        changes_well_formed(views(r@)),
{
    let mut r: Vec<DayChange<'a>> = Vec::new();
    let mut i: usize = 0;
    while i < DAYS_IN_WEEK
        invariant
            i <= DAYS_IN_WEEK,
            new@.well_formed(),
            old matches Some(o) ==> o@.well_formed(),
            views(r@) == changes_upto(schedule_view(old), new@, i as int),
        decreases DAYS_IN_WEEK - i,
    {
        let old_day = match old {
            Some(o) => Some(&o.educator_events_days[i]),
            None => None,
        };
        let ghost before = r@;
        let c = classify_day(old_day, &new.educator_events_days[i]);
        assert(schedule_day_view(old_day) == old_day_at(schedule_view(old), i as int));
        match c {
            Some(c) => {
                r.push(c);
                assert(views(r@) =~= views(before).push(r@.last()@));
            },
            None => {},
        }
        i += 1;
    }
    proof {
        lemma_changes_well_formed(schedule_view(old), new@, DAYS_IN_WEEK as int);
    }
    r
}

} // verus!
