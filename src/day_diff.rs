//! The events added to and removed from one weekday.
use vstd::prelude::*;

use crate::equality::{events_equal, same_event};
use crate::models::{events_well_formed, DayStudyEvent, EducatorDay, EventView};
use crate::text::views;

verus! {

/// Whether some event of `events` is the same event as `e`.
pub open spec fn has_same(events: Seq<EventView>, e: EventView) -> bool {
    exists|i: int| 0 <= i < events.len() && same_event(#[trigger] events[i], e)
}

/// The events of `src` that have no same event in `other`, in the order of `src`.
pub open spec fn unmatched(src: Seq<EventView>, other: Seq<EventView>) -> Seq<EventView>
    decreases src.len(),
{
    if src.len() == 0 {
        Seq::empty()
    } else {
        let rest = unmatched(src.drop_last(), other);
        if has_same(other, src.last()) {
            rest
        } else {
            rest.push(src.last())
        }
    }
}

/// Every event kept by `unmatched` is an event of `src`; so the kept events
/// of well-formed events are well formed.
pub proof fn lemma_unmatched_within(src: Seq<EventView>, other: Seq<EventView>)
    ensures
        forall|k: int|
            0 <= k < unmatched(src, other).len() ==> src.contains(#[trigger] unmatched(src, other)[k]),
        events_well_formed(src) ==> events_well_formed(unmatched(src, other)),
    decreases src.len(),
{
    if src.len() > 0 {
        let rest = unmatched(src.drop_last(), other);
        lemma_unmatched_within(src.drop_last(), other);
        assert forall|k: int| 0 <= k < rest.len() implies src.contains(#[trigger] rest[k]) by {
            let j = choose|j: int| 0 <= j < src.drop_last().len() && src.drop_last()[j] == rest[k];
            assert(src[j] == rest[k]);
        }
        assert(src[src.len() - 1] == src.last());
    }
    let u = unmatched(src, other);
    if events_well_formed(src) {
        assert forall|k: int| 0 <= k < u.len() implies #[trigger] u[k].well_formed() by {
            let j = choose|j: int| 0 <= j < src.len() && src[j] == u[k];
            assert(src[j].well_formed());
        }
    }
}

/// Whether some event of `events` is the same event as `e`.
fn has_same_event(events: &Vec<DayStudyEvent>, e: &DayStudyEvent) -> (r: bool)
    ensures
        r == has_same(views(events@), e@),
{
    let mut i: usize = 0;
    while i < events.len()
        invariant
            i <= events@.len(),
            forall|j: int| 0 <= j < i ==> !same_event(#[trigger] views(events@)[j], e@),
        decreases events@.len() - i,
    {
        if events_equal(&events[i], e) {
            assert(same_event(views(events@)[i as int], e@));
            return true;
        }
        i += 1;
    }
    false
}

/// The events of `src` that have no same event in `other`, in the order of `src`.
fn unmatched_events<'a>(src: &'a Vec<DayStudyEvent>, other: &Vec<DayStudyEvent>) -> (r: Vec<
    &'a DayStudyEvent,
>)
    ensures
        views(r@) == unmatched(views(src@), views(other@)),
{
    let mut r: Vec<&'a DayStudyEvent> = Vec::new();
    let mut i: usize = 0;
    while i < src.len()
        invariant
            i <= src@.len(),
            views(r@) == unmatched(views(src@.subrange(0, i as int)), views(other@)),
        decreases src@.len() - i,
    {
        let ghost before = r@;
        let e = &src[i];
        let found = has_same_event(other, e);
        if !found {
            r.push(e);
        }
        proof {
            let next = views(src@.subrange(0, i + 1));
            assert(next.drop_last() =~= views(src@.subrange(0, i as int)));
            assert(next.last() == e@);
            if !found {
                assert(views(r@) =~= views(before).push(e@));
            }
        }
        i += 1;
    }
    assert(src@.subrange(0, src@.len() as int) =~= src@);
    r
}

/// Compares two records of the same weekday. Returns the events of `new_day`
/// that have no same event in `old_day` (added), and the events of `old_day`
/// that have no same event in `new_day` (removed), each in its day's order.
pub fn diff_day<'a>(old_day: &'a EducatorDay, new_day: &'a EducatorDay) -> (r: (
    Vec<&'a DayStudyEvent>,
    Vec<&'a DayStudyEvent>,
))
    ensures
        views(r.0@) == unmatched(new_day@.events, old_day@.events),
        views(r.1@) == unmatched(old_day@.events, new_day@.events),
{
    let added = unmatched_events(&new_day.day_study_events, &old_day.day_study_events);
    let removed = unmatched_events(&old_day.day_study_events, &new_day.day_study_events);
    (added, removed)
}

} // verus!
