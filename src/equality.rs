//! When two events are the same event: equal time and subject, and equal
//! sets of dates, locations and cohorts.
use vstd::prelude::*;

use crate::models::{ContingentUnitName, DayStudyEvent, EventLocation, EventView};
use crate::text::views;

verus! {

/// Two events are the same event when time and subject agree and the three
/// multi-valued fields hold the same members.
pub open spec fn same_event(a: EventView, b: EventView) -> bool {
    &&& a.time == b.time
    &&& a.subject == b.subject
    &&& a.dates.to_set() == b.dates.to_set()
    &&& a.locations.to_set() == b.locations.to_set()
    &&& a.cohorts.to_set() == b.cohorts.to_set()
}

/// Values compared by what they hold.
pub trait ValueEq: View + Sized {
    fn value_eq(&self, other: &Self) -> (r: bool)
        ensures
            r == (self@ == other@),
    ;
}

impl ValueEq for String {
    fn value_eq(&self, other: &Self) -> (r: bool) {
        *self == *other
    }
}

impl ValueEq for EventLocation {
    fn value_eq(&self, other: &Self) -> (r: bool) {
        self.display_name == other.display_name
    }
}

impl ValueEq for ContingentUnitName {
    fn value_eq(&self, other: &Self) -> (r: bool) {
        self.item1 == other.item1 && self.item2 == other.item2
    }
}

/// Whether some item of `items` holds the value of `x`.
fn holds_value<T: ValueEq>(items: &Vec<T>, x: &T) -> (r: bool)
    ensures
        r == views(items@).contains(x@),
{
    let mut i: usize = 0;
    while i < items.len()
        invariant
            i <= items@.len(),
            forall|j: int| 0 <= j < i ==> views(items@)[j] != x@,
        decreases items@.len() - i,
    {
        if items[i].value_eq(x) {
            assert(views(items@)[i as int] == x@);
            return true;
        }
        i += 1;
    }
    false
}

/// Whether every value held in `a` is also held in `b`.
fn values_within<T: ValueEq>(a: &Vec<T>, b: &Vec<T>) -> (r: bool)
    ensures
        r == views(a@).to_set().subset_of(views(b@).to_set()),
{
    let mut i: usize = 0;
    while i < a.len()
        invariant
            i <= a@.len(),
            forall|j: int| 0 <= j < i ==> views(b@).contains(#[trigger] views(a@)[j]),
        decreases a@.len() - i,
    {
        if !holds_value(b, &a[i]) {
            assert(views(a@).to_set().contains(views(a@)[i as int]));
            return false;
        }
        i += 1;
    }
    true
}

/// Whether `a` and `b` hold the same set of values.
fn same_values<T: ValueEq>(a: &Vec<T>, b: &Vec<T>) -> (r: bool)
    ensures
        r == (views(a@).to_set() == views(b@).to_set()),
{
    let r = values_within(a, b) && values_within(b, a);
    if r {
        assert(views(a@).to_set() =~= views(b@).to_set());
    }
    r
}

/// Whether `a` and `b` are the same event.
pub fn events_equal(a: &DayStudyEvent, b: &DayStudyEvent) -> (r: bool)
    ensures
        r == same_event(a@, b@),
{
    a.time_interval_string == b.time_interval_string && a.subject == b.subject && same_values(
        &a.dates,
        &b.dates,
    ) && same_values(&a.event_locations, &b.event_locations) && same_values(
        &a.contingent_unit_names,
        &b.contingent_unit_names,
    )
}

} // verus!
