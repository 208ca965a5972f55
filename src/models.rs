//! The schedule data: events, days, an educator's week, and the people
//! who watch educators.
use std::collections::BTreeSet;
use vstd::prelude::*;

use crate::order::{cohorts_ascending, texts_ascending};
use crate::text::views;

verus! {

/// Number of working days in a schedule week, Monday to Saturday.
pub const DAYS_IN_WEEK: usize = 6;

/// A cohort label: its category and its name (`Группа`, `101A`).
#[derive(Debug, PartialEq, Eq)]
pub struct ContingentUnitName {
    pub item1: String,
    pub item2: String,
}

impl View for ContingentUnitName {
    type V = (Seq<char>, Seq<char>);

    open spec fn view(&self) -> (Seq<char>, Seq<char>) {
        (self.item1@, self.item2@)
    }
}

/// A place where an event is held.
#[derive(Debug, PartialEq, Eq)]
pub struct EventLocation {
    pub display_name: String,
}

impl View for EventLocation {
    type V = Seq<char>;

    open spec fn view(&self) -> Seq<char> {
        self.display_name@
    }
}

/// One scheduled class. Dates, locations and cohorts are sets: their order
/// and repetitions carry no meaning.
#[derive(Debug, PartialEq, Eq)]
pub struct DayStudyEvent {
    pub time_interval_string: String,
    pub subject: String,
    pub dates: Vec<String>,
    pub event_locations: Vec<EventLocation>,
    pub contingent_unit_names: Vec<ContingentUnitName>,
}

/// What an event holds, as mathematical values.
pub struct EventView {
    pub time: Seq<char>,
    pub subject: Seq<char>,
    pub dates: Seq<Seq<char>>,
    pub locations: Seq<Seq<char>>,
    pub cohorts: Seq<(Seq<char>, Seq<char>)>,
}

impl View for DayStudyEvent {
    type V = EventView;

    open spec fn view(&self) -> EventView {
        EventView {
            time: self.time_interval_string@,
            subject: self.subject@,
            dates: views(self.dates@),
            locations: views(self.event_locations@),
            cohorts: views(self.contingent_unit_names@),
        }
    }
}

impl EventView {
    /// Dates, locations and cohorts are each listed once, in ascending
    /// order: the one canonical listing of each set.
    pub open spec fn well_formed(self) -> bool {
        &&& texts_ascending(self.dates)
        &&& texts_ascending(self.locations)
        &&& cohorts_ascending(self.cohorts)
    }
}

/// Every event of the sequence is well formed.
pub open spec fn events_well_formed(events: Seq<EventView>) -> bool {
    forall|i: int| 0 <= i < events.len() ==> #[trigger] events[i].well_formed()
}

/// One weekday of an educator's schedule.
#[derive(Debug, PartialEq, Eq)]
pub struct EducatorDay {
    pub day_string: String,
    pub day_study_events_count: u8,
    pub day_study_events: Vec<DayStudyEvent>,
}

/// What a day holds, as mathematical values.
pub struct DayView {
    pub label: Seq<char>,
    pub count: u8,
    pub events: Seq<EventView>,
}

impl View for EducatorDay {
    type V = DayView;

    open spec fn view(&self) -> DayView {
        DayView {
            label: self.day_string@,
            count: self.day_study_events_count,
            events: views(self.day_study_events@),
        }
    }
}

impl DayView {
    /// Every event of the day is well formed.
    pub open spec fn well_formed(self) -> bool {
        events_well_formed(self.events)
    }
}

/// One educator's week: six days in calendar order.
#[derive(Debug, PartialEq, Eq)]
pub struct EducatorEvents {
    pub educator_long_display_text: String,
    pub educator_master_id: u32,
    pub educator_events_days: Vec<EducatorDay>,
}

/// What an educator's week holds, as mathematical values.
pub struct ScheduleView {
    pub name: Seq<char>,
    pub id: u32,
    pub days: Seq<DayView>,
}

impl View for EducatorEvents {
    type V = ScheduleView;

    open spec fn view(&self) -> ScheduleView {
        ScheduleView {
            name: self.educator_long_display_text@,
            id: self.educator_master_id,
            days: views(self.educator_events_days@),
        }
    }
}

impl ScheduleView {
    /// A week has exactly one day record per working weekday, and every
    /// event lists its sets in ascending order.
    pub open spec fn well_formed(self) -> bool {
        &&& self.days.len() == DAYS_IN_WEEK
        &&& forall|i: int| 0 <= i < self.days.len() ==> #[trigger] self.days[i].well_formed()
    }
}

/// Someone who receives the changes of the educators they watch.
#[derive(Debug, PartialEq, Eq)]
pub struct User {
    pub name: String,
    pub watch_educators: BTreeSet<u32>,
    pub watch_groups: BTreeSet<u32>,
    pub email: String,
}

/// Where the tool reads its inputs and keeps the previous snapshot.
#[derive(Debug, PartialEq, Eq)]
pub struct Args {
    pub users_json_path: String,
    pub config_json_path: String,
    pub previous_events_json_path: String,
}

/// Mail sender settings.
#[derive(Debug, PartialEq, Eq)]
pub struct Config {
    pub email_relay: String,
    pub email_sender_username: String,
    pub email_sender_fullname: String,
    pub email_sender_password: String,
}

} // verus!
