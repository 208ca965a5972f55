//! Turns changes into an HTML fragment: one line per marker, heading or
//! event, lines joined by `<br>`.
use vstd::prelude::*;

use crate::day_diff::diff_day;
use crate::day_diff::{lemma_unmatched_within, unmatched};
use crate::educator_diff::{changes_well_formed, ChangeView, DayChange};
use crate::models::{events_well_formed, DayStudyEvent, DayView, EducatorDay, EventView};
use crate::text::{join, joined, push_line, text_of, views};

verus! {

/// Line break between lines, and between the events of a new day.
pub const LINE_BREAK: &'static str = "<br>";

/// Separator inside a field that holds several values.
pub const FIELD_SEPARATOR: &'static str = ", ";

/// Marker line before a day that had no events before.
pub const NEW_DAY_MARK: &'static str = "<em style=\"color:green;\">Новый день:</em>";

/// Marker line before the added events of a day.
pub const ADDED_MARK: &'static str = "<em style=\"color:green;\">Новые события:</em>";

/// Marker line before the removed events of a day.
pub const REMOVED_MARK: &'static str = "<em style=\"color:red;\">Удалённые события:</em>";

/// A cohort written as category, space, name.
pub open spec fn cohort_text(c: (Seq<char>, Seq<char>)) -> Seq<char> {
    c.0 + " "@ + c.1
}

/// The text block of one event: subject, time, dates, locations, cohorts.
pub open spec fn event_text(e: EventView) -> Seq<char> {
    "    <b>Предмет:</b> "@ + e.subject + "<br>    <b>Время:</b> "@ + e.time
        + "<br>    <b>Даты:</b> "@ + joined(e.dates, FIELD_SEPARATOR@)
        + "<br>    <b>Места:</b> "@ + joined(e.locations, FIELD_SEPARATOR@)
        + "<br>    <b>Направления:</b> "@ + joined(
        e.cohorts.map_values(|c: (Seq<char>, Seq<char>)| cohort_text(c)),
        FIELD_SEPARATOR@,
    ) + "<br>"@
}

/// The text blocks of a sequence of events.
pub open spec fn event_texts(events: Seq<EventView>) -> Seq<Seq<char>> {
    events.map_values(|e: EventView| event_text(e))
}

/// The heading of a weekday.
pub open spec fn heading(label: Seq<char>) -> Seq<char> {
    "<b><font size=\"5\">"@ + label + ":</font></b>"@
}

/// The lines of a new day: its marker, then its heading and all its events.
pub open spec fn new_day_lines(d: DayView) -> Seq<Seq<char>> {
    seq![NEW_DAY_MARK@, heading(d.label) + LINE_BREAK@ + joined(event_texts(d.events), LINE_BREAK@)]
}

/// A marker followed by one line per event; nothing when there are no events.
pub open spec fn event_block(mark: Seq<char>, events: Seq<EventView>) -> Seq<Seq<char>> {
    if events.len() == 0 {
        Seq::empty()
    } else {
        seq![mark] + event_texts(events)
    }
}

/// The lines of one day change.
pub open spec fn change_lines(c: ChangeView) -> Seq<Seq<char>> {
    match c {
        ChangeView::NewDay(d) => new_day_lines(d),
        ChangeView::ChangedDay { label, added, removed } => seq![heading(label)] + event_block(
            ADDED_MARK@,
            added,
        ) + event_block(REMOVED_MARK@, removed),
    }
}

/// The lines of a sequence of day changes, in order.
pub open spec fn lines_of(changes: Seq<ChangeView>) -> Seq<Seq<char>>
    decreases changes.len(),
{
    if changes.len() == 0 {
        Seq::empty()
    } else {
        lines_of(changes.drop_last()) + change_lines(changes.last())
    }
}

/// The rendered text of a sequence of day changes.
pub open spec fn render_text(changes: Seq<ChangeView>) -> Seq<char> {
    joined(lines_of(changes), LINE_BREAK@)
}

/// The display names of a list of locations.
fn location_names(locations: &Vec<crate::models::EventLocation>) -> (r: Vec<String>)
    ensures
        views(r@) == views(locations@),
{
    let mut r: Vec<String> = Vec::new();
    let mut i: usize = 0;
    while i < locations.len()
        invariant
            i <= locations@.len(),
            views(r@) == views(locations@.subrange(0, i as int)),
        decreases locations@.len() - i,
    {
        push_line(&mut r, locations[i].display_name.clone());
        assert(views(locations@.subrange(0, i + 1)) =~= views(locations@.subrange(0, i as int)).push(
            locations@[i as int]@,
        ));
        i += 1;
    }
    assert(locations@.subrange(0, locations@.len() as int) =~= locations@);
    r
}

/// The cohorts of a list, each written as category, space, name.
fn cohort_names(cohorts: &Vec<crate::models::ContingentUnitName>) -> (r: Vec<String>)
    ensures
        views(r@) == views(cohorts@).map_values(|c: (Seq<char>, Seq<char>)| cohort_text(c)),
{
    let mut r: Vec<String> = Vec::new();
    let mut i: usize = 0;
    while i < cohorts.len()
        invariant
            i <= cohorts@.len(),
            views(r@) == views(cohorts@.subrange(0, i as int)).map_values(
                |c: (Seq<char>, Seq<char>)| cohort_text(c),
            ),
        decreases cohorts@.len() - i,
    {
        let mut s = text_of(cohorts[i].item1.as_str());
        s.append(" ");
        s.append(cohorts[i].item2.as_str());
        push_line(&mut r, s);
        assert(views(cohorts@.subrange(0, i + 1)).map_values(
            |c: (Seq<char>, Seq<char>)| cohort_text(c),
        ) =~= views(cohorts@.subrange(0, i as int)).map_values(
            |c: (Seq<char>, Seq<char>)| cohort_text(c),
        ).push(cohort_text(cohorts@[i as int]@)));
        i += 1;
    }
    assert(cohorts@.subrange(0, cohorts@.len() as int) =~= cohorts@);
    r
}

/// The text block of one event: subject, time, comma-joined dates,
/// locations and cohorts, one field per line.
pub fn format_event_as_string(event: &DayStudyEvent) -> (r: String)
    requires
        event@.well_formed(),
    ensures
        r@ == event_text(event@),
{
    let locations = location_names(&event.event_locations);
    let cohorts = cohort_names(&event.contingent_unit_names);
    let mut r = text_of("    <b>Предмет:</b> ");
    r.append(event.subject.as_str());
    r.append("<br>    <b>Время:</b> ");
    r.append(event.time_interval_string.as_str());
    r.append("<br>    <b>Даты:</b> ");
    r.append(join(&event.dates, FIELD_SEPARATOR).as_str());
    r.append("<br>    <b>Места:</b> ");
    r.append(join(&locations, FIELD_SEPARATOR).as_str());
    r.append("<br>    <b>Направления:</b> ");
    r.append(join(&cohorts, FIELD_SEPARATOR).as_str());
    r.append("<br>");
    r
}

/// The text blocks of a list of events.
fn format_events(events: &Vec<DayStudyEvent>) -> (r: Vec<String>)
    requires
        events_well_formed(views(events@)),
    ensures
        views(r@) == event_texts(views(events@)),
{
    let mut r: Vec<String> = Vec::new();
    let mut i: usize = 0;
    while i < events.len()
        invariant
            i <= events@.len(),
            views(r@) == event_texts(views(events@.subrange(0, i as int))),
            events_well_formed(views(events@)),
        decreases events@.len() - i,
    {
        assert(views(events@)[i as int].well_formed());
        push_line(&mut r, format_event_as_string(&events[i]));
        assert(event_texts(views(events@.subrange(0, i + 1))) =~= event_texts(
            views(events@.subrange(0, i as int)),
        ).push(event_text(events@[i as int]@)));
        i += 1;
    }
    assert(events@.subrange(0, events@.len() as int) =~= events@);
    r
}

/// The heading of a weekday.
pub(crate) fn heading_line(label: &String) -> (r: String)
    ensures
        r@ == heading(label@),
{
    let mut r = text_of("<b><font size=\"5\">");
    r.append(label.as_str());
    r.append(":</font></b>");
    r
}

/// Appends the lines of a new day: its marker, then its heading with all
/// its events.
fn push_new_day(lines: &mut Vec<String>, day: &EducatorDay)
    requires
        day@.well_formed(),
    ensures
        views(final(lines)@) == views(old(lines)@) + new_day_lines(day@),
{
    let ghost start = views(lines@);
    push_line(lines, text_of(NEW_DAY_MARK));
    let mut body = heading_line(&day.day_string);
    body.append(LINE_BREAK);
    let texts = format_events(&day.day_study_events);
    body.append(join(&texts, LINE_BREAK).as_str());
    push_line(lines, body);
    assert(views(lines@) =~= start + new_day_lines(day@));
}

/// If the day has events, appends the lines of a new day: its marker, then
/// its heading with all its events.
pub fn add_day_to_diff(cur_educator_diff: &mut Vec<String>, educator_day: &EducatorDay)
    requires
        educator_day@.well_formed(),
    ensures
        views(final(cur_educator_diff)@) == views(old(cur_educator_diff)@) + if educator_day@.count
            != 0 {
            new_day_lines(educator_day@)
        } else {
            Seq::empty()
        },
{
    if educator_day.day_study_events_count != 0 {
        push_new_day(cur_educator_diff, educator_day);
    } else {
        assert(views(cur_educator_diff@) =~= views(cur_educator_diff@) + Seq::<Seq<char>>::empty());
    }
}

/// Appends `mark` and one line per event, or nothing when there are no events.
fn push_event_block(lines: &mut Vec<String>, mark: &str, events: &Vec<&DayStudyEvent>)
    requires
        events_well_formed(views(events@)),
    ensures
        views(final(lines)@) == views(old(lines)@) + event_block(mark@, views(events@)),
{
    let ghost start = views(lines@);
    if events.len() == 0 {
        assert(views(lines@) =~= start + Seq::<Seq<char>>::empty());
        return ;
    }
    push_line(lines, text_of(mark));
    let mut i: usize = 0;
    while i < events.len()
        invariant
            i <= events@.len(),
            events@.len() > 0,
            views(lines@) == start + seq![mark@] + event_texts(views(events@.subrange(0, i as int))),
            events_well_formed(views(events@)),
        decreases events@.len() - i,
    {
        assert(views(events@)[i as int].well_formed());
        push_line(lines, format_event_as_string(events[i]));
        assert(views(lines@) =~= start + seq![mark@] + event_texts(
            views(events@.subrange(0, i + 1)),
        ));
        i += 1;
    }
    assert(events@.subrange(0, events@.len() as int) =~= events@);
    assert(views(lines@) =~= start + event_block(mark@, views(events@)));
}

/// Finds the events removed from and added to a weekday, and writes each
/// group as lines behind its marker. Returns (removed lines, added lines);
/// a group without events has no lines at all.
pub fn diff_educator_day(old_day: &EducatorDay, new_day: &EducatorDay) -> (r: (
    Vec<String>,
    Vec<String>,
))
    requires
        old_day@.well_formed(),
        new_day@.well_formed(),
    ensures
        views(r.0@) == event_block(REMOVED_MARK@, unmatched(old_day@.events, new_day@.events)),
        views(r.1@) == event_block(ADDED_MARK@, unmatched(new_day@.events, old_day@.events)),
{
    let (added, removed) = diff_day(old_day, new_day);
    proof {
        lemma_unmatched_within(old_day@.events, new_day@.events);
        lemma_unmatched_within(new_day@.events, old_day@.events);
    }
    let mut removed_acc: Vec<String> = Vec::new();
    push_event_block(&mut removed_acc, REMOVED_MARK, &removed);
    let mut added_acc: Vec<String> = Vec::new();
    push_event_block(&mut added_acc, ADDED_MARK, &added);
    assert(views(removed_acc@) =~= event_block(
        REMOVED_MARK@,
        unmatched(old_day@.events, new_day@.events),
    ));
    assert(views(added_acc@) =~= event_block(
        ADDED_MARK@,
        unmatched(new_day@.events, old_day@.events),
    ));
    (removed_acc, added_acc)
}

/// Appends the lines of one day change.
pub fn push_change_lines(lines: &mut Vec<String>, change: &DayChange)
    requires
        change@.well_formed(),
    ensures
        views(final(lines)@) == views(old(lines)@) + change_lines(change@),
{
    match change {
        DayChange::NewDay(day) => {
            push_new_day(lines, day);
        },
        DayChange::ChangedDay { day, added, removed } => {
            let ghost start = views(lines@);
            push_line(lines, heading_line(&day.day_string));
            push_event_block(lines, ADDED_MARK, added);
            push_event_block(lines, REMOVED_MARK, removed);
            assert(views(lines@) =~= start + change_lines(change@));
        },
    }
}

/// The lines of a sequence of day changes, in order.
pub fn change_list_lines(changes: &Vec<DayChange>) -> (r: Vec<String>)
    requires
        changes_well_formed(views(changes@)),
    ensures
        views(r@) == lines_of(views(changes@)),
{
    let mut r: Vec<String> = Vec::new();
    let mut i: usize = 0;
    while i < changes.len()
        invariant
            i <= changes@.len(),
            views(r@) == lines_of(views(changes@.subrange(0, i as int))),
            changes_well_formed(views(changes@)),
        decreases changes@.len() - i,
    {
        assert(views(changes@)[i as int].well_formed());
        push_change_lines(&mut r, &changes[i]);
        proof {
            let next = views(changes@.subrange(0, i + 1));
            assert(next.drop_last() =~= views(changes@.subrange(0, i as int)));
        }
        i += 1;
    }
    assert(changes@.subrange(0, changes@.len() as int) =~= changes@);
    r
}

/// Renders day changes as one HTML fragment; empty when there are none.
pub fn render(changes: &Vec<DayChange>) -> (r: String)
    requires
        changes_well_formed(views(changes@)),
    ensures
        r@ == render_text(views(changes@)),
{
    let lines = change_list_lines(changes);
    join(&lines, LINE_BREAK)
}

} // verus!
