//! Properties that hold of every input: event equality is reflexive and
//! ignores order inside multi-valued fields, diffing something with itself
//! finds nothing, and a genuinely new event is always reported as added.
use vstd::prelude::*;

use crate::batch::{all_well_formed, changed_messages, educator_message, prior};
use crate::day_diff::{has_same, unmatched};
use crate::educator_diff::{changes_upto, day_change, educator_changes, ChangeView};
use crate::equality::same_event;
use crate::models::{DayView, EventView, ScheduleView};
use crate::order::{lemma_cohorts_ascending_unique, lemma_texts_ascending_unique};
use crate::render::{
    change_lines, event_text, event_texts, heading, lines_of, render_text, LINE_BREAK, NEW_DAY_MARK,
};
use crate::text::joined;

verus! {

/// Every event is the same event as itself.
pub proof fn lemma_events_equal_reflexive(e: EventView)
    ensures
        same_event(e, e),
{
}

/// Sequences that are permutations of each other hold the same set.
proof fn lemma_same_multiset_same_set<T>(a: Seq<T>, b: Seq<T>)
    requires
        a.to_multiset() == b.to_multiset(),
    ensures
        a.to_set() == b.to_set(),
{
    a.to_multiset_ensures();
    b.to_multiset_ensures();
    assert forall|x: T| a.contains(x) == #[trigger] b.contains(x) by {
        assert(a.contains(x) <==> a.to_multiset().count(x) > 0);
        assert(b.contains(x) <==> b.to_multiset().count(x) > 0);
    }
    assert(a.to_set() =~= b.to_set());
}

/// Two events that differ only in the order of their dates, locations and
/// cohorts are the same event.
pub proof fn lemma_events_equal_ignores_order(a: EventView, b: EventView)
    requires
        a.time == b.time,
        a.subject == b.subject,
        a.dates.to_multiset() == b.dates.to_multiset(),
        a.locations.to_multiset() == b.locations.to_multiset(),
        a.cohorts.to_multiset() == b.cohorts.to_multiset(),
    ensures
        same_event(a, b),
{
    lemma_same_multiset_same_set(a.dates, b.dates);
    lemma_same_multiset_same_set(a.locations, b.locations);
    lemma_same_multiset_same_set(a.cohorts, b.cohorts);
}

/// Well-formed events list their sets in one canonical order, so two of
/// them that are the same event are equal and have the same text.
pub proof fn lemma_same_event_same_text(a: EventView, b: EventView)
    requires
        a.well_formed(),
        b.well_formed(),
        same_event(a, b),
    ensures
        a == b,
        event_text(a) == event_text(b),
{
    lemma_texts_ascending_unique(a.dates, b.dates);
    lemma_texts_ascending_unique(a.locations, b.locations);
    lemma_cohorts_ascending_unique(a.cohorts, b.cohorts);
}

/// An event of `src` with no same event in `other` is kept by `unmatched`.
proof fn lemma_unmatched_keeps(src: Seq<EventView>, other: Seq<EventView>, k: int)
    requires
        0 <= k < src.len(),
        !has_same(other, src[k]),
    ensures
        unmatched(src, other).contains(src[k]),
    decreases src.len(),
{
    let rest = unmatched(src.drop_last(), other);
    if k == src.len() - 1 {
        if has_same(other, src.last()) {
        } else {
            assert(rest.push(src.last())[rest.len() as int] == src[k]);
        }
    } else {
        lemma_unmatched_keeps(src.drop_last(), other, k);
        let i = choose|i: int| 0 <= i < rest.len() && rest[i] == src[k];
        if !has_same(other, src.last()) {
            assert(rest.push(src.last())[i] == src[k]);
        }
    }
}

/// Only events of `src` are kept by `unmatched`, and none that has a same
/// event in `other`.
proof fn lemma_unmatched_empty(src: Seq<EventView>, other: Seq<EventView>)
    requires
        forall|k: int| 0 <= k < src.len() ==> has_same(other, #[trigger] src[k]),
    ensures
        unmatched(src, other).len() == 0,
    decreases src.len(),
{
    if src.len() > 0 {
        assert(has_same(other, src[src.len() - 1]));
        lemma_unmatched_empty(src.drop_last(), other);
    }
}

/// A day compared with itself has no added and no removed events.
pub proof fn lemma_diff_day_with_itself(d: DayView)
    ensures
        unmatched(d.events, d.events).len() == 0,
{
    assert forall|k: int| 0 <= k < d.events.len() implies has_same(d.events, #[trigger] d.events[k]) by {
        assert(same_event(d.events[k], d.events[k]));
    }
    lemma_unmatched_empty(d.events, d.events);
}

/// No day of a week changes when the week is compared with itself.
proof fn lemma_no_changes_upto(s: ScheduleView, n: int)
    requires
        0 <= n <= s.days.len(),
    ensures
        changes_upto(Some(s), s, n).len() == 0,
    decreases n,
{
    if n > 0 {
        lemma_no_changes_upto(s, n - 1);
        lemma_diff_day_with_itself(s.days[n - 1]);
    }
}

/// A week compared with itself yields no day changes, and renders as the
/// empty string.
pub proof fn lemma_diff_educator_with_itself(s: ScheduleView)
    ensures
        educator_changes(Some(s), s).len() == 0,
        render_text(educator_changes(Some(s), s)).len() == 0,
{
    lemma_no_changes_upto(s, s.days.len() as int);
    assert(lines_of(educator_changes(Some(s), s)).len() == 0);
}

/// Day changes found in the first `n` days stay among those of the first
/// `m` days, for `n <= m`.
proof fn lemma_changes_grow(old: Option<ScheduleView>, new: ScheduleView, n: int, m: int, c: ChangeView)
    requires
        0 <= n <= m,
        changes_upto(old, new, n).contains(c),
    ensures
        changes_upto(old, new, m).contains(c),
    decreases m - n,
{
    if n < m {
        let rest = changes_upto(old, new, n);
        let i = choose|i: int| 0 <= i < rest.len() && rest[i] == c;
        match day_change(crate::educator_diff::old_day_at(old, n), new.days[n]) {
            Some(d) => {
                assert(rest.push(d)[i] == c);
            },
            None => {},
        }
        lemma_changes_grow(old, new, n + 1, m, c);
    }
}

/// When day `i` had events in `old` and `new`'s day `i` holds an event with
/// no same event in `old`'s day `i`, the changes of the week hold a changed
/// day for it whose added events include that event, with its text.
pub proof fn lemma_new_event_is_added(old: ScheduleView, new: ScheduleView, i: int, k: int)
    requires
        old.well_formed(),
        new.well_formed(),
        0 <= i < new.days.len(),
        old.days[i].count != 0,
        0 <= k < new.days[i].events.len(),
        !has_same(old.days[i].events, new.days[i].events[k]),
    ensures
        ({
            let added = unmatched(new.days[i].events, old.days[i].events);
            let removed = unmatched(old.days[i].events, new.days[i].events);
            &&& educator_changes(Some(old), new).contains(
                (ChangeView::ChangedDay { label: new.days[i].label, added, removed }),
            )
            &&& added.contains(new.days[i].events[k])
            &&& event_texts(added).contains(event_text(new.days[i].events[k]))
        }),
{
    let od = old.days[i];
    let nd = new.days[i];
    let e = nd.events[k];
    lemma_unmatched_keeps(nd.events, od.events, k);
    let added = unmatched(nd.events, od.events);
    let removed = unmatched(od.events, nd.events);
    let c = ChangeView::ChangedDay { label: nd.label, added, removed };
    assert(day_change(Some(od), nd) == Some(c));
    assert(changes_upto(Some(old), new, i + 1) == changes_upto(Some(old), new, i).push(c));
    assert(changes_upto(Some(old), new, i + 1)[changes_upto(Some(old), new, i).len() as int] == c);
    lemma_changes_grow(Some(old), new, i + 1, new.days.len() as int, c);
    let j = choose|j: int| 0 <= j < added.len() && added[j] == e;
    assert(event_texts(added)[j] == event_text(e));
}

/// The changes of the first `n` days when only day `i` differs: that day,
/// empty before, becomes a new day.
proof fn lemma_only_new_day_upto(old: ScheduleView, new: ScheduleView, i: int, n: int)
    requires
        0 <= i < new.days.len(),
        0 <= n <= new.days.len(),
        old.days.len() == new.days.len(),
        forall|j: int| 0 <= j < new.days.len() && j != i ==> #[trigger] new.days[j] == old.days[j],
        old.days[i].count == 0,
        new.days[i].count != 0,
    ensures
        changes_upto(Some(old), new, n) == if n <= i {
            Seq::<ChangeView>::empty()
        } else {
            seq![ChangeView::NewDay(new.days[i])]
        },
    decreases n,
{
    if n > 0 {
        lemma_only_new_day_upto(old, new, i, n - 1);
        let d = new.days[n - 1];
        if n - 1 != i {
            assert(new.days[n - 1] == old.days[n - 1]);
            lemma_diff_day_with_itself(d);
            assert(day_change(Some(d), d) is None);
        } else {
            assert(Seq::<ChangeView>::empty().push(ChangeView::NewDay(d)) =~= seq![ChangeView::NewDay(d)]);
        }
    }
}

/// When a week differs from the old one only in day `i`, which had no events
/// and now has some, the only change is that new day, and the rendered text
/// is the new-day marker, the day's heading and its events, nothing else.
pub proof fn lemma_only_new_day(old: ScheduleView, new: ScheduleView, i: int)
    requires
        old.well_formed(),
        new.well_formed(),
        0 <= i < new.days.len(),
        forall|j: int| 0 <= j < new.days.len() && j != i ==> #[trigger] new.days[j] == old.days[j],
        old.days[i].count == 0,
        new.days[i].count != 0,
    ensures
        educator_changes(Some(old), new) == seq![ChangeView::NewDay(new.days[i])],
        render_text(educator_changes(Some(old), new)) == NEW_DAY_MARK@ + LINE_BREAK@ + heading(
            new.days[i].label,
        ) + LINE_BREAK@ + joined(event_texts(new.days[i].events), LINE_BREAK@),
{
    let d = new.days[i];
    lemma_only_new_day_upto(old, new, i, new.days.len() as int);
    let cs = seq![ChangeView::NewDay(d)];
    assert(cs.drop_last() =~= Seq::<ChangeView>::empty());
    assert(cs.last() == ChangeView::NewDay(d));
    assert(lines_of(Seq::<ChangeView>::empty()) == Seq::<Seq<char>>::empty());
    assert(lines_of(cs) =~= change_lines(ChangeView::NewDay(d)));
    let lines = lines_of(cs);
    let body = heading(d.label) + LINE_BREAK@ + joined(event_texts(d.events), LINE_BREAK@);
    assert(lines =~= seq![NEW_DAY_MARK@, body]);
    assert(lines.drop_last() =~= seq![NEW_DAY_MARK@]);
    assert(joined(seq![NEW_DAY_MARK@], LINE_BREAK@) == NEW_DAY_MARK@);
    assert(joined(lines, LINE_BREAK@) == NEW_DAY_MARK@ + LINE_BREAK@ + body);
    assert(render_text(cs) =~= NEW_DAY_MARK@ + LINE_BREAK@ + heading(d.label) + LINE_BREAK@ + joined(
        event_texts(d.events),
        LINE_BREAK@,
    ));
}

/// Diffing a snapshot set against itself finds no educator with changes.
pub proof fn lemma_diff_all_with_itself(s: Map<u32, crate::models::EducatorEvents>)
    requires
        all_well_formed(s),
    ensures
        changed_messages(s, s) == Map::<u32, Seq<char>>::empty(),
{
    assert forall|id: u32| !#[trigger] changed_messages(s, s).contains_key(id) by {
        if s.contains_key(id) {
            assert(prior(s, id) == Some(s[id]@));
            lemma_diff_educator_with_itself(s[id]@);
            assert(educator_message(s, s, id).len() == 0);
        }
    }
    assert(changed_messages(s, s) =~= Map::<u32, Seq<char>>::empty());
}

} // verus!
