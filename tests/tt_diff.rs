use std::collections::{BTreeMap, BTreeSet};

use geraltt::batch::generate_diff_messages;
use geraltt::digest::collect_all_tracked_diffs;
use geraltt::models::{
    ContingentUnitName, DayStudyEvent, EducatorDay, EducatorEvents, EventLocation, User,
};
use geraltt::render::format_event_as_string;

const DAY_NAMES: [&str; 6] = ["Понедельник", "Вторник", "Среда", "Четверг", "Пятница", "Суббота"];

fn event(time: &str, subject: &str, dates: &[&str], locations: &[&str], groups: &[&str]) -> DayStudyEvent {
    DayStudyEvent {
        time_interval_string: time.to_string(),
        subject: subject.to_string(),
        dates: dates.iter().map(|d| d.to_string()).collect(),
        event_locations: locations
            .iter()
            .map(|l| EventLocation { display_name: l.to_string() })
            .collect(),
        contingent_unit_names: groups
            .iter()
            .map(|g| ContingentUnitName { item1: "Группа".to_string(), item2: g.to_string() })
            .collect(),
    }
}

fn week(name: &str, id: u32, days: Vec<(usize, Vec<DayStudyEvent>)>) -> EducatorEvents {
    let mut educator_events_days: Vec<EducatorDay> = DAY_NAMES
        .iter()
        .map(|d| EducatorDay {
            day_string: d.to_string(),
            day_study_events_count: 0,
            day_study_events: Vec::new(),
        })
        .collect();
    for (i, events) in days {
        educator_events_days[i].day_study_events_count = events.len() as u8;
        educator_events_days[i].day_study_events = events;
    }
    EducatorEvents {
        educator_long_display_text: name.to_string(),
        educator_master_id: id,
        educator_events_days,
    }
}

fn warhol_monday() -> DayStudyEvent {
    event(
        "08:30-10:00",
        "Как превратить искусство в массовый продукт",
        &["01.09.1963"],
        &["231 East 47th Street"],
        &["101A"],
    )
}

fn warhol_monday_two_groups() -> DayStudyEvent {
    event(
        "08:30-10:00",
        "Как превратить искусство в массовый продукт",
        &["01.09.1963"],
        &["231 East 47th Street"],
        &["101A", "101B"],
    )
}

fn warhol_monday_more_dates() -> DayStudyEvent {
    event(
        "08:30-10:00",
        "Как превратить искусство в массовый продукт",
        &["01.09.1963", "08.09.1963"],
        &["231 East 47th Street"],
        &["101A", "101B"],
    )
}

fn pop_art_morning() -> DayStudyEvent {
    event("10:15-11:45", "Истоки поп-арта", &["01.09.1968", "08.09.1968"], &["33 Union Square West"], &["102B"])
}

fn pop_art_afternoon() -> DayStudyEvent {
    event("13:00-14:30", "Истоки поп-арта", &["02.09.1968", "10.09.1968"], &["33 Union Square West"], &["103C"])
}

fn malevich_tuesday() -> DayStudyEvent {
    event(
        "09:00-10:30",
        "От кубизма к супрематизму",
        &["29.12.1915"],
        &["Дворцовая площадь, д. 6/8"],
        &["201A", "201B"],
    )
}

fn malevich() -> EducatorEvents {
    week("Казимир Малевич", 1879, vec![(1, vec![malevich_tuesday()])])
}

fn snapshot(educators: Vec<EducatorEvents>) -> BTreeMap<u32, EducatorEvents> {
    educators.into_iter().map(|e| (e.educator_master_id, e)).collect()
}

fn less_events() -> BTreeMap<u32, EducatorEvents> {
    snapshot(vec![week("Энди Уорхол", 1928, vec![(0, vec![warhol_monday()])]), malevich()])
}

fn only_warhol() -> BTreeMap<u32, EducatorEvents> {
    snapshot(vec![week("Энди Уорхол", 1928, vec![(0, vec![warhol_monday()])])])
}

fn new_day() -> BTreeMap<u32, EducatorEvents> {
    snapshot(vec![
        week("Энди Уорхол", 1928, vec![(0, vec![warhol_monday()]), (2, vec![pop_art_afternoon()])]),
        malevich(),
    ])
}

fn old_day_new_event() -> BTreeMap<u32, EducatorEvents> {
    snapshot(vec![
        week("Энди Уорхол", 1928, vec![(0, vec![warhol_monday(), pop_art_afternoon()])]),
        malevich(),
    ])
}

fn old_day_old_event_new_group() -> BTreeMap<u32, EducatorEvents> {
    snapshot(vec![week("Энди Уорхол", 1928, vec![(0, vec![warhol_monday_two_groups()])]), malevich()])
}

fn many_days() -> BTreeMap<u32, EducatorEvents> {
    snapshot(vec![
        week(
            "Энди Уорхол",
            1928,
            vec![
                (0, vec![warhol_monday_more_dates(), pop_art_morning()]),
                (
                    1,
                    vec![event(
                        "09:00-10:30",
                        "Как превратить искусство в массовый продукт",
                        &["22.12.1915", "29.12.1915"],
                        &["231 East 47th Street"],
                        &["201A", "201B"],
                    )],
                ),
                (2, vec![pop_art_afternoon()]),
            ],
        ),
        malevich(),
    ])
}

fn many_events() -> BTreeMap<u32, EducatorEvents> {
    snapshot(vec![
        week(
            "Энди Уорхол",
            1928,
            vec![(0, vec![warhol_monday_more_dates(), pop_art_morning()]), (2, vec![pop_art_afternoon()])],
        ),
        week(
            "Казимир Малевич",
            1879,
            vec![(
                1,
                vec![
                    event(
                        "09:00-10:30",
                        "От кубизма к супрематизму",
                        &["22.12.1915", "29.12.1915"],
                        &["Дворцовая площадь, д. 6/8"],
                        &["201A", "201B"],
                    ),
                    event(
                        "11:00-12:30",
                        "Декларация прав художника",
                        &["15.08.1918", "22.08.1918"],
                        &["Дворцовая площадь, д. 6/8"],
                        &["202A"],
                    ),
                ],
            )],
        ),
    ])
}

fn warhol_user() -> User {
    User {
        name: "Энди Уорхол".to_string(),
        watch_educators: BTreeSet::from([1928, 1879]),
        watch_groups: BTreeSet::new(),
        email: "campbellsoupthebest@gmail.com".to_string(),
    }
}

#[test]
fn format_event_as_string1() {
    let test_event = DayStudyEvent {
        time_interval_string: "09:30-11.00".to_string(),
        subject: "Матлогика".to_string(),
        dates: vec!["01.09.2025".to_string()],
        event_locations: vec![EventLocation { display_name: "Университетский пр. 28Д".to_string() }],
        contingent_unit_names: vec![ContingentUnitName {
            item1: "Группа".to_string(),
            item2: "23.Б15-мм".to_string(),
        }],
    };
    let formatted_event = format_event_as_string(&test_event);
    assert_eq!(formatted_event, "    <b>Предмет:</b> Матлогика<br>    <b>Время:</b> 09:30-11.00<br>    <b>Даты:</b> 01.09.2025<br>    <b>Места:</b> Университетский пр. 28Д<br>    <b>Направления:</b> Группа 23.Б15-мм<br>")
}

#[test]
fn collect_all_tracked_diffs_multiple_diffs() {
    let users = vec![warhol_user()];
    let old = less_events();
    let new = many_events();
    let diff_test = generate_diff_messages(&old, &new);
    let diff = collect_all_tracked_diffs(&diff_test, &users[0]);
    let malevich_first = "В расписании преподавателя <b>Казимир Малевич</b> произошли изменения:<br><br><b><font size=\"5\">Вторник:</font></b><br><em style=\"color:green;\">Новые события:</em><br>    <b>Предмет:</b> От кубизма к супрематизму<br>    <b>Время:</b> 09:00-10:30<br>    <b>Даты:</b> 22.12.1915, 29.12.1915<br>    <b>Места:</b> Дворцовая площадь, д. 6/8<br>    <b>Направления:</b> Группа 201A, Группа 201B<br><br>    <b>Предмет:</b> Декларация прав художника<br>    <b>Время:</b> 11:00-12:30<br>    <b>Даты:</b> 15.08.1918, 22.08.1918<br>    <b>Места:</b> Дворцовая площадь, д. 6/8<br>    <b>Направления:</b> Группа 202A<br><br><em style=\"color:red;\">Удалённые события:</em><br>    <b>Предмет:</b> От кубизма к супрематизму<br>    <b>Время:</b> 09:00-10:30<br>    <b>Даты:</b> 29.12.1915<br>    <b>Места:</b> Дворцовая площадь, д. 6/8<br>    <b>Направления:</b> Группа 201A, Группа 201B<br><br><br> <br>В расписании преподавателя <b>Энди Уорхол</b> произошли изменения:<br><br><b><font size=\"5\">Понедельник:</font></b><br><em style=\"color:green;\">Новые события:</em><br>    <b>Предмет:</b> Как превратить искусство в массовый продукт<br>    <b>Время:</b> 08:30-10:00<br>    <b>Даты:</b> 01.09.1963, 08.09.1963<br>    <b>Места:</b> 231 East 47th Street<br>    <b>Направления:</b> Группа 101A, Группа 101B<br><br>    <b>Предмет:</b> Истоки поп-арта<br>    <b>Время:</b> 10:15-11:45<br>    <b>Даты:</b> 01.09.1968, 08.09.1968<br>    <b>Места:</b> 33 Union Square West<br>    <b>Направления:</b> Группа 102B<br><br><em style=\"color:red;\">Удалённые события:</em><br>    <b>Предмет:</b> Как превратить искусство в массовый продукт<br>    <b>Время:</b> 08:30-10:00<br>    <b>Даты:</b> 01.09.1963<br>    <b>Места:</b> 231 East 47th Street<br>    <b>Направления:</b> Группа 101A<br><br><em style=\"color:green;\">Новый день:</em><br><b><font size=\"5\">Среда:</font></b><br>    <b>Предмет:</b> Истоки поп-арта<br>    <b>Время:</b> 13:00-14:30<br>    <b>Даты:</b> 02.09.1968, 10.09.1968<br>    <b>Места:</b> 33 Union Square West<br>    <b>Направления:</b> Группа 103C<br><br>";
    let warhol_first = "В расписании преподавателя <b>Энди Уорхол</b> произошли изменения:<br><br><b><font size=\"5\">Понедельник:</font></b><br><em style=\"color:green;\">Новые события:</em><br>    <b>Предмет:</b> Как превратить искусство в массовый продукт<br>    <b>Время:</b> 08:30-10:00<br>    <b>Даты:</b> 01.09.1963, 08.09.1963<br>    <b>Места:</b> 231 East 47th Street<br>    <b>Направления:</b> Группа 101A, Группа 101B<br><br>    <b>Предмет:</b> Истоки поп-арта<br>    <b>Время:</b> 10:15-11:45<br>    <b>Даты:</b> 01.09.1968, 08.09.1968<br>    <b>Места:</b> 33 Union Square West<br>    <b>Направления:</b> Группа 102B<br><br><em style=\"color:red;\">Удалённые события:</em><br>    <b>Предмет:</b> Как превратить искусство в массовый продукт<br>    <b>Время:</b> 08:30-10:00<br>    <b>Даты:</b> 01.09.1963<br>    <b>Места:</b> 231 East 47th Street<br>    <b>Направления:</b> Группа 101A<br><br><em style=\"color:green;\">Новый день:</em><br><b><font size=\"5\">Среда:</font></b><br>    <b>Предмет:</b> Истоки поп-арта<br>    <b>Время:</b> 13:00-14:30<br>    <b>Даты:</b> 02.09.1968, 10.09.1968<br>    <b>Места:</b> 33 Union Square West<br>    <b>Направления:</b> Группа 103C<br><br><br> <br>В расписании преподавателя <b>Казимир Малевич</b> произошли изменения:<br><br><b><font size=\"5\">Вторник:</font></b><br><em style=\"color:green;\">Новые события:</em><br>    <b>Предмет:</b> От кубизма к супрематизму<br>    <b>Время:</b> 09:00-10:30<br>    <b>Даты:</b> 22.12.1915, 29.12.1915<br>    <b>Места:</b> Дворцовая площадь, д. 6/8<br>    <b>Направления:</b> Группа 201A, Группа 201B<br><br>    <b>Предмет:</b> Декларация прав художника<br>    <b>Время:</b> 11:00-12:30<br>    <b>Даты:</b> 15.08.1918, 22.08.1918<br>    <b>Места:</b> Дворцовая площадь, д. 6/8<br>    <b>Направления:</b> Группа 202A<br><br><em style=\"color:red;\">Удалённые события:</em><br>    <b>Предмет:</b> От кубизма к супрематизму<br>    <b>Время:</b> 09:00-10:30<br>    <b>Даты:</b> 29.12.1915<br>    <b>Места:</b> Дворцовая площадь, д. 6/8<br>    <b>Направления:</b> Группа 201A, Группа 201B<br><br>";
    let diff_valid_mixed_educators_order = diff == malevich_first || diff == warhol_first;
    assert_eq!(diff_valid_mixed_educators_order, true)
}

#[test]
fn collect_all_tracked_diffs_no_diffs() {
    let users = vec![warhol_user()];
    let old = less_events();
    let diff_test = generate_diff_messages(&old, &old);
    let diff = collect_all_tracked_diffs(&diff_test, &users[0]);
    assert_eq!(diff, "")
}

#[test]
fn generate_diff_messages_new_day() {
    let old = less_events();
    let new = new_day();
    let diff = generate_diff_messages(&old, &new);
    assert_eq!(diff.get(&1928).unwrap().1, "<em style=\"color:green;\">Новый день:</em><br><b><font size=\"5\">Среда:</font></b><br>    <b>Предмет:</b> Истоки поп-арта<br>    <b>Время:</b> 13:00-14:30<br>    <b>Даты:</b> 02.09.1968, 10.09.1968<br>    <b>Места:</b> 33 Union Square West<br>    <b>Направления:</b> Группа 103C<br>");
    assert_eq!(diff.get(&1879), None);
}

#[test]
fn generate_diff_messages_old_day_new_event() {
    let old = less_events();
    let new = old_day_new_event();
    let diff = generate_diff_messages(&old, &new);
    assert_eq!(diff.get(&1928).unwrap().1, "<b><font size=\"5\">Понедельник:</font></b><br><em style=\"color:green;\">Новые события:</em><br>    <b>Предмет:</b> Истоки поп-арта<br>    <b>Время:</b> 13:00-14:30<br>    <b>Даты:</b> 02.09.1968, 10.09.1968<br>    <b>Места:</b> 33 Union Square West<br>    <b>Направления:</b> Группа 103C<br>");
    assert_eq!(diff.get(&1879), None);
}

#[test]
fn generate_diff_messages_old_day_old_event_new_group() {
    let old = less_events();
    let new = old_day_old_event_new_group();
    let diff = generate_diff_messages(&old, &new);
    assert_eq!(diff.get(&1928).unwrap().1, "<b><font size=\"5\">Понедельник:</font></b><br><em style=\"color:green;\">Новые события:</em><br>    <b>Предмет:</b> Как превратить искусство в массовый продукт<br>    <b>Время:</b> 08:30-10:00<br>    <b>Даты:</b> 01.09.1963<br>    <b>Места:</b> 231 East 47th Street<br>    <b>Направления:</b> Группа 101A, Группа 101B<br><br><em style=\"color:red;\">Удалённые события:</em><br>    <b>Предмет:</b> Как превратить искусство в массовый продукт<br>    <b>Время:</b> 08:30-10:00<br>    <b>Даты:</b> 01.09.1963<br>    <b>Места:</b> 231 East 47th Street<br>    <b>Направления:</b> Группа 101A<br>");
    assert_eq!(diff.get(&1879), None);
}

#[test]
fn generate_diff_messages_new_educator() {
    let old = only_warhol();
    let new = less_events();
    let diff = generate_diff_messages(&old, &new);
    assert_eq!(diff.get(&1928), None);
    assert_eq!(diff.get(&1879).unwrap().1, "<em style=\"color:green;\">Новый день:</em><br><b><font size=\"5\">Вторник:</font></b><br>    <b>Предмет:</b> От кубизма к супрематизму<br>    <b>Время:</b> 09:00-10:30<br>    <b>Даты:</b> 29.12.1915<br>    <b>Места:</b> Дворцовая площадь, д. 6/8<br>    <b>Направления:</b> Группа 201A, Группа 201B<br>");
}

#[test]
fn generate_diff_messages_many_days() {
    let old = less_events();
    let new = many_days();
    let diff = generate_diff_messages(&old, &new);
    assert_eq!(diff.get(&1928).unwrap().1, "<b><font size=\"5\">Понедельник:</font></b><br><em style=\"color:green;\">Новые события:</em><br>    <b>Предмет:</b> Как превратить искусство в массовый продукт<br>    <b>Время:</b> 08:30-10:00<br>    <b>Даты:</b> 01.09.1963, 08.09.1963<br>    <b>Места:</b> 231 East 47th Street<br>    <b>Направления:</b> Группа 101A, Группа 101B<br><br>    <b>Предмет:</b> Истоки поп-арта<br>    <b>Время:</b> 10:15-11:45<br>    <b>Даты:</b> 01.09.1968, 08.09.1968<br>    <b>Места:</b> 33 Union Square West<br>    <b>Направления:</b> Группа 102B<br><br><em style=\"color:red;\">Удалённые события:</em><br>    <b>Предмет:</b> Как превратить искусство в массовый продукт<br>    <b>Время:</b> 08:30-10:00<br>    <b>Даты:</b> 01.09.1963<br>    <b>Места:</b> 231 East 47th Street<br>    <b>Направления:</b> Группа 101A<br><br><em style=\"color:green;\">Новый день:</em><br><b><font size=\"5\">Вторник:</font></b><br>    <b>Предмет:</b> Как превратить искусство в массовый продукт<br>    <b>Время:</b> 09:00-10:30<br>    <b>Даты:</b> 22.12.1915, 29.12.1915<br>    <b>Места:</b> 231 East 47th Street<br>    <b>Направления:</b> Группа 201A, Группа 201B<br><br><em style=\"color:green;\">Новый день:</em><br><b><font size=\"5\">Среда:</font></b><br>    <b>Предмет:</b> Истоки поп-арта<br>    <b>Время:</b> 13:00-14:30<br>    <b>Даты:</b> 02.09.1968, 10.09.1968<br>    <b>Места:</b> 33 Union Square West<br>    <b>Направления:</b> Группа 103C<br>");
    assert_eq!(diff.get(&1879), None);
}

#[test]
fn generate_diff_messages_delete_last_event_of_the_day() {
    let old = new_day();
    let new = less_events();
    let diff = generate_diff_messages(&old, &new);
    assert_eq!(diff.get(&1928).unwrap().1, "<b><font size=\"5\">Среда:</font></b><br><em style=\"color:red;\">Удалённые события:</em><br>    <b>Предмет:</b> Истоки поп-арта<br>    <b>Время:</b> 13:00-14:30<br>    <b>Даты:</b> 02.09.1968, 10.09.1968<br>    <b>Места:</b> 33 Union Square West<br>    <b>Направления:</b> Группа 103C<br>");
    assert_eq!(diff.get(&1879), None);
}
