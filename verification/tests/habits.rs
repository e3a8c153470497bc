use myquest::dates::{Date, MAX_DAY, MIN_DAY};
use myquest::habit::{
    calendar_cells, calendar_header, try_calendar_cells, cell_class, contains_date, default_habits, new_habit,
    remove_from_list, retain_other_days, retitle_in_list, toggle_day_action, CalendarCell, Habit,
    HabitData, HabitsStore, ToggleAction, UpdateHabitRequest, WeekStart, Weekday,
};

const JAN_1_2024: i32 = 738886; // a Monday

fn day(n: i32) -> Date {
    Date { day: n }
}

fn data(title: &str, days: Vec<i32>) -> HabitData {
    HabitData {
        title: title.to_string(),
        start_date: day(JAN_1_2024),
        completed_days: days.into_iter().map(day).collect(),
        week_start: WeekStart::Monday,
        color: "#800080".to_string(),
    }
}

fn days_of(store: &HabitsStore, id: u128) -> Vec<i32> {
    store.get_habit(id).unwrap().completed_days.iter().map(|d| d.day).collect()
}

#[test]
fn week_start_names() {
    let all = [
        (WeekStart::Sunday, "sunday"),
        (WeekStart::Monday, "monday"),
        (WeekStart::Tuesday, "tuesday"),
        (WeekStart::Wednesday, "wednesday"),
        (WeekStart::Thursday, "thursday"),
        (WeekStart::Friday, "friday"),
        (WeekStart::Saturday, "saturday"),
    ];
    for (w, name) in all {
        assert_eq!(w.to_string(), name);
        assert_eq!(WeekStart::from_string(name), w);
        assert_eq!(WeekStart::from_string(&w.to_string()), w);
    }
}

#[test]
fn week_start_from_string_ignores_case() {
    assert_eq!(WeekStart::from_string("MONDAY"), WeekStart::Monday);
    assert_eq!(WeekStart::from_string("Saturday"), WeekStart::Saturday);
    assert_eq!(WeekStart::from_string("FrIdAy"), WeekStart::Friday);
    for name in ["TUESDAY", "Thursday", "noDay", "SUNDAY"] {
        assert_eq!(WeekStart::from_string(name), WeekStart::from_string(&name.to_lowercase()));
    }
}

#[test]
fn week_start_unknown_is_sunday() {
    assert_eq!(WeekStart::from_string("someday"), WeekStart::Sunday);
    assert_eq!(WeekStart::from_string(""), WeekStart::Sunday);
    assert_eq!(WeekStart::from_lowercase("MONDAY"), WeekStart::Sunday);
}

#[test]
fn week_start_weekdays() {
    assert_eq!(WeekStart::Sunday.to_weekday(), Weekday::Sun);
    assert_eq!(WeekStart::Saturday.to_weekday(), Weekday::Sat);
    assert_eq!(WeekStart::Wednesday.to_weekday().num_days_from_sunday(), 3);
    assert_eq!(Weekday::Sun.num_days_from_sunday(), 0);
    assert_eq!(Weekday::Sat.num_days_from_sunday(), 6);
}

#[test]
fn days_from_week_start() {
    // January 1, 2024 is a Monday.
    let monday = day(JAN_1_2024);
    assert_eq!(WeekStart::Monday.get_days_from_start(monday), 0);
    assert_eq!(WeekStart::Sunday.get_days_from_start(monday), 1);
    assert_eq!(WeekStart::Tuesday.get_days_from_start(monday), 6);
    assert_eq!(WeekStart::Saturday.get_days_from_start(monday), 2);
    // March 10, 2024 is a Sunday.
    assert_eq!(WeekStart::Monday.get_days_from_start(day(738955)), 6);
    assert_eq!(WeekStart::Sunday.get_days_from_start(day(738955)), 0);
}

#[test]
fn weekdays_across_the_range() {
    // January 1 of year 1 is a Monday; chrono's first day is a Thursday and
    // its last a Monday.
    assert_eq!(WeekStart::Sunday.get_days_from_start(day(1)), 1);
    assert_eq!(WeekStart::Sunday.get_days_from_start(day(0)), 0);
    assert_eq!(WeekStart::Sunday.get_days_from_start(day(MIN_DAY)), 4);
    assert_eq!(WeekStart::Sunday.get_days_from_start(day(MAX_DAY)), 1);
    // January 7, 2024 is a Sunday.
    assert_eq!(WeekStart::Monday.get_days_from_start(day(JAN_1_2024 + 6)), 6);
    assert_eq!(WeekStart::Sunday.get_days_from_start(day(JAN_1_2024 + 6)), 0);
}

#[test]
fn calendar_is_whole_weeks() {
    for ws in [WeekStart::Sunday, WeekStart::Monday, WeekStart::Thursday, WeekStart::Saturday] {
        for offset in 0..7 {
            let start = day(JAN_1_2024 + offset);
            let cells = calendar_cells(start, start, &vec![], ws);
            assert_eq!(cells.len() % 7, 0);
            assert_eq!(ws.get_days_from_start(cells[0].date), 0);
            assert!(cells[0].date.day <= start.day && start.day - cells[0].date.day < 7);
        }
    }
}

#[test]
fn store_create_get_update_delete() {
    let mut store = HabitsStore::new();
    assert!(store.get_habit(1).is_none());
    store.create_habit(1, data("Run", vec![]));
    let got = store.get_habit(1).unwrap();
    assert_eq!(got.title, "Run");
    assert_eq!(got.week_start, WeekStart::Monday);

    store.update_habit(1, data("Walk", vec![5]));
    assert_eq!(store.get_habit(1).unwrap().title, "Walk");
    // Updating a missing habit changes nothing.
    store.update_habit(2, data("Swim", vec![]));
    assert!(store.get_habit(2).is_none());

    store.create_habit(2, data("Read", vec![]));
    let mut all = store.get_all_habits();
    all.sort_by_key(|(id, _)| *id);
    assert_eq!(all.len(), 2);
    assert_eq!(all[0].0, 1);
    assert_eq!(all[0].1.title, "Walk");
    assert_eq!(all[1].0, 2);
    assert_eq!(all[1].1.title, "Read");

    store.delete_habit(1);
    assert!(store.get_habit(1).is_none());
    assert_eq!(store.get_all_habits().len(), 1);
    store.delete_habit(7);
    assert_eq!(store.get_all_habits().len(), 1);
}

#[test]
fn mark_day_adds_and_sorts() {
    let mut store = HabitsStore::new();
    store.create_habit(9, data("Run", vec![30, 10]));
    store.mark_day(9, day(20));
    assert_eq!(days_of(&store, 9), vec![10, 20, 30]);
    // Already marked: nothing changes, not even the order.
    let mut unsorted = HabitsStore::new();
    unsorted.create_habit(3, data("Run", vec![30, 10]));
    unsorted.mark_day(3, day(30));
    assert_eq!(days_of(&unsorted, 3), vec![30, 10]);
    // Unknown habit: nothing happens.
    store.mark_day(4, day(1));
    assert!(store.get_habit(4).is_none());
}

#[test]
fn unmark_day_removes_every_mark() {
    let mut store = HabitsStore::new();
    store.create_habit(9, data("Run", vec![10, 20, 10, 30]));
    store.unmark_day(9, day(10));
    assert_eq!(days_of(&store, 9), vec![20, 30]);
    store.unmark_day(9, day(99));
    assert_eq!(days_of(&store, 9), vec![20, 30]);
    store.unmark_day(5, day(20));
    assert!(store.get_habit(5).is_none());
}

#[test]
fn mark_then_unmark_restores_sorted_days() {
    let mut store = HabitsStore::new();
    store.create_habit(1, data("Run", vec![10, 30]));
    store.mark_day(1, day(20));
    store.unmark_day(1, day(20));
    assert_eq!(days_of(&store, 1), vec![10, 30]);
}

#[test]
fn date_helpers() {
    let v = vec![day(3), day(1), day(3)];
    assert!(contains_date(&v, day(1)));
    assert!(!contains_date(&v, day(2)));
    let kept: Vec<i32> = retain_other_days(&v, day(3)).iter().map(|d| d.day).collect();
    assert_eq!(kept, vec![1]);
}

#[test]
fn calendar_monday_start() {
    let start = day(JAN_1_2024);
    let today = day(JAN_1_2024 + 10);
    let done = vec![day(JAN_1_2024 + 2)];
    let cells = calendar_cells(start, today, &done, WeekStart::Monday);
    // From Monday Jan 1 to Sunday Mar 10 (the week of Jan 1 + 66 days).
    assert_eq!(cells.len(), 70);
    assert_eq!(cells[0].date, start);
    assert_eq!(cells[69].date, day(738955));
    for (i, c) in cells.iter().enumerate() {
        assert_eq!(c.date.day, JAN_1_2024 + i as i32);
    }
    assert!(cells[2].completed);
    assert!(!cells[3].completed);
    assert!(cells[10].current);
    assert!(!cells[10].future);
    assert!(cells[11].future);
    assert!(!cells[0].before_start);
}

#[test]
fn calendar_sunday_start() {
    let start = day(JAN_1_2024);
    let cells = calendar_cells(start, start, &vec![], WeekStart::Sunday);
    // From Sunday Dec 31, 2023 to Saturday Mar 9, 2024.
    assert_eq!(cells.len(), 70);
    assert_eq!(cells[0].date, day(738885));
    assert!(cells[0].before_start);
    assert!(!cells[1].before_start);
    assert_eq!(cells[69].date, day(738954));
}

#[test]
fn calendar_cell_classes() {
    let c = CalendarCell { date: day(1), completed: true, future: false, current: true, before_start: false };
    assert_eq!(cell_class(&c), "calendar-cell completed  current-day ");
    let c = CalendarCell { date: day(1), completed: false, future: true, current: false, before_start: true };
    assert_eq!(cell_class(&c), "calendar-cell  future  past");
    let c = CalendarCell { date: day(1), completed: false, future: false, current: false, before_start: false };
    assert_eq!(cell_class(&c), "calendar-cell    ");
}

#[test]
fn calendar_headers() {
    let h: Vec<String> = calendar_header(WeekStart::Sunday);
    assert_eq!(h, vec!["S", "M", "T", "W", "T", "F", "S"]);
    let h = calendar_header(WeekStart::Monday);
    assert_eq!(h, vec!["M", "T", "W", "T", "F", "S", "S"]);
    let h = calendar_header(WeekStart::Saturday);
    assert_eq!(h, vec!["S", "S", "M", "T", "W", "T", "F"]);
}

#[test]
fn toggling_days() {
    let done = vec![day(5)];
    assert_eq!(toggle_day_action(day(5), day(10), &done), ToggleAction::Unmark);
    assert_eq!(toggle_day_action(day(6), day(10), &done), ToggleAction::Mark);
    assert_eq!(toggle_day_action(day(10), day(10), &done), ToggleAction::Mark);
    assert_eq!(toggle_day_action(day(11), day(10), &done), ToggleAction::Ignore);
}

#[test]
fn new_and_default_habits() {
    let h = new_habit(42, day(JAN_1_2024));
    assert_eq!(h.id, 42);
    assert_eq!(h.title, "New Habit");
    assert_eq!(h.color, "#800080");
    assert_eq!(h.week_start, "sunday");
    assert_eq!(h.start_date, day(JAN_1_2024));
    let d = h.to_data();
    assert_eq!(d.week_start, WeekStart::Sunday);
    assert!(d.completed_days.is_empty());
    assert_eq!(d.title, "New Habit");

    let seeds = default_habits(day(5), 1, 2);
    assert_eq!(seeds.len(), 2);
    assert_eq!(seeds[0].title, "Meditation");
    assert_eq!(seeds[0].color, "#4A90E2");
    assert_eq!(seeds[1].title, "Push-ups");
    assert_eq!(seeds[1].color, "#50C878");
    assert!(seeds.iter().all(|h| h.week_start == "monday" && h.start_date == day(5)));
    assert_eq!((seeds[0].id, seeds[1].id), (1, 2));
}

#[test]
fn habit_from_data_names_week_start() {
    let mut d = data("Yoga", vec![1]);
    d.week_start = WeekStart::Thursday;
    let h = Habit::from_data(8, &d);
    assert_eq!(h.id, 8);
    assert_eq!(h.title, "Yoga");
    assert_eq!(h.week_start, "thursday");
    let mut upper = h.clone();
    upper.week_start = "THURSDAY".to_string();
    assert_eq!(upper.to_data().week_start, WeekStart::Thursday);
}

#[test]
fn tab_bar_list_edits() {
    let mut list = vec![new_habit(1, day(1)), new_habit(2, day(1)), new_habit(2, day(2))];
    retitle_in_list(&mut list, 2, "Stretch".to_string());
    assert_eq!(list[0].title, "New Habit");
    assert_eq!(list[1].title, "Stretch");
    assert_eq!(list[2].title, "New Habit");
    retitle_in_list(&mut list, 9, "Nothing".to_string());
    assert!(list.iter().all(|h| h.title != "Nothing"));
    let rest = remove_from_list(list, 2);
    assert_eq!(rest.len(), 1);
    assert_eq!(rest[0].id, 1);
}

#[test]
fn habit_update_request_columns() {
    let req = UpdateHabitRequest {
        title: Some("Run".to_string()),
        start_date: None,
        color: Some("#fff".to_string()),
        week_start: Some("monday".to_string()),
    };
    let cols = req.column_updates();
    assert_eq!(
        cols,
        vec![
            ("title".to_string(), "Run".to_string()),
            ("color".to_string(), "#fff".to_string()),
            ("week_start".to_string(), "monday".to_string()),
        ]
    );
    let none = UpdateHabitRequest { title: None, start_date: None, color: None, week_start: None };
    assert!(none.column_updates().is_empty());
    let all = UpdateHabitRequest {
        title: Some("a".to_string()),
        start_date: Some("2024-01-01".to_string()),
        color: Some("b".to_string()),
        week_start: Some("c".to_string()),
    };
    let cols = all.column_updates();
    assert_eq!(cols[1], ("start_date".to_string(), "2024-01-01".to_string()));
    assert_eq!(cols.len(), 4);
}

#[test]
fn calendar_near_the_end_of_time() {
    assert!(try_calendar_cells(day(MAX_DAY), day(MAX_DAY), &vec![], WeekStart::Sunday).is_none());
    // The first day of chrono's range is a Thursday.
    assert!(try_calendar_cells(day(MIN_DAY), day(MIN_DAY), &vec![], WeekStart::Sunday).is_none());
    let first = try_calendar_cells(day(MIN_DAY), day(MIN_DAY), &vec![], WeekStart::Thursday).unwrap();
    assert_eq!(first[0].date, day(MIN_DAY));
    let ok = try_calendar_cells(day(JAN_1_2024), day(JAN_1_2024), &vec![], WeekStart::Monday).unwrap();
    assert_eq!(ok.len(), 70);
}
