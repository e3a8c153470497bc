use myquest::dates::Date;
use myquest::legend::{
    apply_legend_item, apply_pending_update, check_item_date, color_preview, delete_legend_item,
    event_date_bounds, find_next_period, is_valid_date, is_valid_hex_color, new_legend_item,
    parse_month_start, try_check_item_date, DateCheck, EPOCH_DAY,
};
use myquest::legend::{add_new_item, legend_rows};
use myquest::timeline::{LegendItem, LifePeriod, LifePeriodEvent, Yaml};

const JAN_1_2000: i32 = 730120;
const JUN_1_2000: i32 = 730272;
const JAN_1_2024: i32 = 738886;
const JUN_15_2024: i32 = 739052;

fn period(name: &str, start: &str, id: u128) -> LifePeriod {
    LifePeriod {
        name: name.to_string(),
        start: start.to_string(),
        color: "#123456".to_string(),
        events: Vec::new(),
        id: Some(id),
    }
}

fn life(periods: Vec<LifePeriod>) -> Yaml {
    Yaml {
        name: "Me".to_string(),
        date_of_birth: "2000-01".to_string(),
        life_expectancy: 80,
        life_periods: periods,
        routines: Vec::new(),
    }
}

fn item(id: u128, name: &str, start: &str, is_event: bool) -> LegendItem {
    LegendItem { id, name: name.to_string(), start: start.to_string(), color: "#ff0000".to_string(), is_event }
}

#[test]
fn hex_colors() {
    assert!(is_valid_hex_color("#A1b2C3"));
    assert!(is_valid_hex_color("#000000"));
    assert!(!is_valid_hex_color("#12345"));
    assert!(!is_valid_hex_color("#1234567"));
    assert!(!is_valid_hex_color("123456#"));
    assert!(!is_valid_hex_color("#12345g"));
    assert!(!is_valid_hex_color(""));
}

#[test]
fn preview_colors() {
    let it = Some(item(1, "x", "2000-01", false));
    assert_eq!(color_preview("#abcdef", &it), "#abcdef");
    assert_eq!(color_preview("#abc", &it), "#ff0000");
    assert_eq!(color_preview("#abc", &None), "#000000");
}

#[test]
fn month_parsing() {
    assert_eq!(parse_month_start("2024-02"), Some(Date { day: 738917 }));
    assert_eq!(parse_month_start("2000-01"), Some(Date { day: JAN_1_2000 }));
    assert_eq!(parse_month_start("2024-13"), None);
    assert_eq!(parse_month_start("soon"), None);
    assert!(is_valid_date("1999-12"));
    assert!(!is_valid_date("1999-00"));
    assert!(!is_valid_date("1999-12-01"));
    assert_eq!(EPOCH_DAY, 719163);
}

#[test]
fn next_period_by_start_text() {
    let ps = vec![period("A", "2000-01", 1), period("B", "2005-01", 2), period("C", "2010-01", 3)];
    assert_eq!(find_next_period(&ps, "2000-01"), 1);
    assert_eq!(find_next_period(&ps, "2004-12"), 1);
    assert_eq!(find_next_period(&ps, "2010-01"), 3);
    assert_eq!(find_next_period(&ps, "1999-01"), 0);
}

#[test]
fn event_bounds() {
    let y = life(vec![period("A", "2000-01", 1), period("B", "2000-06", 2)]);
    let today = Date { day: JAN_1_2024 };
    let ev = Some(item(5, "e", "2000-02-01", true));
    assert_eq!(
        event_date_bounds(&y, &ev, Some(1), today),
        (Some(Date { day: JAN_1_2000 }), Some(Date { day: JUN_1_2000 }))
    );
    assert_eq!(event_date_bounds(&y, &ev, Some(2), today), (Some(Date { day: JUN_1_2000 }), Some(today)));
    assert_eq!(event_date_bounds(&y, &ev, Some(9), today), (None, None));
    let per = Some(item(5, "p", "2000-02", false));
    assert_eq!(event_date_bounds(&y, &per, Some(1), today), (None, None));
    assert_eq!(event_date_bounds(&y, &None, Some(1), today), (None, None));
}

#[test]
fn save_event_item() {
    let y = life(vec![period("A", "2000-01", 1)]);
    let (y, pending) = apply_legend_item(y, &item(5, "Trip", "2000-03-01", true), Some(1));
    assert_eq!(y.life_periods[0].events.len(), 1);
    assert_eq!(y.life_periods[0].events[0].name, "Trip");
    assert_eq!(y.life_periods[0].events[0].id, Some(5));
    let pending = pending.unwrap();
    assert!(pending.period.is_none());
    assert_eq!(pending.event.as_ref().unwrap().0, 1);
    // Saving it again replaces it.
    let (y, _) = apply_legend_item(y, &item(5, "Trip 2", "2000-02-01", true), Some(1));
    assert_eq!(y.life_periods[0].events.len(), 1);
    assert_eq!(y.life_periods[0].events[0].name, "Trip 2");
    // Missing period: nothing changes, nothing is queued.
    let (y2, pending) = apply_legend_item(y.clone(), &item(6, "X", "2000-02-01", true), Some(9));
    assert_eq!(y2, y);
    assert!(pending.is_none());
}

#[test]
fn save_period_item() {
    let y = life(vec![period("A", "2000-01", 1), period("B", "2010-01", 2)]);
    let (y, pending) = apply_legend_item(y, &item(3, "New", "2005-01", false), None);
    let names: Vec<&str> = y.life_periods.iter().map(|p| p.name.as_str()).collect();
    assert_eq!(names, vec!["A", "New", "B"]);
    let pending = pending.unwrap();
    assert_eq!(pending.period.as_ref().unwrap().name, "New");
    assert!(pending.event.is_none());
    let (y, _) = apply_legend_item(y, &item(1, "A later", "2020-01", false), None);
    let names: Vec<&str> = y.life_periods.iter().map(|p| p.name.as_str()).collect();
    assert_eq!(names, vec!["New", "B", "A later"]);
    assert_eq!(y.life_periods.len(), 3);
}

#[test]
fn pending_updates_reach_the_store() {
    let edited = life(vec![period("A", "2000-01", 1)]);
    let (edited, pending) = apply_legend_item(edited, &item(5, "Trip", "2000-03-01", true), Some(1));
    let mut store = life(vec![period("A", "2000-01", 1)]);
    apply_pending_update(&mut store, pending.unwrap(), &edited);
    assert_eq!(store, edited);
}

#[test]
fn delete_items() {
    let mut a = period("A", "2000-01", 1);
    a.events = vec![LifePeriodEvent {
        name: "e".to_string(),
        color: "#000000".to_string(),
        start: "2000-02-01".to_string(),
        id: Some(5),
    }];
    let mut y = life(vec![a, period("B", "2010-01", 2)]);
    delete_legend_item(&mut y, &item(5, "e", "2000-02-01", true), Some(1));
    assert!(y.life_periods[0].events.is_empty());
    delete_legend_item(&mut y, &item(2, "B", "2010-01", false), None);
    assert_eq!(y.life_periods.len(), 1);
}

#[test]
fn date_checks() {
    let bounds = (Some(Date { day: JAN_1_2000 }), Some(Date { day: JUN_1_2000 }));
    assert!(matches!(check_item_date("x", false, true, bounds), DateCheck::InvalidFormat));
    assert!(matches!(check_item_date("2000-03", true, false, bounds), DateCheck::Accepted));
    assert!(matches!(check_item_date("2000-03-01", true, true, bounds), DateCheck::Accepted));
    assert!(matches!(check_item_date("2000-01-01", true, true, bounds), DateCheck::Accepted));
    match check_item_date("2000-06-01", true, true, bounds) {
        DateCheck::OutOfRange(m) => assert_eq!(m, "Date must be between 2000-01-01 and 2000-06-01"),
        _ => panic!("expected out of range"),
    }
    assert!(matches!(check_item_date("2000-03-01", true, true, (None, None)), DateCheck::Unchanged));
    assert!(try_check_item_date("2000-13-01", true, true, bounds).is_none());
    assert!(matches!(try_check_item_date("2000-03-01", true, true, bounds), Some(DateCheck::Accepted)));
}

#[test]
fn date_check_messages_outside_four_digit_years() {
    // 10000-01-01 and 1 BCE (year -1) January 1, as day numbers.
    let far = (Some(Date { day: 3652060 }), Some(Date { day: 3652061 }));
    match check_item_date("2024-01-01", true, true, far) {
        DateCheck::OutOfRange(m) => assert_eq!(m, "Date must be between +10000-01-01 and +10000-01-02"),
        _ => panic!("expected out of range"),
    }
    let early = (Some(Date { day: -730 }), Some(Date { day: -729 }));
    match check_item_date("2024-01-01", true, true, early) {
        DateCheck::OutOfRange(m) => assert_eq!(m, "Date must be between -0001-01-01 and -0001-01-02"),
        _ => panic!("expected out of range"),
    }
    let small = (Some(Date { day: 1 }), Some(Date { day: 2 }));
    match check_item_date("2024-01-01", true, true, small) {
        DateCheck::OutOfRange(m) => assert_eq!(m, "Date must be between 0001-01-01 and 0001-01-02"),
        _ => panic!("expected out of range"),
    }
}

#[test]
fn new_items() {
    let y = life(vec![period("A", "2000-01", 1)]);
    let now = Date { day: JUN_15_2024 };
    let (it, start) = new_legend_item("Lifetime", None, &y, now, 7);
    assert_eq!(it.name, "New Period");
    assert!(!it.is_event);
    assert_eq!(start, "2024-06");
    assert_eq!(it.start, "2024-06");
    assert_eq!(it.color, "#6495ED");
    assert_eq!(it.id, 7);
    let (it, start) = new_legend_item("EventView", Some(1), &y, now, 8);
    assert_eq!(it.name, "New Event");
    assert!(it.is_event);
    assert_eq!(start, "2000-01-01");
    let (_, start) = new_legend_item("EventView", Some(9), &y, now, 8);
    assert_eq!(start, "2024-06-15");
    let (_, start) = new_legend_item("EventView", None, &y, Date { day: 1 }, 8);
    assert_eq!(start, "1-01-01");
}

#[test]
fn legend_rows_by_view() {
    let mut work = period("Work", "2010-01", 2);
    work.events.push(LifePeriodEvent {
        name: "Launch".to_string(),
        color: "#00ff00".to_string(),
        start: "2011-03-04".to_string(),
        id: Some(9),
    });
    work.events.push(LifePeriodEvent {
        name: "Move".to_string(),
        color: "#0000ff".to_string(),
        start: "2010-06-01".to_string(),
        id: None,
    });
    let y = life(vec![work, period("School", "2005-09", 1), period("Gap", "2010-01", 3)]);

    let rows = legend_rows(&y, "Lifetime", None);
    let labels: Vec<&str> = rows.iter().map(|r| r.label.as_str()).collect();
    assert_eq!(labels, vec!["School (from 2005-09)", "Work (from 2010-01)", "Gap (from 2010-01)"]);
    assert_eq!(rows[1].item, item_with(2, "Work", "2010-01", "#123456", false));
    assert_eq!(rows[0].color, "#123456");

    let rows = legend_rows(&y, "EventView", Some(2));
    let labels: Vec<&str> = rows.iter().map(|r| r.label.as_str()).collect();
    assert_eq!(labels, vec!["Launch (2011-03-04)", "Move (2010-06-01)"]);
    assert_eq!(rows[0].item, item_with(9, "Launch", "2011-03-04", "#00ff00", true));
    assert_eq!(rows[1].item.id, 0);
    assert!(legend_rows(&y, "EventView", Some(7)).is_empty());
    assert!(legend_rows(&y, "EventView", None).is_empty());
    assert!(legend_rows(&y, "Yearly", Some(2)).is_empty());
}

fn item_with(id: u128, name: &str, start: &str, color: &str, is_event: bool) -> LegendItem {
    LegendItem { id, name: name.to_string(), start: start.to_string(), color: color.to_string(), is_event }
}

#[test]
fn add_new_item_names_and_colors() {
    let y = life(vec![period("School", "2005-09", 1)]);
    let (it, start) = add_new_item("Lifetime", None, &y);
    assert_eq!(it.name, "New Period");
    assert_eq!(it.color, "#6495ED");
    assert!(!it.is_event);
    assert_eq!(it.start, start);
    assert_eq!(start.len(), 7);
    let (it, start) = add_new_item("EventView", Some(1), &y);
    assert_eq!(it.name, "New Event");
    assert_eq!(it.color, "#6495ED");
    assert!(it.is_event);
    assert_eq!(start, "2005-09-01");
}
