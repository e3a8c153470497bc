use myquest::dates::{Date, MAX_DAY, MIN_DAY};
use myquest::habit::WeekStart;
use myquest::legend::{add_new_item, check_item_date, event_date_bounds_now, new_legend_item, parse_month_start, DateCheck};
use myquest::sort::stable_sort;
use myquest::text::{push_decimal, push_str, signed_to_string, str_equals, str_less, two_digit_string};
use myquest::timeline::{create_default_yaml, LegendItem, LifePeriod, LifePeriodEvent, Yaml};
use myquest::todo::{day_index, Todo};

#[test]
fn text_comparisons() {
    assert!(str_equals("abc", "abc"));
    assert!(!str_equals("abc", "abd"));
    assert!(!str_equals("abc", "ab"));
    assert!(str_less("2000-01", "2000-02"));
    assert!(str_less("2000", "2000-01"));
    assert!(!str_less("2000-01", "2000-01"));
    assert!(!str_less("b", "a"));
    assert!(str_less("", "a"));
}

#[test]
fn text_building() {
    let mut s = String::from("n=");
    push_decimal(&mut s, 1234);
    push_str(&mut s, "!");
    assert_eq!(s, "n=1234!");
    assert_eq!(signed_to_string(-45), "-45");
    assert_eq!(signed_to_string(0), "0");
    assert_eq!(signed_to_string(i64::MIN), "-9223372036854775808");
    assert_eq!(two_digit_string(7), "07");
    assert_eq!(two_digit_string(12), "12");
    assert_eq!(two_digit_string(123), "123");
}

#[test]
fn names_are_lowercased_before_matching() {
    assert_eq!(WeekStart::from_string("TUESDAY"), WeekStart::Tuesday);
    assert_eq!(day_index("ThUrSdAy"), Some(3));
    assert_eq!(day_index("ÀB"), None);
}

fn one_period() -> Yaml {
    Yaml {
        name: "Me".to_string(),
        date_of_birth: "2000-01".to_string(),
        life_expectancy: 80,
        life_periods: vec![LifePeriod {
            name: "A".to_string(),
            start: "2000-01".to_string(),
            color: "#000000".to_string(),
            events: Vec::new(),
            id: Some(1),
        }],
        routines: Vec::new(),
    }
}

#[test]
fn chrono_day_numbers() {
    // The first day of a month, read by chrono, as a day number.
    assert_eq!(parse_month_start("1970-01"), Some(Date { day: 719163 }));
    assert_eq!(parse_month_start("2000-01"), Some(Date { day: 730120 }));
    assert_eq!(parse_month_start("0001-01"), Some(Date { day: 1 }));
    assert_eq!(parse_month_start("2023-02"), Some(Date { day: 738552 }));
    assert_eq!(parse_month_start("yesterday"), None);
    // Dates written back by chrono.
    let bounds = (Some(Date { day: 738886 }), Some(Date { day: 739052 }));
    match check_item_date("2025-01-01", true, true, bounds) {
        DateCheck::OutOfRange(m) => assert_eq!(m, "Date must be between 2024-01-01 and 2024-06-15"),
        _ => panic!("expected out of range"),
    }
    // Calendar fields of a day number.
    let y = one_period();
    let (_, start) = new_legend_item("Lifetime", None, &y, Date { day: 739052 }, 1);
    assert_eq!(start, "2024-06");
    let (_, start) = new_legend_item("EventView", None, &y, Date { day: MAX_DAY }, 1);
    assert_eq!(start, "262142-12-31");
    let (_, start) = new_legend_item("EventView", None, &y, Date { day: MIN_DAY }, 1);
    assert_eq!(start, "-262143-01-01");
}

#[test]
fn clock_and_ids() {
    let y = one_period();
    let item = Some(LegendItem {
        id: 5,
        name: "e".to_string(),
        start: "2000-02-01".to_string(),
        color: "#000000".to_string(),
        is_event: true,
    });
    let (start, end) = event_date_bounds_now(&y, &item, Some(1));
    assert_eq!(start, Some(Date { day: 730120 }));
    let end = end.unwrap();
    assert!(end.day >= MIN_DAY && end.day <= MAX_DAY);
    let (it, text) = add_new_item("Lifetime", None, &y);
    assert_eq!(it.start, text);
    assert_eq!(text.len(), 7);
    let t = Todo::new("a".to_string(), "monday".to_string());
    assert!(t.created_at.seconds_from_midnight < 86400);
    assert!(t.created_at.date.day >= MIN_DAY && t.created_at.date.day <= MAX_DAY);
    assert_ne!(t.id, Todo::new("a".to_string(), "monday".to_string()).id);
    assert_eq!(create_default_yaml().life_periods[0].id, Some(0));
}

#[test]
fn date_arithmetic() {
    let d = Date { day: 100 };
    assert_eq!(d.add_days(-5), Date { day: 95 });
    assert_eq!(d.days_since(Date { day: 40 }), 60);
    assert!(d.is_before(Date { day: 101 }));
    assert!(!d.is_before(d));
}

#[test]
fn stable_sort_by_start() {
    let ev = |name: &str, start: &str| LifePeriodEvent {
        name: name.to_string(),
        color: String::new(),
        start: start.to_string(),
        id: None,
    };
    let sorted = stable_sort(vec![ev("c", "2001"), ev("a", "2000"), ev("d", "2001"), ev("b", "2000")]);
    let names: Vec<&str> = sorted.iter().map(|e| e.name.as_str()).collect();
    assert_eq!(names, vec!["a", "b", "c", "d"]);
    let dates = stable_sort(vec![Date { day: 3 }, Date { day: 1 }, Date { day: 2 }]);
    assert_eq!(dates, vec![Date { day: 1 }, Date { day: 2 }, Date { day: 3 }]);
    assert!(stable_sort(Vec::<Date>::new()).is_empty());
}
