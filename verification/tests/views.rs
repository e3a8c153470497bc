use myquest::views::{central_view, CentralView};
use myquest::dates::Date;
use myquest::timeline::{LifePeriod, LifePeriodEvent, Yaml};
use myquest::views::{
    calculate_grid_dimensions, color_and_period_for_date, event_day_colors, event_view,
    get_color_for_event, lifetime_cells, try_lifetime_cells, EventViewState,
};

const JAN_1_2000: i32 = 730120;
const JUN_1_2000: i32 = 730272;
const JAN_1_2024: i32 = 738886;

fn period(name: &str, start: &str, color: &str, id: u128) -> LifePeriod {
    LifePeriod {
        name: name.to_string(),
        start: start.to_string(),
        color: color.to_string(),
        events: Vec::new(),
        id: Some(id),
    }
}

fn event(start: &str, color: &str) -> LifePeriodEvent {
    LifePeriodEvent { name: "e".to_string(), color: color.to_string(), start: start.to_string(), id: Some(1) }
}

fn life(periods: Vec<LifePeriod>, years: u32) -> Yaml {
    Yaml {
        name: "Me".to_string(),
        date_of_birth: "2000-01".to_string(),
        life_expectancy: years,
        life_periods: periods,
        routines: Vec::new(),
    }
}

#[test]
fn grid_dimensions() {
    assert_eq!(calculate_grid_dimensions(true, 80), (48, 21));
    assert_eq!(calculate_grid_dimensions(false, 80), (24, 41));
    assert_eq!(calculate_grid_dimensions(true, 0), (48, 1));
    assert_eq!(calculate_grid_dimensions(false, 1), (24, 2));
}

#[test]
fn event_colors_by_span() {
    let events = vec![event("2000-01-01", "red"), event("2000-01-03", "blue")];
    let end = Date { day: JAN_1_2000 + 5 };
    assert_eq!(get_color_for_event(Date { day: JAN_1_2000 }, &events, end), "red");
    assert_eq!(get_color_for_event(Date { day: JAN_1_2000 + 1 }, &events, end), "red");
    assert_eq!(get_color_for_event(Date { day: JAN_1_2000 + 2 }, &events, end), "blue");
    assert_eq!(get_color_for_event(Date { day: JAN_1_2000 + 5 }, &events, end), "transparent");
    assert_eq!(get_color_for_event(Date { day: JAN_1_2000 - 1 }, &events, end), "transparent");
    let colors = event_day_colors(&events, Date { day: JAN_1_2000 - 1 }, end);
    assert_eq!(colors, vec!["transparent", "red", "red", "blue", "blue", "blue"]);
    // An event whose start does not parse is skipped.
    let bad = vec![event("garbage", "green")];
    assert_eq!(get_color_for_event(Date { day: JAN_1_2000 }, &bad, end), "transparent");
}

#[test]
fn event_view_states() {
    let mut a = period("A", "2000-01", "#111111", 1);
    a.events = vec![event("2000-03-01", "x"), event("2000-02-01", "y")];
    let b = period("B", "2000-06", "#222222", 2);
    let y = life(vec![a, b], 80);
    let today = Date { day: JAN_1_2024 };
    assert!(matches!(event_view(&y, 9, today), EventViewState::NotFound));
    match event_view(&y, 2, today) {
        EventViewState::Empty(start) => assert_eq!(start, "2000-06"),
        _ => panic!("expected an empty period"),
    }
    match event_view(&y, 1, today) {
        EventViewState::Grid { events, start, end } => {
            assert_eq!(events[0].start, "2000-02-01");
            assert_eq!(events[1].start, "2000-03-01");
            assert_eq!(start, Date { day: JAN_1_2000 + 31 });
            assert_eq!(end, Date { day: JUN_1_2000 });
        }
        _ => panic!("expected a grid"),
    }
}

#[test]
fn period_colors_for_dates() {
    let periods = vec![period("A", "2000-01", "#aaaaaa", 1), period("B", "2000-06", "#bbbbbb", 2)];
    let now = Date { day: JAN_1_2024 };
    let (c, p) = color_and_period_for_date(Date { day: JAN_1_2000 }, &periods, now).unwrap();
    assert_eq!(c, "#aaaaaa");
    assert_eq!(p.unwrap().name, "A");
    let (c, p) = color_and_period_for_date(Date { day: JUN_1_2000 }, &periods, now).unwrap();
    assert_eq!(c, "#bbbbbb");
    assert_eq!(p.unwrap().name, "B");
    let (c, p) = color_and_period_for_date(Date { day: JAN_1_2000 - 1 }, &periods, now).unwrap();
    assert_eq!(c, "#fafafa");
    assert!(p.is_none());
    // After the current date nothing holds the day.
    let (c, _) = color_and_period_for_date(Date { day: JAN_1_2024 + 1 }, &periods, now).unwrap();
    assert_eq!(c, "#fafafa");
    // A month that does not parse stops the search.
    let broken = vec![period("A", "2000-xx", "#aaaaaa", 1)];
    assert!(color_and_period_for_date(Date { day: JAN_1_2000 }, &broken, now).is_none());
}

#[test]
fn lifetime_grid_cells() {
    let y = life(vec![period("A", "2000-01", "#aaaaaa", 1), period("B", "2000-06", "#bbbbbb", 2)], 1);
    let now = Date { day: JAN_1_2024 };
    let cells = lifetime_cells(&y, now);
    assert_eq!(cells.len(), 12);
    for (i, c) in cells.iter().enumerate() {
        assert_eq!(c.date.day, JAN_1_2000 + 30 * i as i32);
    }
    assert_eq!(cells[5].color, "#aaaaaa");
    assert_eq!(cells[6].color, "#bbbbbb");
    assert_eq!(cells[6].period.as_ref().unwrap().name, "B");
    let same = try_lifetime_cells(&y, now).unwrap();
    assert_eq!(same.len(), 12);
    assert_eq!(same[11].color, "#bbbbbb");
    // Two years: the second year starts 365 days after the birth month.
    let y2 = life(vec![period("A", "2000-01", "#aaaaaa", 1)], 2);
    let cells = lifetime_cells(&y2, now);
    assert_eq!(cells.len(), 24);
    assert_eq!(cells[12].date.day, JAN_1_2000 + 365);
    assert_eq!(cells[13].date.day, JAN_1_2000 + 395);
}

#[test]
fn lifetime_grid_refuses_what_panics() {
    let mut y = life(vec![period("A", "2000-01", "#aaaaaa", 1)], 1);
    y.date_of_birth = "born".to_string();
    assert!(try_lifetime_cells(&y, Date { day: JAN_1_2024 }).is_none());
    let broken = life(vec![period("A", "bad", "#aaaaaa", 1)], 1);
    assert!(try_lifetime_cells(&broken, Date { day: JAN_1_2024 }).is_none());
    let none = life(vec![], 0);
    assert_eq!(try_lifetime_cells(&none, Date { day: JAN_1_2024 }).unwrap().len(), 0);
}

#[test]
fn central_panel_views() {
    assert_eq!(central_view("Lifetime", Some(3)), CentralView::Lifetime);
    assert_eq!(central_view("EventView", Some(3)), CentralView::Events(3));
    assert_eq!(central_view("EventView", None), CentralView::NoPeriodSelected);
    assert_eq!(central_view("Yearly", None), CentralView::Unknown);
}
