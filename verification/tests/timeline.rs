use myquest::startup::start_state;
use myquest::timeline::{
    create_default_yaml, default_timeline, default_timeline_named, LifePeriod, LifePeriodEvent,
    Routine, Yaml,
};

fn period(name: &str, start: &str, id: Option<u128>) -> LifePeriod {
    LifePeriod {
        name: name.to_string(),
        start: start.to_string(),
        color: "#123456".to_string(),
        events: Vec::new(),
        id,
    }
}

fn event(name: &str, start: &str, id: Option<u128>) -> LifePeriodEvent {
    LifePeriodEvent { name: name.to_string(), color: "#abcdef".to_string(), start: start.to_string(), id }
}

fn timeline(periods: Vec<LifePeriod>) -> Yaml {
    Yaml {
        name: "Me".to_string(),
        date_of_birth: "1990-05".to_string(),
        life_expectancy: 80,
        life_periods: periods,
        routines: vec![Routine { name: "Gym".to_string(), id: None }],
    }
}

fn names(y: &Yaml) -> Vec<String> {
    y.life_periods.iter().map(|p| p.name.clone()).collect()
}

#[test]
fn default_timeline_contents() {
    let y = default_timeline();
    assert_eq!(y.name, "John Doe");
    assert_eq!(y.date_of_birth, "2000-01");
    assert_eq!(y.life_expectancy, 92);
    assert_eq!(names(&y), vec!["Childhood", "Teenage Years", "University", "Career Growth", "Working"]);
    let starts: Vec<&str> = y.life_periods.iter().map(|p| p.start.as_str()).collect();
    assert_eq!(starts, vec!["2000-01", "2013-01", "2018-01", "2022-01", "2024-01"]);
    let colors: Vec<&str> = y.life_periods.iter().map(|p| p.color.as_str()).collect();
    assert_eq!(colors, vec!["#5100FF", "#00FF77", "#00BEFF", "#FFFF00", "#FF9E00"]);
    assert!(y.life_periods.iter().all(|p| p.events.is_empty() && p.id.is_none()));
    assert!(y.routines.is_empty());
    assert_eq!(default_timeline_named("work").name, "work");
    assert_eq!(default_timeline_named("work").life_periods.len(), 5);
}

#[test]
fn starter_yaml_has_nil_id() {
    let y = create_default_yaml();
    assert_eq!(y.life_periods.len(), 1);
    assert_eq!(y.life_periods[0].name, "Childhood");
    assert_eq!(y.life_periods[0].id, Some(0));
    assert_eq!(y.life_expectancy, 92);
}

#[test]
fn empty_default() {
    let y = Yaml::default();
    assert_eq!(y.name, "");
    assert_eq!(y.life_expectancy, 0);
    assert!(y.life_periods.is_empty());
}

#[test]
fn add_life_period_sorts_and_assigns_id() {
    let mut y = timeline(vec![period("A", "2000-01", Some(1)), period("C", "2010-01", Some(3))]);
    y.add_life_period(period("B", "2005-06", None));
    assert_eq!(names(&y), vec!["A", "B", "C"]);
    assert!(y.life_periods[1].id.is_some());
    y.add_life_period(period("D", "1999-12", Some(4)));
    assert_eq!(names(&y), vec!["D", "A", "B", "C"]);
    assert_eq!(y.life_periods[0].id, Some(4));
    // Equal starts keep their order.
    y.add_life_period(period("A2", "2000-01", Some(5)));
    assert_eq!(names(&y), vec!["D", "A", "A2", "B", "C"]);
    assert_eq!(y.routines.len(), 1);
}

#[test]
fn update_and_delete_life_period() {
    let mut y = timeline(vec![period("A", "2000-01", Some(1)), period("B", "2010-01", Some(2))]);
    y.update_life_period(period("A moved", "2020-01", Some(1)));
    assert_eq!(names(&y), vec!["B", "A moved"]);
    y.update_life_period(period("X", "2001-01", Some(9)));
    assert_eq!(names(&y), vec!["B", "A moved"]);
    y.delete_life_period(2);
    assert_eq!(names(&y), vec!["A moved"]);
    y.delete_life_period(2);
    assert_eq!(names(&y), vec!["A moved"]);
}

#[test]
fn events_add_update_delete_get() {
    let mut y = timeline(vec![period("A", "2000-01", Some(1))]);
    y.add_event(1, event("Trip", "2000-05-01", Some(10)));
    y.add_event(1, event("Move", "2000-02-01", None));
    let evs = y.get_period_events(1);
    assert_eq!(evs.len(), 2);
    assert_eq!(evs[0].name, "Move");
    assert!(evs[0].id.is_some());
    assert_eq!(evs[1].name, "Trip");
    // Unknown period: nothing added, nothing listed.
    y.add_event(7, event("Lost", "2000-01-01", None));
    assert!(y.get_period_events(7).is_empty());

    y.update_event(1, event("Trip late", "2000-12-01", Some(10)));
    let evs = y.get_period_events(1);
    assert_eq!(evs[1].name, "Trip late");
    y.delete_event(1, 10);
    let evs = y.get_period_events(1);
    assert_eq!(evs.len(), 1);
    assert_eq!(evs[0].name, "Move");
}

#[test]
fn update_timeline_fills_missing_ids_only() {
    let mut p = period("A", "2000-01", None);
    p.events = vec![event("e1", "2000-01-02", None), event("e2", "2000-01-03", Some(77))];
    let given = timeline(vec![p, period("B", "2001-01", Some(5))]);
    let mut store = Yaml::default();
    store.update_timeline(&given);
    assert_eq!(names(&store), vec!["A", "B"]);
    assert!(store.life_periods[0].id.is_some());
    assert_eq!(store.life_periods[1].id, Some(5));
    assert!(store.life_periods[0].events[0].id.is_some());
    assert_eq!(store.life_periods[0].events[1].id, Some(77));
    // With every id present, nothing changes.
    let again = store.clone();
    store.update_timeline(&again);
    assert_eq!(store, again);
}

#[test]
fn period_ids_only() {
    let mut p = period("A", "2000-01", None);
    p.events = vec![event("e1", "2000-01-02", None)];
    let mut y = timeline(vec![p]);
    y.assign_period_ids();
    assert!(y.life_periods[0].id.is_some());
    assert!(y.life_periods[0].events[0].id.is_none());
}

#[test]
fn stored_copy_drops_ids() {
    let mut p = period("A", "2000-01", Some(1));
    p.events = vec![event("e1", "2000-01-02", Some(2))];
    let y = timeline(vec![p]);
    let stored = y.without_ids();
    assert!(stored.life_periods[0].id.is_none());
    assert!(stored.life_periods[0].events[0].id.is_none());
    assert_eq!(stored.life_periods[0].events[0].name, "e1");
    assert_eq!(stored.routines, y.routines);
}

#[test]
fn start_state_falls_back_and_fills_ids() {
    let s = start_state(None, "");
    assert!(s.save_default_first);
    assert_eq!(s.selected_yaml, "default");
    assert_eq!(s.yaml.name, "");
    assert_eq!(s.yaml.date_of_birth, "");
    assert_eq!(s.yaml.life_expectancy, 0);
    assert!(s.yaml.life_periods.is_empty());
    assert!(s.yaml.routines.is_empty());

    let mut p = period("School", "2005-01", Some(7));
    p.events.push(event("Prom", "2010-06-01", None));
    let loaded = timeline(vec![p, period("Work", "2015-01", None)]);
    let s = start_state(Some(loaded), "eJwrSS0uAQAEXQHB");
    assert!(!s.save_default_first);
    assert_eq!(s.selected_yaml, "Shared Timeline");
    assert_eq!(s.yaml.name, "Me");
    assert_eq!(names(&s.yaml), vec!["School", "Work"]);
    assert_eq!(s.yaml.life_periods[0].id, Some(7));
    assert!(s.yaml.life_periods[0].events[0].id.is_some());
    assert!(s.yaml.life_periods[1].id.is_some());
}
