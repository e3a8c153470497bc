use myquest::todo::shows_placeholder;
use myquest::dates::{Date, LocalDateTime};
use myquest::todo::{day_index, drop_updates, new_todo_content, Todo, TodoStore};

fn at() -> LocalDateTime {
    LocalDateTime { date: Date { day: 738886 }, seconds_from_midnight: 3600, nanosecond: 0 }
}

fn todo(id: u128, position: i32) -> Todo {
    Todo { id, content: format!("t{}", id), day: "monday".to_string(), created_at: at(), position }
}

fn contents(v: &[Todo]) -> Vec<String> {
    v.iter().map(|t| t.content.clone()).collect()
}

fn positions(v: &[Todo]) -> Vec<i32> {
    v.iter().map(|t| t.position).collect()
}

#[test]
fn day_names_any_case() {
    assert_eq!(day_index("monday"), Some(0));
    assert_eq!(day_index("Wednesday"), Some(2));
    assert_eq!(day_index("SUNDAY"), Some(6));
    assert_eq!(day_index("someday"), None);
}

#[test]
fn new_todo_defaults() {
    let t = Todo::new("Buy milk".to_string(), "Monday".to_string());
    assert_eq!(t.content, "Buy milk");
    assert_eq!(t.day, "Monday");
    assert_eq!(t.position, 0);
    let u = Todo::new("Buy milk".to_string(), "Monday".to_string());
    assert_ne!(t.id, u.id);
}

#[test]
fn create_appends_with_next_position() {
    let mut store = TodoStore::new();
    store.create_todo("a".to_string(), "Monday".to_string());
    store.create_todo("b".to_string(), "monday".to_string());
    store.create_todo("c".to_string(), "Tuesday".to_string());
    let mon = store.get_todos_by_day("MONDAY");
    assert_eq!(contents(&mon), vec!["a", "b"]);
    assert_eq!(positions(&mon), vec![1, 2]);
    assert_eq!(mon[1].day, "monday");
    let tue = store.get_todos_by_day("tuesday");
    assert_eq!(contents(&tue), vec!["c"]);
    assert_eq!(positions(&tue), vec![1]);
    assert!(store.get_todos_by_day("friday").is_empty());
}

#[test]
fn invalid_day_is_refused_by_try_versions() {
    let mut store = TodoStore::new();
    assert!(!store.try_create_todo("x".to_string(), "Funday".to_string()));
    assert!(store.try_get_todos_by_day("Funday").is_none());
    assert!(store.try_create_todo("x".to_string(), "Friday".to_string()));
    assert_eq!(store.try_get_todos_by_day("friday").unwrap().len(), 1);
    assert!(!store.try_update_positions("Funday", vec![]));
}

#[test]
fn listing_sorts_by_position_stably() {
    let mut store = TodoStore::new();
    store.monday.todos = vec![todo(1, 3), todo(2, 1), todo(3, 3), todo(4, 2)];
    let listed = store.get_todos_by_day("monday");
    assert_eq!(contents(&listed), vec!["t2", "t4", "t1", "t3"]);
}

#[test]
fn delete_renumbers_the_day() {
    let mut store = TodoStore::new();
    store.tuesday.todos = vec![todo(1, 1), todo(2, 2), todo(3, 3)];
    store.delete_todo(2);
    assert_eq!(contents(&store.tuesday.todos), vec!["t1", "t3"]);
    assert_eq!(positions(&store.tuesday.todos), vec![1, 2]);
    // Unknown id: nothing changes.
    store.delete_todo(99);
    assert_eq!(store.tuesday.todos.len(), 2);
}

#[test]
fn move_to_other_day() {
    let mut store = TodoStore::new();
    store.monday.todos = vec![todo(1, 1), todo(2, 2)];
    store.friday.todos = vec![todo(7, 1)];
    store.move_todo(1, "Friday".to_string());
    assert_eq!(contents(&store.monday.todos), vec!["t2"]);
    assert_eq!(positions(&store.monday.todos), vec![1]);
    assert_eq!(contents(&store.friday.todos), vec!["t7", "t1"]);
    assert_eq!(positions(&store.friday.todos), vec![1, 2]);
    assert_eq!(store.friday.todos[1].day, "Friday");
    // Moving an unknown todo does nothing.
    store.move_todo(50, "Friday".to_string());
    assert_eq!(store.friday.todos.len(), 2);
    // A bad day name for an existing todo is refused by the try version.
    assert!(!store.try_move_todo(2, "Funday".to_string()));
    assert_eq!(store.monday.todos.len(), 1);
}

#[test]
fn positions_update_last_pair_wins() {
    let mut store = TodoStore::new();
    store.sunday.todos = vec![todo(1, 1), todo(2, 2), todo(3, 3)];
    store.update_positions("Sunday", vec![(3, 0), (1, 5), (3, 9)]);
    assert_eq!(positions(&store.sunday.todos), vec![5, 2, 9]);
}

#[test]
fn drop_reorders_and_numbers_from_zero() {
    let list = vec![todo(10, 1), todo(20, 2), todo(30, 3)];
    assert_eq!(drop_updates(&list, 30, 0), Some(vec![(30, 0), (10, 1), (20, 2)]));
    assert_eq!(drop_updates(&list, 10, 2), Some(vec![(20, 0), (30, 1), (10, 2)]));
    assert_eq!(drop_updates(&list, 20, 1), None);
    assert_eq!(drop_updates(&list, 99, 1), None);
}

#[test]
fn typed_content_is_trimmed() {
    assert_eq!(new_todo_content("  Buy milk \n"), Some("Buy milk".to_string()));
    assert_eq!(new_todo_content("x"), Some("x".to_string()));
    assert_eq!(new_todo_content("   \t "), None);
    assert_eq!(new_todo_content(""), None);
}

#[test]
fn duplicate_week_is_equal() {
    let mut store = TodoStore::new();
    store.create_todo("a".to_string(), "Saturday".to_string());
    let copy = store.duplicate_week();
    assert_eq!(copy, store);
}

#[test]
fn day_tab_table() {
    let tabs = myquest::todo::day_tabs();
    let names: Vec<&str> = tabs.iter().map(|d| d.name.as_str()).collect();
    assert_eq!(names, vec!["Monday", "Tuesday", "Wednesday", "Thursday", "Friday", "Saturday", "Sunday"]);
    assert_eq!(tabs[0].symbol, "🌙");
    assert_eq!(tabs[6].symbol, "☉");
    assert_eq!(tabs[4].symbol, "♀");
}

#[test]
fn drop_placeholder() {
    assert!(shows_placeholder(Some(2), 2, Some(7), 8));
    assert!(!shows_placeholder(Some(2), 2, Some(8), 8));
    assert!(!shows_placeholder(Some(1), 2, Some(7), 8));
    assert!(!shows_placeholder(None, 2, Some(7), 8));
    assert!(shows_placeholder(Some(2), 2, None, 8));
}
