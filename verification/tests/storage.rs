use myquest::config::timeline_choices;
use myquest::config::{
    available_timelines, get_available_configs, get_config_manager, get_default_config,
    ConfigManager, NativeConfigManager, WasmConfigManager,
};
use myquest::paths::{base_dir, documents_base, root_candidate, PathManager};
use myquest::share::{generate_qr_code, share_url};
use myquest::storage::{
    backup_extension_string, backup_shifts, FileError, FileManagerConfig, JsonFormat,
    StorageConfig, StorageError, YamlFormat,
};

#[test]
fn storage_defaults() {
    let c = StorageConfig::default();
    assert!(c.create_dirs);
    assert!(c.backup_on_save);
    assert_eq!(c.max_backups, 5);
    assert_eq!(c.extension, "json");
    let f = FileManagerConfig::default();
    assert_eq!(f, FileManagerConfig { create_dirs: true, backup_on_save: true, max_backups: 5 });
}

#[test]
fn format_extensions() {
    assert_eq!(JsonFormat::default_extension(), "json");
    assert_eq!(YamlFormat::default_extension(), "yaml");
}

#[test]
fn storage_error_messages() {
    assert_eq!(StorageError::Io("disk full".to_string()).message(), "IO error: disk full");
    assert_eq!(StorageError::Serialization("bad".to_string()).message(), "Serialization error: bad");
    assert_eq!(StorageError::LockError.message(), "Lock acquisition failed");
    assert_eq!(
        StorageError::InitError("no dir".to_string()).message(),
        "Failed to initialize directory: no dir"
    );
    assert_eq!(FileError::Io("x".to_string()).message(), "IO error: x");
    assert_eq!(FileError::Serialization("y".to_string()).message(), "Serialization error: y");
    assert_eq!(FileError::LockError.message(), "Lock acquisition failed");
    assert_eq!(FileError::InitError("z".to_string()).message(), "Failed to initialize directory: z");
}

#[test]
fn backup_rotation_order() {
    assert_eq!(backup_extension_string(12), "backup12");
    let shifts = backup_shifts(5);
    let expected: Vec<(String, String)> = vec![
        ("backup4".to_string(), "backup5".to_string()),
        ("backup3".to_string(), "backup4".to_string()),
        ("backup2".to_string(), "backup3".to_string()),
        ("backup1".to_string(), "backup2".to_string()),
    ];
    assert_eq!(shifts, expected);
    assert!(backup_shifts(1).is_empty());
    assert!(backup_shifts(0).is_empty());
    assert_eq!(backup_shifts(2), vec![("backup1".to_string(), "backup2".to_string())]);
}

#[test]
fn data_paths() {
    assert_eq!(PathManager::new(Some("/home/me/".to_string()), true).todos_file(), "/home/me/todos.json");
    let pm = PathManager::new(Some("/data/myquest".to_string()), true);
    assert_eq!(pm.root_dir(), "/data/myquest");
    assert_eq!(pm.habits_dir(), "/data/myquest/habits");
    assert_eq!(pm.timelines_dir(), "/data/myquest/timelines");
    assert_eq!(pm.habits_file(), "/data/myquest/habits/habits.json");
    assert_eq!(pm.todos_file(), "/data/myquest/todos.json");
    assert_eq!(pm.timeline_file("work"), "/data/myquest/timelines/work.yaml");
}

#[test]
fn root_falls_back_to_working_directory() {
    assert_eq!(PathManager::new(Some("/data/myquest".to_string()), false).root_dir(), ".");
    assert_eq!(PathManager::new(None, true).root_dir(), ".");
    assert_eq!(PathManager::new(None, false).todos_file(), "./todos.json");
    if let Some((folders, base)) = documents_base() {
        assert_eq!(base, base_dir(folders.documents.clone(), folders.home.clone()));
        assert!(root_candidate(Some(base)).unwrap().ends_with("myquest"));
    }
}

#[test]
fn data_folder_choice() {
    assert_eq!(base_dir(Some("/home/me/Documents".to_string()), "/home/me".to_string()), "/home/me/Documents");
    assert_eq!(base_dir(None, "/home/me".to_string()), "/home/me");
    assert_eq!(root_candidate(Some("/home/me/Documents".to_string())), Some("/home/me/Documents/myquest".to_string()));
    assert_eq!(root_candidate(None), None);
    let pm = PathManager::new(root_candidate(Some(base_dir(None, "/home/me".to_string()))), true);
    assert_eq!(pm.root_dir(), "/home/me/myquest");
}

#[test]
fn config_listing() {
    let entries: Vec<String> = vec![
        "data/default.yaml".to_string(),
        "data/notes.txt".to_string(),
        "data/work.yaml".to_string(),
        "data/archive.yml".to_string(),
        "data/.yaml".to_string(),
    ];
    let native = NativeConfigManager::new("data".to_string());
    assert_eq!(native.get_available_configs(&entries), vec!["default.yaml", "work.yaml"]);
    assert_eq!(get_available_configs(&entries), vec!["default.yaml", "work.yaml"]);
    assert_eq!(native.config_file("default.yaml"), Some("data/default.yaml".to_string()));
    assert_eq!(get_config_manager().data_folder(), "data");
    let wasm = WasmConfigManager;
    assert_eq!(wasm.get_available_configs(&entries), vec!["Default"]);
    assert_eq!(wasm.config_file("x.yaml"), None);
    assert_eq!(wasm.load_config("x.yaml"), get_default_config());
}

#[test]
fn timeline_listing() {
    let entries: Vec<String> =
        vec!["t/work.yaml".to_string(), "t/readme.md".to_string(), "t/home.yaml".to_string()];
    assert_eq!(available_timelines(Some(&entries)), vec!["work", "home"]);
    assert_eq!(available_timelines(None), vec!["default"]);
    assert!(available_timelines(Some(&vec![])).is_empty());
}

#[test]
fn built_in_config() {
    let c = get_default_config();
    assert_eq!(c.name, "John Doe");
    assert_eq!(c.date_of_birth, "2000-01");
    assert_eq!(c.life_expectancy, 80);
    let names: Vec<&str> = c.life_periods.iter().map(|p| p.name.as_str()).collect();
    assert_eq!(names, vec!["Childhood", "Teenage Years", "Early Adulthood", "Career Growth"]);
    assert_eq!(c.life_periods[3].color, "#FFFFBA");
}

#[test]
fn share_links() {
    assert_eq!(share_url("abc"), "https://myquest.waozi.xyz?y=abc");
    assert_eq!(share_url(""), "https://myquest.waozi.xyz?y=");
    let svg = generate_qr_code("https://myquest.waozi.xyz?y=abc").unwrap();
    assert!(svg.contains("<svg"));
    assert_ne!(svg, "https://myquest.waozi.xyz?y=abc");
    let too_long = "x".repeat(8000);
    assert!(generate_qr_code(&too_long).is_none());
}

#[test]
fn timeline_selector_choices() {
    assert_eq!(timeline_choices(&vec![]), vec!["default"]);
    let v = vec!["work".to_string(), "home".to_string()];
    assert_eq!(timeline_choices(&v), v);
}

#[test]
fn browser_yaml_keys() {
    let keys: Vec<String> =
        vec!["a.yaml".to_string(), "b.yml".to_string(), "c.json".to_string(), "yaml".to_string(), ".yml".to_string()];
    assert_eq!(myquest::config::yaml_keys(&keys), vec!["a.yaml", "b.yml", ".yml"]);
    assert!(myquest::config::yaml_keys(&vec![]).is_empty());
}
