use rdash::{Config, ProgramEntry};

fn entry(name: &str, display_name: &str) -> ProgramEntry {
    ProgramEntry {
        name: name.to_string(),
        display_name: display_name.to_string(),
        command: name.to_string(),
        args: vec![],
        description: None,
        run_with_sudo: false,
        show_output: false,
    }
}

fn names(config: &Config) -> Vec<String> {
    config.get_programs().iter().map(|p| p.display_name.clone()).collect()
}

#[test]
fn default_store_has_monitor_and_editor() {
    let config = Config::default();
    assert_eq!(config.programs.len(), 2);
    assert_eq!(names(&config), vec!["System Monitor", "Text Editor"]);
    let htop = &config.programs[0];
    assert_eq!(htop.name, "htop");
    assert_eq!(htop.command, "htop");
    assert_eq!(htop.description.as_deref(), Some("System resource monitor"));
    assert!(!htop.run_with_sudo && !htop.show_output);
}

#[test]
fn programs_are_listed_by_display_name() {
    let mut config = Config::empty();
    config.add_program(entry("z", "Zeta"));
    config.add_program(entry("a", "alpha"));
    config.add_program(entry("m", "Beta"));
    config.add_program(entry("b", "Alpha"));
    assert_eq!(names(&config), vec!["Alpha", "Beta", "Zeta", "alpha"]);
}

#[test]
fn equal_display_names_keep_stored_order() {
    let mut config = Config::empty();
    config.add_program(entry("one", "Same"));
    config.add_program(entry("two", "Same"));
    let listed: Vec<String> = config.get_programs().iter().map(|p| p.name.clone()).collect();
    assert_eq!(listed, vec!["one", "two"]);
}

#[test]
fn adding_an_existing_name_replaces_the_entry() {
    let mut config = Config::empty();
    config.add_program(entry("t", "First"));
    config.add_program(entry("t", "Second"));
    assert_eq!(config.programs.len(), 1);
    assert_eq!(config.programs[0].display_name, "Second");
}

#[test]
fn removing_reports_whether_the_name_was_there() {
    let mut config = Config::empty();
    config.add_program(entry("a", "A"));
    config.add_program(entry("b", "B"));
    assert!(config.remove_program("a"));
    assert!(!config.remove_program("a"));
    assert!(!config.remove_program("missing"));
    assert_eq!(names(&config), vec!["B"]);
}

#[test]
fn empty_store_lists_nothing() {
    let config = Config::empty();
    assert!(config.get_programs().is_empty());
}

#[test]
fn duplicate_copies_every_field() {
    let mut e = entry("x", "X");
    e.args = vec!["-a".to_string(), "b".to_string()];
    e.description = Some("d".to_string());
    e.run_with_sudo = true;
    let c = e.duplicate();
    assert_eq!(c.name, "x");
    assert_eq!(c.args, vec!["-a", "b"]);
    assert_eq!(c.description.as_deref(), Some("d"));
    assert!(c.run_with_sudo);
}

#[test]
fn config_file_sits_in_the_rdash_directory() {
    if let Some(path) = Config::config_file() {
        assert!(path.ends_with("rdash/config.json"));
    }
}

#[test]
fn text_order_compares_code_points() {
    assert!(rdash::text_le("abc", "abd"));
    assert!(!rdash::text_le("abd", "abc"));
    assert!(rdash::text_le("ab", "abc"));
    assert!(!rdash::text_le("abc", "ab"));
    assert!(rdash::text_le("", ""));
    assert!(rdash::text_le("Z", "a"));
}

#[test]
fn rebuilding_from_entries_in_any_order_gives_the_same_store() {
    let mut saved = Config::empty();
    saved.add_program(entry("a", "A"));
    saved.add_program(entry("b", "B"));
    saved.add_program(entry("c", "C"));
    let mut shuffled: Vec<ProgramEntry> = saved.programs.iter().map(|e| e.duplicate()).collect();
    shuffled.reverse();
    let rebuilt = Config::from_entries(&shuffled);
    assert_eq!(names(&rebuilt), names(&saved));
    let mut keys: Vec<String> = rebuilt.programs.iter().map(|e| e.name.clone()).collect();
    keys.sort();
    assert_eq!(keys, vec!["a", "b", "c"]);
}

#[test]
fn rebuilding_keeps_the_later_of_two_entries_with_one_name() {
    let rebuilt = Config::from_entries(&vec![entry("t", "First"), entry("t", "Second")]);
    assert_eq!(rebuilt.programs.len(), 1);
    assert_eq!(rebuilt.programs[0].display_name, "Second");
}

#[test]
fn config_directory_prefers_the_platform_directory() {
    let dir = rdash::config_dir_from(Some("/etc/xdg".to_string()), Some("/home/u".to_string()));
    assert_eq!(dir.as_deref(), Some("/etc/xdg/rdash"));
}

#[test]
fn config_directory_falls_back_to_dot_config_in_home() {
    let dir = rdash::config_dir_from(None, Some("/home/u".to_string()));
    assert_eq!(dir.as_deref(), Some("/home/u/.config/rdash"));
    assert_eq!(rdash::config_dir_from(None, None), None);
}

#[test]
fn config_file_is_config_json_in_the_directory() {
    let file = rdash::config_file_in(Some("/home/u/.config/rdash".to_string()));
    assert_eq!(file.as_deref(), Some("/home/u/.config/rdash/config.json"));
    assert_eq!(rdash::config_file_in(None), None);
}
