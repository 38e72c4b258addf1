use rdash::{launch_plan, Action, AddProgramForm, Config, Dashboard, Key, Mode, ProgramEntry, Saved};

fn entry(name: &str, display_name: &str) -> ProgramEntry {
    ProgramEntry {
        name: name.to_string(),
        display_name: display_name.to_string(),
        command: name.to_string(),
        args: vec![],
        description: None,
        run_with_sudo: false,
        show_output: false,
    }
}

fn dashboard_with(n: usize) -> Dashboard {
    let mut config = Config::empty();
    for i in 0..n {
        config.add_program(entry(&format!("p{}", i), &format!("Program {}", i)));
    }
    Dashboard::new(config)
}

fn type_text(d: &mut Dashboard, s: &str) {
    for c in s.chars() {
        assert!(matches!(d.handle_key(Key::Char(c)), Action::Continue));
    }
}

#[test]
fn pressing_down_once_per_row_returns_to_the_start() {
    for n in 1..6 {
        for start in 0..n {
            let mut d = dashboard_with(n);
            d.selected_index = start;
            for _ in 0..n {
                d.handle_key(Key::Down);
            }
            assert_eq!(d.selected_index, start);
        }
    }
}

#[test]
fn down_and_up_wrap_around() {
    let mut d = dashboard_with(3);
    d.handle_key(Key::Up);
    assert_eq!(d.selected_index, 2);
    d.handle_key(Key::Char('j'));
    assert_eq!(d.selected_index, 0);
    d.handle_key(Key::Char('k'));
    assert_eq!(d.selected_index, 2);
}

#[test]
fn moving_in_an_empty_menu_does_nothing() {
    let mut d = dashboard_with(0);
    d.handle_key(Key::Down);
    d.handle_key(Key::Up);
    assert_eq!(d.selected_index, 0);
}

#[test]
fn deleting_the_last_row_selects_the_new_last_row() {
    let mut d = dashboard_with(3);
    d.selected_index = 2;
    match d.handle_key(Key::Char('d')) {
        Action::Save(Saved::Deleted(name)) => assert_eq!(name, "Program 2"),
        other => panic!("unexpected {:?}", other),
    }
    assert_eq!(d.config.programs.len(), 2);
    assert_eq!(d.selected_index, 1);
}

#[test]
fn deleting_the_only_row_leaves_the_selection_at_zero() {
    let mut d = dashboard_with(1);
    assert!(d.delete_selected_program().is_some());
    assert!(d.config.programs.is_empty());
    assert_eq!(d.selected_index, 0);
    assert!(d.delete_selected_program().is_none());
}

#[test]
fn saving_after_delete_reports_the_outcome() {
    let mut d = dashboard_with(2);
    d.record_save(Saved::Deleted("Program 0".to_string()), Ok(()));
    assert_eq!(d.status_message.as_deref(), Some("Deleted: Program 0"));
    d.record_save(Saved::Added("X".to_string()), Ok(()));
    assert_eq!(d.status_message.as_deref(), Some("Added: X"));
    d.record_save(Saved::Added("X".to_string()), Err("disk full".to_string()));
    assert_eq!(d.status_message.as_deref(), Some("Error saving config: disk full"));
}

#[test]
fn wizard_blocks_at_step_six_until_required_fields_are_set() {
    let mut form = AddProgramForm::new();
    form.step = 6;
    assert!(!form.advance());
    assert_eq!(form.step, 6);
    form.name = "t".to_string();
    form.display_name = "T".to_string();
    assert!(!form.advance());
    assert_eq!(form.step, 6);
    form.command = "true".to_string();
    assert!(form.advance());
    assert_eq!(form.step, 7);
    assert!(!form.advance());
    assert_eq!(form.step, 7);
}

#[test]
fn enter_at_step_six_with_empty_fields_keeps_the_wizard_open() {
    let mut d = dashboard_with(0);
    d.handle_key(Key::Char('a'));
    assert_eq!(d.mode, Mode::AddProgram);
    for _ in 0..6 {
        d.handle_key(Key::Enter);
    }
    assert_eq!(d.add_form.step, 6);
    assert!(matches!(d.handle_key(Key::Enter), Action::Continue));
    assert_eq!(d.add_form.step, 6);
    assert_eq!(d.mode, Mode::AddProgram);
}

#[test]
fn wizard_labels_and_values_follow_the_step() {
    let mut form = AddProgramForm::new();
    assert_eq!(form.current_field(), "Program Name (identifier)");
    form.set_current_value("abc".to_string());
    assert_eq!(form.current_value(), "abc");
    form.step = 5;
    assert_eq!(form.current_field(), "Run with sudo? (y/n)");
    assert_eq!(form.current_value(), "n");
    form.set_current_value("Yes".to_string());
    assert!(form.run_with_sudo);
    form.set_current_value("nope".to_string());
    assert!(!form.run_with_sudo);
    form.step = 7;
    assert_eq!(form.current_field(), "Review");
    assert_eq!(form.current_value(), "");
    form.reset();
    assert_eq!(form.step, 0);
    assert_eq!(form.name, "");
}

#[test]
fn wizard_editing_keys() {
    let mut d = dashboard_with(0);
    d.handle_key(Key::Char('a'));
    type_text(&mut d, "abc");
    d.handle_key(Key::Backspace);
    assert_eq!(d.add_form.name, "ab");
    d.handle_key(Key::Backspace);
    d.handle_key(Key::Backspace);
    d.handle_key(Key::Backspace);
    assert_eq!(d.add_form.name, "");
    for _ in 0..5 {
        d.handle_key(Key::Enter);
    }
    assert_eq!(d.add_form.step, 5);
    d.handle_key(Key::Char('x'));
    assert!(!d.add_form.run_with_sudo);
    d.handle_key(Key::Char('Y'));
    assert!(d.add_form.run_with_sudo);
    d.handle_key(Key::Backspace);
    assert!(!d.add_form.run_with_sudo);
    d.handle_key(Key::Esc);
    assert_eq!(d.mode, Mode::Normal);
    assert_eq!(d.add_form.step, 0);
}

#[test]
fn adding_a_program_through_the_wizard_stores_it_and_reload_keeps_it() {
    let mut d = Dashboard::new(Config::empty());
    d.handle_key(Key::Char('a'));
    type_text(&mut d, "t");
    d.handle_key(Key::Enter);
    type_text(&mut d, "T");
    d.handle_key(Key::Enter);
    type_text(&mut d, "true");
    for _ in 0..4 {
        d.handle_key(Key::Enter);
    }
    assert_eq!(d.add_form.step, 6);
    let action = d.handle_key(Key::Enter);
    let saved = match action {
        Action::Save(s) => s,
        other => panic!("unexpected {:?}", other),
    };
    assert!(matches!(&saved, Saved::Added(n) if n == "T"));
    d.record_save(saved, Ok(()));
    assert_eq!(d.status_message.as_deref(), Some("Added: T"));
    assert_eq!(d.mode, Mode::Normal);
    assert_eq!(d.add_form.step, 0);
    assert_eq!(d.config.programs.len(), 1);
    let e = &d.config.programs[0];
    assert_eq!(e.name, "t");
    assert_eq!(e.display_name, "T");
    assert_eq!(e.command, "true");
    assert!(e.args.is_empty());
    assert!(e.description.is_none());
    assert!(!e.run_with_sudo && !e.show_output);

    let mut reloaded = Config::empty();
    reloaded.add_program(e.duplicate());
    d.selected_index = 0;
    d.reload_config(Ok(reloaded));
    assert_eq!(d.status_message.as_deref(), Some("Configuration reloaded"));
    assert_eq!(d.config.programs.len(), 1);
    let back = &d.config.programs[0];
    assert_eq!(back.name, "t");
    assert_eq!(back.display_name, "T");
    assert_eq!(back.command, "true");
    assert!(back.args.is_empty());
    assert!(back.description.is_none());
}

#[test]
fn wizard_splits_arguments_and_keeps_description() {
    let mut d = Dashboard::new(Config::empty());
    d.add_form.name = "ls".to_string();
    d.add_form.display_name = "List".to_string();
    d.add_form.command = "ls".to_string();
    d.add_form.args = "  -l   -a\t/tmp ".to_string();
    d.add_form.description = "lists files".to_string();
    let name = d.save_new_program();
    assert_eq!(name, "List");
    let e = &d.config.programs[0];
    assert_eq!(e.args, vec!["-l", "-a", "/tmp"]);
    assert_eq!(e.description.as_deref(), Some("lists files"));
}

#[test]
fn reload_failure_keeps_the_store() {
    let mut d = dashboard_with(2);
    d.selected_index = 1;
    d.reload_config(Err("bad json".to_string()));
    assert_eq!(d.config.programs.len(), 2);
    assert_eq!(d.selected_index, 1);
    assert_eq!(d.status_message.as_deref(), Some("Error reloading config: bad json"));
}

#[test]
fn menu_keys_switch_modes_and_ask_for_work() {
    let mut d = dashboard_with(2);
    assert!(matches!(d.handle_key(Key::Char('r')), Action::Reload));
    assert!(matches!(d.handle_key(Key::Char('h')), Action::Continue));
    assert_eq!(d.mode, Mode::Help);
    d.handle_key(Key::Char('x'));
    assert_eq!(d.mode, Mode::Normal);
    assert!(matches!(d.handle_key(Key::Other), Action::Continue));
    assert!(matches!(d.handle_key(Key::Char('q')), Action::Quit));
    assert!(matches!(d.handle_key(Key::Esc), Action::Quit));
}

#[test]
fn enter_plans_the_selected_program() {
    let mut d = dashboard_with(3);
    d.selected_index = 1;
    match d.handle_key(Key::Enter) {
        Action::Launch(plan) => {
            assert_eq!(plan.display_name, "Program 1");
            assert_eq!(plan.program, "p1");
            assert!(plan.args.is_empty());
            assert!(!plan.capture);
        }
        other => panic!("unexpected {:?}", other),
    }
    assert!(matches!(dashboard_with(0).handle_key(Key::Enter), Action::Continue));
}

#[test]
fn sudo_plan_puts_the_command_first() {
    let mut e = entry("apt", "Apt");
    e.args = vec!["update".to_string()];
    e.run_with_sudo = true;
    e.show_output = true;
    let plan = launch_plan(&e);
    assert_eq!(plan.program, "sudo");
    assert_eq!(plan.args, vec!["apt", "update"]);
    assert!(plan.capture);
}

#[test]
fn captured_run_opens_the_viewer() {
    let mut d = dashboard_with(1);
    d.record_captured_run("P", &b"out".to_vec(), &vec![], true);
    assert_eq!(d.mode, Mode::ShowOutput);
    let (name, text) = d.output_data.clone().unwrap();
    assert_eq!(name, "P");
    assert_eq!(text, "out");
    assert_eq!(d.status_message.as_deref(), Some("Executed: P"));
    d.handle_key(Key::Char('x'));
    assert_eq!(d.mode, Mode::ShowOutput);
    d.handle_key(Key::Char(' '));
    assert_eq!(d.mode, Mode::Normal);
    assert!(d.output_data.is_none());
}

#[test]
fn captured_run_decodes_invalid_bytes_with_replacement() {
    let mut d = dashboard_with(1);
    d.record_captured_run("P", &vec![b'a', 0xff], &b"err".to_vec(), false);
    let (_, text) = d.output_data.clone().unwrap();
    assert_eq!(text, "STDOUT:\na\u{fffd}\n\nSTDERR:\nerr");
    assert_eq!(d.status_message.as_deref(), Some("Executed with errors: P"));
}

#[test]
fn launch_outcomes_become_status_messages() {
    let mut d = dashboard_with(1);
    d.record_foreground_run("P", true);
    assert_eq!(d.status_message.as_deref(), Some("Executed: P"));
    d.record_foreground_run("P", false);
    assert_eq!(d.status_message.as_deref(), Some("Failed to execute: P"));
    d.record_launch_error("P", "not found");
    assert_eq!(d.status_message.as_deref(), Some("Error launching P: not found"));
    assert_eq!(d.mode, Mode::Normal);
}

#[test]
fn captured_run_shows_valid_utf8_unchanged() {
    let mut d = dashboard_with(1);
    d.record_captured_run("P", &"héllo ✓".as_bytes().to_vec(), &vec![], true);
    let (_, text) = d.output_data.clone().unwrap();
    assert_eq!(text, "héllo ✓");
}
