use rdash::{centered, program_row, Color, Config, Dashboard, Key, Mode, ProgramEntry};

fn entry(name: &str, display_name: &str) -> ProgramEntry {
    ProgramEntry {
        name: name.to_string(),
        display_name: display_name.to_string(),
        command: name.to_string(),
        args: vec![],
        description: None,
        run_with_sudo: false,
        show_output: false,
    }
}

#[test]
fn row_text_shows_flags_and_description() {
    let mut e = entry("a", "Alpha");
    assert_eq!(program_row(&e), "[ Alpha ]");
    e.run_with_sudo = true;
    e.show_output = true;
    e.description = Some("first".to_string());
    assert_eq!(program_row(&e), "[ Alpha [SUDO] [OUT] - first ]");
}

#[test]
fn centring_falls_back_to_column_two() {
    assert_eq!(centered(80, 20), 30);
    assert_eq!(centered(10, 20), 2);
    assert_eq!(centered(20, 20), 2);
}

#[test]
fn main_screen_layout() {
    let mut config = Config::empty();
    config.add_program(entry("b", "Beta"));
    config.add_program(entry("a", "Alpha"));
    let mut d = Dashboard::new(config);
    d.selected_index = 1;
    let frame = d.draw(40, 20);
    assert_eq!(frame[0].text, format!("{:40}", " RDash - Server Dashboard"));
    assert_eq!(frame[0].bg, Some(Color::Blue));
    assert_eq!(frame[1].y, 2);
    assert_eq!(frame[2].text, "[ Alpha ]");
    assert_eq!(frame[2].y, 4);
    assert_eq!(frame[2].x, (40 - 9) / 2);
    assert_eq!(frame[2].bg, None);
    assert_eq!(frame[3].text, "[ Beta ]");
    assert_eq!(frame[3].bg, Some(Color::Yellow));
    assert_eq!(frame[3].fg, Some(Color::Black));
    let last = frame.last().unwrap();
    assert_eq!(last.y, 19);
    assert_eq!(last.bg, Some(Color::DarkGrey));
    assert_eq!(frame.len(), 5);
}

#[test]
fn empty_menu_shows_a_hint_and_the_status() {
    let mut d = Dashboard::new(Config::empty());
    d.status_message = Some("hello".to_string());
    let frame = d.draw(80, 24);
    assert_eq!(frame[2].text, "No programs configured. Press 'a' to add a program.");
    assert_eq!(frame[2].y, 6);
    assert_eq!(frame[3].text, "hello");
    assert_eq!(frame[3].y, 21);
    assert_eq!(frame[3].fg, Some(Color::Green));
}

#[test]
fn wizard_screen_shows_step_and_value() {
    let mut d = Dashboard::new(Config::empty());
    d.handle_key(Key::Char('a'));
    d.handle_key(Key::Char('x'));
    let frame = d.draw(40, 20);
    assert_eq!(frame[1].text, "Step 1 of 7: Program Name (identifier)");
    assert_eq!(frame[2].text, "> x");
    assert_eq!(frame.len(), 4);
}

#[test]
fn help_screen_fits_the_height() {
    let mut d = Dashboard::new(Config::empty());
    d.mode = Mode::Help;
    let tall = d.draw(80, 40);
    assert_eq!(tall.len(), 23);
    assert_eq!(tall[2].text, "RDash - Vim-like Server Dashboard");
    let short = d.draw(80, 10);
    assert_eq!(short.len(), 9);
}

#[test]
fn output_screen_clips_long_lines_to_the_box() {
    let mut d = Dashboard::new(Config::empty());
    let long = "z".repeat(200);
    d.show_output("P", &format!("{}\nshort", long), "", true);
    let frame = d.draw(68, 12);
    // box of 64 columns, 60 inside
    let shown: Vec<&str> = frame.iter().filter(|s| s.x == 3).map(|s| s.text.as_str()).collect();
    assert_eq!(shown, vec![format!("{}...", "z".repeat(57)), "short".to_string()]);
    assert_eq!(frame[0].text, format!("{:68}", " Output: P"));
    assert_eq!(frame[1].text, format!("┌{}┐", "─".repeat(62)));
}

#[test]
fn output_lines_stop_at_the_box_height() {
    let lines: Vec<String> = (0..10).map(|i| format!("line {}", i)).collect();
    let shown = rdash::output_lines(&lines, 3, 60);
    assert_eq!(shown.len(), 3);
    assert_eq!(shown[0].text, "line 0");
    assert_eq!(shown[2].y, 4);
    assert!(shown.iter().all(|s| s.x == 3));
    let few = rdash::output_lines(&lines[..2].to_vec(), 5, 4);
    assert_eq!(few.len(), 2);
    assert_eq!(few[0].text, "l...");
}

#[test]
fn output_screen_splits_lines_without_their_endings() {
    let mut d = Dashboard::new(Config::empty());
    d.show_output("P", "one\r\ntwo\n", "", true);
    let frame = d.draw(40, 12);
    let shown: Vec<&str> = frame.iter().filter(|s| s.x == 3).map(|s| s.text.as_str()).collect();
    assert_eq!(shown, vec!["one", "two"]);
}

#[test]
fn output_lines_keep_a_lone_carriage_return_and_blank_lines() {
    let mut d = Dashboard::new(Config::empty());
    d.show_output("P", "a\n\r\nb\r", "", true);
    let frame = d.draw(40, 12);
    let shown: Vec<&str> = frame.iter().filter(|s| s.x == 3).map(|s| s.text.as_str()).collect();
    assert_eq!(shown, vec!["a", "", "b\r"]);
}
