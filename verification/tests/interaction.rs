use todotui::controller::{App, Event, Key, Mode};
use todotui::date::Date;

fn d(year: u32, month: u32, day: u32) -> Date {
    Date { year, month, day }
}

fn type_str(app: &mut App, s: &str, today: Date) {
    for c in s.chars() {
        assert!(!app.on_key(Key::Char(c), today));
    }
}

#[test]
fn fresh_controller_is_normal_and_empty() {
    let app = App::new();
    assert_eq!(app.mode, Mode::Normal);
    assert_eq!(app.command_buffer, "");
    assert_eq!(app.cursor, (1, 1));
    assert!(app.tasks.is_empty());
}

#[test]
fn q_quits_in_normal_mode() {
    let mut app = App::new();
    assert!(app.on_key(Key::Char('q'), d(2022, 3, 2)));
}

#[test]
fn slash_enters_command_mode_seeded() {
    let mut app = App::new();
    assert!(!app.on_key(Key::Char('/'), d(2022, 3, 2)));
    assert_eq!(app.mode, Mode::Command);
    assert_eq!(app.command_buffer, "/");
}

#[test]
fn a_enters_command_mode_with_add_prefix() {
    let mut app = App::new();
    assert!(!app.on_key(Key::Char('a'), d(2022, 3, 2)));
    assert_eq!(app.mode, Mode::Command);
    assert_eq!(app.command_buffer, ":add ");
}

#[test]
fn esc_restores_cursor_saved_on_entry() {
    let today = d(2022, 3, 2);
    let mut app = App::new();
    app.cursor = (7, 3);
    assert!(!app.on_key(Key::Char('/'), today));
    type_str(&mut app, "some search text", today);
    assert_ne!(app.cursor, (7, 3));
    assert!(!app.on_key(Key::Esc, today));
    assert_eq!(app.mode, Mode::Normal);
    assert_eq!(app.cursor, (7, 3));
    assert_eq!(app.command_buffer, "");
}

#[test]
fn typing_q_in_command_mode_does_not_quit() {
    let today = d(2022, 3, 2);
    let mut app = App::new();
    assert!(!app.on_key(Key::Char('/'), today));
    assert!(!app.on_key(Key::Char('q'), today));
    assert_eq!(app.mode, Mode::Command);
    assert_eq!(app.command_buffer, "/q");
}

#[test]
fn add_command_builds_a_task() {
    let today = d(2022, 3, 2);
    let mut app = App::new();
    assert!(!app.on_key(Key::Char('a'), today));
    type_str(&mut app, "(A) +p @c \"from the command line\" due:weekend", today);
    assert!(!app.on_key(Key::Enter, today));
    assert_eq!(app.mode, Mode::Normal);
    assert_eq!(app.tasks.len(), 1);
    assert_eq!(app.tasks[0].name, "from the command line");
    assert_eq!(app.tasks[0].priority, Some('A'));
    assert_eq!(app.tasks[0].due, Some(d(2022, 3, 4)));
    assert_eq!(app.command_buffer, "");
}

#[test]
fn rejected_add_command_creates_nothing() {
    let today = d(2022, 3, 2);
    let mut app = App::new();
    assert!(!app.on_key(Key::Char('a'), today));
    type_str(&mut app, "\"late\" due:bogus", today);
    assert!(!app.on_key(Key::Enter, today));
    assert_eq!(app.mode, Mode::Normal);
    assert!(app.tasks.is_empty());
}

#[test]
fn search_command_is_stored() {
    let today = d(2022, 3, 2);
    let mut app = App::new();
    assert!(!app.on_key(Key::Char('/'), today));
    type_str(&mut app, "milk", today);
    assert!(!app.on_key(Key::Enter, today));
    assert_eq!(app.mode, Mode::Normal);
    assert_eq!(app.search, "milk");
    assert!(app.tasks.is_empty());
}

#[test]
fn cursor_moves_clamp_to_task_rows() {
    let today = d(2022, 3, 2);
    let mut app = App::new();
    app.cursor = (1, 0);
    for name in ["\"one\"", "\"two\"", "\"three\""] {
        assert!(!app.on_key(Key::Char('a'), today));
        type_str(&mut app, name, today);
        assert!(!app.on_key(Key::Enter, today));
    }
    assert_eq!(app.tasks.len(), 3);
    assert!(!app.on_key(Key::Char('j'), today));
    assert!(!app.on_key(Key::Down, today));
    assert_eq!(app.cursor.1, 2);
    assert!(!app.on_key(Key::Char('j'), today));
    assert_eq!(app.cursor.1, 2);
    assert!(!app.on_key(Key::Char('k'), today));
    assert!(!app.on_key(Key::Up, today));
    assert_eq!(app.cursor.1, 0);
    assert!(!app.on_key(Key::Up, today));
    assert_eq!(app.cursor.1, 0);
    assert!(!app.on_key(Key::Char('G'), today));
    assert_eq!(app.cursor.1, 2);
    assert!(!app.on_key(Key::Char('g'), today));
    assert_eq!(app.cursor.1, 0);
}

#[test]
fn run_consumes_events_in_order_until_quit() {
    let today = d(2022, 3, 2);
    let mut app = App::new();
    let mut events = vec![Event::Tick, Event::Input(Key::Char('a'))];
    for c in "\"batched\"".chars() {
        events.push(Event::Input(Key::Char(c)));
    }
    events.push(Event::Input(Key::Enter));
    events.push(Event::Input(Key::Char('q')));
    events.push(Event::Input(Key::Char('a')));
    assert!(app.run(&events, today));
    // the quit keystroke stops the run: the trailing `a` was never handled
    assert_eq!(app.mode, Mode::Normal);
    assert_eq!(app.tasks.len(), 1);
    assert_eq!(app.tasks[0].name, "batched");
}

#[test]
fn tick_changes_nothing() {
    let mut app = App::new();
    app.cursor = (4, 2);
    assert!(!app.on_event(Event::Tick));
    assert_eq!(app.mode, Mode::Normal);
    assert_eq!(app.cursor, (4, 2));
    assert!(app.tasks.is_empty());
}

#[test]
fn input_event_routes_to_key_handling() {
    let mut app = App::new();
    assert!(app.on_event(Event::Input(Key::Char('q'))));
    assert!(!app.on_event(Event::Input(Key::Char('/'))));
    assert_eq!(app.mode, Mode::Command);
}
