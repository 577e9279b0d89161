use heat::app::{App, InputMode, Key};
use heat::habit::{AppData, Habit};
use uuid::Uuid;

fn app_with(n: usize) -> App {
    let habits = (0..n)
        .map(|k| Habit::from_stored(Uuid::nil(), format!("h{}", k), 0, vec![]))
        .collect();
    App::new(AppData { habits })
}

fn type_text(app: &mut App, text: &str) {
    for c in text.chars() {
        app.handle_key(Key::Char(c));
    }
}

#[test]
fn adding_whitespace_name_adds_nothing() {
    let mut app = app_with(2);
    app.start_adding();
    type_text(&mut app, "  ");
    app.confirm_add();
    assert_eq!(app.data.habits.len(), 2);
    assert!(matches!(app.input_mode, InputMode::Normal));
}

#[test]
fn adding_run_appends_and_selects() {
    let mut app = app_with(2);
    app.start_adding();
    type_text(&mut app, "Run");
    app.confirm_add();
    assert_eq!(app.data.habits.len(), 3);
    assert_eq!(app.data.habits[2].name, "Run");
    assert_eq!(app.selected_index, 2);
    assert!(matches!(app.input_mode, InputMode::Normal));
}

#[test]
fn adding_trims_the_name() {
    let mut app = app_with(0);
    assert!(!app.handle_key(Key::Char('a')));
    type_text(&mut app, "  Walk dog ");
    assert!(app.handle_key(Key::Enter));
    assert_eq!(app.data.habits[0].name, "Walk dog");
    assert_eq!(app.selected_index, 0);
}

#[test]
fn backspace_erases_last_character() {
    let mut app = app_with(0);
    app.handle_key(Key::Char('a'));
    type_text(&mut app, "Runx");
    app.handle_key(Key::Backspace);
    match &app.input_mode {
        InputMode::Adding(b) => assert_eq!(b, "Run"),
        _ => panic!("not adding"),
    }
    app.handle_key(Key::Backspace);
    app.handle_key(Key::Backspace);
    app.handle_key(Key::Backspace);
    app.handle_key(Key::Backspace);
    match &app.input_mode {
        InputMode::Adding(b) => assert_eq!(b, ""),
        _ => panic!("not adding"),
    }
}

#[test]
fn escape_cancels_adding() {
    let mut app = app_with(1);
    app.handle_key(Key::Char('a'));
    type_text(&mut app, "Gym");
    assert!(!app.handle_key(Key::Esc));
    assert!(matches!(app.input_mode, InputMode::Normal));
    assert_eq!(app.data.habits.len(), 1);
}

#[test]
fn rename_prefills_and_replaces() {
    let mut app = app_with(3);
    app.selected_index = 1;
    app.handle_key(Key::Char('r'));
    match &app.input_mode {
        InputMode::Renaming(b) => assert_eq!(b, "h1"),
        _ => panic!("not renaming"),
    }
    app.handle_key(Key::Backspace);
    app.handle_key(Key::Backspace);
    type_text(&mut app, " Swim ");
    assert!(app.handle_key(Key::Enter));
    assert_eq!(app.data.habits[1].name, "Swim");
    assert_eq!(app.data.habits[0].name, "h0");
    assert!(matches!(app.input_mode, InputMode::Normal));
}

#[test]
fn rename_to_blank_keeps_name() {
    let mut app = app_with(1);
    app.start_renaming();
    app.pop_char();
    app.pop_char();
    app.push_char(' ');
    app.confirm_rename();
    assert_eq!(app.data.habits[0].name, "h0");
    assert!(matches!(app.input_mode, InputMode::Normal));
}

#[test]
fn rename_needs_a_habit() {
    let mut app = app_with(0);
    app.start_renaming();
    assert!(matches!(app.input_mode, InputMode::Normal));
}

#[test]
fn delete_last_selects_new_last() {
    let mut app = app_with(3);
    app.selected_index = 2;
    app.handle_key(Key::Char('D'));
    assert!(matches!(app.input_mode, InputMode::Deleting));
    assert!(app.handle_key(Key::Char('y')));
    assert_eq!(app.data.habits.len(), 2);
    assert_eq!(app.selected_index, 1);
    assert!(matches!(app.input_mode, InputMode::Normal));
}

#[test]
fn delete_middle_keeps_index() {
    let mut app = app_with(3);
    app.selected_index = 1;
    app.start_deleting();
    app.confirm_delete();
    assert_eq!(app.selected_index, 1);
    assert_eq!(app.data.habits[1].name, "h2");
}

#[test]
fn delete_only_habit() {
    let mut app = app_with(1);
    app.start_deleting();
    app.confirm_delete();
    assert!(app.data.habits.is_empty());
    assert_eq!(app.selected_index, 0);
}

#[test]
fn delete_prompt_ignores_other_keys() {
    let mut app = app_with(2);
    app.handle_key(Key::Char('D'));
    assert!(!app.handle_key(Key::Char('j')));
    assert!(matches!(app.input_mode, InputMode::Deleting));
    assert!(!app.handle_key(Key::Char('n')));
    assert!(matches!(app.input_mode, InputMode::Normal));
    app.handle_key(Key::Char('D'));
    app.handle_key(Key::Esc);
    assert!(matches!(app.input_mode, InputMode::Normal));
    app.start_deleting();
    app.cancel_delete();
    assert_eq!(app.data.habits.len(), 2);
}

#[test]
fn delete_needs_a_habit() {
    let mut app = app_with(0);
    app.handle_key(Key::Char('D'));
    assert!(matches!(app.input_mode, InputMode::Normal));
}

#[test]
fn normal_mode_navigation_keys() {
    let mut app = app_with(7);
    app.handle_key(Key::Char('l'));
    app.handle_key(Key::Char('j'));
    assert_eq!(app.selected_index, 4);
    app.handle_key(Key::Char('h'));
    assert_eq!(app.selected_index, 3);
    app.handle_key(Key::Char('k'));
    assert_eq!(app.selected_index, 0);
    app.handle_key(Key::Char('G'));
    assert_eq!(app.selected_index, 6);
    app.handle_key(Key::Char('g'));
    assert_eq!(app.selected_index, 0);
    app.handle_key(Key::Other);
    app.handle_key(Key::Char('x'));
    assert_eq!(app.selected_index, 0);
}

#[test]
fn enter_toggles_selected_habit_twice() {
    let mut app = app_with(2);
    app.selected_index = 1;
    assert!(app.handle_key(Key::Enter));
    assert_eq!(app.data.habits[1].completions.len(), 1);
    assert!(app.data.habits[0].completions.is_empty());
    app.toggle_today();
    assert!(app.data.habits[1].completions.is_empty());
}

#[test]
fn toggle_on_empty_collection_is_harmless() {
    let mut app = app_with(0);
    app.toggle_selected(100);
    assert!(app.data.habits.is_empty());
}

#[test]
fn toggle_selected_twice_restores() {
    let mut app = app_with(1);
    app.toggle_selected(100);
    assert_eq!(app.data.habits[0].completions, vec![100]);
    app.toggle_selected(100);
    assert!(app.data.habits[0].completions.is_empty());
}

#[test]
fn quit_and_stats_keys() {
    let mut app = app_with(1);
    assert!(app.show_stats);
    app.handle_key(Key::Char('s'));
    assert!(!app.show_stats);
    app.toggle_stats();
    assert!(app.show_stats);
    app.handle_key(Key::Char('q'));
    assert!(app.should_quit);
    let mut other = app_with(0);
    other.quit();
    assert!(other.should_quit);
}

#[test]
fn add_habit_and_rename_selected_directly() {
    let mut app = app_with(1);
    app.add_habit(String::new());
    assert_eq!(app.data.habits.len(), 1);
    app.add_habit("Yoga".to_string());
    assert_eq!(app.selected_index, 1);
    app.rename_selected("Pilates".to_string());
    assert_eq!(app.data.habits[1].name, "Pilates");
    app.cancel_input();
    assert!(matches!(app.input_mode, InputMode::Normal));
}
