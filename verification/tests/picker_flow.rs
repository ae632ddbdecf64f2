use capla_extractor::grammar::parse_b_file;
use capla_extractor::picker::{status_tone, Action, App, EntryTag, FileLoad, Key, Screen, StatusTone};

fn press(app: &mut App, key: Key) -> Action {
    app.handle_key(key, false)
}

fn type_text(app: &mut App, s: &str) {
    for c in s.chars() {
        press(app, Key::Char(c));
    }
}

/// An app on the function screen, with two functions from file 0 loaded.
fn loaded_app() -> App {
    let mut app = App::new(2);
    press(&mut app, Key::Char(' '));
    let action = press(&mut app, Key::Enter);
    match action {
        Action::LoadFunctions(files) => assert_eq!(files, vec![0]),
        other => panic!("unexpected action {:?}", other),
    }
    assert_eq!(app.screen(), Screen::Prefix);
    let sigs = parse_b_file("fun a(x: u64) -> u64\nfun b(y: f64) -> f64");
    app.load_functions(vec![FileLoad::Read { file: 0, signatures: sigs }]);
    app
}

#[test]
fn new_app_starts_on_file_screen() {
    let app = App::new(3);
    assert_eq!(app.screen(), Screen::FilePicker);
    assert_eq!(app.file_cursor(), Some(0));
    assert_eq!(app.output_stem(), "output");
    assert_eq!(app.status(), "");
    assert!(!app.is_done());
    let empty = App::new(0);
    assert_eq!(empty.file_cursor(), None);
}

#[test]
fn file_cursor_moves_within_bounds() {
    let mut app = App::new(3);
    press(&mut app, Key::Up);
    assert_eq!(app.file_cursor(), Some(0));
    press(&mut app, Key::Down);
    press(&mut app, Key::Char('j'));
    press(&mut app, Key::Down);
    assert_eq!(app.file_cursor(), Some(2));
    press(&mut app, Key::Char('k'));
    assert_eq!(app.file_cursor(), Some(1));
}

#[test]
fn enter_without_files_asks_for_one() {
    let mut app = App::new(2);
    let action = press(&mut app, Key::Enter);
    assert!(matches!(action, Action::Nothing));
    assert_eq!(app.status(), "Select at least one file (Space to toggle).");
    assert_eq!(app.screen(), Screen::FilePicker);
}

#[test]
fn toggle_and_select_all_files() {
    let mut app = App::new(3);
    press(&mut app, Key::Char(' '));
    assert!(app.is_file_selected(0));
    press(&mut app, Key::Char(' '));
    assert!(!app.is_file_selected(0));
    press(&mut app, Key::Char('a'));
    assert!(app.is_file_selected(0) && app.is_file_selected(1) && app.is_file_selected(2));
    press(&mut app, Key::Char('a'));
    assert!(!app.is_file_selected(0) && !app.is_file_selected(1) && !app.is_file_selected(2));
}

#[test]
fn loading_sets_entries_and_cursor() {
    let app = loaded_app();
    assert_eq!(app.entries().len(), 2);
    assert_eq!(app.entries()[0].export_name, "a");
    assert!(!app.entries()[0].renamed && !app.entries()[0].selected);
    assert_eq!(app.fn_cursor(), Some(0));
    assert_eq!(app.needs_rename_count(), 2);
}

#[test]
fn loading_nothing_reports_it() {
    let mut app = App::new(1);
    press(&mut app, Key::Char(' '));
    press(&mut app, Key::Enter);
    app.load_functions(vec![FileLoad::Failed { message: "Error reading \"x.b\": gone".to_string() }]);
    assert_eq!(app.status(), "No function signatures found in selected files.");
    assert_eq!(app.fn_cursor(), None);
}

#[test]
fn failed_load_message_is_kept_when_functions_exist() {
    let mut app = App::new(2);
    press(&mut app, Key::Char('a'));
    press(&mut app, Key::Enter);
    let sigs = parse_b_file("fun a(x: u64) -> u64");
    app.load_functions(vec![
        FileLoad::Read { file: 0, signatures: sigs },
        FileLoad::Failed { message: "Error reading \"b.b\": denied".to_string() },
    ]);
    assert_eq!(app.status(), "Error reading \"b.b\": denied");
    assert_eq!(app.entries().len(), 1);
}

#[test]
fn prefix_is_applied_to_all() {
    let mut app = loaded_app();
    type_text(&mut app, "  p_ ");
    assert_eq!(app.preview_name(0), "p_a");
    press(&mut app, Key::Enter);
    assert_eq!(app.screen(), Screen::FunctionPicker);
    assert_eq!(app.status(), "Prefix '  p_ ' applied. You may still rename individual functions.");
    assert_eq!(app.entries()[0].export_name, "p_a");
    assert_eq!(app.entries()[1].export_name, "p_b");
    assert!(app.entries()[1].renamed);
    assert_eq!(app.needs_rename_count(), 0);
}

#[test]
fn empty_prefix_requires_renaming() {
    let mut app = loaded_app();
    press(&mut app, Key::Enter);
    assert_eq!(
        app.status(),
        "No prefix set \u{2014} you must rename every function before proceeding."
    );
    press(&mut app, Key::Char(' '));
    assert_eq!(app.status(), "'a' must be renamed before it can be selected (press r).");
    assert!(!app.entries()[0].selected);
    press(&mut app, Key::Char('a'));
    assert_eq!(app.status(), "Cannot select all \u{2014} 2 function(s) still need renaming.");
    press(&mut app, Key::Enter);
    assert_eq!(app.status(), "Select at least one function (Space to toggle).");
}

#[test]
fn rename_flow() {
    let mut app = loaded_app();
    press(&mut app, Key::Enter);
    press(&mut app, Key::Char('r'));
    assert_eq!(app.screen(), Screen::Rename);
    assert_eq!(app.rename_buf(), "a");
    press(&mut app, Key::Enter);
    assert_eq!(app.status(), "Name needs to be different.");
    press(&mut app, Key::Backspace);
    press(&mut app, Key::Enter);
    assert_eq!(app.status(), "Name cannot be empty.");
    type_text(&mut app, " first ");
    press(&mut app, Key::Enter);
    assert_eq!(app.screen(), Screen::FunctionPicker);
    assert_eq!(app.entries()[0].export_name, "first");
    assert!(app.entries()[0].renamed);
    assert_eq!(app.rename_idx(), None);
    assert_eq!(app.status(), "");
}

#[test]
fn full_flow_to_generation() {
    let mut app = loaded_app();
    type_text(&mut app, "c_");
    press(&mut app, Key::Enter);
    press(&mut app, Key::Char('a'));
    assert!(app.entries()[0].selected && app.entries()[1].selected);
    press(&mut app, Key::Enter);
    assert_eq!(app.screen(), Screen::OutputName);
    for _ in 0..6 {
        press(&mut app, Key::Backspace);
    }
    press(&mut app, Key::Enter);
    assert_eq!(app.status(), "Output name cannot be empty.");
    type_text(&mut app, " lib ");
    press(&mut app, Key::Enter);
    assert_eq!(app.screen(), Screen::Confirm);
    assert_eq!(app.output_stem(), "lib");
    let sel = app.selected_functions();
    assert_eq!(sel.len(), 2);
    assert_eq!(sel[0].export_name, "c_a");
    assert_eq!(sel[1].export_name, "c_b");
    let action = press(&mut app, Key::Enter);
    assert!(matches!(action, Action::Generate));
    assert!(app.is_done());
    app.set_status("Generated".to_string());
    assert_eq!(app.status(), "Generated");
}

#[test]
fn unrenamed_selected_blocks_output() {
    let mut app = loaded_app();
    type_text(&mut app, "x");
    press(&mut app, Key::Enter);
    press(&mut app, Key::Char(' '));
    assert!(app.entries()[0].selected);
    press(&mut app, Key::Char('p'));
    assert_eq!(app.screen(), Screen::Prefix);
    assert_eq!(app.prefix_buf(), "x");
    press(&mut app, Key::Backspace);
    press(&mut app, Key::Enter);
    // An empty prefix takes the new names back, the selection stays.
    assert!(!app.entries()[0].renamed && app.entries()[0].selected);
    press(&mut app, Key::Enter);
    assert_eq!(app.status(), "1 selected function(s) still need renaming.");
    assert_eq!(app.screen(), Screen::FunctionPicker);
}

#[test]
fn control_q_quits_everywhere() {
    let mut app = loaded_app();
    let action = app.handle_key(Key::Char('q'), true);
    assert!(matches!(action, Action::Nothing));
    assert!(app.is_done());
    let mut other = App::new(1);
    other.handle_key(Key::Char('q'), false);
    assert!(!other.is_done());
}

#[test]
fn backspace_undoes_typing_on_prefix_screen() {
    let mut app = loaded_app();
    type_text(&mut app, "ab");
    press(&mut app, Key::Char('z'));
    press(&mut app, Key::Backspace);
    assert_eq!(app.prefix_buf(), "ab");
}

#[test]
fn escape_goes_back() {
    let mut app = loaded_app();
    press(&mut app, Key::Esc);
    assert_eq!(app.screen(), Screen::FilePicker);
}

#[test]
fn cursor_sync_after_drawing() {
    let mut app = loaded_app();
    press(&mut app, Key::Enter);
    app.sync_fn_cursor(None);
    assert_eq!(app.fn_cursor(), None);
    press(&mut app, Key::Down);
    assert_eq!(app.fn_cursor(), Some(0));
    app.sync_file_cursor(Some(1));
    assert_eq!(app.file_cursor(), Some(1));
}

#[test]
fn status_tones() {
    assert_eq!(status_tone("Error reading x"), StatusTone::Error);
    assert_eq!(status_tone("Name cannot be empty."), StatusTone::Error);
    assert_eq!(status_tone("Generated \"a.h\""), StatusTone::Plain);
    assert_eq!(status_tone("you must rename"), StatusTone::Error);
    assert_eq!(status_tone("2 function(s) still need renaming."), StatusTone::Error);
    assert_eq!(status_tone("Prefix 'x' applied."), StatusTone::Applied);
    assert_eq!(status_tone(""), StatusTone::Plain);
}

#[test]
fn keys_that_would_index_past_the_list_are_refused() {
    let mut app = App::new(1);
    press(&mut app, Key::Char(' '));
    assert!(app.accepts_key(Key::Enter, false));
    press(&mut app, Key::Enter);
    app.load_functions(vec![]);
    press(&mut app, Key::Enter);
    assert_eq!(app.screen(), Screen::FunctionPicker);
    press(&mut app, Key::Up);
    assert_eq!(app.fn_cursor(), Some(0));
    assert!(!app.accepts_key(Key::Char(' '), false));
    assert!(!app.accepts_key(Key::Char('r'), false));
    assert!(app.accepts_key(Key::Down, false));
    assert!(app.accepts_key(Key::Char('q'), true));
    app.sync_fn_cursor(None);
    assert!(app.accepts_key(Key::Char(' '), false));
}

#[test]
fn space_twice_restores_the_file_selection() {
    let mut app = App::new(3);
    press(&mut app, Key::Down);
    press(&mut app, Key::Char(' '));
    press(&mut app, Key::Down);
    press(&mut app, Key::Char(' '));
    assert!(app.is_file_selected(1) && app.is_file_selected(2) && !app.is_file_selected(0));
    press(&mut app, Key::Char(' '));
    press(&mut app, Key::Char(' '));
    assert!(app.is_file_selected(1) && app.is_file_selected(2) && !app.is_file_selected(0));
    assert_eq!(app.file_cursor(), Some(2));
}

#[test]
fn all_chosen_files_are_loaded_once_each() {
    let mut app = App::new(3);
    press(&mut app, Key::Char('a'));
    match press(&mut app, Key::Enter) {
        Action::LoadFunctions(mut files) => {
            files.sort();
            assert_eq!(files, vec![0, 1, 2]);
        }
        other => panic!("unexpected action {:?}", other),
    }
}

#[test]
fn prefix_applied_twice_is_applied_once() {
    let mut app = loaded_app();
    type_text(&mut app, "p_");
    press(&mut app, Key::Enter);
    let first: Vec<String> = app.entries().iter().map(|e| e.export_name.clone()).collect();
    let status = app.status().to_string();
    press(&mut app, Key::Char('p'));
    assert_eq!(app.screen(), Screen::Prefix);
    press(&mut app, Key::Enter);
    let second: Vec<String> = app.entries().iter().map(|e| e.export_name.clone()).collect();
    assert_eq!(first, vec!["p_a".to_string(), "p_b".to_string()]);
    assert_eq!(first, second);
    assert_eq!(app.status(), status);
    assert_eq!(app.screen(), Screen::FunctionPicker);
}

#[test]
fn entry_tags_and_title() {
    let mut app = loaded_app();
    press(&mut app, Key::Enter);
    assert_eq!(app.entries()[0].tag(), EntryTag::NeedsRename);
    assert_eq!(
        app.fn_picker_title(),
        " ƒ  Select functions — ⚠ 2 need renaming  [Space=toggle  r=rename  p=prefix  a=all  Enter=next  Esc=back] "
    );
    press(&mut app, Key::Char('r'));
    type_text(&mut app, "x_a");
    press(&mut app, Key::Enter);
    assert_eq!(app.entries()[0].tag(), EntryTag::Alias);
    assert_eq!(
        app.fn_picker_title(),
        " ƒ  Select functions — ⚠ 1 need renaming  [Space=toggle  r=rename  p=prefix  a=all  Enter=next  Esc=back] "
    );
    press(&mut app, Key::Char('p'));
    type_text(&mut app, "q_");
    press(&mut app, Key::Enter);
    assert_eq!(
        app.fn_picker_title(),
        " ƒ  Select functions  [Space=toggle  r=rename  p=prefix  a=all  Enter=next  Esc=back] "
    );
    assert_eq!(app.entries()[1].tag(), EntryTag::Alias);
}

#[test]
fn unicode_white_space_is_trimmed_from_the_prefix() {
    let mut app = loaded_app();
    type_text(&mut app, "\u{a0}p_\u{3000}");
    assert_eq!(app.preview_name(0), "p_a");
    press(&mut app, Key::Enter);
    assert_eq!(app.entries()[1].export_name, "p_b");
}
