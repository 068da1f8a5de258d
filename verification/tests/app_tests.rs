use procmon::app::{handle_key_event, App, AppMode, Key, KeyAction};
use procmon::process::{ProcessItem, SortBy};
use procmon::theme::AppTheme;

fn item(pid: u64, name: &str, cpu_centi: u64, memory_bytes: u64) -> ProcessItem {
    ProcessItem {
        pid,
        name: name.to_owned(),
        cpu_centi,
        memory_bytes,
    }
}

fn sample() -> Vec<ProcessItem> {
    vec![
        item(1, "bash", 50, 1_000_000),
        item(2, "chrome", 4000, 200_000_000),
        item(3, "Chrome Helper", 500, 50_000_000),
    ]
}

fn type_command(app: &mut App, text: &str) {
    for c in text.chars() {
        let a = handle_key_event(app, Key::Char(c));
        assert_eq!(a, KeyAction::Nothing);
    }
}

#[test]
fn new_app_has_the_documented_defaults() {
    let app = App::new();
    assert!(app.processes.is_empty());
    assert_eq!(app.selected, None);
    assert_eq!(app.theme, AppTheme::Nord);
    assert_eq!(app.mode, AppMode::Normal);
    assert_eq!(app.command_buffer, "");
    assert_eq!(app.sort_by, SortBy::Cpu);
    assert_eq!(app.filter_query, "");
}

#[test]
fn refresh_fills_selects_and_sorts() {
    let mut app = App::new();
    app.refresh(sample());
    assert_eq!(app.processes.len(), 3);
    assert_eq!(app.selected, Some(0));
    assert_eq!(app.processes[0].cpu_centi, 4000);
}

#[test]
fn selection_wraps_after_one_pass() {
    let mut app = App::new();
    app.refresh(sample());
    assert_eq!(app.selected, Some(0));
    app.next();
    assert_eq!(app.selected, Some(1));
    app.next();
    assert_eq!(app.selected, Some(2));
    app.next();
    assert_eq!(app.selected, Some(0));
}

#[test]
fn retreat_from_top_wraps_to_bottom() {
    let mut app = App::new();
    app.refresh(sample());
    app.previous();
    assert_eq!(app.selected, Some(2));
    app.previous();
    assert_eq!(app.selected, Some(1));
}

#[test]
fn selection_on_empty_list_stays_unset() {
    let mut app = App::new();
    app.next();
    assert_eq!(app.selected, None);
    app.previous();
    assert_eq!(app.selected, None);
}

#[test]
fn refresh_clamps_a_cursor_past_the_end() {
    let mut app = App::new();
    app.refresh(sample());
    app.selected = Some(2);
    app.filter_query = "chrome".to_owned();
    app.refresh(sample());
    assert_eq!(app.processes.len(), 2);
    assert_eq!(app.selected, Some(1));
}

#[test]
fn refresh_unsets_the_cursor_when_nothing_is_left() {
    let mut app = App::new();
    app.refresh(sample());
    app.filter_query = "firefox".to_owned();
    app.refresh(sample());
    assert_eq!(app.processes.len(), 0);
    assert_eq!(app.selected, None);
}

#[test]
fn quit_key_quits_only_in_normal_mode() {
    let mut app = App::new();
    assert_eq!(handle_key_event(&mut app, Key::Char('q')), KeyAction::Quit);
    handle_key_event(&mut app, Key::Char(':'));
    assert_eq!(handle_key_event(&mut app, Key::Char('q')), KeyAction::Nothing);
    assert_eq!(app.command_buffer, "q");
}

#[test]
fn colon_enters_command_mode_with_a_clear_buffer() {
    let mut app = App::new();
    app.command_buffer = "old".to_owned();
    handle_key_event(&mut app, Key::Char(':'));
    assert_eq!(app.mode, AppMode::Command);
    assert_eq!(app.command_buffer, "");
}

#[test]
fn theme_command_applies_a_known_theme() {
    let mut app = App::new();
    handle_key_event(&mut app, Key::Char(':'));
    type_command(&mut app, "theme gruvbox");
    handle_key_event(&mut app, Key::Enter);
    assert_eq!(app.mode, AppMode::Normal);
    assert_eq!(app.theme, AppTheme::Gruvbox);
}

#[test]
fn theme_command_is_case_insensitive_on_the_name() {
    let mut app = App::new();
    handle_key_event(&mut app, Key::Char(':'));
    type_command(&mut app, "theme GITHUB");
    handle_key_event(&mut app, Key::Enter);
    assert_eq!(app.theme, AppTheme::GitHub);
}

#[test]
fn unknown_command_leaves_state_and_returns_to_normal() {
    let mut app = App::new();
    handle_key_event(&mut app, Key::Char(':'));
    type_command(&mut app, "quit now");
    handle_key_event(&mut app, Key::Enter);
    assert_eq!(app.mode, AppMode::Normal);
    assert_eq!(app.theme, AppTheme::Nord);
}

#[test]
fn unknown_theme_name_leaves_the_theme() {
    let mut app = App::new();
    handle_key_event(&mut app, Key::Char(':'));
    type_command(&mut app, "theme dracula");
    handle_key_event(&mut app, Key::Enter);
    assert_eq!(app.mode, AppMode::Normal);
    assert_eq!(app.theme, AppTheme::Nord);
}

#[test]
fn backspace_edits_the_command_buffer() {
    let mut app = App::new();
    handle_key_event(&mut app, Key::Char(':'));
    type_command(&mut app, "ab");
    handle_key_event(&mut app, Key::Backspace);
    assert_eq!(app.command_buffer, "a");
    handle_key_event(&mut app, Key::Backspace);
    handle_key_event(&mut app, Key::Backspace);
    assert_eq!(app.command_buffer, "");
    assert_eq!(app.mode, AppMode::Command);
}

#[test]
fn esc_leaves_command_mode() {
    let mut app = App::new();
    handle_key_event(&mut app, Key::Char(':'));
    type_command(&mut app, "theme");
    handle_key_event(&mut app, Key::Esc);
    assert_eq!(app.mode, AppMode::Normal);
}

#[test]
fn tab_completes_the_first_theme_without_a_second_token() {
    let mut app = App::new();
    handle_key_event(&mut app, Key::Char(':'));
    type_command(&mut app, "theme");
    handle_key_event(&mut app, Key::Tab);
    assert_eq!(app.command_buffer, "theme Nord");
}

#[test]
fn tab_advances_to_the_following_theme() {
    let mut app = App::new();
    handle_key_event(&mut app, Key::Char(':'));
    type_command(&mut app, "theme nord");
    handle_key_event(&mut app, Key::Tab);
    assert_eq!(app.command_buffer, "theme Gruvbox");
    handle_key_event(&mut app, Key::Tab);
    assert_eq!(app.command_buffer, "theme SolarizedDark");
}

#[test]
fn tab_wraps_from_the_last_theme() {
    let mut app = App::new();
    handle_key_event(&mut app, Key::Char(':'));
    type_command(&mut app, "theme MononokaiPro");
    handle_key_event(&mut app, Key::Tab);
    assert_eq!(app.command_buffer, "theme Nord");
}

#[test]
fn tab_falls_back_to_the_first_theme_on_an_unknown_name() {
    let mut app = App::new();
    handle_key_event(&mut app, Key::Char(':'));
    type_command(&mut app, "theme xyz");
    handle_key_event(&mut app, Key::Tab);
    assert_eq!(app.command_buffer, "theme Nord");
}

#[test]
fn tab_without_theme_token_does_nothing() {
    let mut app = App::new();
    handle_key_event(&mut app, Key::Char(':'));
    type_command(&mut app, "other");
    handle_key_event(&mut app, Key::Tab);
    assert_eq!(app.command_buffer, "other");
}

#[test]
fn slash_enters_filtering_and_chars_feed_the_query() {
    let mut app = App::new();
    app.filter_query = "old".to_owned();
    handle_key_event(&mut app, Key::Char('/'));
    assert_eq!(app.mode, AppMode::Filtering);
    assert_eq!(app.filter_query, "");
    type_command(&mut app, "chr");
    assert_eq!(app.filter_query, "chr");
    handle_key_event(&mut app, Key::Backspace);
    assert_eq!(app.filter_query, "ch");
    handle_key_event(&mut app, Key::Enter);
    assert_eq!(app.mode, AppMode::Normal);
    assert_eq!(app.filter_query, "ch");
}

#[test]
fn theme_key_cycles_and_sort_key_cycles() {
    let mut app = App::new();
    handle_key_event(&mut app, Key::Char('t'));
    assert_eq!(app.theme, AppTheme::Gruvbox);
    handle_key_event(&mut app, Key::Char('c'));
    assert_eq!(app.sort_by, SortBy::Memory);
}

#[test]
fn kill_reports_the_selected_pid_and_changes_nothing() {
    let mut app = App::new();
    app.refresh(sample());
    let pid_under_cursor = app.processes[0].pid;
    let action = handle_key_event(&mut app, Key::Char('k'));
    assert_eq!(action, KeyAction::Kill(pid_under_cursor));
    assert_eq!(app.processes.len(), 3);
    assert_eq!(app.selected, Some(0));
    assert_eq!(app.mode, AppMode::Normal);
}

#[test]
fn kill_without_selection_is_a_no_op() {
    let mut app = App::new();
    let action = handle_key_event(&mut app, Key::Char('k'));
    assert_eq!(action, KeyAction::Nothing);
    assert_eq!(app.selected, None);
}

#[test]
fn kill_on_stale_pid_leaves_the_next_refresh_unchanged() {
    let mut app = App::new();
    app.refresh(sample());
    app.next();
    assert_eq!(app.selected, Some(1));
    let before: Vec<u64> = app.processes.iter().map(|p| p.pid).collect();
    let action = handle_key_event(&mut app, Key::Char('k'));
    assert!(matches!(action, KeyAction::Kill(_)));
    app.refresh(sample());
    let after: Vec<u64> = app.processes.iter().map(|p| p.pid).collect();
    assert_eq!(before, after);
    assert_eq!(app.selected, Some(1));
}

#[test]
fn kill_selected_process_returns_the_cursor_entry() {
    let mut app = App::new();
    app.refresh(sample());
    app.next();
    let pid = app.kill_selected_process();
    assert_eq!(pid, Some(app.processes[1].pid));
}
