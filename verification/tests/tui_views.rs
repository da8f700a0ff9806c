use std::collections::VecDeque;

use aether::effects::{rain_char, simple_hash};
use aether::model::{AgentAction, DiagSeverity, ProcessState, process_state_to_u32};
use aether::tui::app::{AppState, Tab};
use aether::tui::arbiter::{
    format_action, format_duration, ArbiterKeyResult, ArbiterQueue, ArbiterTab, HISTORY_CAPACITY,
};
use aether::tui::diagnostics::{
    severity_counts, severity_icon, target_display, target_short_name, truncate, DiagTarget, DiagnosticAction,
    DiagnosticsTab,
};
use aether::tui::help::{centered_rect, help_lines, help_row, HelpLine, HelpOverlay, Rect};
use aether::tui::input::{Direction, InputAction, InputHandler, InputMode};
use aether::tui::keys::{KeyCode, KeyEvent};
use aether::tui::network::{
    compute_counts, connection_cells, format_bytes_per_sec, protocol_color, protocol_shares, summary_lines,
    connection_matches, filter_connections, str_contains, table_header, table_offset, table_title, ConnectionInfo, NetworkTab, Protocol, THROUGHPUT_HISTORY_CAP,
};
use aether::palette::{Color, Palette};
use aether::tui::overview::{format_mem, format_state, OverviewTab, SortColumn};
use aether::tui::rules::{RulesDisplayState, RulesKeyResult, RulesTab};
use aether::tui::sparklines::{push_capped, SystemSparklines, HISTORY_CAP};

fn key(code: KeyCode) -> KeyEvent {
    KeyEvent::new(code, false)
}

fn ctrl(c: char) -> KeyEvent {
    KeyEvent::new(KeyCode::Char(c), true)
}

#[test]
fn test_rain_char_deterministic() {
    let a = rain_char(42);
    let b = rain_char(42);
    assert_eq!(a, b, "same hash should produce same character");
}

#[test]
fn rain_char_picks_by_remainder() {
    assert_eq!(rain_char(0), '0');
    assert_eq!(rain_char(10), 'A');
    assert_eq!(rain_char(38), '\\');
    assert_eq!(rain_char(39), '~');
    assert_eq!(rain_char(40), '0');
    assert_eq!(simple_hash(0, 0), 0);
    assert_eq!(simple_hash(1, 0), simple_hash(1, 0));
    assert_ne!(simple_hash(1, 0), simple_hash(0, 1));
}

#[test]
fn test_tab_default_is_overview() {
    assert_eq!(Tab::default(), Tab::Overview);
}

#[test]
fn test_tab_labels_not_empty() {
    for tab in &Tab::ALL {
        assert!(!tab.label().is_empty());
    }
}

#[test]
fn tab_labels_name_function_keys() {
    assert_eq!(Tab::World3D.label(), "World 3D [F2]");
    assert_eq!(Tab::Rules.label(), "Rules [F5]");
}

#[test]
fn test_app_new_defaults() {
    let app = AppState::new();
    assert_eq!(app.current_tab(), Tab::Overview);
    assert!(!app.should_quit());
}

#[test]
fn test_handle_key_quit_q() {
    let mut app = AppState::new();
    app.handle_key(key(KeyCode::Char('q')), 0, &[]);
    assert!(app.should_quit());
}

#[test]
fn test_handle_key_quit_ctrl_c() {
    let mut app = AppState::new();
    app.handle_key(ctrl('c'), 0, &[]);
    assert!(app.should_quit());
}

#[test]
fn test_handle_key_tab_switching() {
    let mut app = AppState::new();
    app.handle_key(key(KeyCode::F(2)), 0, &[]);
    assert_eq!(app.current_tab(), Tab::World3D);
    app.handle_key(key(KeyCode::F(3)), 0, &[]);
    assert_eq!(app.current_tab(), Tab::Network);
    app.handle_key(key(KeyCode::F(4)), 0, &[]);
    assert_eq!(app.current_tab(), Tab::Arbiter);
    app.handle_key(key(KeyCode::F(1)), 0, &[]);
    assert_eq!(app.current_tab(), Tab::Overview);
}

#[test]
fn test_handle_key_unknown_ignored() {
    let mut app = AppState::new();
    app.handle_key(key(KeyCode::Char('x')), 0, &[]);
    assert_eq!(app.current_tab(), Tab::Overview);
    assert!(!app.should_quit());
}

#[test]
fn app_sort_mode_then_navigation() {
    let mut app = AppState::new();
    app.handle_key(key(KeyCode::Char('s')), 3, &[10, 20, 30]);
    assert!(app.sort_pending());
    app.handle_key(key(KeyCode::Char('m')), 3, &[10, 20, 30]);
    assert!(!app.sort_pending());
    assert_eq!(app.overview().sort_column(), SortColumn::Mem);
    app.handle_key(key(KeyCode::Char('j')), 3, &[10, 20, 30]);
    app.handle_key(key(KeyCode::Enter), 3, &[10, 20, 30]);
    assert_eq!(app.overview().detail_pid(), Some(10));
}

#[test]
fn test_default_not_visible() {
    let overlay = HelpOverlay::default();
    assert!(!overlay.is_visible());
}

#[test]
fn test_toggle_changes_visibility() {
    let mut overlay = HelpOverlay::default();
    overlay.toggle();
    assert!(overlay.is_visible());
    overlay.toggle();
    assert!(!overlay.is_visible());
}

#[test]
fn test_dismiss_hides_overlay() {
    let mut overlay = HelpOverlay::default();
    overlay.toggle();
    assert!(overlay.is_visible());
    overlay.dismiss();
    assert!(!overlay.is_visible());
}

#[test]
fn test_centered_rect_dimensions() {
    let outer = Rect::new(0, 0, 100, 50);
    let inner = centered_rect(outer, 60, 70);
    assert_eq!(inner.width, 60);
    assert_eq!(inner.height, 35);
    assert_eq!(inner.x, 20);
    assert_eq!(inner.y, 7);
}

#[test]
fn test_centered_rect_zero_area() {
    let outer = Rect::new(0, 0, 0, 0);
    let inner = centered_rect(outer, 60, 70);
    assert_eq!(inner.width, 0);
    assert_eq!(inner.height, 0);
}

#[test]
fn centered_rect_saturates_and_clamps() {
    let outer = Rect::new(10, 0, 40000, 10);
    let inner = centered_rect(outer, 2, 100);
    assert_eq!(inner.width, 655);
    assert_eq!(inner.x, 10 + (40000 - 655) / 2);
    assert_eq!(inner.height, 10);
    let r = Rect::new(65530, 0, 20, 1);
    assert_eq!(r.width, 5);
}

#[test]
fn test_default_mode_is_normal() {
    let handler = InputHandler::default();
    assert_eq!(handler.mode(), InputMode::Normal);
    assert!(handler.buffer().is_empty());
}

#[test]
fn test_normal_quit_q() {
    let mut handler = InputHandler::default();
    assert_eq!(handler.handle_key(key(KeyCode::Char('q'))), InputAction::Quit);
}

#[test]
fn test_normal_quit_ctrl_c() {
    let mut handler = InputHandler::default();
    assert_eq!(handler.handle_key(ctrl('c')), InputAction::Quit);
}

#[test]
fn test_normal_hjkl_navigation() {
    let mut handler = InputHandler::default();
    assert_eq!(handler.handle_key(key(KeyCode::Char('h'))), InputAction::Navigate(Direction::Left));
    assert_eq!(handler.handle_key(key(KeyCode::Char('j'))), InputAction::Navigate(Direction::Down));
    assert_eq!(handler.handle_key(key(KeyCode::Char('k'))), InputAction::Navigate(Direction::Up));
    assert_eq!(handler.handle_key(key(KeyCode::Char('l'))), InputAction::Navigate(Direction::Right));
}

#[test]
fn test_normal_arrow_keys() {
    let mut handler = InputHandler::default();
    assert_eq!(handler.handle_key(key(KeyCode::Down)), InputAction::Navigate(Direction::Down));
    assert_eq!(handler.handle_key(key(KeyCode::Up)), InputAction::Navigate(Direction::Up));
}

#[test]
fn test_normal_tab_switching() {
    let mut handler = InputHandler::default();
    assert_eq!(handler.handle_key(key(KeyCode::F(1))), InputAction::SwitchTab(Tab::Overview));
    assert_eq!(handler.handle_key(key(KeyCode::F(2))), InputAction::SwitchTab(Tab::World3D));
    assert_eq!(handler.handle_key(key(KeyCode::F(3))), InputAction::SwitchTab(Tab::Network));
    assert_eq!(handler.handle_key(key(KeyCode::F(4))), InputAction::SwitchTab(Tab::Arbiter));
    assert_eq!(handler.handle_key(key(KeyCode::F(5))), InputAction::SwitchTab(Tab::Rules));
}

#[test]
fn test_normal_enter_select() {
    let mut handler = InputHandler::default();
    assert_eq!(handler.handle_key(key(KeyCode::Enter)), InputAction::Select);
}

#[test]
fn test_normal_esc_deselect() {
    let mut handler = InputHandler::default();
    assert_eq!(handler.handle_key(key(KeyCode::Esc)), InputAction::Deselect);
}

#[test]
fn test_colon_enters_command_mode() {
    let mut handler = InputHandler::default();
    assert_eq!(handler.handle_key(key(KeyCode::Char(':'))), InputAction::NoAction);
    assert_eq!(handler.mode(), InputMode::Command);
    assert!(handler.buffer().is_empty());
}

#[test]
fn test_slash_enters_search_mode() {
    let mut handler = InputHandler::default();
    assert_eq!(handler.handle_key(key(KeyCode::Char('/'))), InputAction::NoAction);
    assert_eq!(handler.mode(), InputMode::Search);
    assert!(handler.buffer().is_empty());
}

#[test]
fn test_command_mode_typing_and_execute() {
    let mut handler = InputHandler::default();
    handler.handle_key(key(KeyCode::Char(':')));
    handler.handle_key(key(KeyCode::Char('q')));
    assert_eq!(handler.buffer(), "q");
    let action = handler.handle_key(key(KeyCode::Enter));
    assert_eq!(action, InputAction::ExecuteCommand("q".to_string()));
    assert_eq!(handler.mode(), InputMode::Normal);
    assert!(handler.buffer().is_empty());
}

#[test]
fn test_command_mode_esc_cancels() {
    let mut handler = InputHandler::default();
    handler.handle_key(key(KeyCode::Char(':')));
    handler.handle_key(key(KeyCode::Char('k')));
    let action = handler.handle_key(key(KeyCode::Esc));
    assert_eq!(action, InputAction::CancelInput);
    assert_eq!(handler.mode(), InputMode::Normal);
    assert!(handler.buffer().is_empty());
}

#[test]
fn test_command_mode_backspace_deletes() {
    let mut handler = InputHandler::default();
    handler.handle_key(key(KeyCode::Char(':')));
    handler.handle_key(key(KeyCode::Char('a')));
    handler.handle_key(key(KeyCode::Char('b')));
    assert_eq!(handler.buffer(), "ab");
    handler.handle_key(key(KeyCode::Backspace));
    assert_eq!(handler.buffer(), "a");
    assert_eq!(handler.mode(), InputMode::Command);
}

#[test]
fn test_command_mode_backspace_empty_cancels() {
    let mut handler = InputHandler::default();
    handler.handle_key(key(KeyCode::Char(':')));
    handler.handle_key(key(KeyCode::Char('x')));
    handler.handle_key(key(KeyCode::Backspace));
    assert_eq!(handler.mode(), InputMode::Normal);
}

#[test]
fn test_search_mode_enter_submits() {
    let mut handler = InputHandler::default();
    handler.handle_key(key(KeyCode::Char('/')));
    handler.handle_key(key(KeyCode::Char('f')));
    handler.handle_key(key(KeyCode::Char('o')));
    handler.handle_key(key(KeyCode::Char('o')));
    let action = handler.handle_key(key(KeyCode::Enter));
    assert_eq!(action, InputAction::Search("foo".to_string()));
    assert_eq!(handler.mode(), InputMode::Normal);
}

#[test]
fn test_search_enables_n_and_shift_n() {
    let mut handler = InputHandler::default();
    assert_eq!(handler.handle_key(key(KeyCode::Char('n'))), InputAction::NoAction);
    handler.handle_key(key(KeyCode::Char('/')));
    handler.handle_key(key(KeyCode::Char('x')));
    handler.handle_key(key(KeyCode::Enter));
    assert_eq!(handler.handle_key(key(KeyCode::Char('n'))), InputAction::NextMatch);
    assert_eq!(handler.handle_key(key(KeyCode::Char('N'))), InputAction::PrevMatch);
}

#[test]
fn test_empty_search_does_not_enable_n() {
    let mut handler = InputHandler::default();
    handler.handle_key(key(KeyCode::Char('/')));
    handler.handle_key(key(KeyCode::Enter));
    assert_eq!(handler.handle_key(key(KeyCode::Char('n'))), InputAction::NoAction);
}

#[test]
fn test_status_text_normal() {
    let handler = InputHandler::default();
    assert_eq!(handler.status_text(), "[NORMAL]");
}

#[test]
fn test_status_text_command() {
    let mut handler = InputHandler::default();
    handler.handle_key(key(KeyCode::Char(':')));
    handler.handle_key(key(KeyCode::Char('k')));
    handler.handle_key(key(KeyCode::Char('i')));
    handler.handle_key(key(KeyCode::Char('l')));
    handler.handle_key(key(KeyCode::Char('l')));
    assert_eq!(handler.status_text(), "[COMMAND] :kill");
}

#[test]
fn test_status_text_search() {
    let mut handler = InputHandler::default();
    handler.handle_key(key(KeyCode::Char('/')));
    handler.handle_key(key(KeyCode::Char('f')));
    assert_eq!(handler.status_text(), "[SEARCH] /f");
}

#[test]
fn test_question_mark_toggles_help() {
    let mut handler = InputHandler::default();
    assert_eq!(handler.handle_key(key(KeyCode::Char('?'))), InputAction::ToggleHelp);
}

#[test]
fn test_sort_action() {
    let mut handler = InputHandler::default();
    assert_eq!(handler.handle_key(key(KeyCode::Char('s'))), InputAction::EnterSort);
}

#[test]
fn test_unknown_key_returns_none() {
    let mut handler = InputHandler::default();
    assert_eq!(handler.handle_key(key(KeyCode::Char('z'))), InputAction::NoAction);
}

#[test]
fn input_backspace_on_empty_command_cancels_and_unicode_pops_whole_char() {
    let mut handler = InputHandler::default();
    handler.handle_key(key(KeyCode::Char(':')));
    assert_eq!(handler.handle_key(key(KeyCode::Backspace)), InputAction::CancelInput);
    handler.handle_key(key(KeyCode::Char('/')));
    handler.handle_key(key(KeyCode::Char('a')));
    handler.handle_key(key(KeyCode::Char('é')));
    handler.handle_key(key(KeyCode::Backspace));
    assert_eq!(handler.buffer(), "a");
}

#[test]
fn test_default_state() {
    let tab = NetworkTab::default();
    assert_eq!(tab.selected_row(), None);
    assert!(tab.filter_text().is_empty());
    assert_eq!(tab.scroll_offset(), 0);
}

#[test]
fn test_format_bytes_per_sec() {
    assert_eq!(format_bytes_per_sec(500), "500 B/s");
    assert_eq!(format_bytes_per_sec(2048), "2.0 KB/s");
    assert_eq!(format_bytes_per_sec(5 * 1024 * 1024), "5.0 MB/s");
    assert_eq!(format_bytes_per_sec(3 * 1024 * 1024 * 1024), "3.0 GB/s");
}

#[test]
fn format_bytes_rounds_like_float_formatting() {
    for n in [1024u64, 1280, 1331, 1536, 1587, 1_048_575, 123_456_789, 5_000_000_000] {
        let expected = if n >= 1 << 30 {
            format!("{:.1} GB/s", n as f64 / (1u64 << 30) as f64)
        } else if n >= 1 << 20 {
            format!("{:.1} MB/s", n as f64 / (1u64 << 20) as f64)
        } else {
            format!("{:.1} KB/s", n as f64 / 1024.0)
        };
        assert_eq!(format_bytes_per_sec(n), expected, "for {}", n);
    }
    assert_eq!(format_bytes_per_sec(1023), "1023 B/s");
    assert_eq!(format_bytes_per_sec(u64::MAX), format!("{:.1} GB/s", u64::MAX as f64 / (1u64 << 30) as f64));
    assert_eq!(format_bytes_per_sec((1u64 << 62) + 1), format!("{:.1} GB/s", ((1u64 << 62) + 1) as f64 / (1u64 << 30) as f64));
}

#[test]
fn test_set_and_clear_filter() {
    let mut tab = NetworkTab::default();
    tab.set_selection(Some(3), 5);
    tab.set_filter("nginx".to_string());
    assert_eq!(tab.filter_text(), "nginx");
    assert_eq!(tab.selected_row(), None);
    assert_eq!(tab.scroll_offset(), 0);
    tab.clear_filter();
    assert!(tab.filter_text().is_empty());
}

#[test]
fn test_move_down_wraps() {
    let mut tab = NetworkTab::default();
    tab.move_down(3);
    assert_eq!(tab.selected_row(), Some(0));
    tab.move_down(3);
    assert_eq!(tab.selected_row(), Some(1));
    tab.move_down(3);
    assert_eq!(tab.selected_row(), Some(2));
    tab.move_down(3);
    assert_eq!(tab.selected_row(), Some(0));
}

#[test]
fn test_move_up_stops_at_zero() {
    let mut tab = NetworkTab::default();
    tab.set_selection(Some(1), 0);
    tab.move_up();
    assert_eq!(tab.selected_row(), Some(0));
    tab.move_up();
    assert_eq!(tab.selected_row(), Some(0));
}

#[test]
fn test_move_down_empty_noop() {
    let mut tab = NetworkTab::default();
    tab.move_down(0);
    assert_eq!(tab.selected_row(), None);
}

#[test]
fn network_scroll_follows_selection_up() {
    let mut tab = NetworkTab::default();
    tab.set_selection(Some(4), 4);
    tab.handle_key(KeyCode::Char('k'), 10);
    assert_eq!(tab.selected_row(), Some(3));
    assert_eq!(tab.scroll_offset(), 3);
    tab.handle_key(KeyCode::Esc, 10);
    assert_eq!(tab.selected_row(), None);
}

#[test]
fn test_update_pushes_throughput_history() {
    let mut tab = NetworkTab::default();
    tab.update(&[1000, 5000]);
    assert_eq!(tab.throughput_history().len(), 1);
    assert_eq!(tab.throughput_history()[0], 6000);
}

#[test]
fn test_throughput_history_caps_at_limit() {
    let mut tab = NetworkTab::default();
    for _ in 0..THROUGHPUT_HISTORY_CAP + 10 {
        tab.update(&[]);
    }
    assert_eq!(tab.throughput_history().len(), THROUGHPUT_HISTORY_CAP);
}

#[test]
fn test_push_capped_evicts_oldest() {
    let mut deque = VecDeque::with_capacity(HISTORY_CAP);
    for i in 0..HISTORY_CAP as u64 {
        push_capped(&mut deque, i, HISTORY_CAP);
    }
    assert_eq!(deque.len(), HISTORY_CAP);
    assert_eq!(deque[0], 0);
    push_capped(&mut deque, 999, HISTORY_CAP);
    assert_eq!(deque.len(), HISTORY_CAP);
    assert_eq!(deque[0], 1);
    assert_eq!(*deque.back().unwrap(), 999);
}

#[test]
fn test_history_caps_at_60() {
    let mut sparklines = SystemSparklines::default();
    for _ in 0..70 {
        sparklines.update(5, &[3 * 1024 * 1024, 1024 * 1024], &[100, 200]);
    }
    assert_eq!(sparklines.cpu_history().len(), 60);
    assert_eq!(sparklines.ram_history().len(), 60);
    assert_eq!(sparklines.net_history().len(), 60);
    assert_eq!(sparklines.ram_history()[0], 4);
    assert_eq!(sparklines.net_history()[0], 300);
}

#[test]
fn test_default_sort_is_cpu_descending() {
    let tab = OverviewTab::default();
    assert_eq!(tab.sort_column(), SortColumn::Cpu);
    assert!(!tab.sort_ascending());
}

#[test]
fn test_sort_toggle_reverses_direction() {
    let mut tab = OverviewTab::default();
    tab.handle_sort_key(KeyCode::Char('c'));
    assert!(tab.sort_ascending());
    tab.handle_sort_key(KeyCode::Char('c'));
    assert!(!tab.sort_ascending());
}

#[test]
fn test_sort_key_changes_column() {
    let mut tab = OverviewTab::default();
    assert!(tab.handle_sort_key(KeyCode::Char('m')));
    assert_eq!(tab.sort_column(), SortColumn::Mem);
    assert!(!tab.sort_ascending());
}

#[test]
fn test_sort_key_unknown_returns_false() {
    let mut tab = OverviewTab::default();
    assert!(!tab.handle_sort_key(KeyCode::Char('z')));
}

#[test]
fn test_format_mem_scales() {
    assert_eq!(format_mem(500), "500 B");
    assert_eq!(format_mem(2048), "2.0 KB");
    assert_eq!(format_mem(5 * 1024 * 1024), "5.0 MB");
    assert_eq!(format_mem(3 * 1024 * 1024 * 1024), "3.0 GB");
}

#[test]
fn test_format_state_labels() {
    assert_eq!(format_state(ProcessState::Running), "Run");
    assert_eq!(format_state(ProcessState::Sleeping), "Sleep");
    assert_eq!(format_state(ProcessState::Zombie), "Zombie");
    assert_eq!(format_state(ProcessState::Stopped), "Stop");
    assert_eq!(process_state_to_u32(ProcessState::Zombie), 2);
}

#[test]
fn test_move_selection_down_wraps() {
    let mut tab = OverviewTab::default();
    tab.move_selection_down(3);
    assert_eq!(tab.selected_row(), Some(0));
    tab.move_selection_down(3);
    assert_eq!(tab.selected_row(), Some(1));
    tab.move_selection_down(3);
    assert_eq!(tab.selected_row(), Some(2));
    tab.move_selection_down(3);
    assert_eq!(tab.selected_row(), Some(0));
}

#[test]
fn test_move_selection_up_stops_at_zero() {
    let mut tab = OverviewTab::default();
    tab.select_row(Some(1));
    tab.move_selection_up();
    assert_eq!(tab.selected_row(), Some(0));
    tab.move_selection_up();
    assert_eq!(tab.selected_row(), Some(0));
}

#[test]
fn test_move_selection_empty_noop() {
    let mut tab = OverviewTab::default();
    tab.move_selection_down(0);
    assert_eq!(tab.selected_row(), None);
}

#[test]
fn test_enter_opens_detail_panel() {
    let mut tab = OverviewTab::default();
    tab.select_row(Some(1));
    let pids = vec![10, 20, 30];
    tab.handle_key(KeyCode::Enter, 3, &pids);
    assert_eq!(tab.detail_pid(), Some(20));
}

#[test]
fn test_enter_without_selection_does_nothing() {
    let mut tab = OverviewTab::default();
    let pids = vec![10, 20];
    tab.handle_key(KeyCode::Enter, 2, &pids);
    assert_eq!(tab.detail_pid(), None);
}

#[test]
fn test_esc_closes_detail_panel() {
    let mut tab = OverviewTab::default();
    tab.set_detail_pid(42);
    tab.handle_key(KeyCode::Esc, 3, &[10, 20, 30]);
    assert_eq!(tab.detail_pid(), None);
}

#[test]
fn test_default_detail_pid_is_none() {
    let tab = OverviewTab::default();
    assert_eq!(tab.detail_pid(), None);
}

fn two_rules() -> RulesDisplayState {
    RulesDisplayState {
        rule_names: vec!["rule_a".into(), "rule_b".into()],
        match_counts: vec![0, 5],
        total_evaluations: 100,
        total_actions: 5,
    }
}

#[test]
fn rules_test_default_tab_has_no_selection() {
    let tab = RulesTab::default();
    assert_eq!(tab.selected_rule(), None);
}

#[test]
fn test_navigate_empty_noop() {
    let mut tab = RulesTab::default();
    let result = tab.handle_key(KeyCode::Char('j'));
    assert_eq!(result, RulesKeyResult::Consumed);
    assert_eq!(tab.selected_rule(), None);
}

#[test]
fn test_navigate_with_rules() {
    let mut tab = RulesTab::default();
    tab.set_display_state(two_rules());
    tab.handle_key(KeyCode::Char('j'));
    assert_eq!(tab.selected_rule(), Some(0));
    tab.handle_key(KeyCode::Char('j'));
    assert_eq!(tab.selected_rule(), Some(1));
    tab.handle_key(KeyCode::Char('j'));
    assert_eq!(tab.selected_rule(), Some(0));
}

#[test]
fn rules_test_navigate_up_wraps() {
    let mut tab = RulesTab::default();
    tab.set_display_state(two_rules());
    tab.handle_key(KeyCode::Char('k'));
    assert_eq!(tab.selected_rule(), Some(1));
}

#[test]
fn rules_test_unknown_key_not_consumed() {
    let mut tab = RulesTab::default();
    let result = tab.handle_key(KeyCode::Char('x'));
    assert_eq!(result, RulesKeyResult::NotConsumed);
}

#[test]
fn rules_tab_loads_latest_state() {
    let mut tab = RulesTab::default();
    assert_eq!(tab.rule_count(), 0);
    assert!(tab.load_state().rule_names.is_empty());
    tab.set_display_state(two_rules());
    assert_eq!(tab.rule_count(), 2);
    let s = tab.load_state();
    assert_eq!(s.rule_names, vec!["rule_a".to_string(), "rule_b".to_string()]);
    assert_eq!(s.match_counts, vec![0, 5]);
    assert_eq!(s.total_evaluations, 100);
}

fn kill(pid: u32) -> AgentAction {
    AgentAction::KillProcess { pid }
}

#[test]
fn arbiter_test_default_tab_has_no_selection() {
    let tab = ArbiterTab::default();
    assert_eq!(tab.selected_action(), None);
}

#[test]
fn test_submit_adds_pending_entry() {
    let mut queue = ArbiterQueue::default();
    queue.submit("assistant".to_string(), kill(1234), 0);
    assert_eq!(queue.pending_count(), 1);
    assert_eq!(queue.approved_count(), 0);
    assert_eq!(queue.denied_count(), 0);
}

#[test]
fn test_approve_moves_to_history() {
    let mut queue = ArbiterQueue::default();
    queue.submit("assistant".to_string(), kill(1234), 0);
    queue.approve(0, 10);
    assert_eq!(queue.pending_count(), 0);
    assert_eq!(queue.approved_count(), 1);
    assert_eq!(queue.entries()[0].resolved_at, Some(10));
}

#[test]
fn test_deny_moves_to_history() {
    let mut queue = ArbiterQueue::default();
    queue.submit("assistant".to_string(), kill(1234), 0);
    queue.deny(0, 10);
    assert_eq!(queue.pending_count(), 0);
    assert_eq!(queue.denied_count(), 1);
}

#[test]
fn arbiter_test_navigate_down_wraps() {
    let mut tab = ArbiterTab::default();
    tab.queue_mut().submit("A".to_string(), kill(1), 0);
    tab.queue_mut().submit("B".to_string(), kill(2), 0);
    tab.handle_key(KeyCode::Char('j'), 0);
    assert_eq!(tab.selected_action(), Some(0));
    tab.handle_key(KeyCode::Char('j'), 0);
    assert_eq!(tab.selected_action(), Some(1));
    tab.handle_key(KeyCode::Char('j'), 0);
    assert_eq!(tab.selected_action(), Some(0));
}

#[test]
fn arbiter_test_navigate_up_wraps() {
    let mut tab = ArbiterTab::default();
    tab.queue_mut().submit("A".to_string(), kill(1), 0);
    tab.queue_mut().submit("B".to_string(), kill(2), 0);
    tab.handle_key(KeyCode::Char('k'), 0);
    assert_eq!(tab.selected_action(), Some(1));
    tab.handle_key(KeyCode::Char('k'), 0);
    assert_eq!(tab.selected_action(), Some(0));
}

#[test]
fn test_approve_selected_action() {
    let mut tab = ArbiterTab::default();
    tab.queue_mut().submit("assistant".to_string(), kill(1234), 0);
    tab.select(Some(0));
    let result = tab.handle_key(KeyCode::Char('y'), 0);
    assert_eq!(result, ArbiterKeyResult::Consumed);
    assert_eq!(tab.queue().pending_count(), 0);
    assert_eq!(tab.queue().approved_count(), 1);
    assert_eq!(tab.selected_action(), None);
}

#[test]
fn test_deny_selected_action() {
    let mut tab = ArbiterTab::default();
    tab.queue_mut().submit("assistant".to_string(), kill(1234), 0);
    tab.select(Some(0));
    let result = tab.handle_key(KeyCode::Char('n'), 0);
    assert_eq!(result, ArbiterKeyResult::Consumed);
    assert_eq!(tab.queue().pending_count(), 0);
    assert_eq!(tab.queue().denied_count(), 1);
}

#[test]
fn test_inspect_returns_pid() {
    let mut tab = ArbiterTab::default();
    tab.queue_mut().submit("assistant".to_string(), kill(42), 0);
    tab.select(Some(0));
    let result = tab.handle_key(KeyCode::Char('i'), 0);
    assert_eq!(result, ArbiterKeyResult::InspectPid(42));
}

#[test]
fn test_inspect_zero_pid_stays_consumed() {
    let mut tab = ArbiterTab::default();
    tab.queue_mut().submit("assistant".to_string(), AgentAction::RestartService { name: "nginx".to_string() }, 0);
    tab.select(Some(0));
    let result = tab.handle_key(KeyCode::Char('i'), 0);
    assert_eq!(result, ArbiterKeyResult::Consumed);
}

#[test]
fn arbiter_test_unknown_key_not_consumed() {
    let mut tab = ArbiterTab::default();
    let result = tab.handle_key(KeyCode::Char('x'), 0);
    assert_eq!(result, ArbiterKeyResult::NotConsumed);
}

#[test]
fn test_clamp_selection_after_approve() {
    let mut tab = ArbiterTab::default();
    tab.queue_mut().submit("A".to_string(), kill(1), 0);
    tab.queue_mut().submit("B".to_string(), kill(2), 0);
    tab.select(Some(1));
    tab.handle_key(KeyCode::Char('y'), 0);
    assert_eq!(tab.selected_action(), Some(0));
}

#[test]
fn test_format_duration_seconds() {
    let d = std::time::Duration::from_secs(30);
    assert_eq!(format_duration(d.as_secs()), "30s ago");
}

#[test]
fn test_format_duration_minutes() {
    let d = std::time::Duration::from_secs(120);
    assert_eq!(format_duration(d.as_secs()), "2m ago");
}

#[test]
fn test_format_duration_hours() {
    let d = std::time::Duration::from_secs(7200);
    assert_eq!(format_duration(d.as_secs()), "2h ago");
}

#[test]
fn format_duration_boundaries_and_action_names() {
    assert_eq!(format_duration(59), "59s ago");
    assert_eq!(format_duration(60), "1m ago");
    assert_eq!(format_duration(3599), "59m ago");
    assert_eq!(format_duration(3600), "1h ago");
    assert_eq!(format_action(&kill(1)), "kill");
    assert_eq!(format_action(&AgentAction::CustomScript { command: "x".into() }), "script");
}

#[test]
fn test_history_capacity_trim() {
    let mut queue = ArbiterQueue::default();
    for i in 0..(HISTORY_CAPACITY + 10) {
        queue.submit("A".to_string(), kill(i as u32), i as u64);
    }
    for _ in 0..(HISTORY_CAPACITY + 10) {
        queue.approve(0, 1000);
    }
    let resolved = queue.approved_count() + queue.denied_count();
    assert!(resolved <= HISTORY_CAPACITY);
    assert_eq!(resolved, HISTORY_CAPACITY);
    assert_eq!(queue.entries()[0].pid, 10, "the oldest resolved entries go first");
}

#[test]
fn trim_keeps_pending_entries() {
    let mut queue = ArbiterQueue::default();
    for i in 0..(HISTORY_CAPACITY + 2) {
        queue.submit("A".to_string(), kill(i as u32), 0);
    }
    queue.submit("keep".to_string(), kill(9999), 0);
    for _ in 0..(HISTORY_CAPACITY + 2) {
        queue.deny(0, 5);
    }
    assert_eq!(queue.pending_count(), 1);
    assert_eq!(queue.pending_pid(0), Some(9999));
    assert_eq!(queue.denied_count(), HISTORY_CAPACITY);
}

#[test]
fn test_navigate_empty_queue_noop() {
    let mut tab = ArbiterTab::default();
    tab.handle_key(KeyCode::Char('j'), 0);
    assert_eq!(tab.selected_action(), None);
}

#[test]
fn test_severity_counts() {
    let diags = vec![DiagSeverity::Critical, DiagSeverity::Warning, DiagSeverity::Info, DiagSeverity::Critical];
    assert_eq!(severity_counts(&diags), (2, 1, 1));
}

#[test]
fn test_severity_counts_empty() {
    assert_eq!(severity_counts(&[]), (0, 0, 0));
}

#[test]
fn diagnostics_test_navigate_down_wraps() {
    let mut tab = DiagnosticsTab::default();
    let ids = vec![1, 2];
    tab.handle_key(KeyCode::Char('j'), &ids);
    assert_eq!(tab.selected(), 1);
    tab.handle_key(KeyCode::Char('j'), &ids);
    assert_eq!(tab.selected(), 0, "should wrap to start");
}

#[test]
fn diagnostics_test_navigate_up_wraps() {
    let mut tab = DiagnosticsTab::default();
    let ids = vec![1, 2];
    tab.handle_key(KeyCode::Char('k'), &ids);
    assert_eq!(tab.selected(), 1, "should wrap to end");
}

#[test]
fn test_enter_returns_execute() {
    let mut tab = DiagnosticsTab::default();
    let action = tab.handle_key(KeyCode::Enter, &[42]);
    assert_eq!(action, Some(DiagnosticAction::Execute(42)));
}

#[test]
fn test_d_returns_dismiss() {
    let mut tab = DiagnosticsTab::default();
    let action = tab.handle_key(KeyCode::Char('d'), &[7]);
    assert_eq!(action, Some(DiagnosticAction::Dismiss(7)));
}

#[test]
fn test_empty_diagnostics_no_action() {
    let mut tab = DiagnosticsTab::default();
    assert_eq!(tab.handle_key(KeyCode::Char('j'), &[]), None);
    assert_eq!(tab.handle_key(KeyCode::Enter, &[]), None);
}

#[test]
fn test_target_short_name_process() {
    let target = DiagTarget::Process { pid: 1, name: "firefox".to_string() };
    assert_eq!(target_short_name(&target), "firefox");
    assert_eq!(target_display(&target), "Process: firefox (pid 1)");
    assert_eq!(
        target_display(&DiagTarget::Container { name: "web".into(), id: "abc".into() }),
        "Container: web (abc)"
    );
}

#[test]
fn test_truncate_short_string() {
    assert_eq!(truncate("hello", 10), "hello");
}

#[test]
fn test_truncate_long_string() {
    assert_eq!(truncate("hello world", 6), "hello…");
}

#[test]
fn truncate_edge_cases() {
    assert_eq!(truncate("hello", 5), "hello");
    assert_eq!(truncate("hello", 1), "h");
    assert_eq!(truncate("hello", 0), "");
    assert_eq!(truncate("héllo", 4), "hé…");
}

#[test]
fn network_counts_empty_and_mixed() {
    let empty = compute_counts(&[]);
    assert_eq!((empty.total, empty.active, empty.total_bps), (0, 0, 0));
    let c = compute_counts(&[(Protocol::TCP, 1000), (Protocol::TCP, 500), (Protocol::DNS, 0)]);
    assert_eq!(c.total, 3);
    assert_eq!(c.active, 2, "only connections with bps > 0");
    assert_eq!(c.total_bps, 1500);
    assert_eq!(c.per_protocol, [2, 0, 1, 0, 0, 0, 0]);
}

use aether::tui::world3d::{navigate, CameraCommand, KeyResult, World3DSelection};

fn world_key(tab: &mut World3DSelection, code: KeyCode) -> KeyResult {
    tab.handle_key(code).0
}

#[test]
fn test_new_defaults() {
    let tab = World3DSelection::new();
    assert!(!tab.auto_rotate());
    assert_eq!(tab.selected_pid(), None);
}

#[test]
fn test_handle_key_wasd_consumed() {
    let mut tab = World3DSelection::new();
    assert_eq!(world_key(&mut tab, KeyCode::Char('w')), KeyResult::Consumed);
    assert_eq!(world_key(&mut tab, KeyCode::Char('a')), KeyResult::Consumed);
    assert_eq!(world_key(&mut tab, KeyCode::Char('s')), KeyResult::Consumed);
    assert_eq!(world_key(&mut tab, KeyCode::Char('d')), KeyResult::Consumed);
}

#[test]
fn test_handle_key_zoom_consumed() {
    let mut tab = World3DSelection::new();
    assert_eq!(world_key(&mut tab, KeyCode::Char('+')), KeyResult::Consumed);
    assert_eq!(world_key(&mut tab, KeyCode::Char('=')), KeyResult::Consumed);
    assert_eq!(world_key(&mut tab, KeyCode::Char('-')), KeyResult::Consumed);
}

#[test]
fn test_handle_key_space_toggles_auto_rotate() {
    let mut tab = World3DSelection::new();
    assert!(!tab.auto_rotate());
    world_key(&mut tab, KeyCode::Char(' '));
    assert!(tab.auto_rotate());
    world_key(&mut tab, KeyCode::Char(' '));
    assert!(!tab.auto_rotate());
}

#[test]
fn test_handle_key_r_resets_camera() {
    let mut tab = World3DSelection::new();
    world_key(&mut tab, KeyCode::Char(' '));
    let (result, command) = tab.handle_key(KeyCode::Char('r'));
    assert_eq!(result, KeyResult::Consumed);
    assert_eq!(command, CameraCommand::Reset);
    assert!(!tab.auto_rotate());
}

#[test]
fn test_handle_key_unknown_not_consumed() {
    let mut tab = World3DSelection::new();
    assert_eq!(world_key(&mut tab, KeyCode::Char('z')), KeyResult::NotConsumed);
    assert_eq!(world_key(&mut tab, KeyCode::Char('q')), KeyResult::NotConsumed);
}

#[test]
fn test_navigate_rotates_camera() {
    assert_eq!(navigate(Direction::Right), CameraCommand::Rotate { yaw: 1, pitch: 0 });
    assert_eq!(navigate(Direction::Up), CameraCommand::Rotate { yaw: 0, pitch: 1 });
}

#[test]
fn test_tab_cycles_through_nodes() {
    let mut tab = World3DSelection::new();
    tab.set_sorted_pids(vec![10, 20, 30]);
    tab.cycle_selection();
    assert_eq!(tab.selected_pid(), Some(10));
    assert_eq!(tab.selection_index(), Some(0));
    tab.cycle_selection();
    assert_eq!(tab.selected_pid(), Some(20));
    assert_eq!(tab.selection_index(), Some(1));
    tab.cycle_selection();
    assert_eq!(tab.selected_pid(), Some(30));
    tab.cycle_selection();
    assert_eq!(tab.selected_pid(), Some(10), "should wrap around");
}

#[test]
fn test_tab_key_consumed() {
    let mut tab = World3DSelection::new();
    assert_eq!(world_key(&mut tab, KeyCode::Tab), KeyResult::Consumed);
}

#[test]
fn test_enter_selects_nearest() {
    let mut tab = World3DSelection::new();
    tab.set_sorted_pids(vec![42, 99]);
    assert_eq!(world_key(&mut tab, KeyCode::Enter), KeyResult::Consumed);
    assert_eq!(tab.selected_pid(), Some(42));
}

#[test]
fn test_esc_deselects() {
    let mut tab = World3DSelection::new();
    tab.set_sorted_pids(vec![42]);
    tab.select_nearest();
    assert_eq!(world_key(&mut tab, KeyCode::Esc), KeyResult::Consumed);
    assert_eq!(tab.selected_pid(), None);
    assert_eq!(tab.selection_index(), None);
}

#[test]
fn test_i_inspect_with_selection() {
    let mut tab = World3DSelection::new();
    tab.set_sorted_pids(vec![42]);
    tab.select_nearest();
    assert_eq!(world_key(&mut tab, KeyCode::Char('i')), KeyResult::InspectNode(42));
}

#[test]
fn test_i_without_selection_not_consumed() {
    let mut tab = World3DSelection::new();
    assert_eq!(world_key(&mut tab, KeyCode::Char('i')), KeyResult::NotConsumed);
}

#[test]
fn test_cycle_empty_noop() {
    let mut tab = World3DSelection::new();
    tab.cycle_selection();
    assert_eq!(tab.selected_pid(), None);
}

#[test]
fn test_select_nearest_empty_noop() {
    let mut tab = World3DSelection::new();
    tab.select_nearest();
    assert_eq!(tab.selected_pid(), None);
}

#[test]
fn vanished_node_is_deselected() {
    let mut tab = World3DSelection::new();
    tab.set_sorted_pids(vec![1, 2]);
    tab.cycle_selection();
    tab.set_sorted_pids(vec![2, 1]);
    assert_eq!(tab.selected_pid(), Some(1));
    tab.set_sorted_pids(vec![2]);
    assert_eq!(tab.selected_pid(), None);
    assert_eq!(tab.selection_index(), None);
}

#[test]
fn test_protocol_color() {
    assert_eq!(protocol_color("TCP"), Palette::healthy().to_color());
    assert_eq!(protocol_color("UDP"), Palette::neon_blue().to_color());
    assert_eq!(protocol_color("DNS"), Palette::warning().to_color());
    assert_eq!(protocol_color("QUIC"), Color::Gray);
    assert_eq!(protocol_color("Unknown"), Color::Gray);
}

#[test]
fn protocol_color_exact_values() {
    assert_eq!(protocol_color("TCP"), Color::Rgb(0, 240, 255));
    assert_eq!(protocol_color("tcp"), Color::Gray);
    assert_eq!(protocol_color(""), Color::Gray);
}

#[test]
fn severity_icon_per_level() {
    assert_eq!(severity_icon(DiagSeverity::Critical), "\u{25a0}");
    assert_eq!(severity_icon(DiagSeverity::Warning), "\u{25cf}");
    assert_eq!(severity_icon(DiagSeverity::Info), "\u{25cf}");
}

#[test]
fn test_help_lines_not_empty() {
    let lines = help_lines();
    assert!(!lines.is_empty());
}

#[test]
fn help_lines_layout() {
    let lines = help_lines();
    assert_eq!(lines.len(), 30);
    assert!(matches!(lines[0], HelpLine::Blank));
    match &lines[1] {
        HelpLine::Heading(t) => assert_eq!(t, "  Navigation"),
        other => panic!("unexpected {other:?}"),
    }
    match &lines[2] {
        HelpLine::Separator(t) => assert_eq!(t, "  ──────────────────────────────"),
        other => panic!("unexpected {other:?}"),
    }
    match &lines[29] {
        HelpLine::Row(k, d) => {
            assert_eq!(k, &format!("{:<16}", "  :q"));
            assert_eq!(d, "Quit");
        }
        other => panic!("unexpected {other:?}"),
    }
}

#[test]
fn help_row_pads_key_to_sixteen_chars() {
    match help_row("  ↑/↓", "Move up/down") {
        HelpLine::Row(k, d) => {
            assert_eq!(k.chars().count(), 16);
            assert_eq!(k, format!("{:<16}", "  ↑/↓"));
            assert_eq!(d, "Move up/down");
        }
        other => panic!("unexpected {other:?}"),
    }
    match help_row("a-very-long-key-name", "x") {
        HelpLine::Row(k, _) => assert_eq!(k, "a-very-long-key-name"),
        other => panic!("unexpected {other:?}"),
    }
}

#[test]
fn handle_key_f5_opens_rules_tab() {
    let mut app = AppState::new();
    app.handle_key(key(KeyCode::F(5)), 0, &[]);
    assert_eq!(app.current_tab(), Tab::Rules);
    app.handle_key(key(KeyCode::F(6)), 0, &[]);
    assert_eq!(app.current_tab(), Tab::Rules);
}

#[test]
fn arbiter_pending_lines_text() {
    let mut tab = ArbiterTab::default();
    let empty = tab.pending_lines(0);
    assert_eq!(empty.len(), 1);
    assert_eq!(empty[0].text, "  No pending actions");
    assert!(!empty[0].stale && !empty[0].selected);
    tab.queue_mut().submit("assistant".to_string(), kill(42), 1_000);
    tab.queue_mut().submit(
        "rules".to_string(),
        AgentAction::CustomScript { command: "rule:r".to_string() },
        5_000,
    );
    tab.queue_mut().approve(0, 6_000);
    tab.queue_mut().submit("assistant".to_string(), kill(7), 70_000);
    tab.select(Some(1));
    let lines = tab.pending_lines(125_000);
    let texts: Vec<&str> = lines.iter().map(|l| l.text.as_str()).collect();
    assert_eq!(
        texts,
        vec![
            "[1] rules: script (rule:r) \u{2014} 2m ago [Y/N/I]",
            "[2] assistant: kill PID 7 () \u{2014} 55s ago [Y/N/I]",
        ]
    );
    assert_eq!(lines.iter().map(|l| l.stale).collect::<Vec<_>>(), vec![true, false]);
    assert_eq!(lines.iter().map(|l| l.selected).collect::<Vec<_>>(), vec![false, true]);
    let early = tab.pending_lines(30_000);
    assert_eq!(early[0].text, "[1] rules: script (rule:r) \u{2014} 25s ago [Y/N/I]");
    assert!(!early[0].stale);
}

#[test]
fn network_table_text() {
    let c = ConnectionInfo {
        source_pid: 12,
        source_name: None,
        dest: "10.0.0.1:443".to_string(),
        protocol: Protocol::HTTPS,
        state: "Established".to_string(),
        bytes_per_sec: 2048,
    };
    assert_eq!(
        connection_cells(&c),
        vec!["12", "<exited>", "10.0.0.1:443", "HTTPS", "Established", "2.0 KB/s"]
    );
    assert_eq!(table_header(), vec!["Src PID", "Src Name", "Dest IP:Port", "Proto", "State", "Bytes/s"]);
    assert_eq!(table_title(3, ""), "Network [F3] \u{2014} 3 connections");
    assert_eq!(table_title(1, "ng"), "Network [F3] \u{2014} 1 connections [filter: ng]");
    assert_eq!(table_offset(10, 4), 3);
    assert_eq!(table_offset(1, 4), 1);
    assert_eq!(table_offset(5, 0), 0);
}

#[test]
fn network_summary_text() {
    let counts = compute_counts(&[(Protocol::TCP, 1000), (Protocol::DNS, 0), (Protocol::TCP, 24)]);
    assert_eq!(summary_lines(&counts), vec!["Connections: 3  Active: 2", "Throughput: 1.0 KB/s"]);
    assert_eq!(protocol_shares(&counts), vec![("TCP".to_string(), 2), ("DNS".to_string(), 1)]);
    let none = compute_counts(&[]);
    assert_eq!(summary_lines(&none), vec!["Connections: 0  Active: 0", "Throughput: 0 B/s", "No connections"]);
    assert!(protocol_shares(&none).is_empty());
}

fn conn(name: Option<&str>, dest: &str) -> ConnectionInfo {
    ConnectionInfo {
        source_pid: 1,
        source_name: name.map(|n| n.to_string()),
        dest: dest.to_string(),
        protocol: Protocol::TCP,
        state: "Established".to_string(),
        bytes_per_sec: 0,
    }
}

#[test]
fn connection_search_filter() {
    let conns = vec![
        conn(Some("Nginx"), "10.0.0.1:80"),
        conn(Some("postgres"), "10.0.0.2:5432"),
        conn(None, "192.168.1.9:53"),
    ];
    assert_eq!(filter_connections(&conns, ""), vec![0, 1, 2]);
    assert_eq!(filter_connections(&conns, "NGINX"), vec![0]);
    assert_eq!(filter_connections(&conns, "10.0.0"), vec![0, 1]);
    assert_eq!(filter_connections(&conns, "exited"), vec![2]);
    assert!(filter_connections(&conns, "redis").is_empty());
    assert!(connection_matches(&conns[1], "5432"));
    assert!(str_contains("abc", ""));
    assert!(!str_contains("ab", "abc"));
    assert!(str_contains("xxabc", "abc"));
}
