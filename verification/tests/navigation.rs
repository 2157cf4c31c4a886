use fission_web::state::{AppState, EditorTab, FunctionEntry, LogEntry, LogLevel};

#[test]
fn default_state_is_empty() {
    let s = AppState::default();
    assert!(s.binary_name.is_none());
    assert!(s.binary_data.is_none());
    assert!(s.functions.is_empty());
    assert_eq!(s.active_tab, EditorTab::Pseudocode);
    assert!(s.current_fn_addr.is_none());
    assert!(s.logs.is_empty());
    assert!(s.nav_history.is_empty());
    assert_eq!(s.nav_cursor, 0);
    assert!(!s.can_nav_back());
    assert!(!s.can_nav_forward());
}

#[test]
fn default_function_entry_and_tab() {
    let f = FunctionEntry::default();
    assert_eq!(f.address, 0);
    assert_eq!(f.name, "");
    assert!(!f.is_import && !f.is_export && !f.is_thunk);
    assert_eq!(EditorTab::default(), EditorTab::Pseudocode);
}

#[test]
fn log_entry_constructors() {
    let e = LogEntry::info("a".to_string());
    assert_eq!(e.level, LogLevel::Info);
    assert_eq!(e.message, "a");
    assert_eq!(LogEntry::warn("b".to_string()).level, LogLevel::Warn);
    assert_eq!(LogEntry::error("c".to_string()).level, LogLevel::Error);
    assert_eq!(LogEntry::error("c".to_string()).message, "c");
}

#[test]
fn push_log_keeps_at_most_500_entries() {
    let mut s = AppState::default();
    for i in 0..501 {
        s.push_log(LogEntry::info(format!("m{i}")));
    }
    assert_eq!(s.logs.len(), 500);
    assert_eq!(s.logs[0].message, "m1");
    assert_eq!(s.logs[499].message, "m500");
    s.push_log(LogEntry::warn("last".to_string()));
    assert_eq!(s.logs.len(), 500);
    assert_eq!(s.logs[0].message, "m2");
    assert_eq!(s.logs[499].message, "last");
}

#[test]
fn navigate_moves_cursor_to_newest() {
    let mut s = AppState::default();
    s.navigate_to(0x10);
    s.navigate_to(0x20);
    s.navigate_to(0x30);
    assert_eq!(s.nav_history, vec![0x10, 0x20, 0x30]);
    assert_eq!(s.nav_cursor, 2);
    assert!(s.can_nav_back());
    assert!(!s.can_nav_forward());
}

#[test]
fn navigate_to_current_entry_is_no_op() {
    let mut s = AppState::default();
    s.navigate_to(0x10);
    s.navigate_to(0x10);
    assert_eq!(s.nav_history, vec![0x10]);
    assert_eq!(s.nav_cursor, 0);
}

#[test]
fn back_then_forward_restores_position() {
    let mut s = AppState::default();
    for a in [1u64, 2, 3] {
        s.navigate_to(a);
    }
    assert_eq!(s.nav_back(), Some(2));
    assert_eq!(s.nav_cursor, 1);
    assert!(s.can_nav_forward());
    assert_eq!(s.nav_forward(), Some(3));
    assert_eq!(s.nav_cursor, 2);
    assert_eq!(s.nav_forward(), None);
    assert_eq!(s.nav_cursor, 2);
}

#[test]
fn back_stops_at_oldest_entry() {
    let mut s = AppState::default();
    s.navigate_to(7);
    s.navigate_to(8);
    assert_eq!(s.nav_back(), Some(7));
    assert_eq!(s.nav_back(), None);
    assert_eq!(s.nav_cursor, 0);
    assert!(!s.can_nav_back());
    assert_eq!(AppState::default().nav_back(), None);
    assert_eq!(AppState::default().nav_forward(), None);
}

#[test]
fn navigating_after_back_drops_forward_entries() {
    let mut s = AppState::default();
    for a in [1u64, 2, 3, 4] {
        s.navigate_to(a);
    }
    s.nav_back();
    s.nav_back();
    assert_eq!(s.nav_cursor, 1);
    s.navigate_to(9);
    assert_eq!(s.nav_history, vec![1, 2, 9]);
    assert_eq!(s.nav_cursor, 2);
    assert!(!s.can_nav_forward());
}

#[test]
fn navigating_back_to_current_after_back_keeps_forward_entries() {
    let mut s = AppState::default();
    for a in [1u64, 2, 3] {
        s.navigate_to(a);
    }
    s.nav_back();
    s.navigate_to(2);
    assert_eq!(s.nav_history, vec![1, 2, 3]);
    assert_eq!(s.nav_cursor, 1);
    assert!(s.can_nav_forward());
}

#[test]
fn history_keeps_at_most_50_entries() {
    let mut s = AppState::default();
    for a in 0u64..60 {
        s.navigate_to(a);
    }
    assert_eq!(s.nav_history.len(), 50);
    assert_eq!(s.nav_history[0], 10);
    assert_eq!(s.nav_history[49], 59);
    assert_eq!(s.nav_cursor, 49);
}

#[test]
fn history_never_repeats_neighbours() {
    let mut s = AppState::default();
    for a in [5u64, 5, 6, 6, 5, 5] {
        s.navigate_to(a);
    }
    assert_eq!(s.nav_history, vec![5, 6, 5]);
}

#[test]
fn select_function_updates_state_and_log() {
    let mut s = AppState::default();
    s.decompiled_code = Some("old".to_string());
    s.decompiled_nir = Some("old".to_string());
    s.select_function(0x401000, "main");
    assert_eq!(s.current_fn_addr, Some(0x401000));
    assert!(s.decompiled_code.is_none());
    assert!(s.decompiled_nir.is_none());
    assert_eq!(s.nav_history, vec![0x401000]);
    assert_eq!(s.logs.len(), 1);
    assert_eq!(s.logs[0].level, LogLevel::Info);
    assert_eq!(s.logs[0].message, "Decompiling main  @  0x401000\u{2026}");
}
