use fission_web::state::{AppState, FunctionEntry, LogLevel};

#[test]
fn load_lifecycle_success() {
    let mut s = AppState::default();
    s.begin_load("a.exe");
    assert!(s.is_loading);
    assert_eq!(s.logs.len(), 1);
    assert_eq!(s.logs[0].level, LogLevel::Info);
    assert_eq!(s.logs[0].message, "Loading a.exe\u{2026}");
    let f = FunctionEntry { address: 0x10, name: "main".to_string(), is_import: false, is_export: true, is_thunk: false };
    s.finish_load("a.exe".to_string(), vec![1, 2, 3], vec![f.clone()], "PE32+ | 1 functions".to_string());
    assert!(!s.is_loading);
    assert_eq!(s.binary_name.as_deref(), Some("a.exe"));
    assert_eq!(s.binary_data.as_ref().map(|d| d.as_slice()), Some(&[1u8, 2, 3][..]));
    assert_eq!(s.functions, vec![f]);
    assert_eq!(s.logs.len(), 2);
    assert_eq!(s.logs[1].message, "PE32+ | 1 functions");
}

#[test]
fn load_lifecycle_failure() {
    let mut s = AppState::default();
    s.begin_load("b.bin");
    s.fail_load("unsupported format");
    assert!(!s.is_loading);
    assert!(s.binary_name.is_none());
    assert_eq!(s.logs.len(), 2);
    assert_eq!(s.logs[1].level, LogLevel::Error);
    assert_eq!(s.logs[1].message, "Load failed: unsupported format");
}
