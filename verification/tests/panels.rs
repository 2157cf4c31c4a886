use std::sync::Arc;

use fission_web::hexdump::hex_dump;
use fission_web::panels::{
    address_label, current_function_name, display_name, editor_content, filter_functions, function_kind,
    item_class, search_matches, tab_class, EditorContent, FunctionKind,
};
use fission_web::state::{AppState, EditorTab, FunctionEntry};

fn entry(address: u64, name: &str, is_import: bool, is_export: bool, is_thunk: bool) -> FunctionEntry {
    FunctionEntry { address, name: name.to_string(), is_import, is_export, is_thunk }
}

fn sample() -> Vec<FunctionEntry> {
    vec![
        entry(0x401000, "main", false, true, false),
        entry(0x402abc, "", false, false, false),
        entry(0x403000, "Printf", true, false, true),
        entry(0x404000, "helper_Main", false, false, false),
    ]
}

#[test]
fn unnamed_functions_get_sub_names() {
    assert_eq!(display_name(&entry(0x402abc, "", false, false, false)), "sub_402abc");
    assert_eq!(display_name(&entry(0, "", false, false, false)), "sub_0");
    assert_eq!(display_name(&entry(0x10, "start", false, false, false)), "start");
}

#[test]
fn function_kinds_and_dot_classes() {
    let fs = sample();
    assert_eq!(function_kind(&fs[0]), FunctionKind::Export);
    assert_eq!(function_kind(&fs[1]), FunctionKind::Code);
    assert_eq!(function_kind(&fs[2]), FunctionKind::Import);
    assert_eq!(function_kind(&entry(1, "t", false, false, true)), FunctionKind::Import);
    assert_eq!(function_kind(&entry(1, "e", true, true, true)), FunctionKind::Export);
    assert_eq!(FunctionKind::Export.dot_class(), "fn-dot is-export");
    assert_eq!(FunctionKind::Import.dot_class(), "fn-dot is-import");
    assert_eq!(FunctionKind::Code.dot_class(), "fn-dot is-code");
}

#[test]
fn item_and_tab_classes() {
    assert_eq!(item_class(true), "function-item is-selected");
    assert_eq!(item_class(false), "function-item");
    assert_eq!(tab_class(EditorTab::Nir, EditorTab::Nir), "tab is-active");
    assert_eq!(tab_class(EditorTab::Hex, EditorTab::Nir), "tab");
}

#[test]
fn search_matches_name_or_address() {
    assert!(search_matches("main", 0x401000, ""));
    assert!(search_matches("main", 0x401000, "ai"));
    assert!(search_matches("main", 0x401000, "4010"));
    assert!(!search_matches("main", 0x401000, "x"));
    assert!(!search_matches("main", 0x401000, "0x401000"));
}

#[test]
fn filter_is_case_insensitive_and_keeps_order() {
    let fs = sample();
    let hits = filter_functions(&fs, "MAIN");
    assert_eq!(hits, vec![fs[0].clone(), fs[3].clone()]);
    let hits = filter_functions(&fs, "printf");
    assert_eq!(hits, vec![fs[2].clone()]);
    let hits = filter_functions(&fs, "2ABC");
    assert_eq!(hits, vec![fs[1].clone()]);
    assert_eq!(filter_functions(&fs, ""), fs);
    assert!(filter_functions(&fs, "zzz").is_empty());
}

#[test]
fn filter_lowercases_unicode() {
    let fs = vec![entry(1, "ÄRGER", false, false, false)];
    assert_eq!(filter_functions(&fs, "ärger").len(), 1);
    assert_eq!(filter_functions(&fs, "ÄR").len(), 1);
}

#[test]
fn breadcrumb_name_of_current_function() {
    let mut s = AppState::default();
    s.functions = sample();
    assert_eq!(current_function_name(&s), None);
    s.current_fn_addr = Some(0x402abc);
    assert_eq!(current_function_name(&s), Some("sub_402abc".to_string()));
    s.current_fn_addr = Some(0x401000);
    assert_eq!(current_function_name(&s), Some("main".to_string()));
    s.current_fn_addr = Some(0x999);
    assert_eq!(current_function_name(&s), None);
}

#[test]
fn breadcrumb_uses_first_function_at_address() {
    let mut s = AppState::default();
    s.functions = vec![entry(5, "first", false, false, false), entry(5, "second", false, false, false)];
    s.current_fn_addr = Some(5);
    assert_eq!(current_function_name(&s), Some("first".to_string()));
}

fn is_variant(c: &EditorContent, expected: &str) -> bool {
    let name = match c {
        EditorContent::Decompiling => "Decompiling",
        EditorContent::Pseudocode(_) => "Pseudocode",
        EditorContent::NoFunctionSelected => "NoFunctionSelected",
        EditorContent::Nir(_) => "Nir",
        EditorContent::NirUnavailable => "NirUnavailable",
        EditorContent::HexView(_) => "HexView",
        EditorContent::NoBinary => "NoBinary",
    };
    name == expected
}

#[test]
fn editor_content_per_tab() {
    let mut s = AppState::default();
    assert!(is_variant(&editor_content(&s), "NoFunctionSelected"));
    s.decompiled_code = Some("int main() {}".to_string());
    match editor_content(&s) {
        EditorContent::Pseudocode(c) => assert_eq!(c, "int main() {}"),
        other => panic!("unexpected {:?}", other),
    }
    s.active_tab = EditorTab::Nir;
    assert!(is_variant(&editor_content(&s), "NirUnavailable"));
    s.decompiled_nir = Some("fn main()".to_string());
    match editor_content(&s) {
        EditorContent::Nir(c) => assert_eq!(c, "fn main()"),
        other => panic!("unexpected {:?}", other),
    }
    s.active_tab = EditorTab::Hex;
    assert!(is_variant(&editor_content(&s), "NoBinary"));
    let bytes: Vec<u8> = (0..5000u32).map(|i| (i % 251) as u8).collect();
    s.binary_data = Some(Arc::new(bytes.clone()));
    match editor_content(&s) {
        EditorContent::HexView(text) => {
            assert_eq!(text, hex_dump(&bytes, 4096));
            assert!(text.ends_with("\n[truncated]\n"));
        }
        other => panic!("unexpected {:?}", other),
    }
    s.is_decompiling = true;
    assert!(is_variant(&editor_content(&s), "Decompiling"));
}

#[test]
fn address_labels_are_sixteen_digits() {
    assert_eq!(address_label(0x401000), "0x0000000000401000");
    assert_eq!(address_label(0), "0x0000000000000000");
    assert_eq!(address_label(u64::MAX), "0xffffffffffffffff");
}

#[test]
fn narrowing_the_query_only_drops_entries() {
    let fs = sample();
    let wide = filter_functions(&fs, "ma");
    let narrow = filter_functions(&fs, "MAIN");
    assert_eq!(wide.len(), 2);
    assert!(narrow.iter().all(|f| wide.contains(f)));
    let narrower = filter_functions(&fs, "helper_main");
    assert_eq!(narrower, vec![fs[3].clone()]);
    assert!(narrower.iter().all(|f| narrow.contains(f)));
}
