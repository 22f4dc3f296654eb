use sazid::edit::{apply_line_edit, edit_summary, format_diff, replace_byte_range};
use sazid::text::decimal_string;
use sazid::query::{
    build_symbol_query, check_pascal_case_safe, query_from_pascal_kind, query_symbols, symbol_kind_code,
    text_contains, SymbolEntry,
};
use sazid::session::{SymbolPosition, SymbolRange};

fn strings(v: &[&str]) -> Vec<String> {
    v.iter().map(|s| s.to_string()).collect()
}

fn some(s: &str) -> Option<String> {
    Some(s.to_string())
}

#[test]
fn byte_ranges_are_replaced() {
    assert_eq!(replace_byte_range("héllo", 1, 3, "e"), "hello");
    assert_eq!(replace_byte_range("hello", 5, 5, "!"), "hello!");
    assert_eq!(replace_byte_range("hello", 0, 0, ""), "hello");
    let mut expected = "wörld".to_string();
    expected.replace_range(1..3, "o");
    assert_eq!(replace_byte_range("wörld", 1, 3, "o"), expected);
}

#[test]
fn only_the_chosen_line_is_edited() {
    let lines = strings(&["ab", "cd"]);
    assert_eq!(apply_line_edit(&lines, 1, 1, 0, "X"), strings(&["ab", "cXd"]));
    assert_eq!(apply_line_edit(&lines, 0, 0, 2, "new"), strings(&["new", "cd"]));
    assert_eq!(apply_line_edit(&lines, 5, 0, 0, "X"), lines);
}

#[test]
fn decimal_rendering() {
    assert_eq!(decimal_string(0), "0");
    assert_eq!(decimal_string(7), "7");
    assert_eq!(decimal_string(1234), "1234");
    assert_eq!(decimal_string(u64::MAX), u64::MAX.to_string());
}

#[test]
fn diff_entries_are_marked() {
    let entries = vec![
        (some("kept"), some("kept")),
        (some("old"), None),
        (None, some("new")),
    ];
    assert_eq!(format_diff(&entries), "  kept\n- old\n+ new");
    assert_eq!(format_diff(&vec![]), "");
}

#[test]
fn edit_reports() {
    assert_eq!(edit_summary(&strings(&["a"]), &strings(&["a"])), "0 chars added. diff of changes:   a");
    let before = strings(&["a", "b"]);
    let after = strings(&["a", "bX"]);
    let expected_diff: Vec<String> = diff::lines("a\nb", "a\nbX")
        .iter()
        .map(|d| match d {
            diff::Result::Left(l) => format!("- {}", l),
            diff::Result::Right(r) => format!("+ {}", r),
            diff::Result::Both(b, _) => format!("  {}", b),
        })
        .collect();
    assert_eq!(
        edit_summary(&before, &after),
        format!("1 chars added. diff of changes: {}", expected_diff.join("\n"))
    );
}

#[test]
fn symbol_queries() {
    let q = build_symbol_query(some("main"), some("function"), some("1,2,3,4"), some("main.rs")).unwrap();
    assert_eq!(q.name.as_deref(), Some("main"));
    assert_eq!(q.kind, Some(12));
    assert_eq!(
        q.range,
        Some(SymbolRange {
            start: SymbolPosition { line: 1, character: 2 },
            end: SymbolPosition { line: 3, character: 4 },
        })
    );
    assert_eq!(q.file_name.as_deref(), Some("main.rs"));
    let q = build_symbol_query(None, some("enum member"), None, None).unwrap();
    assert_eq!(q.kind, Some(22));
    assert!(q.range.is_none());
    assert!(build_symbol_query(None, some("nonsense"), None, None).unwrap().kind.is_none());
    assert_eq!(build_symbol_query(None, None, some("1,2"), None).unwrap_err(), "Invalid range");
    assert_eq!(build_symbol_query(None, None, some("1,2,a,4"), None).unwrap_err(), "Failed to parse range");
}

#[test]
fn kinds_are_looked_up_by_pascal_name() {
    let q = query_from_pascal_kind(None, some("TypeParameter"), None, None).unwrap();
    assert_eq!(q.kind, Some(26));
    let q = query_from_pascal_kind(None, some("function"), None, None).unwrap();
    assert!(q.kind.is_none());
}

#[test]
fn symbol_kind_codes_match_lsp_types() {
    let names = [
        "File", "Module", "Namespace", "Package", "Class", "Method", "Property", "Field",
        "Constructor", "Enum", "Interface", "Function", "Variable", "Constant", "String",
        "Number", "Boolean", "Array", "Object", "Key", "Null", "EnumMember", "Struct", "Event",
        "Operator", "TypeParameter",
    ];
    for name in names {
        let code = symbol_kind_code(name).unwrap();
        let by_code: lsp_types::SymbolKind =
            serde_json::from_value(serde_json::Value::from(code)).unwrap();
        assert_eq!(Some(by_code), lsp_types::SymbolKind::try_from(name).ok());
    }
    assert_eq!(symbol_kind_code("File"), Some(1));
    assert_eq!(symbol_kind_code("TypeParameter"), Some(26));
    assert_eq!(symbol_kind_code("file"), None);
    assert_eq!(symbol_kind_code(""), None);
}

#[test]
fn pascal_case_safety() {
    assert!(check_pascal_case_safe("enum member"));
    assert!(check_pascal_case_safe("été"));
    assert!(!check_pascal_case_safe("\u{17F}"));
    assert!(check_pascal_case_safe("a\u{212A}b"));
    assert!(check_pascal_case_safe("a\u{17F}"));
    assert!(!check_pascal_case_safe("x \u{212A}b"));
    let q = build_symbol_query(None, Some("enum me\u{17F}ber".to_string()), None, None).unwrap();
    assert_eq!(q.kind, None);
}

fn entry(name: &str, kind: u32, file: &str, path: &str) -> SymbolEntry {
    SymbolEntry {
        name: name.to_string(),
        kind,
        range: SymbolRange { start: SymbolPosition { line: 0, character: 0 }, end: SymbolPosition { line: 1, character: 0 } },
        file_name: file.to_string(),
        relative_path: path.to_string(),
    }
}

#[test]
fn symbols_are_filtered_by_the_query() {
    let symbols = vec![
        entry("main", 12, "main.rs", "src/main.rs"),
        entry("Config", 23, "config.rs", "src/config.rs"),
        entry("main_loop", 12, "app.rs", "src/app.rs"),
    ];
    let q = build_symbol_query(some("main"), some("function"), None, None).unwrap();
    assert_eq!(query_symbols(&symbols, &q), vec![0, 2]);
    let q = build_symbol_query(None, None, None, some("src/config.rs")).unwrap();
    assert_eq!(query_symbols(&symbols, &q), vec![1]);
    let q = build_symbol_query(None, None, some("0,0,1,0"), some("app.rs")).unwrap();
    assert_eq!(query_symbols(&symbols, &q), vec![2]);
    let q = build_symbol_query(None, None, some("0,0,2,0"), None).unwrap();
    assert!(query_symbols(&symbols, &q).is_empty());
    assert!(text_contains("main_loop", "_lo"));
    assert!(text_contains("abc", ""));
    assert!(!text_contains("ab", "abc"));
}
