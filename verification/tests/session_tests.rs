use sazid::config::{
    check_tab_width, default_timeout, true_color, AutoPairConfig, Mode, SoftWrap, TermCapabilities,
};
use sazid::paragraph::{get_line_offset, Alignment};
use sazid::status::{Severity, StatusMessage};
use sazid::session::{
    filter_non_ascii, get_session_filename, parse_symbol_range, parse_u32, select_preferred_model,
    SymbolPosition, SymbolRange,
};

fn chars(s: &str) -> Vec<char> {
    s.chars().collect()
}

fn strings(v: &[&str]) -> Vec<String> {
    v.iter().map(|s| s.to_string()).collect()
}

#[test]
fn non_ascii_characters_are_dropped() {
    assert_eq!(filter_non_ascii("héllo wörld ✓"), "hllo wrld ");
    assert_eq!(filter_non_ascii(""), "");
}

#[test]
fn session_file_name() {
    assert_eq!(get_session_filename("abc-123"), "abc-123.json");
}

#[test]
fn preferred_model_is_the_first_available() {
    let prefs = strings(&["gpt-4", "gpt-3.5-turbo"]);
    assert_eq!(select_preferred_model(&prefs, &strings(&["gpt-3.5-turbo", "gpt-4"])), Ok(0));
    assert_eq!(select_preferred_model(&prefs, &strings(&["gpt-3.5-turbo"])), Ok(1));
    assert_eq!(
        select_preferred_model(&prefs, &strings(&["davinci"])),
        Err("no preferred models available".to_string())
    );
}

#[test]
fn parsing_u32_as_std_does() {
    for text in ["0", "42", "+7", "4294967295", "007", "", "+", "-1", "4294967296", "1a", " 1"] {
        assert_eq!(parse_u32(&chars(text)), text.parse::<u32>().ok(), "text {:?}", text);
    }
}

#[test]
fn symbol_ranges() {
    assert_eq!(
        parse_symbol_range("1,2,3,4"),
        Ok(SymbolRange {
            start: SymbolPosition { line: 1, character: 2 },
            end: SymbolPosition { line: 3, character: 4 },
        })
    );
    assert_eq!(parse_symbol_range("1,2,3"), Err("Invalid range".to_string()));
    assert_eq!(parse_symbol_range("1,2,3,4,5"), Err("Invalid range".to_string()));
    assert_eq!(parse_symbol_range("1,2,x,4"), Err("Failed to parse range".to_string()));
    assert_eq!(parse_symbol_range("1,2,,4"), Err("Failed to parse range".to_string()));
}

#[test]
fn line_offsets() {
    assert_eq!(get_line_offset(4, 10, Alignment::Left), 0);
    assert_eq!(get_line_offset(4, 10, Alignment::Center), 3);
    assert_eq!(get_line_offset(5, 10, Alignment::Center), 3);
    assert_eq!(get_line_offset(4, 10, Alignment::Right), 6);
    assert_eq!(get_line_offset(12, 10, Alignment::Right), 0);
    assert_eq!(get_line_offset(12, 10, Alignment::Center), 0);
}

#[test]
fn configuration_defaults() {
    assert_eq!(Mode::default(), Mode::Home);
    assert_eq!(default_timeout(), 20);
    let wrap = SoftWrap::default();
    assert!(wrap.enable.is_none() && wrap.max_wrap.is_none() && wrap.wrap_indicator.is_none());
    assert!(matches!(AutoPairConfig::default(), AutoPairConfig::Enable(true)));
}

#[test]
fn auto_pairs_from_text() {
    assert!(matches!(AutoPairConfig::from_str("true"), Ok(AutoPairConfig::Enable(true))));
    assert!(matches!(AutoPairConfig::from_str("false"), Ok(AutoPairConfig::Enable(false))));
    assert!(AutoPairConfig::from_str("yes").is_err());
    assert!(AutoPairConfig::from_str("True").is_err());
}

#[test]
fn tab_widths() {
    assert_eq!(check_tab_width(1), Ok(1));
    assert_eq!(check_tab_width(16), Ok(16));
    assert_eq!(check_tab_width(0), Err("tab width must be a value from 1 to 16 inclusive".to_string()));
    assert_eq!(check_tab_width(17), Err("tab width must be a value from 1 to 16 inclusive".to_string()));
}

#[test]
fn true_colour_detection() {
    let none = TermCapabilities { rgb: false, tc: false, setrgbf: false, setrgbb: false };
    assert!(true_color(Some("truecolor"), None));
    assert!(true_color(Some("24bit"), Some(none)));
    assert!(!true_color(Some("256"), Some(none)));
    assert!(!true_color(None, None));
    assert!(true_color(None, Some(TermCapabilities { rgb: true, ..none })));
    assert!(true_color(None, Some(TermCapabilities { tc: true, ..none })));
    assert!(!true_color(None, Some(TermCapabilities { setrgbf: true, ..none })));
    assert!(true_color(None, Some(TermCapabilities { setrgbf: true, setrgbb: true, ..none })));
}

#[test]
fn status_messages() {
    let mut s = StatusMessage::default();
    assert!(s.get_status().is_none());
    s.set_status("indexing".to_string());
    assert_eq!(s.get_status(), Some((&"indexing".to_string(), &Severity::Info)));
    s.set_error("failed".to_string());
    assert_eq!(s.get_status(), Some((&"failed".to_string(), &Severity::Error)));
    s.clear_status();
    assert!(s.get_status().is_none());
}
