use breach::splitter::parse_breach_content;
use breach::splitter::starts_with_section_marker;
use breach::splitter::strip_bom;
use breach::text::find_case_insensitive;
use breach::text::normalize_newlines;
use breach::text::trim;

#[test]
fn marker_switches_section_any_case() {
    assert!(starts_with_section_marker("¦html".as_bytes(), b"html"));
    assert!(starts_with_section_marker("¦HTML".as_bytes(), b"html"));
    assert!(starts_with_section_marker("¦HtMl".as_bytes(), b"html"));
    assert!(starts_with_section_marker("   ¦css".as_bytes(), b"css"));
}

#[test]
fn marker_rejects_near_misses() {
    assert!(!starts_with_section_marker(b"html", b"html"));
    assert!(!starts_with_section_marker("¦htmlx".as_bytes(), b"html"));
    assert!(!starts_with_section_marker("¦ html".as_bytes(), b"html"));
    assert!(!starts_with_section_marker("x ¦html".as_bytes(), b"html"));
    assert!(!starts_with_section_marker(b"", b"html"));
}

#[test]
fn marker_parsing_sections() {
    // Content before the first marker is dropped; marker case does not
    // matter; two styling blocks concatenate in document order.
    let src = "junk before\n¦HTML\n<p>hi</p>\n¦css\na{}\n¦CSS\nb{}";
    let parsed = parse_breach_content(src.as_bytes());
    assert_eq!(parsed.markup.as_deref(), Some("<p>hi</p>".as_bytes()));
    assert_eq!(
        parsed.styling.as_deref(),
        Some("/* CSS */\na{}\nb{}\n/* EOF */".as_bytes())
    );
    assert!(parsed.script.is_none());
}

#[test]
fn css_and_scss_blocks_both_tagged() {
    let src = "¦css\na{}\n¦scss\nb { c { d: e; } }";
    let parsed = parse_breach_content(src.as_bytes());
    assert_eq!(
        parsed.styling.as_deref(),
        Some("/* CSS */\na{}\n/* EOF */\n\n/* SCSS */\nb { c { d: e; } }\n/* EOF */".as_bytes())
    );
}

#[test]
fn script_markers_js_ts_typescript() {
    for marker in ["¦js", "¦ts", "¦typescript", "¦TS"] {
        let src = format!("{}\nlet a = 1;", marker);
        let parsed = parse_breach_content(src.as_bytes());
        assert_eq!(parsed.script.as_deref(), Some("let a = 1;".as_bytes()));
    }
}

#[test]
fn whitespace_only_sections_are_absent() {
    let src = "¦html\n   \n\t\n¦css\n   ";
    let parsed = parse_breach_content(src.as_bytes());
    assert!(parsed.markup.is_none());
    assert!(parsed.styling.is_none());
    assert!(parsed.script.is_none());
}

#[test]
fn unrecognized_marker_like_lines_are_content() {
    let src = "¦html\n¦section\n<p>x</p>";
    let parsed = parse_breach_content(src.as_bytes());
    assert_eq!(parsed.markup.as_deref(), Some("¦section\n<p>x</p>".as_bytes()));
}

#[test]
fn bom_is_stripped() {
    assert_eq!(strip_bom("\u{feff}abc".as_bytes()), b"abc".as_slice());
    assert_eq!(strip_bom(b"abc"), b"abc".as_slice());
    let src = "\u{feff}¦html\n<p>x</p>";
    let parsed = parse_breach_content(src.as_bytes());
    assert_eq!(parsed.markup.as_deref(), Some("<p>x</p>".as_bytes()));
}

#[test]
fn newlines_normalize_to_line_feeds() {
    assert_eq!(normalize_newlines(b"a\r\nb\rc\nd"), b"a\nb\nc\nd");
    assert_eq!(normalize_newlines(b"\r\r\n"), b"\n\n");
    assert_eq!(normalize_newlines(b""), b"");
}

#[test]
fn crlf_markers_parse_like_lf_markers() {
    let unix = parse_breach_content("¦html\n<p>x</p>\n¦css\na{}".as_bytes());
    let dos = parse_breach_content("¦html\r\n<p>x</p>\r\n¦css\r\na{}".as_bytes());
    assert_eq!(unix.markup, dos.markup);
    assert_eq!(unix.styling, dos.styling);
    assert_eq!(unix.script, dos.script);
}

#[test]
fn find_case_insensitive_positions() {
    assert_eq!(find_case_insensitive(b"abcDEF", b"def"), Some(3));
    assert_eq!(find_case_insensitive(b"abc", b"zzz"), None);
    assert_eq!(find_case_insensitive(b"TITLE<title>", b"<TiTle>"), Some(5));
    assert_eq!(find_case_insensitive(b"abc", b""), Some(0));
}

#[test]
fn trim_drops_edge_whitespace() {
    assert_eq!(trim(b"  a b \t\n"), b"a b");
    assert_eq!(trim(b"   "), b"");
    assert_eq!(trim(b""), b"");
}
