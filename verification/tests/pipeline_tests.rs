use std::hash::Hasher;

use breach::compiler::compile_typescript_with_oxc;
use breach::compiler::minify_js;
use breach::fingerprint::fx_hash;
use breach::inject::extract_and_remove_title;
use breach::inject::inject_links_once;
use breach::inject::u64_to_dec;
use breach::pipeline::prepare_from_source;
use breach::styling::compile_scss_to_css;
use breach::styling::process_styling_content;

fn injected_html(src: &str) -> (u64, String) {
    let prepared = prepare_from_source(src.as_bytes());
    let html = String::from_utf8(prepared.html_injected.expect("markup present")).unwrap();
    (prepared.fingerprint, html)
}

#[test]
fn pipeline_idempotent_on_identical_bytes() {
    let src = "¦html\n<html><head></head><body><p>x</p></body></html>\n¦css\nbody { color: red; }\n¦js\nlet a = 1;";
    let first = prepare_from_source(src.as_bytes());
    let second = prepare_from_source(src.as_bytes());
    assert_eq!(first.fingerprint, second.fingerprint);
    assert_eq!(first.html_injected, second.html_injected);
    assert_eq!(first.parsed.markup, second.parsed.markup);
    assert_eq!(first.parsed.styling, second.parsed.styling);
    assert_eq!(first.parsed.script, second.parsed.script);
}

#[test]
fn injection_places_link_in_head_and_script_in_body() {
    let src = "¦html\n<html><head></head><body></body></html>\n¦css\nbody { color: red; }\n¦js\nlet a = 1;";
    let (fp, html) = injected_html(src);
    let link = format!("<link rel=\"stylesheet\" href=\"/style.css?v={}\">", fp);
    let script = format!("<script src=\"/script.js?v={}\"></script>", fp);
    let link_at = html.find(&link).expect("stylesheet link injected");
    let script_at = html.find(&script).expect("script tag injected");
    assert!(html.find("<head>").unwrap() < link_at);
    assert!(link_at < html.find("</head>").unwrap());
    assert!(html.find("<body>").unwrap() < script_at);
    assert!(script_at < html.find("</body>").unwrap());
}

#[test]
fn title_preserved_exactly_once() {
    let src = "¦html\n<html><head><title>Foo</title></head><body></body></html>\n¦css\nh1 { color: blue; }";
    let (fp, html) = injected_html(src);
    assert_eq!(html.matches("<title>Foo</title>").count(), 1);
    let link = format!("<link rel=\"stylesheet\" href=\"/style.css?v={}\">", fp);
    let link_at = html.find(&link).expect("stylesheet link injected");
    assert!(link_at < html.find("</head>").unwrap());
}

#[test]
fn head_synthesized_when_missing() {
    let src = "¦html\n<html><body>Hi</body></html>\n¦css\np { margin: 0; }";
    let (fp, html) = injected_html(src);
    assert_eq!(html.matches("<head>").count(), 1);
    assert_eq!(html.matches("</head>").count(), 1);
    let link = format!("<link rel=\"stylesheet\" href=\"/style.css?v={}\">", fp);
    let link_at = html.find(&link).expect("stylesheet link injected");
    assert!(html.find("<head>").unwrap() < link_at);
    assert!(link_at < html.find("</head>").unwrap());
}

#[test]
fn title_relocated_into_synthesized_head() {
    let src = "¦html\n<html><title>Baz</title><body></body></html>\n¦css\na{}";
    let (_fp, html) = injected_html(src);
    assert_eq!(html.matches("<title>Baz</title>").count(), 1);
    let title_at = html.find("<title>Baz</title>").unwrap();
    assert!(html.find("<head>").unwrap() < title_at);
    assert!(title_at < html.find("</head>").unwrap());
}

#[test]
fn empty_source_yields_empty_snapshot() {
    let prepared = prepare_from_source(b"");
    assert!(prepared.parsed.markup.is_none());
    assert!(prepared.parsed.styling.is_none());
    assert!(prepared.parsed.script.is_none());
    assert!(prepared.html_injected.is_none());
}

#[test]
fn head_prepended_without_structure_tags() {
    let src = "¦html\n<title>Bar</title><p>plain</p>\n¦css\np { margin: 0; }";
    let (_fp, html) = injected_html(src);
    assert_eq!(html.matches("<title>Bar</title>").count(), 1);
    assert!(html.contains("<meta charset=\"utf-8\">"));
    let title_at = html.find("<title>Bar</title>").unwrap();
    assert!(html.find("<head>").unwrap() < title_at);
    assert!(title_at < html.find("</head>").unwrap());
}

#[test]
fn livereload_bootstrap_always_appended() {
    let (_fp, html) = injected_html("¦html\n<html><body></body></html>");
    assert!(html.contains("new WebSocket('ws://' + window.location.host + '/ws')"));
    assert!(html.contains("window.location.reload()"));
}

#[test]
fn extract_title_removes_and_saves() {
    let (rest, title) = extract_and_remove_title(b"<html><TITLE> Foo </title><p>x</p></html>");
    assert_eq!(rest, b"<html><p>x</p></html>");
    assert_eq!(title.as_deref(), Some(b"Foo".as_slice()));
    let (rest2, title2) = extract_and_remove_title(b"<p>no title</p>");
    assert_eq!(rest2, b"<p>no title</p>");
    assert!(title2.is_none());
}

#[test]
fn inject_without_sections_only_adds_bootstrap() {
    let out = inject_links_once(b"<p>x</p>", false, false, 7);
    let html = String::from_utf8(out).unwrap();
    assert!(html.starts_with("<p>x</p>\n<script>"));
    assert!(!html.contains("style.css"));
    assert!(!html.contains("script.js"));
}

#[test]
fn fingerprint_matches_fx_hasher() {
    for data in [
        b"".as_slice(),
        b"a".as_slice(),
        b"abcd".as_slice(),
        b"abcdefg".as_slice(),
        b"abcdefgh".as_slice(),
        b"the quick brown fox jumps over the lazy dog".as_slice(),
    ] {
        let mut h = fxhash::FxHasher64::default();
        h.write(data);
        assert_eq!(fx_hash(data), h.finish());
    }
}

#[test]
fn pipeline_fingerprint_matches_streamed_hasher() {
    // The fingerprint folds markup, styling and script into the hasher
    // as three separate writes, in that fixed order.
    let prepared = prepare_from_source("¦html\n<p>x</p>\n¦css\na{}".as_bytes());
    let mut h = fxhash::FxHasher64::default();
    h.write(b"<p>x</p>");
    h.write(b"a{}");
    h.write(b"NO_SCRIPT");
    assert_eq!(prepared.fingerprint, h.finish());
}

#[test]
fn random_builtins_are_unavailable() {
    // The compiler is built without its random builtins, so a call to
    // one is an unknown function that is emitted literally — the same
    // output every time.
    let out = compile_scss_to_css(b"a { width: random(); }").expect("compiles");
    assert_eq!(out, b"a {\n  width: random();\n}\n");
    let first = prepare_from_source("¦scss\na { width: random(); }".as_bytes());
    let second = prepare_from_source("¦scss\na { width: random(); }".as_bytes());
    assert_eq!(first.parsed.styling, second.parsed.styling);
    assert_eq!(first.fingerprint, second.fingerprint);
}

#[test]
fn fingerprint_distinguishes_missing_script() {
    let without = prepare_from_source("¦html\n<p>x</p>".as_bytes());
    let with_empty = prepare_from_source("¦html\n<p>x</p>\n¦js\n;".as_bytes());
    assert_ne!(without.fingerprint, with_empty.fingerprint);
}

#[test]
fn decimal_rendering_of_fingerprints() {
    assert_eq!(u64_to_dec(0), b"0");
    assert_eq!(u64_to_dec(1234), b"1234");
    assert_eq!(u64_to_dec(u64::MAX), b"18446744073709551615");
}

#[test]
fn scss_compiles_to_css() {
    let out = compile_scss_to_css(b"a { b { color: &; } }").expect("valid scss");
    assert_eq!(out, b"a b {\n  color: a b;\n}\n");
}

#[test]
fn scss_compiled_through_pipeline() {
    let prepared = prepare_from_source("¦scss\na { b { color: &; } }".as_bytes());
    let css = String::from_utf8(prepared.parsed.styling.expect("styling present")).unwrap();
    assert_eq!(css, "a b {\n  color: a b;\n}\n");
}

#[test]
fn invalid_scss_degrades_to_raw_source() {
    assert!(compile_scss_to_css(b"a {").is_err());
    let prepared = prepare_from_source("¦scss\na {".as_bytes());
    assert_eq!(prepared.parsed.styling.as_deref(), Some(b"a {".as_slice()));
}

#[test]
fn css_passes_through_unchanged() {
    let out = process_styling_content(b"/* CSS */\nbody { color: red; }\n/* EOF */");
    assert_eq!(out, b"body { color: red; }");
}

#[test]
fn styling_blocks_join_with_blank_line() {
    let out = process_styling_content(b"/* CSS */\na{}\n/* EOF */\n\n/* CSS */\nb{}\n/* EOF */");
    assert_eq!(out, b"a{}\n\nb{}");
}

#[test]
fn typescript_fallback_passes_through() {
    let out = compile_typescript_with_oxc("f.ts", "let x: number = 1;").unwrap();
    assert_eq!(out, "let x: number = 1;");
}

#[test]
fn minify_trims_every_line() {
    let out = minify_js(b"  a;  \n   b; \n\tc;").unwrap();
    assert_eq!(out, b"a;\nb;\nc;");
}
