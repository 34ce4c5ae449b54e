use breach::pipeline::prepare_from_source;
use breach::serve::respond;
use breach::store::ContentStore;
use breach::watch::WatchState;
use breach::watch::DEBOUNCE_MS;

#[test]
fn change_suppression_on_identical_sections() {
    // Only text outside the sections differs: the parsed sections are
    // byte-identical, so the fingerprints agree and nothing publishes.
    let first = prepare_from_source("old metadata\n¦html\n<p>x</p>\n¦css\na{}".as_bytes());
    let second = prepare_from_source("edited metadata\n¦html\n<p>x</p>\n¦css\na{}".as_bytes());
    assert_eq!(first.fingerprint, second.fingerprint);

    let mut watch = WatchState::new(first.fingerprint);
    watch.note_modification(1000);
    assert!(watch.reload_due(1000 + DEBOUNCE_MS));
    let publish = watch.complete_reload(Some(second.fingerprint));
    assert!(!publish);
    assert_eq!(watch.last_fingerprint, first.fingerprint);
    assert!(watch.pending_since.is_none());
}

#[test]
fn reload_failure_keeps_last_good_fingerprint() {
    let mut watch = WatchState::new(42);
    watch.note_modification(500);
    let publish = watch.complete_reload(None);
    assert!(!publish);
    assert_eq!(watch.last_fingerprint, 42);
    assert!(watch.pending_since.is_none());
}

#[test]
fn debounce_coalesces_rapid_writes() {
    let mut watch = WatchState::new(0);
    // A burst of writes inside the window: nothing is due until the
    // threshold has elapsed after the *last* one.
    watch.note_modification(1000);
    assert!(!watch.reload_due(1000 + DEBOUNCE_MS - 1));
    watch.note_modification(1050);
    watch.note_modification(1080);
    assert!(!watch.reload_due(1080 + DEBOUNCE_MS - 1));
    assert!(watch.reload_due(1080 + DEBOUNCE_MS));
    // One reloading pass for the whole burst; afterwards idle again.
    let publish = watch.complete_reload(Some(9));
    assert!(publish);
    assert_eq!(watch.last_fingerprint, 9);
    assert!(!watch.reload_due(2000));
}

#[test]
fn publish_only_on_new_fingerprint() {
    let mut watch = WatchState::new(1);
    assert!(watch.complete_reload(Some(2)));
    assert_eq!(watch.last_fingerprint, 2);
    assert!(!watch.complete_reload(Some(2)));
    assert_eq!(watch.last_fingerprint, 2);
    assert!(watch.complete_reload(Some(3)));
    assert_eq!(watch.last_fingerprint, 3);
}

#[test]
fn store_serves_one_complete_snapshot() {
    let first = prepare_from_source("¦html\n<p>one</p>\n¦css\na{}".as_bytes());
    let second = prepare_from_source("¦html\n<p>two</p>\n¦css\nb{}".as_bytes());
    let second_fp = second.fingerprint;
    let second_html = second.html_injected.clone();

    let store = ContentStore::new(first);
    store.publish(second);
    let current = store.current();
    // The read snapshot is self-consistent: its injected markup is the
    // one built with its own fingerprint, never a torn mix.
    assert_eq!(current.fingerprint, second_fp);
    assert_eq!(current.html_injected, second_html);
    let html = String::from_utf8(current.html_injected.unwrap()).unwrap();
    assert!(html.contains(&format!("?v={}", current.fingerprint)));
}

#[test]
fn store_read_after_startup() {
    let initial = prepare_from_source("¦html\n<p>boot</p>".as_bytes());
    let fp = initial.fingerprint;
    let store = ContentStore::new(initial);
    assert_eq!(store.current().fingerprint, fp);
}

#[test]
fn routes_serve_sections() {
    let prepared = prepare_from_source(
        "¦html\n<html><body>x</body></html>\n¦css\na{}\n¦js\nlet a = 1;".as_bytes(),
    );
    for path in ["/", "/index.html"] {
        let reply = respond(&prepared, path.as_bytes());
        assert_eq!(reply.status, 200);
        assert_eq!(reply.content_type.as_deref(), Some(b"text/html; charset=utf-8".as_slice()));
        assert_eq!(reply.body, prepared.html_injected);
    }
    let css = respond(&prepared, b"/style.css");
    assert_eq!(css.status, 200);
    assert_eq!(css.content_type.as_deref(), Some(b"text/css; charset=utf-8".as_slice()));
    assert_eq!(css.body, prepared.parsed.styling);
    let js = respond(&prepared, b"/script.js");
    assert_eq!(js.status, 200);
    assert_eq!(
        js.content_type.as_deref(),
        Some(b"application/javascript; charset=utf-8".as_slice())
    );
    assert_eq!(js.body, prepared.parsed.script);
}

#[test]
fn routes_missing_sections_and_unknown_paths() {
    let prepared = prepare_from_source("¦html\n<p>x</p>".as_bytes());
    let css = respond(&prepared, b"/style.css");
    assert_eq!(css.status, 404);
    assert_eq!(css.body.as_deref(), Some(b"Resource not found".as_slice()));
    let favicon = respond(&prepared, b"/favicon.ico");
    assert_eq!(favicon.status, 204);
    assert!(favicon.content_type.is_none());
    assert!(favicon.body.is_none());
    let other = respond(&prepared, b"/missing/page");
    assert_eq!(other.status, 404);
    assert_eq!(other.body.as_deref(), Some(b"Page not found".as_slice()));
}
