use rskill::entry::NodeModule;
use rskill::session::{confirm_decision, App, Key};

fn entry(path: &str, size: u64) -> NodeModule {
    NodeModule::new(String::from(path), Some((size, 10)))
}

#[test]
fn new_session_starts_clean() {
    let modules = vec![entry("/a/node_modules", 10), entry("/b/node_modules", 20)];
    let app = App::new(modules, 1234);
    assert_eq!(app.scroll, 0);
    assert_eq!(app.total_deleted, 0);
    assert_eq!(app.scan_time, 1234);
    assert_eq!(app.modules.len(), 2);
    assert!(app.modules.iter().all(|m| !m.deleted));
}

#[test]
fn reclaimed_counts_selected_sizes() {
    // The removal itself is never performed here, standing in for a
    // removal that fails on the filesystem: the counter grows anyway.
    let modules = vec![entry("/a/node_modules", 1000), entry("/b/node_modules", 2000)];
    let mut app = App::new(modules, 0);
    let d1 = app.on_key(Key::Select);
    assert_eq!(d1.as_deref(), Some("/a/node_modules"));
    assert_eq!(app.total_deleted, 1000);
    app.on_key(Key::Down);
    let d2 = app.on_key(Key::Select);
    assert_eq!(d2.as_deref(), Some("/b/node_modules"));
    assert_eq!(app.total_deleted, 3000);
    assert!(app.modules[0].deleted && app.modules[1].deleted);
}

#[test]
fn selecting_deleted_entry_is_noop() {
    let modules = vec![entry("/a/node_modules", 1000)];
    let mut app = App::new(modules, 0);
    assert!(app.on_key(Key::Select).is_some());
    let again = app.on_key(Key::Select);
    assert!(again.is_none());
    assert_eq!(app.total_deleted, 1000);
}

#[test]
fn cursor_clamps_at_both_ends() {
    let modules = vec![entry("/a", 1), entry("/b", 2), entry("/c", 3)];
    let mut app = App::new(modules, 0);
    app.on_key(Key::Up);
    assert_eq!(app.scroll, 0);
    app.on_key(Key::Down);
    assert_eq!(app.scroll, 1);
    app.on_key(Key::Down);
    app.on_key(Key::Down);
    assert_eq!(app.scroll, 2);
    app.on_key(Key::Up);
    assert_eq!(app.scroll, 1);
}

#[test]
fn empty_list_has_no_selection() {
    let mut app = App::new(Vec::new(), 0);
    app.on_key(Key::Up);
    assert_eq!(app.scroll, 0);
    app.on_key(Key::Down);
    assert_eq!(app.scroll, 0);
    let d = app.on_key(Key::Select);
    assert!(d.is_none());
    assert_eq!(app.total_deleted, 0);
}

#[test]
fn other_keys_change_nothing() {
    let modules = vec![entry("/a", 5)];
    let mut app = App::new(modules, 7);
    let d = app.on_key(Key::Other);
    assert!(d.is_none());
    assert_eq!(app.scroll, 0);
    assert_eq!(app.total_deleted, 0);
    assert!(!app.modules[0].deleted);
}

#[test]
fn declined_confirmation_mutates_nothing() {
    // The session only runs a bulk pass after an affirmative key; a
    // negative key leaves every flag clear and dispatches nothing.
    let modules = vec![entry("/a/node_modules", 100), entry("/b/node_modules", 200)];
    let mut app = App::new(modules, 0);
    let mut dispatched: Vec<String> = Vec::new();
    if confirm_decision('n') {
        dispatched.extend(app.bulk_mark_pass());
    }
    assert!(dispatched.is_empty());
    assert!(app.modules.iter().all(|m| !m.deleted));
    assert_eq!(app.total_deleted, 0);
}

#[test]
fn confirmation_keys() {
    assert!(confirm_decision('y'));
    assert!(!confirm_decision('n'));
    assert!(!confirm_decision('q'));
    assert!(!confirm_decision(' '));
}

#[test]
fn bulk_pass_marks_each_entry_once() {
    let modules = vec![
        entry("/a/node_modules", 100),
        entry("/b/node_modules", 200),
        entry("/c/node_modules", 300),
    ];
    let mut app = App::new(modules, 0);
    // one entry already deleted interactively: the pass skips it
    assert!(app.on_key(Key::Select).is_some());
    let first = app.bulk_mark_pass();
    assert_eq!(first, vec!["/b/node_modules", "/c/node_modules"]);
    assert_eq!(app.total_deleted, 600);
    assert!(app.modules.iter().all(|m| m.deleted));
    // a later render pass dispatches nothing again
    let second = app.bulk_mark_pass();
    assert!(second.is_empty());
    assert_eq!(app.total_deleted, 600);
}
