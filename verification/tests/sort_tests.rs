use rskill::config::SortBy;
use rskill::entry::NodeModule;
use rskill::sort::sort_modules;

fn entry(path: &str, size: u64, modified: i64) -> NodeModule {
    NodeModule::new(String::from(path), Some((size, modified)))
}

fn paths(v: &[NodeModule]) -> Vec<&str> {
    v.iter().map(|m| m.path.as_str()).collect()
}

#[test]
fn size_sort_scenario() {
    let modules = vec![entry("/a/node_modules", 1000, 0), entry("/b/node_modules", 2000, 0)];
    let sorted = sort_modules(modules, &Some(SortBy::Size));
    assert_eq!(paths(&sorted), vec!["/b/node_modules", "/a/node_modules"]);
}

#[test]
fn size_sort_is_descending_on_adjacent_pairs() {
    let modules = vec![
        entry("/a", 10, 0),
        entry("/b", 500, 0),
        entry("/c", 3, 0),
        entry("/d", 500, 0),
        entry("/e", 42, 0),
    ];
    let sorted = sort_modules(modules, &Some(SortBy::Size));
    assert_eq!(sorted.len(), 5);
    for pair in sorted.windows(2) {
        assert!(pair[0].size >= pair[1].size);
    }
}

#[test]
fn path_sort_is_lexicographic() {
    let modules = vec![
        entry("/home/zeta/node_modules", 1, 0),
        entry("/home/alpha/node_modules", 2, 0),
        entry("/home/alpha/nested/node_modules", 3, 0),
    ];
    let sorted = sort_modules(modules, &Some(SortBy::Path));
    let got = paths(&sorted);
    assert_eq!(
        got,
        vec![
            "/home/alpha/nested/node_modules",
            "/home/alpha/node_modules",
            "/home/zeta/node_modules",
        ]
    );
    for pair in sorted.windows(2) {
        assert!(pair[0].path <= pair[1].path);
    }
}

#[test]
fn last_mod_sort_puts_most_recent_first() {
    let modules = vec![entry("/old", 1, 500), entry("/new", 2, 5), entry("/mid", 3, 100)];
    let sorted = sort_modules(modules, &Some(SortBy::LastMod));
    assert_eq!(paths(&sorted), vec!["/new", "/mid", "/old"]);
}

#[test]
fn no_sort_keeps_arrival_order() {
    let modules = vec![entry("/b", 2, 0), entry("/a", 1, 0)];
    let kept = sort_modules(modules, &None);
    assert_eq!(paths(&kept), vec!["/b", "/a"]);
}
