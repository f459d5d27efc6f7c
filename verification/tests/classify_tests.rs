use rskill::classify::{
    is_dangerous, is_excluded, is_nested_module, should_descend, split_exclusions,
};

#[test]
fn test_hidden_file_unix() {
    let path = "/home/user/.hidden_file";
    assert!(is_dangerous(path), "Hidden file on Unix should be dangerous");
}

#[test]
fn test_hidden_file_windows() {
    let path = "C:\\Users\\user\\.hidden_file";
    assert!(is_dangerous(path), "Hidden file on Windows should be dangerous");
}

#[test]
fn test_hidden_directory_unix() {
    let path = "/home/user/.hidden_dir/file.txt";
    assert!(
        is_dangerous(path),
        "File in hidden directory on Unix should be dangerous"
    );
}

#[test]
fn test_hidden_directory_windows() {
    let path = "C:\\Users\\user\\.hidden_dir\\file.txt";
    assert!(
        is_dangerous(path),
        "File in hidden directory on Windows should be dangerous"
    );
}

#[test]
fn test_mac_app_bundle() {
    let path = "/Applications/MyApp.app/Contents/MacOS/MyApp";
    assert!(is_dangerous(path), "macOS app bundle should be dangerous");
}

#[test]
fn test_windows_app_data() {
    let path = "C:\\Users\\user\\AppData\\Local\\Temp\\file.txt";
    assert!(is_dangerous(path), "Windows AppData path should be dangerous");
}

#[test]
fn test_safe_path_unix() {
    let path = "/home/user/Documents/file.txt";
    assert!(!is_dangerous(path), "Normal Unix path should not be dangerous");
}

#[test]
fn test_safe_path_windows() {
    let path = "C:\\Users\\user\\Documents\\file.txt";
    assert!(
        !is_dangerous(path),
        "Normal Windows path should not be dangerous"
    );
}

#[test]
fn test_root_path() {
    let path = "/";
    assert!(!is_dangerous(path), "Root path should not be dangerous");
}

#[test]
fn test_empty_path() {
    let path = "";
    assert!(!is_dangerous(path), "Empty path should not be dangerous");
}

#[test]
fn test_dot_path() {
    let path = ".";
    assert!(
        !is_dangerous(path),
        "Current directory path should not be dangerous"
    );
}

#[test]
fn test_dot_dot_path() {
    let path = "..";
    assert!(
        !is_dangerous(path),
        "Parent directory path should not be dangerous"
    );
}

#[test]
fn sensitive_scenarios() {
    assert!(is_dangerous("/Applications/Foo.app/Contents"));
    assert!(!is_dangerous("/home/user/docs"));
}

#[test]
fn dot_dot_segments_inside_path() {
    assert!(!is_dangerous("./projects/code"));
    assert!(!is_dangerous("../projects/../code"));
    assert!(is_dangerous("../projects/.cache/code"));
}

#[test]
fn nested_match_counts_occurrences() {
    assert!(!is_nested_module("/home/user/proj/node_modules", "node_modules"));
    assert!(is_nested_module(
        "/home/user/proj/node_modules/dep/node_modules",
        "node_modules"
    ));
    assert!(is_nested_module(
        "/a/node_modules/node_modules/node_modules",
        "node_modules"
    ));
}

#[test]
fn excluded_by_substring() {
    let with = vec![String::from("proj")];
    assert!(is_excluded("/home/user/proj/node_modules", &with));
    let without = vec![String::from("other")];
    assert!(!is_excluded("/home/user/proj/node_modules", &without));
    let none: Vec<String> = Vec::new();
    assert!(!is_excluded("/home/user/proj/node_modules", &none));
}

#[test]
fn split_exclusions_on_commas() {
    assert_eq!(split_exclusions("ignore1,ignore2"), vec!["ignore1", "ignore2"]);
    assert_eq!(split_exclusions(""), vec![""]);
    assert_eq!(split_exclusions("a,,b"), vec!["a", "", "b"]);
    assert_eq!(split_exclusions("solo"), vec!["solo"]);
}

#[test]
fn descend_decisions() {
    let none: Vec<String> = Vec::new();
    // a first match is entered, a nested one is not
    assert!(should_descend(
        "/p/node_modules",
        "node_modules",
        "node_modules",
        false,
        &none
    ));
    assert!(!should_descend(
        "/p/node_modules/d/node_modules",
        "node_modules",
        "node_modules",
        false,
        &none
    ));
    // hidden directories are pruned only when hidden exclusion is on
    assert!(should_descend("/p/.git", ".git", "node_modules", false, &none));
    assert!(!should_descend("/p/.git", ".git", "node_modules", true, &none));
    // an excluded path is never entered
    let excl = vec![String::from("vendor")];
    assert!(!should_descend(
        "/p/vendor/lib",
        "lib",
        "node_modules",
        false,
        &excl
    ));
}
