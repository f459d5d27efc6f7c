use rskill::age::{format_duration, get_age};
use rskill::entry::NodeModule;

#[test]
fn format_duration_units() {
    assert_eq!(format_duration(0), "0s");
    assert_eq!(format_duration(59), "59s");
    assert_eq!(format_duration(60), "1m");
    assert_eq!(format_duration(75), "1m");
    assert_eq!(format_duration(3599), "59m");
    assert_eq!(format_duration(3600), "1h");
    assert_eq!(format_duration(86399), "23h");
    assert_eq!(format_duration(86400), "1d");
    assert_eq!(format_duration(2591999), "29d");
    assert_eq!(format_duration(2592000), "30d");
    assert_eq!(format_duration(25920000), "300d");
}

#[test]
fn format_duration_negative_age() {
    assert_eq!(format_duration(-5), "-5s");
    assert_eq!(format_duration(i64::MIN), format!("{}s", i64::MIN));
}

#[test]
fn get_age_magnitudes() {
    assert_eq!(get_age(0), 0);
    assert_eq!(get_age(-7), -7);
    assert_eq!(get_age(59), 59);
    assert_eq!(get_age(60), 1);
    assert_eq!(get_age(7200), 2);
    assert_eq!(get_age(86400), 1);
    assert_eq!(get_age(2592000), 30);
}

#[test]
fn probe_failure_degrades_to_zero() {
    let m = NodeModule::new(String::from("/p/node_modules"), None);
    assert_eq!(m.size, 0);
    assert_eq!(m.modified, 0);
    assert!(!m.deleted);
}

#[test]
fn entry_records_probed_details() {
    let m = NodeModule::new(String::from("/p/.cache/node_modules"), Some((4096, 77)));
    assert_eq!(m.size, 4096);
    assert_eq!(m.modified, 77);
    assert!(!m.deleted);
    assert!(m.is_dangerous);
    let safe = NodeModule::new(String::from("/p/code/node_modules"), Some((1, 1)));
    assert!(!safe.is_dangerous);
}
