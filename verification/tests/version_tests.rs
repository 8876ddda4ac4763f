use tf2c_updater::version::{parse_version_file, sus_to_version};

#[test]
fn two_line_descriptor() {
    let kv = parse_version_file("VersionName=1.2.3\nVersionTime=1700000000").unwrap();
    let v = sus_to_version(&kv).unwrap();
    assert_eq!(v.version_name, "1.2.3");
    assert_eq!(v.version_time, "1700000000");
}

#[test]
fn missing_name_key_is_failure() {
    let kv = parse_version_file("VersionTime=1700000000").unwrap();
    assert!(sus_to_version(&kv).is_none());
}

#[test]
fn missing_time_key_is_failure() {
    let kv = parse_version_file("VersionName=1.2.3").unwrap();
    assert!(sus_to_version(&kv).is_none());
}

#[test]
fn empty_input_has_no_keys() {
    let kv = parse_version_file("").unwrap();
    assert!(sus_to_version(&kv).is_none());
    assert!(kv.get("VersionName").is_none());
}

#[test]
fn line_without_equals_is_malformed() {
    assert!(parse_version_file("VersionName").is_none());
    assert!(parse_version_file("VersionName=1.2.3\njunk\nVersionTime=t").is_none());
}

#[test]
fn value_keeps_text_after_first_equals() {
    let kv = parse_version_file("VersionName=a=b\nVersionTime=t").unwrap();
    let v = sus_to_version(&kv).unwrap();
    assert_eq!(v.version_name, "a=b");
}

#[test]
fn duplicate_key_last_write_wins() {
    let kv = parse_version_file("VersionName=a\nVersionName=b\nVersionTime=t").unwrap();
    let v = sus_to_version(&kv).unwrap();
    assert_eq!(v.version_name, "b");
}

#[test]
fn blank_lines_are_skipped() {
    let kv = parse_version_file("\nVersionName=a\n\nVersionTime=t\n").unwrap();
    let v = sus_to_version(&kv).unwrap();
    assert_eq!(v.version_name, "a");
    assert_eq!(v.version_time, "t");
}

#[test]
fn carriage_returns_are_stripped() {
    let kv = parse_version_file("VersionName=a\r\nVersionTime=t\r\n").unwrap();
    let v = sus_to_version(&kv).unwrap();
    assert_eq!(v.version_name, "a");
    assert_eq!(v.version_time, "t");
}

#[test]
fn empty_values_are_accepted_verbatim() {
    let kv = parse_version_file("VersionName=\nVersionTime=").unwrap();
    let v = sus_to_version(&kv).unwrap();
    assert_eq!(v.version_name, "");
    assert_eq!(v.version_time, "");
}

#[test]
fn lookup_of_other_keys() {
    let kv = parse_version_file("VersionName=a\nExtra=42\nVersionTime=t").unwrap();
    assert_eq!(kv.get("Extra").unwrap().as_str(), "42");
    assert!(kv.get("Missing").is_none());
}
