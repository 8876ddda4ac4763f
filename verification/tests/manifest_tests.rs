use tf2c_updater::manifest::{latest, parse_versions, ManifestError};

#[test]
fn lexicographic_sort_puts_one_three_last() {
    // lexicographic, not numeric: "1.10.0" sorts before "1.3.0"
    let raw = r#"{"versions": {"1.2.0": {}, "1.10.0": {}, "1.3.0": {}}}"#;
    let versions = parse_versions(raw).unwrap();
    assert_eq!(versions, vec!["1.10.0", "1.2.0", "1.3.0"]);
    assert_eq!(latest(&versions).unwrap().as_str(), "1.3.0");
}

#[test]
fn empty_versions_object_is_an_error_not_a_crash() {
    let versions = parse_versions(r#"{"versions": {}}"#).unwrap();
    assert!(versions.is_empty());
    assert_eq!(latest(&versions).unwrap_err(), ManifestError::Empty);
}

#[test]
fn invalid_json_is_unparseable() {
    assert_eq!(
        parse_versions("not json at all").unwrap_err(),
        ManifestError::Unparseable
    );
}

#[test]
fn missing_versions_field_is_unparseable() {
    assert_eq!(
        parse_versions(r#"{"releases": {"1.0.0": {}}}"#).unwrap_err(),
        ManifestError::Unparseable
    );
}

#[test]
fn versions_field_that_is_no_object_is_unparseable() {
    assert_eq!(
        parse_versions(r#"{"versions": ["1.0.0", "1.1.0"]}"#).unwrap_err(),
        ManifestError::Unparseable
    );
}

#[test]
fn names_are_sorted_ascending() {
    let raw = r#"{"versions": {"beta": {"x": 1}, "alpha": null, "rc": "y"}}"#;
    let versions = parse_versions(raw).unwrap();
    assert_eq!(versions, vec!["alpha", "beta", "rc"]);
}

#[test]
fn latest_of_a_plain_list() {
    let versions = vec!["a".to_string(), "b".to_string()];
    assert_eq!(latest(&versions).unwrap().as_str(), "b");
    let one = vec!["only".to_string()];
    assert_eq!(latest(&one).unwrap().as_str(), "only");
}
