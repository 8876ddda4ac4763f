use tf2c_updater::locator::{DirEntry, DirProbe, LibraryProbe, PopulateError};
use tf2c_updater::state::{AppState, ErrLabel, ManifestStatus};

fn steam_entries() -> Vec<DirEntry> {
    vec![DirEntry { name: "steamapps".to_string(), is_dir: true }]
}

fn good_probe() -> LibraryProbe {
    LibraryProbe {
        game_dir: DirProbe::Present,
        sourcemods_dir: DirProbe::Present,
        version_file: Some("VersionName=2.1.0\nVersionTime=123".to_string()),
    }
}

fn not_installed_probe() -> LibraryProbe {
    LibraryProbe {
        game_dir: DirProbe::Absent,
        sourcemods_dir: DirProbe::Present,
        version_file: None,
    }
}

#[test]
fn startup_state_is_blank_and_pending() {
    let s = AppState::new();
    assert!(s.steam_folder_location.is_none());
    assert!(s.location_err.is_none());
    assert!(s.game_data.is_none());
    assert!(matches!(s.manifest, ManifestStatus::Pending));
}

#[test]
fn selecting_a_valid_library_records_the_installation() {
    let mut s = AppState::new();
    s.select_location("/steam".to_string(), "tf2classic", &steam_entries(), &good_probe());
    assert_eq!(s.steam_folder_location.as_deref(), Some("/steam"));
    assert!(s.location_err.is_none());
    let gd = s.game_data.as_ref().unwrap();
    assert_eq!(gd.location, "/steam/steamapps/sourcemods/tf2classic");
    assert_eq!(gd.version.version_name, "2.1.0");
}

#[test]
fn selecting_a_folder_without_steamapps_clears_the_root() {
    let mut s = AppState::new();
    s.select_location("/pictures".to_string(), "tf2classic", &Vec::new(), &good_probe());
    assert!(s.steam_folder_location.is_none());
    assert_eq!(s.location_err, Some(ErrLabel::NoSteamApps));
    assert!(s.game_data.is_none());
}

#[test]
fn locator_failure_still_records_the_root() {
    let mut s = AppState::new();
    s.select_location("/steam".to_string(), "tf2classic", &steam_entries(), &not_installed_probe());
    assert_eq!(s.steam_folder_location.as_deref(), Some("/steam"));
    assert_eq!(
        s.location_err,
        Some(ErrLabel::PopulateErr(PopulateError::SourcemodsEmpty))
    );
    assert!(s.game_data.is_none());
}

#[test]
fn reselecting_replaces_the_whole_location_state() {
    let mut s = AppState::new();
    s.select_location("/steam".to_string(), "tf2classic", &steam_entries(), &good_probe());
    assert!(s.game_data.is_some());
    // a second selection that fails must leave no stale installation behind
    s.select_location("/other".to_string(), "tf2classic", &steam_entries(), &not_installed_probe());
    assert_eq!(s.steam_folder_location.as_deref(), Some("/other"));
    assert!(s.game_data.is_none());
    assert_eq!(
        s.location_err,
        Some(ErrLabel::PopulateErr(PopulateError::SourcemodsEmpty))
    );
    // and the other way round: an error state is fully replaced by a success
    s.select_location("/steam".to_string(), "tf2classic", &steam_entries(), &good_probe());
    assert_eq!(s.steam_folder_location.as_deref(), Some("/steam"));
    assert!(s.location_err.is_none());
    assert!(s.game_data.is_some());
}

#[test]
fn selection_leaves_the_manifest_alone() {
    let mut s = AppState::new();
    s.fetch_completed(Some(r#"{"versions": {"1.0.0": {}}}"#.to_string()));
    s.select_location("/steam".to_string(), "tf2classic", &steam_entries(), &good_probe());
    assert!(matches!(s.manifest, ManifestStatus::Ready(_)));
}

#[test]
fn transport_failure_is_recorded_as_failed() {
    let mut s = AppState::new();
    s.fetch_completed(None);
    assert!(matches!(
        s.manifest,
        ManifestStatus::Failed(tf2c_updater::manifest::ManifestError::Transport)
    ));
}

#[test]
fn fetched_manifest_yields_the_lexicographic_latest() {
    let mut s = AppState::new();
    s.fetch_completed(Some(
        r#"{"versions": {"1.2.0": {}, "1.10.0": {}, "1.3.0": {}}}"#.to_string(),
    ));
    match &s.manifest {
        ManifestStatus::Ready(latest) => assert_eq!(latest, "1.3.0"),
        other => panic!("expected a ready manifest, got {:?}", other),
    }
}

#[test]
fn unusable_manifest_text_fails_the_fetch() {
    let mut s = AppState::new();
    s.fetch_completed(Some("garbage".to_string()));
    assert!(matches!(
        s.manifest,
        ManifestStatus::Failed(tf2c_updater::manifest::ManifestError::Unparseable)
    ));
}

#[test]
fn empty_manifest_fails_the_fetch() {
    let mut s = AppState::new();
    s.fetch_completed(Some(r#"{"versions": {}}"#.to_string()));
    assert!(matches!(
        s.manifest,
        ManifestStatus::Failed(tf2c_updater::manifest::ManifestError::Empty)
    ));
}
