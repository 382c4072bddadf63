use silos::paths::{
    data_root_for, icons_dir, safe_app_data_dir, macos_bundle_data_root, safe_session_data_dir, session_data_dir, webapps_dir,
};

#[test]
fn finds_app_bundle_root_two_levels_up() {
    let exe = "/Applications/Silos.app/Contents/MacOS/silos";
    assert_eq!(macos_bundle_data_root(exe), "/Applications");
}

#[test]
fn matches_app_extension_case_insensitively() {
    let exe = "/Users/x/Applications/Foo.App/Contents/MacOS/foo";
    assert_eq!(macos_bundle_data_root(exe), "/Users/x/Applications");
}

#[test]
fn falls_back_to_exe_parent_outside_any_bundle() {
    let exe = "/opt/silos/silos";
    assert_eq!(macos_bundle_data_root(exe), "/opt/silos");
}

#[test]
fn uses_nearest_app_ancestor_when_nested() {
    let exe = "/A.app/Nested/B.app/Contents/MacOS/bin";
    assert_eq!(macos_bundle_data_root(exe), "/A.app/Nested");
}

#[test]
fn data_root_sits_next_to_the_executable_or_bundle() {
    assert_eq!(data_root_for("/opt/silos/silos", false).as_deref(), Some("/opt/silos/data"));
    assert_eq!(
        data_root_for("/Applications/Silos.app/Contents/MacOS/silos", true).as_deref(),
        Some("/Applications/data")
    );
    assert_eq!(data_root_for("/", false), None);
}

#[test]
fn webapp_and_session_folders() {
    assert_eq!(webapps_dir("/d"), "/d/webapps");
    assert_eq!(icons_dir("/d"), "/d/icons");
    assert_eq!(session_data_dir("/d/webapps", "gmail", "g1"), "/d/webapps/gmail/g1");
}

#[test]
fn safe_session_dirs_refuse_unsafe_components() {
    assert_eq!(safe_session_data_dir("/d/webapps", "gmail", "g-1_a").unwrap(), "/d/webapps/gmail/g-1_a");
    assert_eq!(safe_session_data_dir("/d/webapps", "..", "g1").unwrap_err(), "invalid session path");
    assert_eq!(safe_session_data_dir("/d/webapps", "gmail", "a/b").unwrap_err(), "invalid session path");
    assert_eq!(safe_session_data_dir("/d/webapps", "", "g").unwrap_err(), "invalid session path");
    let long = "x".repeat(129);
    assert_eq!(safe_session_data_dir("/d/webapps", "gmail", &long).unwrap_err(), "invalid session path");
}

#[test]
fn app_data_dir_refuses_unsafe_slugs() {
    assert_eq!(safe_app_data_dir("/d/webapps", "gmail").unwrap(), "/d/webapps/gmail");
    assert_eq!(safe_app_data_dir("/d/webapps", "..").unwrap_err(), "invalid app data path");
    assert_eq!(safe_app_data_dir("/d/webapps", "").unwrap_err(), "invalid app data path");
    assert_eq!(safe_app_data_dir("/d/webapps", "a/b").unwrap_err(), "invalid app data path");
}
