use mission_fetch::url::{build_library_artifact_url, build_mission_archive_url};

#[test]
fn mission_archive_url_points_at_the_zipball() {
    assert_eq!(
        build_mission_archive_url("org", "Foo", "main"),
        "https://github.com/org/Foo/zipball/main/"
    );
}

#[test]
fn library_artifact_url_names_the_release_asset() {
    assert_eq!(
        build_library_artifact_url("artemis-sbs", "sbs_utils", "v3.9.30b", "sbs_utils", "sbslib"),
        "https://github.com/artemis-sbs/sbs_utils/releases/download/v3.9.30b/sbs_utils_v3.9.30b.sbslib"
    );
}
