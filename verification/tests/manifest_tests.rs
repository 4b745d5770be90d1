use mission_fetch::manifest::{parse_manifest_line, resolve, ManifestLine};

fn line(user: &str, repo: &str, version: &str, lib: &str) -> ManifestLine {
    ManifestLine {
        user: user.to_string(),
        repo: repo.to_string(),
        version: version.to_string(),
        lib: lib.to_string(),
    }
}

#[test]
fn line_with_three_words_names_the_library_after_the_repository() {
    assert_eq!(
        parse_manifest_line("artemis-sbs sbs_utils v3.9.30b"),
        Some(line("artemis-sbs", "sbs_utils", "v3.9.30b", "sbs_utils"))
    );
    assert_eq!(
        resolve("artemis-sbs sbs_utils v3.9.30b"),
        vec![line("artemis-sbs", "sbs_utils", "v3.9.30b", "sbs_utils")]
    );
}

#[test]
fn line_with_four_words_names_the_library_itself() {
    assert_eq!(
        parse_manifest_line("artemis-sbs LegendaryMissions v3.9.30b zadmiral"),
        Some(line("artemis-sbs", "LegendaryMissions", "v3.9.30b", "zadmiral"))
    );
}

#[test]
fn words_after_the_fourth_are_ignored() {
    assert_eq!(
        parse_manifest_line("a b c d e f"),
        Some(line("a", "b", "c", "d"))
    );
}

#[test]
fn line_with_fewer_than_three_words_asks_for_nothing() {
    assert_eq!(parse_manifest_line(""), None);
    assert_eq!(parse_manifest_line("   \t "), None);
    assert_eq!(parse_manifest_line("artemis-sbs"), None);
    assert_eq!(parse_manifest_line("artemis-sbs sbs_utils"), None);
    assert_eq!(parse_manifest_line("  artemis-sbs   sbs_utils  "), None);
}

#[test]
fn runs_of_white_space_separate_words() {
    assert_eq!(
        parse_manifest_line("\tartemis-sbs   sbs_utils\t\tv3.9.30b  "),
        Some(line("artemis-sbs", "sbs_utils", "v3.9.30b", "sbs_utils"))
    );
}

#[test]
fn resolve_goes_on_after_a_short_line() {
    let text = "artemis-sbs sbs_utils v3.9.30b\nbroken line\n\nartemis-sbs LegendaryMissions v3.9.30b zadmiral\n";
    assert_eq!(
        resolve(text),
        vec![
            line("artemis-sbs", "sbs_utils", "v3.9.30b", "sbs_utils"),
            line("artemis-sbs", "LegendaryMissions", "v3.9.30b", "zadmiral"),
        ]
    );
}

#[test]
fn resolve_reads_a_short_line_as_if_it_were_not_there() {
    let with = "a b c\nonly two\nd e f g";
    let without = "a b c\nd e f g";
    assert_eq!(resolve(with), resolve(without));
    assert_eq!(resolve(with), vec![line("a", "b", "c", "b"), line("d", "e", "f", "g")]);
}

#[test]
fn resolve_does_not_join_lines() {
    assert_eq!(resolve("a b\nc"), Vec::<ManifestLine>::new());
    assert_eq!(resolve("a\nb\nc\n"), Vec::<ManifestLine>::new());
}

#[test]
fn resolve_accepts_carriage_returns_and_a_missing_last_line_feed() {
    assert_eq!(
        resolve("a b c\r\nd e f\r\n"),
        vec![line("a", "b", "c", "b"), line("d", "e", "f", "e")]
    );
    assert_eq!(resolve("a b c"), vec![line("a", "b", "c", "b")]);
}

#[test]
fn empty_manifest_asks_for_nothing() {
    assert_eq!(resolve(""), Vec::<ManifestLine>::new());
    assert_eq!(resolve("\n\n\n"), Vec::<ManifestLine>::new());
}
