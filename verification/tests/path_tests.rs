use mission_fetch::path::{join, path_components, sanitize, stays_below, SanitizedPath, Skip};
use std::path::Path;

fn owned(parts: &[&str]) -> Vec<String> {
    parts.iter().map(|part| part.to_string()).collect()
}

fn accepted(parent: &str, file_name: &str) -> Result<SanitizedPath, Skip> {
    Ok(SanitizedPath { parent: parent.to_string(), file_name: file_name.to_string() })
}

/// Parent directory and file name as `std::path` finds them in what is left
/// of `path` without its first component.
fn by_std_path(path: &str) -> Option<(String, String)> {
    let mut rest = Path::new(path).components();
    rest.next();
    let short = rest.as_path();
    let file_name = short.file_name()?.to_str()?.to_string();
    let parent = short.parent()?.to_str()?.to_string();
    Some((parent, file_name))
}

#[test]
fn components_leave_out_empty_pieces_and_single_dots() {
    assert_eq!(path_components(""), owned(&[]));
    assert_eq!(path_components("a"), owned(&["a"]));
    assert_eq!(path_components("a/b/c"), owned(&["a", "b", "c"]));
    assert_eq!(path_components("a//b/./c/"), owned(&["a", "b", "c"]));
    assert_eq!(path_components("a/../b"), owned(&["a", "..", "b"]));
}

#[test]
fn components_keep_a_leading_root_or_dot() {
    assert_eq!(path_components("/"), owned(&["/"]));
    assert_eq!(path_components("/a/b"), owned(&["/", "a", "b"]));
    assert_eq!(path_components("//a"), owned(&["/", "a"]));
    assert_eq!(path_components("/./a"), owned(&["/", "a"]));
    assert_eq!(path_components("."), owned(&["."]));
    assert_eq!(path_components("./a"), owned(&[".", "a"]));
    assert_eq!(path_components("./"), owned(&["."]));
    assert_eq!(path_components(".a/b"), owned(&[".a", "b"]));
}

#[test]
fn components_agree_with_std_path() {
    for path in [
        "", "a", "a/b", "/", "/a", "//a//b", ".", "./a", "a/.", "a/./b", "..", "../a", "a/..",
        "./..", "/..", "a/b/", "repo-abc123/src/main.py", ".hidden/x", "a/.b/c",
    ] {
        let expected: Vec<String> = Path::new(path)
            .components()
            .map(|component| component.as_os_str().to_str().unwrap().to_string())
            .collect();
        assert_eq!(path_components(path), expected, "{:?}", path);
    }
}

#[test]
fn join_puts_slashes_between() {
    let parts = owned(&["a", "b", "c", "d"]);
    assert_eq!(join(&parts, 0, 4), "a/b/c/d");
    assert_eq!(join(&parts, 1, 3), "b/c");
    assert_eq!(join(&parts, 2, 3), "c");
    assert_eq!(join(&parts, 2, 2), "");
    assert_eq!(join(&parts, 4, 4), "");
}

#[test]
fn sanitize_drops_the_wrapper_directory() {
    assert_eq!(sanitize("repo-abc123/main.py", false), accepted("", "main.py"));
    assert_eq!(sanitize("repo-abc123/src/main.py", false), accepted("src", "main.py"));
    assert_eq!(sanitize("repo-abc123/a/b/c.txt", true), accepted("a/b", "c.txt"));
    assert_eq!(sanitize("repo-abc123/src/", false), accepted("", "src"));
    assert_eq!(sanitize("repo-abc123/a/b/", false), accepted("a", "b"));
}

#[test]
fn sanitize_skips_what_has_no_file_name() {
    assert_eq!(sanitize("", false), Err(Skip::NoFileName));
    assert_eq!(sanitize("repo-abc123", false), Err(Skip::NoFileName));
    assert_eq!(sanitize("repo-abc123/", true), Err(Skip::NoFileName));
    assert_eq!(sanitize("/", false), Err(Skip::NoFileName));
    assert_eq!(sanitize(".", false), Err(Skip::NoFileName));
    assert_eq!(sanitize("repo/..", false), Err(Skip::NoFileName));
    assert_eq!(sanitize("repo/a/..", false), Err(Skip::NoFileName));
}

#[test]
fn sanitize_skips_hidden_entries_with_and_without_docs() {
    for include_docs in [false, true] {
        assert_eq!(sanitize("repo/.gitignore", include_docs), Err(Skip::Hidden));
        assert_eq!(sanitize("repo/.github/workflows/ci.yml", include_docs), Err(Skip::Hidden));
        assert_eq!(sanitize("repo/src/.keep", include_docs), Err(Skip::Hidden));
        assert_eq!(sanitize("repo/.github/", include_docs), Err(Skip::Hidden));
        assert_eq!(sanitize("repo/../x", include_docs), Err(Skip::Hidden));
        assert_eq!(sanitize("repo/mkdocs/.nav.yml", include_docs), Err(Skip::Hidden));
        assert_eq!(sanitize("repo/.docs/mkdocs/a.md", include_docs), Err(Skip::Hidden));
    }
}

#[test]
fn sanitize_does_not_skip_a_dot_further_down() {
    assert_eq!(sanitize("repo/src/.cache/x", false), accepted("src/.cache", "x"));
    assert_eq!(sanitize("repo/a.b/c.d", false), accepted("a.b", "c.d"));
}

#[test]
fn sanitize_skips_documentation_unless_asked_for() {
    assert_eq!(sanitize("repo/mkdocs/index.md", false), Err(Skip::Documentation));
    assert_eq!(sanitize("repo/mkdocs/index.md", true), accepted("mkdocs", "index.md"));
    assert_eq!(sanitize("repo/mkdocs/docs/", false), Err(Skip::Documentation));
    assert_eq!(sanitize("repo/mkdocs/docs/", true), accepted("mkdocs", "docs"));
}

#[test]
fn sanitize_takes_documentation_to_be_the_parent_directory_itself() {
    assert_eq!(sanitize("repo/mkdocs/", false), accepted("", "mkdocs"));
    assert_eq!(sanitize("repo/mkdocs", false), accepted("", "mkdocs"));
    assert_eq!(sanitize("repo/mkdocs/img/logo.png", false), accepted("mkdocs/img", "logo.png"));
    assert_eq!(sanitize("repo/mkdocs2/a.md", false), accepted("mkdocs2", "a.md"));
    assert_eq!(sanitize("repo/src/mkdocs/a.md", false), accepted("src/mkdocs", "a.md"));
    assert_eq!(sanitize("repo/MkDocs/a.md", false), accepted("MkDocs", "a.md"));
}

#[test]
fn sanitize_reads_the_path_as_a_whole() {
    assert_eq!(sanitize("./repo/a.txt", false), accepted("repo", "a.txt"));
    assert_eq!(sanitize("/repo/a.txt", false), accepted("repo", "a.txt"));
    assert_eq!(sanitize("repo//src/./main.py", false), accepted("src", "main.py"));
    assert_eq!(sanitize("repo/x/../../b", false), accepted("x/../..", "b"));
}

#[test]
fn sanitize_agrees_with_std_path() {
    for path in [
        "repo/main.py",
        "repo/src/main.py",
        "repo/a/b/c/d.txt",
        "repo/src/",
        "repo",
        "repo/",
        "",
        "./repo/x",
        "/repo/x",
        "repo/a/..",
        "repo/x/../../b",
        "repo/mkdocs/img/logo.png",
        "repo/mkdocs2/a.md",
    ] {
        let expected = by_std_path(path);
        let found = match sanitize(path, true) {
            Ok(sanitized) => Some((sanitized.parent, sanitized.file_name)),
            Err(Skip::NoFileName) => None,
            Err(other) => panic!("{:?}: {:?}", path, other),
        };
        assert_eq!(found, expected, "{:?}", path);
    }
}

#[test]
fn relative_is_parent_and_file_name() {
    let nested = SanitizedPath { parent: "a/b".to_string(), file_name: "c.txt".to_string() };
    assert_eq!(nested.relative(), "a/b/c.txt");
    let top = SanitizedPath { parent: String::new(), file_name: "c.txt".to_string() };
    assert_eq!(top.relative(), "c.txt");
}

#[test]
fn stays_below_follows_each_component() {
    assert!(stays_below(""));
    assert!(stays_below("a"));
    assert!(stays_below("mission/src/main.py"));
    assert!(stays_below("mission/x/../y"));
    assert!(stays_below("mission/.."));
    assert!(stays_below("mission/x/../../b"));
    assert!(stays_below("./a"));
    assert!(stays_below("/a"));
    assert!(!stays_below(".."));
    assert!(!stays_below("../mission"));
    assert!(!stays_below("mission/../../b"));
    assert!(!stays_below("mission/../../mission/b"));
    assert!(!stays_below("/../a"));
    assert!(!stays_below("a/b/../../../c/d"));
}
